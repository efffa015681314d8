use azul_core::tasks::TaskQueue;

#[test]
fn tasks_drain_in_fifo_order() {
    let mut q: TaskQueue<u32> = TaskQueue::new();
    q.add_task(1);
    q.add_task(2);
    q.add_task(3);
    assert_eq!(q.len(), 3);
    assert_eq!(q.drain(), vec![1, 2, 3]);
    assert_eq!(q.len(), 0);
}

#[test]
fn pop_returns_oldest_first() {
    let mut q: TaskQueue<&str> = TaskQueue::new();
    assert_eq!(q.pop_task(), None);
    q.add_task("first");
    q.add_task("second");
    assert_eq!(q.pop_task(), Some("first"));
    assert_eq!(q.pop_task(), Some("second"));
    assert_eq!(q.pop_task(), None);
}
