use azul_core::dom::{Dom, NodeType};
use azul_core::widgets::Checkbox;

#[test]
fn checkbox_new_stores_checked_state() {
    assert!(Checkbox::new(true).content);
    assert!(!Checkbox::new(false).content);
}

#[test]
fn checked_checkbox_dom_has_checkmark() {
    let dom = Checkbox::new(true).dom();
    assert!(matches!(dom.node_type, NodeType::Div));
    assert_eq!(dom.classes, vec![String::from("__azul-native-checkbox")]);
    assert_eq!(dom.children.len(), 2);
    let bx = &dom.children[0];
    assert_eq!(bx.classes, vec![String::from("__azul-native-checkbox-box")]);
    assert_eq!(bx.children.len(), 1);
    assert_eq!(
        bx.children[0].classes,
        vec![String::from("__azul-native-checkbox-checkmark")]
    );
    let label = &dom.children[1];
    match &label.node_type {
        NodeType::Label(s) => assert_eq!(s, "checkbox"),
        NodeType::Div => panic!("label expected"),
    }
    assert_eq!(label.classes, vec![String::from("__azul-native-checkbox-text")]);
}

#[test]
fn unchecked_checkbox_dom_has_empty_box() {
    let dom = Checkbox::new(false).dom();
    assert_eq!(dom.children.len(), 2);
    assert_eq!(dom.children[0].children.len(), 0);
}

#[test]
fn dom_builders_append_in_order() {
    let d = Dom::new(NodeType::Div)
        .with_class(String::from("a"))
        .with_class(String::from("b"))
        .with_child(Dom::new(NodeType::Div));
    assert_eq!(d.classes, vec![String::from("a"), String::from("b")]);
    assert_eq!(d.children.len(), 1);
}
