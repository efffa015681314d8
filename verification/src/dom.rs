//! A minimal model of the visual tree a widget hands to the layout layer:
//! a node kind, its CSS classes, and its children. Tree construction and
//! diffing live in the layout collaborator outside this library; widgets
//! here only build these values.

use vstd::prelude::*;

verus! {

/// The kind of a visual node.
pub enum NodeType {
    /// A plain container.
    Div,
    /// A text label.
    Label(String),
}

/// One node of the visual tree, with its CSS classes and children in the
/// order they were attached.
pub struct Dom {
    pub node_type: NodeType,
    pub classes: Vec<String>,
    pub children: Vec<Dom>,
}

impl Dom {
    pub fn new(node_type: NodeType) -> (r: Dom)
        ensures
            r.node_type == node_type,
            r.classes@.len() == 0,
            r.children@.len() == 0,
    {
        Dom { node_type, classes: Vec::new(), children: Vec::new() }
    }

    /// The node with one more CSS class appended.
    pub fn with_class(self, class: String) -> (r: Dom)
        ensures
            r.node_type == self.node_type,
            r.classes@ == self.classes@.push(class),
            r.children@ == self.children@,
    {
        let mut d = self;
        d.classes.push(class);
        d
    }

    /// The node with one more child appended.
    pub fn with_child(self, child: Dom) -> (r: Dom)
        ensures
            r.node_type == self.node_type,
            r.classes@ == self.classes@,
            r.children@ == self.children@.push(child),
    {
        let mut d = self;
        d.children.push(child);
        d
    }
}

} // verus!
