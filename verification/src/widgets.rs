//! Built-in widgets. A widget holds plain state and builds its visual tree
//! on demand.

use vstd::prelude::*;
use crate::dom::{Dom, NodeType};

verus! {

/// A checkbox: its whole state is whether it is checked.
#[derive(Copy, Debug, Clone, Hash, PartialEq, Eq, Structural)]
pub struct Checkbox {
    pub content: bool,
}

impl Checkbox {
    pub fn new(checked: bool) -> (r: Self)
        ensures
            r.content == checked,
    {
        Self { content: checked }
    }

    /// The checkbox's visual tree: a root container holding the box — with
    /// a checkmark child exactly when checked — and the label text.
    pub fn dom(self) -> (r: Dom)
        ensures
            r.node_type == NodeType::Div,
            r.classes@.len() == 1 && r.classes@[0]@ == "__azul-native-checkbox"@,
            r.children@.len() == 2,
            ({
                let bx = r.children@[0];
                &&& bx.node_type == NodeType::Div
                &&& bx.classes@.len() == 1 && bx.classes@[0]@ == "__azul-native-checkbox-box"@
                &&& bx.children@.len() == (if self.content {
                    1int
                } else {
                    0int
                })
                &&& (self.content ==> {
                    let mark = bx.children@[0];
                    &&& mark.node_type == NodeType::Div
                    &&& mark.classes@.len() == 1
                    &&& mark.classes@[0]@ == "__azul-native-checkbox-checkmark"@
                    &&& mark.children@.len() == 0
                })
            }),
            ({
                let label = r.children@[1];
                &&& (label.node_type matches NodeType::Label(s) && s@ == "checkbox"@)
                &&& label.classes@.len() == 1
                &&& label.classes@[0]@ == "__azul-native-checkbox-text"@
                &&& label.children@.len() == 0
            }),
    {
        let checkbox_text = Dom::new(NodeType::Label(String::from_str("checkbox"))).with_class(
            String::from_str("__azul-native-checkbox-text"),
        );
        let mut checkbox_box = Dom::new(NodeType::Div).with_class(
            String::from_str("__azul-native-checkbox-box"),
        );
        if self.content {
            let checkbox_checkmark = Dom::new(NodeType::Div).with_class(
                String::from_str("__azul-native-checkbox-checkmark"),
            );
            checkbox_box = checkbox_box.with_child(checkbox_checkmark);
        }
        let checkbox_root = Dom::new(NodeType::Div).with_class(
            String::from_str("__azul-native-checkbox"),
        ).with_child(checkbox_box).with_child(checkbox_text);
        checkbox_root
    }
}

} // verus!
