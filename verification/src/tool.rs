//! A tool as a server advertises it: a name, a human-readable description,
//! and an optional input schema. The schema is advisory metadata for the
//! caller, an opaque document that is copied, never inspected.

use vstd::prelude::*;

use crate::json;

verus! {

/// One advertised tool. Immutable once received from a server.
pub struct Tool {
    pub name: String,
    pub description: String,
    pub input_schema: Option<serde_json::Value>,
}

/// The mathematical content of a `Tool`.
pub struct ToolView {
    pub name: Seq<char>,
    pub description: Seq<char>,
    pub schema: Option<serde_json::Value>,
}

impl View for Tool {
    type V = ToolView;

    open spec fn view(&self) -> ToolView {
        ToolView {
            name: self.name@,
            description: self.description@,
            schema: self.input_schema,
        }
    }
}

impl Tool {
    /// An exact copy: same name, same description, same schema document.
    pub fn duplicate(&self) -> (t: Tool)
        ensures
            t@ == self@,
    {
        let schema: Option<serde_json::Value> = match &self.input_schema {
            Some(v) => Some(json::clone_value(v)),
            None => None,
        };
        Tool { name: self.name.clone(), description: self.description.clone(), input_schema: schema }
    }
}

/// The views of a sequence of tools.
pub open spec fn tool_views(ts: Seq<Tool>) -> Seq<ToolView> {
    ts.map_values(|t: Tool| t@)
}

} // verus!
