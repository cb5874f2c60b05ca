use vstd::prelude::*;
use vstd::string::StringExecFns;

use crate::encoding::str_eq;
use crate::error::Error;
use crate::json_rpc::JsonObject;

verus! {

/// JSON-schema value kinds used by tool descriptors.
#[derive(Debug, Clone, PartialEq, Eq, Structural)]
pub enum ToolType {
    Object,
    String,
    Integer,
    Boolean,
    Array,
    Number,
    Function,
}

impl ToolType {
    /// Reads a kind from its wire name; any other name is
    /// `Error::NotImplemented`.
    pub fn from_str(s: &str) -> (r: Result<ToolType, Error>)
        ensures
            s@ == "object"@ ==> r == Ok::<ToolType, Error>(ToolType::Object),
            s@ == "string"@ ==> r == Ok::<ToolType, Error>(ToolType::String),
            s@ == "integer"@ ==> r == Ok::<ToolType, Error>(ToolType::Integer),
            s@ == "boolean"@ ==> r == Ok::<ToolType, Error>(ToolType::Boolean),
            s@ == "array"@ ==> r == Ok::<ToolType, Error>(ToolType::Array),
            s@ == "number"@ ==> r == Ok::<ToolType, Error>(ToolType::Number),
            s@ == "function"@ ==> r == Ok::<ToolType, Error>(ToolType::Function),
            s@ != "object"@ && s@ != "string"@ && s@ != "integer"@ && s@ != "boolean"@ && s@
                != "array"@ && s@ != "number"@ && s@ != "function"@ ==> r == Err::<
                ToolType,
                Error,
            >(Error::NotImplemented),
    {
        proof {
            reveal_strlit("object");
            reveal_strlit("string");
            reveal_strlit("integer");
            reveal_strlit("boolean");
            reveal_strlit("array");
            reveal_strlit("number");
            reveal_strlit("function");
            // The names differ pairwise already in their first character.
            assert("object"@[0] == 'o' && "string"@[0] == 's' && "integer"@[0] == 'i'
                && "boolean"@[0] == 'b' && "array"@[0] == 'a' && "number"@[0] == 'n'
                && "function"@[0] == 'f');
        }
        if str_eq(s, "object") {
            Ok(ToolType::Object)
        } else if str_eq(s, "string") {
            Ok(ToolType::String)
        } else if str_eq(s, "integer") {
            Ok(ToolType::Integer)
        } else if str_eq(s, "boolean") {
            Ok(ToolType::Boolean)
        } else if str_eq(s, "array") {
            Ok(ToolType::Array)
        } else if str_eq(s, "number") {
            Ok(ToolType::Number)
        } else if str_eq(s, "function") {
            Ok(ToolType::Function)
        } else {
            Err(Error::NotImplemented)
        }
    }
}

/// Arguments handed to a tool call, keyed by argument name.
pub type McpArguments = JsonObject;

/// What a `tools/call` request names: the tool and its arguments.
#[derive(Debug)]
pub struct McpParams {
    pub tool_name: String,
    pub arguments: McpArguments,
}

impl McpParams {
    /// Parameters for `name` with no arguments yet.
    pub fn new(name: &str) -> (r: McpParams)
        ensures
            r.tool_name@ == name@,
            r.arguments.wf(),
            r.arguments@ == Map::<Seq<char>, serde_json::Value>::empty(),
    {
        McpParams { tool_name: String::from_str(name), arguments: JsonObject::new() }
    }

    /// Binds one argument, replacing any earlier value under the same name.
    pub fn add_argument(&mut self, name: &str, value: serde_json::Value)
        requires
            old(self).arguments.wf(),
        ensures
            final(self).arguments.wf(),
            final(self).arguments@ == old(self).arguments@.insert(name@, value),
            final(self).tool_name == old(self).tool_name,
    {
        self.arguments.insert(String::from_str(name), value);
    }
}

/// One named property of a tool's input schema.
#[derive(Debug)]
pub struct McpToolProperty {
    pub property_type: ToolType,
    pub description: Option<String>,
    pub items: Option<McpToolSchema>,
    pub enums: Option<Vec<String>>,
}

/// A tool's input schema: a kind with optional properties and constraints.
#[derive(Debug)]
pub struct McpToolSchema {
    pub schema_type: ToolType,
    pub properties: Option<Vec<(String, McpToolProperty)>>,
    pub required: Option<Vec<String>>,
    pub enums: Option<Vec<String>>,
}

/// A tool descriptor from a listing reply: pass-through data.
#[derive(Debug)]
pub struct McpTool {
    pub name: String,
    pub description: String,
    pub input_schema: Option<McpToolSchema>,
}

/// Transport kinds a configuration may name.
#[derive(Debug, Clone)]
pub enum McpTypes {
    Sse,
}

impl McpTypes {
    /// The kind's wire name.
    pub fn as_text(&self) -> (r: &'static str)
        ensures
            r@ == "sse"@,
    {
        match self {
            McpTypes::Sse => "sse",
        }
    }
}

} // verus!
