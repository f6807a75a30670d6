//! The programs that are offered as tools, as they are configured.
use vstd::prelude::*;

verus! {

/// A piece of a command line.
pub struct Fragment {
    /// The arguments of which it consists.
    pub elements: Vec<String>,
    /// Whether a value has to be filled in.
    pub takes_value: bool,
}

impl Fragment {
    /// Whether a value has to be filled in.
    pub fn takes_value(&self) -> (takes: bool)
        ensures
            takes == self.takes_value,
    {
        self.takes_value
    }

    /// The arguments of which it consists.
    pub fn elements(&self) -> (elements: &Vec<String>)
        ensures
            *elements == self.elements,
    {
        &self.elements
    }
}

/// A named parameter of a tool.
pub struct ParamSpec {
    pub name: String,
    /// What is put on the command line for a value, or for a flag that is set.
    pub args: Fragment,
    /// What is put there without a value, or for a flag that is not set.
    pub default: Fragment,
    pub description: Option<String>,
}

/// That a tool takes further arguments.
pub struct RemainderSpec {
    /// What is put before them, if there are any.
    pub prefix: Vec<String>,
    pub description: Option<String>,
}

/// That a tool takes text for its standard input.
pub struct StdinSpec {
    pub required: bool,
    pub description: Option<String>,
}

/// A program that is offered as a tool. `target` says which program it is; no
/// rule depends on it.
pub struct McpTool<T> {
    pub name: String,
    pub description: Option<String>,
    pub stdin: Option<StdinSpec>,
    pub params: Vec<ParamSpec>,
    pub remainder: Option<RemainderSpec>,
    pub target: T,
}

} // verus!
