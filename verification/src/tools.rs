//! The tools that the server offers, and how they are told apart.
use std::sync::Arc;
use vstd::prelude::*;
use vstd::string::*;

use crate::invocation::Invocation;

verus! {

/// How a tool presents itself.
pub struct ToolAttr {
    pub name: String,
    pub description: String,
}

/// A tool.
pub trait ToolDef {
    /// The name by which it is called.
    spec fn tool_name(&self) -> Seq<char>;

    /// What it does, in words.
    spec fn tool_description(&self) -> Seq<char>;

    /// The name by which it is called.
    fn name(&self) -> (name: &str)
        ensures
            name@ == self.tool_name(),
    ;

    /// How it presents itself.
    fn attr(&self) -> (attr: ToolAttr)
        ensures
            attr.name@ == self.tool_name(),
            attr.description@ == self.tool_description(),
    ;
}

/// The tool that runs a shell script.
pub struct Bash;

/// The tool that reads a file.
pub struct Read;

/// The tool that writes a file.
pub struct Write;

/// The tool that edits a file.
pub struct Edit;

impl ToolDef for Bash {
    open spec fn tool_name(&self) -> Seq<char> {
        "bash"@
    }

    open spec fn tool_description(&self) -> Seq<char> {
        "Run a shell command. Standard output and standard error are returned together, followed by the exit code when it is nonzero. The bash and file tools share the same filesystem."@
    }

    fn name(&self) -> (name: &str) {
        "bash"
    }

    fn attr(&self) -> (attr: ToolAttr) {
        ToolAttr {
            name: "bash".to_string(),
            description: "Run a shell command. Standard output and standard error are returned together, followed by the exit code when it is nonzero. The bash and file tools share the same filesystem.".to_string(),
        }
    }
}

impl ToolDef for Read {
    open spec fn tool_name(&self) -> Seq<char> {
        "read"@
    }

    open spec fn tool_description(&self) -> Seq<char> {
        "Read a text file with numbered lines. The path must be absolute. Use offset and limit to select a range of lines."@
    }

    fn name(&self) -> (name: &str) {
        "read"
    }

    fn attr(&self) -> (attr: ToolAttr) {
        ToolAttr {
            name: "read".to_string(),
            description: "Read a text file with numbered lines. The path must be absolute. Use offset and limit to select a range of lines.".to_string(),
        }
    }
}

impl ToolDef for Write {
    open spec fn tool_name(&self) -> Seq<char> {
        "write"@
    }

    open spec fn tool_description(&self) -> Seq<char> {
        "Write a text file. The path must be absolute, and missing parent directories are created automatically."@
    }

    fn name(&self) -> (name: &str) {
        "write"
    }

    fn attr(&self) -> (attr: ToolAttr) {
        ToolAttr {
            name: "write".to_string(),
            description: "Write a text file. The path must be absolute, and missing parent directories are created automatically.".to_string(),
        }
    }
}

impl ToolDef for Edit {
    open spec fn tool_name(&self) -> Seq<char> {
        "edit"@
    }

    open spec fn tool_description(&self) -> Seq<char> {
        "Replace exact text in a file. By default the old text must occur exactly once; set replace_all to replace every occurrence."@
    }

    fn name(&self) -> (name: &str) {
        "edit"
    }

    fn attr(&self) -> (attr: ToolAttr) {
        ToolAttr {
            name: "edit".to_string(),
            description: "Replace exact text in a file. By default the old text must occur exactly once; set replace_all to replace every occurrence.".to_string(),
        }
    }
}

impl<T> ToolDef for Invocation<T> {
    open spec fn tool_name(&self) -> Seq<char> {
        self@.name@
    }

    open spec fn tool_description(&self) -> Seq<char> {
        match self@.description {
            Some(text) => text@,
            None => Seq::empty(),
        }
    }

    fn name(&self) -> (name: &str) {
        self.tool().name.as_str()
    }

    fn attr(&self) -> (attr: ToolAttr) {
        ToolAttr {
            name: self.tool().name.clone(),
            description: match &self.tool().description {
                Some(text) => text.clone(),
                None => String::new(),
            },
        }
    }
}

/// A tool that is known by its name: two with the same name are equal.
pub struct Def<T: ToolDef + ?Sized>(Arc<T>);

impl<T: ToolDef + ?Sized> Def<T> {
    /// The tool itself.
    pub closed spec fn shared(&self) -> Arc<T> {
        self.0
    }

    /// The name of the tool.
    pub open spec fn view(&self) -> Seq<char> {
        self.shared().tool_name()
    }

    /// The tool under its name.
    pub fn new(def: Arc<T>) -> (result: Self)
        ensures
            result.shared() == def,
    {
        Def(def)
    }

    /// The name of the tool.
    #[must_use]
    pub fn name(&self) -> (name: &str)
        ensures
            name@ == self@,
    {
        self.0.name()
    }

    /// The tool itself.
    pub fn tool(&self) -> (tool: &Arc<T>)
        ensures
            *tool == self.shared(),
    {
        &self.0
    }
}

impl<T: ToolDef + ?Sized> Clone for Def<T> {
    /// The same tool.
    fn clone(&self) -> (copy: Self)
        ensures
            copy.shared() == self.shared(),
    {
        Def(self.0.clone())
    }
}

impl<T: ToolDef + ?Sized> PartialEq for Def<T> {
    fn eq(&self, other: &Self) -> (same: bool) {
        self.name().to_string() == other.name().to_string()
    }
}

impl<T: ToolDef + ?Sized> vstd::std_specs::cmp::PartialEqSpecImpl for Def<T> {
    open spec fn obeys_eq_spec() -> bool {
        true
    }

    open spec fn eq_spec(&self, other: &Self) -> bool {
        self@ == other@
    }
}

impl<T: ToolDef + ?Sized> Eq for Def<T> {

}

/// The text is the name.
pub open spec fn spells(text: &str, name: Seq<char>) -> bool {
    text@ == name
}

impl<T: ToolDef + ?Sized> std::borrow::Borrow<str> for Def<T> {
    /// The name of the tool.
    fn borrow(&self) -> (name: &str)
        ensures
            spells(name, self@),
    {
        self.name()
    }
}

/// Feeds a text to a hasher with the `Hash` of `str`. What state a hasher is in
/// after that is up to the hasher, so nothing is claimed of it here: contracts
/// say which text went into this call, and which states it led from and to.
#[verifier::external_body]
pub fn hash_text<H: std::hash::Hasher>(text: &str, state: &mut H) {
    std::hash::Hash::hash(text, state)
}

impl<T: ToolDef + ?Sized> std::hash::Hash for Def<T> {
    /// Feeds the name to the hasher, and nothing else: the hasher ends in a
    /// state to which the text of the name can lead it.
    fn hash<H: std::hash::Hasher>(&self, state: &mut H)
        ensures
            exists|name: &str, fed: &mut H|
                spells(name, self@) && *fed == *old(state) && *final(fed) == *final(state)
                    && #[trigger] call_ensures(hash_text::<H>, (name, fed), ()),
    {
        hash_text(self.name(), state)
    }
}

/// Two tools that are equal feed a hasher alike: from one state the one can lead
/// it to the same states as the other.
pub proof fn equal_tools_hash_alike<T: ToolDef + ?Sized, H: std::hash::Hasher>(
    one: Def<T>,
    other: Def<T>,
    before: H,
    after: H,
)
    requires
        vstd::std_specs::cmp::PartialEqSpec::eq_spec(&one, &other),
    ensures
        (exists|name: &str, fed: &mut H|
            spells(name, one@) && *fed == before && *final(fed) == after
                && #[trigger] call_ensures(hash_text::<H>, (name, fed), ())) <==> (exists|
            name: &str,
            fed: &mut H,
        |
            spells(name, other@) && *fed == before && *final(fed) == after
                && #[trigger] call_ensures(hash_text::<H>, (name, fed), ())),
{
}

/// A tool can be found by its name: a hasher that is fed a text of that name
/// comes to a state to which the tool can lead it too.
pub proof fn names_hash_as_their_tools<T: ToolDef + ?Sized, H: std::hash::Hasher>(
    tool: Def<T>,
    text: &str,
    before: H,
    after: H,
)
    requires
        spells(text, tool@),
    ensures
        (exists|fed: &mut H|
            *fed == before && *final(fed) == after && #[trigger] call_ensures(
                hash_text::<H>,
                (text, fed),
                (),
            )) ==> (exists|name: &str, fed: &mut H|
            spells(name, tool@) && *fed == before && *final(fed) == after
                && #[trigger] call_ensures(hash_text::<H>, (name, fed), ())),
{
}

/// The server's own tools have different names.
pub proof fn own_tools_are_told_apart()
    ensures
        Bash.tool_name() != Read.tool_name(),
        Bash.tool_name() != Write.tool_name(),
        Bash.tool_name() != Edit.tool_name(),
        Read.tool_name() != Write.tool_name(),
        Read.tool_name() != Edit.tool_name(),
        Write.tool_name() != Edit.tool_name(),
{
    reveal_strlit("bash");
    reveal_strlit("read");
    reveal_strlit("write");
    reveal_strlit("edit");
    assert("bash"@[0] == 'b');
    assert("read"@[0] == 'r');
    assert("write"@[0] == 'w');
    assert("edit"@[0] == 'e');
}

/// A configured program presents itself as it is configured: under its name
/// and with its description, or with an empty one if it has none.
pub proof fn programs_present_themselves<T>(program: Invocation<T>)
    ensures
        program.tool_name() == program@.name@,
        program@.description matches Some(text) ==> program.tool_description() == text@,
        program@.description is None ==> program.tool_description().len() == 0,
{
}

/// Tools are equal if and only if they have the same name, whatever else they
/// are.
pub proof fn tools_are_known_by_name<T: ToolDef + ?Sized>(one: Def<T>, other: Def<T>, text: &str)
    ensures
        vstd::std_specs::cmp::PartialEqSpec::eq_spec(&one, &other) <==> one.shared().tool_name()
            == other.shared().tool_name(),
        spells(text, one@) <==> text@ == one.shared().tool_name(),
{
}

} // verus!
