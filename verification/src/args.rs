//! What the tools are called with.
use vstd::prelude::*;
use vstd::string::*;

verus! {

/// The text that Rust's `{:?}` writes for a string: quoted and escaped.
pub uninterp spec fn debug_text(text: Seq<char>) -> Seq<char>;

/// Writes a string with `{:?}`, the `Debug` of `str`. Which characters are
/// escaped, and how, is left to it: nothing is claimed but that the string
/// determines the result.
#[verifier::external_body]
fn debug(text: &str) -> (shown: String)
    ensures
        shown@ == debug_text(text@),
{
    format!("{:?}", text)
}

/// A path that begins at the root.
pub open spec fn is_absolute(path: Seq<char>) -> bool {
    path.len() > 0 && path[0] == '/'
}

/// A path that begins at the root.
pub struct AbsolutePath(String);

impl AbsolutePath {
    /// The path's text.
    pub closed spec fn view(&self) -> Seq<char> {
        self.0@
    }

    #[verifier::type_invariant]
    spec fn begins_at_root(self) -> bool {
        is_absolute(self.0@)
    }

    /// The path's text.
    pub fn as_str(&self) -> (path: &str)
        ensures
            path@ == self@,
            is_absolute(self@),
    {
        proof {
            use_type_invariant(self);
        }
        self.0.as_str()
    }
}

/// What is said of a path that is not absolute, where `shown` is how the path
/// is written.
pub open spec fn relative_path_message(shown: Seq<char>) -> Seq<char> {
    "file_path must be an absolute path, not relative: "@ + shown
}

/// Says that a path is not absolute.
pub fn relative_path_error(shown: &str) -> (message: String)
    ensures
        message@ == relative_path_message(shown@),
{
    let mut message = "file_path must be an absolute path, not relative: ".to_string();
    message.append(shown);
    message
}

impl TryFrom<String> for AbsolutePath {
    type Error = String;

    /// Accepts a path that begins at the root.
    fn try_from(path: String) -> (result: Result<Self, String>)
        ensures
            match result {
                Ok(absolute) => is_absolute(path@) && absolute@ == path@,
                Err(message) => !is_absolute(path@) && message@ == relative_path_message(
                    debug_text(path@),
                ),
            },
    {
        if !path.as_str().is_empty() && path.as_str().get_char(0) == '/' {
            Ok(AbsolutePath(path))
        } else {
            Err(relative_path_error(debug(path.as_str()).as_str()))
        }
    }
}

impl vstd::std_specs::convert::TryFromSpecImpl<String> for AbsolutePath {
    open spec fn obeys_try_from_spec() -> bool {
        false
    }

    open spec fn try_from_spec(path: String) -> Result<Self, String> {
        arbitrary()
    }
}

/// The line at which reading starts. Lines are counted from 1.
pub struct LineOffset(u64);

impl LineOffset {
    /// The number of the line.
    pub closed spec fn view(&self) -> nat {
        self.0 as nat
    }

    #[verifier::type_invariant]
    spec fn counted_from_one(self) -> bool {
        self.0 >= 1
    }

    /// How many lines come before it, or the largest `usize` if there are more.
    pub open spec fn lines_before(&self) -> nat {
        if self@ - 1 > usize::MAX {
            usize::MAX as nat
        } else {
            (self@ - 1) as nat
        }
    }

    /// Whether this is the first line.
    pub fn is_start(&self) -> (start: bool)
        ensures
            start == (self@ == 1),
            self@ >= 1,
    {
        proof {
            use_type_invariant(self);
        }
        self.0 == 1
    }

    /// How many lines to skip.
    pub fn skip(&self) -> (count: usize)
        ensures
            count == self.lines_before(),
            self@ >= 1,
    {
        proof {
            use_type_invariant(self);
        }
        match usize::try_from(self.0 - 1) {
            Ok(count) => count,
            Err(_) => usize::MAX,
        }
    }
}

impl TryFrom<Option<u64>> for LineOffset {
    type Error = String;

    /// Accepts a line number from 1 on; without one, the first line is meant.
    fn try_from(offset: Option<u64>) -> (result: Result<Self, String>)
        ensures
            match result {
                Ok(line) => offset != Some(0u64) && line@ == (match offset {
                    Some(number) => number,
                    None => 1,
                }),
                Err(message) => offset == Some(0u64) && message@
                    == "offset: line numbers start at 1"@,
            },
    {
        let number: u64 = offset.unwrap_or(1);
        if number == 0 {
            Err("offset: line numbers start at 1".to_string())
        } else {
            Ok(LineOffset(number))
        }
    }
}

impl vstd::std_specs::convert::TryFromSpecImpl<Option<u64>> for LineOffset {
    open spec fn obeys_try_from_spec() -> bool {
        false
    }

    open spec fn try_from_spec(offset: Option<u64>) -> Result<Self, String> {
        arbitrary()
    }
}

impl Default for LineOffset {
    /// The first line.
    fn default() -> (line: Self)
        ensures
            line@ == 1,
    {
        LineOffset(1)
    }
}

/// How many lines are read.
pub enum LineLimit {
    /// All that are left.
    Rest,
    /// At most this many.
    Lines(u64),
}

impl LineLimit {
    /// How many lines that is at most, or the largest `usize` if it is more.
    pub open spec fn most(&self) -> nat {
        match self {
            LineLimit::Rest => usize::MAX as nat,
            LineLimit::Lines(count) => if *count > usize::MAX {
                usize::MAX as nat
            } else {
                *count as nat
            },
        }
    }

    /// How many lines to take.
    pub fn take(&self) -> (count: usize)
        ensures
            count == self.most(),
    {
        match self {
            LineLimit::Rest => usize::MAX,
            LineLimit::Lines(count) => match usize::try_from(*count) {
                Ok(count) => count,
                Err(_) => usize::MAX,
            },
        }
    }
}

/// The limit that an optional count of lines stands for.
pub open spec fn limit_of(limit: Option<u64>) -> LineLimit {
    match limit {
        Some(count) => LineLimit::Lines(count),
        None => LineLimit::Rest,
    }
}

impl From<Option<u64>> for LineLimit {
    /// Without a count, all lines that are left.
    fn from(limit: Option<u64>) -> (result: Self) {
        match limit {
            Some(count) => LineLimit::Lines(count),
            None => LineLimit::Rest,
        }
    }
}

impl vstd::std_specs::convert::FromSpecImpl<Option<u64>> for LineLimit {
    open spec fn obeys_from_spec() -> bool {
        true
    }

    open spec fn from_spec(limit: Option<u64>) -> Self {
        limit_of(limit)
    }
}

impl Default for LineLimit {
    /// All lines that are left.
    fn default() -> (result: Self)
        ensures
            result == LineLimit::Rest,
            result == limit_of(None),
    {
        LineLimit::from(None)
    }
}

/// The text that an edit looks for.
pub struct OldText(pub String);

/// The text that an edit puts in its place.
pub struct NewText(pub String);

/// The source of a shell script.
pub struct ShellSource(pub String);

/// What is written to a file.
pub struct FileContent(pub String);

/// The arguments of the shell tool.
pub struct BashArgs {
    pub command: ShellSource,
    pub description: String,
}

/// The arguments of the tool that reads a file.
pub struct ReadArgs {
    pub file_path: AbsolutePath,
    pub offset: LineOffset,
    pub limit: LineLimit,
}

/// The arguments of the tool that writes a file.
pub struct WriteArgs {
    pub file_path: AbsolutePath,
    pub content: FileContent,
}

/// The arguments of the tool that edits a file, as they are given.
pub struct EditArgs {
    pub file_path: AbsolutePath,
    pub old_string: OldText,
    pub new_string: NewText,
    pub replace_all: bool,
}

/// Which occurrences an edit replaces.
#[derive(Clone, Copy, PartialEq, Eq, Structural)]
pub enum ReplaceMode {
    /// The only one.
    Single,
    /// Each one.
    All,
}

/// An edit that changes something: the two texts differ.
pub struct Replacement {
    file_path: AbsolutePath,
    old: OldText,
    new: NewText,
    mode: ReplaceMode,
}

impl Replacement {
    /// The path of the file.
    pub closed spec fn path(&self) -> Seq<char> {
        self.file_path@
    }

    /// The text that is looked for.
    pub closed spec fn old_text(&self) -> Seq<char> {
        self.old.0@
    }

    /// The text that is put in its place.
    pub closed spec fn new_text(&self) -> Seq<char> {
        self.new.0@
    }

    /// Which occurrences are replaced.
    pub closed spec fn replaces(&self) -> ReplaceMode {
        self.mode
    }

    #[verifier::type_invariant]
    spec fn changes_something(self) -> bool {
        self.old.0@ != self.new.0@
    }

    /// The path of the file.
    pub fn file_path(&self) -> (path: &AbsolutePath)
        ensures
            path@ == self.path(),
    {
        &self.file_path
    }

    /// The text that is looked for.
    pub fn old_string(&self) -> (text: &str)
        ensures
            text@ == self.old_text(),
            self.old_text() != self.new_text(),
    {
        proof {
            use_type_invariant(self);
        }
        self.old.0.as_str()
    }

    /// The text that is put in its place.
    pub fn new_string(&self) -> (text: &str)
        ensures
            text@ == self.new_text(),
    {
        self.new.0.as_str()
    }

    /// Which occurrences are replaced.
    pub fn mode(&self) -> (mode: ReplaceMode)
        ensures
            mode == self.replaces(),
    {
        self.mode
    }
}

impl TryFrom<EditArgs> for Replacement {
    type Error = String;

    /// Accepts arguments whose two texts differ.
    fn try_from(args: EditArgs) -> (result: Result<Self, String>)
        ensures
            match result {
                Ok(edit) => {
                    &&& args.old_string.0@ != args.new_string.0@
                    &&& edit.path() == args.file_path@
                    &&& edit.old_text() == args.old_string.0@
                    &&& edit.new_text() == args.new_string.0@
                    &&& edit.replaces() == if args.replace_all {
                        ReplaceMode::All
                    } else {
                        ReplaceMode::Single
                    }
                },
                Err(message) => {
                    &&& args.old_string.0@ == args.new_string.0@
                    &&& message@
                        == "No changes to make: old_string and new_string are exactly the same."@
                },
            },
    {
        if args.old_string.0 == args.new_string.0 {
            return Err(
                "No changes to make: old_string and new_string are exactly the same.".to_string(),
            );
        }
        Ok(
            Replacement {
                file_path: args.file_path,
                old: args.old_string,
                new: args.new_string,
                mode: if args.replace_all {
                    ReplaceMode::All
                } else {
                    ReplaceMode::Single
                },
            },
        )
    }
}

impl vstd::std_specs::convert::TryFromSpecImpl<EditArgs> for Replacement {
    open spec fn obeys_try_from_spec() -> bool {
        false
    }

    open spec fn try_from_spec(args: EditArgs) -> Result<Self, String> {
        arbitrary()
    }
}

/// A path is absolute if and only if it begins with a slash; any other is
/// refused with a message that shows it.
pub proof fn absolute_paths_begin_with_a_slash(path: Seq<char>)
    ensures
        is_absolute(path) <==> exists|rest: Seq<char>| path == #[trigger] (seq!['/'] + rest),
        relative_path_message(path) == "file_path must be an absolute path, not relative: "@ + path,
{
    if is_absolute(path) {
        assert(path =~= seq!['/'] + path.skip(1));
    }
}

/// As many lines are skipped as come before the offset, and as many are taken
/// as the limit has, as far as a `usize` can count them. Without a limit all
/// are taken.
pub proof fn offsets_and_limits_count_lines(offset: LineOffset, count: u64)
    requires
        offset@ >= 1,
    ensures
        offset@ <= usize::MAX ==> offset.lines_before() + 1 == offset@,
        offset@ > usize::MAX ==> offset.lines_before() == usize::MAX,
        count <= usize::MAX ==> limit_of(Some(count)).most() == count,
        count > usize::MAX ==> limit_of(Some(count)).most() == usize::MAX,
        limit_of(None).most() == usize::MAX,
        limit_of(None) is Rest,
        limit_of(Some(count)) == LineLimit::Lines(count),
{
}

/// A path is accepted as it is if it begins with a slash, and an offset as the
/// number that it is, which is 1 without one. An offset of 0 is refused.
pub proof fn accepted_arguments_are_kept(
    path: String,
    absolute: Result<AbsolutePath, String>,
    offset: Option<u64>,
    line: Result<LineOffset, String>,
)
    requires
        call_ensures(<AbsolutePath as TryFrom<String>>::try_from, (path,), absolute),
        call_ensures(<LineOffset as TryFrom<Option<u64>>>::try_from, (offset,), line),
    ensures
        absolute is Ok <==> path@.len() > 0 && path@[0] == '/',
        absolute matches Ok(kept) ==> kept@ == path@,
        line is Ok <==> offset != Some(0u64),
        offset matches Some(number) ==> number > 0 ==> line->Ok_0@ == number,
        offset is None ==> line->Ok_0@ == 1,
{
}

} // verus!
