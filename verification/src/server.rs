//! What the server does about a call of one of its own tools: what it asks of
//! the sandbox, and what it answers to what comes back.
use vstd::prelude::*;
use vstd::string::*;

use crate::args::{
    AbsolutePath, BashArgs, EditArgs, LineLimit, LineOffset, ReadArgs, ReplaceMode, Replacement, WriteArgs,
};
use crate::lines;
use crate::matching;
use crate::output;
use crate::output::{Answer, HostOutput, ToolResult};
use crate::path;
use crate::text;

verus! {

/// The largest file that is read as a whole, in bytes.
pub const MAX_BYTES: usize = 256 * 1024;

/// What a script reads from its standard input.
#[derive(Clone, Copy, PartialEq, Eq, Structural)]
pub enum ScriptInput {
    /// Nothing: it is closed.
    Closed,
}

/// A script that the sandbox is to run.
pub struct Script {
    pub source: String,
    pub interpreter: String,
    pub arguments: Vec<String>,
    pub input: ScriptInput,
}

/// A file that the sandbox is to write.
pub struct WriteRequest {
    pub path: String,
    pub content: String,
}

/// What writing did to a file.
#[derive(Clone, Copy, PartialEq, Eq, Structural)]
pub enum Written {
    /// It was there before.
    Updated,
    /// It is new.
    Created,
}

/// What follows when the file that is edited has been read.
pub enum EditStep {
    /// It is written anew.
    Write(WriteRequest),
    /// That was all.
    Reply(ToolResult),
}

/// The answer to a call of the shell tool.
pub open spec fn bash_answer(outcome: Result<HostOutput, String>) -> Answer {
    match outcome {
        Ok(output) => output::done(output::report_of(output)),
        Err(message) => output::failed(message@),
    }
}

/// The length of a text in UTF-8.
pub open spec fn byte_len(text: Seq<char>) -> usize {
    vstd::utf8::encode_utf8(text).len() as usize
}

/// A number of units, rounded to a whole one. Of two that are equally near the
/// even one is taken.
pub open spec fn nearest(value: nat, unit: nat) -> nat {
    let whole = value / unit;
    let rest = value % unit;
    if 2 * rest > unit || 2 * rest == unit && whole % 2 == 1 {
        whole + 1
    } else {
        whole
    }
}

/// From this size on a size is no longer measured to the byte.
pub const EXACT_SIZES: u128 = 0x20_0000_0000_0000;

/// The unit in which a size is measured: the smallest power of two that leaves
/// fewer than `EXACT_SIZES` of them.
pub open spec fn size_unit(size: nat) -> nat
    decreases size,
{
    if size < EXACT_SIZES {
        1
    } else {
        2 * size_unit(size / 2)
    }
}

/// A size as it is measured.
pub open spec fn measured(size: nat) -> nat {
    nearest(size, size_unit(size)) * size_unit(size)
}

/// The tenths of a kilobyte that are nearest to a size in bytes.
pub open spec fn tenths(size: nat) -> nat {
    nearest(measured(size) * 10, 1024)
}

/// A size in bytes, written in kilobytes with one decimal.
pub open spec fn kilobytes(size: nat) -> Seq<char> {
    text::decimal(tenths(size) / 10) + seq!['.', text::digit(tenths(size) % 10)]
}

/// What is said of a file that is too large to be read as a whole.
pub open spec fn too_large(size: nat) -> Seq<char> {
    "File content ("@ + kilobytes(size) + "KB) exceeds maximum allowed size ("@ + text::decimal(
        (MAX_BYTES / 1024) as nat,
    ) + "KB). Use offset and limit parameters to read specific portions of the file, or search for specific content instead of reading the whole file."@
}

/// The answer to a call of the tool that reads a file, once the file is read.
/// All of it at once is given only if it is not too large; of a range of lines
/// each is given with its number.
pub open spec fn text_answer(text: Seq<char>, offset: LineOffset, limit: LineLimit) -> Answer {
    if text.len() == 0 {
        output::failed("File exists but has empty contents."@)
    } else if offset@ == 1 && limit is Rest && byte_len(text) > MAX_BYTES {
        output::failed(too_large(byte_len(text) as nat))
    } else {
        output::done(
            text::joined(
                lines::numbered(lines::lines_of(text), offset.lines_before(), limit.most()),
                "\n"@,
            ),
        )
    }
}

/// The answer to a call of the tool that reads a file.
pub open spec fn read_answer(args: ReadArgs, outcome: Result<String, String>) -> Answer {
    match outcome {
        Ok(text) => text_answer(text@, args.offset, args.limit),
        Err(message) => output::failed(message@),
    }
}

/// What is said of a file that was there before and has been written.
pub open spec fn updated_message(path: Seq<char>) -> Seq<char> {
    "The file "@ + path + " has been updated successfully."@
}

/// What is said of a new file.
pub open spec fn created_message(path: Seq<char>) -> Seq<char> {
    "File created successfully at: "@ + path
}

/// The answer to a call of the tool that writes a file.
pub open spec fn write_answer(path: Seq<char>, outcome: Result<Written, String>) -> Answer {
    match outcome {
        Ok(Written::Updated) => output::done(updated_message(path)),
        Ok(Written::Created) => output::done(created_message(path)),
        Err(message) => output::failed(message@),
    }
}

/// What is said where a text that should be the only one of its kind is found
/// more often.
pub open spec fn ambiguous(count: nat) -> Seq<char> {
    "Found "@ + text::decimal(count)
        + " matches of the string to replace, but replace_all is false. To replace all occurrences, set replace_all to true. To replace only one occurrence, please provide more context to uniquely identify the instance."@
}

/// What an edit makes of a text, or why it is refused.
pub open spec fn edited(
    text: Seq<char>,
    old_text: Seq<char>,
    new_text: Seq<char>,
    mode: ReplaceMode,
) -> Result<Seq<char>, Seq<char>> {
    let count = matching::occurrences(text, old_text);
    if count == 0 {
        Err("String to replace not found in file."@)
    } else if mode == ReplaceMode::Single && count >= 2 {
        Err(ambiguous(count))
    } else {
        Ok(matching::replaced(text, old_text, new_text))
    }
}

/// The answer to a call of the tool that edits a file, once it is written.
pub open spec fn edit_answer(path: Seq<char>, outcome: Result<Written, String>) -> Answer {
    match outcome {
        Ok(_) => output::done(updated_message(path)),
        Err(message) => output::failed(message@),
    }
}

/// A number of units, rounded to a whole one.
fn round(value: u128, unit: u128) -> (whole: u128)
    requires
        0 < unit,
        2 * unit <= u128::MAX,
        value < u128::MAX,
    ensures
        whole == nearest(value as nat, unit as nat),
        whole <= value + 1,
{
    let whole: u128 = value / unit;
    let rest: u128 = value % unit;
    proof {
        assert(value / unit <= value) by (nonlinear_arith)
            requires
                0 < unit,
        ;
    }
    if 2 * rest > unit || (2 * rest == unit && whole % 2 == 1) {
        whole + 1
    } else {
        whole
    }
}

/// The unit in which a size is measured.
fn unit_of(size: u128) -> (unit: u128)
    ensures
        unit == size_unit(size as nat),
        1 <= unit,
        unit <= size || unit == 1,
    decreases size,
{
    if size < EXACT_SIZES {
        1
    } else {
        2 * unit_of(size / 2)
    }
}

/// Rounding to a unit adds at most one of them.
proof fn lemma_measured_bound(size: nat, unit: nat)
    requires
        0 < unit,
    ensures
        nearest(size, unit) * unit <= size + unit,
{
    let whole = size / unit;
    assert(whole * unit <= size && (whole + 1) * unit == whole * unit + unit) by (nonlinear_arith)
        requires
            0 < unit,
            whole == size / unit,
    ;
}

/// Writes a size in kilobytes with one decimal.
pub fn kilobytes_text(size: usize) -> (written: String)
    ensures
        written@ == kilobytes(size as nat),
{
    let unit: u128 = unit_of(size as u128);
    let units: u128 = round(size as u128, unit);
    proof {
        lemma_measured_bound(size as nat, unit as nat);
    }
    let count: u128 = units * unit;
    let rounded: u128 = round(count * 10, 1024);
    let mut written = text::decimal_text(rounded / 10);
    let last: u8 = (rounded % 10) as u8;
    written.push('.');
    written.push((48 + last) as char);
    written
}

/// Says that a file was there before and has been written.
fn say_updated(path: &str) -> (message: String)
    ensures
        message@ == updated_message(path@),
{
    let mut message = "The file ".to_string();
    message.append(path);
    message.append(" has been updated successfully.");
    message
}

/// The rules of the server's own tools.
pub struct Server {
    /// The directory from which a relative path is seen.
    pub cwd: String,
}

impl Server {
    /// The path from the root to the file that `path` names.
    pub fn resolve(&self, path: &str) -> (full: String)
        ensures
            full@ == path::resolved(self.cwd@, path@),
    {
        path::resolve_in(self.cwd.as_str(), path)
    }

    /// The script that a call of the shell tool runs.
    pub fn bash(&self, args: BashArgs) -> (script: Script)
        ensures
            script.source@ == args.command.0@,
            script.interpreter@ == "bash"@,
            script.arguments@.len() == 0,
            script.input == ScriptInput::Closed,
    {
        Script {
            source: args.command.0,
            interpreter: "bash".to_string(),
            arguments: Vec::new(),
            input: ScriptInput::Closed,
        }
    }

    /// Answers a call of the shell tool when the script has ended, or could
    /// not be run.
    pub fn bash_reply(&self, outcome: Result<HostOutput, String>) -> (answer: ToolResult)
        ensures
            answer@ == bash_answer(outcome),
    {
        match outcome {
            Ok(result) => output::success(output::run(&result)),
            Err(message) => output::tool_error(message),
        }
    }

    /// The file that a call of the reading tool reads.
    pub fn read(&self, args: &ReadArgs) -> (full: String)
        ensures
            full@ == path::resolved(self.cwd@, args.file_path@),
            full@ == path::normalized(args.file_path@),
    {
        self.resolve(args.file_path.as_str())
    }

    /// Answers a call of the reading tool when the file has been read, or
    /// could not be.
    pub fn read_reply(&self, args: &ReadArgs, outcome: Result<String, String>) -> (answer:
        ToolResult)
        ensures
            answer@ == read_answer(*args, outcome),
    {
        let text = match outcome {
            Ok(text) => text,
            Err(message) => return output::tool_error(message),
        };
        if text.as_str().is_empty() {
            return output::tool_error("File exists but has empty contents.".to_string());
        }
        let whole_file: bool = args.offset.is_start() && match args.limit {
            LineLimit::Rest => true,
            LineLimit::Lines(_) => false,
        };
        if whole_file {
            let size: usize = text.as_str().len();
            if size > MAX_BYTES {
                let mut message = "File content (".to_string();
                message.append(kilobytes_text(size).as_str());
                message.append("KB) exceeds maximum allowed size (");
                message.append(text::decimal_text((MAX_BYTES / 1024) as u128).as_str());
                message.append(
                    "KB). Use offset and limit parameters to read specific portions of the file, or search for specific content instead of reading the whole file.",
                );
                return output::tool_error(message);
            }
        }
        let list = lines::lines(text.as_str());
        let range = lines::number_lines(&list, args.offset.skip(), args.limit.take());
        output::success(text::join(&range, "\n"))
    }

    /// The file that a call of the writing tool writes.
    pub fn write(&self, args: WriteArgs) -> (request: WriteRequest)
        ensures
            request.path@ == path::resolved(self.cwd@, args.file_path@),
            request.path@ == path::normalized(args.file_path@),
            request.content@ == args.content.0@,
    {
        let path = self.resolve(args.file_path.as_str());
        WriteRequest { path, content: args.content.0 }
    }

    /// Answers a call of the writing tool when the file has been written, or
    /// could not be.
    pub fn write_reply(&self, path: &str, outcome: Result<Written, String>) -> (answer: ToolResult)
        ensures
            answer@ == write_answer(path@, outcome),
    {
        match outcome {
            Ok(Written::Updated) => output::success(say_updated(path)),
            Ok(Written::Created) => {
                let mut message = "File created successfully at: ".to_string();
                message.append(path);
                output::success(message)
            },
            Err(message) => output::tool_error(message),
        }
    }

    /// The file that a call of the editing tool reads, and may write.
    pub fn edit(&self, edit: &Replacement) -> (full: String)
        ensures
            full@ == path::resolved(self.cwd@, edit.path()),
            full@ == path::normalized(edit.path()),
    {
        self.resolve(edit.file_path().as_str())
    }

    /// What a call of the editing tool does when the file has been read, or
    /// could not be. A refused edit writes nothing, and one that is made changes
    /// the file.
    pub fn edit_text(
        &self,
        edit: &Replacement,
        path: String,
        outcome: Result<String, String>,
    ) -> (step: EditStep)
        ensures
            match outcome {
                Err(message) => step is Reply && step->Reply_0@ == output::failed(message@),
                Ok(text) => match edited(
                    text@,
                    edit.old_text(),
                    edit.new_text(),
                    edit.replaces(),
                ) {
                    Err(message) => step is Reply && step->Reply_0@ == output::failed(message),
                    Ok(content) => {
                        &&& step is Write
                        &&& step->Write_0.path@ == path@
                        &&& step->Write_0.content@ == content
                        &&& content != text@
                    },
                },
            },
    {
        let text = match outcome {
            Ok(text) => text,
            Err(message) => return EditStep::Reply(output::tool_error(message)),
        };
        let count: u128 = matching::count_occurrences(text.as_str(), edit.old_string());
        if count == 0 {
            return EditStep::Reply(
                output::tool_error("String to replace not found in file.".to_string()),
            );
        }
        if edit.mode() == ReplaceMode::Single && count >= 2 {
            let mut message = "Found ".to_string();
            message.append(text::decimal_text(count).as_str());
            message.append(
                " matches of the string to replace, but replace_all is false. To replace all occurrences, set replace_all to true. To replace only one occurrence, please provide more context to uniquely identify the instance.",
            );
            return EditStep::Reply(output::tool_error(message));
        }
        let content = matching::replace_occurrences(
            text.as_str(),
            edit.old_string(),
            edit.new_string(),
        );
        proof {
            edit_changes_the_text(text@, edit.old_text(), edit.new_text(), edit.replaces());
        }
        EditStep::Write(WriteRequest { path, content })
    }

    /// Answers a call of the editing tool when the file has been written, or
    /// could not be.
    pub fn edit_reply(&self, path: &str, outcome: Result<Written, String>) -> (answer: ToolResult)
        ensures
            answer@ == edit_answer(path@, outcome),
    {
        match outcome {
            Ok(_) => output::success(say_updated(path)),
            Err(message) => output::tool_error(message),
        }
    }
}

/// An edit of the only occurrence is made if and only if the text occurs
/// exactly once, and keeps what is before it and after it.
pub proof fn single_edit_replaces_the_only_occurrence(
    text: Seq<char>,
    old_text: Seq<char>,
    new_text: Seq<char>,
)
    ensures
        edited(text, old_text, new_text, ReplaceMode::Single) is Ok <==> matching::occurrences(
            text,
            old_text,
        ) == 1,
        edited(text, old_text, new_text, ReplaceMode::Single) matches Ok(content) ==> exists|
            before: Seq<char>,
            after: Seq<char>,
        |
            text == #[trigger] (before + old_text + after) && content == before + new_text + after,
{
    if matching::occurrences(text, old_text) == 1 {
        matching::single_replacement(text, old_text, new_text);
    }
}

/// An edit of all occurrences is made if and only if there is one, and
/// replaces each: what is between them stays, and holds no further one.
pub proof fn full_edit_replaces_every_occurrence(
    text: Seq<char>,
    old_text: Seq<char>,
    new_text: Seq<char>,
)
    ensures
        edited(text, old_text, new_text, ReplaceMode::All) is Ok <==> matching::contains(
            text,
            old_text,
        ),
        ({
            let pieces = matching::pieces_of(text, old_text);
            &&& text == text::joined(pieces, old_text)
            &&& edited(text, old_text, new_text, ReplaceMode::All) matches Ok(content) ==> content
                == text::joined(pieces, new_text)
            &&& old_text.len() > 0 ==> forall|i: int|
                0 <= i < pieces.len() ==> !matching::contains(#[trigger] pieces[i], old_text)
        }),
{
    let pieces = matching::pieces_of(text, old_text);
    matching::counted_if_contained(text, old_text);
    matching::pieces_join_to_the_text(text, old_text);
    matching::replaced_joins_the_pieces(text, old_text, new_text);
    if old_text.len() > 0 {
        assert forall|i: int| 0 <= i < pieces.len() implies !matching::contains(
            #[trigger] pieces[i],
            old_text,
        ) by {
            matching::pieces_hold_no_occurrence(text, old_text, i);
        }
    }
}

/// An edit with two different texts changes the file, if it is made.
pub proof fn edit_changes_the_text(
    text: Seq<char>,
    old_text: Seq<char>,
    new_text: Seq<char>,
    mode: ReplaceMode,
)
    requires
        old_text != new_text,
    ensures
        edited(text, old_text, new_text, mode) matches Ok(content) ==> content != text,
{
    if edited(text, old_text, new_text, mode) is Ok {
        matching::replacing_changes_the_text(text, old_text, new_text);
    }
}

/// What can be edited once can be edited fully, with the same result.
pub proof fn single_edit_is_a_full_edit(
    text: Seq<char>,
    old_text: Seq<char>,
    new_text: Seq<char>,
)
    requires
        edited(text, old_text, new_text, ReplaceMode::Single) is Ok,
    ensures
        edited(text, old_text, new_text, ReplaceMode::All) == edited(
            text,
            old_text,
            new_text,
            ReplaceMode::Single,
        ),
{
}

/// The limit of a range that begins with `first` lines and ends where a range
/// with this limit ends after them.
pub open spec fn extended(first: u64, limit: LineLimit) -> LineLimit {
    match limit {
        LineLimit::Rest => LineLimit::Rest,
        LineLimit::Lines(second) => LineLimit::Lines((first + second) as u64),
    }
}

/// A file can be read in ranges: the answers on two ranges, one right after
/// the other, are the two parts of the answer on both. The second range may
/// reach to the end of the file, unless both together are a file that is too
/// large to be read as a whole.
pub proof fn reading_in_ranges(
    text: Seq<char>,
    start: LineOffset,
    next: LineOffset,
    first: u64,
    limit: LineLimit,
)
    requires
        1 <= start@,
        0 < first,
        next@ == start@ + first,
        next@ <= lines::lines_of(text).len() <= usize::MAX,
        match limit {
            LineLimit::Rest => start@ > 1 || byte_len(text) <= MAX_BYTES,
            LineLimit::Lines(second) => 0 < second && first + second <= u64::MAX,
        },
    ensures
        ({
            let one = text_answer(text, start, LineLimit::Lines(first));
            let two = text_answer(text, next, limit);
            let both = text_answer(text, start, extended(first, limit));
            &&& !one.is_error && !two.is_error && !both.is_error
            &&& both.text == one.text + "\n"@ + two.text
        }),
{
    let list = lines::lines_of(text);
    let skip = start.lines_before();
    let both = extended(first, limit).most();
    let one = LineLimit::Lines(first).most();
    let two = limit.most();
    lines::ranges_compose(list, skip, one, two);
    assert(lines::numbered(list, skip, both) =~= lines::numbered(list, skip, one + two));
    text::lemma_joined_concat(
        lines::numbered(list, skip, one),
        lines::numbered(list, skip + one, two),
        "\n"@,
    );
}

/// A range of lines, that is a counted one or one that starts behind the first
/// line, is read whatever the size of the file.
pub proof fn ranges_are_read_at_any_size(text: Seq<char>, offset: LineOffset, limit: LineLimit)
    requires
        text.len() > 0,
        offset@ > 1 || limit is Lines,
    ensures
        !text_answer(text, offset, limit).is_error,
{
}

/// The kilobytes that are written are within half a decimal of the size.
pub proof fn kilobytes_are_nearest(size: nat)
    requires
        size < EXACT_SIZES,
    ensures
        -512 <= tenths(size) * 1024 - size * 10 <= 512,
{
    assert(size / 1 == size && size % 1 == 0) by (nonlinear_arith);
    assert(size_unit(size) == 1);
    assert(nearest(size, 1) == size);
    assert(size * 1 == size) by (nonlinear_arith);
}

/// The shell tool answers with what the script printed, the output before the
/// errors, and then with the exit code unless it is zero, each on a line of its
/// own. That is no failure of the tool, whatever the exit code.
pub proof fn shell_answers_with_what_was_printed(
    output: HostOutput,
    stdout: Seq<char>,
    stderr: Seq<char>,
)
    requires
        output::stands_for(stdout, output.stdout@),
        output::stands_for(stderr, output.stderr@),
    ensures
        ({
            let answer = bash_answer(Ok::<HostOutput, String>(output));
            let printed = if output.stderr@.len() == 0 {
                stdout
            } else if output.stdout@.len() == 0 {
                stderr
            } else {
                stdout + seq!['\n'] + stderr
            };
            let silent = output.stdout@.len() == 0 && output.stderr@.len() == 0;
            let note = "(exit code "@ + text::signed_decimal(output.exit_code as int) + ")"@;
            &&& !answer.is_error
            &&& silent && output.exit_code == 0 ==> answer.text.len() == 0
            &&& silent && output.exit_code != 0 ==> answer.text == note
            &&& !silent && output.exit_code == 0 ==> answer.text == printed
            &&& !silent && output.exit_code != 0 ==> answer.text == printed + seq!['\n'] + note
        }),
{
    output::reports_hold_what_was_printed(output, stdout, stderr);
}

/// A script that ends well and prints a text and nothing else is answered with
/// that text.
pub proof fn shell_output_is_answered(output: HostOutput, printed: Seq<char>)
    requires
        printed.len() > 0,
        output.stdout@ == vstd::utf8::encode_utf8(printed),
        output.stderr@.len() == 0,
        output.exit_code == 0,
    ensures
        bash_answer(Ok::<HostOutput, String>(output)).text == printed,
        !bash_answer(Ok::<HostOutput, String>(output)).is_error,
{
    output::printed_text_is_shown(printed);
    output::success_reports_the_streams(Some(printed), None);
}

/// A script that could not be run is answered with the reason, as a failure.
pub proof fn shell_failures_are_answered(message: String)
    ensures
        bash_answer(Err::<HostOutput, String>(message)).text == message@,
        bash_answer(Err::<HostOutput, String>(message)).is_error,
{
}

/// A file that could not be read is answered with the reason, as a failure,
/// and so is an empty one.
pub proof fn unread_files_are_answered(args: ReadArgs, message: String, text: String)
    ensures
        read_answer(args, Err(message)).text == message@,
        read_answer(args, Err(message)).is_error,
        text@.len() == 0 ==> read_answer(args, Ok(text)).is_error && read_answer(
            args,
            Ok(text),
        ).text == "File exists but has empty contents."@,
{
}

/// A file of more than 256 kilobytes is not read as a whole: the answer gives
/// its size and says what to do.
pub proof fn large_files_are_refused(args: ReadArgs, text: String)
    requires
        text@.len() > 0,
        vstd::utf8::encode_utf8(text@).len() <= usize::MAX,
    ensures
        read_answer(args, Ok(text)).is_error <==> args.offset@ == 1 && args.limit is Rest
            && vstd::utf8::encode_utf8(text@).len() > 262144,
        read_answer(args, Ok(text)).is_error ==> read_answer(args, Ok(text)).text
            == "File content ("@ + kilobytes(vstd::utf8::encode_utf8(text@).len())
            + "KB) exceeds maximum allowed size ("@ + seq!['2', '5', '6']
            + "KB). Use offset and limit parameters to read specific portions of the file, or search for specific content instead of reading the whole file."@,
{
    reveal_with_fuel(text::decimal, 3);
    assert(text::decimal(256) =~= seq!['2', '5', '6']);
}

/// What is read of a file is answered with a row for each line from the offset
/// on, up to the end or to as many lines as are asked for. Each row shows the
/// number of its line and the line as it stands in the file.
pub proof fn reading_shows_the_lines(args: ReadArgs, text: String)
    requires
        text@.len() > 0,
        args.offset@ >= 1,
        !read_answer(args, Ok(text)).is_error,
        lines::lines_of(text@).len() <= usize::MAX,
    ensures
        ({
            let all = lines::lines_of(text@);
            let before = args.offset@ - 1;
            exists|rows: Seq<Seq<char>>|
                {
                    &&& read_answer(args, Ok(text)).text == #[trigger] text::joined(
                        rows,
                        seq!['\n'],
                    )
                    &&& before >= all.len() ==> rows.len() == 0
                    &&& before < all.len() ==> match args.limit {
                        LineLimit::Rest => rows.len() == all.len() - before,
                        LineLimit::Lines(count) => {
                            &&& before + count <= all.len() ==> rows.len() == count
                            &&& before + count >= all.len() ==> rows.len() == all.len() - before
                        },
                    }
                    &&& forall|i: int|
                        0 <= i < rows.len() ==> lines::is_row(
                            #[trigger] rows[i],
                            args.offset@ + i,
                            all[before + i],
                        )
                }
        }),
{
    reveal_strlit("\n");
    assert("\n"@ =~= seq!['\n']);
    let all = lines::lines_of(text@);
    let skip = args.offset.lines_before();
    let take = args.limit.most();
    let rows = lines::numbered(all, skip, take);
    lines::ranges_have_a_row_for_each_line(all, skip, take);
    assert forall|i: int| 0 <= i < rows.len() implies lines::is_row(
        #[trigger] rows[i],
        args.offset@ + i,
        all[args.offset@ - 1 + i],
    ) by {
        lines::rows_show_their_lines(all, skip, take, i);
        assert(skip == args.offset@ - 1);
    }
    assert(read_answer(args, Ok(text)).text == text::joined(rows, seq!['\n']));
}

/// Writing is answered with the path and with what was done, and with the
/// reason, as a failure, if it could not be done.
pub proof fn writing_is_answered(path: Seq<char>, message: String)
    ensures
        write_answer(path, Ok(Written::Updated)).text == "The file "@ + path
            + " has been updated successfully."@,
        write_answer(path, Ok(Written::Created)).text == "File created successfully at: "@ + path,
        !write_answer(path, Ok(Written::Updated)).is_error,
        !write_answer(path, Ok(Written::Created)).is_error,
        write_answer(path, Err(message)).text == message@,
        write_answer(path, Err(message)).is_error,
{
}

/// An edit that was written is answered with the path, whether the file was
/// there or not, and with the reason, as a failure, if it could not be written.
pub proof fn editing_is_answered(path: Seq<char>, written: Written, message: String)
    ensures
        edit_answer(path, Ok(written)).text == "The file "@ + path
            + " has been updated successfully."@,
        !edit_answer(path, Ok(written)).is_error,
        edit_answer(path, Err(message)).text == message@,
        edit_answer(path, Err(message)).is_error,
{
}

/// An edit is refused if the text does not occur, and if it occurs more than
/// once and not every occurrence is meant. Else each occurrence is replaced.
pub proof fn edits_are_made_or_refused(text: Seq<char>, old_text: Seq<char>, new_text: Seq<char>)
    ensures
        ({
            let count = matching::occurrences(text, old_text);
            let single = edited(text, old_text, new_text, ReplaceMode::Single);
            let full = edited(text, old_text, new_text, ReplaceMode::All);
            &&& count == 0 ==> single == Err::<Seq<char>, Seq<char>>(
                "String to replace not found in file."@,
            ) && full == single
            &&& count == 1 ==> single == Ok::<Seq<char>, Seq<char>>(
                matching::replaced(text, old_text, new_text),
            )
            &&& count > 1 ==> single == Err::<Seq<char>, Seq<char>>(
                "Found "@ + text::decimal(count)
                    + " matches of the string to replace, but replace_all is false. To replace all occurrences, set replace_all to true. To replace only one occurrence, please provide more context to uniquely identify the instance."@,
            )
            &&& count >= 1 ==> full == Ok::<Seq<char>, Seq<char>>(
                matching::replaced(text, old_text, new_text),
            )
        }),
{
}

/// The smallest unit that leaves fewer than 2^53 of them.
proof fn lemma_size_unit(size: nat)
    ensures
        size_unit(size) >= 1,
        exists|e: nat| size_unit(size) == #[trigger] vstd::arithmetic::power2::pow2(e),
        size < size_unit(size) * 0x20_0000_0000_0000,
        size_unit(size) > 1 ==> size >= size_unit(size) * 0x10_0000_0000_0000,
    decreases size,
{
    let unit = size_unit(size);
    if size < EXACT_SIZES {
        vstd::arithmetic::power2::lemma2_to64();
        assert(unit == vstd::arithmetic::power2::pow2(0));
    } else {
        let half = size_unit(size / 2);
        lemma_size_unit(size / 2);
        let e = choose|e: nat| half == #[trigger] vstd::arithmetic::power2::pow2(e);
        vstd::arithmetic::power2::lemma_pow2_unfold(e + 1);
        assert(unit == vstd::arithmetic::power2::pow2(e + 1));
    }
}

/// A number of units is the nearest, and even if two are equally near.
proof fn lemma_nearest(value: nat, unit: nat)
    requires
        unit > 0,
    ensures
        -(unit as int) <= 2 * (nearest(value, unit) * unit - value) <= unit,
        2 * (nearest(value, unit) * unit - value) == unit || 2 * (nearest(value, unit) * unit
            - value) == -(unit as int) ==> nearest(value, unit) % 2 == 0,
{
    let whole = value / unit;
    let rest = value % unit;
    assert(value == whole * unit + rest && 0 <= rest < unit && (whole + 1) * unit == whole * unit
        + unit) by (nonlinear_arith)
        requires
            unit > 0,
            whole == value / unit,
            rest == value % unit,
    ;
}

/// A size is written in kilobytes with one decimal, the one that is nearest to
/// the size, and the even one if two are equally near. A size from 2^53 on is
/// first rounded in the same way to a multiple of the power of two that leaves
/// 53 digits of it.
pub proof fn sizes_are_written_in_kilobytes(size: nat)
    ensures
        exists|unit: nat, units: nat, e: nat, kilo: nat, tenth: nat|
            {
                &&& unit == #[trigger] vstd::arithmetic::power2::pow2(e)
                &&& size < unit * 0x20_0000_0000_0000
                &&& unit > 1 ==> size >= unit * 0x10_0000_0000_0000
                &&& -(unit as int) <= 2 * (#[trigger] (units * unit) - size) <= unit
                &&& 2 * (units * unit - size) == unit || 2 * (units * unit - size) == -(
                unit as int) ==> units % 2 == 0
                &&& tenth < 10
                &&& -512 <= (kilo * 10 + tenth) * 1024 - units * unit * 10 <= 512
                &&& (kilo * 10 + tenth) * 1024 - units * unit * 10 == 512 || (kilo * 10 + tenth)
                    * 1024 - units * unit * 10 == -512 ==> tenth % 2 == 0
                &&& kilobytes(size) == #[trigger] text::decimal(kilo) + seq!['.']
                    + #[trigger] text::decimal(tenth)
            },
{
    let unit = size_unit(size);
    let units = nearest(size, unit);
    lemma_size_unit(size);
    lemma_nearest(size, unit);
    let e = choose|e: nat| unit == #[trigger] vstd::arithmetic::power2::pow2(e);
    let count = units * unit;
    lemma_nearest(count * 10, 1024);
    let all = nearest(count * 10, 1024);
    let kilo = all / 10;
    let tenth = all % 10;
    assert(text::decimal(tenth) == seq![text::digit(tenth)]);
    assert(kilobytes(size) =~= text::decimal(kilo) + seq!['.'] + text::decimal(tenth));
    assert(unit == vstd::arithmetic::power2::pow2(e));
}

/// A command is run by bash as it is, without arguments and with no input.
pub proof fn commands_are_run_as_they_are(server: &Server, args: BashArgs, script: Script)
    requires
        call_ensures(Server::bash, (server, args), script),
    ensures
        script.source@ == args.command.0@,
        script.interpreter@ == "bash"@,
        script.arguments@.len() == 0,
{
}

/// What is to be written is written as it is, to the file that is named.
pub proof fn content_is_written_as_it_is(
    server: &Server,
    args: WriteArgs,
    path: AbsolutePath,
    request: WriteRequest,
)
    requires
        call_ensures(Server::write, (server, args), request),
        path == args.file_path,
    ensures
        request.content@ == args.content.0@,
        request.path@ == path::normalized(path@),
{
}

/// An edit as it was asked for writes the file with the occurrences of the old
/// text replaced by the new one, if there is one occurrence, or if there are
/// more and all are meant. Else nothing is written, and the answer is a failure.
pub proof fn edits_are_made_as_asked(
    server: &Server,
    args: EditArgs,
    edit: Replacement,
    path: String,
    text: String,
    step: EditStep,
)
    requires
        call_ensures(<Replacement as TryFrom<EditArgs>>::try_from, (args,), Ok(edit)),
        call_ensures(Server::edit_text, (server, &edit, path, Ok(text)), step),
    ensures
        ({
            let count = matching::occurrences(text@, args.old_string.0@);
            let made = count == 1 || count > 1 && args.replace_all;
            &&& args.old_string.0@ != args.new_string.0@
            &&& made ==> step is Write && step->Write_0.path@ == path@ && step->Write_0.content@
                == matching::replaced(text@, args.old_string.0@, args.new_string.0@)
            &&& !made ==> step is Reply && step->Reply_0.is_error
        }),
{
    edits_are_made_or_refused(text@, args.old_string.0@, args.new_string.0@);
}

/// What the server replies is what the laws on its answers speak of.
pub proof fn replies_are_the_answers(
    server: &Server,
    ran: Result<HostOutput, String>,
    args: ReadArgs,
    read: Result<String, String>,
    path: &str,
    written: Result<Written, String>,
    shell: ToolResult,
    shown: ToolResult,
    wrote: ToolResult,
    edited: ToolResult,
)
    requires
        call_ensures(Server::bash_reply, (server, ran), shell),
        call_ensures(Server::read_reply, (server, &args, read), shown),
        call_ensures(Server::write_reply, (server, path, written), wrote),
        call_ensures(Server::edit_reply, (server, path, written), edited),
    ensures
        shell.text@ == bash_answer(ran).text && shell.is_error == bash_answer(ran).is_error,
        shown.text@ == read_answer(args, read).text && shown.is_error == read_answer(
            args,
            read,
        ).is_error,
        wrote.text@ == write_answer(path@, written).text && wrote.is_error == write_answer(
            path@,
            written,
        ).is_error,
        edited.text@ == edit_answer(path@, written).text && edited.is_error == edit_answer(
            path@,
            written,
        ).is_error,
{
}

} // verus!
