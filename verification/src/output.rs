//! What a program printed, and what a tool answers with.
use vstd::prelude::*;
use vstd::string::*;

use crate::text;

verus! {

/// What a program left when it ended.
pub struct HostOutput {
    pub stdout: Vec<u8>,
    pub stderr: Vec<u8>,
    pub exit_code: i32,
}

/// The contents of an answer.
pub struct Answer {
    pub text: Seq<char>,
    pub is_error: bool,
}

/// What a tool answers: one text, and whether it reports a failure.
pub struct ToolResult {
    pub text: String,
    pub is_error: bool,
}

impl View for ToolResult {
    type V = Answer;

    open spec fn view(&self) -> Answer {
        Answer { text: self.text@, is_error: self.is_error }
    }
}

/// The answer of a tool that did its work.
pub open spec fn done(text: Seq<char>) -> Answer {
    Answer { text, is_error: false }
}

/// The answer of a tool that failed.
pub open spec fn failed(text: Seq<char>) -> Answer {
    Answer { text, is_error: true }
}

/// Answers that the tool did its work.
pub fn success(message: String) -> (result: ToolResult)
    ensures
        result@ == done(message@),
        result.text@ == message@,
        !result.is_error,
{
    ToolResult { text: message, is_error: false }
}

/// Answers that the tool failed.
pub fn tool_error(message: String) -> (result: ToolResult)
    ensures
        result@ == failed(message@),
        result.text@ == message@,
        result.is_error,
{
    ToolResult { text: message, is_error: true }
}

/// The text that `String::from_utf8_lossy` reads from the bytes.
pub uninterp spec fn utf8_lossy(bytes: Seq<u8>) -> Seq<char>;

/// Reads bytes as text with `String::from_utf8_lossy`. Bytes that are valid
/// UTF-8 are read as what they encode. What stands for other bytes is left to
/// that function: nothing is claimed of it but that the bytes determine it.
#[verifier::external_body]
fn decode_lossy(bytes: &Vec<u8>) -> (text: String)
    ensures
        text@ == utf8_lossy(bytes@),
        vstd::utf8::valid_utf8(bytes@) ==> text@ == vstd::utf8::decode_utf8(bytes@),
{
    String::from_utf8_lossy(bytes).into_owned()
}

/// The text that is read from bytes: what they encode, if they are valid UTF-8.
pub open spec fn text_of(bytes: Seq<u8>) -> Seq<char> {
    if vstd::utf8::valid_utf8(bytes) {
        vstd::utf8::decode_utf8(bytes)
    } else {
        utf8_lossy(bytes)
    }
}

/// What is shown of a stream: nothing of an empty one.
pub open spec fn shown_stream(bytes: Seq<u8>) -> Option<Seq<char>> {
    if bytes.len() == 0 {
        None
    } else {
        Some(text_of(bytes))
    }
}

/// How an exit code is reported.
pub open spec fn exit_note(exit_code: int) -> Seq<char> {
    "(exit code "@ + text::signed_decimal(exit_code) + ")"@
}

/// An optional text as a list of at most one.
pub open spec fn listed(text: Option<Seq<char>>) -> Seq<Seq<char>> {
    match text {
        Some(text) => seq![text],
        None => Seq::empty(),
    }
}

/// The parts of which a report consists: what was printed to the two streams,
/// and the exit code unless it is zero.
pub open spec fn report_parts(
    stdout: Option<Seq<char>>,
    stderr: Option<Seq<char>>,
    exit_code: int,
) -> Seq<Seq<char>> {
    listed(stdout) + listed(stderr) + listed(
        if exit_code != 0 {
            Some(exit_note(exit_code))
        } else {
            None
        },
    )
}

/// The report on a program that has ended, a part to a line.
pub open spec fn report(
    stdout: Option<Seq<char>>,
    stderr: Option<Seq<char>>,
    exit_code: int,
) -> Seq<char> {
    text::joined(report_parts(stdout, stderr, exit_code), "\n"@)
}

/// The report on what a program left.
pub open spec fn report_of(output: HostOutput) -> Seq<char> {
    report(shown_stream(output.stdout@), shown_stream(output.stderr@), output.exit_code as int)
}

/// The contents of an optional text.
pub open spec fn contents(text: Option<String>) -> Option<Seq<char>> {
    match text {
        Some(text) => Some(text@),
        None => None,
    }
}

/// Composes the report from the texts of the two streams and the exit code.
pub fn compose_report(stdout: Option<String>, stderr: Option<String>, exit_code: i32) -> (text:
    String)
    ensures
        text@ == report(contents(stdout), contents(stderr), exit_code as int),
{
    let ghost all = report_parts(contents(stdout), contents(stderr), exit_code as int);
    let mut parts: Vec<String> = Vec::new();
    if let Some(printed) = stdout {
        parts.push(printed);
    }
    if let Some(printed) = stderr {
        parts.push(printed);
    }
    if exit_code != 0 {
        let mut note = "(exit code ".to_string();
        note.append(text::signed_decimal_text(exit_code).as_str());
        note.append(")");
        parts.push(note);
    }
    proof {
        assert(text::texts(parts@) =~= all);
    }
    text::join(&parts, "\n")
}

/// Reads a stream as text, if anything was printed to it.
pub fn read_stream(bytes: &Vec<u8>) -> (text: Option<String>)
    ensures
        contents(text) == shown_stream(bytes@),
{
    if bytes.len() == 0 {
        None
    } else {
        Some(decode_lossy(bytes))
    }
}

/// The report on what a script left.
pub fn run(result: &HostOutput) -> (text: String)
    ensures
        text@ == report_of(*result),
{
    compose_report(read_stream(&result.stdout), read_stream(&result.stderr), result.exit_code)
}

/// The answer of a tool that ran a program: its report, and a failure unless
/// the exit code is zero.
pub open spec fn output_answer(output: HostOutput) -> Answer {
    Answer { text: report_of(output), is_error: output.exit_code != 0 }
}

/// Answers with the report on what a program left.
pub fn tool_output(result: HostOutput) -> (answer: ToolResult)
    ensures
        answer@ == output_answer(result),
        answer.is_error <==> result.exit_code != 0,
        answer.text@ == report_of(result),
{
    let text = run(&result);
    if result.exit_code == 0 {
        success(text)
    } else {
        tool_error(text)
    }
}

/// A text that a program printed is shown as it is.
pub proof fn printed_text_is_shown(printed: Seq<char>)
    requires
        printed.len() > 0,
    ensures
        shown_stream(vstd::utf8::encode_utf8(printed)) == Some(printed),
{
    vstd::utf8::encode_utf8_valid_utf8(printed);
    vstd::utf8::encode_utf8_decode_utf8(printed);
}

/// The report on a program that failed ends with its exit code.
pub proof fn exit_code_comes_last(
    stdout: Option<Seq<char>>,
    stderr: Option<Seq<char>>,
    exit_code: int,
)
    requires
        exit_code != 0,
    ensures
        exists|before: Seq<char>|
            report(stdout, stderr, exit_code) == #[trigger] (before + exit_note(exit_code)),
{
    let parts = report_parts(stdout, stderr, exit_code);
    let note = exit_note(exit_code);
    assert(parts.last() == note);
    if parts.drop_last().len() == 0 {
        assert(report(stdout, stderr, exit_code) =~= Seq::<char>::empty() + note);
    } else {
        let before = text::joined(parts.drop_last(), "\n"@) + "\n"@;
        assert(report(stdout, stderr, exit_code) == before + note);
    }
}

/// The report on a program that succeeded is what it printed, with no exit
/// code: both streams one after the other, or the one that was used.
pub proof fn success_reports_the_streams(stdout: Option<Seq<char>>, stderr: Option<Seq<char>>)
    ensures
        report(stdout, stderr, 0) == (match (stdout, stderr) {
            (Some(first), Some(second)) => first + "\n"@ + second,
            (Some(only), None) => only,
            (None, Some(only)) => only,
            (None, None) => Seq::empty(),
        }),
{
    let parts = report_parts(stdout, stderr, 0);
    match (stdout, stderr) {
        (Some(first), Some(second)) => {
            assert(parts =~= seq![first] + seq![second]);
            text::lemma_joined_first(first, seq![second], "\n"@);
            assert(text::joined(seq![second], "\n"@) == second);
        },
        (Some(only), None) => {
            assert(parts =~= seq![only]);
        },
        (None, Some(only)) => {
            assert(parts =~= seq![only]);
        },
        (None, None) => {
            assert(parts =~= Seq::empty());
        },
    }
}

/// The text that is shown for bytes is what they encode.
pub proof fn bytes_are_shown_as_their_text(bytes: Seq<u8>)
    ensures
        bytes.len() == 0 ==> shown_stream(bytes) is None,
        bytes.len() > 0 && vstd::utf8::valid_utf8(bytes) ==> shown_stream(bytes) == Some(
            vstd::utf8::decode_utf8(bytes),
        ),
        bytes.len() > 0 && !vstd::utf8::valid_utf8(bytes) ==> shown_stream(bytes) == Some(
            utf8_lossy(bytes),
        ),
{
}

/// `shown` is the text that stands for the bytes: what they encode, or if they
/// encode no text, what is read from them nevertheless.
pub open spec fn stands_for(shown: Seq<char>, bytes: Seq<u8>) -> bool {
    &&& vstd::utf8::valid_utf8(bytes) ==> vstd::utf8::decode_utf8(bytes) == shown
    &&& !vstd::utf8::valid_utf8(bytes) ==> utf8_lossy(bytes) == shown
}

/// A report is what was printed to the streams, the output before the errors,
/// and then the exit code, each on a line of its own. A stream to which nothing
/// was printed and an exit code of zero are passed over.
pub proof fn reports_hold_what_was_printed(
    output: HostOutput,
    stdout: Seq<char>,
    stderr: Seq<char>,
)
    requires
        stands_for(stdout, output.stdout@),
        stands_for(stderr, output.stderr@),
    ensures
        ({
            let printed = if output.stderr@.len() == 0 {
                stdout
            } else if output.stdout@.len() == 0 {
                stderr
            } else {
                stdout + seq!['\n'] + stderr
            };
            let silent = output.stdout@.len() == 0 && output.stderr@.len() == 0;
            let note = "(exit code "@ + text::signed_decimal(output.exit_code as int) + ")"@;
            &&& silent && output.exit_code == 0 ==> report_of(output).len() == 0
            &&& silent && output.exit_code != 0 ==> report_of(output) == note
            &&& !silent && output.exit_code == 0 ==> report_of(output) == printed
            &&& !silent && output.exit_code != 0 ==> report_of(output) == printed + seq!['\n']
                + note
        }),
{
    reveal_strlit("\n");
    assert("\n"@ =~= seq!['\n']);
    let out = shown_stream(output.stdout@);
    let err = shown_stream(output.stderr@);
    let code = output.exit_code as int;
    success_reports_the_streams(out, err);
    if code != 0 {
        let parts = report_parts(out, err, code);
        let note = exit_note(code);
        assert(parts.last() == note);
        assert(parts.drop_last() =~= report_parts(out, err, 0));
    }
}

/// A failure is reported if and only if the exit code is not zero, and the
/// text is the report either way.
pub proof fn exit_codes_decide(output: HostOutput)
    ensures
        output_answer(output).is_error <==> output.exit_code != 0,
        output_answer(output).text == report_of(output),
{
}

/// An answer is its text and whether it reports a failure, and an optional text
/// is the text that it holds, if it holds one.
pub proof fn answers_are_their_fields(result: ToolResult, text: Option<String>)
    ensures
        text matches Some(held) ==> contents(text) == Some(held@),
        text is None ==> contents(text) is None,
        result@.text == result.text@,
        result@.is_error == result.is_error,
{
}

} // verus!
