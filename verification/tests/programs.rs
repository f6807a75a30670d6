//! Scripts and configured programs.

use std::collections::hash_map::DefaultHasher;
use std::collections::HashSet;
use std::hash::{Hash, Hasher};
use std::sync::Arc;

use bxwrp::args::{BashArgs, ShellSource};
use bxwrp::config::{Fragment, McpTool, ParamSpec, RemainderSpec, StdinSpec};
use bxwrp::invocation::{param_argv, remainder_argv, scalar, stdin_bytes, Call, CallStep, Invocation};
use bxwrp::json::{present, read_value, Argument, JsonObject, Kind};
use bxwrp::output::{compose_report, run, success, tool_error, tool_output, HostOutput};
use bxwrp::schema::tool_schema;
use bxwrp::server::{ScriptInput, Server};
use bxwrp::tools::{Bash, Def, Edit, Read, ToolDef, Write};

fn output(stdout: &[u8], stderr: &[u8], exit_code: i32) -> HostOutput {
    HostOutput {
        stdout: stdout.to_vec(),
        stderr: stderr.to_vec(),
        exit_code,
    }
}

fn object(text: &str) -> JsonObject {
    serde_json::from_str(text).unwrap()
}

fn argument(text: &str) -> Argument {
    read_value(&serde_json::from_str(text).unwrap())
}

fn strings(list: &[&str]) -> Vec<String> {
    list.iter().map(|text| String::from(*text)).collect()
}

fn plain(elements: &[&str]) -> Fragment {
    Fragment {
        elements: strings(elements),
        takes_value: false,
    }
}

fn template(elements: &[&str]) -> Fragment {
    Fragment {
        elements: strings(elements),
        takes_value: true,
    }
}

fn fill(fragment: &Fragment, value: &str) -> Result<Vec<String>, String> {
    if value == "bad" {
        return Err(String::from("cannot fill in"));
    }
    Ok(fragment
        .elements
        .iter()
        .map(|element| element.replace("{}", value))
        .collect())
}

fn pattern_param() -> ParamSpec {
    ParamSpec {
        name: String::from("pattern"),
        args: template(&["-e", "{}"]),
        default: plain(&["-e", "."]),
        description: Some(String::from("what to look for")),
    }
}

fn flag_param() -> ParamSpec {
    ParamSpec {
        name: String::from("verbose"),
        args: plain(&["-v"]),
        default: plain(&["-q"]),
        description: None,
    }
}

fn search(required: bool) -> McpTool<u8> {
    McpTool {
        name: String::from("search"),
        description: Some(String::from("Search text.")),
        stdin: Some(StdinSpec {
            required,
            description: Some(String::from("the text")),
        }),
        params: vec![pattern_param(), flag_param()],
        remainder: Some(RemainderSpec {
            prefix: strings(&["--"]),
            description: None,
        }),
        target: 7,
    }
}

fn call(tool: &McpTool<u8>, arguments: &str) -> Result<(Vec<String>, Option<Vec<u8>>), String> {
    Call::parse(tool, &object(arguments), &fill).map(|call| {
        assert_eq!(*call.target, 7);
        (call.argv, call.stdin)
    })
}

#[test]
fn reports_show_streams_and_exit_code() {
    assert_eq!(run(&output(b"out", b"err", 3)), "out\nerr\n(exit code 3)");
    assert_eq!(run(&output(b"out", b"err", 0)), "out\nerr");
    assert_eq!(run(&output(b"out\n", b"", 0)), "out\n");
    assert_eq!(run(&output(b"", b"err", 0)), "err");
    assert_eq!(run(&output(b"", b"", 0)), "");
    assert_eq!(run(&output(b"", b"", -1)), "(exit code -1)");
    assert_eq!(
        compose_report(Some(String::from("a")), None, 1),
        "a\n(exit code 1)"
    );
}

#[test]
fn printed_text_is_shown_as_it_is() {
    for text in ["a", "\u{e9}\u{4e2d}\u{1f600}", "two\nlines\n", "\0"] {
        assert_eq!(run(&output(text.as_bytes(), b"", 0)), text);
        assert_eq!(run(&output(b"", text.as_bytes(), 0)), text);
        assert_eq!(tool_output(output(text.as_bytes(), b"", 0)).text, text);
    }
}

#[test]
fn output_that_is_no_text_is_shown_lossily() {
    assert_eq!(run(&output(b"a\xffb", b"", 0)), "a\u{fffd}b");
    assert_eq!(run(&output("\u{e9}".as_bytes(), b"", 0)), "\u{e9}");
}

#[test]
fn a_program_fails_by_its_exit_code() {
    let answer = tool_output(output(b"out", b"", 0));
    assert_eq!(answer.text, "out");
    assert!(!answer.is_error);
    let answer = tool_output(output(b"out", b"", 2));
    assert_eq!(answer.text, "out\n(exit code 2)");
    assert!(answer.is_error);
    assert!(!success(String::from("a")).is_error);
    assert!(tool_error(String::from("a")).is_error);
}

#[test]
fn the_shell_tool_runs_bash() {
    let server = Server {
        cwd: String::from("/"),
    };
    let script = server.bash(BashArgs {
        command: ShellSource(String::from("ls")),
        description: String::from("list"),
    });
    assert_eq!(script.source, "ls");
    assert_eq!(script.interpreter, "bash");
    assert!(script.arguments.is_empty());
    assert!(script.input == ScriptInput::Closed);
    let answer = server.bash_reply(Ok(output(b"", b"no", 1)));
    assert_eq!(answer.text, "no\n(exit code 1)");
    assert!(!answer.is_error);
    let answer = server.bash_reply(Err(String::from("no shell")));
    assert_eq!(answer.text, "no shell");
    assert!(answer.is_error);
}

#[test]
fn scalars_are_strings_and_numbers() {
    assert_eq!(scalar("x", &argument("\"a b\"")), Ok(String::from("a b")));
    assert_eq!(scalar("x", &argument("42")), Ok(String::from("42")));
    assert_eq!(scalar("x", &argument("-1.50")), Ok(String::from("-1.5")));
    assert_eq!(
        scalar("x", &argument("true")),
        Err(String::from("x: expected a string, got true"))
    );
    assert_eq!(
        scalar("x", &argument("[1, \"a\"]")),
        Err(String::from("x: expected a string, got [1,\"a\"]"))
    );
    assert_eq!(
        scalar("x", &argument("{\"b\": null, \"a\": 1}")),
        Err(String::from("x: expected a string, got {\"a\":1,\"b\":null}"))
    );
    assert_eq!(
        scalar("x", &argument("null")),
        Err(String::from("x: expected a string, got null"))
    );
}

#[test]
fn values_are_read_as_they_are() {
    assert!(matches!(argument("null").kind, Kind::Null));
    assert!(matches!(argument("false").kind, Kind::Bool(false)));
    assert!(matches!(argument("{}").kind, Kind::Object));
    match argument("[\"a\", [2]]").kind {
        Kind::Array(items) => {
            assert_eq!(items.len(), 2);
            assert_eq!(items[0].text, "\"a\"");
            assert_eq!(items[1].text, "[2]");
            assert!(matches!(items[1].kind, Kind::Array(_)));
        }
        _ => panic!("a list was given"),
    }
}

#[test]
fn null_arguments_count_as_missing() {
    let arguments = object("{\"a\": null, \"b\": 1}");
    assert!(present(&arguments, "a").is_none());
    assert!(present(&arguments, "c").is_none());
    assert_eq!(present(&arguments, "b").unwrap().text, "1");
    let tool = search(false);
    assert_eq!(
        call(&tool, "{\"pattern\": null, \"stdin\": null, \"args\": null}"),
        call(&tool, "{}")
    );
}

#[test]
fn a_parameter_with_a_value_fills_its_fragment() {
    let param = pattern_param();
    assert_eq!(
        param_argv(&param, Some(&argument("\"foo\"")), &fill),
        Ok(strings(&["-e", "foo"]))
    );
    assert_eq!(
        param_argv(&param, Some(&argument("12")), &fill),
        Ok(strings(&["-e", "12"]))
    );
    assert_eq!(param_argv(&param, None, &fill), Ok(strings(&["-e", "."])));
    assert_eq!(
        param_argv(&param, Some(&argument("\"bad\"")), &fill),
        Err(String::from("cannot fill in"))
    );
    assert_eq!(
        param_argv(&param, Some(&argument("false")), &fill),
        Err(String::from("pattern: expected a string, got false"))
    );
}

#[test]
fn a_flag_chooses_between_two_fragments() {
    let param = flag_param();
    assert_eq!(
        param_argv(&param, Some(&argument("true")), &fill),
        Ok(strings(&["-v"]))
    );
    assert_eq!(
        param_argv(&param, Some(&argument("false")), &fill),
        Ok(strings(&["-q"]))
    );
    assert_eq!(param_argv(&param, None, &fill), Ok(strings(&["-q"])));
    assert_eq!(
        param_argv(&param, Some(&argument("\"yes\"")), &fill),
        Err(String::from("verbose: expected a boolean, got \"yes\""))
    );
}

#[test]
fn further_arguments_come_behind_their_prefix() {
    let spec = RemainderSpec {
        prefix: strings(&["--"]),
        description: None,
    };
    assert_eq!(
        remainder_argv(&spec, Some(&argument("[\"a\", 2]"))),
        Ok(strings(&["--", "a", "2"]))
    );
    assert_eq!(remainder_argv(&spec, Some(&argument("[]"))), Ok(Vec::new()));
    assert_eq!(remainder_argv(&spec, None), Ok(Vec::new()));
    assert_eq!(
        remainder_argv(&spec, Some(&argument("\"a\""))),
        Err(String::from("args: expected an array, got \"a\""))
    );
    assert_eq!(
        remainder_argv(&spec, Some(&argument("[\"a\", {}, null]"))),
        Err(String::from("args: expected a string, got {}"))
    );
}

#[test]
fn input_is_taken_where_it_is_configured() {
    let wanted = Some(StdinSpec {
        required: true,
        description: None,
    });
    assert_eq!(
        stdin_bytes(&wanted, None),
        Err(String::from("stdin is required"))
    );
    assert_eq!(
        stdin_bytes(&wanted, Some(&argument("\"\u{e9}\""))),
        Ok(Some("\u{e9}".as_bytes().to_vec()))
    );
    assert_eq!(
        stdin_bytes(&wanted, Some(&argument("[]"))),
        Err(String::from("stdin: expected a string, got []"))
    );
    assert_eq!(stdin_bytes(&None, Some(&argument("[]"))), Ok(None));
}

#[test]
fn a_call_is_made_from_the_arguments() {
    let tool = search(false);
    assert_eq!(
        call(
            &tool,
            "{\"pattern\": \"x\", \"verbose\": true, \"args\": [\"f\", 1], \"stdin\": \"in\"}"
        ),
        Ok((
            strings(&["-e", "x", "-v", "--", "f", "1"]),
            Some(b"in".to_vec())
        ))
    );
    assert_eq!(call(&tool, "{}"), Ok((strings(&["-e", ".", "-q"]), None)));
    assert_eq!(
        call(&tool, "{\"unknown\": 1}"),
        Ok((strings(&["-e", ".", "-q"]), None))
    );
}

#[test]
fn the_first_refusal_decides() {
    let tool = search(true);
    assert_eq!(call(&tool, "{}"), Err(String::from("stdin is required")));
    assert_eq!(
        call(&tool, "{\"pattern\": \"bad\", \"verbose\": 1, \"args\": 2}"),
        Err(String::from("cannot fill in"))
    );
    assert_eq!(
        call(&tool, "{\"verbose\": 1, \"args\": 2}"),
        Err(String::from("verbose: expected a boolean, got 1"))
    );
    assert_eq!(
        call(&tool, "{\"args\": 2}"),
        Err(String::from("args: expected an array, got 2"))
    );
}

#[test]
fn a_call_is_assembled_from_its_parts() {
    let tool = search(false);
    let values = vec![Some(argument("\"x\"")), None];
    let call = Call::assemble(&tool, &values, &Some(argument("[\"f\"]")), &None, &fill);
    match call {
        Ok(call) => {
            assert_eq!(call.argv, strings(&["-e", "x", "-q", "--", "f"]));
            assert_eq!(call.stdin, None);
        }
        Err(message) => panic!("{}", message),
    }
}

#[test]
fn the_schema_describes_the_arguments() {
    let expected = object(
        "{\"type\": \"object\",
          \"properties\": {
            \"stdin\": {\"type\": \"string\", \"description\": \"the text\"},
            \"pattern\": {\"type\": \"string\", \"description\": \"what to look for\"},
            \"verbose\": {\"type\": \"boolean\", \"default\": false},
            \"args\": {\"type\": \"array\", \"items\": {\"type\": \"string\"}}
          },
          \"required\": [\"stdin\"],
          \"additionalProperties\": false}",
    );
    assert_eq!(tool_schema(&search(true)), expected);
    let bare = McpTool {
        name: String::from("bare"),
        description: None,
        stdin: None,
        params: Vec::new(),
        remainder: None,
        target: (),
    };
    assert_eq!(
        tool_schema(&bare),
        object(
            "{\"type\": \"object\", \"properties\": {}, \"required\": [],
              \"additionalProperties\": false}"
        )
    );
}

#[test]
fn later_properties_take_the_place_of_earlier_ones() {
    let mut tool = search(false);
    tool.params[0].name = String::from("stdin");
    tool.params[1].name = String::from("args");
    let schema = tool_schema(&tool);
    assert_eq!(
        schema["properties"],
        serde_json::Value::Object(object(
            "{\"stdin\": {\"type\": \"string\", \"description\": \"what to look for\"},
              \"args\": {\"type\": \"array\", \"items\": {\"type\": \"string\"}}}"
        ))
    );
    assert_eq!(schema["required"], serde_json::Value::Array(Vec::new()));
}

#[test]
fn arguments_by_the_schema_are_accepted() {
    let tool = search(true);
    for arguments in [
        "{\"stdin\": \"a\"}",
        "{\"stdin\": \"a\", \"pattern\": \"b\", \"verbose\": false, \"args\": []}",
        "{\"stdin\": \"\", \"args\": [\"c\", \"d\"]}",
    ] {
        assert!(call(&tool, arguments).is_ok());
    }
}

#[test]
fn an_invocation_presents_its_program() {
    let invocation = Invocation::new(search(true));
    assert_eq!(invocation.name(), "search");
    assert_eq!(invocation.attr().name, "search");
    assert_eq!(invocation.attr().description, "Search text.");
    assert_eq!(invocation.schema(), tool_schema(&search(true)));
    let mut bare = search(true);
    bare.description = None;
    assert_eq!(Invocation::new(bare).attr().description, "");
    let answer = Invocation::<u8>::reply(Ok(output(b"a", b"", 1)));
    assert_eq!(answer.text, "a\n(exit code 1)");
    assert!(answer.is_error);
    let answer = Invocation::<u8>::reply(Err(String::from("not found")));
    assert_eq!(answer.text, "not found");
    assert!(answer.is_error);
}

#[test]
fn own_tools_have_their_names() {
    assert_eq!(Bash.name(), "bash");
    assert_eq!(Read.name(), "read");
    assert_eq!(Write.name(), "write");
    assert_eq!(Edit.name(), "edit");
    assert_eq!(Bash.attr().name, "bash");
    assert_eq!(
        Bash.attr().description,
        "Run a shell command. Standard output and standard error are returned together, \
         followed by the exit code when it is nonzero. The bash and file tools share the same \
         filesystem."
    );
    assert_eq!(
        Read.attr().description,
        "Read a text file with numbered lines. The path must be absolute. Use offset and limit \
         to select a range of lines."
    );
    assert_eq!(
        Write.attr().description,
        "Write a text file. The path must be absolute, and missing parent directories are \
         created automatically."
    );
    assert_eq!(
        Edit.attr().description,
        "Replace exact text in a file. By default the old text must occur exactly once; set \
         replace_all to replace every occurrence."
    );
}

#[test]
fn definitions_are_known_by_their_names() {
    let one: Def<dyn ToolDef> = Def::new(Arc::new(Bash));
    let mut renamed = search(false);
    renamed.name = String::from("bash");
    let other: Def<dyn ToolDef> = Def::new(Arc::new(Invocation::new(renamed)));
    let third: Def<dyn ToolDef> = Def::new(Arc::new(Edit));
    assert!(one == other);
    assert!(one != third);
    assert_eq!(one.name(), "bash");
    assert_eq!(third.tool().attr().name, "edit");
    let mut known: HashSet<Def<dyn ToolDef>> = HashSet::new();
    assert!(known.insert(one.clone()));
    assert!(!known.insert(other));
    assert!(known.insert(third));
    assert!(known.contains("edit"));
    assert!(!known.contains("read"));
}

fn hash_of<T: Hash + ?Sized>(value: &T) -> u64 {
    let mut state = DefaultHasher::new();
    value.hash(&mut state);
    state.finish()
}

#[test]
fn a_definition_hashes_as_its_name() {
    let one: Def<dyn ToolDef> = Def::new(Arc::new(Bash));
    let mut renamed = search(false);
    renamed.name = String::from("bash");
    let other: Def<dyn ToolDef> = Def::new(Arc::new(Invocation::new(renamed)));
    let third: Def<dyn ToolDef> = Def::new(Arc::new(Edit));
    assert_eq!(hash_of(&one), hash_of("bash"));
    assert_eq!(hash_of(&one), hash_of(&other));
    assert_eq!(hash_of(&third), hash_of("edit"));
    assert_ne!(hash_of(&one), hash_of(&third));
    assert_ne!(hash_of(&one), hash_of(""));
    assert_ne!(hash_of(&one), DefaultHasher::new().finish());
}

#[test]
fn only_the_values_of_a_request_have_to_be_filled_in() {
    let invocation = Invocation::new(search(false));
    match invocation.call(&object("{\"pattern\": \"x\"}"), &fill) {
        CallStep::Run(call) => assert_eq!(*call.target, 7),
        CallStep::Reply(answer) => panic!("{}", answer.text),
    }
    match invocation.call(&object("{\"pattern\": \"bad\"}"), &fill) {
        CallStep::Reply(answer) => {
            assert_eq!(answer.text, "cannot fill in");
            assert!(answer.is_error);
        }
        CallStep::Run(_) => panic!("the value cannot be filled in"),
    }
}

#[test]
fn a_refused_request_runs_nothing() {
    let invocation = Invocation::new(search(true));
    match invocation.call(&object("{}"), &fill) {
        CallStep::Reply(answer) => {
            assert_eq!(answer.text, "stdin is required");
            assert!(answer.is_error);
        }
        CallStep::Run(_) => panic!("the input is missing"),
    }
    match invocation.call(&object("{\"stdin\": \"a\"}"), &fill) {
        CallStep::Run(call) => {
            assert_eq!(*call.target, 7);
            assert_eq!(call.argv, strings(&["-e", ".", "-q"]));
            assert_eq!(call.stdin, Some(b"a".to_vec()));
        }
        CallStep::Reply(answer) => panic!("{}", answer.text),
    }
}
