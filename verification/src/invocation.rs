//! How a configured tool is called: from the arguments of a request to the
//! command line and the standard input of its program.
use vstd::prelude::*;
use vstd::string::*;

use crate::config::{Fragment, McpTool, ParamSpec, RemainderSpec, StdinSpec};
use crate::json;
use crate::json::{Argument, JsonObject, Kind, Reading, ReadingKind};
use crate::output;
use crate::output::{HostOutput, ToolResult};
use crate::schema;
use crate::text;

verus! {

/// The text of an argument, or what is said of one that has none.
pub type Scalar = Result<Seq<char>, Seq<char>>;

/// A list of arguments for a program, or why there is none.
pub type Argv = Result<Seq<Seq<char>>, Seq<char>>;

/// What a result of one text holds.
pub open spec fn scalar_contents(result: Result<String, String>) -> Scalar {
    match result {
        Ok(text) => Ok(text@),
        Err(message) => Err(message@),
    }
}

/// What a result of a list of texts holds.
pub open spec fn argv_contents(result: Result<Vec<String>, String>) -> Argv {
    match result {
        Ok(list) => Ok(text::texts(list@)),
        Err(message) => Err(message@),
    }
}

/// A string stands for itself and a number for its text. Nothing else is
/// accepted.
pub open spec fn scalar_of(name: Seq<char>, value: Reading) -> Scalar {
    match value.kind {
        ReadingKind::Text(text) => Ok(text),
        ReadingKind::Number(text) => Ok(text),
        _ => Err(name + ": expected a string, got "@ + value.text),
    }
}

/// The text of an argument.
pub fn scalar(name: &str, value: &Argument) -> (result: Result<String, String>)
    ensures
        scalar_contents(result) == scalar_of(name@, value@),
{
    match &value.kind {
        Kind::Text(text) => Ok(text.clone()),
        Kind::Number(text) => Ok(text.clone()),
        _ => {
            let mut message = name.to_string();
            message.append(": expected a string, got ");
            message.append(value.text.as_str());
            Err(message)
        },
    }
}

/// A copy of a list of texts.
fn copy_texts(list: &Vec<String>) -> (copy: Vec<String>)
    ensures
        text::texts(copy@) == text::texts(list@),
{
    let mut copy: Vec<String> = Vec::new();
    let mut i: usize = 0;
    while i < list.len()
        invariant
            i <= list@.len(),
            text::texts(copy@) == text::texts(list@).take(i as int),
        decreases list@.len() - i,
    {
        let text = list[i].clone();
        proof {
            assert(text::texts(copy@.push(text)) =~= text::texts(copy@).push(text@));
            assert(text::texts(list@).take(i + 1) =~= text::texts(list@).take(i as int).push(
                list@[i as int]@,
            ));
        }
        copy.push(text);
        i = i + 1;
    }
    proof {
        assert(text::texts(list@).take(i as int) =~= text::texts(list@));
    }
    copy
}

/// What is done about a parameter.
pub enum ParamStep {
    /// These arguments are put on the command line.
    Argv(Seq<Seq<char>>),
    /// This value is filled into the parameter's fragment.
    Fill(Seq<char>),
    /// The call is refused with this message.
    Refuse(Seq<char>),
}

/// What is done about a parameter with this value, or without one.
pub open spec fn param_step(param: ParamSpec, value: Option<Reading>) -> ParamStep {
    let unset = ParamStep::Argv(text::texts(param.default.elements@));
    match value {
        None => unset,
        Some(value) => if param.args.takes_value {
            match scalar_of(param.name@, value) {
                Ok(text) => ParamStep::Fill(text),
                Err(message) => ParamStep::Refuse(message),
            }
        } else {
            match value.kind {
                ReadingKind::Bool(true) => ParamStep::Argv(text::texts(param.args.elements@)),
                ReadingKind::Bool(false) => unset,
                _ => ParamStep::Refuse(
                    param.name@ + ": expected a boolean, got "@ + value.text,
                ),
            }
        },
    }
}

/// `argv` is an outcome of filling the value into the fragment.
pub open spec fn filled<F: Fn(&Fragment, &str) -> Result<Vec<String>, String>>(
    fill: F,
    fragment: Fragment,
    value: Seq<char>,
    argv: Argv,
) -> bool {
    exists|given: &str, result: Result<Vec<String>, String>|
        given@ == value && #[trigger] call_ensures(fill, (&fragment, given), result)
            && argv_contents(result) == argv
}

/// What can come of filling a value into a fragment.
pub type Filling = spec_fn(Fragment, Seq<char>, Argv) -> bool;

/// What can come of filling with a function.
pub open spec fn filling<F: Fn(&Fragment, &str) -> Result<Vec<String>, String>>(
    fill: F,
) -> Filling {
    |fragment: Fragment, value: Seq<char>, argv: Argv| filled(fill, fragment, value, argv)
}

/// `argv` is what a parameter adds to the command line.
pub open spec fn param_adds(
    filling: Filling,
    param: ParamSpec,
    value: Option<Reading>,
    argv: Argv,
) -> bool {
    match param_step(param, value) {
        ParamStep::Argv(list) => argv == Argv::Ok(list),
        ParamStep::Fill(text) => filling(param.args, text, argv),
        ParamStep::Refuse(message) => argv == Argv::Err(message),
    }
}

/// What a parameter adds to the command line.
pub fn param_argv<F: Fn(&Fragment, &str) -> Result<Vec<String>, String>>(
    param: &ParamSpec,
    value: Option<&Argument>,
    fill: &F,
) -> (result: Result<Vec<String>, String>)
    requires
        forall|fragment: &Fragment, given: &str| #[trigger]
            call_requires(*fill, (fragment, given)),
    ensures
        param_adds(filling(*fill), *param, match value {
            Some(value) => Some(value@),
            None => None,
        }, argv_contents(result)),
{
    if param.args.takes_value() {
        return match value {
            None => Ok(copy_texts(param.default.elements())),
            Some(value) => match scalar(param.name.as_str(), value) {
                Ok(text) => fill(&param.args, text.as_str()),
                Err(message) => Err(message),
            },
        };
    }
    let enabled: bool = match value {
        None => false,
        Some(value) => match &value.kind {
            Kind::Bool(enabled) => *enabled,
            _ => {
                let mut message = param.name.clone();
                message.append(": expected a boolean, got ");
                message.append(value.text.as_str());
                return Err(message);
            },
        },
    };
    let fragment = if enabled {
        &param.args
    } else {
        &param.default
    };
    Ok(copy_texts(fragment.elements()))
}

/// The texts of a list of arguments, unless one of them has none. The first
/// such argument decides what is said.
pub open spec fn scalars_of(name: Seq<char>, values: Seq<Reading>) -> Argv
    decreases values.len(),
{
    if values.len() == 0 {
        Ok(Seq::empty())
    } else {
        match scalars_of(name, values.drop_last()) {
            Ok(list) => match scalar_of(name, values.last()) {
                Ok(text) => Ok(list.push(text)),
                Err(message) => Err(message),
            },
            Err(message) => Err(message),
        }
    }
}

/// What the further arguments add to the command line: the prefix and then
/// they themselves, or nothing if there are none.
pub open spec fn remainder_of(spec: RemainderSpec, value: Option<Reading>) -> Argv {
    match value {
        None => Ok(Seq::empty()),
        Some(value) => match value.kind {
            ReadingKind::Array(items) => if items.len() == 0 {
                Ok(Seq::empty())
            } else {
                match scalars_of("args"@, items) {
                    Ok(list) => Ok(text::texts(spec.prefix@) + list),
                    Err(message) => Err(message),
                }
            },
            _ => Err("args: expected an array, got "@ + value.text),
        },
    }
}

/// A list with the items up to an argument that has no text gives the message
/// on that argument.
proof fn lemma_scalars_stop(name: Seq<char>, values: Seq<Reading>, stop: int)
    requires
        0 < stop <= values.len(),
        scalars_of(name, values.take(stop)) is Err,
    ensures
        scalars_of(name, values) == scalars_of(name, values.take(stop)),
    decreases values.len(),
{
    if stop < values.len() {
        assert(values.drop_last().take(stop) =~= values.take(stop));
        lemma_scalars_stop(name, values.drop_last(), stop);
    } else {
        assert(values.take(stop) =~= values);
    }
}

/// What the further arguments add to the command line.
pub fn remainder_argv(spec: &RemainderSpec, value: Option<&Argument>) -> (result: Result<
    Vec<String>,
    String,
>)
    ensures
        argv_contents(result) == remainder_of(*spec, match value {
            Some(value) => Some(value@),
            None => None,
        }),
{
    let items = match value {
        None => {
            let empty: Vec<String> = Vec::new();
            proof {
                assert(text::texts(empty@) =~= Seq::empty());
            }
            return Ok(empty);
        },
        Some(value) => match &value.kind {
            Kind::Array(items) => items,
            _ => {
                let mut message = "args: expected an array, got ".to_string();
                message.append(value.text.as_str());
                return Err(message);
            },
        },
    };
    let ghost all = value->0@.kind->Array_0;
    if items.len() == 0 {
        let empty: Vec<String> = Vec::new();
        proof {
            assert(text::texts(empty@) =~= Seq::empty());
        }
        return Ok(empty);
    }
    let mut argv = copy_texts(&spec.prefix);
    let ghost prefix = text::texts(spec.prefix@);
    let ghost mut list: Seq<Seq<char>> = Seq::empty();
    let mut i: usize = 0;
    proof {
        assert(all.take(0) =~= Seq::empty());
        assert(prefix + list =~= prefix);
    }
    while i < items.len()
        invariant
            i <= items@.len(),
            all.len() == items@.len(),
            forall|k: int| 0 <= k < all.len() ==> all[k] == (#[trigger] items@[k])@,
            scalars_of("args"@, all.take(i as int)) == Argv::Ok(list),
            text::texts(argv@) == prefix + list,
            value is Some,
            value->0@.kind == ReadingKind::Array(all),
            all.len() > 0,
            prefix == text::texts(spec.prefix@),
        decreases items@.len() - i,
    {
        proof {
            let next = all.take(i + 1);
            assert(next.drop_last() =~= all.take(i as int));
            assert(next.last() == items@[i as int]@);
        }
        match scalar("args", &items[i]) {
            Ok(text) => {
                proof {
                    assert(text::texts(argv@.push(text)) =~= text::texts(argv@).push(text@));
                    assert((prefix + list).push(text@) =~= prefix + list.push(text@));
                    list = list.push(text@);
                }
                argv.push(text);
            },
            Err(message) => {
                proof {
                    lemma_scalars_stop("args"@, all, i + 1);
                }
                return Err(message);
            },
        }
        i = i + 1;
    }
    proof {
        assert(all.take(i as int) =~= all);
    }
    Ok(argv)
}

/// What is fed to the program, or why the call is refused. A tool that takes
/// no text for its standard input disregards the argument.
pub open spec fn stdin_of(spec: Option<StdinSpec>, value: Option<Reading>) -> Result<
    Option<Seq<u8>>,
    Seq<char>,
> {
    match (spec, value) {
        (Some(spec), None) => if spec.required {
            Err("stdin is required"@)
        } else {
            Ok(None)
        },
        (Some(_), Some(value)) => match scalar_of("stdin"@, value) {
            Ok(text) => Ok(Some(vstd::utf8::encode_utf8(text))),
            Err(message) => Err(message),
        },
        (None, _) => Ok(None),
    }
}

/// What an optional list of bytes holds.
pub open spec fn bytes_contents(bytes: Option<Vec<u8>>) -> Option<Seq<u8>> {
    match bytes {
        Some(bytes) => Some(bytes@),
        None => None,
    }
}

/// What is fed to the program.
pub fn stdin_bytes(spec: &Option<StdinSpec>, value: Option<&Argument>) -> (result: Result<
    Option<Vec<u8>>,
    String,
>)
    ensures
        (match result {
            Ok(bytes) => Ok(bytes_contents(bytes)),
            Err(message) => Err(message@),
        }) == stdin_of(*spec, match value {
            Some(value) => Some(value@),
            None => None,
        }),
{
    match spec {
        Some(spec) => match value {
            None => if spec.required {
                Err("stdin is required".to_string())
            } else {
                Ok(None)
            },
            Some(value) => match scalar("stdin", value) {
                Ok(text) => Ok(Some(text.as_str().as_bytes_vec())),
                Err(message) => Err(message),
            },
        },
        None => Ok(None),
    }
}

/// The contents of a call.
pub struct CallView {
    pub argv: Seq<Seq<char>>,
    pub stdin: Option<Seq<u8>>,
}

/// A program to be run, with its arguments and what is fed to it.
pub struct Call<'a, T> {
    pub target: &'a T,
    pub argv: Vec<String>,
    pub stdin: Option<Vec<u8>>,
}

impl<'a, T> Call<'a, T> {
    /// The arguments and the input.
    pub open spec fn view(&self) -> CallView {
        CallView { argv: text::texts(self.argv@), stdin: bytes_contents(self.stdin) }
    }
}

/// `argv` is what there is on the command line after one more parameter, if
/// there was `before` until then. After a refusal nothing is added.
pub open spec fn param_follows(
    filling: Filling,
    param: ParamSpec,
    value: Option<Reading>,
    before: Argv,
    argv: Argv,
) -> bool {
    match before {
        Ok(list) => exists|own: Argv|
            #[trigger] param_adds(filling, param, value, own) && argv == match own {
                Ok(more) => Argv::Ok(list + more),
                Err(message) => Argv::Err(message),
            },
        Err(message) => argv == Argv::Err(message),
    }
}

/// `argv` is what the parameters add to the command line, one after another.
/// The first that is refused decides what is said.
pub open spec fn params_add(
    filling: Filling,
    params: Seq<ParamSpec>,
    values: Seq<Option<Reading>>,
    argv: Argv,
) -> bool
    decreases params.len(),
{
    if params.len() == 0 {
        argv == Argv::Ok(Seq::empty())
    } else {
        exists|before: Argv|
            params_add(filling, params.drop_last(), values.drop_last(), before)
                && #[trigger] param_follows(filling, params.last(), values.last(), before, argv)
    }
}

/// The call that follows, once it is known what the parameters add.
pub open spec fn completed<T>(
    tool: McpTool<T>,
    argv: Argv,
    rest: Option<Reading>,
    stdin: Option<Reading>,
) -> Result<CallView, Seq<char>> {
    match argv {
        Ok(list) => {
            let more = match tool.remainder {
                Some(spec) => remainder_of(spec, rest),
                None => Ok(Seq::empty()),
            };
            match more {
                Ok(more) => match stdin_of(tool.stdin, stdin) {
                    Ok(stdin) => Ok(CallView { argv: list + more, stdin }),
                    Err(message) => Err(message),
                },
                Err(message) => Err(message),
            }
        },
        Err(message) => Err(message),
    }
}

/// `call` is what the tool is called with: `values` are those of its
/// parameters, `rest` are the further arguments and `stdin` is the input.
pub open spec fn calls<T>(
    filling: Filling,
    tool: McpTool<T>,
    values: Seq<Option<Reading>>,
    rest: Option<Reading>,
    stdin: Option<Reading>,
    call: Result<CallView, Seq<char>>,
) -> bool {
    exists|argv: Argv| #[trigger]
        params_add(filling, tool.params@, values, argv) && call == completed(tool, argv, rest, stdin)
}

/// What the optional values of a list hold.
pub open spec fn readings(values: Seq<Option<Argument>>) -> Seq<Option<Reading>> {
    values.map_values(|value: Option<Argument>| json::reading_of(value))
}

/// The values that a request gives for the parameters.
pub open spec fn param_values(
    entries: Map<Seq<char>, json::Json>,
    params: Seq<ParamSpec>,
) -> Seq<Option<Reading>> {
    params.map_values(|param: ParamSpec| json::present_in(entries, param.name@))
}

/// What the result of a call holds.
pub open spec fn call_contents<'a, T>(result: Result<Call<'a, T>, String>) -> Result<
    CallView,
    Seq<char>,
> {
    match result {
        Ok(call) => Ok(call@),
        Err(message) => Err(message@),
    }
}

/// A refused parameter decides, whatever parameters follow it.
proof fn lemma_params_stop(
    filling: Filling,
    params: Seq<ParamSpec>,
    values: Seq<Option<Reading>>,
    stop: int,
    message: Seq<char>,
)
    requires
        0 <= stop <= params.len() == values.len(),
        params_add(filling, params.take(stop), values.take(stop), Argv::Err(message)),
    ensures
        params_add(filling, params, values, Argv::Err(message)),
    decreases params.len(),
{
    if stop < params.len() {
        assert(params.drop_last().take(stop) =~= params.take(stop));
        assert(values.drop_last().take(stop) =~= values.take(stop));
        lemma_params_stop(filling, params.drop_last(), values.drop_last(), stop, message);
        assert(param_follows(
            filling,
            params.last(),
            values.last(),
            Argv::Err(message),
            Argv::Err(message),
        ));
    } else {
        assert(params.take(stop) =~= params);
        assert(values.take(stop) =~= values);
    }
}

/// One more parameter adds what it adds.
proof fn lemma_params_step(
    filling: Filling,
    params: Seq<ParamSpec>,
    values: Seq<Option<Reading>>,
    at: int,
    before: Seq<Seq<char>>,
    own: Argv,
)
    requires
        0 <= at < params.len() == values.len(),
        params_add(filling, params.take(at), values.take(at), Argv::Ok(before)),
        param_adds(filling, params[at], values[at], own),
    ensures
        params_add(filling, params.take(at + 1), values.take(at + 1), match own {
            Ok(more) => Argv::Ok(before + more),
            Err(message) => Argv::Err(message),
        }),
{
    let after = match own {
        Ok(more) => Argv::Ok(before + more),
        Err(message) => Argv::Err(message),
    };
    let next = params.take(at + 1);
    let next_values = values.take(at + 1);
    assert(next.drop_last() =~= params.take(at));
    assert(next_values.drop_last() =~= values.take(at));
    assert(param_adds(filling, next.last(), next_values.last(), own));
    assert(param_follows(filling, next.last(), next_values.last(), Argv::Ok(before), after));
}

impl<'a, T> Call<'a, T> {
    /// Makes the call from the values of the parameters, the further arguments
    /// and the input.
    pub fn assemble<F: Fn(&Fragment, &str) -> Result<Vec<String>, String>>(
        tool: &'a McpTool<T>,
        values: &Vec<Option<Argument>>,
        rest: &Option<Argument>,
        stdin: &Option<Argument>,
        fill: &F,
    ) -> (result: Result<Self, String>)
        requires
            values@.len() == tool.params@.len(),
            forall|fragment: &Fragment, given: &str| #[trigger]
                call_requires(*fill, (fragment, given)),
        ensures
            calls(
                filling(*fill),
                *tool,
                readings(values@),
                json::reading_of(*rest),
                json::reading_of(*stdin),
                call_contents(result),
            ),
            result matches Ok(call) ==> *call.target == tool.target,
    {
        let ghost given = readings(values@);
        let mut argv: Vec<String> = Vec::new();
        let mut i: usize = 0;
        proof {
            assert(text::texts(argv@) =~= Seq::empty());
            assert(tool.params@.take(0) =~= Seq::empty());
        }
        while i < tool.params.len()
            invariant
                i <= tool.params@.len() == values@.len(),
                given == readings(values@),
                forall|fragment: &Fragment, given: &str| #[trigger]
                    call_requires(*fill, (fragment, given)),
                params_add(
                    filling(*fill),
                    tool.params@.take(i as int),
                    given.take(i as int),
                    Argv::Ok(text::texts(argv@)),
                ),
            decreases tool.params@.len() - i,
        {
            let ghost before = text::texts(argv@);
            let outcome = param_argv(&tool.params[i], values[i].as_ref(), fill);
            proof {
                lemma_params_step(
                    filling(*fill),
                    tool.params@,
                    given,
                    i as int,
                    before,
                    argv_contents(outcome),
                );
            }
            match outcome {
                Ok(mut more) => {
                    let ghost added = more@;
                    argv.append(&mut more);
                    proof {
                        assert(text::texts(argv@) =~= before + text::texts(added));
                    }
                },
                Err(message) => {
                    proof {
                        lemma_params_stop(filling(*fill), tool.params@, given, i + 1, message@);
                    }
                    return Err(message);
                },
            }
            i = i + 1;
        }
        let ghost named = text::texts(argv@);
        proof {
            assert(tool.params@.take(i as int) =~= tool.params@);
            assert(given.take(i as int) =~= given);
            assert(params_add(filling(*fill), tool.params@, given, Argv::Ok(named)));
        }
        if let Some(spec) = &tool.remainder {
            match remainder_argv(spec, rest.as_ref()) {
                Ok(mut more) => {
                    let ghost added = more@;
                    argv.append(&mut more);
                    proof {
                        assert(text::texts(argv@) =~= named + text::texts(added));
                    }
                },
                Err(message) => return Err(message),
            }
        } else {
            proof {
                assert(named + Seq::<Seq<char>>::empty() =~= named);
            }
        }
        match stdin_bytes(&tool.stdin, stdin.as_ref()) {
            Ok(stdin) => Ok(Call { target: &tool.target, argv, stdin }),
            Err(message) => Err(message),
        }
    }

    /// Makes the call from the arguments of a request.
    pub fn parse<F: Fn(&Fragment, &str) -> Result<Vec<String>, String>>(
        tool: &'a McpTool<T>,
        arguments: &JsonObject,
        fill: &F,
    ) -> (result: Result<Self, String>)
        requires
            forall|fragment: &Fragment, given: &str| #[trigger]
                call_requires(*fill, (fragment, given)),
        ensures
            calls(
                filling(*fill),
                *tool,
                param_values(json::entries_of(*arguments), tool.params@),
                json::present_in(json::entries_of(*arguments), "args"@),
                json::present_in(json::entries_of(*arguments), "stdin"@),
                call_contents(result),
            ),
            result matches Ok(call) ==> *call.target == tool.target,
    {
        let ghost all = param_values(json::entries_of(*arguments), tool.params@);
        let mut values: Vec<Option<Argument>> = Vec::new();
        let mut i: usize = 0;
        while i < tool.params.len()
            invariant
                i <= tool.params@.len(),
                all == param_values(json::entries_of(*arguments), tool.params@),
                values@.len() == i,
                readings(values@) == all.take(i as int),
            decreases tool.params@.len() - i,
        {
            let value = json::present(arguments, tool.params[i].name.as_str());
            proof {
                assert(readings(values@.push(value)) =~= readings(values@).push(
                    json::reading_of(value),
                ));
                assert(all.take(i + 1) =~= all.take(i as int).push(all[i as int]));
            }
            values.push(value);
            i = i + 1;
        }
        proof {
            assert(all.take(i as int) =~= all);
        }
        let rest = json::present(arguments, "args");
        let stdin = json::present(arguments, "stdin");
        Call::assemble(tool, &values, &rest, &stdin, fill)
    }
}

/// What a tool answers after its program was run, or could not be.
pub open spec fn invocation_answer(outcome: Result<HostOutput, String>) -> output::Answer {
    match outcome {
        Ok(output) => output::output_answer(output),
        Err(message) => output::failed(message@),
    }
}

/// What follows when a tool is called.
pub enum CallStep<'a, T> {
    /// Its program is run.
    Run(Call<'a, T>),
    /// That was all.
    Reply(ToolResult),
}

/// What follows when a tool is called: its program is run as the request has
/// it, or nothing is run and the answer says why.
pub open spec fn step_follows<'a, T>(
    call: Result<CallView, Seq<char>>,
    tool: McpTool<T>,
    step: CallStep<'a, T>,
) -> bool {
    match call {
        Ok(call) => step is Run && step->Run_0@ == call && *step->Run_0.target == tool.target,
        Err(message) => step is Reply && step->Reply_0@ == output::failed(message),
    }
}

/// A configured program as a tool.
pub struct Invocation<T>(McpTool<T>);

impl<T> Invocation<T> {
    /// How the program is configured.
    pub closed spec fn view(&self) -> McpTool<T> {
        self.0
    }

    /// Offers a configured program as a tool.
    #[must_use]
    pub fn new(tool: McpTool<T>) -> (invocation: Self)
        ensures
            invocation@ == tool,
    {
        Invocation(tool)
    }

    /// How the program is configured.
    pub fn tool(&self) -> (tool: &McpTool<T>)
        ensures
            *tool == self@,
    {
        &self.0
    }

    /// The schema of the tool's arguments.
    pub fn schema(&self) -> (arguments: JsonObject)
        ensures
            json::entries_of(arguments) == schema::schema_of(self@),
    {
        schema::tool_schema(&self.0)
    }

    /// What follows when the tool is called with these arguments.
    pub fn call<F: Fn(&Fragment, &str) -> Result<Vec<String>, String>>(
        &self,
        arguments: &JsonObject,
        fill: &F,
    ) -> (step: CallStep<'_, T>)
        requires
            forall|fragment: &Fragment, given: &str| #[trigger]
                call_requires(*fill, (fragment, given)),
        ensures
            exists|call: Result<CallView, Seq<char>>| #[trigger]
                calls(
                    filling(*fill),
                    self@,
                    param_values(json::entries_of(*arguments), self@.params@),
                    json::present_in(json::entries_of(*arguments), "args"@),
                    json::present_in(json::entries_of(*arguments), "stdin"@),
                    call,
                ) && step_follows(call, self@, step),
    {
        let result = Call::parse(&self.0, arguments, fill);
        let ghost contents = call_contents(result);
        let step = match result {
            Ok(call) => CallStep::Run(call),
            Err(message) => CallStep::Reply(output::tool_error(message)),
        };
        proof {
            assert(step_follows(contents, self@, step));
        }
        step
    }

    /// Answers after the program was run, or could not be.
    pub fn reply(outcome: Result<HostOutput, String>) -> (answer: ToolResult)
        ensures
            answer@ == invocation_answer(outcome),
            outcome matches Ok(output) ==> (answer.is_error <==> output.exit_code != 0)
                && answer.text@ == output::report_of(output),
            outcome matches Err(message) ==> answer.is_error && answer.text@ == message@,
    {
        match outcome {
            Ok(output) => output::tool_output(output),
            Err(message) => output::tool_error(message),
        }
    }
}

/// The list holds the texts of these strings, in their order.
pub open spec fn same_texts(list: Seq<Seq<char>>, strings: Seq<String>) -> bool {
    list.len() == strings.len() && forall|i: int|
        0 <= i < list.len() ==> #[trigger] list[i] == strings[i]@
}

/// What results and calls hold is what is in them.
pub proof fn results_are_what_they_hold<'a, T>(
    one: Result<String, String>,
    list: Result<Vec<String>, String>,
    bytes: Option<Vec<u8>>,
    call: Result<Call<'a, T>, String>,
)
    ensures
        one matches Ok(text) ==> scalar_contents(one) == Scalar::Ok(text@),
        one matches Err(message) ==> scalar_contents(one) == Scalar::Err(message@),
        list matches Ok(strings) ==> argv_contents(list) is Ok && same_texts(
            argv_contents(list)->Ok_0,
            strings@,
        ),
        list matches Err(message) ==> argv_contents(list) == Argv::Err(message@),
        bytes matches Some(held) ==> bytes_contents(bytes) == Some(held@),
        bytes is None ==> bytes_contents(bytes) is None,
        call matches Ok(made) ==> {
            &&& call_contents(call) is Ok
            &&& same_texts(call_contents(call)->Ok_0.argv, made.argv@)
            &&& made.stdin matches Some(held) ==> call_contents(call)->Ok_0.stdin == Some(held@)
            &&& made.stdin is None ==> call_contents(call)->Ok_0.stdin is None
        },
        call matches Err(message) ==> call_contents(call) == Err::<CallView, Seq<char>>(message@),
{
}

/// A value is filled in by asking the function, with the fragment and a text of
/// that value, and taking what it says.
pub proof fn filling_asks_the_function<F: Fn(&Fragment, &str) -> Result<Vec<String>, String>>(
    fill: F,
    fragment: Fragment,
    value: Seq<char>,
    argv: Argv,
)
    requires
        filling(fill)(fragment, value, argv),
    ensures
        exists|given: &str, result: Result<Vec<String>, String>|
            {
                &&& given@ == value
                &&& #[trigger] call_ensures(fill, (&fragment, given), result)
                &&& result matches Ok(strings) ==> argv is Ok && same_texts(argv->Ok_0, strings@)
                &&& result matches Err(message) ==> argv == Argv::Err(message@)
            },
{
    let (given, result) = choose|given: &str, result: Result<Vec<String>, String>|
        given@ == value && #[trigger] call_ensures(fill, (&fragment, given), result)
            && argv_contents(result) == argv;
    assert(call_ensures(fill, (&fragment, given), result));
}

/// Strings and numbers are taken for their text, and nothing else is.
pub proof fn texts_and_numbers_are_scalars(name: Seq<char>, value: Reading)
    ensures
        value.kind matches ReadingKind::Text(text) ==> scalar_of(name, value) == Scalar::Ok(text),
        value.kind matches ReadingKind::Number(text) ==> scalar_of(name, value) == Scalar::Ok(text),
        !(value.kind is Text || value.kind is Number) ==> scalar_of(name, value) == Scalar::Err(
            name + ": expected a string, got "@ + value.text,
        ),
{
}

/// A parameter without a value adds the elements of its default, and a flag
/// those of its own fragment if it is set and of its default if it is not,
/// whatever these elements are. A value is filled into the parameter's fragment.
/// A value of the wrong kind is refused.
pub proof fn parameters_add_their_fragments(
    filling: Filling,
    param: ParamSpec,
    value: Option<Reading>,
    argv: Argv,
)
    requires
        param_adds(filling, param, value, argv),
    ensures
        value is None ==> argv is Ok && same_texts(argv->Ok_0, param.default.elements@),
        value matches Some(given) ==> !param.args.takes_value ==> {
            &&& given.kind == ReadingKind::Bool(true) ==> argv is Ok && same_texts(
                argv->Ok_0,
                param.args.elements@,
            )
            &&& given.kind == ReadingKind::Bool(false) ==> argv is Ok && same_texts(
                argv->Ok_0,
                param.default.elements@,
            )
            &&& !(given.kind is Bool) ==> argv == Argv::Err(
                param.name@ + ": expected a boolean, got "@ + given.text,
            )
        },
        value matches Some(given) ==> param.args.takes_value ==> {
            &&& given.kind matches ReadingKind::Text(text) ==> filling(param.args, text, argv)
            &&& given.kind matches ReadingKind::Number(text) ==> filling(param.args, text, argv)
            &&& !(given.kind is Text || given.kind is Number) ==> argv == Argv::Err(
                param.name@ + ": expected a string, got "@ + given.text,
            )
        },
{
}

/// A value has a text.
pub open spec fn is_scalar(value: Reading) -> bool {
    value.kind is Text || value.kind is Number
}

/// The text of a value that has one.
pub open spec fn scalar_text(value: Reading) -> Seq<char> {
    match value.kind {
        ReadingKind::Text(text) => text,
        ReadingKind::Number(text) => text,
        _ => Seq::empty(),
    }
}

/// The texts of values that all have one, or what is said of the first that
/// has none.
proof fn lemma_scalars(name: Seq<char>, values: Seq<Reading>)
    ensures
        match scalars_of(name, values) {
            Ok(list) => list.len() == values.len() && forall|i: int|
                0 <= i < values.len() ==> is_scalar(#[trigger] values[i]) && list[i] == scalar_text(
                    values[i],
                ),
            Err(message) => exists|k: int|
                {
                    &&& 0 <= k < values.len()
                    &&& !is_scalar(#[trigger] values[k])
                    &&& message == name + ": expected a string, got "@ + values[k].text
                    &&& forall|i: int| 0 <= i < k ==> is_scalar(#[trigger] values[i])
                },
        },
    decreases values.len(),
{
    if values.len() > 0 {
        let before = values.drop_last();
        let last = values.len() - 1;
        lemma_scalars(name, before);
        match scalars_of(name, before) {
            Ok(list) => {
                assert forall|i: int| 0 <= i < last implies is_scalar(#[trigger] values[i])
                    && list[i] == scalar_text(values[i]) by {
                    assert(before[i] == values[i]);
                }
                if !is_scalar(values[last]) {
                    assert(!is_scalar(values[last]));
                }
            },
            Err(message) => {
                let k = choose|k: int|
                    {
                        &&& 0 <= k < before.len()
                        &&& !is_scalar(#[trigger] before[k])
                        &&& message == name + ": expected a string, got "@ + before[k].text
                        &&& forall|i: int| 0 <= i < k ==> is_scalar(#[trigger] before[i])
                    };
                assert(!is_scalar(values[k]));
                assert forall|i: int| 0 <= i < k implies is_scalar(#[trigger] values[i]) by {
                    assert(is_scalar(before[i]));
                }
            },
        }
    }
}

/// Further arguments add the prefix and then each of their texts, in their
/// order, and nothing at all if there are none. If one of them has no text, the
/// first such is refused, and so is anything but a list.
pub proof fn further_arguments_follow_the_prefix(spec: RemainderSpec, value: Option<Reading>)
    ensures
        value is None ==> remainder_of(spec, value) is Ok && remainder_of(spec, value)->Ok_0.len()
            == 0,
        value matches Some(given) ==> !(given.kind is Array) ==> remainder_of(spec, value)
            == Argv::Err("args: expected an array, got "@ + given.text),
        value matches Some(given) ==> given.kind is Array ==> {
            let items = given.kind->Array_0;
            match remainder_of(spec, value) {
                Ok(list) => {
                    &&& items.len() == 0 ==> list.len() == 0
                    &&& items.len() > 0 ==> list.len() == spec.prefix@.len() + items.len()
                        && same_texts(list.take(spec.prefix@.len() as int), spec.prefix@)
                    &&& forall|i: int|
                        0 <= i < items.len() ==> is_scalar(#[trigger] items[i])
                            && list[spec.prefix@.len() + i] == scalar_text(items[i])
                },
                Err(message) => exists|k: int|
                    {
                        &&& 0 <= k < items.len()
                        &&& !is_scalar(#[trigger] items[k])
                        &&& message == "args: expected a string, got "@ + items[k].text
                        &&& forall|i: int| 0 <= i < k ==> is_scalar(#[trigger] items[i])
                    },
            }
        },
{
    if let Some(given) = value {
        if given.kind is Array {
            let items = given.kind->Array_0;
            lemma_scalars("args"@, items);
            if items.len() > 0 {
                if let Ok(list) = scalars_of("args"@, items) {
                    let prefix = text::texts(spec.prefix@);
                    assert((prefix + list).take(spec.prefix@.len() as int) =~= prefix);
                    assert forall|i: int| 0 <= i < items.len() implies is_scalar(
                        #[trigger] items[i],
                    ) && (prefix + list)[spec.prefix@.len() + i] == scalar_text(items[i]) by {
                        assert((prefix + list)[spec.prefix@.len() + i] == list[i]);
                    }
                } else {
                    reveal_strlit("args");
                    reveal_strlit(": expected a string, got ");
                    reveal_strlit("args: expected a string, got ");
                    assert("args"@ + ": expected a string, got "@
                        =~= "args: expected a string, got "@);
                }
            }
        }
    }
}

/// The text that is given for the input is fed to the program as UTF-8. None
/// is fed if none is given, unless it is required, or if the tool takes none.
pub proof fn input_is_fed_as_text(spec: Option<StdinSpec>, value: Option<Reading>)
    ensures
        spec is None ==> stdin_of(spec, value) is Ok && stdin_of(spec, value)->Ok_0 is None,
        spec matches Some(wanted) ==> value is None ==> {
            &&& wanted.required ==> stdin_of(spec, value) == Err::<Option<Seq<u8>>, Seq<char>>(
                "stdin is required"@,
            )
            &&& !wanted.required ==> stdin_of(spec, value) is Ok && stdin_of(
                spec,
                value,
            )->Ok_0 is None
        },
        spec is Some && value is Some ==> {
            let given = value->0;
            &&& is_scalar(given) ==> stdin_of(spec, value) == Ok::<Option<Seq<u8>>, Seq<char>>(
                Some(vstd::utf8::encode_utf8(scalar_text(given))),
            )
            &&& !is_scalar(given) ==> stdin_of(spec, value) == Err::<Option<Seq<u8>>, Seq<char>>(
                "stdin: expected a string, got "@ + given.text,
            )
        },
{
    reveal_strlit("stdin");
    reveal_strlit(": expected a string, got ");
    reveal_strlit("stdin: expected a string, got ");
    assert("stdin"@ + ": expected a string, got "@ =~= "stdin: expected a string, got "@);
}

/// `added` is what the first parameters add, each by itself.
pub open spec fn each_adds(
    filling: Filling,
    params: Seq<ParamSpec>,
    values: Seq<Option<Reading>>,
    added: Seq<Seq<Seq<char>>>,
) -> bool {
    added.len() <= params.len() && forall|i: int|
        0 <= i < added.len() ==> param_adds(
            filling,
            params[i],
            values[i],
            Argv::Ok(#[trigger] added[i]),
        )
}

/// Parameters add what each of them adds, one after another, up to the first
/// that is refused.
proof fn lemma_each_adds(
    filling: Filling,
    params: Seq<ParamSpec>,
    values: Seq<Option<Reading>>,
    argv: Argv,
)
    requires
        params.len() == values.len(),
        params_add(filling, params, values, argv),
    ensures
        exists|added: Seq<Seq<Seq<char>>>|
            {
                &&& #[trigger] each_adds(filling, params, values, added)
                &&& argv matches Ok(list) ==> added.len() == params.len() && list
                    == added.flatten()
                &&& argv is Err ==> added.len() < params.len() && param_adds(
                    filling,
                    params[added.len() as int],
                    values[added.len() as int],
                    argv,
                )
            },
    decreases params.len(),
{
    if params.len() == 0 {
        let added = Seq::<Seq<Seq<char>>>::empty();
        assert(each_adds(filling, params, values, added));
        assert(added.flatten() =~= Seq::empty());
    } else {
        let last = params.len() - 1;
        let less = params.drop_last();
        let fewer = values.drop_last();
        let before = choose|before: Argv|
            params_add(filling, less, fewer, before) && #[trigger] param_follows(
                filling,
                params.last(),
                values.last(),
                before,
                argv,
            );
        lemma_each_adds(filling, less, fewer, before);
        let added = choose|added: Seq<Seq<Seq<char>>>|
            {
                &&& #[trigger] each_adds(filling, less, fewer, added)
                &&& before matches Ok(list) ==> added.len() == less.len() && list
                    == added.flatten()
                &&& before is Err ==> added.len() < less.len() && param_adds(
                    filling,
                    less[added.len() as int],
                    fewer[added.len() as int],
                    before,
                )
            };
        assert forall|i: int| 0 <= i < added.len() implies param_adds(
            filling,
            params[i],
            values[i],
            Argv::Ok(#[trigger] added[i]),
        ) by {
            assert(less[i] == params[i] && fewer[i] == values[i]);
        }
        assert(each_adds(filling, params, values, added));
        if before is Ok {
            let own = choose|own: Argv|
                #[trigger] param_adds(filling, params.last(), values.last(), own) && argv
                    == match own {
                    Ok(more) => Argv::Ok(before->Ok_0 + more),
                    Err(message) => Argv::Err(message),
                };
            if let Ok(more) = own {
                let all = added.push(more);
                added.lemma_flatten_push(more);
                assert forall|i: int| 0 <= i < all.len() implies param_adds(
                    filling,
                    params[i],
                    values[i],
                    Argv::Ok(#[trigger] all[i]),
                ) by {
                    if i < last {
                        assert(all[i] == added[i]);
                    }
                }
                assert(each_adds(filling, params, values, all));
            }
        }
    }
}

/// A call that is made has on its command line what each parameter adds, in
/// their order, and then what the further arguments add, and it is fed the
/// input.
pub proof fn calls_follow_their_parts<T>(
    filling: Filling,
    tool: McpTool<T>,
    values: Seq<Option<Reading>>,
    rest: Option<Reading>,
    stdin: Option<Reading>,
    call: CallView,
)
    requires
        values.len() == tool.params@.len(),
        calls(filling, tool, values, rest, stdin, Ok(call)),
    ensures
        exists|added: Seq<Seq<Seq<char>>>|
            {
                &&& #[trigger] each_adds(filling, tool.params@, values, added)
                &&& added.len() == tool.params@.len()
                &&& tool.remainder is None ==> call.argv == added.flatten()
                &&& tool.remainder matches Some(spec) ==> remainder_of(spec, rest) is Ok
                    && call.argv == added.flatten() + remainder_of(spec, rest)->Ok_0
            },
        stdin_of(tool.stdin, stdin) is Ok,
        stdin_of(tool.stdin, stdin)->Ok_0 == call.stdin,
{
    let argv = choose|argv: Argv| #[trigger]
        params_add(filling, tool.params@, values, argv) && Ok::<CallView, Seq<char>>(call)
            == completed(tool, argv, rest, stdin);
    lemma_each_adds(filling, tool.params@, values, argv);
    if tool.remainder is None {
        assert(argv->Ok_0 + Seq::<Seq<char>>::empty() =~= argv->Ok_0);
    }
}

/// A call is refused for the first reason that there is: that of a parameter
/// after those that are accepted, then that of the further arguments, and then
/// that of the input.
pub proof fn calls_are_refused_for_a_reason<T>(
    filling: Filling,
    tool: McpTool<T>,
    values: Seq<Option<Reading>>,
    rest: Option<Reading>,
    stdin: Option<Reading>,
    message: Seq<char>,
)
    requires
        values.len() == tool.params@.len(),
        calls(filling, tool, values, rest, stdin, Err(message)),
    ensures
        exists|added: Seq<Seq<Seq<char>>>|
            {
                &&& #[trigger] each_adds(filling, tool.params@, values, added)
                &&& added.len() < tool.params@.len() ==> param_adds(
                    filling,
                    tool.params@[added.len() as int],
                    values[added.len() as int],
                    Argv::Err(message),
                )
                &&& added.len() == tool.params@.len() ==> {
                    ||| tool.remainder is Some && remainder_of(tool.remainder->0, rest)
                        == Argv::Err(message)
                    ||| (tool.remainder matches Some(spec) ==> remainder_of(spec, rest) is Ok)
                        && stdin_of(tool.stdin, stdin) == Err::<Option<Seq<u8>>, Seq<char>>(message)
                }
            },
{
    let argv = choose|argv: Argv| #[trigger]
        params_add(filling, tool.params@, values, argv) && Err::<CallView, Seq<char>>(message)
            == completed(tool, argv, rest, stdin);
    lemma_each_adds(filling, tool.params@, values, argv);
}

/// A call that is made is run as it is, and the reason for which one is
/// refused is answered as a failure, with nothing run.
pub proof fn steps_follow_their_calls<'a, T>(
    tool: McpTool<T>,
    call: CallView,
    message: Seq<char>,
    step: CallStep<'a, T>,
)
    ensures
        step_follows(Ok(call), tool, step) <==> {
            &&& step is Run
            &&& same_texts(call.argv, step->Run_0.argv@)
            &&& bytes_contents(step->Run_0.stdin) == call.stdin
            &&& *step->Run_0.target == tool.target
        },
        step_follows(Err(message), tool, step) <==> step is Reply && step->Reply_0.text@ == message
            && step->Reply_0.is_error,
{
    if step is Run {
        if same_texts(call.argv, step->Run_0.argv@) {
            assert(call.argv =~= step->Run_0@.argv);
        }
    }
}

/// The values of a request are looked up by the names of the parameters, and
/// what a list of values holds is what each of them holds.
pub proof fn values_are_those_of_the_names(
    entries: Map<Seq<char>, json::Json>,
    params: Seq<ParamSpec>,
    values: Seq<Option<Argument>>,
)
    ensures
        readings(values).len() == values.len(),
        forall|i: int|
            0 <= i < values.len() ==> #[trigger] readings(values)[i] == json::reading_of(values[i]),
        param_values(entries, params).len() == params.len(),
        forall|i: int|
            0 <= i < params.len() ==> #[trigger] param_values(entries, params)[i]
                == json::present_in(entries, params[i].name@),
{
}

/// A program that was run is answered with what it printed, the output before
/// the errors, and then with the exit code unless it is zero, each on a line of
/// its own. That is a failure if and only if the exit code is not zero.
pub proof fn programs_answer_with_what_was_printed(
    output: HostOutput,
    stdout: Seq<char>,
    stderr: Seq<char>,
)
    requires
        output::stands_for(stdout, output.stdout@),
        output::stands_for(stderr, output.stderr@),
    ensures
        ({
            let answer = invocation_answer(Ok::<HostOutput, String>(output));
            let printed = if output.stderr@.len() == 0 {
                stdout
            } else if output.stdout@.len() == 0 {
                stderr
            } else {
                stdout + seq!['\n'] + stderr
            };
            let silent = output.stdout@.len() == 0 && output.stderr@.len() == 0;
            let note = "(exit code "@ + text::signed_decimal(output.exit_code as int) + ")"@;
            &&& answer.is_error <==> output.exit_code != 0
            &&& silent && output.exit_code == 0 ==> answer.text.len() == 0
            &&& silent && output.exit_code != 0 ==> answer.text == note
            &&& !silent && output.exit_code == 0 ==> answer.text == printed
            &&& !silent && output.exit_code != 0 ==> answer.text == printed + seq!['\n'] + note
        }),
{
    output::reports_hold_what_was_printed(output, stdout, stderr);
}

/// A program that could not be run is answered with the reason, as a failure.
pub proof fn program_failures_are_answered(message: String)
    ensures
        invocation_answer(Err::<HostOutput, String>(message)).text == message@,
        invocation_answer(Err::<HostOutput, String>(message)).is_error,
{
}

/// What is made of a request, and what is replied when its program was run, is
/// what the laws on calls and answers speak of.
pub proof fn requests_are_the_calls<'a, T, F: Fn(&Fragment, &str) -> Result<Vec<String>, String>>(
    tool: &'a McpTool<T>,
    arguments: &JsonObject,
    fill: &F,
    call: Result<Call<'a, T>, String>,
    ran: Result<HostOutput, String>,
    answer: ToolResult,
)
    requires
        call_ensures(Call::<'a, T>::parse::<F>, (tool, arguments, fill), call),
        call_ensures(Invocation::<T>::reply, (ran,), answer),
    ensures
        calls(
            filling(*fill),
            *tool,
            param_values(json::entries_of(*arguments), tool.params@),
            json::present_in(json::entries_of(*arguments), "args"@),
            json::present_in(json::entries_of(*arguments), "stdin"@),
            call_contents(call),
        ),
        call matches Ok(made) ==> *made.target == tool.target,
        answer.text@ == invocation_answer(ran).text,
        answer.is_error == invocation_answer(ran).is_error,
{
}

} // verus!
