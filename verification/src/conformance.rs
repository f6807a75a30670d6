//! What holds of a tool's schema and of its calls together.
use vstd::prelude::*;

use crate::config::{McpTool, ParamSpec};
use crate::invocation;
use crate::invocation::{Argv, CallView, Filling};
use crate::json;
use crate::json::{Json, Reading};
use crate::schema;

verus! {

/// The value is of the type that a schema calls by this name.
pub open spec fn has_type(value: Json, name: Seq<char>) -> bool {
    match value {
        Json::Null => name == "null"@,
        Json::Bool(_) => name == "boolean"@,
        Json::Number(_) => name == "number"@,
        Json::Text(_) => name == "string"@,
        Json::Array(_) => name == "array"@,
        Json::Object(_) => name == "object"@,
    }
}

/// The value is of the type that the schema names.
pub open spec fn is_of_type(schema: Json, value: Json) -> bool {
    schema matches Json::Object(keys) && (keys.contains_key("type"@) ==> (
    keys["type"@] matches Json::Text(name) && has_type(value, name)))
}

/// The value satisfies the schema: it is of the type that is named, and so is
/// each item of a list.
pub open spec fn satisfies(schema: Json, value: Json) -> bool {
    &&& is_of_type(schema, value)
    &&& match (schema, value) {
        (Json::Object(keys), Json::Array(items)) => keys.contains_key("items"@) ==> forall|i: int|
            0 <= i < items.len() ==> is_of_type(keys["items"@], #[trigger] items[i]),
        _ => true,
    }
}

/// The arguments satisfy the schema: each is one of the properties and
/// satisfies the schema of that property, and all that are required are there.
pub open spec fn valid(schema: Map<Seq<char>, Json>, entries: Map<Seq<char>, Json>) -> bool {
    &&& schema["properties"@] matches Json::Object(properties) && forall|name: Seq<char>| #[trigger]
        entries.contains_key(name) ==> properties.contains_key(name) && satisfies(
            properties[name],
            entries[name],
        )
    &&& schema["required"@] matches Json::Array(names) && forall|i: int|
        0 <= i < names.len() ==> (#[trigger] names[i] matches Json::Text(name)
            && entries.contains_key(name))
}

/// No argument has to be two things at once: parameters of the same name are
/// of the same kind, one that shares the name of the input takes a value, and
/// none shares the name of the further arguments.
pub open spec fn unambiguous<T>(tool: McpTool<T>) -> bool {
    &&& forall|i: int, j: int|
        #![trigger tool.params@[i], tool.params@[j]]
        0 <= i < tool.params@.len() && 0 <= j < tool.params@.len() && tool.params@[i].name@
            == tool.params@[j].name@ ==> tool.params@[i].args.takes_value
            == tool.params@[j].args.takes_value
    &&& tool.stdin is Some ==> forall|i: int|
        0 <= i < tool.params@.len() && (#[trigger] tool.params@[i]).name@ == "stdin"@
            ==> tool.params@[i].args.takes_value
    &&& tool.remainder is Some ==> forall|i: int|
        0 <= i < tool.params@.len() ==> (#[trigger] tool.params@[i]).name@ != "args"@
}

/// None of the values that are filled in for these parameters can fail to be.
pub open spec fn never_fails(
    filling: Filling,
    params: Seq<ParamSpec>,
    values: Seq<Option<Reading>>,
) -> bool {
    forall|i: int, argv: Argv|
        0 <= i < params.len() && invocation::param_step(params[i], values[i]) is Fill
            && #[trigger] invocation::param_adds(filling, params[i], values[i], argv)
            ==> argv is Ok
}

/// The words of a schema are different.
proof fn lemma_words()
    ensures
        "type"@ != "properties"@,
        "type"@ != "required"@,
        "properties"@ != "required"@,
        "properties"@ != "additionalProperties"@,
        "required"@ != "additionalProperties"@,
        "type"@ != "description"@,
        "type"@ != "default"@,
        "type"@ != "items"@,
        "items"@ != "description"@,
        "items"@ != "default"@,
        "string"@ != "boolean"@,
        "string"@ != "array"@,
        "boolean"@ != "array"@,
        "stdin"@ != "args"@,
        "string"@ != "null"@,
        "string"@ != "number"@,
        "string"@ != "object"@,
        "boolean"@ != "null"@,
        "boolean"@ != "number"@,
        "boolean"@ != "object"@,
        "array"@ != "null"@,
        "array"@ != "number"@,
        "array"@ != "object"@,
{
    reveal_strlit("type");
    reveal_strlit("properties");
    reveal_strlit("required");
    reveal_strlit("additionalProperties");
    reveal_strlit("description");
    reveal_strlit("default");
    reveal_strlit("items");
    reveal_strlit("string");
    reveal_strlit("boolean");
    reveal_strlit("array");
    reveal_strlit("stdin");
    reveal_strlit("args");
    reveal_strlit("null");
    reveal_strlit("number");
    reveal_strlit("object");
    assert("type"@.len() == 4);
    assert("properties"@.len() == 10);
    assert("required"@.len() == 8);
    assert("additionalProperties"@.len() == 20);
    assert("description"@.len() == 11);
    assert("default"@.len() == 7);
    assert("items"@.len() == 5);
    assert("string"@.len() == 6);
    assert("boolean"@.len() == 7);
    assert("array"@.len() == 5);
    assert("stdin"@.len() == 5);
    assert("args"@.len() == 4);
    assert("null"@.len() == 4);
    assert("number"@.len() == 6);
    assert("object"@.len() == 6);
    assert("string"@[0] == 's');
    assert("number"@[0] == 'n');
    assert("object"@[0] == 'o');
}

/// A text satisfies a schema for a string and nothing else does, and likewise
/// for a flag.
proof fn lemma_param_type(param: ParamSpec, value: Json)
    requires
        satisfies(
            schema::with_description(schema::param_schema(param), param.description),
            value,
        ),
    ensures
        if param.args.takes_value {
            value is Text
        } else {
            value is Bool
        },
{
    lemma_words();
    let described = schema::with_description(schema::param_schema(param), param.description);
    assert(described->Object_0.contains_key("type"@));
}

/// The schema under the name of a parameter is that of a parameter of this
/// name.
proof fn lemma_param_property(
    base: Map<Seq<char>, Json>,
    params: Seq<ParamSpec>,
    i: int,
) -> (j: int)
    requires
        0 <= i < params.len(),
    ensures
        0 <= j < params.len(),
        params[j].name@ == params[i].name@,
        schema::with_params(base, params).contains_key(params[i].name@),
        schema::with_params(base, params)[params[i].name@] == schema::with_description(
            schema::param_schema(params[j]),
            params[j].description,
        ),
    decreases params.len(),
{
    if params[i].name@ == params.last().name@ {
        params.len() - 1
    } else {
        lemma_param_property(base, params.drop_last(), i)
    }
}

/// Parameters of other names leave the schema under a name as it was.
proof fn lemma_other_property(
    base: Map<Seq<char>, Json>,
    params: Seq<ParamSpec>,
    name: Seq<char>,
)
    requires
        forall|i: int| 0 <= i < params.len() ==> (#[trigger] params[i]).name@ != name,
    ensures
        schema::with_params(base, params).contains_key(name) == base.contains_key(name),
        schema::with_params(base, params)[name] == base[name],
    decreases params.len(),
{
    if params.len() > 0 {
        let before = params.drop_last();
        assert forall|i: int| 0 <= i < before.len() implies (#[trigger] before[i]).name@
            != name by {
            assert(before[i] == params[i]);
        }
        assert(params[params.len() - 1].name@ != name);
        lemma_other_property(base, before, name);
    }
}

/// Parameters that are not refused add something, if filling them never fails.
proof fn lemma_params_accepted(
    filling: Filling,
    params: Seq<ParamSpec>,
    values: Seq<Option<Reading>>,
    argv: Argv,
)
    requires
        params.len() == values.len(),
        never_fails(filling, params, values),
        forall|i: int|
            0 <= i < params.len() ==> !(invocation::param_step(
                #[trigger] params[i],
                values[i],
            ) is Refuse),
        invocation::params_add(filling, params, values, argv),
    ensures
        argv is Ok,
    decreases params.len(),
{
    if params.len() > 0 {
        let param = params.last();
        let value = values.last();
        let before = choose|before: Argv|
            invocation::params_add(filling, params.drop_last(), values.drop_last(), before)
                && #[trigger] invocation::param_follows(filling, param, value, before, argv);
        assert forall|i: int| 0 <= i < params.drop_last().len() implies !(invocation::param_step(
            #[trigger] params.drop_last()[i],
            values.drop_last()[i],
        ) is Refuse) by {
            assert(params.drop_last()[i] == params[i]);
        }
        assert forall|i: int, argv: Argv|
            0 <= i < params.drop_last().len() && invocation::param_step(
                params.drop_last()[i],
                values.drop_last()[i],
            ) is Fill && #[trigger] invocation::param_adds(
                filling,
                params.drop_last()[i],
                values.drop_last()[i],
                argv,
            ) implies argv is Ok by {
            assert(invocation::param_adds(filling, params[i], values[i], argv));
        }
        lemma_params_accepted(filling, params.drop_last(), values.drop_last(), before);
        assert(!(invocation::param_step(params[params.len() - 1], value) is Refuse));
        let own = choose|own: Argv|
            #[trigger] invocation::param_adds(filling, param, value, own) && argv == match own {
                Ok(more) => Argv::Ok(before->Ok_0 + more),
                Err(message) => Argv::Err(message),
            };
        assert(invocation::param_adds(
            filling,
            params[params.len() - 1],
            values[values.len() - 1],
            own,
        ));
        assert(own is Ok);
    }
}

/// What is read from the items of a list.
spec fn items_read(items: Seq<Json>) -> Seq<Reading> {
    json::reading(Json::Array(items)).kind->Array_0
}

/// A list of texts gives its texts.
proof fn lemma_texts_are_scalars(name: Seq<char>, items: Seq<Json>)
    requires
        forall|i: int| 0 <= i < items.len() ==> (#[trigger] items[i]) is Text,
    ensures
        invocation::scalars_of(name, items_read(items)) is Ok,
    decreases items.len(),
{
    if items.len() > 0 {
        let before = items.drop_last();
        assert forall|i: int| 0 <= i < before.len() implies (#[trigger] before[i]) is Text by {
            assert(before[i] == items[i]);
        }
        lemma_texts_are_scalars(name, before);
        assert(items_read(items).drop_last() =~= items_read(before));
        assert(items[items.len() - 1] is Text);
        assert(items_read(items).last() == json::reading(items.last()));
    }
}

/// What a valid request gives for a parameter is not refused.
proof fn lemma_valid_param<T>(tool: McpTool<T>, entries: Map<Seq<char>, Json>, i: int)
    requires
        unambiguous(tool),
        valid(schema::schema_of(tool), entries),
        0 <= i < tool.params@.len(),
    ensures
        !(invocation::param_step(
            tool.params@[i],
            json::present_in(entries, tool.params@[i].name@),
        ) is Refuse),
{
    lemma_words();
    let param = tool.params@[i];
    let name = param.name@;
    let base = match tool.stdin {
        Some(stdin) => Map::empty().insert(
            "stdin"@,
            schema::with_description(schema::typed_schema("string"@), stdin.description),
        ),
        None => Map::empty(),
    };
    if json::present_in(entries, name) is Some {
        let j = lemma_param_property(base, tool.params@, i);
        assert(schema::schema_of(tool)["properties"@] == Json::Object(schema::properties(tool)));
        assert(schema::properties(tool)[name] == schema::with_params(base, tool.params@)[name]);
        lemma_param_type(tool.params@[j], entries[name]);
    }
}

/// What a valid request gives for the input is not refused.
proof fn lemma_valid_stdin<T>(tool: McpTool<T>, entries: Map<Seq<char>, Json>)
    requires
        unambiguous(tool),
        valid(schema::schema_of(tool), entries),
    ensures
        invocation::stdin_of(tool.stdin, json::present_in(entries, "stdin"@)) is Ok,
{
    lemma_words();
    if let Some(spec) = tool.stdin {
        let property = schema::with_description(schema::typed_schema("string"@), spec.description);
        let base = Map::<Seq<char>, Json>::empty().insert("stdin"@, property);
        let named = schema::with_params(base, tool.params@);
        assert(schema::schema_of(tool)["properties"@] == Json::Object(schema::properties(tool)));
        assert(schema::schema_of(tool)["required"@] == Json::Array(schema::required(tool)));
        assert(schema::properties(tool)["stdin"@] == named["stdin"@]);
        if spec.required {
            assert(schema::required(tool)[0] == Json::Text("stdin"@));
            assert(entries.contains_key("stdin"@));
        }
        if entries.contains_key("stdin"@) {
            let value = entries["stdin"@];
            assert(satisfies(named["stdin"@], value));
            if exists|i: int| 0 <= i < tool.params@.len() && tool.params@[i].name@ == "stdin"@ {
                let i = choose|i: int|
                    0 <= i < tool.params@.len() && tool.params@[i].name@ == "stdin"@;
                let j = lemma_param_property(base, tool.params@, i);
                assert(tool.params@[j].args.takes_value);
                lemma_param_type(tool.params@[j], value);
            } else {
                lemma_other_property(base, tool.params@, "stdin"@);
                assert(property->Object_0.contains_key("type"@));
            }
            assert(value is Text);
        }
    }
}

/// What a valid request gives as further arguments is not refused.
proof fn lemma_valid_remainder<T>(tool: McpTool<T>, entries: Map<Seq<char>, Json>)
    requires
        tool.remainder is Some,
        valid(schema::schema_of(tool), entries),
    ensures
        invocation::remainder_of(
            tool.remainder->0,
            json::present_in(entries, "args"@),
        ) is Ok,
{
    lemma_words();
    let spec = tool.remainder->0;
    let property = schema::with_description(schema::remainder_schema(), spec.description);
    assert(schema::schema_of(tool)["properties"@] == Json::Object(schema::properties(tool)));
    assert(schema::properties(tool)["args"@] == property);
    if entries.contains_key("args"@) {
        let value = entries["args"@];
        assert(satisfies(property, value));
        let keys = property->Object_0;
        let items_schema = Json::Object(schema::typed_schema("string"@));
        assert(keys.contains_key("type"@) && keys["type"@] == Json::Text("array"@));
        assert(keys.contains_key("items"@) && keys["items"@] == items_schema);
        assert(value is Array);
        let items = value->Array_0;
        assert forall|i: int| 0 <= i < items.len() implies (#[trigger] items[i]) is Text by {
            assert(is_of_type(items_schema, items[i]));
            assert(items_schema->Object_0.contains_key("type"@));
        }
        lemma_texts_are_scalars("args"@, items);
    }
}

/// A request that satisfies the schema of a tool is never refused by the rules
/// for its arguments: it is accepted if none of the values that it gives fails
/// to be filled in. This holds of every tool whose arguments have unambiguous
/// names.
pub proof fn valid_requests_are_accepted<T>(
    filling: Filling,
    tool: McpTool<T>,
    entries: Map<Seq<char>, Json>,
    call: Result<CallView, Seq<char>>,
)
    requires
        unambiguous(tool),
        valid(schema::schema_of(tool), entries),
        never_fails(filling, tool.params@, invocation::param_values(entries, tool.params@)),
        invocation::calls(
            filling,
            tool,
            invocation::param_values(entries, tool.params@),
            json::present_in(entries, "args"@),
            json::present_in(entries, "stdin"@),
            call,
        ),
    ensures
        call is Ok,
{
    let values = invocation::param_values(entries, tool.params@);
    let rest = json::present_in(entries, "args"@);
    let stdin = json::present_in(entries, "stdin"@);
    let argv = choose|argv: Argv| #[trigger]
        invocation::params_add(filling, tool.params@, values, argv) && call
            == invocation::completed(tool, argv, rest, stdin);
    assert forall|i: int| 0 <= i < tool.params@.len() implies !(invocation::param_step(
        #[trigger] tool.params@[i],
        values[i],
    ) is Refuse) by {
        lemma_valid_param(tool, entries, i);
    }
    lemma_params_accepted(filling, tool.params@, values, argv);
    lemma_valid_stdin(tool, entries);
    if tool.remainder is Some {
        lemma_valid_remainder(tool, entries);
    }
}

/// A tool that requires its input cannot be called without.
pub proof fn missing_input_is_refused<T>(
    filling: Filling,
    tool: McpTool<T>,
    entries: Map<Seq<char>, Json>,
    call: Result<CallView, Seq<char>>,
)
    requires
        schema::requires_stdin(tool),
        json::present_in(entries, "stdin"@) is None,
        invocation::calls(
            filling,
            tool,
            invocation::param_values(entries, tool.params@),
            json::present_in(entries, "args"@),
            json::present_in(entries, "stdin"@),
            call,
        ),
    ensures
        call is Err,
{
}

/// Filling in one of the values for these parameters has only one outcome.
pub open spec fn determined(
    filling: Filling,
    params: Seq<ParamSpec>,
    values: Seq<Option<Reading>>,
) -> bool {
    forall|i: int, one: Argv, other: Argv|
        0 <= i < params.len() && #[trigger] invocation::param_adds(
            filling,
            params[i],
            values[i],
            one,
        ) && #[trigger] invocation::param_adds(filling, params[i], values[i], other) ==> one
            == other
}

/// What parameters add is determined, if filling them in is.
proof fn lemma_params_determined(
    filling: Filling,
    params: Seq<ParamSpec>,
    values: Seq<Option<Reading>>,
    one: Argv,
    other: Argv,
)
    requires
        params.len() == values.len(),
        determined(filling, params, values),
        invocation::params_add(filling, params, values, one),
        invocation::params_add(filling, params, values, other),
    ensures
        one == other,
    decreases params.len(),
{
    if params.len() > 0 {
        let param = params.last();
        let value = values.last();
        let first = choose|before: Argv|
            invocation::params_add(filling, params.drop_last(), values.drop_last(), before)
                && #[trigger] invocation::param_follows(filling, param, value, before, one);
        let second = choose|before: Argv|
            invocation::params_add(filling, params.drop_last(), values.drop_last(), before)
                && #[trigger] invocation::param_follows(filling, param, value, before, other);
        assert forall|i: int, one: Argv, other: Argv|
            0 <= i < params.drop_last().len() && #[trigger] invocation::param_adds(
                filling,
                params.drop_last()[i],
                values.drop_last()[i],
                one,
            ) && #[trigger] invocation::param_adds(
                filling,
                params.drop_last()[i],
                values.drop_last()[i],
                other,
            ) implies one == other by {
            assert(invocation::param_adds(filling, params[i], values[i], one));
            assert(invocation::param_adds(filling, params[i], values[i], other));
        }
        lemma_params_determined(filling, params.drop_last(), values.drop_last(), first, second);
        assert(first == second);
        if first is Ok {
            let last = params.len() - 1;
            let mine = choose|own: Argv|
                #[trigger] invocation::param_adds(filling, params[last], values[last], own) && one
                    == match own {
                    Ok(more) => Argv::Ok(first->Ok_0 + more),
                    Err(message) => Argv::Err(message),
                };
            let theirs = choose|own: Argv|
                #[trigger] invocation::param_adds(filling, params[last], values[last], own) && other
                    == match own {
                    Ok(more) => Argv::Ok(first->Ok_0 + more),
                    Err(message) => Argv::Err(message),
                };
            assert(mine == theirs);
        }
    }
}

/// A request determines the call, if filling in the values that it gives has
/// only one outcome.
pub proof fn request_determines_the_call<T>(
    filling: Filling,
    tool: McpTool<T>,
    values: Seq<Option<Reading>>,
    rest: Option<Reading>,
    stdin: Option<Reading>,
    one: Result<CallView, Seq<char>>,
    other: Result<CallView, Seq<char>>,
)
    requires
        values.len() == tool.params@.len(),
        determined(filling, tool.params@, values),
        invocation::calls(filling, tool, values, rest, stdin, one),
        invocation::calls(filling, tool, values, rest, stdin, other),
    ensures
        one == other,
{
    let first = choose|argv: Argv| #[trigger]
        invocation::params_add(filling, tool.params@, values, argv) && one == invocation::completed(
            tool,
            argv,
            rest,
            stdin,
        );
    let second = choose|argv: Argv| #[trigger]
        invocation::params_add(filling, tool.params@, values, argv) && other == invocation::completed(
            tool,
            argv,
            rest,
            stdin,
        );
    lemma_params_determined(filling, tool.params@, values, first, second);
}

/// The schema lists exactly the arguments that a tool reads: its input, its
/// parameters and the further arguments.
pub proof fn schema_lists_the_arguments<T>(tool: McpTool<T>, name: Seq<char>)
    ensures
        schema::properties(tool).contains_key(name) <==> {
            ||| tool.stdin is Some && name == "stdin"@
            ||| tool.remainder is Some && name == "args"@
            ||| exists|i: int|
                0 <= i < tool.params@.len() && (#[trigger] tool.params@[i]).name@ == name
        },
{
    let base = match tool.stdin {
        Some(stdin) => Map::empty().insert(
            "stdin"@,
            schema::with_description(schema::typed_schema("string"@), stdin.description),
        ),
        None => Map::empty(),
    };
    if exists|i: int| 0 <= i < tool.params@.len() && tool.params@[i].name@ == name {
        let i = choose|i: int| 0 <= i < tool.params@.len() && tool.params@[i].name@ == name;
        let j = lemma_param_property(base, tool.params@, i);
    } else {
        lemma_other_property(base, tool.params@, name);
    }
}

/// An argument that the schema does not list has no effect.
pub proof fn unlisted_arguments_have_no_effect<T>(
    filling: Filling,
    tool: McpTool<T>,
    entries: Map<Seq<char>, Json>,
    name: Seq<char>,
    value: Json,
    call: Result<CallView, Seq<char>>,
)
    requires
        !schema::properties(tool).contains_key(name),
    ensures
        ({
            let more = entries.insert(name, value);
            invocation::calls(
                filling,
                tool,
                invocation::param_values(more, tool.params@),
                json::present_in(more, "args"@),
                json::present_in(more, "stdin"@),
                call,
            ) <==> invocation::calls(
                filling,
                tool,
                invocation::param_values(entries, tool.params@),
                json::present_in(entries, "args"@),
                json::present_in(entries, "stdin"@),
                call,
            )
        }),
{
    let more = entries.insert(name, value);
    let values = invocation::param_values(entries, tool.params@);
    schema_lists_the_arguments(tool, name);
    assert forall|i: int| 0 <= i < tool.params@.len() implies json::present_in(
        more,
        tool.params@[i].name@,
    ) == json::present_in(entries, tool.params@[i].name@) by {
        assert(tool.params@[i].name@ != name);
    }
    assert(invocation::param_values(more, tool.params@) =~= values);
    assert forall|argv: Argv|
        #![trigger invocation::params_add(filling, tool.params@, values, argv)]
        invocation::completed(
            tool,
            argv,
            json::present_in(more, "args"@),
            json::present_in(more, "stdin"@),
        ) == invocation::completed(
            tool,
            argv,
            json::present_in(entries, "args"@),
            json::present_in(entries, "stdin"@),
        ) by {
    }
}

/// The schema of the arguments of a tool is an object with its properties, the
/// names of those that are required, and the word that there are no others.
/// Only the input is ever required, and only if the tool says so.
pub proof fn schemas_are_of_closed_objects<T>(tool: McpTool<T>)
    ensures
        schema::schema_of(tool)["type"@] == Json::Text("object"@),
        schema::schema_of(tool)["properties"@] == Json::Object(schema::properties(tool)),
        schema::schema_of(tool)["additionalProperties"@] == Json::Bool(false),
        tool.stdin matches Some(spec) ==> spec.required ==> schema::schema_of(tool)["required"@]
            == Json::Array(seq![Json::Text("stdin"@)]),
        !(tool.stdin is Some && tool.stdin->0.required) ==> schema::schema_of(tool)["required"@]
            == Json::Array(Seq::empty()),
        forall|key: Seq<char>| #[trigger]
            schema::schema_of(tool).contains_key(key) <==> key == "type"@ || key == "properties"@
                || key == "required"@ || key == "additionalProperties"@,
{
    lemma_words();
    reveal_strlit("type");
    reveal_strlit("additionalProperties");
    assert("type"@.len() == 4);
    assert("additionalProperties"@.len() == 20);
}

/// The keys are a schema of the named type with this description, and with a
/// default if there is one. They say nothing else.
pub open spec fn describes(
    keys: Map<Seq<char>, Json>,
    name: Seq<char>,
    default: Option<Json>,
    items: Option<Json>,
    description: Option<String>,
) -> bool {
    &&& keys.contains_key("type"@) && keys["type"@] == Json::Text(name)
    &&& keys.contains_key("default"@) <==> default is Some
    &&& default matches Some(value) ==> keys["default"@] == value
    &&& keys.contains_key("items"@) <==> items is Some
    &&& items matches Some(value) ==> keys["items"@] == value
    &&& keys.contains_key("description"@) <==> description is Some
    &&& description matches Some(text) ==> keys["description"@] == Json::Text(text@)
    &&& forall|key: Seq<char>| #[trigger]
        keys.contains_key(key) ==> key == "type"@ || key == "default"@ || key == "items"@ || key
            == "description"@
}

/// The words of a property are different.
proof fn lemma_more_words()
    ensures
        "default"@ != "items"@,
        "default"@ != "description"@,
        "description"@ != "items"@,
{
    reveal_strlit("default");
    reveal_strlit("items");
    reveal_strlit("description");
    assert("default"@.len() == 7);
    assert("items"@.len() == 5);
    assert("description"@.len() == 11);
}

/// What comes later under a name stands in the schema.
proof fn lemma_last_property(base: Map<Seq<char>, Json>, params: Seq<ParamSpec>, i: int)
    requires
        0 <= i < params.len(),
        forall|j: int| i < j < params.len() ==> (#[trigger] params[j]).name@ != params[i].name@,
    ensures
        schema::with_params(base, params)[params[i].name@] == schema::with_description(
            schema::param_schema(params[i]),
            params[i].description,
        ),
    decreases params.len(),
{
    let last = params.len() - 1;
    if i < last {
        assert(params[last].name@ != params[i].name@);
        let before = params.drop_last();
        assert forall|j: int| i < j < before.len() implies (#[trigger] before[j]).name@
            != before[i].name@ by {
            assert(before[j] == params[j]);
        }
        lemma_last_property(base, before, i);
    }
}

/// The schema describes a parameter as a string if it takes a value, and else
/// as a flag that is not set by default. Of parameters of the same name it
/// describes the last, and further arguments come before a parameter of their
/// name.
pub proof fn schemas_describe_parameters<T>(tool: McpTool<T>, i: int)
    requires
        0 <= i < tool.params@.len(),
        forall|j: int|
            i < j < tool.params@.len() ==> (#[trigger] tool.params@[j]).name@
                != tool.params@[i].name@,
        tool.remainder is Some ==> tool.params@[i].name@ != "args"@,
    ensures
        ({
            let param = tool.params@[i];
            let property = schema::properties(tool)[param.name@];
            &&& property is Object
            &&& param.args.takes_value ==> describes(
                property->Object_0,
                "string"@,
                None,
                None,
                param.description,
            )
            &&& !param.args.takes_value ==> describes(
                property->Object_0,
                "boolean"@,
                Some(Json::Bool(false)),
                None,
                param.description,
            )
        }),
{
    lemma_words();
    lemma_more_words();
    let base = match tool.stdin {
        Some(stdin) => Map::empty().insert(
            "stdin"@,
            schema::with_description(schema::typed_schema("string"@), stdin.description),
        ),
        None => Map::empty(),
    };
    lemma_last_property(base, tool.params@, i);
    assert(schema::properties(tool)[tool.params@[i].name@] == schema::with_params(
        base,
        tool.params@,
    )[tool.params@[i].name@]);
}

/// The schema describes the input as a string, and the further arguments as a
/// list of strings.
pub proof fn schemas_describe_the_rest<T>(tool: McpTool<T>)
    ensures
        tool.remainder matches Some(spec) ==> {
            let property = schema::properties(tool)["args"@];
            property is Object && exists|strings: Json| #[trigger]
                describes(property->Object_0, "array"@, None, Some(strings), spec.description)
                    && strings is Object && describes(
                    strings->Object_0,
                    "string"@,
                    None,
                    None,
                    None,
                )
        },
        (tool.stdin is Some && forall|i: int|
            0 <= i < tool.params@.len() ==> (#[trigger] tool.params@[i]).name@ != "stdin"@) ==> {
            let property = schema::properties(tool)["stdin"@];
            property is Object && describes(
                property->Object_0,
                "string"@,
                None,
                None,
                tool.stdin->0.description,
            )
        },
{
    lemma_words();
    lemma_more_words();
    if tool.remainder is Some {
        let strings = Json::Object(schema::typed_schema("string"@));
        assert(describes(
            schema::properties(tool)["args"@]->Object_0,
            "array"@,
            None,
            Some(strings),
            tool.remainder->0.description,
        ));
    }
    if tool.stdin is Some && forall|i: int|
        0 <= i < tool.params@.len() ==> (#[trigger] tool.params@[i]).name@ != "stdin"@ {
        let base = Map::<Seq<char>, Json>::empty().insert(
            "stdin"@,
            schema::with_description(
                schema::typed_schema("string"@),
                tool.stdin->0.description,
            ),
        );
        lemma_other_property(base, tool.params@, "stdin"@);
    }
}

/// Values that make no difference to any parameter make none together.
proof fn lemma_same_additions(
    filling: Filling,
    params: Seq<ParamSpec>,
    one: Seq<Option<Reading>>,
    other: Seq<Option<Reading>>,
    argv: Argv,
)
    requires
        params.len() == one.len() == other.len(),
        forall|i: int, own: Argv|
            0 <= i < params.len() && #[trigger] invocation::param_adds(
                filling,
                params[i],
                one[i],
                own,
            ) ==> invocation::param_adds(filling, params[i], other[i], own),
        invocation::params_add(filling, params, one, argv),
    ensures
        invocation::params_add(filling, params, other, argv),
    decreases params.len(),
{
    if params.len() > 0 {
        let last = params.len() - 1;
        let before = choose|before: Argv|
            invocation::params_add(filling, params.drop_last(), one.drop_last(), before)
                && #[trigger] invocation::param_follows(
                filling,
                params.last(),
                one.last(),
                before,
                argv,
            );
        assert forall|i: int, own: Argv|
            0 <= i < params.drop_last().len() && #[trigger] invocation::param_adds(
                filling,
                params.drop_last()[i],
                one.drop_last()[i],
                own,
            ) implies invocation::param_adds(
            filling,
            params.drop_last()[i],
            other.drop_last()[i],
            own,
        ) by {
            assert(invocation::param_adds(filling, params[i], one[i], own));
        }
        lemma_same_additions(
            filling,
            params.drop_last(),
            one.drop_last(),
            other.drop_last(),
            before,
        );
        if before is Ok {
            let own = choose|own: Argv|
                #[trigger] invocation::param_adds(filling, params[last], one[last], own) && argv
                    == match own {
                    Ok(more) => Argv::Ok(before->Ok_0 + more),
                    Err(message) => Argv::Err(message),
                };
            assert(invocation::param_adds(filling, params[last], other[last], own));
        }
        assert(invocation::param_follows(filling, params.last(), other.last(), before, argv));
    }
}

/// The call is one that the request leads to.
pub open spec fn leads_to<T>(
    filling: Filling,
    tool: McpTool<T>,
    entries: Map<Seq<char>, Json>,
    call: Result<CallView, Seq<char>>,
) -> bool {
    invocation::calls(
        filling,
        tool,
        invocation::param_values(entries, tool.params@),
        json::present_in(entries, "args"@),
        json::present_in(entries, "stdin"@),
        call,
    )
}

/// Requests that differ in what makes no difference to a tool lead to the same
/// calls.
proof fn lemma_same_calls<T>(
    filling: Filling,
    tool: McpTool<T>,
    one: Map<Seq<char>, Json>,
    other: Map<Seq<char>, Json>,
    call: Result<CallView, Seq<char>>,
)
    requires
        forall|i: int, own: Argv|
            0 <= i < tool.params@.len() && #[trigger] invocation::param_adds(
                filling,
                tool.params@[i],
                json::present_in(one, tool.params@[i].name@),
                own,
            ) ==> invocation::param_adds(
                filling,
                tool.params@[i],
                json::present_in(other, tool.params@[i].name@),
                own,
            ),
        tool.remainder is Some ==> json::present_in(one, "args"@) == json::present_in(
            other,
            "args"@,
        ),
        tool.stdin is Some ==> json::present_in(one, "stdin"@) == json::present_in(
            other,
            "stdin"@,
        ),
        leads_to(filling, tool, one, call),
    ensures
        leads_to(filling, tool, other, call),
{
    let given = invocation::param_values(one, tool.params@);
    let taken = invocation::param_values(other, tool.params@);
    let argv = choose|argv: Argv| #[trigger]
        invocation::params_add(filling, tool.params@, given, argv) && call == invocation::completed(
            tool,
            argv,
            json::present_in(one, "args"@),
            json::present_in(one, "stdin"@),
        );
    assert forall|i: int, own: Argv|
        0 <= i < tool.params@.len() && #[trigger] invocation::param_adds(
            filling,
            tool.params@[i],
            given[i],
            own,
        ) implies invocation::param_adds(filling, tool.params@[i], taken[i], own) by {
        assert(given[i] == json::present_in(one, tool.params@[i].name@));
        assert(taken[i] == json::present_in(other, tool.params@[i].name@));
    }
    lemma_same_additions(filling, tool.params@, given, taken, argv);
    assert(invocation::params_add(filling, tool.params@, taken, argv));
    assert(call == invocation::completed(
        tool,
        argv,
        json::present_in(other, "args"@),
        json::present_in(other, "stdin"@),
    ));
}

/// The default that the schema states for an argument agrees with the calls: a
/// request that leaves the argument out leads to the same calls as one that
/// gives the default. This holds of every tool whose arguments have unambiguous
/// names.
pub proof fn stated_defaults_are_those_of_the_calls<T>(
    filling: Filling,
    tool: McpTool<T>,
    entries: Map<Seq<char>, Json>,
    name: Seq<char>,
    call: Result<CallView, Seq<char>>,
)
    requires
        unambiguous(tool),
        schema::properties(tool).contains_key(name),
        schema::properties(tool)[name] is Object,
        schema::properties(tool)[name]->Object_0.contains_key("default"@),
    ensures
        leads_to(
            filling,
            tool,
            entries.insert(name, schema::properties(tool)[name]->Object_0["default"@]),
            call,
        ) <==> leads_to(filling, tool, entries.remove(name), call),
{
    lemma_words();
    lemma_more_words();
    let default = schema::properties(tool)[name]->Object_0["default"@];
    let with = entries.insert(name, default);
    let without = entries.remove(name);
    let base = match tool.stdin {
        Some(stdin) => Map::empty().insert(
            "stdin"@,
            schema::with_description(schema::typed_schema("string"@), stdin.description),
        ),
        None => Map::empty(),
    };
    if tool.remainder is Some && name == "args"@ {
        assert(false);
    }
    assert(schema::properties(tool)[name] == schema::with_params(base, tool.params@)[name]);
    if forall|i: int| 0 <= i < tool.params@.len() ==> (#[trigger] tool.params@[i]).name@ != name {
        lemma_other_property(base, tool.params@, name);
        schema_lists_the_arguments(tool, name);
        assert(false);
    }
    let i = choose|i: int| 0 <= i < tool.params@.len() && (#[trigger] tool.params@[i]).name@ == name;
    let j = lemma_param_property(base, tool.params@, i);
    assert(!tool.params@[j].args.takes_value);
    assert(default == Json::Bool(false));
    assert(tool.stdin is Some ==> name != "stdin"@) by {
        if tool.stdin is Some && name == "stdin"@ {
            assert(tool.params@[j].args.takes_value);
        }
    }
    assert forall|k: int, own: Argv| 0 <= k < tool.params@.len() implies (
    #[trigger] invocation::param_adds(
        filling,
        tool.params@[k],
        json::present_in(with, tool.params@[k].name@),
        own,
    ) <==> invocation::param_adds(
        filling,
        tool.params@[k],
        json::present_in(without, tool.params@[k].name@),
        own,
    )) by {
        if tool.params@[k].name@ == name {
            assert(tool.params@[k].args.takes_value == tool.params@[j].args.takes_value);
        }
    }
    assert forall|k: int, own: Argv|
        0 <= k < tool.params@.len() && #[trigger] invocation::param_adds(
            filling,
            tool.params@[k],
            json::present_in(without, tool.params@[k].name@),
            own,
        ) implies invocation::param_adds(
        filling,
        tool.params@[k],
        json::present_in(with, tool.params@[k].name@),
        own,
    ) by {}
    if leads_to(filling, tool, with, call) {
        lemma_same_calls(filling, tool, with, without, call);
    }
    if leads_to(filling, tool, without, call) {
        lemma_same_calls(filling, tool, without, with, call);
    }
}

/// The request leaves the argument out: it is not there, or null.
pub open spec fn leaves_out(entries: Map<Seq<char>, Json>, name: Seq<char>) -> bool {
    !entries.contains_key(name) || entries[name] is Null
}

/// The value is a text or a number, and that is its text.
pub open spec fn has_text(value: Json, text: Seq<char>) -> bool {
    value == Json::Text(text) || value == Json::Number(text)
}

/// `added` is what a request puts on the command line for a parameter: the
/// elements of the default, whatever they are, if it leaves the parameter out
/// or gives false for a flag; the elements of the parameter's own fragment if it
/// gives true for a flag; and else what filling the value into that fragment
/// gives.
pub open spec fn added_for(
    filling: Filling,
    param: ParamSpec,
    entries: Map<Seq<char>, Json>,
    added: Seq<Seq<char>>,
) -> bool {
    let value = entries[param.name@];
    if leaves_out(entries, param.name@) {
        invocation::same_texts(added, param.default.elements@)
    } else if param.args.takes_value {
        exists|text: Seq<char>| #[trigger]
            has_text(value, text) && filling(param.args, text, Argv::Ok(added))
    } else {
        ||| value == Json::Bool(true) && invocation::same_texts(added, param.args.elements@)
        ||| value == Json::Bool(false) && invocation::same_texts(added, param.default.elements@)
    }
}

/// `more` is what a request puts there for the further arguments: the prefix
/// and the text of each, or nothing if there are none.
pub open spec fn further_for<T>(
    tool: McpTool<T>,
    entries: Map<Seq<char>, Json>,
    more: Seq<Seq<char>>,
) -> bool {
    if tool.remainder is None || leaves_out(entries, "args"@) {
        more.len() == 0
    } else {
        let prefix = tool.remainder->0.prefix@;
        let items = entries["args"@]->Array_0;
        &&& entries["args"@] is Array
        &&& items.len() == 0 ==> more.len() == 0
        &&& items.len() > 0 ==> more.len() == prefix.len() + items.len() && invocation::same_texts(
            more.take(prefix.len() as int),
            prefix,
        )
        &&& forall|k: int|
            0 <= k < items.len() ==> has_text(#[trigger] items[k], more[prefix.len() + k])
    }
}

/// A request puts on the command line what it gives for each parameter, in
/// their order, and then what it gives as further arguments. The program is fed
/// the text of the input, if there is one.
pub proof fn requests_make_the_command_line<T>(
    filling: Filling,
    tool: McpTool<T>,
    entries: Map<Seq<char>, Json>,
    call: CallView,
)
    requires
        leads_to(filling, tool, entries, Ok(call)),
    ensures
        exists|added: Seq<Seq<Seq<char>>>, more: Seq<Seq<char>>|
            {
                &&& call.argv == #[trigger] (added.flatten() + more)
                &&& added.len() == tool.params@.len()
                &&& forall|i: int|
                    0 <= i < added.len() ==> added_for(
                        filling,
                        tool.params@[i],
                        entries,
                        #[trigger] added[i],
                    )
                &&& further_for(tool, entries, more)
            },
        tool.stdin is None || leaves_out(entries, "stdin"@) ==> call.stdin is None,
        tool.stdin is Some && tool.stdin->0.required ==> !leaves_out(entries, "stdin"@),
        tool.stdin is Some && !leaves_out(entries, "stdin"@) ==> exists|text: Seq<char>|
            #[trigger] has_text(entries["stdin"@], text) && call.stdin == Some(
                vstd::utf8::encode_utf8(text),
            ),
{
    let values = invocation::param_values(entries, tool.params@);
    let rest = json::present_in(entries, "args"@);
    let stdin = json::present_in(entries, "stdin"@);
    invocation::calls_follow_their_parts(filling, tool, values, rest, stdin, call);
    let added = choose|added: Seq<Seq<Seq<char>>>|
        {
            &&& #[trigger] invocation::each_adds(filling, tool.params@, values, added)
            &&& added.len() == tool.params@.len()
            &&& tool.remainder is None ==> call.argv == added.flatten()
            &&& tool.remainder matches Some(spec) ==> invocation::remainder_of(spec, rest) is Ok
                && call.argv == added.flatten() + invocation::remainder_of(spec, rest)->Ok_0
        };
    let more = match tool.remainder {
        Some(spec) => invocation::remainder_of(spec, rest)->Ok_0,
        None => Seq::empty(),
    };
    assert(call.argv =~= added.flatten() + more);
    assert forall|i: int| 0 <= i < added.len() implies added_for(
        filling,
        tool.params@[i],
        entries,
        #[trigger] added[i],
    ) by {
        let param = tool.params@[i];
        let value = entries[param.name@];
        assert(invocation::param_adds(filling, param, values[i], Argv::Ok(added[i])));
        invocation::parameters_add_their_fragments(filling, param, values[i], Argv::Ok(added[i]));
        if value is Text {
            assert(has_text(value, value->Text_0));
        }
        if value is Number {
            assert(has_text(value, value->Number_0));
        }
    }
    assert(further_for(tool, entries, more)) by {
        if tool.remainder is Some {
            invocation::further_arguments_follow_the_prefix(tool.remainder->0, rest);
            if !leaves_out(entries, "args"@) {
                let prefix = tool.remainder->0.prefix@;
                let items = entries["args"@]->Array_0;
                let read = rest->0.kind->Array_0;
                assert forall|k: int| 0 <= k < items.len() implies has_text(
                    #[trigger] items[k],
                    more[prefix.len() + k],
                ) by {
                    assert(read[k] == json::reading(items[k]));
                    assert(invocation::is_scalar(read[k]));
                }
            }
        }
    }
    invocation::input_is_fed_as_text(tool.stdin, stdin);
    if tool.stdin is Some && !leaves_out(entries, "stdin"@) {
        let value = entries["stdin"@];
        if value is Text {
            assert(has_text(value, value->Text_0));
        }
        if value is Number {
            assert(has_text(value, value->Number_0));
        }
    }
}

} // verus!
