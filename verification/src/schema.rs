//! The JSON schema of the arguments that a configured tool takes.
use vstd::prelude::*;
use vstd::string::*;

use crate::config::{McpTool, ParamSpec};
use crate::json;
use crate::json::{Json, JsonObject};

verus! {

/// The schema of a value of the named type.
pub open spec fn typed_schema(name: Seq<char>) -> Map<Seq<char>, Json> {
    Map::empty().insert("type"@, Json::Text(name))
}

/// A schema with its description, if there is one.
pub open spec fn with_description(
    schema: Map<Seq<char>, Json>,
    description: Option<String>,
) -> Json {
    Json::Object(
        match description {
            Some(text) => schema.insert("description"@, Json::Text(text@)),
            None => schema,
        },
    )
}

/// The schema of a parameter: a string if it takes a value, else a flag that
/// is not set by default.
pub open spec fn param_schema(param: ParamSpec) -> Map<Seq<char>, Json> {
    if param.args.takes_value {
        typed_schema("string"@)
    } else {
        typed_schema("boolean"@).insert("default"@, Json::Bool(false))
    }
}

/// The schema of the further arguments: a list of strings.
pub open spec fn remainder_schema() -> Map<Seq<char>, Json> {
    typed_schema("array"@).insert("items"@, Json::Object(typed_schema("string"@)))
}

/// The schemas by name, with those of the parameters added in their order.
pub open spec fn with_params(
    properties: Map<Seq<char>, Json>,
    params: Seq<ParamSpec>,
) -> Map<Seq<char>, Json>
    decreases params.len(),
{
    if params.len() == 0 {
        properties
    } else {
        let param = params.last();
        with_params(properties, params.drop_last()).insert(
            param.name@,
            with_description(param_schema(param), param.description),
        )
    }
}

/// The schemas of all arguments by their names.
pub open spec fn properties<T>(tool: McpTool<T>) -> Map<Seq<char>, Json> {
    let stdin = match tool.stdin {
        Some(stdin) => Map::empty().insert(
            "stdin"@,
            with_description(typed_schema("string"@), stdin.description),
        ),
        None => Map::empty(),
    };
    let named = with_params(stdin, tool.params@);
    match tool.remainder {
        Some(remainder) => named.insert(
            "args"@,
            with_description(remainder_schema(), remainder.description),
        ),
        None => named,
    }
}

/// The tool cannot be called without text for its standard input.
pub open spec fn requires_stdin<T>(tool: McpTool<T>) -> bool {
    tool.stdin is Some && tool.stdin->0.required
}

/// The names of the arguments that cannot be left out.
pub open spec fn required<T>(tool: McpTool<T>) -> Seq<Json> {
    if requires_stdin(tool) {
        seq![Json::Text("stdin"@)]
    } else {
        Seq::empty()
    }
}

/// The schema of the arguments of a tool: an object with these properties and
/// no others.
pub open spec fn schema_of<T>(tool: McpTool<T>) -> Map<Seq<char>, Json> {
    Map::empty().insert("type"@, Json::Text("object"@)).insert(
        "properties"@,
        Json::Object(properties(tool)),
    ).insert("required"@, Json::Array(required(tool))).insert(
        "additionalProperties"@,
        Json::Bool(false),
    )
}

/// The schema of a value of the named type.
fn typed(name: &str) -> (schema: JsonObject)
    ensures
        json::entries_of(schema) == typed_schema(name@),
{
    let mut schema = json::new_object();
    json::insert(&mut schema, "type".to_string(), json::json_string(name.to_string()));
    schema
}

/// Adds the description, if there is one.
fn describe(schema: JsonObject, description: &Option<String>) -> (value: serde_json::Value)
    ensures
        json::json_of(value) == with_description(json::entries_of(schema), *description),
{
    let mut schema = schema;
    if let Some(text) = description {
        json::insert(&mut schema, "description".to_string(), json::json_string(text.clone()));
    }
    json::json_object(schema)
}

/// The schema of the arguments of a tool.
pub fn tool_schema<T>(tool: &McpTool<T>) -> (schema: JsonObject)
    ensures
        json::entries_of(schema) == schema_of(*tool),
{
    let mut listed = json::new_object();
    let mut names: Vec<serde_json::Value> = Vec::new();
    if let Some(stdin) = &tool.stdin {
        json::insert(
            &mut listed,
            "stdin".to_string(),
            describe(typed("string"), &stdin.description),
        );
        if stdin.required {
            names.push(json::json_string("stdin".to_string()));
        }
    }
    let ghost stdin_only = json::entries_of(listed);
    let mut i: usize = 0;
    proof {
        assert(tool.params@.take(0) =~= Seq::empty());
    }
    while i < tool.params.len()
        invariant
            i <= tool.params@.len(),
            json::entries_of(listed) == with_params(stdin_only, tool.params@.take(i as int)),
        decreases tool.params@.len() - i,
    {
        let param = &tool.params[i];
        let property = if param.args.takes_value() {
            typed("string")
        } else {
            let mut flag = typed("boolean");
            json::insert(&mut flag, "default".to_string(), json::json_bool(false));
            flag
        };
        json::insert(&mut listed, param.name.clone(), describe(property, &param.description));
        proof {
            let next = tool.params@.take(i + 1);
            assert(next.drop_last() =~= tool.params@.take(i as int));
            assert(next.last() == *param);
        }
        i = i + 1;
    }
    proof {
        assert(tool.params@.take(i as int) =~= tool.params@);
    }
    if let Some(remainder) = &tool.remainder {
        let mut list = typed("array");
        json::insert(&mut list, "items".to_string(), json::json_object(typed("string")));
        json::insert(&mut listed, "args".to_string(), describe(list, &remainder.description));
    }
    let ghost all = json::list_of(names@);
    proof {
        assert(all =~= required(*tool));
    }
    let mut schema = json::new_object();
    json::insert(&mut schema, "type".to_string(), json::json_string("object".to_string()));
    json::insert(&mut schema, "properties".to_string(), json::json_object(listed));
    json::insert(&mut schema, "required".to_string(), json::json_array(names));
    json::insert(&mut schema, "additionalProperties".to_string(), json::json_bool(false));
    schema
}

} // verus!
