//! Tool declarations and tool choice.
use vstd::prelude::*;
use vstd::seq_lib::*;

use crate::error::{messages_of, ErrorView, TranslationDiagnostic, TranslationError};
use crate::gemini::decode::{or_empty, text_or_empty};
use crate::gemini::encode::{lemma_filter_map_split, note_list};
use crate::gemini::media::{insert_text, json_single, single, with_text};
use crate::gemini::schema::{json_schema, json_schema_from_openapi};
use crate::json::{
    array_in, field, json_array, json_field, json_items, json_of_str, json_str, json_text,
    lemma_items_pushed, opt_json, opt_value, string_in, Json, JsonObject, JsonValue,
};
use crate::llm::{opt_choice, tool_views, ChoiceView, ToolChoice, ToolDefinition, ToolView};
use crate::policy::TranslationPolicy;
use crate::text::{opt_borrow, str_eq};
use crate::util::{dropped, lemma_reported_append, lemma_reported_nothing, push_lossy, reported};

verus! {

/// The function declarations of a tool; a built-in tool has none.
pub open spec fn declarations_of(tool: Json) -> Option<Seq<Json>> {
    array_in(field(tool, "functionDeclarations"@))
}

/// The schema of a function without parameters.
pub open spec fn no_parameters() -> Json {
    Json::Object(
        map!["type"@ => Json::String("object"@), "properties"@ => Json::Object(Map::empty())],
    )
}

/// The tool that a function declaration says.
pub open spec fn declared_tool(declaration: Json) -> ToolView {
    ToolView {
        name: or_empty(string_in(field(declaration, "name"@))),
        description: string_in(field(declaration, "description"@)),
        parameters: match field(declaration, "parametersJsonSchema"@) {
            Some(schema) => schema,
            None => match field(declaration, "parameters"@) {
                Some(schema) => json_schema(schema),
                None => no_parameters(),
            },
        },
        strict: None,
    }
}

/// The tools that a tool entry declares.
pub open spec fn declared_tools(tool: Json) -> Seq<ToolView> {
    match declarations_of(tool) {
        Some(declarations) => declarations.map_values(|d: Json| declared_tool(d)),
        None => Seq::empty(),
    }
}

/// What is dropped of a tool entry.
pub open spec fn tool_note(tool: Json) -> Option<Seq<char>> {
    if declarations_of(tool) is Some {
        None
    } else {
        Some("Gemini built-in tools have no normalized form; the tool was dropped"@)
    }
}

/// The entries of `tools`; none where it is no array.
pub open spec fn tool_entries(tools: Option<Json>) -> Seq<Json> {
    match array_in(tools) {
        Some(entries) => entries,
        None => Seq::empty(),
    }
}

/// The tools that all entries declare, in order.
pub open spec fn tools_of(entries: Seq<Json>) -> Seq<ToolView> {
    entries.flat_map(|t: Json| declared_tools(t))
}

/// What is dropped of all entries, in order.
pub open spec fn tools_notes(entries: Seq<Json>) -> Seq<Seq<char>> {
    entries.filter_map(|t: Json| tool_note(t))
}

fn decode_declaration(declaration: &JsonValue) -> (tool: ToolDefinition)
    ensures
        tool@ == declared_tool(declaration@),
{
    let parameters = match json_field(declaration, "parametersJsonSchema") {
        Some(schema) => schema.clone(),
        None => match json_field(declaration, "parameters") {
            Some(schema) => json_schema_from_openapi(schema),
            None => JsonValue::Object(
                JsonObject::new().with("type", json_of_str("object")).with(
                    "properties",
                    JsonValue::Object(JsonObject::new()),
                ),
            ),
        },
    };
    ToolDefinition {
        name: text_or_empty(json_str(json_field(declaration, "name"))),
        description: json_text(json_field(declaration, "description")),
        parameters,
        strict: None,
    }
}

fn decode_declarations(declarations: &Vec<JsonValue>, definitions: &mut Vec<ToolDefinition>)
    ensures
        tool_views(final(definitions)@) == tool_views(old(definitions)@) + json_items(
            declarations@,
        ).map_values(|d: Json| declared_tool(d)),
{
    let ghost start = tool_views(definitions@);
    let ghost f = |d: Json| declared_tool(d);
    let ghost all = json_items(declarations@).map_values(f);
    let mut i: usize = 0;
    assert(start + all.take(0) =~= start);
    while i < declarations.len()
        invariant
            i <= declarations@.len(),
            f == (|d: Json| declared_tool(d)),
            all == json_items(declarations@).map_values(f),
            tool_views(definitions@) == start + all.take(i as int),
        decreases declarations@.len() - i,
    {
        let tool = decode_declaration(&declarations[i]);
        let ghost before = definitions@;
        definitions.push(tool);
        proof {
            assert(all[i as int] == tool@);
            assert(all.take(i + 1) =~= all.take(i as int).push(all[i as int]));
            assert(tool_views(before.push(tool)) =~= tool_views(before).push(tool@));
            assert(start + all.take(i + 1) =~= (start + all.take(i as int)).push(tool@));
        }
        i += 1;
    }
    assert(all.take(i as int) =~= all);
}

/// Decodes function declarations. Built-in tools such as `googleSearch` have no shape in
/// the model.
pub fn decode_gemini_tools(
    tools: Option<&JsonValue>,
    diagnostics: &mut Vec<TranslationDiagnostic>,
    policy: &TranslationPolicy,
) -> (r: Result<Vec<ToolDefinition>, TranslationError>)
    ensures
        r matches Ok(definitions) ==> tool_views(definitions@) == tools_of(
            tool_entries(opt_json(tools)),
        ),
        dropped(
            r,
            old(diagnostics)@,
            final(diagnostics)@,
            *policy,
            tools_notes(tool_entries(opt_json(tools))),
        ),
{
    let mut definitions: Vec<ToolDefinition> = Vec::new();
    let ghost start = messages_of(diagnostics@);
    let ghost all = tool_entries(opt_json(tools));
    let ghost declared = |t: Json| declared_tools(t);
    let ghost note_of = |t: Json| tool_note(t);
    proof {
        lemma_reported_nothing(start, *policy, all.take(0).filter_map(note_of));
        assert(all.take(0) =~= Seq::<Json>::empty());
        assert(all.take(0).map_values(declared) =~= Seq::<Seq<ToolView>>::empty());
        assert(tool_views(definitions@) =~= all.take(0).flat_map(declared));
    }
    let entries = match json_array(tools) {
        Some(entries) => entries,
        None => {
            assert(all =~= all.take(0));
            return Ok(definitions);
        },
    };
    let mut i: usize = 0;
    while i < entries.len()
        invariant
            i <= entries@.len(),
            all == json_items(entries@),
            declared == (|t: Json| declared_tools(t)),
            note_of == (|t: Json| tool_note(t)),
            start == messages_of(old(diagnostics)@),
            policy.lossy is Reject ==> diagnostics@ == old(diagnostics)@,
            tools_notes(tool_entries(opt_json(tools))) == all.filter_map(note_of),
            tool_views(definitions@) == all.take(i as int).flat_map(declared),
            reported(start, *policy, all.take(i as int).filter_map(note_of)) == Ok::<
                Seq<Seq<char>>,
                ErrorView,
            >(messages_of(diagnostics@)),
        decreases entries@.len() - i,
    {
        proof {
            assert(all[i as int] == entries@[i as int]@);
            all.lemma_flat_map_take_append(declared, i as int);
            all.lemma_filter_map_take_succ(note_of, i as int);
            let before = all.take(i as int).filter_map(note_of);
            let now = note_list(tool_note(all[i as int]));
            let after = all.take(i + 1).filter_map(note_of);
            let rest = all.skip(i + 1).filter_map(note_of);
            assert(after =~= before + now);
            lemma_reported_append(start, *policy, before, now);
            lemma_reported_nothing(messages_of(diagnostics@), *policy, Seq::empty());
            lemma_filter_map_split(all, note_of, i + 1);
            lemma_reported_append(start, *policy, after, rest);
        }
        match json_array(json_field(&entries[i], "functionDeclarations")) {
            Some(declarations) => {
                decode_declarations(declarations, &mut definitions);
                assert(tool_views(definitions@) == all.take(i + 1).flat_map(declared));
            },
            None => {
                push_lossy(
                    diagnostics,
                    policy,
                    "Gemini built-in tools have no normalized form; the tool was dropped",
                )?;
                assert(all.take(i + 1).flat_map(declared) =~= tool_views(definitions@));
            },
        }
        i += 1;
    }
    assert(all.take(i as int) =~= all);
    Ok(definitions)
}

/// The function declaration that says a tool.
pub open spec fn declaration_json(tool: ToolView) -> Json {
    let declaration = with_text(
        map!["name"@ => Json::String(tool.name)],
        "description"@,
        tool.description,
    );
    Json::Object(
        if tool.parameters is Null {
            declaration
        } else {
            declaration.insert("parametersJsonSchema"@, tool.parameters)
        },
    )
}

/// The `tools` that say tool definitions: one entry with all declarations.
pub open spec fn tools_json(tools: Seq<ToolView>) -> Json {
    Json::Array(
        seq![
            single(
                "functionDeclarations"@,
                Json::Array(tools.map_values(|t: ToolView| declaration_json(t))),
            ),
        ],
    )
}

fn encode_declaration(tool: &ToolDefinition) -> (declaration: JsonValue)
    ensures
        declaration@ == declaration_json(tool@),
{
    let mut declaration = JsonObject::new().with("name", json_of_str(tool.name.as_str()));
    insert_text(&mut declaration, "description", opt_borrow(&tool.description));
    match &tool.parameters {
        JsonValue::Null => {},
        parameters => declaration.insert("parametersJsonSchema", parameters.clone()),
    }
    JsonValue::Object(declaration)
}

/// Encodes tool definitions. `parametersJsonSchema` takes full JSON Schema; `parameters`
/// rejects keywords such as `additionalProperties`.
pub fn encode_gemini_tools(tools: &Vec<ToolDefinition>) -> (value: JsonValue)
    ensures
        value@ == tools_json(tool_views(tools@)),
{
    let ghost f = |t: ToolView| declaration_json(t);
    let ghost all = tool_views(tools@).map_values(f);
    let mut declarations: Vec<JsonValue> = Vec::new();
    let mut i: usize = 0;
    assert(json_items(declarations@) =~= all.take(0));
    while i < tools.len()
        invariant
            i <= tools@.len(),
            f == (|t: ToolView| declaration_json(t)),
            all == tool_views(tools@).map_values(f),
            json_items(declarations@) == all.take(i as int),
        decreases tools@.len() - i,
    {
        let declaration = encode_declaration(&tools[i]);
        proof {
            lemma_items_pushed(declarations@, declaration);
            assert(all[i as int] == declaration@);
            assert(all.take(i + 1) =~= all.take(i as int).push(all[i as int]));
        }
        declarations.push(declaration);
        i += 1;
    }
    assert(all.take(i as int) =~= all);
    let mut entries: Vec<JsonValue> = Vec::new();
    entries.push(json_single("functionDeclarations", JsonValue::Array(declarations)));
    assert(json_items(entries@) =~= seq![single("functionDeclarations"@, Json::Array(all))]);
    JsonValue::Array(entries)
}

/// The functions that a `functionCallingConfig` allows.
pub open spec fn allowed_names(calling: Json) -> Seq<Json> {
    match array_in(field(calling, "allowedFunctionNames"@)) {
        Some(names) => names,
        None => Seq::empty(),
    }
}

/// The choice that a `toolConfig` says, where it says one.
pub open spec fn choice_of(config: Json) -> Option<ChoiceView> {
    match field(config, "functionCallingConfig"@) {
        None => None,
        Some(calling) => {
            let mode = string_in(field(calling, "mode"@));
            let allowed = allowed_names(calling);
            if mode is None || mode == Some("AUTO"@) {
                Some(ChoiceView::Auto)
            } else if mode == Some("NONE"@) {
                Some(ChoiceView::Never)
            } else if mode == Some("ANY"@) && allowed.len() == 0 {
                Some(ChoiceView::Required)
            } else if mode == Some("ANY"@) && allowed.len() == 1 && allowed[0] is String {
                Some(ChoiceView::Tool { name: allowed[0]->String_0 })
            } else {
                Some(ChoiceView::Raw(config))
            }
        },
    }
}

/// Maps `toolConfig.functionCallingConfig` to a tool choice.
pub fn decode_gemini_tool_choice(config: &JsonValue) -> (choice: Option<ToolChoice>)
    ensures
        opt_choice(choice) == choice_of(config@),
{
    let calling = match json_field(config, "functionCallingConfig") {
        Some(calling) => calling,
        None => return None,
    };
    let allowed = json_array(json_field(calling, "allowedFunctionNames"));
    let mode = match json_str(json_field(calling, "mode")) {
        Some(mode) => mode,
        None => return Some(ToolChoice::Auto),
    };
    if str_eq(mode, "AUTO") {
        return Some(ToolChoice::Auto);
    }
    if str_eq(mode, "NONE") {
        return Some(ToolChoice::Never);
    }
    if str_eq(mode, "ANY") {
        match allowed {
            Some(names) => {
                if names.len() == 0 {
                    return Some(ToolChoice::Required);
                }
                if names.len() == 1 {
                    assert(allowed_names(calling@)[0] == names@[0]@);
                    match &names[0] {
                        JsonValue::String(name) => {
                            return Some(ToolChoice::Tool { name: name.clone() });
                        },
                        _ => {},
                    }
                }
            },
            None => return Some(ToolChoice::Required),
        }
    }
    Some(ToolChoice::Raw(config.clone()))
}

/// A `toolConfig` with a mode.
pub open spec fn mode_config(mode: Seq<char>) -> Json {
    single("functionCallingConfig"@, single("mode"@, Json::String(mode)))
}

/// The `toolConfig` that says a choice, where there is one.
pub open spec fn choice_config(choice: ChoiceView) -> Option<Json> {
    match choice {
        ChoiceView::Auto => Some(mode_config("AUTO"@)),
        ChoiceView::Required => Some(mode_config("ANY"@)),
        ChoiceView::Never => Some(mode_config("NONE"@)),
        ChoiceView::Tool { name } => Some(
            single(
                "functionCallingConfig"@,
                Json::Object(
                    map![
                        "mode"@ => Json::String("ANY"@),
                        "allowedFunctionNames"@ => Json::Array(seq![Json::String(name)])
                    ],
                ),
            ),
        ),
        ChoiceView::Raw(value) => if field(value, "functionCallingConfig"@) is Some {
            Some(value)
        } else {
            None
        },
    }
}

/// What is dropped of a choice.
pub open spec fn choice_note(choice: ChoiceView) -> Option<Seq<char>> {
    if choice_config(choice) is Some {
        None
    } else {
        Some("tool choice has no Gemini functionCallingConfig equivalent; it was dropped"@)
    }
}

fn mode_value(mode: &str) -> (config: JsonValue)
    ensures
        config@ == mode_config(mode@),
{
    json_single("functionCallingConfig", json_single("mode", json_of_str(mode)))
}

/// Maps a tool choice to `toolConfig`.
pub fn encode_gemini_tool_config(
    choice: &ToolChoice,
    diagnostics: &mut Vec<TranslationDiagnostic>,
    policy: &TranslationPolicy,
) -> (r: Result<Option<JsonValue>, TranslationError>)
    ensures
        r matches Ok(config) ==> opt_value(config) == choice_config(choice@),
        dropped(
            r,
            old(diagnostics)@,
            final(diagnostics)@,
            *policy,
            note_list(choice_note(choice@)),
        ),
{
    proof {
        lemma_reported_nothing(messages_of(diagnostics@), *policy, Seq::empty());
    }
    match choice {
        ToolChoice::Auto => Ok(Some(mode_value("AUTO"))),
        ToolChoice::Required => Ok(Some(mode_value("ANY"))),
        ToolChoice::Never => Ok(Some(mode_value("NONE"))),
        ToolChoice::Tool { name } => {
            let mut names: Vec<JsonValue> = Vec::new();
            names.push(json_of_str(name.as_str()));
            assert(json_items(names@) =~= seq![Json::String(name@)]);
            let calling = JsonObject::new().with("mode", json_of_str("ANY")).with(
                "allowedFunctionNames",
                JsonValue::Array(names),
            );
            Ok(Some(json_single("functionCallingConfig", JsonValue::Object(calling))))
        },
        ToolChoice::Raw(value) => {
            if json_field(value, "functionCallingConfig").is_some() {
                return Ok(Some(value.clone()));
            }
            push_lossy(
                diagnostics,
                policy,
                "tool choice has no Gemini functionCallingConfig equivalent; it was dropped",
            )?;
            Ok(None)
        },
    }
}

} // verus!
