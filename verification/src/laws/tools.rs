//! Laws on tools, schemas and tool choice.
use vstd::prelude::*;
use vstd::seq_lib::*;

use crate::gemini::encode::lemma_filter_map_split;
use crate::gemini::media::single;
use crate::gemini::schema::{
    format_note, json_schema, lemma_json_schema, response_format_of, schema_field, schema_fields,
    schema_format, schema_items, with_format,
};
use crate::gemini::tools::{
    choice_config, choice_note, choice_of, declaration_json, declarations_of, declared_tool,
    declared_tools, no_parameters, tool_entries, tool_note, tools_json, tools_notes, tools_of,
};
use crate::json::{Json, Obj};
use crate::laws::fields::{items_at, one, plus, text_at, text_or_none, value_at};
use crate::laws::keys::lemma_tool_keys;
use crate::llm::{ChoiceView, ToolView};
use crate::text::{lower, lower_char};

verus! {

/// A tool as it is read back: not strict, and with the schema of a function without parameters
/// in the place of `null`.
pub open spec fn read_tool(tool: ToolView) -> ToolView {
    ToolView {
        name: tool.name,
        description: tool.description,
        parameters: if tool.parameters is Null {
            no_parameters()
        } else {
            tool.parameters
        },
        strict: None,
    }
}

/// Tools as they are read back.
pub open spec fn read_tools(tools: Seq<ToolView>) -> Seq<ToolView> {
    tools.map_values(|t: ToolView| read_tool(t))
}

/// Tools that are written are read back: the same names, descriptions and schemas in the same
/// order.
pub proof fn law_tools_read_back(tools: Seq<ToolView>)
    ensures
        tools_of(tool_entries(Some(tools_json(tools)))) == read_tools(tools),
        tools_notes(tool_entries(Some(tools_json(tools)))).len() == 0,
{
    lemma_tool_keys();
    let f = |t: Json| declared_tools(t);
    let g = |t: Json| tool_note(t);
    let d = |t: ToolView| declaration_json(t);
    let entry = single("functionDeclarations"@, Json::Array(tools.map_values(d)));
    let entries = tool_entries(Some(tools_json(tools)));
    assert(entries =~= seq![entry]);
    entries.lemma_flat_map_take_append(f, 0);
    assert(entries.take(0).map_values(f) =~= Seq::<Seq<ToolView>>::empty());
    assert(entries.take(0).flat_map(f) =~= Seq::<ToolView>::empty());
    assert(entries.take(1) =~= entries);
    assert(declarations_of(entry) == Some(tools.map_values(d)));
    entries.lemma_filter_map_take_succ(g, 0);
    assert(entries.take(0).filter_map(g) =~= Seq::<Seq<char>>::empty());
    assert forall|i: int| 0 <= i < tools.len() implies declared_tool(
        #[trigger] tools.map_values(d)[i],
    ) == read_tool(tools[i]) by {
        let tool = tools[i];
        assert(tools.map_values(d)[i] == declaration_json(tool));
    }
    assert(declared_tools(entry) =~= read_tools(tools));
    assert(tools_of(entries) =~= read_tools(tools));
}

/// No tool that is read is strict.
pub proof fn lemma_tools_not_strict(entries: Seq<Json>)
    ensures
        forall|i: int|
            0 <= i < tools_of(entries).len() ==> (#[trigger] tools_of(entries)[i]).strict is None,
    decreases entries.len(),
{
    let f = |t: Json| declared_tools(t);
    if entries.len() == 0 {
        assert(entries.map_values(f) =~= Seq::<Seq<ToolView>>::empty());
        assert(tools_of(entries) =~= Seq::<ToolView>::empty());
    } else {
        let front = entries.drop_last();
        let n = front.len() as int;
        lemma_tools_not_strict(front);
        entries.lemma_flat_map_take_append(f, n);
        assert(entries.take(n) =~= front);
        assert(entries.take(n + 1) =~= entries);
        assert forall|i: int| 0 <= i < tools_of(entries).len() implies (
        #[trigger] tools_of(entries)[i]).strict is None by {
            if i < tools_of(front).len() {
                assert(tools_of(entries)[i] == tools_of(front)[i]);
            } else {
                assert(tools_of(entries)[i] == declared_tools(entries[n])[i
                    - tools_of(front).len()]);
            }
        }
    }
}

/// A tool choice of the model's own is read back as it was written.
pub proof fn law_choice_reads_back(choice: ChoiceView)
    requires
        !(choice is Raw),
    ensures
        choice_config(choice) matches Some(config) && choice_of(config) == Some(choice),
        choice_note(choice) is None,
{
    lemma_tool_keys();
}

/// Whatever choice a `toolConfig` says, it comes out of a hop with the same meaning.
pub proof fn law_choice_survives(config: Json)
    ensures
        choice_of(config) matches Some(choice) ==> {
            &&& choice_config(choice) matches Some(written)
            &&& choice_of(written) == Some(choice)
        },
{
    if let Some(choice) = choice_of(config) {
        if !(choice is Raw) {
            law_choice_reads_back(choice);
        }
    }
}

/// Converting a schema twice is the same as converting it once, so its type names are in lower
/// case at every depth.
pub proof fn law_schema_conversion_is_idempotent(schema: Json)
    ensures
        json_schema(json_schema(schema)) == json_schema(schema),
    decreases schema,
{
    lemma_json_schema(schema);
    lemma_json_schema(json_schema(schema));
    match schema {
        Json::Object(o) => {
            assert forall|k: Seq<char>| o.contains_key(k) implies schema_field(
                k,
                schema_field(k, o[k]),
            ) == #[trigger] schema_field(k, o[k]) by {
                law_schema_conversion_is_idempotent(o[k]);
                lemma_json_schema(o[k]);
                if k == "type"@ && o[k] is String {
                    lemma_lower_twice(o[k]->String_0);
                }
            }
            assert(schema_fields(schema_fields(o)) =~= schema_fields(o));
        },
        Json::Array(items) => {
            assert forall|i: int| 0 <= i < items.len() implies json_schema(
                #[trigger] json_schema(items[i]),
            ) == json_schema(items[i]) by {
                law_schema_conversion_is_idempotent(items[i]);
            }
            assert(schema_items(schema_items(items)) =~= schema_items(items));
        },
        _ => {},
    }
}

proof fn lemma_lower_twice(s: Seq<char>)
    ensures
        lower(lower(s)) == lower(s),
{
    assert forall|c: char| lower_char(#[trigger] lower_char(c)) == lower_char(c) by {
        if 'A' <= c <= 'Z' {
            let n = c as u32 + 32;
            assert(97 <= n <= 122);
        }
    }
    assert(lower(lower(s)) =~= lower(s));
}

/// Converting a schema keeps its shape: an object keeps the names of its fields, an array its
/// length, and any other value is kept as it is.
pub proof fn law_schema_conversion_keeps_the_shape(schema: Json)
    ensures
        match (schema, json_schema(schema)) {
            (Json::Object(o), Json::Object(converted)) => converted.dom() == o.dom(),
            (Json::Array(items), Json::Array(converted)) => converted.len() == items.len(),
            (Json::Object(_), _) => false,
            (Json::Array(_), _) => false,
            (other, converted) => converted == other,
        },
{
    lemma_json_schema(schema);
    if let Json::Object(o) = schema {
        assert(schema_fields(o).dom() =~= o.dom());
    }
}

/// A schema that is asked for is read back from the `generationConfig` that it is written
/// into, whatever that held before.
pub proof fn law_schema_format_reads_back(schema: Json, generation: Obj)
    ensures
        response_format_of(with_format(schema_format(schema), generation)) == Some(
            schema_format(schema),
        ),
{
    reveal_strlit("type");
    reveal_strlit("json_schema");
    reveal_strlit("name");
    reveal_strlit("schema");
    assert("type"@.len() == 4);
    assert("json_schema"@.len() == 11);
    assert("name"@.len() == 4);
    assert("schema"@.len() == 6);
}

/// A step into a JSON value.
pub enum Step {
    Key(Seq<char>),
    Index(int),
}

/// What stands at the end of `path` in a JSON value.
pub open spec fn at(v: Json, path: Seq<Step>) -> Option<Json>
    decreases path.len(),
{
    if path.len() == 0 {
        Some(v)
    } else {
        match (v, path[0]) {
            (Json::Object(o), Step::Key(key)) => if o.contains_key(key) {
                at(o[key], path.skip(1))
            } else {
                None
            },
            (Json::Array(items), Step::Index(i)) => if 0 <= i < items.len() {
                at(items[i], path.skip(1))
            } else {
                None
            },
            _ => None,
        }
    }
}

/// Whether `path` ends at the key `type`.
pub open spec fn ends_at_type(path: Seq<Step>) -> bool {
    path.len() > 0 && path.last() == Step::Key("type"@)
}

/// Whether `small` is `text` with its letters `A` to `Z` in lower case.
pub open spec fn is_lower_case_of(small: Seq<char>, text: Seq<char>) -> bool {
    &&& small.len() == text.len()
    &&& forall|i: int|
        0 <= i < text.len() ==> #[trigger] small[i] == (if 'A' <= text[i] <= 'Z' {
            (text[i] as u32 + 32) as char
        } else {
            text[i]
        })
}

/// Whether `after` is what `before` is to be converted to where it stands at the end of `path`:
/// the lower case of a string under `type`, an object of the same fields, an array of as many
/// items, and anything else as it is.
pub open spec fn converted_at(path: Seq<Step>, before: Json, after: Json) -> bool {
    match before {
        Json::String(text) => if ends_at_type(path) {
            after is String && is_lower_case_of(after->String_0, text)
        } else {
            after == before
        },
        Json::Object(o) => after is Object && after->Object_0.dom() == o.dom(),
        Json::Array(items) => after is Array && after->Array_0.len() == items.len(),
        _ => after == before,
    }
}

/// Converting a schema changes the strings under `type` and nothing else, at every depth: at the
/// end of every path stands what stood there before, but for the case of the name of a type.
pub proof fn law_schema_conversion_changes_only_type_names(schema: Json, path: Seq<Step>)
    ensures
        at(schema, path) is Some <==> at(json_schema(schema), path) is Some,
        at(schema, path) matches Some(before) ==> converted_at(
            path,
            before,
            at(json_schema(schema), path)->Some_0,
        ),
    decreases path.len(),
{
    reveal_with_fuel(at, 2);
    lemma_json_schema(schema);
    if path.len() == 0 {
        if let Json::Object(o) = schema {
            assert(schema_fields(o).dom() =~= o.dom());
        }
    } else {
        let rest = path.skip(1);
        if rest.len() > 0 {
            assert(rest.last() == path.last());
        } else {
            assert(path.last() == path[0]);
        }
        match (schema, path[0]) {
            (Json::Object(o), Step::Key(key)) => {
                if o.contains_key(key) {
                    law_schema_conversion_changes_only_type_names(o[key], rest);
                    assert(schema_fields(o)[key] == schema_field(key, o[key]));
                    assert(schema_fields(o).contains_key(key));
                } else {
                    assert(!schema_fields(o).contains_key(key));
                }
            },
            (Json::Array(items), Step::Index(i)) => {
                if 0 <= i < items.len() {
                    law_schema_conversion_changes_only_type_names(items[i], rest);
                    assert(schema_items(items)[i] == json_schema(items[i]));
                }
            },
            _ => {},
        }
    }
}

/// The declarations in a tool entry.
pub open spec fn declared_in(entry: Json) -> Option<Seq<Json>> {
    if value_at(entry, "functionDeclarations"@) is Some && value_at(
        entry,
        "functionDeclarations"@,
    )->Some_0 is Array {
        Some(value_at(entry, "functionDeclarations"@)->Some_0->Array_0)
    } else {
        None
    }
}

/// The fields of a declaration; none where it is no object.
pub open spec fn fields_in(declaration: Json) -> Obj {
    if declaration is Object {
        declaration->Object_0
    } else {
        Map::empty()
    }
}

/// Declarations are read one for one: the name or an empty one, the description, and the JSON
/// schema or else the converted schema or else that of an object without properties.
pub proof fn law_declarations_are_read(entry: Json, declarations: Seq<Json>, i: int)
    requires
        declared_in(entry) == Some(declarations),
        0 <= i < declarations.len(),
    ensures
        tools_of(seq![entry]).len() == declarations.len(),
        tools_of(seq![entry])[i].name == text_or_none(fields_in(declarations[i]), "name"@),
        tools_of(seq![entry])[i].description == text_at(
            fields_in(declarations[i]),
            "description"@,
        ),
        tools_of(seq![entry])[i].strict is None,
        tools_of(seq![entry])[i].parameters == (if fields_in(declarations[i]).contains_key(
            "parametersJsonSchema"@,
        ) {
            fields_in(declarations[i])["parametersJsonSchema"@]
        } else if fields_in(declarations[i]).contains_key("parameters"@) {
            json_schema(fields_in(declarations[i])["parameters"@])
        } else {
            Json::Object(
                Map::empty().insert("type"@, Json::String("object"@)).insert(
                    "properties"@,
                    Json::Object(Map::empty()),
                ),
            )
        }),
{
    lemma_one_entry(entry);
}

proof fn lemma_one_entry(entry: Json)
    ensures
        tools_of(seq![entry]) == declared_tools(entry),
        tool_note(entry) matches Some(note) ==> tools_notes(seq![entry]) == seq![note],
        tool_note(entry) is None ==> tools_notes(seq![entry]).len() == 0,
{
    let f = |t: Json| declared_tools(t);
    let g = |t: Json| tool_note(t);
    let entries = seq![entry];
    entries.lemma_flat_map_take_append(f, 0);
    assert(entries.take(0).map_values(f) =~= Seq::<Seq<ToolView>>::empty());
    assert(entries.take(0).flat_map(f) =~= Seq::<ToolView>::empty());
    assert(entries.take(1) =~= entries);
    assert(tools_of(entries) =~= declared_tools(entry));
    entries.lemma_filter_map_take_succ(g, 0);
    assert(entries.take(0).filter_map(g) =~= Seq::<Seq<char>>::empty());
    if let Some(note) = tool_note(entry) {
        assert(tools_notes(entries) =~= seq![note]);
    }
}

proof fn lemma_tools_split(entries: Seq<Json>, i: int)
    requires
        0 <= i <= entries.len(),
    ensures
        tools_of(entries) == tools_of(entries.take(i)) + tools_of(entries.skip(i)),
    decreases entries.len() - i,
{
    let f = |t: Json| declared_tools(t);
    if i == entries.len() {
        assert(entries.take(i) =~= entries);
        assert(entries.skip(i).map_values(f) =~= Seq::<Seq<ToolView>>::empty());
        assert(tools_of(entries.skip(i)) =~= Seq::<ToolView>::empty());
        assert(tools_of(entries) =~= tools_of(entries.take(i)) + tools_of(entries.skip(i)));
    } else {
        lemma_tools_split(entries, i + 1);
        entries.lemma_flat_map_take_append(f, i);
        let rest = entries.skip(i);
        assert(rest.map_values(f)[0] == f(entries[i]));
        assert(rest.map_values(f).drop_first() =~= entries.skip(i + 1).map_values(f));
        assert(tools_of(rest) =~= f(entries[i]) + tools_of(entries.skip(i + 1)));
        assert(tools_of(entries) =~= tools_of(entries.take(i)) + tools_of(rest));
    }
}

/// Tool entries are read one after the other. An entry without declarations gives no tool and is
/// reported, one with declarations is not, and what is no array has no entries.
pub proof fn law_tool_entries_are_read(
    a: Seq<Json>,
    b: Seq<Json>,
    entry: Json,
    other: Option<Json>,
)
    requires
        other matches Some(v) ==> !(v is Array),
    ensures
        tools_of(a + b) == tools_of(a) + tools_of(b),
        tools_notes(a + b) == tools_notes(a) + tools_notes(b),
        declared_in(entry) is None ==> tools_of(seq![entry]).len() == 0 && tools_notes(seq![entry])
            == seq!["Gemini built-in tools have no normalized form; the tool was dropped"@],
        declared_in(entry) is Some ==> tools_notes(seq![entry]).len() == 0,
        tool_entries(Some(Json::Array(a))) == a,
        tool_entries(other).len() == 0,
{
    let n = a.len() as int;
    lemma_tools_split(a + b, n);
    lemma_filter_map_split(a + b, |t: Json| tool_note(t), n);
    assert((a + b).take(n) =~= a);
    assert((a + b).skip(n) =~= b);
    lemma_one_entry(entry);
}

/// Tools are written as one entry with one declaration for each, in order: the name, the
/// description where there is one, and the parameters as JSON schema unless they are `null`.
pub proof fn law_tools_are_written(tools: Seq<ToolView>, i: int)
    requires
        0 <= i < tools.len(),
    ensures
        tools_json(tools) is Array,
        tools_json(tools)->Array_0.len() == 1,
        declared_in(tools_json(tools)->Array_0[0]) matches Some(written) && written.len()
            == tools.len() && tools_json(tools)->Array_0[0] == one(
            "functionDeclarations"@,
            Json::Array(written),
        ) && written[i] == Json::Object(
            if tools[i].parameters is Null {
                plus(
                    Map::empty().insert("name"@, Json::String(tools[i].name)),
                    "description"@,
                    tools[i].description,
                )
            } else {
                plus(
                    Map::empty().insert("name"@, Json::String(tools[i].name)),
                    "description"@,
                    tools[i].description,
                ).insert("parametersJsonSchema"@, tools[i].parameters)
            },
        ),
{
}

/// The mode in a `toolConfig`.
pub open spec fn mode_in(config: Json) -> Option<Seq<char>> {
    text_at(fields_in(fields_in(config)["functionCallingConfig"@]), "mode"@)
}

/// The functions that a `toolConfig` allows.
pub open spec fn allowed_in(config: Json) -> Seq<Json> {
    items_at(fields_in(fields_in(config)["functionCallingConfig"@]), "allowedFunctionNames"@)
}

/// What a `toolConfig` says: nothing without a `functionCallingConfig`; automatic without a mode
/// or in mode `AUTO`; no tool in mode `NONE`; any tool in mode `ANY` without names and one tool
/// with its name alone. Anything else is kept as it is.
pub proof fn law_choices_are_read(config: Json)
    ensures
        !fields_in(config).contains_key("functionCallingConfig"@) ==> choice_of(config) is None,
        fields_in(config).contains_key("functionCallingConfig"@) ==> choice_of(config) == Some(
            match mode_in(config) {
                None => ChoiceView::Auto,
                Some(mode) => if mode == "AUTO"@ {
                    ChoiceView::Auto
                } else if mode == "NONE"@ {
                    ChoiceView::Never
                } else if mode == "ANY"@ && allowed_in(config).len() == 0 {
                    ChoiceView::Required
                } else if mode == "ANY"@ && allowed_in(config).len() == 1 && allowed_in(
                    config,
                )[0] is String {
                    ChoiceView::Tool { name: allowed_in(config)[0]->String_0 }
                } else {
                    ChoiceView::Raw(config)
                },
            },
        ),
{
    lemma_tool_keys();
}

/// What a choice is written as. A choice of another format that is no `toolConfig` is dropped
/// and reported; nothing else is.
pub proof fn law_choices_are_written(name: Seq<char>, raw: Json)
    ensures
        choice_config(ChoiceView::Auto) == Some(
            one("functionCallingConfig"@, one("mode"@, Json::String("AUTO"@))),
        ),
        choice_config(ChoiceView::Required) == Some(
            one("functionCallingConfig"@, one("mode"@, Json::String("ANY"@))),
        ),
        choice_config(ChoiceView::Never) == Some(
            one("functionCallingConfig"@, one("mode"@, Json::String("NONE"@))),
        ),
        choice_config(ChoiceView::Tool { name }) == Some(
            one(
                "functionCallingConfig"@,
                Json::Object(
                    Map::empty().insert("mode"@, Json::String("ANY"@)).insert(
                        "allowedFunctionNames"@,
                        Json::Array(seq![Json::String(name)]),
                    ),
                ),
            ),
        ),
        choice_note(ChoiceView::Auto) is None,
        choice_note(ChoiceView::Required) is None,
        choice_note(ChoiceView::Never) is None,
        choice_note(ChoiceView::Tool { name }) is None,
        fields_in(raw).contains_key("functionCallingConfig"@) ==> choice_config(
            ChoiceView::Raw(raw),
        ) == Some(raw) && choice_note(ChoiceView::Raw(raw)) is None,
        !fields_in(raw).contains_key("functionCallingConfig"@) ==> choice_config(
            ChoiceView::Raw(raw),
        ) is None && choice_note(ChoiceView::Raw(raw)) == Some(
            "tool choice has no Gemini functionCallingConfig equivalent; it was dropped"@,
        ),
{
}

/// The response format that a `generationConfig` asks for: a schema where it has one, of which
/// the JSON schema comes first and the other is converted; JSON where it has none and asks for
/// `application/json`; and nothing else.
pub proof fn law_formats_are_read(generation: Obj)
    ensures
        generation.contains_key("responseJsonSchema"@) ==> response_format_of(generation) == Some(
            Json::Object(
                Map::empty().insert("type"@, Json::String("json_schema"@)).insert(
                    "json_schema"@,
                    Json::Object(
                        Map::empty().insert("name"@, Json::String("response"@)).insert(
                            "schema"@,
                            generation["responseJsonSchema"@],
                        ),
                    ),
                ),
            ),
        ),
        !generation.contains_key("responseJsonSchema"@) && generation.contains_key(
            "responseSchema"@,
        ) ==> response_format_of(generation) == Some(
            Json::Object(
                Map::empty().insert("type"@, Json::String("json_schema"@)).insert(
                    "json_schema"@,
                    Json::Object(
                        Map::empty().insert("name"@, Json::String("response"@)).insert(
                            "schema"@,
                            json_schema(generation["responseSchema"@]),
                        ),
                    ),
                ),
            ),
        ),
        !generation.contains_key("responseJsonSchema"@) && !generation.contains_key(
            "responseSchema"@,
        ) ==> response_format_of(generation) == (if text_at(generation, "responseMimeType"@)
            == Some("application/json"@) {
            Some(one("type"@, Json::String("json_object"@)))
        } else {
            None
        }),
{
}

/// The type that a response format names.
pub open spec fn type_in(format: Json) -> Option<Seq<char>> {
    text_at(fields_in(format), "type"@)
}

/// The schema in a response format.
pub open spec fn schema_in(format: Json) -> Option<Json> {
    if fields_in(format).contains_key("json_schema"@) {
        value_at(fields_in(format)["json_schema"@], "schema"@)
    } else {
        None
    }
}

/// A response format that asks for a schema is written with that schema, whatever else it says,
/// and nothing is reported; so a schema is written or its loss is reported.
pub proof fn law_schema_is_written(format: Json, schema: Json, generation: Obj)
    requires
        type_in(format) == Some("json_schema"@),
        schema_in(format) == Some(schema),
    ensures
        with_format(format, generation).contains_key("responseJsonSchema"@),
        with_format(format, generation)["responseJsonSchema"@] == schema,
        with_format(format, generation).contains_key("responseMimeType"@),
        with_format(format, generation)["responseMimeType"@] == Json::String("application/json"@),
        format_note(format) is None,
{
    lemma_format_names();
}

proof fn lemma_format_names()
    ensures
        "json_schema"@ != "json_object"@,
        "json_schema"@ != "text"@,
        "json_object"@ != "text"@,
        "responseJsonSchema"@ != "responseMimeType"@,
{
    reveal_strlit("json_schema");
    reveal_strlit("json_object");
    reveal_strlit("text");
    reveal_strlit("responseJsonSchema");
    reveal_strlit("responseMimeType");
    assert("json_schema"@[5] != "json_object"@[5]);
    assert("json_schema"@.len() == 11);
    assert("json_object"@.len() == 11);
    assert("text"@.len() == 4);
    assert("responseJsonSchema"@.len() == 18);
    assert("responseMimeType"@.len() == 16);
}

/// The other response formats: JSON is asked for by its type alone, text by nothing, and what
/// Gemini has nothing for is reported and leaves no trace, as is a schema that is missing.
pub proof fn law_other_formats_are_written(format: Json, generation: Obj)
    ensures
        type_in(format) == Some("json_object"@) ==> with_format(format, generation)
            == generation.insert("responseMimeType"@, Json::String("application/json"@))
            && format_note(format) is None,
        type_in(format) == Some("text"@) ==> with_format(format, generation) == generation
            && format_note(format) is None,
        type_in(format) == Some("json_schema"@) && schema_in(format) is None ==> with_format(
            format,
            generation,
        ) == generation && format_note(format) == Some(
            "json_schema response format has no schema; the requested format was dropped"@,
        ),
        type_in(format) != Some("json_object"@) && type_in(format) != Some("text"@) && type_in(
            format,
        ) != Some("json_schema"@) ==> with_format(format, generation) == generation && format_note(
            format,
        ) == Some("response format has no Gemini equivalent; the requested format was dropped"@),
{
    lemma_format_names();
}

/// Writing a response format touches no field but its own two.
pub proof fn law_formats_touch_two_fields(format: Json, generation: Obj, key: Seq<char>)
    requires
        key != "responseMimeType"@,
        key != "responseJsonSchema"@,
    ensures
        with_format(format, generation).contains_key(key) == generation.contains_key(key),
        generation.contains_key(key) ==> with_format(format, generation)[key] == generation[key],
{
}

} // verus!
