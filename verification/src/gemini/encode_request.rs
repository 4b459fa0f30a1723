//! Writes the body of a `generateContent` request.
use vstd::prelude::*;
use vstd::seq_lib::*;

use crate::codecs::EncodedRequest;
use crate::common::{block_text, block_texts};
use crate::error::{messages_of, ErrorView, TranslationDiagnostic, TranslationError};
use crate::gemini::encode::{
    content_notes, content_parts, encode_gemini_parts, lemma_filter_map_split, note_list, CallNames,
};
use crate::gemini::media::{insert_text, json_single, single, with_text};
use crate::gemini::schema::{encode_gemini_response_format, format_note, with_format};
use crate::gemini::tools::{
    choice_config, choice_note, encode_gemini_tool_config, encode_gemini_tools, tools_json,
};
use crate::gemini::GEMINI_FORMAT;
use crate::json::{
    float_json, int_json, json_items, json_object, json_of_float, json_of_str, json_of_u64,
    lemma_items_pushed, object_in, opt_value, Json, JsonNumber, JsonObject, JsonValue, Obj,
};
use crate::llm::{
    blocks, instruction_views, message_views, BlockView, ContentBlock, InstructionBlock, LlmRequest,
    Message, MessageView, OutputView, RequestView, Role, SamplingView,
};
use crate::policy::TranslationPolicy;
use crate::text::opt_borrow;
use crate::util::{
    capability_notes, dropped, embed_preservation, embedded, exact_preserved_request,
    lemma_reported_append, lemma_reported_nothing, replayed, reported,
    validate_request_capabilities,
};

verus! {

/// `o` with the field `key` set to a value, where there is one.
pub open spec fn with_value(o: Obj, key: Seq<char>, value: Option<Json>) -> Obj {
    match value {
        Some(v) => o.insert(key, v),
        None => o,
    }
}

/// The content of all messages, one after the other.
pub open spec fn all_content(messages: Seq<MessageView>) -> Seq<BlockView> {
    messages.flat_map(|m: MessageView| m.content)
}

/// The text parts that content is written as where only text counts.
pub open spec fn text_parts(content: Seq<BlockView>) -> Seq<Json> {
    block_texts(content).map_values(|t: Seq<char>| single("text"@, Json::String(t)))
}

/// Content that comes first is written first.
pub proof fn lemma_text_parts_append(a: Seq<BlockView>, b: Seq<BlockView>)
    ensures
        text_parts(a + b) == text_parts(a) + text_parts(b),
{
    let f = |x: BlockView| block_text(x);
    lemma_filter_map_split(a + b, f, a.len() as int);
    assert((a + b).take(a.len() as int) =~= a);
    assert((a + b).skip(a.len() as int) =~= b);
    assert(text_parts(a + b) =~= text_parts(a) + text_parts(b));
}

fn push_texts(content: &Vec<ContentBlock>, parts: &mut Vec<JsonValue>)
    ensures
        json_items(final(parts)@) == json_items(old(parts)@) + text_parts(blocks(content@)),
{
    let ghost all = blocks(content@);
    let ghost start = json_items(parts@);
    let mut i: usize = 0;
    assert(start + text_parts(all.take(0)) =~= start);
    while i < content.len()
        invariant
            i <= content@.len(),
            all == blocks(content@),
            json_items(parts@) == start + text_parts(all.take(i as int)),
        decreases content@.len() - i,
    {
        let piece: Option<&str> = match &content[i] {
            ContentBlock::Text { text } => Some(text.as_str()),
            ContentBlock::Refusal { text } => Some(text.as_str()),
            _ => None,
        };
        proof {
            let f = |x: BlockView| block_text(x);
            all.lemma_filter_map_take_succ(f, i as int);
            assert(all[i as int] == content@[i as int]@);
        }
        match piece {
            Some(t) => {
                let part = json_single("text", json_of_str(t));
                proof {
                    lemma_items_pushed(parts@, part);
                    assert(text_parts(all.take(i + 1)) =~= text_parts(all.take(i as int)).push(
                        part@,
                    ));
                    assert(start + text_parts(all.take(i + 1)) =~= json_items(parts@).push(part@));
                }
                parts.push(part);
            },
            None => {
                assert(text_parts(all.take(i + 1)) =~= text_parts(all.take(i as int)));
            },
        }
        i += 1;
    }
    assert(all.take(i as int) =~= all);
}

fn encode_system(instructions: &Vec<InstructionBlock>) -> (parts: Vec<JsonValue>)
    ensures
        json_items(parts@) == text_parts(all_content(instruction_views(instructions@))),
{
    let ghost all = instruction_views(instructions@);
    let ghost f = |m: MessageView| m.content;
    let mut parts: Vec<JsonValue> = Vec::new();
    let mut i: usize = 0;
    proof {
        assert(all.take(0).map_values(f) =~= Seq::<Seq<BlockView>>::empty());
        assert(json_items(parts@) =~= text_parts(all.take(0).flat_map(f)));
    }
    while i < instructions.len()
        invariant
            i <= instructions@.len(),
            all == instruction_views(instructions@),
            f == (|m: MessageView| m.content),
            json_items(parts@) == text_parts(all.take(i as int).flat_map(f)),
        decreases instructions@.len() - i,
    {
        push_texts(&instructions[i].content, &mut parts);
        proof {
            assert(all[i as int] == instructions@[i as int]@);
            all.lemma_flat_map_take_append(f, i as int);
            lemma_text_parts_append(all.take(i as int).flat_map(f), all[i as int].content);
        }
        i += 1;
    }
    assert(all.take(i as int) =~= all);
    parts
}

/// The names by call id after `content`, where there were `names` before.
pub open spec fn names_after(
    names: Map<Seq<char>, Seq<char>>,
    content: Seq<BlockView>,
) -> Map<Seq<char>, Seq<char>>
    decreases content.len(),
{
    if content.len() == 0 {
        names
    } else {
        let before = names_after(names, content.drop_last());
        match content.last() {
            BlockView::ToolCall { id, name, .. } => before.insert(id, name),
            _ => before,
        }
    }
}

/// Gemini keys function responses by name, so the id of each call is resolved to its name.
/// Where two calls have one id, the last counts.
pub open spec fn call_names(messages: Seq<MessageView>) -> Map<Seq<char>, Seq<char>> {
    names_after(Map::empty(), all_content(messages))
}

proof fn lemma_names_append(
    names: Map<Seq<char>, Seq<char>>,
    a: Seq<BlockView>,
    b: Seq<BlockView>,
)
    ensures
        names_after(names, a + b) == names_after(names_after(names, a), b),
    decreases b.len(),
{
    if b.len() == 0 {
        assert(a + b =~= a);
    } else {
        assert((a + b).drop_last() =~= a + b.drop_last());
        assert((a + b).last() == b.last());
        lemma_names_append(names, a, b.drop_last());
    }
}

fn collect_names(content: &Vec<ContentBlock>, names: &mut CallNames)
    ensures
        final(names)@ == names_after(old(names)@, blocks(content@)),
{
    let ghost all = blocks(content@);
    let mut i: usize = 0;
    while i < content.len()
        invariant
            i <= content@.len(),
            all == blocks(content@),
            names@ == names_after(old(names)@, all.take(i as int)),
        decreases content@.len() - i,
    {
        proof {
            assert(all[i as int] == content@[i as int]@);
            assert(all.take(i + 1).drop_last() =~= all.take(i as int));
            assert(all.take(i + 1).last() == all[i as int]);
        }
        match &content[i] {
            ContentBlock::ToolCall(call) => names.insert(call.id.as_str(), call.name.as_str()),
            _ => {},
        }
        i += 1;
    }
    assert(all.take(i as int) =~= all);
}

fn names_of_calls(messages: &Vec<Message>) -> (names: CallNames)
    ensures
        names@ == call_names(message_views(messages@)),
{
    let ghost all = message_views(messages@);
    let ghost f = |m: MessageView| m.content;
    let mut names = CallNames::new();
    let mut i: usize = 0;
    proof {
        assert(all.take(0).map_values(f) =~= Seq::<Seq<BlockView>>::empty());
        assert(all.take(0).flat_map(f) =~= Seq::<BlockView>::empty());
    }
    while i < messages.len()
        invariant
            i <= messages@.len(),
            all == message_views(messages@),
            f == (|m: MessageView| m.content),
            names@ == names_after(Map::empty(), all.take(i as int).flat_map(f)),
        decreases messages@.len() - i,
    {
        collect_names(&messages[i].content, &mut names);
        proof {
            assert(all[i as int] == messages@[i as int]@);
            all.lemma_flat_map_take_append(f, i as int);
            lemma_names_append(
                Map::empty(),
                all.take(i as int).flat_map(f),
                all[i as int].content,
            );
        }
        i += 1;
    }
    assert(all.take(i as int) =~= all);
    names
}

/// A turn of a conversation on the wire.
pub struct TurnView {
    pub model: bool,
    pub parts: Seq<Json>,
}

/// A turn of a conversation on the wire.
struct Turn {
    model: bool,
    parts: Vec<JsonValue>,
}

/// Adds the parts of a message to the turns. Gemini wants every response to a parallel call
/// turn in one content, and other formats split tool results into one message each, so turns
/// of one role are merged. A message without parts leaves no trace.
pub open spec fn add_turn(turns: Seq<TurnView>, model: bool, parts: Seq<Json>) -> Seq<TurnView> {
    if parts.len() == 0 {
        turns
    } else if turns.len() > 0 && turns.last().model == model {
        turns.drop_last().push(TurnView { model, parts: turns.last().parts + parts })
    } else {
        turns.push(TurnView { model, parts })
    }
}

/// The turns that messages are written as.
pub open spec fn turns_of(
    messages: Seq<MessageView>,
    names: Map<Seq<char>, Seq<char>>,
    policy: TranslationPolicy,
) -> Seq<TurnView>
    decreases messages.len(),
{
    if messages.len() == 0 {
        Seq::empty()
    } else {
        add_turn(
            turns_of(messages.drop_last(), names, policy),
            messages.last().role == Role::Assistant,
            content_parts(messages.last().content, names, policy),
        )
    }
}

/// The `contents` entry of a turn.
pub open spec fn turn_json(turn: TurnView) -> Json {
    let role = if turn.model {
        "model"@
    } else {
        "user"@
    };
    Json::Object(map!["role"@ => Json::String(role), "parts"@ => Json::Array(turn.parts)])
}

/// The `contents` of a request.
pub open spec fn contents_json(turns: Seq<TurnView>) -> Seq<Json> {
    turns.map_values(|t: TurnView| turn_json(t))
}

/// What is dropped of all messages, in order.
pub open spec fn messages_notes(messages: Seq<MessageView>) -> Seq<Seq<char>> {
    messages.flat_map(|m: MessageView| content_notes(m.content))
}

spec fn turn_views(turns: Seq<Turn>) -> Seq<TurnView> {
    turns.map_values(|t: Turn| TurnView { model: t.model, parts: json_items(t.parts@) })
}

fn extend(items: &mut Vec<JsonValue>, more: Vec<JsonValue>)
    ensures
        json_items(final(items)@) == json_items(old(items)@) + json_items(more@),
{
    let mut more = more;
    let ghost a = items@;
    let ghost b = more@;
    items.append(&mut more);
    assert(json_items(a + b) =~= json_items(a) + json_items(b));
}

fn push_turn(turns: &mut Vec<Turn>, model: bool, parts: Vec<JsonValue>)
    ensures
        turn_views(final(turns)@) == add_turn(
            turn_views(old(turns)@),
            model,
            json_items(parts@),
        ),
{
    if parts.len() == 0 {
        return;
    }
    let ghost before = turns@;
    let n: usize = turns.len();
    if n > 0 && turns[n - 1].model == model {
        match turns.pop() {
            Some(last) => {
                let mut merged = last.parts;
                extend(&mut merged, parts);
                turns.push(Turn { model, parts: merged });
                assert(turn_views(turns@) =~= add_turn(
                    turn_views(before),
                    model,
                    json_items(parts@),
                ));
            },
            None => {},
        }
    } else {
        turns.push(Turn { model, parts });
        assert(turn_views(turns@) =~= add_turn(turn_views(before), model, json_items(parts@)));
    }
}

fn encode_turns(turns: Vec<Turn>) -> (contents: Vec<JsonValue>)
    ensures
        json_items(contents@) == contents_json(turn_views(turns@)),
{
    let ghost all = contents_json(turn_views(turns@));
    let mut contents: Vec<JsonValue> = Vec::new();
    assert(json_items(contents@) =~= all.take(0));
    for turn in it: turns
        invariant
            it.seq() == turns@,
            all == contents_json(turn_views(turns@)),
            json_items(contents@) == all.take(it.index() as int),
    {
        let ghost i = it.index() as int;
        let role = if turn.model {
            "model"
        } else {
            "user"
        };
        let content = JsonValue::Object(
            JsonObject::new().with("role", json_of_str(role)).with(
                "parts",
                JsonValue::Array(turn.parts),
            ),
        );
        proof {
            assert(turn_views(turns@)[i] == (TurnView {
                model: turn.model,
                parts: json_items(turn.parts@),
            }));
            assert(all[i] == content@);
            lemma_items_pushed(contents@, content);
            assert(all.take(i + 1) =~= all.take(i).push(all[i]));
        }
        contents.push(content);
    }
    assert(all.take(all.len() as int) =~= all);
    contents
}

/// What is dropped of a list is what is dropped of its front and of the rest.
proof fn lemma_messages_notes_split(messages: Seq<MessageView>, i: int)
    requires
        0 <= i <= messages.len(),
    ensures
        messages_notes(messages) == messages_notes(messages.take(i)) + messages_notes(
            messages.skip(i),
        ),
    decreases messages.len() - i,
{
    let f = |m: MessageView| content_notes(m.content);
    if i == messages.len() {
        assert(messages.take(i) =~= messages);
        assert(messages.skip(i).map_values(f) =~= Seq::<Seq<Seq<char>>>::empty());
        assert(messages_notes(messages.skip(i)) =~= Seq::<Seq<char>>::empty());
        assert(messages_notes(messages) =~= messages_notes(messages.take(i)) + messages_notes(
            messages.skip(i),
        ));
    } else {
        lemma_messages_notes_split(messages, i + 1);
        messages.lemma_flat_map_take_append(f, i);
        let rest = messages.skip(i);
        assert(rest.map_values(f)[0] == f(messages[i]));
        assert(rest.map_values(f).drop_first() =~= messages.skip(i + 1).map_values(f));
        assert(messages_notes(rest) =~= f(messages[i]) + messages_notes(messages.skip(i + 1)));
        assert(messages_notes(messages) =~= messages_notes(messages.take(i)) + messages_notes(
            rest,
        ));
    }
}

fn encode_messages(
    messages: &Vec<Message>,
    names: &CallNames,
    diagnostics: &mut Vec<TranslationDiagnostic>,
    policy: &TranslationPolicy,
) -> (r: Result<Vec<JsonValue>, TranslationError>)
    ensures
        r matches Ok(contents) ==> json_items(contents@) == contents_json(
            turns_of(message_views(messages@), names@, *policy),
        ),
        dropped(
            r,
            old(diagnostics)@,
            final(diagnostics)@,
            *policy,
            messages_notes(message_views(messages@)),
        ),
{
    let ghost all = message_views(messages@);
    let ghost start = messages_of(diagnostics@);
    let mut turns: Vec<Turn> = Vec::new();
    let mut i: usize = 0;
    proof {
        let f = |m: MessageView| content_notes(m.content);
        assert(all.take(0).map_values(f) =~= Seq::<Seq<Seq<char>>>::empty());
        assert(messages_notes(all.take(0)) =~= Seq::<Seq<char>>::empty());
        lemma_reported_nothing(start, *policy, messages_notes(all.take(0)));
        assert(turn_views(turns@) =~= turns_of(all.take(0), names@, *policy));
    }
    while i < messages.len()
        invariant
            i <= messages@.len(),
            all == message_views(messages@),
            start == messages_of(old(diagnostics)@),
            policy.lossy is Reject ==> diagnostics@ == old(diagnostics)@,
            turn_views(turns@) == turns_of(all.take(i as int), names@, *policy),
            reported(start, *policy, messages_notes(all.take(i as int))) == Ok::<
                Seq<Seq<char>>,
                ErrorView,
            >(messages_of(diagnostics@)),
        decreases messages@.len() - i,
    {
        proof {
            let f = |m: MessageView| content_notes(m.content);
            assert(all[i as int] == messages@[i as int]@);
            all.lemma_flat_map_take_append(f, i as int);
            let before = messages_notes(all.take(i as int));
            let now = content_notes(all[i as int].content);
            assert(messages_notes(all.take(i + 1)) == before + now);
            lemma_reported_append(start, *policy, before, now);
            lemma_messages_notes_split(all, i + 1);
            lemma_reported_append(
                start,
                *policy,
                before + now,
                messages_notes(all.skip(i + 1)),
            );
            assert(all.take(i + 1).drop_last() =~= all.take(i as int));
            assert(all.take(i + 1).last() == all[i as int]);
        }
        let model = messages[i].role == Role::Assistant;
        let parts = encode_gemini_parts(&messages[i].content, names, diagnostics, policy)?;
        push_turn(&mut turns, model, parts);
        i += 1;
    }
    assert(all.take(i as int) =~= all);
    Ok(encode_turns(turns))
}

/// What is dropped of the tool choice of a request. Without tools it is not looked at.
pub open spec fn request_choice_notes(request: RequestView) -> Seq<Seq<char>> {
    match request.tool_choice {
        Some(choice) => if request.tools.len() > 0 {
            note_list(choice_note(choice))
        } else {
            seq![]
        },
        None => seq![],
    }
}

/// The tools of a request and the choice among them, in a body.
pub open spec fn with_tools(body: Obj, request: RequestView) -> Obj {
    if request.tools.len() > 0 {
        with_value(
            body.insert("tools"@, tools_json(request.tools)),
            "toolConfig"@,
            match request.tool_choice {
                Some(choice) => choice_config(choice),
                None => None,
            },
        )
    } else {
        body
    }
}

fn insert_value(o: &mut JsonObject, key: &str, value: Option<JsonValue>)
    ensures
        final(o)@ == with_value(old(o)@, key@, opt_value(value)),
{
    match value {
        Some(v) => o.insert(key, v),
        None => {},
    }
}

fn encode_tool_fields(
    request: &LlmRequest,
    body: &mut JsonObject,
    diagnostics: &mut Vec<TranslationDiagnostic>,
    policy: &TranslationPolicy,
) -> (r: Result<(), TranslationError>)
    ensures
        r is Ok ==> final(body)@ == with_tools(old(body)@, request@),
        dropped(
            r,
            old(diagnostics)@,
            final(diagnostics)@,
            *policy,
            request_choice_notes(request@),
        ),
{
    proof {
        lemma_reported_nothing(messages_of(diagnostics@), *policy, Seq::empty());
    }
    if request.tools.len() > 0 {
        body.insert("tools", encode_gemini_tools(&request.tools));
        match &request.tool_choice {
            Some(choice) => {
                let config = encode_gemini_tool_config(choice, diagnostics, policy)?;
                insert_value(body, "toolConfig", config);
            },
            None => {},
        }
    }
    Ok(())
}

/// The `generationConfig` in the extensions of a request; an absent one is empty.
pub open spec fn extended_generation(extensions: Obj) -> Obj {
    match object_in(extensions.get("generationConfig"@)) {
        Some(generation) => generation,
        None => Map::empty(),
    }
}

/// The JSON form of a number that may be absent.
pub open spec fn opt_float_json(x: Option<Option<serde_json::Number>>) -> Option<Json> {
    match x {
        Some(n) => Some(float_json(n)),
        None => None,
    }
}

/// The JSON form of an integer that may be absent.
pub open spec fn opt_i64_json(n: Option<i64>) -> Option<Json> {
    match n {
        Some(k) => Some(int_json(k as int)),
        None => None,
    }
}

/// The JSON form of a count that may be absent.
pub open spec fn opt_u64_json(n: Option<u64>) -> Option<Json> {
    match n {
        Some(k) => Some(int_json(k as int)),
        None => None,
    }
}

/// `generationConfig` with the sampling and the output limit of a request.
pub open spec fn with_parameters(
    generation: Obj,
    sampling: SamplingView,
    output: OutputView,
) -> Obj {
    with_value(
        with_value(
            with_value(
                with_value(generation, "temperature"@, opt_float_json(sampling.temperature)),
                "topP"@,
                opt_float_json(sampling.top_p),
            ),
            "topK"@,
            opt_i64_json(sampling.top_k),
        ),
        "maxOutputTokens"@,
        opt_u64_json(output.max_output_tokens),
    )
}

/// The `generationConfig` of a request.
pub open spec fn request_generation(request: RequestView) -> Obj {
    let generation = with_parameters(
        extended_generation(request.extensions),
        request.sampling,
        request.output,
    );
    match request.output.response_format {
        Some(format) => with_format(format, generation),
        None => generation,
    }
}

/// What is dropped of the response format of a request.
pub open spec fn request_format_notes(request: RequestView) -> Seq<Seq<char>> {
    match request.output.response_format {
        Some(format) => note_list(format_note(format)),
        None => seq![],
    }
}

fn encode_generation(
    request: &LlmRequest,
    diagnostics: &mut Vec<TranslationDiagnostic>,
    policy: &TranslationPolicy,
) -> (r: Result<JsonObject, TranslationError>)
    ensures
        r matches Ok(generation) ==> generation@ == request_generation(request@),
        dropped(
            r,
            old(diagnostics)@,
            final(diagnostics)@,
            *policy,
            request_format_notes(request@),
        ),
{
    proof {
        lemma_reported_nothing(messages_of(diagnostics@), *policy, Seq::empty());
    }
    let mut generation = match json_object(request.extensions.fields.get("generationConfig")) {
        Some(generation) => generation.clone(),
        None => JsonObject::new(),
    };
    match &request.sampling.temperature {
        Some(x) => generation.insert("temperature", json_of_float(x)),
        None => {},
    }
    match &request.sampling.top_p {
        Some(x) => generation.insert("topP", json_of_float(x)),
        None => {},
    }
    match request.sampling.top_k {
        Some(n) => generation.insert("topK", JsonValue::Number(JsonNumber::Signed(n))),
        None => {},
    }
    match request.output.max_output_tokens {
        Some(n) => generation.insert("maxOutputTokens", json_of_u64(n)),
        None => {},
    }
    match &request.output.response_format {
        Some(format) => {
            encode_gemini_response_format(format, &mut generation, diagnostics, policy)?;
        },
        None => {},
    }
    Ok(generation)
}

/// The fields that are sent again from the extensions. Only `store` can come from another
/// provider, which gives it the same meaning.
pub open spec fn with_replayed(body: Obj, extensions: Obj) -> Obj {
    with_value(
        with_value(
            with_value(
                with_value(
                    with_value(body, "cachedContent"@, extensions.get("cachedContent"@)),
                    "labels"@,
                    extensions.get("labels"@),
                ),
                "safetySettings"@,
                extensions.get("safetySettings"@),
            ),
            "serviceTier"@,
            extensions.get("serviceTier"@),
        ),
        "store"@,
        extensions.get("store"@),
    )
}

fn replay_field(body: &mut JsonObject, extensions: &JsonObject, key: &str)
    ensures
        final(body)@ == with_value(old(body)@, key@, extensions@.get(key@)),
{
    match extensions.get(key) {
        Some(value) => body.insert(key, value.clone()),
        None => {},
    }
}

/// The fields of a request in front of its tools.
pub open spec fn request_head(request: RequestView, policy: TranslationPolicy) -> Obj {
    let head = with_text(Map::empty(), "model"@, request.model);
    let system = text_parts(all_content(request.instructions));
    let head = if system.len() > 0 {
        head.insert("systemInstruction"@, single("parts"@, Json::Array(system)))
    } else {
        head
    };
    let turns = turns_of(request.messages, call_names(request.messages), policy);
    head.insert("contents"@, Json::Array(contents_json(turns)))
}

/// The body of a request.
pub open spec fn request_body(request: RequestView, policy: TranslationPolicy) -> Obj {
    let body = with_tools(request_head(request, policy), request);
    let generation = request_generation(request);
    let body = if generation == Map::<Seq<char>, Json>::empty() {
        body
    } else {
        body.insert("generationConfig"@, Json::Object(generation))
    };
    with_replayed(body, request.extensions)
}

/// What is dropped of a request, in order.
pub open spec fn request_notes(request: RequestView, policy: TranslationPolicy) -> Seq<Seq<char>> {
    capability_notes(request, policy) + messages_notes(request.messages) + request_choice_notes(
        request,
    ) + request_format_notes(request)
}

/// The body that a request is written as, and what is reported of it.
pub open spec fn encoded_request(request: RequestView, policy: TranslationPolicy) -> Result<
    (Json, Seq<Seq<char>>),
    ErrorView,
> {
    match replayed(request.preservation, GEMINI_FORMAT@, policy) {
        Some(body) => Ok((body, Seq::empty())),
        None => match reported(Seq::empty(), policy, request_notes(request, policy)) {
            Err(e) => Err(e),
            Ok(diagnostics) => Ok(
                (
                    Json::Object(
                        embedded(request_body(request, policy), request.preservation, policy),
                    ),
                    diagnostics,
                ),
            ),
        },
    }
}

/// An error on the way is the error in the end.
proof fn lemma_request_notes(request: RequestView, policy: TranslationPolicy)
    ensures
        ({
            let a = capability_notes(request, policy);
            let b = messages_notes(request.messages);
            let c = request_choice_notes(request);
            let d = request_format_notes(request);
            let nothing = Seq::<Seq<char>>::empty();
            reported(nothing, policy, request_notes(request, policy)) == match reported(
                nothing,
                policy,
                a,
            ) {
                Err(e) => Err(e),
                Ok(r) => match reported(r, policy, b) {
                    Err(e) => Err(e),
                    Ok(r) => match reported(r, policy, c) {
                        Err(e) => Err(e),
                        Ok(r) => reported(r, policy, d),
                    },
                },
            }
        }),
{
    let a = capability_notes(request, policy);
    let b = messages_notes(request.messages);
    let c = request_choice_notes(request);
    let d = request_format_notes(request);
    let nothing = Seq::<Seq<char>>::empty();
    lemma_reported_append(nothing, policy, a, b);
    lemma_reported_append(nothing, policy, a + b, c);
    lemma_reported_append(nothing, policy, a + b + c, d);
}

/// Writes the body of a request.
pub fn write_request(request: &LlmRequest, policy: &TranslationPolicy) -> (r: Result<
    EncodedRequest,
    TranslationError,
>)
    ensures
        match r {
            Ok(d) => encoded_request(request@, *policy) == Ok::<(Json, Seq<Seq<char>>), ErrorView>(
                (d.body@, messages_of(d.diagnostics@)),
            ),
            Err(e) => encoded_request(request@, *policy) == Err::<
                (Json, Seq<Seq<char>>),
                ErrorView,
            >(e@),
        },
{
    let mut diagnostics: Vec<TranslationDiagnostic> = Vec::new();
    assert(messages_of(diagnostics@) =~= Seq::<Seq<char>>::empty());
    match exact_preserved_request(&request.preservation, GEMINI_FORMAT, policy) {
        Some(body) => return Ok(EncodedRequest { body, diagnostics }),
        None => {},
    }
    proof {
        lemma_request_notes(request@, *policy);
    }
    validate_request_capabilities(request, &mut diagnostics, policy)?;
    let mut body = JsonObject::new();
    insert_text(&mut body, "model", opt_borrow(&request.model));
    let system = encode_system(&request.instructions);
    if system.len() > 0 {
        body.insert("systemInstruction", json_single("parts", JsonValue::Array(system)));
    }
    let names = names_of_calls(&request.messages);
    let contents = encode_messages(&request.messages, &names, &mut diagnostics, policy)?;
    body.insert("contents", JsonValue::Array(contents));
    encode_tool_fields(request, &mut body, &mut diagnostics, policy)?;
    let generation = encode_generation(request, &mut diagnostics, policy)?;
    if !generation.is_empty() {
        body.insert("generationConfig", JsonValue::Object(generation));
    }
    replay_field(&mut body, &request.extensions.fields, "cachedContent");
    replay_field(&mut body, &request.extensions.fields, "labels");
    replay_field(&mut body, &request.extensions.fields, "safetySettings");
    replay_field(&mut body, &request.extensions.fields, "serviceTier");
    replay_field(&mut body, &request.extensions.fields, "store");
    let body = embed_preservation(body, &request.preservation, policy);
    Ok(EncodedRequest { body, diagnostics })
}

} // verus!
