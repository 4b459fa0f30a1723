//! Laws on requests.
use vstd::prelude::*;
use vstd::seq_lib::*;

use crate::common::{block_text, block_texts, without};
use crate::error::ErrorView;
use crate::gemini::decode::{ids_after, items_blocks};
use crate::gemini::decode_request::{
    choice_in, contents_messages, decoded_request, extensions_of, generation_of, generation_rest,
    ids_before, instructions_of, mapped_generation_config, mapped_request, messages_in, model_of,
    output_of, request_view, sampling_of, system_content, system_parts_of, system_text,
};
use crate::gemini::encode::{block_part, content_parts, lemma_filter_map_split, name_or_id};
use crate::gemini::encode_request::{
    add_turn, all_content, call_names, contents_json, encoded_request, extended_generation,
    names_after, request_body, request_generation, request_notes, text_parts, turn_json, turns_of,
    TurnView,
};
use crate::gemini::ids::{no_calls, IdsView};
use crate::gemini::media::single;
use crate::gemini::schema::{format_schema, format_type, response_format_of, response_schema};
use crate::gemini::tools::{declared_tools, tool_entries, tools_of};
use crate::gemini::GEMINI_FORMAT;
use crate::json::{array_in, field, Json, Obj};
use crate::laws::keys::{lemma_candidate_keys, lemma_generation_keys, lemma_request_keys};
use crate::laws::parts::{all_readable, lemma_parts_read_back};
use crate::laws::tools::{
    law_choice_survives, law_tools_read_back, lemma_tools_not_strict, read_tool, read_tools,
};
use crate::llm::{BlockView, MessageView, RequestView, Role, ToolView};
use crate::policy::TranslationPolicy;
use crate::util::{object_or_error, replayed};

verus! {

/// The items of a `parts` array; none where there is no array.
pub open spec fn items_of(parts: Option<Json>) -> Seq<Json> {
    match array_in(parts) {
        Some(items) => items,
        None => Seq::empty(),
    }
}

/// The parts of all contents, one after the other.
pub open spec fn all_items(contents: Seq<Json>) -> Seq<Json> {
    contents.flat_map(|c: Json| items_of(field(c, "parts"@)))
}

proof fn lemma_ids_append(
    a: Seq<Json>,
    b: Seq<Json>,
    k: int,
    ids: IdsView,
    policy: TranslationPolicy,
)
    requires
        0 <= k <= b.len(),
    ensures
        ids_after(a + b, a.len() + k, ids, policy) == ids_after(
            b,
            k,
            ids_after(a, a.len() as int, ids, policy),
            policy,
        ),
    decreases k,
{
    if k == 0 {
        lemma_ids_prefix(a, b, a.len() as int, ids, policy);
    } else {
        lemma_ids_append(a, b, k - 1, ids, policy);
        assert((a + b)[a.len() + k - 1] == b[k - 1]);
    }
}

proof fn lemma_ids_prefix(
    a: Seq<Json>,
    b: Seq<Json>,
    k: int,
    ids: IdsView,
    policy: TranslationPolicy,
)
    requires
        0 <= k <= a.len(),
    ensures
        ids_after(a + b, k, ids, policy) == ids_after(a, k, ids, policy),
    decreases k,
{
    if k > 0 {
        lemma_ids_prefix(a, b, k - 1, ids, policy);
        assert((a + b)[k - 1] == a[k - 1]);
    }
}

proof fn lemma_blocks_append(a: Seq<Json>, b: Seq<Json>, ids: IdsView, policy: TranslationPolicy)
    ensures
        items_blocks(a + b, ids, policy) == items_blocks(a, ids, policy) + items_blocks(
            b,
            ids_after(a, a.len() as int, ids, policy),
            policy,
        ),
{
    let whole = items_blocks(a + b, ids, policy);
    let parts = items_blocks(a, ids, policy) + items_blocks(
        b,
        ids_after(a, a.len() as int, ids, policy),
        policy,
    );
    assert forall|i: int| 0 <= i < whole.len() implies whole[i] == parts[i] by {
        if i < a.len() {
            lemma_ids_prefix(a, b, i, ids, policy);
        } else {
            lemma_ids_append(a, b, i - a.len(), ids, policy);
        }
    }
    assert(whole =~= parts);
}

pub proof fn lemma_all_content_pushed(messages: Seq<MessageView>, message: MessageView)
    ensures
        all_content(messages.push(message)) == all_content(messages) + message.content,
{
    let f = |m: MessageView| m.content;
    let n = messages.len() as int;
    messages.push(message).lemma_flat_map_take_append(f, n);
    assert(messages.push(message).take(n) =~= messages);
    assert(messages.push(message).take(n + 1) =~= messages.push(message));
}

proof fn lemma_conversation(
    contents: Seq<Json>,
    n: int,
    messages: Seq<MessageView>,
    policy: TranslationPolicy,
)
    requires
        0 <= n <= contents.len(),
        contents_messages(contents, n, policy) == Ok::<Seq<MessageView>, ErrorView>(messages),
    ensures
        messages.len() == n,
        all_content(messages) == items_blocks(all_items(contents.take(n)), no_calls(), policy),
        ids_before(contents, n, policy) == ids_after(
            all_items(contents.take(n)),
            all_items(contents.take(n)).len() as int,
            no_calls(),
            policy,
        ),
    decreases n,
{
    let f = |c: Json| items_of(field(c, "parts"@));
    if n == 0 {
        assert(contents.take(0).map_values(f) =~= Seq::<Seq<Json>>::empty());
        assert(all_items(contents.take(0)) =~= Seq::<Json>::empty());
        let g = |m: MessageView| m.content;
        assert(messages.map_values(g) =~= Seq::<Seq<BlockView>>::empty());
        assert(all_content(messages) =~= Seq::<BlockView>::empty());
        assert(items_blocks(all_items(contents.take(0)), no_calls(), policy) =~= Seq::<
            BlockView,
        >::empty());
    } else {
        let front = contents_messages(contents, n - 1, policy)->Ok_0;
        lemma_conversation(contents, n - 1, front, policy);
        contents.lemma_flat_map_take_append(f, n - 1);
        let ids = ids_before(contents, n - 1, policy);
        let before = all_items(contents.take(n - 1));
        let now = items_of(field(contents[n - 1], "parts"@));
        let message = messages.last();
        assert(messages == front.push(message));
        lemma_all_content_pushed(front, message);
        lemma_blocks_append(before, now, no_calls(), policy);
        lemma_ids_append(before, now, now.len() as int, no_calls(), policy);
        assert(message.content =~= items_blocks(now, ids, policy));
    }
}

/// A conversation spans its contents: the blocks of all messages are what the parts of all
/// contents, taken as one list, say. So a response in one content answers a call in another.
pub proof fn law_conversation_spans_contents(
    contents: Seq<Json>,
    messages: Seq<MessageView>,
    policy: TranslationPolicy,
)
    requires
        contents_messages(contents, contents.len() as int, policy) == Ok::<
            Seq<MessageView>,
            ErrorView,
        >(messages),
    ensures
        messages.len() == contents.len(),
        all_content(messages) == items_blocks(all_items(contents), no_calls(), policy),
{
    lemma_conversation(contents, contents.len() as int, messages, policy);
    assert(contents.take(contents.len() as int) =~= contents);
}

/// A result is written under the name of the call that it answers: the last call of the
/// conversation that has its id.
pub proof fn law_result_names_its_call(
    messages: Seq<MessageView>,
    i: int,
    id: Seq<char>,
    name: Seq<char>,
)
    requires
        0 <= i < all_content(messages).len(),
        all_content(messages)[i] matches BlockView::ToolCall { id: call_id, name: call_name, .. }
            && call_id == id && call_name == name,
        forall|j: int|
            i < j < all_content(messages).len() ==> !((
            #[trigger] all_content(messages)[j]) matches BlockView::ToolCall { id: later, .. }
                && later == id),
    ensures
        name_or_id(call_names(messages), id) == name,
{
    lemma_names_last(Map::empty(), all_content(messages), i, id, name);
}

pub proof fn lemma_names_last(
    names: Map<Seq<char>, Seq<char>>,
    content: Seq<BlockView>,
    i: int,
    id: Seq<char>,
    name: Seq<char>,
)
    requires
        0 <= i < content.len(),
        content[i] matches BlockView::ToolCall { id: call_id, name: call_name, .. } && call_id
            == id && call_name == name,
        forall|j: int|
            i < j < content.len() ==> !((#[trigger] content[j]) matches BlockView::ToolCall {
                id: later,
                ..
            } && later == id),
    ensures
        names_after(names, content).get(id) == Some(name),
    decreases content.len(),
{
    let n = content.len() - 1;
    if i < n {
        assert(!(content[n] matches BlockView::ToolCall { id: later, .. } && later == id));
        let front = content.drop_last();
        assert forall|j: int| i < j < front.len() implies !((
        #[trigger] front[j]) matches BlockView::ToolCall { id: later, .. } && later == id) by {
            assert(front[j] == content[j]);
        }
        assert(front[i] == content[i]);
        lemma_names_last(names, front, i, id, name);
    }
}

/// The parts of all turns, one after the other.
pub open spec fn all_parts(turns: Seq<TurnView>) -> Seq<Json> {
    turns.flat_map(|t: TurnView| t.parts)
}

proof fn lemma_all_parts_pushed(turns: Seq<TurnView>, turn: TurnView)
    ensures
        all_parts(turns.push(turn)) == all_parts(turns) + turn.parts,
{
    let f = |t: TurnView| t.parts;
    let n = turns.len() as int;
    turns.push(turn).lemma_flat_map_take_append(f, n);
    assert(turns.push(turn).take(n) =~= turns);
    assert(turns.push(turn).take(n + 1) =~= turns.push(turn));
}

proof fn lemma_add_turn(turns: Seq<TurnView>, model: bool, parts: Seq<Json>)
    ensures
        all_parts(add_turn(turns, model, parts)) == all_parts(turns) + parts,
{
    if parts.len() == 0 {
        assert(all_parts(turns) + parts =~= all_parts(turns));
    } else if turns.len() > 0 && turns.last().model == model {
        let front = turns.drop_last();
        assert(front.push(turns.last()) =~= turns);
        lemma_all_parts_pushed(front, turns.last());
        lemma_all_parts_pushed(front, TurnView { model, parts: turns.last().parts + parts });
        assert(all_parts(add_turn(turns, model, parts)) =~= all_parts(turns) + parts);
    } else {
        lemma_all_parts_pushed(turns, TurnView { model, parts });
    }
}

/// Merging turns loses no part and keeps their order: the parts of all turns are those that
/// the content of all messages is written as.
pub proof fn law_turns_keep_all_parts(
    messages: Seq<MessageView>,
    names: Map<Seq<char>, Seq<char>>,
    policy: TranslationPolicy,
)
    ensures
        all_parts(turns_of(messages, names, policy)) == content_parts(
            all_content(messages),
            names,
            policy,
        ),
    decreases messages.len(),
{
    let f = |b: BlockView| block_part(b, names, policy);
    if messages.len() == 0 {
        let g = |t: TurnView| t.parts;
        let h = |m: MessageView| m.content;
        assert(turns_of(messages, names, policy).map_values(g) =~= Seq::<Seq<Json>>::empty());
        assert(messages.map_values(h) =~= Seq::<Seq<BlockView>>::empty());
        assert(all_content(messages) =~= Seq::<BlockView>::empty());
        assert(all_parts(turns_of(messages, names, policy)) =~= content_parts(
            all_content(messages),
            names,
            policy,
        ));
    } else {
        let front = messages.drop_last();
        let last = messages.last();
        law_turns_keep_all_parts(front, names, policy);
        lemma_add_turn(
            turns_of(front, names, policy),
            last.role == Role::Assistant,
            content_parts(last.content, names, policy),
        );
        assert(front.push(last) =~= messages);
        lemma_all_content_pushed(front, last);
        let before = all_content(front);
        lemma_filter_map_split(before + last.content, f, before.len() as int);
        assert((before + last.content).take(before.len() as int) =~= before);
        assert((before + last.content).skip(before.len() as int) =~= last.content);
    }
}

/// Turns alternate between user and model, and none is empty.
pub proof fn law_turns_alternate(
    messages: Seq<MessageView>,
    names: Map<Seq<char>, Seq<char>>,
    policy: TranslationPolicy,
)
    ensures
        ({
            let turns = turns_of(messages, names, policy);
            &&& forall|i: int| 0 <= i < turns.len() ==> (#[trigger] turns[i]).parts.len() > 0
            &&& forall|i: int, j: int|
                0 <= i < turns.len() && j == i + 1 && j < turns.len() ==> (
                #[trigger] turns[i]).model != (#[trigger] turns[j]).model
        }),
    decreases messages.len(),
{
    if messages.len() > 0 {
        let front = messages.drop_last();
        law_turns_alternate(front, names, policy);
        let before = turns_of(front, names, policy);
        let turns = turns_of(messages, names, policy);
        assert forall|i: int| 0 <= i < turns.len() implies (#[trigger] turns[i]).parts.len()
            > 0 by {
            if i < before.len() {
                assert(before[i].parts.len() > 0);
            }
        }
        assert forall|i: int, j: int|
            0 <= i < turns.len() && j == i + 1 && j < turns.len() implies (
        #[trigger] turns[i]).model != (#[trigger] turns[j]).model by {
            if j < before.len() {
                assert(before[i].model != before[j].model);
            }
        }
    }
}

pub proof fn lemma_without(o: Obj, keys: Seq<Seq<char>>, key: Seq<char>)
    ensures
        without(o, keys).get(key) == (if keys.contains(key) {
            None
        } else {
            o.get(key)
        }),
{
    assert(keys.to_set().contains(key) == keys.contains(key));
}

/// What the extensions of a request hold of `generationConfig`.
pub proof fn lemma_extended_generation(body: Obj, generation: Obj)
    ensures
        extended_generation(extensions_of(body, generation)) == generation_rest(generation),
{
    assert(mapped_request()[5] == "generationConfig"@);
    lemma_without(body, mapped_request(), "generationConfig"@);
}

/// What a request that was read from `body` is made of.
pub proof fn lemma_decoded(
    body: Obj,
    request: RequestView,
    notes: Seq<Seq<char>>,
    policy: TranslationPolicy,
)
    requires
        decoded_request(Json::Object(body), policy) == Ok::<
            (RequestView, Seq<Seq<char>>),
            ErrorView,
        >((request, notes)),
    ensures
        generation_of(body) is Ok,
        instructions_of(body) is Ok,
        messages_in(body, policy) is Ok,
        request == request_view(
            body,
            generation_of(body)->Ok_0,
            instructions_of(body)->Ok_0,
            messages_in(body, policy)->Ok_0,
            policy,
        ),
{
}

proof fn lemma_rest(generation: Obj, key: Seq<char>)
    ensures
        mapped_generation_config().contains(key) ==> generation_rest(generation).get(key) is None,
        !mapped_generation_config().contains(key) && key != "responseMimeType"@ ==> generation_rest(
            generation,
        ).get(key) == generation.get(key),
        response_format_of(generation) is None ==> generation_rest(generation).get(
            "responseMimeType"@,
        ) == generation.get("responseMimeType"@),
{
    lemma_generation_keys();
    lemma_without(generation, mapped_generation_config(), key);
    lemma_without(generation, mapped_generation_config(), "responseMimeType"@);
    assert(!mapped_generation_config().contains("responseMimeType"@));
}

/// The configuration of a request is read back from the body that the request is written as.
pub proof fn law_generation_is_written(request: RequestView, policy: TranslationPolicy)
    ensures
        generation_of(request_body(request, policy)) == Ok::<Obj, ErrorView>(
            request_generation(request),
        ),
{
    lemma_request_keys();
}

/// What the model has no place for in `generationConfig` comes out of a hop as it went in.
pub proof fn law_generation_rest_survives(
    body: Obj,
    generation: Obj,
    request: RequestView,
    notes: Seq<Seq<char>>,
    reading: TranslationPolicy,
    writing: TranslationPolicy,
    key: Seq<char>,
)
    requires
        decoded_request(Json::Object(body), reading) == Ok::<
            (RequestView, Seq<Seq<char>>),
            ErrorView,
        >((request, notes)),
        generation_of(body) == Ok::<Obj, ErrorView>(generation),
        !mapped_generation_config().contains(key),
        key == "responseMimeType"@ ==> response_format_of(generation) is None,
    ensures
        generation_of(request_body(request, writing)) matches Ok(written) && written.get(key)
            == generation.get(key),
{
    law_generation_is_written(request, writing);
    lemma_decoded(body, request, notes, reading);
    lemma_extended_generation(body, generation);
    lemma_rest(generation, key);
    let mapped = mapped_generation_config();
    assert(mapped[0] == "temperature"@);
    assert(mapped[1] == "topP"@);
    assert(mapped[2] == "topK"@);
    assert(mapped[3] == "maxOutputTokens"@);
    assert(mapped[5] == "responseJsonSchema"@);
}

/// Sampling and output parameters come out of a hop with the meaning that they had: reading
/// the `generationConfig` that is written gives the same parameters and response format.
pub proof fn law_generation_parameters_survive(
    body: Obj,
    generation: Obj,
    request: RequestView,
    notes: Seq<Seq<char>>,
    reading: TranslationPolicy,
    writing: TranslationPolicy,
)
    requires
        decoded_request(Json::Object(body), reading) == Ok::<
            (RequestView, Seq<Seq<char>>),
            ErrorView,
        >((request, notes)),
        generation_of(body) == Ok::<Obj, ErrorView>(generation),
    ensures
        generation_of(request_body(request, writing)) matches Ok(written) && sampling_of(written)
            == sampling_of(generation) && output_of(written) == output_of(generation),
{
    law_generation_is_written(request, writing);
    lemma_decoded(body, request, notes, reading);
    lemma_extended_generation(body, generation);
    lemma_generation_keys();
    let mapped = mapped_generation_config();
    assert(mapped[0] == "temperature"@);
    assert(mapped[1] == "topP"@);
    assert(mapped[2] == "topK"@);
    assert(mapped[3] == "maxOutputTokens"@);
    assert(mapped[4] == "responseSchema"@);
    assert(mapped[5] == "responseJsonSchema"@);
    lemma_rest(generation, "temperature"@);
    lemma_rest(generation, "topP"@);
    lemma_rest(generation, "topK"@);
    lemma_rest(generation, "maxOutputTokens"@);
    lemma_rest(generation, "responseSchema"@);
    lemma_rest(generation, "responseJsonSchema"@);
    lemma_rest(generation, "responseMimeType"@);
    lemma_formats(generation);
}

/// What is written for a response format that was read.
proof fn lemma_formats(generation: Obj)
    ensures
        response_format_of(generation) matches Some(format) ==> match response_schema(generation) {
            Some(schema) => {
                &&& format_type(format) == Some("json_schema"@)
                &&& format_schema(format) == Some(schema)
            },
            None => {
                &&& format_type(format) == Some("json_object"@)
                &&& "json_object"@ != "json_schema"@
            },
        },
{
    reveal_strlit("type");
    reveal_strlit("json_schema");
    reveal_strlit("json_object");
    reveal_strlit("name");
    reveal_strlit("schema");
    assert("type"@.len() == 4);
    assert("json_schema"@.len() == 11);
    assert("name"@.len() == 4);
    assert("schema"@.len() == 6);
    assert("json_schema"@[5] != "json_object"@[5]);
}

/// Whether a field is sent again from the extensions of a request.
pub open spec fn is_replayed(key: Seq<char>) -> bool {
    ||| key == "cachedContent"@
    ||| key == "labels"@
    ||| key == "safetySettings"@
    ||| key == "serviceTier"@
    ||| key == "store"@
}

/// The fields that are sent again from the extensions come out of a hop as they went in.
pub proof fn law_replayed_fields_survive(
    body: Obj,
    request: RequestView,
    notes: Seq<Seq<char>>,
    reading: TranslationPolicy,
    writing: TranslationPolicy,
    key: Seq<char>,
)
    requires
        decoded_request(Json::Object(body), reading) == Ok::<
            (RequestView, Seq<Seq<char>>),
            ErrorView,
        >((request, notes)),
        is_replayed(key),
    ensures
        request_body(request, writing).get(key) == body.get(key),
{
    lemma_decoded(body, request, notes, reading);
    lemma_request_keys();
    lemma_without(body, mapped_request(), key);
    assert(!mapped_request().contains(key));
}

/// The model that a request names comes out of a hop as it went in.
pub proof fn law_model_survives(
    body: Obj,
    request: RequestView,
    notes: Seq<Seq<char>>,
    reading: TranslationPolicy,
    writing: TranslationPolicy,
)
    requires
        decoded_request(Json::Object(body), reading) == Ok::<
            (RequestView, Seq<Seq<char>>),
            ErrorView,
        >((request, notes)),
    ensures
        model_of(request_body(request, writing)) == model_of(body),
{
    lemma_decoded(body, request, notes, reading);
    lemma_request_keys();
}

/// Texts of an instruction are read back as they were written.
proof fn lemma_texts_read_back(content: Seq<BlockView>)
    requires
        forall|i: int| 0 <= i < content.len() ==> (#[trigger] content[i]) is Text,
    ensures
        text_parts(content).filter_map(|part: Json| system_text(part)) == content,
    decreases content.len(),
{
    let f = |part: Json| system_text(part);
    let g = |b: BlockView| block_text(b);
    if content.len() == 0 {
        assert(block_texts(content) =~= Seq::<Seq<char>>::empty());
        assert(text_parts(content).filter_map(f) =~= content);
    } else {
        let front = content.drop_last();
        let n = front.len() as int;
        assert(content[n] is Text);
        assert forall|i: int| 0 <= i < front.len() implies (#[trigger] front[i]) is Text by {
            assert(front[i] == content[i]);
        }
        lemma_texts_read_back(front);
        content.lemma_filter_map_take_succ(g, n);
        assert(content.take(n) =~= front);
        assert(content.take(n + 1) =~= content);
        let last = single("text"@, Json::String(content[n]->Text_text));
        assert(text_parts(content) =~= text_parts(front).push(last));
        let parts = text_parts(content);
        let m = text_parts(front).len() as int;
        parts.lemma_filter_map_take_succ(f, m);
        assert(parts.take(m) =~= text_parts(front));
        assert(parts.take(m + 1) =~= parts);
        assert(f(last) == Some(content[n]));
        assert(parts.filter_map(f) =~= content);
    }
}

proof fn lemma_system_content_is_text(parts: Seq<Json>)
    ensures
        ({
            let content = parts.filter_map(|part: Json| system_text(part));
            forall|i: int| 0 <= i < content.len() ==> (#[trigger] content[i]) is Text
        }),
    decreases parts.len(),
{
    let f = |part: Json| system_text(part);
    if parts.len() > 0 {
        lemma_system_content_is_text(parts.drop_last());
        let n = parts.len() - 1;
        parts.lemma_filter_map_take_succ(f, n);
        assert(parts.take(n) =~= parts.drop_last());
        assert(parts.take(n + 1) =~= parts);
        let front = parts.drop_last().filter_map(f);
        let content = parts.filter_map(f);
        assert forall|i: int| 0 <= i < content.len() implies (#[trigger] content[i]) is Text by {
            if i < front.len() {
                assert(content[i] == front[i]);
            }
        }
    }
}

/// The system instruction of a request comes out of a hop with the texts that it had.
pub proof fn law_instructions_survive(
    body: Obj,
    request: RequestView,
    notes: Seq<Seq<char>>,
    reading: TranslationPolicy,
    writing: TranslationPolicy,
)
    requires
        decoded_request(Json::Object(body), reading) == Ok::<
            (RequestView, Seq<Seq<char>>),
            ErrorView,
        >((request, notes)),
    ensures
        instructions_of(request_body(request, writing)) == instructions_of(body),
{
    lemma_decoded(body, request, notes, reading);
    lemma_request_keys();
    let f = |m: MessageView| m.content;
    if request.instructions.len() > 0 {
        let content = request.instructions[0].content;
        assert(request.instructions =~= Seq::<MessageView>::empty().push(request.instructions[0]));
        lemma_all_content_pushed(Seq::empty(), request.instructions[0]);
        assert(Seq::<MessageView>::empty().map_values(f) =~= Seq::<Seq<BlockView>>::empty());
        assert(all_content(Seq::empty()) =~= Seq::<BlockView>::empty());
        assert(all_content(request.instructions) =~= content);
        let system = object_or_error(
            body["systemInstruction"@],
            "$.systemInstruction"@,
        )->Ok_0;
        lemma_system_content_is_text(system_parts_of(system));
        lemma_texts_read_back(content);
        lemma_text_parts_len(content);
        let written = map!["parts"@ => Json::Array(text_parts(content))];
        assert(system_content(written) == content);
    } else {
        assert(request.instructions.map_values(f) =~= Seq::<Seq<BlockView>>::empty());
        assert(all_content(request.instructions) =~= Seq::<BlockView>::empty());
        assert(text_parts(Seq::empty()) =~= Seq::<Json>::empty());
    }
}

proof fn lemma_text_parts_len(content: Seq<BlockView>)
    requires
        forall|i: int| 0 <= i < content.len() ==> (#[trigger] content[i]) is Text,
    ensures
        text_parts(content).len() == content.len(),
    decreases content.len(),
{
    let g = |b: BlockView| block_text(b);
    if content.len() == 0 {
        assert(block_texts(content) =~= Seq::<Seq<char>>::empty());
    } else {
        let front = content.drop_last();
        let n = front.len() as int;
        assert(content[n] is Text);
        assert forall|i: int| 0 <= i < front.len() implies (#[trigger] front[i]) is Text by {
            assert(front[i] == content[i]);
        }
        lemma_text_parts_len(front);
        content.lemma_filter_map_take_succ(g, n);
        assert(content.take(n) =~= front);
        assert(content.take(n + 1) =~= content);
    }
}

/// The tools of a request come out of a hop as they were read, where none has the parameters
/// `null`, and so does the choice among them.
pub proof fn law_tools_survive(
    body: Obj,
    request: RequestView,
    notes: Seq<Seq<char>>,
    reading: TranslationPolicy,
    writing: TranslationPolicy,
)
    requires
        decoded_request(Json::Object(body), reading) == Ok::<
            (RequestView, Seq<Seq<char>>),
            ErrorView,
        >((request, notes)),
        forall|i: int|
            0 <= i < request.tools.len() ==> !((#[trigger] request.tools[i]).parameters is Null),
    ensures
        tools_of(tool_entries(request_body(request, writing).get("tools"@))) == request.tools,
        request.tools.len() > 0 ==> choice_in(request_body(request, writing)) == choice_in(body),
{
    lemma_decoded(body, request, notes, reading);
    lemma_request_keys();
    let entries = tool_entries(body.get("tools"@));
    if request.tools.len() > 0 {
        law_tools_read_back(request.tools);
        lemma_tools_not_strict(entries);
        assert(read_tools(request.tools) =~= request.tools) by {
            assert forall|i: int| 0 <= i < request.tools.len() implies read_tool(
                request.tools[i],
            ) == #[trigger] request.tools[i] by {}
        }
        if let Some(config) = body.get("toolConfig"@) {
            law_choice_survives(config);
        }
    } else {
        let f = |t: Json| declared_tools(t);
        assert(Seq::<Json>::empty().map_values(f) =~= Seq::<Seq<ToolView>>::empty());
        assert(tools_of(Seq::empty()) =~= request.tools);
    }
}

/// Whether message number `i` is written as a turn of its own that says all of it.
pub open spec fn own_turn(messages: Seq<MessageView>, i: int, policy: TranslationPolicy) -> bool {
    &&& messages[i].role == Role::User || messages[i].role == Role::Assistant
    &&& i > 0 ==> messages[i].role != messages[i - 1].role
    &&& messages[i].content.len() > 0
    &&& all_readable(messages[i].content, policy)
}

/// Whether every message is written as a turn of its own that says all of it.
pub open spec fn own_turns(messages: Seq<MessageView>, policy: TranslationPolicy) -> bool {
    forall|i: int| 0 <= i < messages.len() ==> #[trigger] own_turn(messages, i, policy)
}

proof fn lemma_turns_read_back(
    messages: Seq<MessageView>,
    names: Map<Seq<char>, Seq<char>>,
    policy: TranslationPolicy,
)
    requires
        own_turns(messages, policy),
    ensures
        ({
            let turns = turns_of(messages, names, policy);
            &&& turns.len() == messages.len()
            &&& forall|i: int|
                0 <= i < messages.len() ==> (#[trigger] turns[i]) == (TurnView {
                    model: messages[i].role == Role::Assistant,
                    parts: content_parts(messages[i].content, names, policy),
                })
        }),
    decreases messages.len(),
{
    if messages.len() > 0 {
        let front = messages.drop_last();
        let n = front.len() as int;
        assert forall|i: int| 0 <= i < front.len() implies #[trigger] own_turn(
            front,
            i,
            policy,
        ) by {
            assert(own_turn(messages, i, policy));
            assert(front[i] == messages[i]);
            if i > 0 {
                assert(front[i - 1] == messages[i - 1]);
            }
        }
        lemma_turns_read_back(front, names, policy);
        let before = turns_of(front, names, policy);
        assert(own_turn(messages, n, policy));
        lemma_parts_read_back(messages[n].content, names, no_calls(), policy);
        if n > 0 {
            assert(own_turn(messages, n - 1, policy));
            assert(messages[n - 1] == front[n - 1]);
            assert(before.last() == before[n - 1]);
        }
    }
}

proof fn lemma_contents_read_back(
    messages: Seq<MessageView>,
    n: int,
    names: Map<Seq<char>, Seq<char>>,
    policy: TranslationPolicy,
)
    requires
        0 <= n <= messages.len(),
        own_turns(messages, policy),
    ensures
        contents_messages(contents_json(turns_of(messages, names, policy)), n, policy) == Ok::<
            Seq<MessageView>,
            ErrorView,
        >(messages.take(n)),
    decreases n,
{
    let contents = contents_json(turns_of(messages, names, policy));
    if n == 0 {
        assert(messages.take(0) =~= Seq::<MessageView>::empty());
    } else {
        lemma_contents_read_back(messages, n - 1, names, policy);
        lemma_turns_read_back(messages, names, policy);
        lemma_candidate_keys();
        let message = messages[n - 1];
        let turn = turns_of(messages, names, policy)[n - 1];
        assert(own_turn(messages, n - 1, policy));
        assert(contents[n - 1] == turn_json(turn));
        let ids = ids_before(contents, n - 1, policy);
        lemma_parts_read_back(message.content, names, ids, policy);
        assert(field(contents[n - 1], "parts"@) == Some(Json::Array(turn.parts)));
        assert(messages.take(n) =~= messages.take(n - 1).push(message));
    }
}

/// Messages are read back as they were written, where parts can say all of their content and
/// user and model take turns.
pub proof fn law_messages_read_back(request: RequestView, policy: TranslationPolicy)
    requires
        own_turns(request.messages, policy),
    ensures
        messages_in(request_body(request, policy), policy) == Ok::<Seq<MessageView>, ErrorView>(
            request.messages,
        ),
{
    lemma_request_keys();
    let names = call_names(request.messages);
    let turns = turns_of(request.messages, names, policy);
    lemma_turns_read_back(request.messages, names, policy);
    lemma_contents_read_back(request.messages, request.messages.len() as int, names, policy);
    assert(request.messages.take(request.messages.len() as int) =~= request.messages);
    assert(request_body(request, policy).get("contents"@) == Some(
        Json::Array(contents_json(turns)),
    ));
}

/// A request that was kept is sent again as it was received, and nothing is reported.
pub proof fn law_kept_request_is_sent_again(
    body: Json,
    request: RequestView,
    notes: Seq<Seq<char>>,
    reading: TranslationPolicy,
    writing: TranslationPolicy,
)
    requires
        decoded_request(body, reading) == Ok::<(RequestView, Seq<Seq<char>>), ErrorView>(
            (request, notes),
        ),
        !(reading.preservation is Discard),
        !(writing.preservation is Discard),
    ensures
        encoded_request(request, writing) == Ok::<(Json, Seq<Seq<char>>), ErrorView>(
            (body, Seq::empty()),
        ),
{
    lemma_decoded(body->Object_0, request, notes, reading);
}

/// Writing a request fails only where the policy rejects loss and something would be lost;
/// the error then says what. Where the policy reports loss, all of it is reported.
pub proof fn law_only_loss_fails_a_request(request: RequestView, policy: TranslationPolicy)
    ensures
        encoded_request(request, policy) is Err <==> {
            &&& policy.lossy is Reject
            &&& replayed(request.preservation, GEMINI_FORMAT@, policy) is None
            &&& request_notes(request, policy).len() > 0
        },
        encoded_request(request, policy) matches Err(e) ==> e == (ErrorView::Lossy {
            message: request_notes(request, policy)[0],
        }),
        encoded_request(request, policy) matches Ok((_, diagnostics)) ==> replayed(
            request.preservation,
            GEMINI_FORMAT@,
            policy,
        ) is None ==> diagnostics == request_notes(request, policy),
{
    let notes = request_notes(request, policy);
    assert(Seq::<Seq<char>>::empty() + notes =~= notes);
    if notes.len() == 0 {
        assert(notes =~= Seq::<Seq<char>>::empty());
    }
}

} // verus!
