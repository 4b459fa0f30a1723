//! Laws on the bodies of requests, for all bodies and requests.
use vstd::prelude::*;
use vstd::seq_lib::*;

use crate::common::block_texts;
use crate::error::ErrorView;
use crate::gemini::decode::{ids_after, items_blocks};
use crate::gemini::decode_request::{
    content_message, contents_messages, decoded_request, ids_before, lemma_contents_error,
    mapped_generation_config, mapped_request, system_parts_of, system_text,
};
use crate::gemini::encode::{content_notes, content_parts, name_or_id};
use crate::gemini::encode_request::{
    all_content, call_names, contents_json, encoded_request, extended_generation, messages_notes,
    names_after, request_body, request_generation, request_notes, text_parts, turns_of, TurnView,
};
use crate::gemini::ids::no_calls;
use crate::gemini::schema::{format_note, response_format_of, with_format};
use crate::gemini::tools::{
    choice_config, choice_note, choice_of, tool_entries, tools_json, tools_notes, tools_of,
};
use crate::json::{Json, Num, Obj};
use crate::laws::fields::{
    count_at, has_object, has_text, integer_at, items_at, name_at, one, text_at,
};
use crate::laws::keys::{lemma_generation_keys, lemma_request_keys};
use crate::laws::request::{
    lemma_all_content_pushed, lemma_decoded, lemma_extended_generation, lemma_without,
};
use crate::llm::{BlockView, CapturedView, MessageView, OutputView, RequestView, Role};
use crate::number::nearest_float;
use crate::policy::{PreservationPolicy, TranslationPolicy};
use crate::text::{debug_form, decimal};
use crate::util::reported;

verus! {

/// The configuration in a body; an absent one is empty.
pub open spec fn configuration(body: Obj) -> Obj {
    if has_object(body, "generationConfig"@) {
        body["generationConfig"@]->Object_0
    } else {
        Map::empty()
    }
}

/// Whether nothing is wrong with a body in front of its contents.
pub open spec fn sound_head(body: Obj) -> bool {
    &&& body.contains_key("generationConfig"@) ==> body["generationConfig"@] is Object
    &&& body.contains_key("systemInstruction"@) ==> body["systemInstruction"@] is Object
}

/// What is wrong with content number `i`: it is no object, its role is neither `user` nor
/// `model`, or its parts are no array.
pub open spec fn wrong_with(content: Json, i: nat) -> Option<ErrorView> {
    let path = "$.contents["@ + decimal(i) + "]"@;
    if !(content is Object) {
        Some(ErrorView::InvalidType { path, expected: "object"@ })
    } else if has_text(content->Object_0, "role"@) && content->Object_0["role"@]->String_0
        != "user"@ && content->Object_0["role"@]->String_0 != "model"@ {
        Some(
            ErrorView::InvalidValue {
                path: path + ".role"@,
                message: "Invalid value: "@ + debug_form(content->Object_0["role"@]->String_0)
                    + ". Supported content roles are user, model."@,
            },
        )
    } else if content->Object_0.contains_key("parts"@) && !(
    content->Object_0["parts"@] is Array) {
        Some(ErrorView::InvalidType { path: path + ".parts"@, expected: "array"@ })
    } else {
        None
    }
}

/// What is wrong with a body in front of its contents is an error, and so are contents that are
/// no array.
pub proof fn law_wrong_bodies_are_refused(body: Json, policy: TranslationPolicy)
    ensures
        !(body is Object) ==> decoded_request(body, policy) == Err::<
            (RequestView, Seq<Seq<char>>),
            ErrorView,
        >(ErrorView::InvalidType { path: "$"@, expected: "object"@ }),
        body matches Json::Object(o) ==> o.contains_key("generationConfig"@) && !(
        o["generationConfig"@] is Object) ==> decoded_request(body, policy) == Err::<
            (RequestView, Seq<Seq<char>>),
            ErrorView,
        >(ErrorView::InvalidType { path: "$.generationConfig"@, expected: "object"@ }),
        body matches Json::Object(o) ==> (o.contains_key("generationConfig"@) ==> (
        o["generationConfig"@] is Object)) && o.contains_key("systemInstruction"@) && !(
        o["systemInstruction"@] is Object) ==> decoded_request(body, policy) == Err::<
            (RequestView, Seq<Seq<char>>),
            ErrorView,
        >(ErrorView::InvalidType { path: "$.systemInstruction"@, expected: "object"@ }),
        body matches Json::Object(o) ==> sound_head(o) && o.contains_key("contents"@) && !(
        o["contents"@] is Array) ==> decoded_request(body, policy) == Err::<
            (RequestView, Seq<Seq<char>>),
            ErrorView,
        >(ErrorView::InvalidType { path: "$.contents"@, expected: "array"@ }),
{
}

proof fn lemma_sound_contents(contents: Seq<Json>, n: int, policy: TranslationPolicy)
    requires
        0 <= n <= contents.len(),
        forall|k: int| 0 <= k < n ==> wrong_with(#[trigger] contents[k], k as nat) is None,
    ensures
        contents_messages(contents, n, policy) is Ok,
    decreases n,
{
    if n > 0 {
        lemma_sound_contents(contents, n - 1, policy);
        assert(wrong_with(contents[n - 1], (n - 1) as nat) is None);
    }
}

/// The first content with something wrong is the error.
pub proof fn law_wrong_contents_are_refused(
    body: Obj,
    i: int,
    error: ErrorView,
    policy: TranslationPolicy,
)
    requires
        sound_head(body),
        0 <= i < items_at(body, "contents"@).len(),
        forall|k: int|
            0 <= k < i ==> wrong_with(#[trigger] items_at(body, "contents"@)[k], k as nat) is None,
        wrong_with(items_at(body, "contents"@)[i], i as nat) == Some(error),
    ensures
        decoded_request(Json::Object(body), policy) == Err::<
            (RequestView, Seq<Seq<char>>),
            ErrorView,
        >(error),
{
    let contents = items_at(body, "contents"@);
    lemma_sound_contents(contents, i, policy);
    assert(contents_messages(contents, i + 1, policy) == Err::<Seq<MessageView>, ErrorView>(error));
    lemma_contents_error(contents, i + 1, contents.len() as int, policy);
}

/// A body with nothing wrong is read. Only a tool that cannot be read may still be refused,
/// where the policy says so.
pub proof fn law_sound_bodies_are_read(body: Obj, policy: TranslationPolicy)
    requires
        sound_head(body),
        body.contains_key("contents"@) ==> body["contents"@] is Array,
        forall|k: int|
            0 <= k < items_at(body, "contents"@).len() ==> wrong_with(
                #[trigger] items_at(body, "contents"@)[k],
                k as nat,
            ) is None,
    ensures
        policy.lossy is Report ==> (decoded_request(Json::Object(body), policy) matches Ok(
            (request, notes),
        ) && notes == tools_notes(items_at(body, "tools"@))),
        policy.lossy is Reject && tools_notes(items_at(body, "tools"@)).len() == 0 ==> (
        decoded_request(Json::Object(body), policy) matches Ok((request, notes)) && notes.len()
            == 0),
        policy.lossy is Reject && tools_notes(items_at(body, "tools"@)).len() > 0
            ==> decoded_request(Json::Object(body), policy) == Err::<
            (RequestView, Seq<Seq<char>>),
            ErrorView,
        >(ErrorView::Lossy { message: tools_notes(items_at(body, "tools"@))[0] }),
{
    let contents = items_at(body, "contents"@);
    lemma_sound_contents(contents, contents.len() as int, policy);
    let notes = tools_notes(items_at(body, "tools"@));
    assert(tool_entries(body.get("tools"@)) == items_at(body, "tools"@));
    assert(Seq::<Seq<char>>::empty() + notes =~= notes);
}

/// The number under `key`, in floating point; an integer is rounded to it.
pub open spec fn float_at(o: Obj, key: Seq<char>) -> Option<Option<serde_json::Number>> {
    if o.contains_key(key) && o[key] is Number {
        Some(
            Some(
                match o[key]->Number_0 {
                    Num::Float(x) => x,
                    Num::Int(n) => nearest_float(n),
                },
            ),
        )
    } else {
        None
    }
}

/// What the fields of a request say: the model unless it is empty, the sampling and output
/// parameters of the configuration, the tools and the choice among them.
pub proof fn law_request_fields_are_read(
    body: Obj,
    request: RequestView,
    notes: Seq<Seq<char>>,
    policy: TranslationPolicy,
)
    requires
        decoded_request(Json::Object(body), policy) == Ok::<
            (RequestView, Seq<Seq<char>>),
            ErrorView,
        >((request, notes)),
    ensures
        request.model == name_at(body, "model"@),
        request.sampling.temperature == float_at(configuration(body), "temperature"@),
        request.sampling.top_p == float_at(configuration(body), "topP"@),
        request.sampling.top_k == (match integer_at(configuration(body), "topK"@) {
            Some(n) => if i64::MIN <= n <= i64::MAX {
                Some(n as i64)
            } else {
                None
            },
            None => None,
        }),
        request.output.max_output_tokens == count_at(configuration(body), "maxOutputTokens"@),
        request.output.response_format == response_format_of(configuration(body)),
        request.tools == tools_of(items_at(body, "tools"@)),
        request.tool_choice == (if body.contains_key("toolConfig"@) {
            choice_of(body["toolConfig"@])
        } else {
            None
        }),
{
    lemma_decoded(body, request, notes, policy);
    assert(tool_entries(body.get("tools"@)) == items_at(body, "tools"@));
}

/// Whether the model has a place for the field `key` of a request.
pub open spec fn has_place(key: Seq<char>) -> bool {
    ||| key == "model"@
    ||| key == "contents"@
    ||| key == "systemInstruction"@
    ||| key == "tools"@
    ||| key == "toolConfig"@
    ||| key == "generationConfig"@
}

/// Whether the model has a place for the field `key` of a configuration.
pub open spec fn has_parameter(key: Seq<char>) -> bool {
    ||| key == "temperature"@
    ||| key == "topP"@
    ||| key == "topK"@
    ||| key == "maxOutputTokens"@
    ||| key == "responseSchema"@
    ||| key == "responseJsonSchema"@
}

/// What the model has no place for is kept in the extensions as it is, and so is the rest of the
/// configuration, where anything is left of it. The media type of a response goes with the
/// response format that it asks for.
pub proof fn law_extensions_are_read(
    body: Obj,
    request: RequestView,
    notes: Seq<Seq<char>>,
    policy: TranslationPolicy,
    key: Seq<char>,
)
    requires
        decoded_request(Json::Object(body), policy) == Ok::<
            (RequestView, Seq<Seq<char>>),
            ErrorView,
        >((request, notes)),
    ensures
        !has_place(key) ==> request.extensions.contains_key(key) == body.contains_key(key) && (
        body.contains_key(key) ==> request.extensions[key] == body[key]),
        has_place(key) && key != "generationConfig"@ ==> !request.extensions.contains_key(key),
        request.extensions.contains_key("generationConfig"@) ==> (
        request.extensions["generationConfig"@] is Object) && request.extensions["generationConfig"@]
            != Json::Object(Map::empty()),
        !has_parameter(key) && (key != "responseMimeType"@ || request.output.response_format is None)
            ==> configuration(request.extensions).contains_key(key) == configuration(
            body,
        ).contains_key(key) && (configuration(body).contains_key(key) ==> configuration(
            request.extensions,
        )[key] == configuration(body)[key]),
        has_parameter(key) || (key == "responseMimeType"@
            && request.output.response_format is Some) ==> !configuration(
            request.extensions,
        ).contains_key(key),
{
    lemma_decoded(body, request, notes, policy);
    let generation = configuration(body);
    lemma_extended_generation(body, generation);
    lemma_without(body, mapped_request(), key);
    lemma_without(body, mapped_request(), "generationConfig"@);
    lemma_without(generation, mapped_generation_config(), key);
    let mapped = mapped_request();
    assert(mapped[0] == "model"@);
    assert(mapped[1] == "contents"@);
    assert(mapped[2] == "systemInstruction"@);
    assert(mapped[3] == "tools"@);
    assert(mapped[4] == "toolConfig"@);
    assert(mapped[5] == "generationConfig"@);
    let parameters = mapped_generation_config();
    assert(parameters[0] == "temperature"@);
    assert(parameters[1] == "topP"@);
    assert(parameters[2] == "topK"@);
    assert(parameters[3] == "maxOutputTokens"@);
    assert(parameters[4] == "responseSchema"@);
    assert(parameters[5] == "responseJsonSchema"@);
    assert(configuration(request.extensions) == extended_generation(request.extensions));
}

/// The texts in the parts of an instruction, in order; a part without a text is passed over.
pub open spec fn texts_in(parts: Seq<Json>) -> Seq<BlockView>
    decreases parts.len(),
{
    if parts.len() == 0 {
        Seq::empty()
    } else if parts.last() is Object && has_text(parts.last()->Object_0, "text"@) {
        texts_in(parts.drop_last()).push(
            BlockView::Text { text: parts.last()->Object_0["text"@]->String_0 },
        )
    } else {
        texts_in(parts.drop_last())
    }
}

proof fn lemma_texts_in(parts: Seq<Json>)
    ensures
        parts.filter_map(|part: Json| system_text(part)) == texts_in(parts),
    decreases parts.len(),
{
    let f = |part: Json| system_text(part);
    if parts.len() == 0 {
        assert(parts.filter_map(f) =~= texts_in(parts));
    } else {
        let n = parts.len() - 1;
        lemma_texts_in(parts.drop_last());
        parts.lemma_filter_map_take_succ(f, n);
        assert(parts.take(n) =~= parts.drop_last());
        assert(parts.take(n + 1) =~= parts);
        assert(parts.filter_map(f) =~= texts_in(parts));
    }
}

/// The texts of the system instruction are one instruction, where there are any.
pub proof fn law_instruction_is_read(
    body: Obj,
    request: RequestView,
    notes: Seq<Seq<char>>,
    policy: TranslationPolicy,
)
    requires
        decoded_request(Json::Object(body), policy) == Ok::<
            (RequestView, Seq<Seq<char>>),
            ErrorView,
        >((request, notes)),
    ensures
        has_object(body, "systemInstruction"@) && texts_in(
            items_at(body["systemInstruction"@]->Object_0, "parts"@),
        ).len() > 0 ==> request.instructions == seq![
            MessageView {
                role: Role::System,
                content: texts_in(items_at(body["systemInstruction"@]->Object_0, "parts"@)),
            },
        ],
        !has_object(body, "systemInstruction"@) || texts_in(
            items_at(body["systemInstruction"@]->Object_0, "parts"@),
        ).len() == 0 ==> request.instructions.len() == 0,
{
    lemma_decoded(body, request, notes, policy);
    if has_object(body, "systemInstruction"@) {
        let system = body["systemInstruction"@]->Object_0;
        assert(system_parts_of(system) == items_at(system, "parts"@));
        lemma_texts_in(items_at(system, "parts"@));
    }
}

proof fn lemma_each_message(
    contents: Seq<Json>,
    n: int,
    messages: Seq<MessageView>,
    policy: TranslationPolicy,
)
    requires
        0 <= n <= contents.len(),
        contents_messages(contents, n, policy) == Ok::<Seq<MessageView>, ErrorView>(messages),
    ensures
        messages.len() == n,
        forall|i: int|
            0 <= i < n ==> content_message(
                contents[i],
                i as nat,
                ids_before(contents, i, policy),
                policy,
            ) == Ok::<MessageView, ErrorView>(#[trigger] messages[i]),
    decreases n,
{
    if n > 0 {
        let front = contents_messages(contents, n - 1, policy)->Ok_0;
        lemma_each_message(contents, n - 1, front, policy);
        assert forall|i: int| 0 <= i < n implies content_message(
            contents[i],
            i as nat,
            ids_before(contents, i, policy),
            policy,
        ) == Ok::<MessageView, ErrorView>(#[trigger] messages[i]) by {
            if i < n - 1 {
                assert(messages[i] == front[i]);
            }
        }
    }
}

/// Contents are read one for one: a content of role `model` is from the assistant, any other
/// from the user, and its blocks are what its parts say in the conversation that the contents
/// before it left.
pub proof fn law_contents_are_read(
    body: Obj,
    request: RequestView,
    notes: Seq<Seq<char>>,
    policy: TranslationPolicy,
    i: int,
)
    requires
        decoded_request(Json::Object(body), policy) == Ok::<
            (RequestView, Seq<Seq<char>>),
            ErrorView,
        >((request, notes)),
    ensures
        request.messages.len() == items_at(body, "contents"@).len(),
        ids_before(items_at(body, "contents"@), 0, policy) == no_calls(),
        0 <= i < request.messages.len() ==> items_at(body, "contents"@)[i] is Object
            && request.messages[i].role == (if text_at(
            items_at(body, "contents"@)[i]->Object_0,
            "role"@,
        ) == Some("model"@) {
            Role::Assistant
        } else {
            Role::User
        }) && request.messages[i].content == items_blocks(
            items_at(items_at(body, "contents"@)[i]->Object_0, "parts"@),
            ids_before(items_at(body, "contents"@), i, policy),
            policy,
        ) && ids_before(items_at(body, "contents"@), i + 1, policy) == ids_after(
            items_at(items_at(body, "contents"@)[i]->Object_0, "parts"@),
            items_at(items_at(body, "contents"@)[i]->Object_0, "parts"@).len() as int,
            ids_before(items_at(body, "contents"@), i, policy),
            policy,
        ),
{
    lemma_decoded(body, request, notes, policy);
    let contents = items_at(body, "contents"@);
    reveal_strlit("user");
    reveal_strlit("model");
    assert("user"@.len() == 4);
    assert("model"@.len() == 5);
    if body.contains_key("contents"@) {
        lemma_each_message(contents, contents.len() as int, request.messages, policy);
        if 0 <= i < request.messages.len() {
            let message = request.messages[i];
            let ids = ids_before(contents, i, policy);
            assert(content_message(contents[i], i as nat, ids, policy) == Ok::<
                MessageView,
                ErrorView,
            >(message));
            let fields = contents[i]->Object_0;
            if !fields.contains_key("parts"@) {
                assert(items_blocks(Seq::empty(), ids, policy) =~= Seq::<BlockView>::empty());
            }
        }
    }
}

/// The content of messages, one after the other.
pub proof fn law_all_content_is_in_order(messages: Seq<MessageView>, message: MessageView)
    ensures
        all_content(Seq::empty()).len() == 0,
        all_content(messages.push(message)) == all_content(messages) + message.content,
{
    lemma_all_content_pushed(messages, message);
    let f = |m: MessageView| m.content;
    assert(Seq::<MessageView>::empty().map_values(f) =~= Seq::<Seq<BlockView>>::empty());
    assert(all_content(Seq::empty()) =~= Seq::<BlockView>::empty());
}

/// A message is added to the turns: not at all where it has no parts, to the last turn where
/// that is of its side, and as a turn of its own where not.
pub proof fn law_messages_are_written_in_turns(
    messages: Seq<MessageView>,
    message: MessageView,
    names: Map<Seq<char>, Seq<char>>,
    policy: TranslationPolicy,
)
    ensures
        turns_of(Seq::empty(), names, policy).len() == 0,
        content_parts(message.content, names, policy).len() == 0 ==> turns_of(
            messages.push(message),
            names,
            policy,
        ) == turns_of(messages, names, policy),
        content_parts(message.content, names, policy).len() > 0 && turns_of(
            messages,
            names,
            policy,
        ).len() > 0 && turns_of(messages, names, policy).last().model == (message.role
            == Role::Assistant) ==> turns_of(messages.push(message), names, policy) == turns_of(
            messages,
            names,
            policy,
        ).drop_last().push(
            TurnView {
                model: message.role == Role::Assistant,
                parts: turns_of(messages, names, policy).last().parts + content_parts(
                    message.content,
                    names,
                    policy,
                ),
            },
        ),
        content_parts(message.content, names, policy).len() > 0 && (turns_of(
            messages,
            names,
            policy,
        ).len() == 0 || turns_of(messages, names, policy).last().model != (message.role
            == Role::Assistant)) ==> turns_of(messages.push(message), names, policy) == turns_of(
            messages,
            names,
            policy,
        ).push(
            TurnView {
                model: message.role == Role::Assistant,
                parts: content_parts(message.content, names, policy),
            },
        ),
{
    assert(messages.push(message).drop_last() =~= messages);
}

/// A result whose call is not in the conversation is written under its id.
pub proof fn law_result_without_a_call_keeps_its_id(messages: Seq<MessageView>, id: Seq<char>)
    requires
        forall|i: int|
            0 <= i < all_content(messages).len() ==> !((
            #[trigger] all_content(messages)[i]) matches BlockView::ToolCall { id: other, .. }
                && other == id),
    ensures
        name_or_id(call_names(messages), id) == id,
        !call_names(messages).contains_key(id),
{
    lemma_no_name(Map::empty(), all_content(messages), id);
}

proof fn lemma_no_name(
    names: Map<Seq<char>, Seq<char>>,
    content: Seq<BlockView>,
    id: Seq<char>,
)
    requires
        !names.contains_key(id),
        forall|i: int|
            0 <= i < content.len() ==> !((#[trigger] content[i]) matches BlockView::ToolCall {
                id: other,
                ..
            } && other == id),
    ensures
        !names_after(names, content).contains_key(id),
    decreases content.len(),
{
    if content.len() > 0 {
        let front = content.drop_last();
        assert forall|i: int| 0 <= i < front.len() implies !((
        #[trigger] front[i]) matches BlockView::ToolCall { id: other, .. } && other == id) by {
            assert(front[i] == content[i]);
        }
        lemma_no_name(names, front, id);
        let last = content[content.len() - 1];
        assert(!(last matches BlockView::ToolCall { id: other, .. } && other == id));
    }
}

/// Whether `key` is that of a field of a request.
pub open spec fn is_request_key(key: Seq<char>) -> bool {
    ||| key == "model"@
    ||| key == "systemInstruction"@
    ||| key == "contents"@
    ||| key == "tools"@
    ||| key == "toolConfig"@
    ||| key == "generationConfig"@
    ||| key == "cachedContent"@
    ||| key == "labels"@
    ||| key == "safetySettings"@
    ||| key == "serviceTier"@
    ||| key == "store"@
}

/// The fields of a request: the model, the texts of the instructions, the contents, the tools and
/// the choice among them, and the configuration, each where there is one, and no field besides.
pub proof fn law_request_fields_are_written(
    request: RequestView,
    policy: TranslationPolicy,
    key: Seq<char>,
)
    ensures
        text_at(request_body(request, policy), "model"@) == request.model,
        request.model is None ==> !request_body(request, policy).contains_key("model"@),
        request_body(request, policy).contains_key("contents"@),
        request_body(request, policy)["contents"@] == Json::Array(
            contents_json(turns_of(request.messages, call_names(request.messages), policy)),
        ),
        request_body(request, policy).contains_key("systemInstruction"@) == (text_parts(
            all_content(request.instructions),
        ).len() > 0),
        text_parts(all_content(request.instructions)).len() > 0 ==> request_body(
            request,
            policy,
        )["systemInstruction"@] == one(
            "parts"@,
            Json::Array(text_parts(all_content(request.instructions))),
        ),
        request_body(request, policy).contains_key("tools"@) == (request.tools.len() > 0),
        request.tools.len() > 0 ==> request_body(request, policy)["tools"@] == tools_json(
            request.tools,
        ),
        request_body(request, policy).contains_key("toolConfig"@) == (request.tools.len() > 0
            && request.tool_choice is Some && choice_config(
            request.tool_choice->Some_0,
        ) is Some),
        request_body(request, policy).contains_key("toolConfig"@) ==> request_body(
            request,
            policy,
        )["toolConfig"@] == choice_config(request.tool_choice->Some_0)->Some_0,
        request_body(request, policy).contains_key("generationConfig"@) == (request_generation(
            request,
        ) != Map::<Seq<char>, Json>::empty()),
        request_body(request, policy).contains_key("generationConfig"@) ==> request_body(
            request,
            policy,
        )["generationConfig"@] == Json::Object(request_generation(request)),
        request_body(request, policy).contains_key(key) ==> is_request_key(key),
{
    lemma_request_keys();
}

/// The fields that are sent again are those of the extensions, as they are.
pub proof fn law_extensions_are_written(
    request: RequestView,
    policy: TranslationPolicy,
    key: Seq<char>,
)
    requires
        key == "cachedContent"@ || key == "labels"@ || key == "safetySettings"@ || key
            == "serviceTier"@ || key == "store"@,
    ensures
        request_body(request, policy).contains_key(key) == request.extensions.contains_key(key),
        request.extensions.contains_key(key) ==> request_body(request, policy)[key]
            == request.extensions[key],
{
    lemma_request_keys();
}

/// Turns and texts on the wire: a turn with its role and its parts, and a text part for each text
/// of the instructions, in order.
pub proof fn law_turns_and_texts_are_written(
    turns: Seq<TurnView>,
    i: int,
    content: Seq<BlockView>,
    j: int,
)
    ensures
        contents_json(turns).len() == turns.len(),
        0 <= i < turns.len() ==> contents_json(turns)[i] == Json::Object(
            Map::empty().insert(
                "role"@,
                Json::String(
                    if turns[i].model {
                        "model"@
                    } else {
                        "user"@
                    },
                ),
            ).insert("parts"@, Json::Array(turns[i].parts)),
        ),
        text_parts(content).len() == block_texts(content).len(),
        0 <= j < block_texts(content).len() ==> text_parts(content)[j] == one(
            "text"@,
            Json::String(block_texts(content)[j]),
        ),
{
}

/// A request without a response format.
pub open spec fn without_format(request: RequestView) -> RequestView {
    RequestView {
        model: request.model,
        instructions: request.instructions,
        messages: request.messages,
        tools: request.tools,
        tool_choice: request.tool_choice,
        sampling: request.sampling,
        output: OutputView {
            max_output_tokens: request.output.max_output_tokens,
            response_format: None,
        },
        extensions: request.extensions,
        preservation: request.preservation,
    }
}

/// Whether `o` has `value` under `key` where there is one, and else what `base` has there.
pub open spec fn set_or_kept(o: Obj, base: Obj, key: Seq<char>, value: Option<Json>) -> bool {
    if value is Some {
        o.contains_key(key) && o[key] == value->Some_0
    } else {
        o.contains_key(key) == base.contains_key(key) && (base.contains_key(key) ==> o[key]
            == base[key])
    }
}

/// The JSON form of a number: `null` where it is not finite.
pub open spec fn number_for(x: Option<Option<serde_json::Number>>) -> Option<Json> {
    match x {
        Some(Some(n)) => Some(Json::Number(Num::Float(n))),
        Some(None) => Some(Json::Null),
        None => None,
    }
}

/// The configuration of a request is that of its extensions with the parameters of the request
/// over it, each under its key, and with the response format written into it last.
pub proof fn law_configuration_is_written(request: RequestView, key: Seq<char>)
    ensures
        set_or_kept(
            request_generation(without_format(request)),
            configuration(request.extensions),
            "temperature"@,
            number_for(request.sampling.temperature),
        ),
        set_or_kept(
            request_generation(without_format(request)),
            configuration(request.extensions),
            "topP"@,
            number_for(request.sampling.top_p),
        ),
        set_or_kept(
            request_generation(without_format(request)),
            configuration(request.extensions),
            "topK"@,
            match request.sampling.top_k {
                Some(n) => Some(Json::Number(Num::Int(n as int))),
                None => None,
            },
        ),
        set_or_kept(
            request_generation(without_format(request)),
            configuration(request.extensions),
            "maxOutputTokens"@,
            match request.output.max_output_tokens {
                Some(n) => Some(Json::Number(Num::Int(n as int))),
                None => None,
            },
        ),
        key != "temperature"@ && key != "topP"@ && key != "topK"@ && key != "maxOutputTokens"@
            ==> set_or_kept(
            request_generation(without_format(request)),
            configuration(request.extensions),
            key,
            None,
        ),
        request.output.response_format matches Some(format) ==> request_generation(request)
            == with_format(format, request_generation(without_format(request))),
        request.output.response_format is None ==> request_generation(request)
            == request_generation(without_format(request)),
{
    lemma_generation_keys();
}

/// What is reported of a request, in order: what the target cannot do, what is dropped of each
/// message, the choice among tools, and the response format.
pub proof fn law_losses_are_listed_in_order(
    request: RequestView,
    messages: Seq<MessageView>,
    message: MessageView,
    policy: TranslationPolicy,
)
    ensures
        messages_notes(Seq::empty()).len() == 0,
        messages_notes(messages.push(message)) == messages_notes(messages) + content_notes(
            message.content,
        ),
        request_notes(request, policy) == (if request.tools.len() > 0
            && !policy.capabilities.tools {
            seq!["the target does not support tools"@]
        } else {
            seq![]
        }) + (if request.output.response_format is Some && !policy.capabilities.structured_output {
            seq!["the target does not support structured output"@]
        } else {
            seq![]
        }) + messages_notes(request.messages) + (if request.tools.len() > 0
            && request.tool_choice is Some && choice_note(
            request.tool_choice->Some_0,
        ) is Some {
            seq![choice_note(request.tool_choice->Some_0)->Some_0]
        } else {
            seq![]
        }) + (if request.output.response_format is Some && format_note(
            request.output.response_format->Some_0,
        ) is Some {
            seq![format_note(request.output.response_format->Some_0)->Some_0]
        } else {
            seq![]
        }),
{
    let f = |m: MessageView| content_notes(m.content);
    let n = messages.len() as int;
    messages.push(message).lemma_flat_map_take_append(f, n);
    assert(messages.push(message).take(n) =~= messages);
    assert(messages.push(message).take(n + 1) =~= messages.push(message));
    assert(Seq::<MessageView>::empty().map_values(f) =~= Seq::<Seq<Seq<char>>>::empty());
    assert(messages_notes(Seq::empty()) =~= Seq::<Seq<char>>::empty());
}

/// Whether a body that was kept is one of this format, to be sent again under the policy.
pub open spec fn kept_for_gemini(kept: Option<CapturedView>, policy: TranslationPolicy) -> bool {
    kept is Some && kept->Some_0.format == "gemini_generate_content"@ && !(
    policy.preservation is Discard)
}

/// A kept body of this format is sent again as it is; everything else is written anew, with a
/// kept body of another format in the field that the policy names.
pub proof fn law_what_a_request_is_encoded_as(request: RequestView, policy: TranslationPolicy)
    ensures
        kept_for_gemini(request.preservation, policy) ==> encoded_request(request, policy) == Ok::<
            (Json, Seq<Seq<char>>),
            ErrorView,
        >((request.preservation->Some_0.body, Seq::empty())),
        !kept_for_gemini(request.preservation, policy) && (policy.lossy is Report || request_notes(
            request,
            policy,
        ).len() == 0) ==> (encoded_request(request, policy) matches Ok((body, notes)) && notes == request_notes(
            request,
            policy,
        ) && body == Json::Object(
            match (policy.preservation, request.preservation) {
                (PreservationPolicy::Embed { key }, Some(kept)) => request_body(
                    request,
                    policy,
                ).insert(
                    key@,
                    Json::Object(
                        Map::empty().insert("format"@, Json::String(kept.format)).insert(
                            "body"@,
                            kept.body,
                        ),
                    ),
                ),
                _ => request_body(request, policy),
            },
        )),
        !kept_for_gemini(request.preservation, policy) && policy.lossy is Reject && request_notes(
            request,
            policy,
        ).len() > 0 ==> encoded_request(request, policy) == Err::<
            (Json, Seq<Seq<char>>),
            ErrorView,
        >(ErrorView::Lossy { message: request_notes(request, policy)[0] }),
{
    let notes = request_notes(request, policy);
    assert(Seq::<Seq<char>>::empty() + notes =~= notes);
    if notes.len() == 0 {
        assert(notes =~= Seq::<Seq<char>>::empty());
    }
}

/// A loss is added to what was reported before, in order, where the policy reports it. Where the
/// policy rejects it, the first loss is the error, and without loss nothing changes.
pub proof fn law_losses_are_reported_or_rejected(
    before: Seq<Seq<char>>,
    policy: TranslationPolicy,
    notes: Seq<Seq<char>>,
)
    ensures
        policy.lossy is Report ==> reported(before, policy, notes) == Ok::<
            Seq<Seq<char>>,
            ErrorView,
        >(before + notes),
        policy.lossy is Reject && notes.len() > 0 ==> reported(before, policy, notes) == Err::<
            Seq<Seq<char>>,
            ErrorView,
        >(ErrorView::Lossy { message: notes[0] }),
        notes.len() == 0 ==> reported(before, policy, notes) == Ok::<Seq<Seq<char>>, ErrorView>(
            before,
        ),
{
    if notes.len() == 0 {
        assert(before + notes =~= before);
    }
}

} // verus!
