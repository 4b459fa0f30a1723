//! Laws on conversations: calls and the responses to them, over all contents.
use vstd::prelude::*;
use vstd::seq_lib::*;

use crate::error::ErrorView;
use crate::gemini::decode::{function_name, ids_after, item_block, items_blocks, response_kept};
use crate::gemini::decode_request::contents_messages;
use crate::gemini::encode::{block_part, name_or_id};
use crate::gemini::encode_request::{all_content, call_names, names_after, turns_of};
use crate::gemini::ids::{
    answer_id, answered, given, issued_id, lemma_answered, no_calls, synthesized, wire_id, CallView,
};
use crate::json::{object_in, string_in, Json, Obj};
use crate::laws::ids::{
    call_in, law_made_ids_are_withheld, law_made_ids_differ, law_response_takes_the_oldest_call,
    law_sent_ids_are_kept, lemma_queue_front, queue, result_in,
};
use crate::laws::keys::lemma_part_keys;
use crate::laws::parts::{
    hop, law_call_part_survives, law_response_part_survives, sent_call, sent_response,
};
use crate::laws::request::{
    all_items, all_parts, law_conversation_spans_contents, law_turns_keep_all_parts,
    lemma_names_last,
};
use crate::llm::{BlockView, MessageView};
use crate::policy::TranslationPolicy;
use crate::wire::{exact, max_nesting};

verus! {

/// The object under `key`; an empty one where there is none.
pub open spec fn object_under(o: Obj, key: Seq<char>) -> Obj {
    match object_in(o.get(key)) {
        Some(inner) => inner,
        None => Map::empty(),
    }
}

/// The id that a call or a response gives.
pub open spec fn id_of(o: Obj) -> Option<Seq<char>> {
    string_in(o.get("id"@))
}

/// Whether `item` is a call to `name` with the id `id`.
pub open spec fn calls_with(item: Json, name: Seq<char>, id: Seq<char>) -> bool {
    call_in(item) matches Some(call) && function_name(call) == name && id_of(call) == Some(id)
}

/// Whether no call among `items` but number `i` has the id `id`.
pub open spec fn own_id(items: Seq<Json>, i: int, id: Seq<char>) -> bool {
    forall|j: int|
        0 <= j < items.len() && j != i ==> (call_in(#[trigger] items[j]) matches Some(other)
            ==> id_of(other) != Some(id))
}

/// Whether call number `i` of a conversation has its name, its arguments and an id of its own
/// that the policy does not make, or no id, for which the policy then makes one.
pub open spec fn plain_call(
    items: Seq<Json>,
    i: int,
    call: Obj,
    policy: TranslationPolicy,
) -> bool {
    &&& items[i] == sent_call(function_name(call), object_under(call, "args"@), id_of(call))
    &&& match id_of(call) {
        Some(id) => id.len() > 0 && !synthesized(id, policy) && own_id(items, i, id),
        None => policy.deterministic_ids is GenerateStable,
    }
}

/// Whether response number `i` of a conversation has its name, a response object that is kept
/// and the id of an earlier call to that name, or no id, where the oldest call to that name
/// without a response has none either.
pub open spec fn plain_response(
    items: Seq<Json>,
    i: int,
    result: Obj,
    policy: TranslationPolicy,
) -> bool {
    let ids = ids_after(items, i, no_calls(), policy);
    let name = function_name(result);
    let response = object_under(result, "response"@);
    &&& items[i] == sent_response(name, response, id_of(result))
    &&& exact(Json::Object(response), max_nesting())
    &&& response_kept(items[i], item_block(items[i], ids, policy))
    &&& match id_of(result) {
        Some(id) => exists|j: int| 0 <= j < i && calls_with(#[trigger] items[j], name, id),
        None => queue(ids.pending, name).len() > 0 && wire_id(
            queue(ids.pending, name)[0],
            policy,
        ) is None,
    }
}

/// Whether item number `i` of a conversation has nothing that a hop would change: it is a
/// plain call, a plain response or any other part that survives.
pub open spec fn plain(items: Seq<Json>, i: int, policy: TranslationPolicy) -> bool {
    match (call_in(items[i]), result_in(items[i])) {
        (Some(call), _) => plain_call(items, i, call, policy),
        (None, Some(result)) => plain_response(items, i, result, policy),
        (None, None) => hop(items[i], no_calls(), Map::empty(), policy) == Some(items[i]),
    }
}

/// Whether no item of a conversation has anything that a hop would change.
pub open spec fn all_plain(items: Seq<Json>, policy: TranslationPolicy) -> bool {
    forall|i: int| 0 <= i < items.len() ==> #[trigger] plain(items, i, policy)
}

/// Whether item number `i` is plain in a conversation without ids: a call has its name and its
/// arguments; a response has its name and a response object that is kept, and comes after a
/// call of its own; any other part is one that survives.
pub open spec fn plain_without_id(items: Seq<Json>, i: int, policy: TranslationPolicy) -> bool {
    let ids = ids_after(items, i, no_calls(), policy);
    match (call_in(items[i]), result_in(items[i])) {
        (Some(call), _) => items[i] == sent_call(
            function_name(call),
            object_under(call, "args"@),
            None,
        ),
        (None, Some(result)) => {
            &&& items[i] == sent_response(
                function_name(result),
                object_under(result, "response"@),
                None,
            )
            &&& exact(Json::Object(object_under(result, "response"@)), max_nesting())
            &&& response_kept(items[i], item_block(items[i], ids, policy))
            &&& queue(ids.pending, function_name(result)).len() > 0
        },
        (None, None) => hop(items[i], no_calls(), Map::empty(), policy) == Some(items[i]),
    }
}

/// Whether a conversation has no ids and nothing else that a hop would change.
pub open spec fn all_plain_without_ids(items: Seq<Json>, policy: TranslationPolicy) -> bool {
    forall|i: int| 0 <= i < items.len() ==> #[trigger] plain_without_id(items, i, policy)
}

/// Whether `b` is the call `call`.
pub open spec fn is_call(b: BlockView, call: CallView) -> bool {
    b matches BlockView::ToolCall { id, name, .. } && id == call.id && name == call.name
}

/// Whether `call` is among the first `n` blocks.
pub open spec fn called_before(content: Seq<BlockView>, n: int, call: CallView) -> bool {
    exists|j: int| 0 <= j < n && is_call(#[trigger] content[j], call)
}

/// A pending call is a block that was read before.
proof fn lemma_pending_calls(items: Seq<Json>, n: int, policy: TranslationPolicy)
    requires
        0 <= n <= items.len(),
    ensures
        ({
            let content = items_blocks(items, no_calls(), policy);
            let pending = ids_after(items, n, no_calls(), policy).pending;
            forall|p: int|
                0 <= p < pending.len() ==> called_before(content, n, #[trigger] pending[p])
        }),
    decreases n,
{
    let content = items_blocks(items, no_calls(), policy);
    let pending = ids_after(items, n, no_calls(), policy).pending;
    if n > 0 {
        lemma_pending_calls(items, n - 1, policy);
        let ids = ids_after(items, n - 1, no_calls(), policy);
        let before = ids.pending;
        assert(content[n - 1] == item_block(items[n - 1], ids, policy));
        assert forall|p: int| 0 <= p < pending.len() implies called_before(
            content,
            n,
            #[trigger] pending[p],
        ) by {
            if let Some(call) = call_in(items[n - 1]) {
                if p < before.len() {
                    assert(pending[p] == before[p]);
                    assert(called_before(content, n - 1, before[p]));
                } else {
                    assert(is_call(content[n - 1], pending[p]));
                }
            } else if let Some(result) = result_in(items[n - 1]) {
                let q = answered(
                    before,
                    function_name(result),
                    given(string_in(result.get("id"@))),
                );
                lemma_answered(
                    before,
                    function_name(result),
                    given(string_in(result.get("id"@))),
                );
                let at = if q < before.len() && p >= q {
                    p + 1
                } else {
                    p
                };
                assert(pending[p] == before[at]);
                assert(called_before(content, n - 1, before[at]));
            } else {
                assert(pending[p] == before[p]);
                assert(called_before(content, n - 1, before[p]));
            }
        }
    }
}

/// The number of calls never falls.
proof fn lemma_counter_grows(items: Seq<Json>, m: int, n: int, policy: TranslationPolicy)
    requires
        0 <= m <= n <= items.len(),
    ensures
        ids_after(items, m, no_calls(), policy).counter <= ids_after(
            items,
            n,
            no_calls(),
            policy,
        ).counter,
    decreases n,
{
    if m < n {
        lemma_counter_grows(items, m, n - 1, policy);
    }
}

/// What a call part gives.
proof fn lemma_sent_call(name: Seq<char>, args: Obj, id: Option<Seq<char>>)
    ensures
        call_in(sent_call(name, args, id)) matches Some(call) && function_name(call) == name
            && object_under(call, "args"@) == args && id_of(call) == id,
{
    lemma_part_keys();
}

/// What a response part gives.
proof fn lemma_sent_response(name: Seq<char>, response: Obj, id: Option<Seq<char>>)
    ensures
        call_in(sent_response(name, response, id)) is None,
        result_in(sent_response(name, response, id)) matches Some(result) && function_name(result)
            == name && object_under(result, "response"@) == response && id_of(result) == id,
{
    lemma_part_keys();
}

/// The block of a plain call.
proof fn lemma_call_block(items: Seq<Json>, j: int, policy: TranslationPolicy)
    requires
        0 <= j < items.len(),
        plain(items, j, policy),
        call_in(items[j]) is Some || items_blocks(items, no_calls(), policy)[j] is ToolCall,
    ensures
        call_in(items[j]) matches Some(call) && {
            let count = ids_after(items, j, no_calls(), policy).counter + 1;
            items_blocks(items, no_calls(), policy)[j] == (BlockView::ToolCall {
                id: issued_id(count, id_of(call), policy),
                name: function_name(call),
                arguments: Json::Object(object_under(call, "args"@)),
            }) && ids_after(items, j + 1, no_calls(), policy).counter == count
        },
{
    let ids = ids_after(items, j, no_calls(), policy);
    assert(items_blocks(items, no_calls(), policy)[j] == item_block(items[j], ids, policy));
    if let Some(call) = call_in(items[j]) {
        law_call_part_survives(
            function_name(call),
            object_under(call, "args"@),
            id_of(call),
            ids,
            Map::empty(),
            policy,
        );
    }
}

/// Different calls of a plain conversation have different ids.
proof fn lemma_call_ids_differ(items: Seq<Json>, j: int, k: int, policy: TranslationPolicy)
    requires
        0 <= j < k < items.len(),
        all_plain(items, policy),
        items_blocks(items, no_calls(), policy)[j] is ToolCall,
        items_blocks(items, no_calls(), policy)[k] is ToolCall,
    ensures
        items_blocks(items, no_calls(), policy)[j]->ToolCall_id != items_blocks(
            items,
            no_calls(),
            policy,
        )[k]->ToolCall_id,
{
    assert(plain(items, j, policy));
    assert(plain(items, k, policy));
    lemma_call_block(items, j, policy);
    lemma_call_block(items, k, policy);
    lemma_counter_grows(items, j + 1, k, policy);
    let m = ids_after(items, j, no_calls(), policy).counter + 1;
    let n = ids_after(items, k, no_calls(), policy).counter + 1;
    let first = call_in(items[j])->Some_0;
    let second = call_in(items[k])->Some_0;
    match (id_of(first), id_of(second)) {
        (Some(a), Some(b)) => {
            assert(own_id(items, j, a));
            assert(id_of(second) != Some(a));
        },
        (Some(a), None) => {
            law_sent_ids_are_kept(m, a, policy);
            law_made_ids_are_withheld(n, None, policy);
        },
        (None, Some(b)) => {
            law_made_ids_are_withheld(m, None, policy);
            law_sent_ids_are_kept(n, b, policy);
        },
        (None, None) => {
            law_made_ids_differ(policy.deterministic_ids->prefix@, m, n);
        },
    }
}

/// The id of a call in a plain conversation is resolved to the name of that call.
proof fn lemma_call_is_named(items: Seq<Json>, j: int, call: CallView, policy: TranslationPolicy)
    requires
        0 <= j < items.len(),
        all_plain(items, policy),
        is_call(items_blocks(items, no_calls(), policy)[j], call),
    ensures
        name_or_id(
            names_after(Map::empty(), items_blocks(items, no_calls(), policy)),
            call.id,
        ) == call.name,
{
    let content = items_blocks(items, no_calls(), policy);
    assert forall|k: int| j < k < content.len() implies !((
    #[trigger] content[k]) matches BlockView::ToolCall { id: later, .. } && later == call.id) by {
        if content[k] is ToolCall {
            lemma_call_ids_differ(items, j, k, policy);
        }
    }
    lemma_names_last(Map::empty(), content, j, call.id, call.name);
}

/// The call that a response without an id answers, and where it was read.
proof fn lemma_oldest_call(
    items: Seq<Json>,
    i: int,
    name: Seq<char>,
    policy: TranslationPolicy,
) -> (r: (CallView, int))
    requires
        0 <= i <= items.len(),
        queue(ids_after(items, i, no_calls(), policy).pending, name).len() > 0,
    ensures
        r.0.name == name,
        r.0.id == queue(ids_after(items, i, no_calls(), policy).pending, name)[0],
        r.0.id == answer_id(ids_after(items, i, no_calls(), policy), None, name),
        0 <= r.1 < i,
        is_call(items_blocks(items, no_calls(), policy)[r.1], r.0),
{
    let content = items_blocks(items, no_calls(), policy);
    let ids = ids_after(items, i, no_calls(), policy);
    law_response_takes_the_oldest_call(ids, None, name, name);
    let p = answered(ids.pending, name, None);
    lemma_answered(ids.pending, name, None);
    if p == ids.pending.len() {
        lemma_queue_front(ids.pending, name, None);
    }
    let call = ids.pending[p];
    lemma_pending_calls(items, i, policy);
    assert(called_before(content, i, call));
    let j = choose|j: int| 0 <= j < i && is_call(#[trigger] content[j], call);
    (call, j)
}

/// A response in a plain conversation comes out of a hop as it went in.
proof fn lemma_plain_response(items: Seq<Json>, i: int, result: Obj, policy: TranslationPolicy)
    requires
        0 <= i < items.len(),
        all_plain(items, policy),
        call_in(items[i]) is None,
        result_in(items[i]) == Some(result),
    ensures
        hop(
            items[i],
            ids_after(items, i, no_calls(), policy),
            names_after(Map::empty(), items_blocks(items, no_calls(), policy)),
            policy,
        ) == Some(items[i]),
{
    let content = items_blocks(items, no_calls(), policy);
    let names = names_after(Map::empty(), content);
    let ids = ids_after(items, i, no_calls(), policy);
    let name = function_name(result);
    let response = object_under(result, "response"@);
    assert(plain(items, i, policy));
    match id_of(result) {
        Some(id) => {
            let j = choose|j: int| 0 <= j < i && calls_with(#[trigger] items[j], name, id);
            assert(plain(items, j, policy));
            lemma_call_block(items, j, policy);
            lemma_call_is_named(items, j, CallView { name, id }, policy);
            law_response_part_survives(name, response, Some(id), ids, names, policy);
        },
        None => {
            let (call, j) = lemma_oldest_call(items, i, name, policy);
            lemma_call_is_named(items, j, call, policy);
            law_response_part_survives(name, response, None, ids, names, policy);
        },
    }
}

/// An item of a plain conversation comes out of a hop as it went in.
proof fn lemma_plain_item(items: Seq<Json>, i: int, policy: TranslationPolicy)
    requires
        0 <= i < items.len(),
        all_plain(items, policy),
    ensures
        hop(
            items[i],
            ids_after(items, i, no_calls(), policy),
            names_after(Map::empty(), items_blocks(items, no_calls(), policy)),
            policy,
        ) == Some(items[i]),
{
    let ids = ids_after(items, i, no_calls(), policy);
    let names = names_after(Map::empty(), items_blocks(items, no_calls(), policy));
    assert(plain(items, i, policy));
    if let Some(call) = call_in(items[i]) {
        law_call_part_survives(
            function_name(call),
            object_under(call, "args"@),
            id_of(call),
            ids,
            names,
            policy,
        );
    } else if let Some(result) = result_in(items[i]) {
        lemma_plain_response(items, i, result, policy);
    } else {
        assert(item_block(items[i], ids, policy) == item_block(items[i], no_calls(), policy));
    }
}

/// Mapping where nothing is left out.
proof fn lemma_filter_map_all<A, B>(s: Seq<A>, f: spec_fn(A) -> Option<B>, t: Seq<B>)
    requires
        s.len() == t.len(),
        forall|i: int| 0 <= i < s.len() ==> f(#[trigger] s[i]) == Some(t[i]),
    ensures
        s.filter_map(f) == t,
    decreases s.len(),
{
    if s.len() == 0 {
        assert(s.filter_map(f) =~= t);
    } else {
        let n = s.len() - 1;
        let front = s.drop_last();
        assert forall|i: int| 0 <= i < front.len() implies f(#[trigger] front[i]) == Some(
            t.drop_last()[i],
        ) by {
            assert(front[i] == s[i]);
        }
        lemma_filter_map_all(front, f, t.drop_last());
        s.lemma_filter_map_take_succ(f, n);
        assert(s.take(n) =~= front);
        assert(s.take(n + 1) =~= s);
        assert(f(s[n]) == Some(t[n]));
        assert(s.filter_map(f) =~= t);
    }
}

/// A conversation comes out of a hop, part by part, as it went in. Its calls have ids of their
/// own or none, its responses the ids and names of earlier calls, or no id where Gemini pairs
/// them with calls without ids by name and order.
pub proof fn law_conversation_survives(
    contents: Seq<Json>,
    messages: Seq<MessageView>,
    policy: TranslationPolicy,
)
    requires
        contents_messages(contents, contents.len() as int, policy) == Ok::<
            Seq<MessageView>,
            ErrorView,
        >(messages),
        all_plain(all_items(contents), policy),
    ensures
        all_parts(turns_of(messages, call_names(messages), policy)) == all_items(contents),
{
    let items = all_items(contents);
    let names = call_names(messages);
    law_conversation_spans_contents(contents, messages, policy);
    law_turns_keep_all_parts(messages, names, policy);
    let content = all_content(messages);
    let f = |b: BlockView| block_part(b, names, policy);
    assert forall|i: int| 0 <= i < content.len() implies f(#[trigger] content[i]) == Some(
        items[i],
    ) by {
        lemma_plain_item(items, i, policy);
    }
    lemma_filter_map_all(content, f, items);
}

/// Ids that were made here are withheld, and Gemini pairs calls and responses by name and
/// order instead: a conversation whose calls and responses have no ids comes out of a hop,
/// part by part, as it went in. This holds where made ids tell calls apart, so not under a
/// policy that leaves ids empty.
pub proof fn law_conversation_without_ids_survives(
    contents: Seq<Json>,
    messages: Seq<MessageView>,
    policy: TranslationPolicy,
)
    requires
        contents_messages(contents, contents.len() as int, policy) == Ok::<
            Seq<MessageView>,
            ErrorView,
        >(messages),
        all_plain_without_ids(all_items(contents), policy),
        policy.deterministic_ids is GenerateStable,
    ensures
        all_parts(turns_of(messages, call_names(messages), policy)) == all_items(contents),
{
    let items = all_items(contents);
    assert forall|i: int| 0 <= i < items.len() implies #[trigger] plain(items, i, policy) by {
        lemma_plain_without_id(items, i, policy);
    }
    law_conversation_survives(contents, messages, policy);
}

/// What is plain without ids is plain.
proof fn lemma_plain_without_id(items: Seq<Json>, i: int, policy: TranslationPolicy)
    requires
        0 <= i < items.len(),
        all_plain_without_ids(items, policy),
        policy.deterministic_ids is GenerateStable,
    ensures
        plain(items, i, policy),
    decreases i,
{
    assert(plain_without_id(items, i, policy));
    if let Some(call) = call_in(items[i]) {
        lemma_sent_call(function_name(call), object_under(call, "args"@), None);
    } else if let Some(result) = result_in(items[i]) {
        let name = function_name(result);
        lemma_sent_response(name, object_under(result, "response"@), None);
        let (call, j) = lemma_oldest_call(items, i, name, policy);
        lemma_plain_without_id(items, j, policy);
        lemma_call_block(items, j, policy);
        assert(plain_without_id(items, j, policy));
        let first = call_in(items[j])->Some_0;
        lemma_sent_call(function_name(first), object_under(first, "args"@), None);
        law_made_ids_are_withheld(
            ids_after(items, j, no_calls(), policy).counter + 1,
            None,
            policy,
        );
    }
}

} // verus!
