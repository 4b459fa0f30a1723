//! Laws on the ids of calls and responses.
use vstd::prelude::*;
use vstd::seq_lib::*;

use crate::gemini::decode::{function_name, ids_after, item_block};
use crate::gemini::encode::lemma_filter_map_split;
use crate::gemini::ids::{
    after_answer, after_call, answer_id, answered, answers, given, issued_id, lemma_answered,
    next_id, stable_shape, synthesized, wire_id, CallView, IdsView,
};
use crate::json::{field, object_in, string_in, Json, Obj};
use crate::llm::BlockView;
use crate::policy::{DeterministicIdPolicy, TranslationPolicy};
use crate::text::{
    decimal, digit, digits_value, is_digit, lemma_decimal, lemma_padded_decimal, padded_decimal,
};
use crate::util::stable_id_of;

verus! {

/// The id of a call to `name`.
pub open spec fn id_for(call: CallView, name: Seq<char>) -> Option<Seq<char>> {
    if call.name == name {
        Some(call.id)
    } else {
        None
    }
}

/// The ids of the calls to `name` that have no response yet, oldest first.
pub open spec fn queue(pending: Seq<CallView>, name: Seq<char>) -> Seq<Seq<char>> {
    pending.filter_map(|c: CallView| id_for(c, name))
}

/// `ids` without the first `id`.
pub open spec fn without_first(ids: Seq<Seq<char>>, id: Seq<char>) -> Seq<Seq<char>>
    decreases ids.len(),
{
    if ids.len() == 0 {
        ids
    } else if ids[0] == id {
        ids.skip(1)
    } else {
        seq![ids[0]] + without_first(ids.skip(1), id)
    }
}

proof fn lemma_queue_pushed(pending: Seq<CallView>, call: CallView, name: Seq<char>)
    ensures
        queue(pending.push(call), name) == (if call.name == name {
            queue(pending, name).push(call.id)
        } else {
            queue(pending, name)
        }),
{
    let f = |c: CallView| id_for(c, name);
    let n = pending.len() as int;
    pending.push(call).lemma_filter_map_take_succ(f, n);
    assert(pending.push(call).take(n) =~= pending);
    assert(pending.push(call).take(n + 1) =~= pending.push(call));
    assert(queue(pending.push(call), name) =~= if call.name == name {
        queue(pending, name).push(call.id)
    } else {
        queue(pending, name)
    });
}

proof fn lemma_queue_split(pending: Seq<CallView>, i: int, name: Seq<char>)
    requires
        0 <= i < pending.len(),
    ensures
        queue(pending, name) == queue(pending.take(i), name) + (if pending[i].name == name {
            seq![pending[i].id]
        } else {
            seq![]
        }) + queue(pending.skip(i + 1), name),
        queue(pending.remove(i), name) == queue(pending.take(i), name) + queue(
            pending.skip(i + 1),
            name,
        ),
{
    let f = |c: CallView| id_for(c, name);
    lemma_filter_map_split(pending, f, i + 1);
    assert(pending.take(i + 1) =~= pending.take(i).push(pending[i]));
    lemma_queue_pushed(pending.take(i), pending[i], name);
    lemma_filter_map_split(pending.remove(i), f, i);
    assert(pending.remove(i).take(i) =~= pending.take(i));
    assert(pending.remove(i).skip(i) =~= pending.skip(i + 1));
    let now = if pending[i].name == name {
        seq![pending[i].id]
    } else {
        seq![]
    };
    assert(queue(pending, name) =~= queue(pending.take(i), name) + now + queue(
        pending.skip(i + 1),
        name,
    ));
}

/// What the calls to `name` in front of the first one that a response answers have in common.
pub proof fn lemma_queue_front(pending: Seq<CallView>, name: Seq<char>, id: Option<Seq<char>>)
    requires
        forall|j: int| 0 <= j < pending.len() ==> !answers(#[trigger] pending[j], name, id),
    ensures
        id is None ==> queue(pending, name).len() == 0,
        id matches Some(x) ==> !queue(pending, name).contains(x),
    decreases pending.len(),
{
    if pending.len() > 0 {
        let front = pending.drop_last();
        assert forall|j: int| 0 <= j < front.len() implies !answers(
            #[trigger] front[j],
            name,
            id,
        ) by {
            assert(front[j] == pending[j]);
        }
        lemma_queue_front(front, name, id);
        assert(front.push(pending.last()) =~= pending);
        lemma_queue_pushed(front, pending.last(), name);
        assert(!answers(pending[pending.len() - 1], name, id));
        if let Some(x) = id {
            assert forall|j: int| 0 <= j < queue(pending, name).len() implies queue(
                pending,
                name,
            )[j] != x by {
                if j < queue(front, name).len() {
                    assert(queue(front, name)[j] == queue(pending, name)[j]);
                }
            }
        }
    }
}

proof fn lemma_without_first(a: Seq<Seq<char>>, id: Seq<char>, b: Seq<Seq<char>>)
    requires
        !a.contains(id),
    ensures
        without_first(a + seq![id] + b, id) == a + b,
    decreases a.len(),
{
    let whole = a + seq![id] + b;
    if a.len() == 0 {
        assert(whole[0] == id);
        assert(whole.skip(1) =~= a + b);
    } else {
        assert(whole[0] == a[0] && a.contains(a[0]));
        assert(whole.skip(1) =~= a.skip(1) + seq![id] + b);
        assert forall|j: int| 0 <= j < a.skip(1).len() implies a.skip(1)[j] != id by {
            assert(a[j + 1] == a.skip(1)[j] && a.contains(a[j + 1]));
        }
        lemma_without_first(a.skip(1), id, b);
        assert(without_first(whole, id) =~= a + b);
    }
}

proof fn lemma_without_first_absent(a: Seq<Seq<char>>, id: Seq<char>)
    requires
        !a.contains(id),
    ensures
        without_first(a, id) == a,
    decreases a.len(),
{
    if a.len() > 0 {
        assert(a.contains(a[0]));
        assert forall|j: int| 0 <= j < a.skip(1).len() implies a.skip(1)[j] != id by {
            assert(a[j + 1] == a.skip(1)[j] && a.contains(a[j + 1]));
        }
        lemma_without_first_absent(a.skip(1), id);
        assert(without_first(a, id) =~= a);
    }
}

/// A call is queued behind the calls to its name that have no response yet. The calls to
/// other names are not touched.
pub proof fn law_call_is_queued(
    ids: IdsView,
    id: Option<Seq<char>>,
    name: Seq<char>,
    other: Seq<char>,
    policy: TranslationPolicy,
)
    ensures
        queue(after_call(ids, id, name, policy).pending, name) == queue(ids.pending, name).push(
            next_id(ids, id, policy),
        ),
        other != name ==> queue(after_call(ids, id, name, policy).pending, other) == queue(
            ids.pending,
            other,
        ),
{
    let call = CallView { name, id: next_id(ids, id, policy) };
    lemma_queue_pushed(ids.pending, call, name);
    lemma_queue_pushed(ids.pending, call, other);
}

/// A response without an id takes the oldest call to its name that has no response yet, or
/// the name where there is none. The calls to other names are not touched.
pub proof fn law_response_takes_the_oldest_call(
    ids: IdsView,
    id: Option<Seq<char>>,
    name: Seq<char>,
    other: Seq<char>,
)
    requires
        id matches Some(x) ==> x.len() == 0,
    ensures
        after_answer(ids, id, name).counter == ids.counter,
        ({
            let before = queue(ids.pending, name);
            let after = queue(after_answer(ids, id, name).pending, name);
            if before.len() > 0 {
                answer_id(ids, id, name) == before[0] && after == before.skip(1)
            } else {
                answer_id(ids, id, name) == name && after_answer(ids, id, name) == ids
            }
        }),
        other != name ==> queue(after_answer(ids, id, name).pending, other) == queue(
            ids.pending,
            other,
        ),
{
    let pending = ids.pending;
    let i = answered(pending, name, None);
    lemma_answered(pending, name, None);
    if i < pending.len() {
        lemma_queue_split(pending, i, name);
        lemma_queue_split(pending, i, other);
        let front = pending.take(i);
        assert forall|j: int| 0 <= j < front.len() implies !answers(
            #[trigger] front[j],
            name,
            None,
        ) by {
            assert(front[j] == pending[j]);
        }
        lemma_queue_front(front, name, None);
        assert(queue(pending, name)[0] == pending[i].id);
        assert(queue(after_answer(ids, id, name).pending, name) =~= queue(pending, name).skip(1));
        if other != name {
            assert(queue(after_answer(ids, id, name).pending, other) =~= queue(pending, other));
        }
    } else {
        lemma_queue_front(pending, name, None);
    }
}

/// A response with an id keeps it and answers the oldest call to its name with that id. The
/// other calls are not touched.
pub proof fn law_response_keeps_its_id(
    ids: IdsView,
    id: Seq<char>,
    name: Seq<char>,
    other: Seq<char>,
)
    requires
        id.len() > 0,
    ensures
        answer_id(ids, Some(id), name) == id,
        after_answer(ids, Some(id), name).counter == ids.counter,
        queue(after_answer(ids, Some(id), name).pending, name) == without_first(
            queue(ids.pending, name),
            id,
        ),
        other != name ==> queue(after_answer(ids, Some(id), name).pending, other) == queue(
            ids.pending,
            other,
        ),
{
    let pending = ids.pending;
    let i = answered(pending, name, Some(id));
    lemma_answered(pending, name, Some(id));
    if i < pending.len() {
        lemma_queue_split(pending, i, name);
        lemma_queue_split(pending, i, other);
        let front = pending.take(i);
        assert forall|j: int| 0 <= j < front.len() implies !answers(
            #[trigger] front[j],
            name,
            Some(id),
        ) by {
            assert(front[j] == pending[j]);
        }
        lemma_queue_front(front, name, Some(id));
        lemma_without_first(queue(front, name), id, queue(pending.skip(i + 1), name));
        if other != name {
            assert(queue(after_answer(ids, Some(id), name).pending, other) =~= queue(
                pending,
                other,
            ));
        }
    } else {
        lemma_queue_front(pending, name, Some(id));
        lemma_without_first_absent(queue(pending, name), id);
    }
}

/// The call in an item of a `parts` array.
pub open spec fn call_in(item: Json) -> Option<Obj> {
    if string_in(field(item, "text"@)) is Some {
        None
    } else {
        object_in(field(item, "functionCall"@))
    }
}

/// The function response in an item of a `parts` array.
pub open spec fn result_in(item: Json) -> Option<Obj> {
    if string_in(field(item, "text"@)) is Some || object_in(field(item, "functionCall"@)) is Some {
        None
    } else {
        object_in(field(item, "functionResponse"@))
    }
}

/// The ids of the calls to `name` among the blocks of the first `n` items, in order.
pub open spec fn call_ids(
    items: Seq<Json>,
    n: int,
    name: Seq<char>,
    ids: IdsView,
    policy: TranslationPolicy,
) -> Seq<Seq<char>>
    decreases n,
{
    if n <= 0 {
        Seq::empty()
    } else {
        let before = call_ids(items, n - 1, name, ids, policy);
        let b = item_block(items[n - 1], ids_after(items, n - 1, ids, policy), policy);
        match (call_in(items[n - 1]), b) {
            (Some(call), BlockView::ToolCall { id, .. }) => if function_name(call) == name {
                before.push(id)
            } else {
                before
            },
            _ => before,
        }
    }
}

/// The ids that the responses to `name` among the blocks of the first `n` items stand for, in
/// order.
pub open spec fn result_ids(
    items: Seq<Json>,
    n: int,
    name: Seq<char>,
    ids: IdsView,
    policy: TranslationPolicy,
) -> Seq<Seq<char>>
    decreases n,
{
    if n <= 0 {
        Seq::empty()
    } else {
        let before = result_ids(items, n - 1, name, ids, policy);
        let b = item_block(items[n - 1], ids_after(items, n - 1, ids, policy), policy);
        match (result_in(items[n - 1]), b) {
            (Some(result), BlockView::ToolResult { tool_call_id, .. }) => if function_name(result)
                == name {
                before.push(tool_call_id)
            } else {
                before
            },
            _ => before,
        }
    }
}

/// Whether no response to `name` among `items` gives an id.
pub open spec fn no_result_id(items: Seq<Json>, name: Seq<char>) -> bool {
    forall|i: int|
        0 <= i < items.len() ==> (result_in(#[trigger] items[i]) matches Some(result)
            ==> function_name(result) == name ==> given(string_in(result.get("id"@))) is None)
}

/// Whether every response to `name` among `items` comes after a call of its own.
pub open spec fn calls_first(
    items: Seq<Json>,
    name: Seq<char>,
    ids: IdsView,
    policy: TranslationPolicy,
) -> bool {
    forall|n: int|
        0 <= n <= items.len() ==> (#[trigger] result_ids(items, n, name, ids, policy)).len()
            <= call_ids(items, n, name, ids, policy).len()
}

proof fn lemma_pairing(
    items: Seq<Json>,
    n: int,
    name: Seq<char>,
    ids: IdsView,
    policy: TranslationPolicy,
)
    requires
        0 <= n <= items.len(),
        no_result_id(items, name),
        calls_first(items, name, ids, policy),
        queue(ids.pending, name).len() == 0,
    ensures
        ({
            let calls = call_ids(items, n, name, ids, policy);
            let results = result_ids(items, n, name, ids, policy);
            &&& results == calls.take(results.len() as int)
            &&& queue(ids_after(items, n, ids, policy).pending, name) == calls.skip(
                results.len() as int,
            )
        }),
    decreases n,
{
    let calls = call_ids(items, n, name, ids, policy);
    let results = result_ids(items, n, name, ids, policy);
    if n == 0 {
        assert(results =~= calls.take(0));
        assert(queue(ids.pending, name) =~= calls.skip(0));
    } else {
        lemma_pairing(items, n - 1, name, ids, policy);
        let item = items[n - 1];
        let before = ids_after(items, n - 1, ids, policy);
        let old_calls = call_ids(items, n - 1, name, ids, policy);
        let old_results = result_ids(items, n - 1, name, ids, policy);
        let k = old_results.len() as int;
        assert(result_ids(items, n, name, ids, policy).len() <= calls.len());
        if let Some(call) = call_in(item) {
            let id = string_in(call.get("id"@));
            law_call_is_queued(before, id, function_name(call), name, policy);
            assert(results == old_results);
            assert(results =~= calls.take(k));
            assert(queue(ids_after(items, n, ids, policy).pending, name) =~= calls.skip(k));
        } else if let Some(result) = result_in(item) {
            let id = string_in(result.get("id"@));
            if function_name(result) == name {
                law_response_takes_the_oldest_call(before, id, name, name);
                assert(results.len() == k + 1);
                assert(old_calls.skip(k)[0] == old_calls[k]);
                assert(results =~= calls.take(k + 1));
                assert(queue(ids_after(items, n, ids, policy).pending, name) =~= calls.skip(k + 1));
            } else {
                match given(id) {
                    Some(x) => law_response_keeps_its_id(before, x, function_name(result), name),
                    None => law_response_takes_the_oldest_call(
                        before,
                        id,
                        function_name(result),
                        name,
                    ),
                }
            }
        }
    }
}

/// Parallel calls to one name pair in order: where the responses to a name give no ids and
/// none comes before its call, the first response stands for the first call to that name, the
/// second for the second, and so on.
pub proof fn law_parallel_calls_pair_in_order(
    items: Seq<Json>,
    name: Seq<char>,
    ids: IdsView,
    policy: TranslationPolicy,
)
    requires
        no_result_id(items, name),
        calls_first(items, name, ids, policy),
        queue(ids.pending, name).len() == 0,
    ensures
        ({
            let calls = call_ids(items, items.len() as int, name, ids, policy);
            let results = result_ids(items, items.len() as int, name, ids, policy);
            results == calls.take(results.len() as int)
        }),
{
    lemma_pairing(items, items.len() as int, name, ids, policy);
}

/// Different calls get different made ids.
pub proof fn law_made_ids_differ(prefix: Seq<char>, first: nat, second: nat)
    requires
        first != second,
    ensures
        stable_id_of(prefix, first) != stable_id_of(prefix, second),
{
    reveal_strlit("_");
    lemma_padded_decimal(first, 8);
    lemma_padded_decimal(second, 8);
    let n = prefix.len() as int + 1;
    assert(stable_id_of(prefix, first).skip(n) =~= padded_decimal(first, 8));
    assert(stable_id_of(prefix, second).skip(n) =~= padded_decimal(second, 8));
}

/// An id that was made here is never put on the wire.
pub proof fn law_made_ids_are_withheld(
    counter: nat,
    id: Option<Seq<char>>,
    policy: TranslationPolicy,
)
    requires
        id matches Some(x) ==> x.len() == 0,
    ensures
        wire_id(issued_id(counter, id, policy), policy) is None,
{
    match policy.deterministic_ids {
        DeterministicIdPolicy::GenerateStable { prefix } => {
            reveal_strlit("_");
            lemma_padded_decimal(counter, 8);
            let made = stable_id_of(prefix@, counter);
            let rest = made.skip(prefix@.len() as int);
            assert(prefix@.is_prefix_of(made)) by {
                assert(made.subrange(0, prefix@.len() as int) =~= prefix@);
            }
            assert(rest =~= "_"@ + padded_decimal(counter, 8));
            assert("_"@.is_prefix_of(rest)) by {
                assert(rest.subrange(0, 1) =~= "_"@);
            }
            assert(rest.skip(1) =~= padded_decimal(counter, 8));
            assert(stable_shape(made, prefix@));
        },
        DeterministicIdPolicy::Preserve => {},
    }
}

/// A made id is the prefix, an underscore and at least eight digits that say the number of the
/// call, exactly eight where that is enough.
pub proof fn law_made_id_says_its_number(prefix: Seq<char>, counter: nat)
    ensures
        ({
            let id = stable_id_of(prefix, counter);
            let n = prefix.len() as int;
            &&& id.len() >= n + 9
            &&& id.take(n) == prefix
            &&& id[n] == '_'
            &&& forall|k: int| n < k < id.len() ==> '0' <= #[trigger] id[k] <= '9'
            &&& digits_value(id.skip(n + 1)) == counter
            &&& id.len() > n + 9 ==> id[n + 1] != '0'
        }),
{
    reveal_strlit("_");
    lemma_padded_decimal(counter, 8);
    lemma_no_leading_zero(counter);
    let id = stable_id_of(prefix, counter);
    let n = prefix.len() as int;
    assert(id.take(n) =~= prefix);
    assert(id.skip(n + 1) =~= padded_decimal(counter, 8));
    assert forall|k: int| n < k < id.len() implies '0' <= #[trigger] id[k] <= '9' by {
        assert(id[k] == padded_decimal(counter, 8)[k - n - 1]);
        assert(is_digit(padded_decimal(counter, 8)[k - n - 1]));
    }
    if id.len() > n + 9 {
        assert(id[n + 1] == padded_decimal(counter, 8)[0]);
    }
}

/// Decimals have no leading zero.
pub proof fn lemma_no_leading_zero(n: nat)
    ensures
        decimal(n).len() > 1 ==> decimal(n)[0] != '0',
    decreases n,
{
    if n >= 10 {
        lemma_decimal(n / 10);
        lemma_no_leading_zero(n / 10);
        if n / 10 < 10 {
            assert(decimal(n / 10) =~= seq![digit(n / 10)]);
        } else {
            lemma_decimal(n / 10 / 10);
        }
        assert(decimal(n)[0] == decimal(n / 10)[0]);
    }
}

/// Whether `id` is `prefix`, an underscore and at least eight digits.
pub open spec fn looks_made(id: Seq<char>, prefix: Seq<char>) -> bool {
    let n = prefix.len() as int;
    &&& id.len() >= n + 9
    &&& id.take(n) == prefix
    &&& id[n] == '_'
    &&& forall|k: int| n < k < id.len() ==> '0' <= #[trigger] id[k] <= '9'
}

/// An id is withheld where it is empty or looks like one that the policy makes, and goes on the
/// wire as it is everywhere else.
pub proof fn law_which_ids_are_withheld(id: Seq<char>, policy: TranslationPolicy)
    ensures
        wire_id(id, policy) == (if id.len() == 0 {
            None
        } else if policy.deterministic_ids matches DeterministicIdPolicy::GenerateStable { prefix }
            && looks_made(id, prefix@) {
            None
        } else {
            Some(id)
        }),
{
    reveal_strlit("_");
    assert("_"@.len() == 1);
    if let DeterministicIdPolicy::GenerateStable { prefix } = policy.deterministic_ids {
        let n = prefix@.len() as int;
        let rest = id.skip(n);
        if looks_made(id, prefix@) {
            assert(prefix@.is_prefix_of(id)) by {
                assert(id.subrange(0, n) =~= id.take(n));
            }
            assert("_"@.is_prefix_of(rest)) by {
                assert(rest.subrange(0, 1) =~= "_"@);
            }
            assert forall|k: int| 0 <= k < rest.skip(1).len() implies is_digit(
                #[trigger] rest.skip(1)[k],
            ) by {
                assert(rest.skip(1)[k] == id[n + 1 + k]);
            }
        }
        if stable_shape(id, prefix@) {
            assert(id.take(n) =~= prefix@) by {
                assert(id.subrange(0, n) =~= prefix@);
            }
            assert(rest.subrange(0, 1) =~= "_"@);
            assert(rest[0] == rest.subrange(0, 1)[0]);
            assert(id[n] == rest[0]);
            assert forall|k: int| n < k < id.len() implies '0' <= #[trigger] id[k] <= '9' by {
                assert(id[k] == rest.skip(1)[k - n - 1]);
                assert(is_digit(rest.skip(1)[k - n - 1]));
            }
        }
    }
}

/// An id that Gemini sent goes back on the wire as it is, unless it has the very shape of an
/// id that the policy makes.
pub proof fn law_sent_ids_are_kept(
    counter: nat,
    id: Seq<char>,
    policy: TranslationPolicy,
)
    requires
        id.len() > 0,
        !synthesized(id, policy),
    ensures
        issued_id(counter, Some(id), policy) == id,
        wire_id(issued_id(counter, Some(id), policy), policy) == Some(id),
{
}

} // verus!
