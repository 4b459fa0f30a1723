//! Pairs Gemini's name-keyed function responses with id-keyed tool results.
use vstd::prelude::*;
use vstd::string::*;

use crate::policy::{DeterministicIdPolicy, TranslationPolicy};
use crate::text::{after_prefix, all_digits, is_digits, opt_str, str_eq, strip_prefix};
use crate::util::{stable_id, stable_id_of};

verus! {

/// A call that has no response yet.
#[derive(Debug)]
pub struct PendingCall {
    pub name: String,
    pub id: String,
}

/// A call that has no response yet.
pub struct CallView {
    pub name: Seq<char>,
    pub id: Seq<char>,
}

impl View for PendingCall {
    type V = CallView;

    open spec fn view(&self) -> CallView {
        CallView { name: self.name@, id: self.id@ }
    }
}

/// The calls of a conversation: how many there were, and those without a response, oldest
/// first.
#[derive(Debug)]
pub struct GeminiToolIds {
    pub counter: u128,
    pub pending: Vec<PendingCall>,
}

/// The calls of a conversation.
pub struct IdsView {
    pub counter: nat,
    pub pending: Seq<CallView>,
}

/// The calls without a response.
pub open spec fn calls(pending: Seq<PendingCall>) -> Seq<CallView> {
    pending.map_values(|p: PendingCall| p@)
}

impl View for GeminiToolIds {
    type V = IdsView;

    open spec fn view(&self) -> IdsView {
        IdsView { counter: self.counter as nat, pending: calls(self.pending@) }
    }
}

/// A conversation without calls.
pub open spec fn no_calls() -> IdsView {
    IdsView { counter: 0, pending: Seq::empty() }
}

impl Default for GeminiToolIds {
    fn default() -> (ids: Self)
        ensures
            ids@ == no_calls(),
    {
        let ids = GeminiToolIds { counter: 0, pending: Vec::new() };
        assert(calls(ids.pending@) =~= Seq::<CallView>::empty());
        ids
    }
}

/// The id that a message gives; an empty one is none.
pub open spec fn given(id: Option<Seq<char>>) -> Option<Seq<char>> {
    match id {
        Some(x) => if x.len() > 0 {
            Some(x)
        } else {
            None
        },
        None => None,
    }
}

fn given_id<'a>(id: Option<&'a str>) -> (r: Option<&'a str>)
    ensures
        opt_str(r) == given(opt_str(id)),
{
    match id {
        Some(x) => if x.is_empty() {
            None
        } else {
            Some(x)
        },
        None => None,
    }
}

/// The id of call number `counter`: the one that Gemini sent, or one that the policy makes.
pub open spec fn issued_id(
    counter: nat,
    id: Option<Seq<char>>,
    policy: TranslationPolicy,
) -> Seq<char> {
    match given(id) {
        Some(x) => x,
        None => match policy.deterministic_ids {
            DeterministicIdPolicy::GenerateStable { prefix } => stable_id_of(prefix@, counter),
            DeterministicIdPolicy::Preserve => Seq::empty(),
        },
    }
}

/// The id of the next call.
pub open spec fn next_id(
    ids: IdsView,
    id: Option<Seq<char>>,
    policy: TranslationPolicy,
) -> Seq<char> {
    issued_id(ids.counter + 1, id, policy)
}

/// The conversation after a call to `name`.
pub open spec fn after_call(
    ids: IdsView,
    id: Option<Seq<char>>,
    name: Seq<char>,
    policy: TranslationPolicy,
) -> IdsView {
    IdsView {
        counter: ids.counter + 1,
        pending: ids.pending.push(CallView { name, id: next_id(ids, id, policy) }),
    }
}

/// Whether a response that names `name`, and `id` where it gives one, answers `call`.
pub open spec fn answers(call: CallView, name: Seq<char>, id: Option<Seq<char>>) -> bool {
    call.name == name && (id matches Some(x) ==> call.id == x)
}

/// The index of the oldest call that a response answers, or the number of calls where it
/// answers none.
pub open spec fn answered(pending: Seq<CallView>, name: Seq<char>, id: Option<Seq<char>>) -> int
    decreases pending.len(),
{
    if pending.len() == 0 || answers(pending[0], name, id) {
        0
    } else {
        1 + answered(pending.skip(1), name, id)
    }
}

/// The id that a response stands for: its own, else that of the oldest unanswered call to
/// `name`, else the name.
pub open spec fn answer_id(ids: IdsView, id: Option<Seq<char>>, name: Seq<char>) -> Seq<char> {
    match given(id) {
        Some(x) => x,
        None => {
            let i = answered(ids.pending, name, None);
            if i < ids.pending.len() {
                ids.pending[i].id
            } else {
                name
            }
        },
    }
}

/// The conversation after a response: the call that it answers is no longer pending.
pub open spec fn after_answer(ids: IdsView, id: Option<Seq<char>>, name: Seq<char>) -> IdsView {
    let i = answered(ids.pending, name, given(id));
    if i < ids.pending.len() {
        IdsView { counter: ids.counter, pending: ids.pending.remove(i) }
    } else {
        ids
    }
}

pub proof fn lemma_answered_none(pending: Seq<CallView>, name: Seq<char>, id: Option<Seq<char>>)
    requires
        forall|j: int| 0 <= j < pending.len() ==> !answers(#[trigger] pending[j], name, id),
    ensures
        answered(pending, name, id) == pending.len(),
    decreases pending.len(),
{
    if pending.len() > 0 {
        assert forall|j: int| 0 <= j < pending.skip(1).len() implies !answers(
            #[trigger] pending.skip(1)[j],
            name,
            id,
        ) by {
            assert(pending.skip(1)[j] == pending[j + 1]);
        }
        lemma_answered_none(pending.skip(1), name, id);
    }
}

pub proof fn lemma_answered_at(
    pending: Seq<CallView>,
    name: Seq<char>,
    id: Option<Seq<char>>,
    i: int,
)
    requires
        0 <= i < pending.len(),
        answers(pending[i], name, id),
        forall|j: int| 0 <= j < i ==> !answers(#[trigger] pending[j], name, id),
    ensures
        answered(pending, name, id) == i,
    decreases pending.len(),
{
    if i > 0 {
        assert forall|j: int| 0 <= j < i - 1 implies !answers(
            #[trigger] pending.skip(1)[j],
            name,
            id,
        ) by {
            assert(pending.skip(1)[j] == pending[j + 1]);
        }
        lemma_answered_at(pending.skip(1), name, id, i - 1);
    }
}

pub proof fn lemma_answered(pending: Seq<CallView>, name: Seq<char>, id: Option<Seq<char>>)
    ensures
        0 <= answered(pending, name, id) <= pending.len(),
        answered(pending, name, id) < pending.len() ==> answers(
            pending[answered(pending, name, id)],
            name,
            id,
        ),
        forall|j: int|
            0 <= j < answered(pending, name, id) ==> !answers(#[trigger] pending[j], name, id),
    decreases pending.len(),
{
    if pending.len() > 0 && !answers(pending[0], name, id) {
        lemma_answered(pending.skip(1), name, id);
        assert forall|j: int| 0 <= j < answered(pending, name, id) implies !answers(
            #[trigger] pending[j],
            name,
            id,
        ) by {
            if j > 0 {
                assert(pending.skip(1)[j - 1] == pending[j]);
            }
        }
    }
}

impl GeminiToolIds {
    fn find(&self, name: &str, id: Option<&str>) -> (i: usize)
        ensures
            i == answered(self@.pending, name@, opt_str(id)),
            i <= self.pending@.len(),
    {
        let mut i: usize = 0;
        while i < self.pending.len()
            invariant
                i <= self.pending@.len(),
                forall|j: int|
                    0 <= j < i ==> !answers(#[trigger] self@.pending[j], name@, opt_str(id)),
            decreases self.pending@.len() - i,
        {
            let call = &self.pending[i];
            assert(self@.pending[i as int] == call@);
            let same_id = match id {
                Some(x) => str_eq(call.id.as_str(), x),
                None => true,
            };
            if same_id && str_eq(call.name.as_str(), name) {
                proof {
                    lemma_answered_at(self@.pending, name@, opt_str(id), i as int);
                }
                return i;
            }
            i += 1;
        }
        proof {
            lemma_answered_none(self@.pending, name@, opt_str(id));
        }
        i
    }

    /// Issues the id of a call: keeps the one that Gemini sent and makes one only where it
    /// is absent.
    pub fn call_id(&mut self, id: Option<&str>, name: &str, policy: &TranslationPolicy) -> (issued:
        String)
        requires
            old(self).counter < u128::MAX,
        ensures
            issued@ == next_id(old(self)@, opt_str(id), *policy),
            final(self)@ == after_call(old(self)@, opt_str(id), name@, *policy),
    {
        self.counter += 1;
        let issued = match given_id(id) {
            Some(x) => x.to_owned(),
            None => match &policy.deterministic_ids {
                DeterministicIdPolicy::GenerateStable { prefix } => stable_id(
                    prefix.as_str(),
                    self.counter,
                ),
                DeterministicIdPolicy::Preserve => String::new(),
            },
        };
        self.pending.push(PendingCall { name: name.to_owned(), id: issued.clone() });
        assert(self@.pending =~= after_call(old(self)@, opt_str(id), name@, *policy).pending);
        issued
    }

    /// Takes the id of a response: its own where it gives one, else that of the oldest
    /// unanswered call to that name.
    pub fn result_id(&mut self, id: Option<&str>, name: &str) -> (taken: String)
        ensures
            taken@ == answer_id(old(self)@, opt_str(id), name@),
            final(self)@ == after_answer(old(self)@, opt_str(id), name@),
    {
        let own = given_id(id);
        let i: usize = self.find(name, own);
        let ghost before = self.pending@;
        if i < self.pending.len() {
            let call = self.pending.remove(i);
            assert(calls(self.pending@) =~= calls(before).remove(i as int));
            match own {
                Some(x) => x.to_owned(),
                None => call.id,
            }
        } else {
            match own {
                Some(x) => x.to_owned(),
                None => name.to_owned(),
            }
        }
    }
}

/// Whether `id` has the shape of an id that is made from `prefix`.
pub open spec fn stable_shape(id: Seq<char>, prefix: Seq<char>) -> bool {
    match after_prefix(id, prefix) {
        Some(rest) => match after_prefix(rest, "_"@) {
            Some(counter) => counter.len() >= 8 && all_digits(counter),
            None => false,
        },
        None => false,
    }
}

/// Whether `id` has the shape of an id that the policy makes.
pub open spec fn synthesized(id: Seq<char>, policy: TranslationPolicy) -> bool {
    match policy.deterministic_ids {
        DeterministicIdPolicy::GenerateStable { prefix } => stable_shape(id, prefix@),
        DeterministicIdPolicy::Preserve => false,
    }
}

/// The id to put on the wire, where there is one.
pub open spec fn wire_id(id: Seq<char>, policy: TranslationPolicy) -> Option<Seq<char>> {
    if id.len() > 0 && !synthesized(id, policy) {
        Some(id)
    } else {
        None
    }
}

/// Returns the id to put on the Gemini wire. An id that was made here was never issued by
/// any provider, so it is withheld and Gemini pairs the call and its response by name and
/// order instead. A provider id of that very shape is withheld too.
pub fn gemini_wire_id<'a>(id: &'a str, policy: &TranslationPolicy) -> (wire: Option<&'a str>)
    ensures
        opt_str(wire) == wire_id(id@, *policy),
{
    let made = match &policy.deterministic_ids {
        DeterministicIdPolicy::GenerateStable { prefix } => match strip_prefix(
            id,
            prefix.as_str(),
        ) {
            Some(rest) => match strip_prefix(rest, "_") {
                Some(counter) => counter.unicode_len() >= 8 && is_digits(counter),
                None => false,
            },
            None => false,
        },
        DeterministicIdPolicy::Preserve => false,
    };
    if !id.is_empty() && !made {
        Some(id)
    } else {
        None
    }
}

} // verus!
