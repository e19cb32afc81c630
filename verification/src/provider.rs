//! The provider boundary: a pluggable backend that answers variable
//! lookups, and the two-value kind that separates backends fixed for the
//! process lifetime from those whose answers may vary at runtime.

use vstd::prelude::*;
use crate::errors::ProviderError;
use crate::key::Key;

verus! {

/// The dynamism of a provider. `Static` data is fixed for the lifetime of
/// the process and may be queried during pre-flight validation; `Dynamic`
/// data may depend on runtime context, so validation assumes it available
/// and never queries it.
#[derive(Clone, Copy, Debug, PartialEq, Eq, Structural)]
pub enum ProviderVariableKind {
    Static,
    Dynamic,
}

impl Default for ProviderVariableKind {
    /// A provider that does not say is taken as `Dynamic`, the cautious
    /// reading: it is never queried before its time.
    fn default() -> (r: Self)
        ensures
            r == ProviderVariableKind::Dynamic,
    {
        ProviderVariableKind::Dynamic
    }
}

/// The view of an optional owned string.
pub open spec fn opt_view(v: Option<String>) -> Option<Seq<char>> {
    match v {
        Some(s) => Some(s@),
        None => None,
    }
}

/// A configuration provider. Implementations are supplied by the hosting
/// application (environment, files, secret stores, test doubles); the
/// resolver only relies on what the contracts below state.
///
/// `answer` is the provider's table of answers at the specification level.
/// For a `Static` provider `get` is pinned to it; a `Dynamic` provider's
/// answers may depend on runtime context, so nothing is promised of them.
/// The two specification members carry defaults so that a backend written
/// outside the verifier compiles as it is; such a backend's contracts hold
/// only as far as its author keeps them.
pub trait Provider: Sized {
    /// The provider's kind, at the specification level. The default is
    /// `Dynamic`, the kind of which least is assumed.
    open spec fn kind_spec(&self) -> ProviderVariableKind {
        ProviderVariableKind::Dynamic
    }

    /// The provider's answer table, at the specification level. The
    /// default says the provider answers nothing.
    open spec fn answer(&self, key: Seq<char>) -> Option<Seq<char>> {
        None
    }

    /// Reports whether the provider is `Static` or `Dynamic`.
    fn kind(&self) -> (k: ProviderVariableKind)
        ensures
            k == self.kind_spec(),
    ;

    /// Returns the value at `key`, if the backend has one. A backend
    /// failure is reported as an error, never as absence.
    fn get(&self, key: &Key) -> (r: Result<Option<String>, ProviderError>)
        ensures
            (r matches Ok(v) ==> (self.kind_spec() == ProviderVariableKind::Static ==> opt_view(v)
                == self.answer(key@))),
    ;
}

/// The answer of the first provider in `ps` that has one, in order.
pub open spec fn first_answer<P: Provider>(ps: Seq<P>, key: Seq<char>) -> Option<Seq<char>>
    decreases ps.len(),
{
    if ps.len() == 0 {
        None
    } else {
        match ps[0].answer(key) {
            Some(v) => Some(v),
            None => first_answer(ps.drop_first(), key),
        }
    }
}

/// True when some provider in `ps` is `Dynamic`.
pub open spec fn has_dynamic<P: Provider>(ps: Seq<P>) -> bool {
    exists|i: int| 0 <= i < ps.len() && (#[trigger] ps[i].kind_spec()) is Dynamic
}

/// True when every provider in `ps` is `Static`.
pub open spec fn all_static<P: Provider>(ps: Seq<P>) -> bool {
    forall|i: int| 0 <= i < ps.len() ==> (#[trigger] ps[i].kind_spec()) is Static
}

/// True when some `Static` provider in `ps` has an answer at `key`.
pub open spec fn static_has<P: Provider>(ps: Seq<P>, key: Seq<char>) -> bool {
    exists|i: int|
        0 <= i < ps.len() && (#[trigger] ps[i].kind_spec()) is Static && ps[i].answer(key) is Some
}

/// If no provider among the first `upto` has an answer, the chain's answer
/// is decided by the rest.
pub proof fn lemma_first_answer_skip<P: Provider>(ps: Seq<P>, key: Seq<char>, upto: int)
    requires
        0 <= upto <= ps.len(),
        forall|j: int| 0 <= j < upto ==> (#[trigger] ps[j].answer(key)) is None,
    ensures
        first_answer(ps, key) == first_answer(ps.skip(upto), key),
    decreases upto,
{
    if upto > 0 {
        assert forall|j: int| 0 <= j < upto - 1 implies (#[trigger] ps.drop_first()[j].answer(
            key,
        )) is None by {
            assert(ps.drop_first()[j] == ps[j + 1]);
        }
        lemma_first_answer_skip(ps.drop_first(), key, upto - 1);
        assert(ps.drop_first().skip(upto - 1) =~= ps.skip(upto));
        assert(ps[0].answer(key) is None);
        assert(first_answer(ps, key) == first_answer(ps.drop_first(), key));
    } else {
        assert(ps.skip(0) =~= ps);
    }
}

/// Registration order decides resolution. In a chain of two providers,
/// when only the second has the key its value is the chain's answer, and
/// when the first has the key its value wins regardless of the second.
pub proof fn lemma_provider_order<P: Provider>(ps: Seq<P>, key: Seq<char>)
    requires
        ps.len() == 2,
    ensures
        ps[0].answer(key) is None ==> first_answer(ps, key) == ps[1].answer(key),
        ps[0].answer(key) is Some ==> first_answer(ps, key) == ps[0].answer(key),
{
    let tail = ps.drop_first();
    assert(tail[0] == ps[1]);
    assert(tail.drop_first() =~= Seq::<P>::empty());
    assert(first_answer(tail.drop_first(), key) is None);
    assert(first_answer(tail, key) == ps[1].answer(key));
}

/// In an all-static chain where no static provider has an answer, the chain
/// as a whole has none.
pub proof fn lemma_all_none_first_answer<P: Provider>(ps: Seq<P>, key: Seq<char>)
    requires
        forall|j: int| 0 <= j < ps.len() ==> (#[trigger] ps[j].answer(key)) is None,
    ensures
        first_answer(ps, key) is None,
{
    lemma_first_answer_skip(ps, key, ps.len() as int);
    assert(ps.skip(ps.len() as int) =~= Seq::<P>::empty());
}

} // verus!
