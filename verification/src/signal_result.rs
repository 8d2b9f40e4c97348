//! Tri-state aggregation of reactive reads.
//!
//! A reactive source is read as "not yet produced", "produced with a value"
//! or "produced with an error". `SignalResult` represents one such read, or
//! the reconciliation of several: `Loading` while any source is still
//! pending, `Ready` with an ordered positional bundle of every value once
//! all have succeeded, and `Failed` with the ordered accumulated error
//! list otherwise.
//!
//! The combination rule is a strict three-way lattice: `Loading` absorbs
//! everything (waiting wins over reporting a partial failure), `Failed`
//! absorbs `Ready` (the successful value is discarded), and two `Failed`s
//! concatenate their error lists in combination order.

use vstd::prelude::*;

use crate::errors::AppError;

verus! {

/// The reconciled outcome of one or more reactive reads.
///
/// `T` is the bundle: the value of a single read, or a tuple holding the
/// values of several reads in combination order.
#[derive(Debug)]
pub enum SignalResult<T> {
    /// At least one underlying source has not produced a value yet.
    Loading,
    /// Every underlying source produced a value; the bundle holds them all.
    Ready(T),
    /// No source is pending and at least one failed; the accumulated
    /// domain errors, in combination order.
    Failed(Vec<AppError>),
}

/// The bundle-independent part of a `SignalResult`: which of the three
/// states it is in, and the error list when failed. Two results of
/// different bundle types can be compared through it.
pub ghost enum TriState {
    Loading,
    Ready,
    Failed(Seq<AppError>),
}

/// The accumulated error list of a failed result; empty in the other
/// two states.
pub open spec fn errors_of<T>(r: SignalResult<T>) -> Seq<AppError> {
    match r {
        SignalResult::Failed(e) => e@,
        _ => Seq::<AppError>::empty(),
    }
}

/// The state a `SignalResult` is in, forgetting the bundle's values.
pub open spec fn state_of<T>(r: SignalResult<T>) -> TriState {
    match r {
        SignalResult::Loading => TriState::Loading,
        SignalResult::Ready(_) => TriState::Ready,
        SignalResult::Failed(e) => TriState::Failed(e@),
    }
}

/// The combination rule on states alone: `Loading` dominates everything,
/// `Failed` dominates `Ready`, errors concatenate left-then-right.
pub open spec fn combine_states(a: TriState, b: TriState) -> TriState {
    match (a, b) {
        (TriState::Loading, _) => TriState::Loading,
        (_, TriState::Loading) => TriState::Loading,
        (TriState::Ready, TriState::Ready) => TriState::Ready,
        (TriState::Failed(e1), TriState::Failed(e2)) => TriState::Failed(e1 + e2),
        (TriState::Ready, TriState::Failed(e2)) => TriState::Failed(e2),
        (TriState::Failed(e1), TriState::Ready) => TriState::Failed(e1),
    }
}

/// The combination rule on states is associative, so a chain of sources may
/// be reconciled under any grouping: the resulting state, including the
/// order of the accumulated errors, depends only on the source order.
pub proof fn lemma_combine_states_associative(a: TriState, b: TriState, c: TriState)
    ensures
        combine_states(combine_states(a, b), c) == combine_states(a, combine_states(b, c)),
{
    match (a, b, c) {
        (TriState::Failed(e1), TriState::Failed(e2), TriState::Failed(e3)) => {
            assert((e1 + e2) + e3 =~= e1 + (e2 + e3));
        },
        _ => {},
    }
}

impl<T> SignalResult<T> {
    /// Merges this result with another. The bundle of the combined result
    /// pairs the two operands' bundles in left-then-right order; the state
    /// follows the lattice: `Loading` wins over everything, two `Ready`
    /// bundles pair up, error lists concatenate, and a lone `Failed`
    /// discards the other operand's `Ready` value.
    pub fn combine<U>(self, other: SignalResult<U>) -> (r: SignalResult<(T, U)>)
        ensures
            state_of(r) == combine_states(state_of(self), state_of(other)),
            r is Loading <==> (self is Loading || other is Loading),
            r is Ready <==> (self is Ready && other is Ready),
            self matches SignalResult::Ready(a) ==> other matches SignalResult::Ready(b) ==> r
                == SignalResult::Ready((a, b)),
            r is Failed <==> !(self is Loading || other is Loading) && (self is Failed
                || other is Failed),
            self is Failed && other is Failed ==> errors_of(r) == errors_of(self) + errors_of(
                other,
            ),
            self is Failed && other is Ready ==> errors_of(r) == errors_of(self),
            self is Ready && other is Failed ==> errors_of(r) == errors_of(other),
    {
        match (self, other) {
            (SignalResult::Loading, _) => SignalResult::Loading,
            (_, SignalResult::Loading) => SignalResult::Loading,
            (SignalResult::Ready(a), SignalResult::Ready(b)) => SignalResult::Ready((a, b)),
            (SignalResult::Failed(mut e1), SignalResult::Failed(mut e2)) => {
                e1.append(&mut e2);
                SignalResult::Failed(e1)
            },
            (SignalResult::Ready(_), SignalResult::Failed(e2)) => SignalResult::Failed(e2),
            (SignalResult::Failed(e1), SignalResult::Ready(_)) => SignalResult::Failed(e1),
        }
    }

    /// Converts the read of a resource-like source into a tri-state:
    /// absent means still loading, otherwise the result decides.
    pub fn from_option_result(value: Option<Result<T, AppError>>) -> (r: SignalResult<T>)
        ensures
            value matches Some(Ok(t)) ==> r == SignalResult::Ready(t),
            value matches Some(Err(e)) ==> r is Failed && errors_of(r) == seq![e],
            value is None ==> r is Loading,
    {
        match value {
            Some(Ok(t)) => SignalResult::Ready(t),
            Some(Err(e)) => SignalResult::Failed(vec![e]),
            None => SignalResult::Loading,
        }
    }

    /// Converts the read of a memo-like source, which is always produced,
    /// into a tri-state: it is never `Loading`.
    pub fn from_result(value: Result<T, AppError>) -> (r: SignalResult<T>)
        ensures
            value matches Ok(t) ==> r == SignalResult::Ready(t),
            value matches Err(e) ==> r is Failed && errors_of(r) == seq![e],
    {
        match value {
            Ok(t) => SignalResult::Ready(t),
            Err(e) => SignalResult::Failed(vec![e]),
        }
    }

    /// Converts the read of a source that can be absent but never fails:
    /// absent means still loading.
    pub fn from_option(value: Option<T>) -> (r: SignalResult<T>)
        ensures
            value matches Some(t) ==> r == SignalResult::Ready(t),
            value is None ==> r is Loading,
    {
        match value {
            Some(t) => SignalResult::Ready(t),
            None => SignalResult::Loading,
        }
    }
}

/// Reconciles three sources at once into a flat three-element bundle. The
/// state equals that of the left-to-right fold of pairwise combination.
pub fn combine3<A, B, C>(a: SignalResult<A>, b: SignalResult<B>, c: SignalResult<C>) -> (r:
    SignalResult<(A, B, C)>)
    ensures
        state_of(r) == combine_states(combine_states(state_of(a), state_of(b)), state_of(c)),
        a matches SignalResult::Ready(x) ==> b matches SignalResult::Ready(y) ==> c
            matches SignalResult::Ready(z) ==> r == SignalResult::Ready((x, y, z)),
{
    match a.combine(b).combine(c) {
        SignalResult::Loading => SignalResult::Loading,
        SignalResult::Ready(((x, y), z)) => SignalResult::Ready((x, y, z)),
        SignalResult::Failed(es) => SignalResult::Failed(es),
    }
}

/// Reconciles four sources at once into a flat four-element bundle. The
/// state equals that of the left-to-right fold of pairwise combination.
pub fn combine4<A, B, C, D>(
    a: SignalResult<A>,
    b: SignalResult<B>,
    c: SignalResult<C>,
    d: SignalResult<D>,
) -> (r: SignalResult<(A, B, C, D)>)
    ensures
        state_of(r) == combine_states(
            combine_states(combine_states(state_of(a), state_of(b)), state_of(c)),
            state_of(d),
        ),
        a matches SignalResult::Ready(w) ==> b matches SignalResult::Ready(x) ==> c
            matches SignalResult::Ready(y) ==> d matches SignalResult::Ready(z) ==> r
            == SignalResult::Ready((w, x, y, z)),
{
    match combine3(a, b, c).combine(d) {
        SignalResult::Loading => SignalResult::Loading,
        SignalResult::Ready(((x, y, z), w)) => SignalResult::Ready((x, y, z, w)),
        SignalResult::Failed(es) => SignalResult::Failed(es),
    }
}

/// Selects exactly which of three render branches a reconciled result
/// calls for, handing the success branch the whole bundle, the error
/// branch the whole accumulated error list, and the loading branch
/// nothing. The choice is a pure function of the result's state.
pub fn signal_result_view<T, V, FOk, FErr, FLoad>(
    r: SignalResult<T>,
    on_ok: FOk,
    on_err: FErr,
    on_loading: FLoad,
) -> (v: V) where
    FOk: FnOnce(T) -> V,
    FErr: FnOnce(Vec<AppError>) -> V,
    FLoad: FnOnce() -> V,

    requires
        forall|t: T| r == SignalResult::Ready(t) ==> call_requires(on_ok, (t,)),
        forall|e: Vec<AppError>| r == SignalResult::<T>::Failed(e) ==> call_requires(on_err, (e,)),
        r is Loading ==> call_requires(on_loading, ()),
    ensures
        r matches SignalResult::Ready(t) ==> call_ensures(on_ok, (t,), v),
        r matches SignalResult::Failed(e) ==> call_ensures(on_err, (e,), v),
        r is Loading ==> call_ensures(on_loading, (), v),
{
    match r {
        SignalResult::Ready(t) => on_ok(t),
        SignalResult::Failed(e) => on_err(e),
        SignalResult::Loading => on_loading(),
    }
}

} // verus!
