//! Signal combinators as explicit state machines.
//!
//! Each combinator owns its state and exposes a step function from
//! (state, upstream production) to (state, emission). The driving loop that
//! polls the upstream signals lives with the caller.

use vstd::prelude::*;

verus! {

// ---------------------------------------------------------------------------
// Dedup
// ---------------------------------------------------------------------------

/// The run leaders of `s`: one element for each maximal run of equal
/// consecutive elements, in order.
pub open spec fn run_leaders<T>(s: Seq<T>) -> Seq<T>
    decreases s.len(),
{
    if s.len() <= 1 {
        s
    } else if s[0] == s[1] {
        run_leaders(s.drop_first())
    } else {
        seq![s[0]] + run_leaders(s.drop_first())
    }
}

/// No two consecutive elements of `s` are equal.
pub open spec fn no_adjacent_duplicates<T>(s: Seq<T>) -> bool {
    forall|i: int| 0 <= i < s.len() - 1 ==> #[trigger] s[i] != s[i + 1]
}

/// One step of a dedup filter whose last emitted value is `last`: the new
/// last value and what is emitted.
pub open spec fn dedup_step<T>(last: Option<T>, item: T) -> (Option<T>, Option<T>) {
    if last == Some(item) {
        (last, None)
    } else {
        (Some(item), Some(item))
    }
}

/// What a dedup filter in state `last` emits when fed `items` in order.
pub open spec fn dedup_emissions<T>(last: Option<T>, items: Seq<T>) -> Seq<T>
    decreases items.len(),
{
    if items.len() == 0 {
        seq![]
    } else {
        let (next, out) = dedup_step(last, items[0]);
        match out {
            Some(x) => seq![x] + dedup_emissions(next, items.drop_first()),
            None => dedup_emissions(next, items.drop_first()),
        }
    }
}

/// Suppresses consecutive duplicate values of one signal.
pub struct Dedup<T> {
    last: Option<T>,
}

impl<T> View for Dedup<T> {
    type V = Option<T>;

    /// The last value emitted, if any.
    closed spec fn view(&self) -> Option<T> {
        self.last
    }
}

/// A dedup filter that has emitted nothing yet.
pub fn dedup<T>() -> (r: Dedup<T>)
    ensures
        r@ == None::<T>,
{
    Dedup { last: None }
}

impl<T: PartialEq + Clone> Dedup<T> {
    /// Offers one upstream value; returns a clone of it when it differs from
    /// the last emitted one.
    pub fn step(&mut self, item: T) -> (r: Option<T>)
        requires
            vstd::laws_eq::obeys_concrete_eq::<T>(),
        ensures
            final(self)@ == dedup_step(old(self)@, item).0,
            dedup_step(old(self)@, item).1 is None ==> r is None,
            dedup_step(old(self)@, item).1 is Some ==> r is Some && cloned(item, r->0),
    {
        proof {
            reveal(vstd::laws_eq::obeys_concrete_eq);
        }
        let same = match &self.last {
            Some(prev) => *prev == item,
            None => false,
        };
        if same {
            None
        } else {
            let out = item.clone();
            self.last = Some(item);
            Some(out)
        }
    }
}

/// The first element of the run leaders of a non-empty sequence is its first
/// element.
proof fn lemma_run_leaders_first<T>(s: Seq<T>)
    requires
        s.len() > 0,
    ensures
        run_leaders(s).len() > 0,
        run_leaders(s)[0] == s[0],
    decreases s.len(),
{
    if s.len() > 1 && s[0] == s[1] {
        lemma_run_leaders_first(s.drop_first());
    }
}

/// A filter that last emitted `x` and is fed `items` emits the run leaders
/// of `x` followed by `items`, without their first element.
proof fn lemma_dedup_after<T>(x: T, items: Seq<T>)
    ensures
        dedup_emissions(Some(x), items) == run_leaders(seq![x] + items).drop_first(),
    decreases items.len(),
{
    let s = seq![x] + items;
    assert(s.drop_first() =~= items);
    if items.len() > 0 {
        let rest = items.drop_first();
        assert(seq![items[0]] + rest =~= items);
        lemma_dedup_after(items[0], rest);
        if x != items[0] {
            lemma_run_leaders_first(items);
            let l = run_leaders(items);
            assert(seq![items[0]] + l.drop_first() =~= l);
        }
        assert((seq![x] + run_leaders(items)).drop_first() =~= run_leaders(items));
    }
}

/// Dedup emits exactly the run leaders of its input, and those hold no two
/// consecutive equal values; deduplicating them again changes nothing.
pub proof fn lemma_dedup_run_leaders<T>(items: Seq<T>)
    ensures
        dedup_emissions(None, items) == run_leaders(items),
        no_adjacent_duplicates(run_leaders(items)),
        run_leaders(run_leaders(items)) == run_leaders(items),
{
    if items.len() > 0 {
        let rest = items.drop_first();
        assert(seq![items[0]] + rest =~= items);
        lemma_dedup_after(items[0], rest);
        lemma_run_leaders_first(items);
        let l = run_leaders(items);
        assert(seq![items[0]] + l.drop_first() =~= l);
    }
    lemma_run_leaders_distinct_neighbours(items);
    lemma_run_leaders_fixed(run_leaders(items));
}

proof fn lemma_run_leaders_distinct_neighbours<T>(s: Seq<T>)
    ensures
        no_adjacent_duplicates(run_leaders(s)),
    decreases s.len(),
{
    if s.len() > 1 {
        let rest = s.drop_first();
        lemma_run_leaders_distinct_neighbours(rest);
        if s[0] != s[1] {
            lemma_run_leaders_first(rest);
            let l = seq![s[0]] + run_leaders(rest);
            assert forall|i: int| 0 <= i < l.len() - 1 implies #[trigger] l[i] != l[i + 1] by {
                if i > 0 {
                    assert(l[i] == run_leaders(rest)[i - 1]);
                    assert(l[i + 1] == run_leaders(rest)[i]);
                }
            }
        }
    }
}

/// A sequence without consecutive duplicates is its own run leaders.
proof fn lemma_run_leaders_fixed<T>(s: Seq<T>)
    requires
        no_adjacent_duplicates(s),
    ensures
        run_leaders(s) == s,
    decreases s.len(),
{
    if s.len() > 1 {
        let rest = s.drop_first();
        assert(s[0] != s[1]);
        assert forall|i: int| 0 <= i < rest.len() - 1 implies #[trigger] rest[i] != rest[i + 1] by {
            assert(s[i + 1] != s[i + 2]);
        }
        lemma_run_leaders_fixed(rest);
        assert(seq![s[0]] + rest =~= s);
    }
}


// ---------------------------------------------------------------------------
// CombineLatest
// ---------------------------------------------------------------------------

/// `b` is a clone of `a`, slot for slot: both absent, or both present with
/// `b`'s value cloned from `a`'s.
pub open spec fn opt_cloned<T: Clone>(a: Option<T>, b: Option<T>) -> bool {
    match (a, b) {
        (None, None) => true,
        (Some(x), Some(y)) => cloned(x, y),
        _ => false,
    }
}

/// A production of one of two signals.
pub enum Either<L, R> {
    Left(L),
    Right(R),
}

/// The latest value of each side after one more production.
pub open spec fn combine_update<T, U>(s: (Option<T>, Option<U>), ev: Either<T, U>) -> (
    Option<T>,
    Option<U>,
) {
    match ev {
        Either::Left(v) => (Some(v), s.1),
        Either::Right(v) => (s.0, Some(v)),
    }
}

/// The latest value of each side after the productions `evs`, from a start
/// where neither side has produced.
pub open spec fn combine_fold<T, U>(evs: Seq<Either<T, U>>) -> (Option<T>, Option<U>)
    decreases evs.len(),
{
    if evs.len() == 0 {
        (None, None)
    } else {
        combine_update(combine_fold(evs.drop_last()), evs.last())
    }
}

/// What the strict policy emits in state `s`: a pair once both sides have
/// produced, nothing before.
pub open spec fn strict_emission<T, U>(s: (Option<T>, Option<U>)) -> Option<(T, U)> {
    match s {
        (Some(a), Some(b)) => Some((a, b)),
        _ => None,
    }
}

/// Merges two signals, keeping the latest value of each side.
pub struct CombineLatest<T, U> {
    left: Option<T>,
    right: Option<U>,
}

impl<T, U> View for CombineLatest<T, U> {
    type V = (Option<T>, Option<U>);

    /// The latest value of each side; `None` where that side has not produced.
    closed spec fn view(&self) -> (Option<T>, Option<U>) {
        (self.left, self.right)
    }
}

/// A pairwise merge in which neither side has produced yet.
pub fn combine<T, U>() -> (r: CombineLatest<T, U>)
    ensures
        r@ == (None::<T>, None::<U>),
{
    CombineLatest { left: None, right: None }
}

impl<T: Clone, U: Clone> CombineLatest<T, U> {
    fn record(&mut self, ev: Either<T, U>)
        ensures
            final(self)@ == combine_update(old(self)@, ev),
    {
        match ev {
            Either::Left(v) => {
                self.left = Some(v);
            },
            Either::Right(v) => {
                self.right = Some(v);
            },
        }
    }

    /// With-absence policy: records the production and emits the latest
    /// value of each side, `None` for a side that has not produced.
    pub fn step(&mut self, ev: Either<T, U>) -> (r: (Option<T>, Option<U>))
        ensures
            final(self)@ == combine_update(old(self)@, ev),
            opt_cloned(final(self)@.0, r.0),
            opt_cloned(final(self)@.1, r.1),
    {
        self.record(ev);
        (self.left.clone(), self.right.clone())
    }

    /// Strict policy: records the production and emits the latest pair only
    /// once both sides have produced.
    pub fn step_strict(&mut self, ev: Either<T, U>) -> (r: Option<(T, U)>)
        ensures
            final(self)@ == combine_update(old(self)@, ev),
            r is Some <==> strict_emission(final(self)@) is Some,
            match r {
                Some(pair) => cloned(final(self)@.0->0, pair.0) && cloned(final(self)@.1->0, pair.1),
                None => true,
            },
    {
        self.record(ev);
        match (&self.left, &self.right) {
            (Some(a), Some(b)) => Some((a.clone(), b.clone())),
            _ => None,
        }
    }
}

/// The value of the last production of the left side in `evs`.
pub open spec fn last_left<T, U>(evs: Seq<Either<T, U>>) -> Option<T>
    decreases evs.len(),
{
    if evs.len() == 0 {
        None
    } else {
        match evs.last() {
            Either::Left(v) => Some(v),
            Either::Right(_) => last_left(evs.drop_last()),
        }
    }
}

/// The value of the last production of the right side in `evs`.
pub open spec fn last_right<T, U>(evs: Seq<Either<T, U>>) -> Option<U>
    decreases evs.len(),
{
    if evs.len() == 0 {
        None
    } else {
        match evs.last() {
            Either::Left(_) => last_right(evs.drop_last()),
            Either::Right(v) => Some(v),
        }
    }
}

/// `evs` merges `xs` and `ys`, each kept in its own order.
pub open spec fn is_interleaving<A>(evs: Seq<A>, xs: Seq<A>, ys: Seq<A>) -> bool
    decreases evs.len(),
{
    if evs.len() == 0 {
        xs.len() == 0 && ys.len() == 0
    } else {
        ||| (xs.len() > 0 && evs.last() == xs.last() && is_interleaving(
            evs.drop_last(),
            xs.drop_last(),
            ys,
        ))
        ||| (ys.len() > 0 && evs.last() == ys.last() && is_interleaving(
            evs.drop_last(),
            xs,
            ys.drop_last(),
        ))
    }
}

/// Every element is a production of the left side.
pub open spec fn all_left<T, U>(s: Seq<Either<T, U>>) -> bool {
    forall|i: int| 0 <= i < s.len() ==> #[trigger] s[i] is Left
}

/// Every element is a production of the right side.
pub open spec fn all_right<T, U>(s: Seq<Either<T, U>>) -> bool {
    forall|i: int| 0 <= i < s.len() ==> #[trigger] s[i] is Right
}

/// The merge holds, for each side, the value of its latest production.
pub proof fn lemma_combine_latest<T, U>(evs: Seq<Either<T, U>>)
    ensures
        combine_fold(evs) == (last_left(evs), last_right(evs)),
    decreases evs.len(),
{
    if evs.len() > 0 {
        lemma_combine_latest(evs.drop_last());
    }
}

proof fn lemma_interleaving_last<T, U>(
    evs: Seq<Either<T, U>>,
    xs: Seq<Either<T, U>>,
    ys: Seq<Either<T, U>>,
)
    requires
        is_interleaving(evs, xs, ys),
        all_left(xs),
        all_right(ys),
    ensures
        last_left(evs) == last_left(xs),
        last_right(evs) == last_right(ys),
    decreases evs.len(),
{
    if evs.len() > 0 {
        if xs.len() > 0 && evs.last() == xs.last() && is_interleaving(
            evs.drop_last(),
            xs.drop_last(),
            ys,
        ) {
            assert(xs.last() is Left);
            lemma_interleaving_last(evs.drop_last(), xs.drop_last(), ys);
            lemma_last_right_all_left(xs);
        } else {
            assert(ys.last() is Right);
            lemma_interleaving_last(evs.drop_last(), xs, ys.drop_last());
            lemma_last_left_all_right(ys);
        }
    }
}

proof fn lemma_last_right_all_left<T, U>(xs: Seq<Either<T, U>>)
    requires
        all_left(xs),
    ensures
        last_right(xs) is None,
        xs.len() > 0 ==> last_right(xs.drop_last()) is None,
    decreases xs.len(),
{
    if xs.len() > 0 {
        assert(xs.last() is Left);
        lemma_last_right_all_left(xs.drop_last());
    }
}

proof fn lemma_last_left_all_right<T, U>(ys: Seq<Either<T, U>>)
    requires
        all_right(ys),
    ensures
        last_left(ys) is None,
        ys.len() > 0 ==> last_left(ys.drop_last()) is None,
    decreases ys.len(),
{
    if ys.len() > 0 {
        assert(ys.last() is Right);
        lemma_last_left_all_right(ys.drop_last());
    }
}

/// Whatever the order in which `a1`, `a2` (left) and `b1` (right) arrive,
/// `a1` before `a2`, the last pair the merge emits is `(a2, b1)`.
pub proof fn lemma_combine_interleaved<T, U>(a1: T, a2: T, b1: U, evs: Seq<Either<T, U>>)
    requires
        is_interleaving(
            evs,
            seq![Either::<T, U>::Left(a1), Either::<T, U>::Left(a2)],
            seq![Either::<T, U>::Right(b1)],
        ),
    ensures
        combine_fold(evs) == (Some(a2), Some(b1)),
{
    let xs = seq![Either::<T, U>::Left(a1), Either::<T, U>::Left(a2)];
    let ys = seq![Either::<T, U>::Right(b1)];
    assert(xs.drop_last() =~= seq![Either::<T, U>::Left(a1)]);
    assert(ys.drop_last() =~= Seq::<Either<T, U>>::empty());
    lemma_combine_latest(evs);
    lemma_interleaving_last(evs, xs, ys);
    reveal_with_fuel(last_left, 2);
}

/// The strict merge emits only after both sides have produced at least once.
pub proof fn lemma_strict_waits_for_both<T, U>(evs: Seq<Either<T, U>>)
    ensures
        strict_emission(combine_fold(evs)) is Some <==> (exists|i: int|
            0 <= i < evs.len() && #[trigger] evs[i] is Left) && (exists|j: int|
            0 <= j < evs.len() && #[trigger] evs[j] is Right),
    decreases evs.len(),
{
    if evs.len() > 0 {
        let prev = evs.drop_last();
        lemma_strict_waits_for_both(prev);
        if exists|i: int| 0 <= i < prev.len() && #[trigger] prev[i] is Left {
            let i = choose|i: int| 0 <= i < prev.len() && #[trigger] prev[i] is Left;
            assert(evs[i] is Left);
        }
        if exists|j: int| 0 <= j < prev.len() && #[trigger] prev[j] is Right {
            let j = choose|j: int| 0 <= j < prev.len() && #[trigger] prev[j] is Right;
            assert(evs[j] is Right);
        }
        if exists|i: int| 0 <= i < evs.len() && #[trigger] evs[i] is Left {
            let i = choose|i: int| 0 <= i < evs.len() && #[trigger] evs[i] is Left;
            if i < evs.len() - 1 {
                assert(prev[i] is Left);
            }
        }
        if exists|j: int| 0 <= j < evs.len() && #[trigger] evs[j] is Right {
            let j = choose|j: int| 0 <= j < evs.len() && #[trigger] evs[j] is Right;
            if j < evs.len() - 1 {
                assert(prev[j] is Right);
            }
        }
    }
}


// ---------------------------------------------------------------------------
// CombineAllLatest
// ---------------------------------------------------------------------------

/// `out` is a clone of the combined state `state`, slot for slot.
pub open spec fn snapshot_of<T: Clone>(state: Seq<Option<T>>, out: Seq<Option<T>>) -> bool {
    &&& out.len() == state.len()
    &&& forall|i: int| 0 <= i < state.len() ==> opt_cloned(#[trigger] state[i], out[i])
}

/// Merges any number of signals: slot `i` holds the latest value of source
/// `i`, `None` until that source has produced.
pub struct CombineAllLatest<T> {
    values: Vec<Option<T>>,
}

impl<T> View for CombineAllLatest<T> {
    type V = Seq<Option<T>>;

    /// The combined state, one slot per source.
    closed spec fn view(&self) -> Seq<Option<T>> {
        self.values@
    }
}

/// An N-ary merge of `sources` signals, none of which has produced.
pub fn combine_all<T>(sources: usize) -> (r: CombineAllLatest<T>)
    ensures
        r@.len() == sources,
        forall|i: int| 0 <= i < sources ==> #[trigger] r@[i] is None,
{
    let mut values: Vec<Option<T>> = Vec::new();
    let mut k: usize = 0;
    while k < sources
        invariant
            k <= sources,
            values@.len() == k,
            forall|i: int| 0 <= i < k ==> #[trigger] values@[i] is None,
        decreases sources - k,
    {
        values.push(None);
        k = k + 1;
    }
    CombineAllLatest { values }
}

impl<T: Clone> CombineAllLatest<T> {
    /// The number of sources; it never changes.
    pub fn len(&self) -> (r: usize)
        ensures
            r == self@.len(),
    {
        self.values.len()
    }

    /// Records a production of source `index` and emits a snapshot of the
    /// whole combined state.
    pub fn step(&mut self, index: usize, item: T) -> (r: Vec<Option<T>>)
        requires
            index < old(self)@.len(),
        ensures
            final(self)@ == old(self)@.update(index as int, Some(item)),
            snapshot_of(final(self)@, r@),
    {
        self.values.set(index, Some(item));
        self.snapshot()
    }

    /// A clone of the combined state.
    pub fn snapshot(&self) -> (r: Vec<Option<T>>)
        ensures
            snapshot_of(self@, r@),
    {
        let mut out: Vec<Option<T>> = Vec::new();
        let mut k: usize = 0;
        while k < self.values.len()
            invariant
                k <= self.values@.len(),
                out@.len() == k,
                forall|i: int| 0 <= i < k ==> opt_cloned(#[trigger] self.values@[i], out@[i]),
            decreases self.values@.len() - k,
        {
            out.push(self.values[k].clone());
            k = k + 1;
        }
        out
    }
}

// ---------------------------------------------------------------------------
// FollowLatest
// ---------------------------------------------------------------------------

/// What reaches a follow-latest combinator. Each inner signal is known by a
/// key that the driver gives it when the outer signal produces it.
pub enum FollowEvent<T> {
    /// The outer signal produced a new inner signal.
    Switch(u64),
    /// The outer signal terminated.
    OuterEnd,
    /// The inner signal with this key produced a value.
    Item(u64, T),
    /// The inner signal with this key terminated.
    InnerEnd(u64),
}

/// What a combinator emits for one event.
pub enum Emission<T> {
    Nothing,
    Value(T),
    Finished,
}

/// The state of a follow-latest combinator.
pub struct FollowView {
    /// The key of the inner signal being followed.
    pub active: Option<u64>,
    /// The outer signal has terminated.
    pub outer_done: bool,
    /// The combinator has terminated.
    pub finished: bool,
}

/// One step of follow-latest: the next state and the emission.
pub open spec fn follow_step<T>(s: FollowView, ev: FollowEvent<T>) -> (FollowView, Emission<T>) {
    if s.finished {
        (s, Emission::Nothing)
    } else {
        match ev {
            FollowEvent::Switch(k) => (FollowView { active: Some(k), ..s }, Emission::Nothing),
            FollowEvent::OuterEnd => if s.active is None {
                (FollowView { outer_done: true, finished: true, ..s }, Emission::Finished)
            } else {
                (FollowView { outer_done: true, ..s }, Emission::Nothing)
            },
            FollowEvent::Item(k, x) => if s.active == Some(k) {
                (s, Emission::Value(x))
            } else {
                (s, Emission::Nothing)
            },
            FollowEvent::InnerEnd(k) => if s.active == Some(k) {
                if s.outer_done {
                    (FollowView { active: None, finished: true, ..s }, Emission::Finished)
                } else {
                    (FollowView { active: None, ..s }, Emission::Nothing)
                }
            } else {
                (s, Emission::Nothing)
            },
        }
    }
}

/// The values emitted from state `s` for the events `evs`, each with the key
/// of the inner signal it came from.
pub open spec fn follow_trace<T>(s: FollowView, evs: Seq<FollowEvent<T>>) -> Seq<(u64, T)>
    decreases evs.len(),
{
    if evs.len() == 0 {
        seq![]
    } else {
        let (next, out) = follow_step(s, evs[0]);
        let rest = follow_trace(next, evs.drop_first());
        match (out, evs[0]) {
            (Emission::Value(x), FollowEvent::Item(k, _)) => seq![(k, x)] + rest,
            _ => rest,
        }
    }
}

/// Flattens a signal of signals, always following the newest inner signal.
pub struct FollowLatest {
    active: Option<u64>,
    outer_done: bool,
    finished: bool,
}

impl View for FollowLatest {
    type V = FollowView;

    closed spec fn view(&self) -> FollowView {
        FollowView { active: self.active, outer_done: self.outer_done, finished: self.finished }
    }
}

/// A follow-latest combinator that follows no inner signal yet.
pub fn follow_latest() -> (r: FollowLatest)
    ensures
        r@ == (FollowView { active: None, outer_done: false, finished: false }),
{
    FollowLatest { active: None, outer_done: false, finished: false }
}

impl FollowLatest {
    /// The key of the inner signal being followed.
    pub fn active(&self) -> (r: Option<u64>)
        ensures
            r == self@.active,
    {
        self.active
    }

    /// Handles one event: a switch drops the inner signal followed so far,
    /// values of any inner signal but the followed one are discarded.
    pub fn step<T>(&mut self, ev: FollowEvent<T>) -> (r: Emission<T>)
        ensures
            (final(self)@, r) == follow_step(old(self)@, ev),
    {
        if self.finished {
            return Emission::Nothing;
        }
        match ev {
            FollowEvent::Switch(k) => {
                self.active = Some(k);
                Emission::Nothing
            },
            FollowEvent::OuterEnd => {
                self.outer_done = true;
                if self.active.is_none() {
                    self.finished = true;
                    Emission::Finished
                } else {
                    Emission::Nothing
                }
            },
            FollowEvent::Item(k, x) => {
                if self.active == Some(k) {
                    Emission::Value(x)
                } else {
                    Emission::Nothing
                }
            },
            FollowEvent::InnerEnd(k) => {
                if self.active == Some(k) {
                    self.active = None;
                    if self.outer_done {
                        self.finished = true;
                        Emission::Finished
                    } else {
                        Emission::Nothing
                    }
                } else {
                    Emission::Nothing
                }
            },
        }
    }
}

/// The events `evs` never announce the inner signal `k` again.
pub open spec fn never_switches_to<T>(evs: Seq<FollowEvent<T>>, k: u64) -> bool {
    forall|i: int| 0 <= i < evs.len() ==> #[trigger] evs[i] != FollowEvent::<T>::Switch(k)
}

/// Every value emitted from state `s` comes from an inner signal other than
/// `k`, as long as `k` is not followed in `s` and is never switched to.
proof fn lemma_follow_excludes<T>(s: FollowView, evs: Seq<FollowEvent<T>>, k: u64)
    requires
        s.finished || s.active != Some(k),
        never_switches_to(evs, k),
    ensures
        forall|i: int| 0 <= i < follow_trace(s, evs).len() ==> (#[trigger] follow_trace(s, evs)[i]).0 != k,
    decreases evs.len(),
{
    if evs.len() > 0 {
        let (next, out) = follow_step(s, evs[0]);
        assert(evs[0] != FollowEvent::<T>::Switch(k));
        let rest = evs.drop_first();
        assert forall|i: int| 0 <= i < rest.len() implies #[trigger] rest[i] != FollowEvent::<T>::Switch(k) by {
            assert(rest[i] == evs[i + 1]);
        }
        lemma_follow_excludes(next, rest, k);
        let tail = follow_trace(next, rest);
        let t = follow_trace(s, evs);
        match (out, evs[0]) {
            (Emission::Value(x), FollowEvent::Item(k0, _)) => {
                assert(k0 != k);
                assert(t == seq![(k0, x)] + tail);
                assert forall|i: int| 0 <= i < t.len() implies (#[trigger] t[i]).0 != k by {
                    if i > 0 {
                        assert(t[i] == tail[i - 1]);
                    }
                }
            },
            _ => {
                assert(t == tail);
            },
        }
    }
}

/// Once the outer signal produces `new_key`, no value of the inner signal
/// `old_key` it followed before reaches the output, even one that was
/// buffered and not yet read.
pub proof fn lemma_follow_switch<T>(s: FollowView, old_key: u64, new_key: u64, evs: Seq<FollowEvent<T>>)
    requires
        old_key != new_key,
        never_switches_to(evs, old_key),
    ensures
        forall|i: int|
            0 <= i < follow_trace(follow_step(s, FollowEvent::<T>::Switch(new_key)).0, evs).len()
                ==> (#[trigger] follow_trace(
                follow_step(s, FollowEvent::<T>::Switch(new_key)).0,
                evs,
            )[i]).0 != old_key,
{
    lemma_follow_excludes(follow_step(s, FollowEvent::<T>::Switch(new_key)).0, evs, old_key);
}


// ---------------------------------------------------------------------------
// DeferredSignal
// ---------------------------------------------------------------------------

/// What reaches a deferred signal: progress of its one-shot setup, or a
/// production of the signal that the setup yielded.
pub enum DeferredEvent<T> {
    /// The setup is still running.
    SetupPending,
    /// The setup completed and yielded the inner signal.
    SetupReady,
    /// The inner signal produced a value.
    Item(T),
    /// The inner signal terminated.
    End,
}

/// The state of a deferred signal: whether its setup completed, and whether
/// it terminated.
pub struct DeferredView {
    pub ready: bool,
    pub finished: bool,
}

/// One step of a deferred signal: the next state and the emission.
pub open spec fn deferred_step<T>(s: DeferredView, ev: DeferredEvent<T>) -> (DeferredView, Emission<T>) {
    if s.finished {
        (s, Emission::Nothing)
    } else {
        match ev {
            DeferredEvent::SetupPending => (s, Emission::Nothing),
            DeferredEvent::SetupReady => (DeferredView { ready: true, ..s }, Emission::Nothing),
            DeferredEvent::Item(x) => if s.ready {
                (s, Emission::Value(x))
            } else {
                (s, Emission::Nothing)
            },
            DeferredEvent::End => if s.ready {
                (DeferredView { finished: true, ..s }, Emission::Finished)
            } else {
                (s, Emission::Nothing)
            },
        }
    }
}

/// A signal that produces nothing until its setup has yielded the inner
/// signal, and then proxies that signal.
pub struct DeferredSignal {
    ready: bool,
    finished: bool,
}

impl View for DeferredSignal {
    type V = DeferredView;

    closed spec fn view(&self) -> DeferredView {
        DeferredView { ready: self.ready, finished: self.finished }
    }
}

/// A deferred signal whose setup has not completed.
pub fn from_future() -> (r: DeferredSignal)
    ensures
        r@ == (DeferredView { ready: false, finished: false }),
{
    DeferredSignal { ready: false, finished: false }
}

impl DeferredSignal {
    /// The setup has completed: the inner signal is the one to poll.
    pub fn is_ready(&self) -> (r: bool)
        ensures
            r == self@.ready,
    {
        self.ready
    }

    /// Handles one event.
    pub fn step<T>(&mut self, ev: DeferredEvent<T>) -> (r: Emission<T>)
        ensures
            (final(self)@, r) == deferred_step(old(self)@, ev),
    {
        if self.finished {
            return Emission::Nothing;
        }
        match ev {
            DeferredEvent::SetupPending => Emission::Nothing,
            DeferredEvent::SetupReady => {
                self.ready = true;
                Emission::Nothing
            },
            DeferredEvent::Item(x) => {
                if self.ready {
                    Emission::Value(x)
                } else {
                    Emission::Nothing
                }
            },
            DeferredEvent::End => {
                if self.ready {
                    self.finished = true;
                    Emission::Finished
                } else {
                    Emission::Nothing
                }
            },
        }
    }
}

// ---------------------------------------------------------------------------
// Failed setup
// ---------------------------------------------------------------------------

/// A signal of results whose setup may have failed: either the one error of
/// the setup, to be emitted as the only item, or the signal itself.
pub enum Flattened<S, E> {
    Single(E),
    Signal(S),
}

/// Turns a failed setup into a signal of one error, and a successful one into
/// the signal it produced.
pub fn flatten_result_stream<S, E>(setup: Result<S, E>) -> (r: Flattened<S, E>)
    ensures
        match setup {
            Ok(s) => r == Flattened::<S, E>::Signal(s),
            Err(e) => r == Flattened::<S, E>::Single(e),
        },
{
    match setup {
        Ok(s) => Flattened::Signal(s),
        Err(e) => Flattened::Single(e),
    }
}

} // verus!
