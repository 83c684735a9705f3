//! The pending timers of the pipeline: at most one of each kind per path.
//!
//! Arming a timer replaces the pending timer of the same kind for the same path.
//! Timers come out in the order of their deadlines; among equal deadlines the one
//! armed first comes first.

use vstd::prelude::*;
use vstd::string::*;
use crate::job::Action;

verus! {

/// What a timer is for.
#[derive(Clone, Copy, Debug, PartialEq, Eq, Structural)]
pub enum TimerKind {
    /// The quiet period of a path may be over.
    Settle,
    /// The backoff before a retry is over.
    Retry,
    /// A path at rest has been kept long enough.
    Evict,
}

/// A pending timer.
#[derive(Debug)]
pub struct Timer {
    pub kind: TimerKind,
    pub path: String,
    pub due: u64,
}

/// Mathematical content of a [`Timer`].
pub struct TimerView {
    pub kind: TimerKind,
    pub path: Seq<char>,
    pub due: u64,
}

impl View for Timer {
    type V = TimerView;

    open spec fn view(&self) -> TimerView {
        TimerView { kind: self.kind, path: self.path@, due: self.due }
    }
}

/// The view of an optional timer.
pub open spec fn timer_opt_view(t: Option<Timer>) -> Option<TimerView> {
    match t {
        Some(x) => Some(x@),
        None => None,
    }
}

/// Whether `t` is a timer of `path`, of the given kind if one is given.
pub open spec fn concerns(t: TimerView, kind: Option<TimerKind>, path: Seq<char>) -> bool {
    t.path == path && (kind is None || kind == Some(t.kind))
}

/// The timers of `s` without those of `path`, of the given kind if one is given.
pub open spec fn without(s: Seq<TimerView>, kind: Option<TimerKind>, path: Seq<char>) -> Seq<TimerView> {
    s.filter(|t: TimerView| !concerns(t, kind, path))
}

/// The timers after arming `t`: an earlier timer of the same kind for the same path is
/// gone, and `t` is the one armed last.
pub open spec fn armed(s: Seq<TimerView>, t: TimerView) -> Seq<TimerView> {
    without(s, Some(t.kind), t.path).push(t)
}

/// Whether the timer at `i` is the next to run out: none is due before it, and none
/// before it in the sequence is due as early.
pub open spec fn is_earliest(s: Seq<TimerView>, i: int) -> bool {
    &&& 0 <= i < s.len()
    &&& forall|j: int| 0 <= j < s.len() ==> s[i].due <= (#[trigger] s[j]).due
    &&& forall|j: int| 0 <= j < i ==> (#[trigger] s[j]).due > s[i].due
}

/// The position of the timer that runs out next, if there is any timer.
pub open spec fn earliest(s: Seq<TimerView>) -> Option<int> {
    if exists|i: int| is_earliest(s, i) {
        Some(choose|i: int| is_earliest(s, i))
    } else {
        None
    }
}

/// The timers after the timer part of `action` is done: arming for the two arming
/// actions, dropping for a cancellation, and for a report the arming of the eviction
/// timer of the reported path at `evict_at`.
pub open spec fn applied(s: Seq<TimerView>, action: crate::job::ActionView, evict_at: u64) -> Seq<TimerView> {
    match action {
        crate::job::ActionView::ArmSettleTimer { path, due } => armed(
            s,
            TimerView { kind: TimerKind::Settle, path, due },
        ),
        crate::job::ActionView::ArmRetryTimer { path, due } => armed(
            s,
            TimerView { kind: TimerKind::Retry, path, due },
        ),
        crate::job::ActionView::CancelTimers { path } => without(s, None, path),
        crate::job::ActionView::Report { path, .. } => armed(
            s,
            TimerView { kind: TimerKind::Evict, path, due: evict_at },
        ),
    }
}

/// There is one earliest timer at most.
pub proof fn lemma_earliest_is(s: Seq<TimerView>, i: int)
    requires
        is_earliest(s, i),
    ensures
        earliest(s) == Some(i),
{
    let c = choose|c: int| is_earliest(s, c);
    assert(is_earliest(s, c));
    if c < i {
        assert(s[c].due > s[i].due);
        assert(s[c].due <= s[i].due);
    } else if i < c {
        assert(s[i].due > s[c].due);
        assert(s[i].due <= s[c].due);
    }
}

/// Without timers there is no earliest one.
pub proof fn lemma_earliest_none(s: Seq<TimerView>)
    requires
        s.len() == 0,
    ensures
        earliest(s) is None,
{
}

/// After arming, the armed timer is pending, it is the only one of its kind for its
/// path, and every other timer that was pending still is.
pub proof fn law_arming_replaces(s: Seq<TimerView>, t: TimerView)
    ensures
        armed(s, t).last() == t,
        forall|i: int|
            0 <= i < armed(s, t).len() - 1 ==> !concerns(#[trigger] armed(s, t)[i], Some(t.kind), t.path),
        forall|i: int|
            0 <= i < s.len() && !concerns(s[i], Some(t.kind), t.path) ==> armed(s, t).contains(#[trigger] s[i]),
        armed(s, t).len() <= s.len() + 1,
{
    let pred = |x: TimerView| !concerns(x, Some(t.kind), t.path);
    let kept = s.filter(pred);
    s.lemma_filter_len(pred);
    assert forall|i: int| 0 <= i < armed(s, t).len() - 1 implies !concerns(
        #[trigger] armed(s, t)[i],
        Some(t.kind),
        t.path,
    ) by {
        s.lemma_filter_pred(pred, i);
        assert(armed(s, t)[i] == kept[i]);
    }
    assert forall|i: int| 0 <= i < s.len() && !concerns(s[i], Some(t.kind), t.path) implies armed(s, t).contains(
        #[trigger] s[i],
    ) by {
        s.lemma_filter_contains(pred, i);
        let k = choose|k: int| 0 <= k < kept.len() && kept[k] == s[i];
        assert(armed(s, t)[k] == s[i]);
    }
}

/// After a cancellation no timer of the path is pending, and every timer of another
/// path that was pending still is.
pub proof fn law_cancel_drops_all(s: Seq<TimerView>, path: Seq<char>)
    ensures
        forall|i: int| 0 <= i < without(s, None, path).len() ==> (#[trigger] without(s, None, path)[i]).path != path,
        forall|i: int| 0 <= i < s.len() && s[i].path != path ==> without(s, None, path).contains(#[trigger] s[i]),
{
    let pred = |x: TimerView| !concerns(x, None, path);
    assert forall|i: int| 0 <= i < without(s, None, path).len() implies (#[trigger] without(s, None, path)[i]).path
        != path by {
        s.lemma_filter_pred(pred, i);
    }
    assert forall|i: int| 0 <= i < s.len() && s[i].path != path implies without(s, None, path).contains(
        #[trigger] s[i],
    ) by {
        s.lemma_filter_contains(pred, i);
    }
}

/// Filtering a sequence with one more element at its end.
proof fn lemma_without_push(s: Seq<TimerView>, x: TimerView, kind: Option<TimerKind>, path: Seq<char>)
    ensures
        without(s.push(x), kind, path) == if concerns(x, kind, path) {
            without(s, kind, path)
        } else {
            without(s, kind, path).push(x)
        },
{
    assert(s.push(x).drop_last() =~= s);
    reveal(Seq::filter);
}

/// Dropping the same timers twice drops no more than dropping them once.
proof fn lemma_without_twice(s: Seq<TimerView>, kind: Option<TimerKind>, path: Seq<char>)
    ensures
        without(without(s, kind, path), kind, path) == without(s, kind, path),
    decreases s.len(),
{
    if s.len() == 0 {
        reveal(Seq::filter);
    } else {
        let d = s.drop_last();
        assert(d.push(s.last()) =~= s);
        lemma_without_push(d, s.last(), kind, path);
        lemma_without_twice(d, kind, path);
        if !concerns(s.last(), kind, path) {
            lemma_without_push(without(d, kind, path), s.last(), kind, path);
        }
    }
}

/// Arming a timer and then arming it again leaves what arming it the second time
/// alone would have left: the later deadline stands, and there is one timer.
pub proof fn law_rearming(s: Seq<TimerView>, a: TimerView, b: TimerView)
    requires
        a.kind == b.kind,
        a.path == b.path,
    ensures
        armed(armed(s, a), b) == armed(s, b),
{
    lemma_without_push(without(s, Some(a.kind), a.path), a, Some(b.kind), b.path);
    lemma_without_twice(s, Some(b.kind), b.path);
}

/// Filtering a sequence that grows by one element.
proof fn lemma_without_step(s: Seq<TimerView>, k: int, kind: Option<TimerKind>, path: Seq<char>)
    requires
        0 <= k < s.len(),
    ensures
        without(s.take(k + 1), kind, path) == if concerns(s[k], kind, path) {
            without(s.take(k), kind, path)
        } else {
            without(s.take(k), kind, path).push(s[k])
        },
{
    let a = s.take(k + 1);
    assert(a.drop_last() =~= s.take(k));
    assert(a.last() == s[k]);
    reveal(Seq::filter);
}

/// The pending timers.
#[derive(Debug)]
pub struct Timers {
    pending: Vec<Timer>,
}

impl View for Timers {
    type V = Seq<TimerView>;

    closed spec fn view(&self) -> Seq<TimerView> {
        Seq::new(self.pending@.len(), |i: int| self.pending@[i]@)
    }
}

impl Timers {
    /// No timer is pending.
    pub fn new() -> (t: Timers)
        ensures
            t@ == Seq::<TimerView>::empty(),
    {
        let t = Timers { pending: Vec::new() };
        assert(t@ =~= Seq::<TimerView>::empty());
        t
    }

    /// Number of pending timers.
    pub fn len(&self) -> (n: usize)
        ensures
            n == self@.len(),
    {
        self.pending.len()
    }

    /// Drops the timers of `path`, of the given kind if one is given.
    fn drop_matching(&mut self, kind: Option<TimerKind>, path: &String)
        ensures
            final(self)@ == without(old(self)@, kind, path@),
    {
        let ghost before = self@;
        let ghost mut k: int = 0;
        let mut i: usize = 0;
        proof {
            assert(before.take(0) =~= Seq::<TimerView>::empty());
            assert(without(before.take(0), kind, path@) =~= Seq::<TimerView>::empty()) by {
                reveal(Seq::filter);
            }
            assert(self@ =~= without(before.take(0), kind, path@) + before.skip(0));
        }
        while i < self.pending.len()
            invariant
                0 <= k <= before.len(),
                i == without(before.take(k), kind, path@).len(),
                self@ == without(before.take(k), kind, path@) + before.skip(k),
            decreases before.len() - k,
        {
            let ghost kept = without(before.take(k), kind, path@);
            let ghost current = self@;
            proof {
                assert(current.len() == kept.len() + before.skip(k).len());
                lemma_without_step(before, k, kind, path@);
                assert(current[i as int] == before.skip(k)[0]);
            }
            let t = &self.pending[i];
            let hit = t.path == *path && match kind {
                None => true,
                Some(x) => x == t.kind,
            };
            if hit {
                self.pending.remove(i);
                proof {
                    assert(self@ =~= current.remove(i as int));
                    assert(current.remove(i as int) =~= kept + before.skip(k + 1));
                }
            } else {
                i = i + 1;
                proof {
                    assert(current =~= kept.push(before[k]) + before.skip(k + 1));
                }
            }
            proof {
                k = k + 1;
            }
        }
        proof {
            assert(self@.len() == i + before.skip(k).len());
            assert(before.take(k) =~= before);
            assert(self@ =~= without(before, kind, path@));
        }
    }

    /// Arms the timer of `kind` for `path` at `due`, in place of a pending timer of
    /// that kind for that path.
    pub fn arm(&mut self, kind: TimerKind, path: String, due: u64)
        ensures
            final(self)@ == armed(old(self)@, TimerView { kind, path: path@, due }),
    {
        self.drop_matching(Some(kind), &path);
        let ghost mid = self@;
        self.pending.push(Timer { kind, path, due });
        assert(self@ =~= mid.push(TimerView { kind, path: path@, due }));
    }

    /// Drops every timer of `path`.
    pub fn cancel(&mut self, path: &str)
        ensures
            final(self)@ == without(old(self)@, None, path@),
    {
        let key = String::from_str(path);
        self.drop_matching(None, &key);
    }

    /// Position of the timer that runs out next.
    fn find_earliest(&self) -> (r: Option<usize>)
        ensures
            match r {
                Some(i) => earliest(self@) == Some(i as int) && i < self@.len(),
                None => earliest(self@) is None && self@.len() == 0,
            },
    {
        if self.pending.len() == 0 {
            proof {
                lemma_earliest_none(self@);
            }
            return None;
        }
        let mut best: usize = 0;
        let mut i: usize = 1;
        while i < self.pending.len()
            invariant
                1 <= i <= self.pending.len(),
                best < i,
                forall|j: int| 0 <= j < i ==> self@[best as int].due <= (#[trigger] self@[j]).due,
                forall|j: int| 0 <= j < best ==> (#[trigger] self@[j]).due > self@[best as int].due,
            decreases self.pending.len() - i,
        {
            if self.pending[i].due < self.pending[best].due {
                best = i;
            }
            i = i + 1;
        }
        proof {
            lemma_earliest_is(self@, best as int);
        }
        Some(best)
    }

    /// When the next timer runs out, if any is pending.
    pub fn next_due(&self) -> (r: Option<u64>)
        ensures
            r == (match earliest(self@) {
                Some(i) => Some(self@[i].due),
                None => None,
            }),
    {
        match self.find_earliest() {
            Some(i) => Some(self.pending[i].due),
            None => None,
        }
    }

    /// Takes out the timer that runs out next, provided it has run out at `now`.
    pub fn pop_due(&mut self, now: u64) -> (r: Option<Timer>)
        ensures
            match earliest(old(self)@) {
                Some(i) if old(self)@[i].due <= now => {
                    &&& timer_opt_view(r) == Some(old(self)@[i])
                    &&& final(self)@ == old(self)@.remove(i)
                },
                _ => r is None && final(self)@ == old(self)@,
            },
    {
        match self.find_earliest() {
            Some(i) => {
                if self.pending[i].due <= now {
                    let t = self.pending.remove(i);
                    assert(self@ =~= old(self)@.remove(i as int));
                    Some(t)
                } else {
                    None
                }
            },
            None => None,
        }
    }

    /// Does the timer part of `action`: arms what it arms, drops what it cancels, and
    /// for a report arms the eviction timer of the reported path at `evict_at`.
    pub fn apply(&mut self, action: &Action, evict_at: u64)
        ensures
            final(self)@ == applied(old(self)@, action@, evict_at),
    {
        match action {
            Action::ArmSettleTimer { path, due } => self.arm(TimerKind::Settle, path.clone(), *due),
            Action::ArmRetryTimer { path, due } => self.arm(TimerKind::Retry, path.clone(), *due),
            Action::CancelTimers { path } => self.drop_matching(None, path),
            Action::Report(report) => self.arm(TimerKind::Evict, report.path.clone(), evict_at),
        }
    }
}

} // verus!
