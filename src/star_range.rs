//! Splitting of a star range into windows small enough for the search API's
//! result cap.
//!
//! Search results beyond the first thousand of a query cannot be reached, so
//! a wide star range is walked top-down as a sequence of windows: each window
//! spans from half its upper bound (or the range's floor) up to that bound,
//! and the next window ends just below it.
use vstd::prelude::*;

use crate::github_api::RepositoryQuery;

verus! {

/// Lower bound of the window whose upper bound is `hi`, in a range whose
/// floor is `lo`.
pub open spec fn window_floor(lo: int, hi: int) -> int {
    if hi / 2 >= lo {
        hi / 2
    } else {
        lo
    }
}

/// The windows `[low, high]` that cover `[lo, hi]`, from the top down.
pub open spec fn windows(lo: int, hi: int) -> Seq<(int, int)>
    decreases hi - lo + 1,
{
    if lo < 0 || hi < lo {
        Seq::empty()
    } else {
        let w = window_floor(lo, hi);
        seq![(w, hi)] + windows(lo, w - 1)
    }
}

/// Whether star count `k` lies in one of the windows `ws`.
pub open spec fn in_some_window(ws: Seq<(int, int)>, k: int) -> bool {
    exists|i: int| 0 <= i < ws.len() && #[trigger] ws[i].0 <= k <= ws[i].1
}

/// The windows of `[lo, hi]` run from `hi` down to `lo`: each is a non-empty
/// range inside `[lo, hi]`, the first ends at `hi`, the last starts at `lo`,
/// and each ends one below where the one before it starts. So they are
/// disjoint, decreasing, and their union is exactly `[lo, hi]`.
pub proof fn lemma_windows_partition(lo: int, hi: int)
    requires
        0 <= lo <= hi,
    ensures
        windows(lo, hi).len() > 0,
        windows(lo, hi)[0].1 == hi,
        windows(lo, hi).last().0 == lo,
        forall|i: int|
            0 <= i < windows(lo, hi).len() ==> lo <= #[trigger] windows(lo, hi)[i].0
                <= windows(lo, hi)[i].1 <= hi,
        forall|i: int|
            0 <= i < windows(lo, hi).len() - 1 ==> #[trigger] windows(lo, hi)[i + 1].1 == windows(
                lo,
                hi,
            )[i].0 - 1,
        forall|i: int, j: int|
            0 <= i < j < windows(lo, hi).len() ==> #[trigger] windows(lo, hi)[j].1
                < #[trigger] windows(lo, hi)[i].0,
        forall|k: int| lo <= k <= hi ==> #[trigger] in_some_window(windows(lo, hi), k),
    decreases hi - lo + 1,
{
    let ws = windows(lo, hi);
    let w = window_floor(lo, hi);
    let rest = windows(lo, w - 1);
    assert(ws == seq![(w, hi)] + rest);
    if w == lo {
        assert(rest.len() == 0);
        assert(ws.len() == 1);
        assert forall|k: int| lo <= k <= hi implies #[trigger] in_some_window(ws, k) by {
            assert(ws[0].0 <= k <= ws[0].1);
        }
    } else {
        lemma_windows_partition(lo, w - 1);
        assert forall|i: int| 0 <= i < ws.len() - 1 implies #[trigger] ws[i + 1].1 == ws[i].0 - 1 by {
            assert(ws[i + 1] == rest[i]);
            if i > 0 {
                assert(ws[i] == rest[i - 1]);
                assert(rest[(i - 1) + 1].1 == rest[i - 1].0 - 1);
            } else {
                assert(ws[0] == (w, hi));
            }
        }
        assert forall|i: int, j: int| 0 <= i < j < ws.len() implies #[trigger] ws[j].1
            < #[trigger] ws[i].0 by {
            assert(ws[j] == rest[j - 1]);
            assert(rest[j - 1].0 <= rest[j - 1].1);
            if i > 0 {
                assert(ws[i] == rest[i - 1]);
            }
        }
        assert forall|k: int| lo <= k <= hi implies #[trigger] in_some_window(ws, k) by {
            if k >= w {
                assert(ws[0].0 <= k <= ws[0].1);
            } else {
                assert(in_some_window(rest, k));
                let i = choose|i: int| 0 <= i < rest.len() && #[trigger] rest[i].0 <= k <= rest[i].1;
                assert(ws[i + 1] == rest[i]);
            }
        }
        assert forall|i: int| 0 <= i < ws.len() implies lo <= #[trigger] ws[i].0 <= ws[i].1 <= hi by {
            if i > 0 {
                assert(ws[i] == rest[i - 1]);
            }
        }
    }
}

/// Cursor over the windows of a repository query's star range.
pub struct StarWindows {
    floor: usize,
    upper: usize,
    done: bool,
    lang: &'static str,
}

impl StarWindows {
    /// The windows not handed out yet.
    pub closed spec fn remaining(&self) -> Seq<(int, int)> {
        if self.done {
            Seq::empty()
        } else {
            windows(self.floor as int, self.upper as int)
        }
    }

    pub closed spec fn language(&self) -> &'static str {
        self.lang
    }

    pub closed spec fn wf(&self) -> bool {
        !self.done ==> self.floor <= self.upper
    }

    /// The windows of `q`'s star range; none when the range is empty.
    pub fn new(q: RepositoryQuery) -> (r: Self)
        ensures
            r.wf(),
            r.remaining() == windows(q.min_stars as int, q.max_stars as int),
            r.language() == q.lang,
    {
        StarWindows { floor: q.min_stars, upper: q.max_stars, done: q.max_stars < q.min_stars, lang: q.lang }
    }

    /// The next window, as a query over its star range in the same language.
    pub fn next_window(&mut self) -> (r: Option<RepositoryQuery>)
        requires
            old(self).wf(),
        ensures
            final(self).wf(),
            final(self).language() == old(self).language(),
            old(self).remaining().len() == 0 ==> r.is_none() && final(self).remaining() == old(self).remaining(),
            old(self).remaining().len() > 0 ==> r.is_some()
                && r.unwrap().min_stars == old(self).remaining()[0].0
                && r.unwrap().max_stars == old(self).remaining()[0].1
                && r.unwrap().lang == old(self).language()
                && final(self).remaining() == old(self).remaining().drop_first(),
    {
        if self.done {
            return None;
        }
        let half: usize = self.upper / 2;
        let low: usize = if half >= self.floor { half } else { self.floor };
        let q = RepositoryQuery { min_stars: low, max_stars: self.upper, lang: self.lang };
        proof {
            let ws = windows(self.floor as int, self.upper as int);
            assert(ws == seq![(low as int, self.upper as int)] + windows(self.floor as int, low - 1));
            assert(ws.drop_first() =~= windows(self.floor as int, low - 1));
        }
        if low == self.floor {
            self.done = true;
        } else {
            self.upper = low - 1;
        }
        Some(q)
    }
}

} // verus!
