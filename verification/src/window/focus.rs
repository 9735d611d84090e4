//! Keyboard focus and the most-recently-used order of windows.
use vstd::prelude::*;

use crate::window::model::WindowId;

verus! {

/// `s` with every occurrence of `id` removed, the rest in order.
pub open spec fn without(s: Seq<WindowId>, id: WindowId) -> Seq<WindowId>
    decreases s.len(),
{
    if s.len() == 0 {
        Seq::<WindowId>::empty()
    } else {
        let rest = without(s.drop_last(), id);
        if s.last() == id {
            rest
        } else {
            rest.push(s.last())
        }
    }
}

/// The elements of `s` whose flag in `kept` is set, in order.
pub open spec fn kept_by(s: Seq<WindowId>, kept: Seq<bool>) -> Seq<WindowId>
    decreases s.len(),
{
    if s.len() == 0 {
        Seq::<WindowId>::empty()
    } else {
        let rest = kept_by(s.drop_last(), kept);
        if kept[s.len() - 1] {
            rest.push(s.last())
        } else {
            rest
        }
    }
}

/// Keeping the entries whose flags agree with `pred` is filtering by `pred`.
proof fn lemma_kept_by_filter(s: Seq<WindowId>, kept: Seq<bool>, pred: spec_fn(WindowId) -> bool)
    requires
        forall|i: int| 0 <= i < s.len() ==> kept[i] == pred(s[i]),
    ensures
        kept_by(s, kept) == s.filter(pred),
    decreases s.len(),
{
    reveal(Seq::filter);
    if s.len() > 0 {
        lemma_kept_by_filter(s.drop_last(), kept, pred);
    }
}

/// The order after focusing `id`: `id` first, then the others in their previous order.
pub open spec fn order_after_focus(s: Seq<WindowId>, id: WindowId) -> Seq<WindowId> {
    seq![id] + without(s, id)
}

/// `s` rotated one place to the left: the first element moves to the end.
pub open spec fn rotated_left(s: Seq<WindowId>) -> Seq<WindowId> {
    s.skip(1).push(s[0])
}

/// `s` rotated one place to the right: the last element moves to the front.
pub open spec fn rotated_right(s: Seq<WindowId>) -> Seq<WindowId> {
    seq![s.last()] + s.drop_last()
}

/// Whether no window occurs twice in `s`.
pub open spec fn distinct(s: Seq<WindowId>) -> bool {
    forall|i: int, j: int| 0 <= i < s.len() && 0 <= j < s.len() && i != j ==> s[i] != s[j]
}

/// The focus that an order implies: its first window, if any.
pub open spec fn first_of(s: Seq<WindowId>) -> Option<WindowId> {
    if s.len() > 0 {
        Some(s[0])
    } else {
        None
    }
}

/// The focused window and the most-recently-used order of windows.
#[derive(Debug, Clone, PartialEq, Eq)]
pub struct FocusStack {
    focused: Option<WindowId>,
    mru: Vec<WindowId>,
}

impl FocusStack {
    /// The focused window.
    pub closed spec fn focus_view(&self) -> Option<WindowId> {
        self.focused
    }

    /// The windows, most recently focused first.
    pub closed spec fn order_view(&self) -> Seq<WindowId> {
        self.mru@
    }

    /// The stack is consistent: no window occurs twice, and a focused window is the
    /// first of the order.
    pub open spec fn wf(&self) -> bool {
        &&& distinct(self.order_view())
        &&& (self.focus_view() matches Some(f) ==> first_of(self.order_view()) == Some(f))
    }

    /// An empty stack with nothing focused.
    pub fn new() -> (s: FocusStack)
        ensures
            s.focus_view() is None,
            s.order_view() == Seq::<WindowId>::empty(),
            s.wf(),
    {
        FocusStack { focused: None, mru: Vec::new() }
    }

    /// The focused window.
    pub fn focused(&self) -> (r: Option<WindowId>)
        ensures
            r == self.focus_view(),
    {
        self.focused
    }

    /// The windows, most recently focused first.
    pub fn order(&self) -> (r: &[WindowId])
        ensures
            r@ == self.order_view(),
    {
        self.mru.as_slice()
    }

    /// Focuses `id` and moves it to the front of the order.
    pub fn focus(&mut self, id: WindowId)
        ensures
            final(self).focus_view() == Some(id),
            final(self).order_view() == order_after_focus(old(self).order_view(), id),
            old(self).wf() ==> final(self).wf(),
    {
        let old_order = self.mru.as_slice();
        let rest = vec_without(old_order, id);
        let mut mru: Vec<WindowId> = Vec::new();
        mru.push(id);
        let mut i: usize = 0;
        while i < rest.len()
            invariant
                i <= rest@.len(),
                mru@ == seq![id] + rest@.take(i as int),
            decreases rest@.len() - i,
        {
            mru.push(rest[i]);
            i += 1;
            assert(mru@ =~= seq![id] + rest@.take(i as int));
        }
        assert(rest@.take(rest@.len() as int) =~= rest@);
        proof {
            lemma_without_excludes(old(self).order_view(), id);
            lemma_without_distinct(old(self).order_view(), id);
            if old(self).wf() {
                lemma_cons_distinct(id, rest@);
            }
        }
        self.mru = mru;
        self.focused = Some(id);
    }

    /// Removes `id`; if it was focused, focus passes to the next window in the order.
    pub fn remove(&mut self, id: WindowId)
        ensures
            final(self).order_view() == without(old(self).order_view(), id),
            final(self).focus_view() == (if old(self).focus_view() == Some(id) {
                first_of(without(old(self).order_view(), id))
            } else {
                old(self).focus_view()
            }),
            old(self).wf() ==> final(self).wf(),
    {
        let rest = vec_without(self.mru.as_slice(), id);
        proof {
            lemma_without_distinct(old(self).order_view(), id);
            if old(self).wf() && old(self).focus_view() is Some && old(self).focus_view() != Some(id) {
                lemma_without_keeps_first(old(self).order_view(), id);
            }
        }
        self.mru = rest;
        if self.focused == Some(id) {
            self.focused = if self.mru.len() > 0 {
                Some(self.mru[0])
            } else {
                None
            };
        }
    }

    /// Removes `id`; if it was focused, nothing is focused afterwards.
    pub fn remove_without_fallback(&mut self, id: WindowId)
        ensures
            final(self).order_view() == without(old(self).order_view(), id),
            final(self).focus_view() == (if old(self).focus_view() == Some(id) {
                None
            } else {
                old(self).focus_view()
            }),
            old(self).wf() ==> final(self).wf(),
    {
        let rest = vec_without(self.mru.as_slice(), id);
        proof {
            lemma_without_distinct(old(self).order_view(), id);
            if old(self).wf() && old(self).focus_view() is Some && old(self).focus_view() != Some(id) {
                lemma_without_keeps_first(old(self).order_view(), id);
            }
        }
        self.mru = rest;
        if self.focused == Some(id) {
            self.focused = None;
        }
    }

    /// Unfocuses without changing the order.
    pub fn clear_focus_only(&mut self)
        ensures
            final(self).focus_view() is None,
            final(self).order_view() == old(self).order_view(),
            old(self).wf() ==> final(self).wf(),
    {
        self.focused = None;
    }

    /// Keeps the windows for which `keep` holds, in order; a focused window for which it
    /// does not hold is unfocused.
    pub fn retain<F: Fn(WindowId) -> bool>(&mut self, keep: F)
        requires
            forall|id: WindowId| keep.requires((id,)),
        ensures
            exists|kept: Seq<bool>|
                {
                    &&& kept.len() == old(self).order_view().len()
                    &&& forall|i: int| 0 <= i < kept.len() ==> keep.ensures((old(self).order_view()[i],), #[trigger] kept[i])
                    &&& final(self).order_view() == kept_by(old(self).order_view(), kept)
                },
            match old(self).focus_view() {
                None => final(self).focus_view() is None,
                Some(f) => (final(self).focus_view() == Some(f) && keep.ensures((f,), true))
                    || (final(self).focus_view() is None && keep.ensures((f,), false)),
            },
            old(self).wf() && (forall|id: WindowId, a: bool, b: bool| keep.ensures((id,), a) && keep.ensures((id,), b) ==> a == b)
                ==> final(self).wf(),
            (forall|id: WindowId, a: bool, b: bool| keep.ensures((id,), a) && keep.ensures((id,), b) ==> a == b)
                ==> final(self).order_view() == old(self).order_view().filter(|id: WindowId| keep.ensures((id,), true))
                && final(self).focus_view() == (match old(self).focus_view() {
                    Some(f) => if keep.ensures((f,), true) { Some(f) } else { None },
                    None => None,
                }),
    {
        let ghost old_order = self.mru@;
        let mut kept_ids: Vec<WindowId> = Vec::new();
        let ghost mut kept: Seq<bool> = Seq::empty();
        let mut i: usize = 0;
        while i < self.mru.len()
            invariant
                forall|id: WindowId| keep.requires((id,)),
                old_order == self.mru@,
                i <= old_order.len(),
                kept.len() == i,
                forall|k: int| 0 <= k < i ==> keep.ensures((old_order[k],), #[trigger] kept[k]),
                kept_ids@ == kept_by(old_order.take(i as int), kept),
            decreases old_order.len() - i,
        {
            let id = self.mru[i];
            let b = keep(id);
            proof {
                let old_kept = kept;
                kept = kept.push(b);
                let next = old_order.take(i + 1);
                assert(next.drop_last() =~= old_order.take(i as int));
                assert(next.last() == id);
                assert(kept[i as int] == b);
                lemma_kept_by_same_flags(old_order.take(i as int), old_kept, kept);
                assert(kept_by(next, kept) == (if b { kept_by(old_order.take(i as int), kept).push(id) } else { kept_by(old_order.take(i as int), kept) }));
            }
            if b {
                kept_ids.push(id);
            }
            i += 1;
        }
        assert(old_order.take(old_order.len() as int) =~= old_order);
        let focused_kept = match self.focused {
            Some(f) => keep(f),
            None => true,
        };
        proof {
            if old(self).wf() && (forall|id: WindowId, a: bool, b: bool| keep.ensures((id,), a) && keep.ensures((id,), b) ==> a == b) {
                lemma_kept_by_distinct(old_order, kept);
                if let Some(f) = self.focused {
                    if focused_kept {
                        assert(keep.ensures((old_order[0],), kept[0]));
                        lemma_kept_by_first(old_order, kept);
                    }
                }
            }
            if forall|id: WindowId, a: bool, b: bool| keep.ensures((id,), a) && keep.ensures((id,), b) ==> a == b {
                let pred = |id: WindowId| keep.ensures((id,), true);
                assert forall|k: int| 0 <= k < old_order.len() implies kept[k] == pred(old_order[k]) by {
                    assert(keep.ensures((old_order[k],), kept[k]));
                }
                lemma_kept_by_filter(old_order, kept, pred);
            }
        }
        self.mru = kept_ids;
        if self.focused.is_some() && !focused_kept {
            self.focused = None;
        }
    }

    /// Moves the front window to the back and focuses the new front window; with fewer
    /// than two windows nothing changes. Returns the focused window.
    pub fn cycle_forward(&mut self) -> (r: Option<WindowId>)
        ensures
            old(self).order_view().len() > 1 ==> final(self).order_view() == rotated_left(old(self).order_view())
                && final(self).focus_view() == first_of(final(self).order_view()),
            old(self).order_view().len() <= 1 ==> *final(self) == *old(self),
            r == final(self).focus_view(),
            old(self).wf() ==> final(self).wf(),
    {
        if self.mru.len() > 1 {
            let ghost s = self.mru@;
            let mut next: Vec<WindowId> = Vec::new();
            let mut i: usize = 1;
            while i < self.mru.len()
                invariant
                    s == self.mru@,
                    1 <= i <= s.len(),
                    next@ == s.subrange(1, i as int),
                decreases s.len() - i,
            {
                next.push(self.mru[i]);
                i += 1;
                assert(next@ =~= s.subrange(1, i as int));
            }
            next.push(self.mru[0]);
            assert(next@ =~= rotated_left(s));
            proof {
                lemma_rotate_left_distinct(s);
            }
            self.mru = next;
            self.focused = Some(self.mru[0]);
        }
        self.focused
    }

    /// Moves the back window to the front and focuses it; with fewer than two windows
    /// nothing changes. Returns the focused window.
    pub fn cycle_backward(&mut self) -> (r: Option<WindowId>)
        ensures
            old(self).order_view().len() > 1 ==> final(self).order_view() == rotated_right(old(self).order_view())
                && final(self).focus_view() == first_of(final(self).order_view()),
            old(self).order_view().len() <= 1 ==> *final(self) == *old(self),
            r == final(self).focus_view(),
            old(self).wf() ==> final(self).wf(),
    {
        let n = self.mru.len();
        if n > 1 {
            let ghost s = self.mru@;
            let mut next: Vec<WindowId> = Vec::new();
            next.push(self.mru[n - 1]);
            let mut i: usize = 0;
            while i < n - 1
                invariant
                    s == self.mru@,
                    n == s.len(),
                    n > 1,
                    i <= n - 1,
                    next@ == seq![s.last()] + s.take(i as int),
                decreases n - 1 - i,
            {
                next.push(self.mru[i]);
                i += 1;
                assert(next@ =~= seq![s.last()] + s.take(i as int));
            }
            assert(next@ =~= rotated_right(s));
            proof {
                lemma_rotate_right_distinct(s);
            }
            self.mru = next;
            self.focused = Some(self.mru[0]);
        }
        self.focused
    }
}

impl Default for FocusStack {
    fn default() -> (s: Self)
        ensures
            s.focus_view() is None,
            s.order_view() == Seq::<WindowId>::empty(),
    {
        FocusStack::new()
    }
}

/// The elements of `s` other than `id`, in order.
fn vec_without(s: &[WindowId], id: WindowId) -> (r: Vec<WindowId>)
    ensures
        r@ == without(s@, id),
{
    let mut r: Vec<WindowId> = Vec::new();
    let mut i: usize = 0;
    while i < s.len()
        invariant
            i <= s@.len(),
            r@ == without(s@.take(i as int), id),
        decreases s@.len() - i,
    {
        let ghost next = s@.take(i + 1);
        proof {
            assert(next.drop_last() =~= s@.take(i as int));
        }
        if s[i] != id {
            r.push(s[i]);
        }
        i += 1;
    }
    assert(s@.take(s@.len() as int) =~= s@);
    r
}

proof fn lemma_without_subset(s: Seq<WindowId>, id: WindowId)
    ensures
        forall|x: WindowId| #[trigger] without(s, id).contains(x) ==> s.contains(x) && x != id,
        without(s, id).len() <= s.len(),
    decreases s.len(),
{
    if s.len() > 0 {
        lemma_without_subset(s.drop_last(), id);
        assert forall|x: WindowId| without(s, id).contains(x) implies s.contains(x) && x != id by {
            let r = without(s.drop_last(), id);
            if r.contains(x) {
                let k = choose|k: int| 0 <= k < r.len() && r[k] == x;
                assert(s.drop_last().contains(x));
                let m = choose|m: int| 0 <= m < s.drop_last().len() && s.drop_last()[m] == x;
                assert(s[m] == x);
            } else {
                assert(s[s.len() - 1] == x);
            }
        }
    }
}

pub proof fn lemma_without_excludes(s: Seq<WindowId>, id: WindowId)
    ensures
        !without(s, id).contains(id),
{
    lemma_without_subset(s, id);
}

pub proof fn lemma_without_distinct(s: Seq<WindowId>, id: WindowId)
    ensures
        distinct(s) ==> distinct(without(s, id)),
    decreases s.len(),
{
    if s.len() > 0 && distinct(s) {
        let p = s.drop_last();
        assert(distinct(p));
        lemma_without_distinct(p, id);
        lemma_without_subset(p, id);
        if s.last() != id {
            let r = without(p, id);
            assert(!p.contains(s.last())) by {
                if p.contains(s.last()) {
                    let k = choose|k: int| 0 <= k < p.len() && p[k] == s.last();
                    assert(s[k] == s[s.len() - 1]);
                }
            }
            assert(!r.contains(s.last()));
            let q = r.push(s.last());
            assert forall|i: int, j: int| 0 <= i < q.len() && 0 <= j < q.len() && i != j implies q[i] != q[j] by {
                if i == q.len() - 1 {
                    assert(r.contains(q[j]) || j == q.len() - 1);
                } else if j == q.len() - 1 {
                    assert(r.contains(q[i]));
                }
            }
        }
    }
}

/// Each element of `without(s, id)` is an element of `s` other than `id`.
pub proof fn lemma_without_member(s: Seq<WindowId>, id: WindowId, k: int)
    requires
        0 <= k < without(s, id).len(),
    ensures
        without(s, id)[k] != id,
        exists|j: int| 0 <= j < s.len() && s[j] == without(s, id)[k],
{
    lemma_without_subset(s, id);
    assert(without(s, id).contains(without(s, id)[k]));
}

/// Removing `id` keeps every other element.
pub proof fn lemma_without_contains(s: Seq<WindowId>, id: WindowId, x: WindowId)
    requires
        x != id,
    ensures
        without(s, id).contains(x) == s.contains(x),
    decreases s.len(),
{
    lemma_without_subset(s, id);
    if s.len() > 0 {
        let p = s.drop_last();
        lemma_without_contains(p, id, x);
        if s.contains(x) {
            let j = choose|j: int| 0 <= j < s.len() && s[j] == x;
            if j < s.len() - 1 {
                assert(p[j] == x);
                let r = without(p, id);
                let m = choose|m: int| 0 <= m < r.len() && r[m] == x;
                if s.last() != id {
                    assert(r.push(s.last())[m] == x);
                }
            } else {
                assert(without(s, id).last() == x);
            }
        }
    }
}

proof fn lemma_without_keeps_first(s: Seq<WindowId>, id: WindowId)
    requires
        s.len() > 0,
        s[0] != id,
    ensures
        without(s, id).len() > 0,
        without(s, id)[0] == s[0],
    decreases s.len(),
{
    if s.len() == 1 {
        assert(s.drop_last().len() == 0);
        assert(without(s.drop_last(), id) =~= Seq::<WindowId>::empty());
    } else {
        let p = s.drop_last();
        assert(p[0] == s[0]);
        lemma_without_keeps_first(p, id);
    }
}

proof fn lemma_cons_distinct(id: WindowId, rest: Seq<WindowId>)
    requires
        distinct(rest),
        !rest.contains(id),
    ensures
        distinct(seq![id] + rest),
{
    let q = seq![id] + rest;
    assert forall|i: int, j: int| 0 <= i < q.len() && 0 <= j < q.len() && i != j implies q[i] != q[j] by {
        if i == 0 {
            assert(q[j] == rest[j - 1]);
        } else if j == 0 {
            assert(q[i] == rest[i - 1]);
        } else {
            assert(q[i] == rest[i - 1]);
            assert(q[j] == rest[j - 1]);
        }
    }
}

proof fn lemma_rotate_left_distinct(s: Seq<WindowId>)
    requires
        s.len() > 1,
    ensures
        distinct(s) ==> distinct(rotated_left(s)),
{
    let q = rotated_left(s);
    if distinct(s) {
        assert forall|i: int, j: int| 0 <= i < q.len() && 0 <= j < q.len() && i != j implies q[i] != q[j] by {
            let si = if i == q.len() - 1 { 0 } else { i + 1 };
            let sj = if j == q.len() - 1 { 0 } else { j + 1 };
            assert(q[i] == s[si]);
            assert(q[j] == s[sj]);
        }
    }
}

proof fn lemma_rotate_right_distinct(s: Seq<WindowId>)
    requires
        s.len() > 1,
    ensures
        distinct(s) ==> distinct(rotated_right(s)),
{
    let q = rotated_right(s);
    if distinct(s) {
        assert forall|i: int, j: int| 0 <= i < q.len() && 0 <= j < q.len() && i != j implies q[i] != q[j] by {
            let si = if i == 0 { s.len() - 1 } else { i - 1 };
            let sj = if j == 0 { s.len() - 1 } else { j - 1 };
            assert(q[i] == s[si]);
            assert(q[j] == s[sj]);
        }
    }
}

proof fn lemma_kept_by_same_flags(s: Seq<WindowId>, k1: Seq<bool>, k2: Seq<bool>)
    requires
        k1.len() >= s.len(),
        k2.len() >= s.len(),
        forall|i: int| 0 <= i < s.len() ==> k1[i] == k2[i],
    ensures
        kept_by(s, k1) == kept_by(s, k2),
    decreases s.len(),
{
    if s.len() > 0 {
        lemma_kept_by_same_flags(s.drop_last(), k1, k2);
    }
}

proof fn lemma_kept_by_subset(s: Seq<WindowId>, kept: Seq<bool>)
    requires
        kept.len() >= s.len(),
    ensures
        forall|x: WindowId| #[trigger] kept_by(s, kept).contains(x) ==> s.contains(x),
    decreases s.len(),
{
    if s.len() > 0 {
        lemma_kept_by_subset(s.drop_last(), kept);
        assert forall|x: WindowId| kept_by(s, kept).contains(x) implies s.contains(x) by {
            let r = kept_by(s.drop_last(), kept);
            if r.contains(x) {
                let m = choose|m: int| 0 <= m < s.drop_last().len() && s.drop_last()[m] == x;
                assert(s[m] == x);
            } else {
                assert(s[s.len() - 1] == x);
            }
        }
    }
}

proof fn lemma_kept_by_distinct(s: Seq<WindowId>, kept: Seq<bool>)
    requires
        kept.len() >= s.len(),
    ensures
        distinct(s) ==> distinct(kept_by(s, kept)),
    decreases s.len(),
{
    if s.len() > 0 && distinct(s) {
        let p = s.drop_last();
        assert(distinct(p));
        lemma_kept_by_distinct(p, kept);
        lemma_kept_by_subset(p, kept);
        if kept[s.len() - 1] {
            let r = kept_by(p, kept);
            assert(!p.contains(s.last())) by {
                if p.contains(s.last()) {
                    let k = choose|k: int| 0 <= k < p.len() && p[k] == s.last();
                    assert(s[k] == s[s.len() - 1]);
                }
            }
            let q = r.push(s.last());
            assert forall|i: int, j: int| 0 <= i < q.len() && 0 <= j < q.len() && i != j implies q[i] != q[j] by {
                if i == q.len() - 1 {
                    assert(r.contains(q[j]) || j == q.len() - 1);
                } else if j == q.len() - 1 {
                    assert(r.contains(q[i]));
                }
            }
        }
    }
}

proof fn lemma_kept_by_first(s: Seq<WindowId>, kept: Seq<bool>)
    requires
        s.len() > 0,
        kept.len() >= s.len(),
        kept[0],
    ensures
        kept_by(s, kept).len() > 0,
        kept_by(s, kept)[0] == s[0],
    decreases s.len(),
{
    if s.len() == 1 {
        assert(kept_by(s.drop_last(), kept) =~= Seq::<WindowId>::empty());
    } else {
        lemma_kept_by_first(s.drop_last(), kept);
    }
}

/// Focusing the same window twice leaves the same order as focusing it once.
pub proof fn law_focus_idempotent(s: Seq<WindowId>, id: WindowId)
    ensures
        order_after_focus(order_after_focus(s, id), id) == order_after_focus(s, id),
{
    let once = order_after_focus(s, id);
    lemma_without_excludes(s, id);
    lemma_without_absent(without(s, id), id);
    assert(without(once, id) == without(s, id)) by {
        lemma_without_cons_self(without(s, id), id);
    }
}

proof fn lemma_without_absent(s: Seq<WindowId>, id: WindowId)
    requires
        !s.contains(id),
    ensures
        without(s, id) == s,
    decreases s.len(),
{
    if s.len() > 0 {
        let p = s.drop_last();
        assert(!p.contains(id)) by {
            if p.contains(id) {
                let k = choose|k: int| 0 <= k < p.len() && p[k] == id;
                assert(s[k] == id);
            }
        }
        lemma_without_absent(p, id);
        assert(s.last() != id);
        assert(p.push(s.last()) =~= s);
    }
}

proof fn lemma_without_cons_self(s: Seq<WindowId>, id: WindowId)
    ensures
        without(seq![id] + s, id) == without(s, id),
    decreases s.len(),
{
    let q = seq![id] + s;
    if s.len() == 0 {
        assert(q.drop_last() =~= Seq::<WindowId>::empty());
        assert(q.last() == id);
        assert(without(q.drop_last(), id) =~= Seq::<WindowId>::empty());
        assert(without(s, id) =~= Seq::<WindowId>::empty());
    } else {
        assert(q.drop_last() =~= seq![id] + s.drop_last());
        assert(q.last() == s.last());
        lemma_without_cons_self(s.drop_last(), id);
        assert(without(q, id) == (if s.last() == id { without(q.drop_last(), id) } else { without(q.drop_last(), id).push(s.last()) }));
    }
}

/// Cycling forward and then backward restores the order, and so does the reverse.
pub proof fn law_cycle_round_trip(s: Seq<WindowId>)
    requires
        s.len() > 1,
    ensures
        rotated_right(rotated_left(s)) == s,
        rotated_left(rotated_right(s)) == s,
{
    assert(rotated_right(rotated_left(s)) =~= s);
    assert(rotated_left(rotated_right(s)) =~= s);
}

/// After a window is removed it no longer occurs in the order.
pub proof fn law_removed_window_absent(s: Seq<WindowId>, id: WindowId)
    ensures
        !without(s, id).contains(id),
{
    lemma_without_excludes(s, id);
}

} // verus!
