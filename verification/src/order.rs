//! The order in which windows are brought back.

use crate::session::{SessionWindow, SessionWindowView};
use crate::text::is_text_le;
use vstd::prelude::*;

verus! {

/// An absent output stands before every named one; names stand in the order of strings.
pub open spec fn output_le(a: Option<Seq<char>>, b: Option<Seq<char>>) -> bool {
    match (a, b) {
        (None, _) => true,
        (Some(_), None) => false,
        (Some(x), Some(y)) => crate::text::text_le(x, y),
    }
}

/// An absent index stands before every number.
pub open spec fn idx_le(a: Option<u8>, b: Option<u8>) -> bool {
    match (a, b) {
        (None, _) => true,
        (Some(_), None) => false,
        (Some(x), Some(y)) => x <= y,
    }
}

/// Whether two windows are on the same output and have the same workspace index.
pub open spec fn same_place(a: SessionWindowView, b: SessionWindowView) -> bool {
    a.workspace_output == b.workspace_output && a.workspace_idx == b.workspace_idx
}

/// Windows are ordered by output first and by workspace index within an output.
pub open spec fn place_le(a: SessionWindowView, b: SessionWindowView) -> bool {
    if a.workspace_output == b.workspace_output {
        idx_le(a.workspace_idx, b.workspace_idx)
    } else {
        output_le(a.workspace_output, b.workspace_output)
    }
}

/// Whether each window stands after those that go before it.
pub open spec fn in_place_order(windows: Seq<SessionWindowView>) -> bool {
    forall|i: int, j: int|
        0 <= i < j < windows.len() ==> place_le(#[trigger] windows[i], #[trigger] windows[j])
}

/// The windows of one place, in their order.
pub open spec fn at_place(windows: Seq<SessionWindowView>, place: SessionWindowView) -> Seq<
    SessionWindowView,
> {
    windows.filter(|w: SessionWindowView| same_place(w, place))
}

/// `ordered` holds `windows` by place, and those of one place in the order that they had.
pub open spec fn restore_order(
    windows: Seq<SessionWindowView>,
    ordered: Seq<SessionWindowView>,
) -> bool {
    &&& in_place_order(ordered)
    &&& forall|place: SessionWindowView| #[trigger]
        at_place(ordered, place) == at_place(windows, place)
}

/// The windows in the order in which they are brought back.
pub open spec fn restore_sequence(windows: Seq<SessionWindowView>) -> Seq<SessionWindowView> {
    choose|ordered: Seq<SessionWindowView>| restore_order(windows, ordered)
}

/// The order of places is total.
pub proof fn lemma_place_le_total(a: SessionWindowView, b: SessionWindowView)
    ensures
        place_le(a, b) || place_le(b, a),
{
    if a.workspace_output is Some && b.workspace_output is Some {
        crate::text::lemma_text_le_total(a.workspace_output->0, b.workspace_output->0);
    }
}

/// Windows that stand both before and after each other are of one place.
pub proof fn lemma_place_le_antisymmetric(a: SessionWindowView, b: SessionWindowView)
    requires
        place_le(a, b),
        place_le(b, a),
    ensures
        same_place(a, b),
{
    if a.workspace_output is Some && b.workspace_output is Some && a.workspace_output
        != b.workspace_output {
        crate::text::lemma_text_le_antisymmetric(a.workspace_output->0, b.workspace_output->0);
    }
}

/// The order of places is transitive.
pub proof fn lemma_place_le_transitive(
    a: SessionWindowView,
    b: SessionWindowView,
    c: SessionWindowView,
)
    requires
        place_le(a, b),
        place_le(b, c),
    ensures
        place_le(a, c),
{
    let (x, y, z) = (a.workspace_output, b.workspace_output, c.workspace_output);
    if x != y && y != z && x is Some {
        crate::text::lemma_text_le_transitive(x->0, y->0, z->0);
        if x == z {
            crate::text::lemma_text_le_antisymmetric(x->0, y->0);
        }
    }
}

/// A filter that no element passes leaves nothing.
proof fn lemma_filter_none<A>(s: Seq<A>, pred: spec_fn(A) -> bool)
    requires
        forall|i: int| 0 <= i < s.len() ==> !pred(#[trigger] s[i]),
    ensures
        s.filter(pred) == Seq::<A>::empty(),
    decreases s.len(),
{
    reveal(Seq::filter);
    if s.len() > 0 {
        lemma_filter_none(s.drop_last(), pred);
        assert(!pred(s[s.len() - 1]));
    }
}

/// What a filter leaves of a sequence with one more element in front.
proof fn lemma_filter_front<A>(x: A, s: Seq<A>, pred: spec_fn(A) -> bool)
    ensures
        (seq![x] + s).filter(pred) == if pred(x) {
            seq![x] + s.filter(pred)
        } else {
            s.filter(pred)
        },
{
    Seq::filter_distributes_over_add(seq![x], s, pred);
    reveal_with_fuel(Seq::filter, 2);
    assert(seq![x].drop_last() == Seq::<A>::empty());
    assert(seq![x].last() == x);
    if pred(x) {
        assert(seq![x].filter(pred) == seq![x]);
    } else {
        assert(seq![x].filter(pred) + s.filter(pred) == s.filter(pred));
    }
}

/// A window that is put before the first that it may stand before keeps the order, and comes
/// first of its place.
proof fn lemma_insert(
    windows: Seq<SessionWindowView>,
    ordered: Seq<SessionWindowView>,
    x: SessionWindowView,
    p: int,
)
    requires
        restore_order(windows, ordered),
        0 <= p <= ordered.len(),
        forall|k: int| 0 <= k < p ==> !place_le(x, #[trigger] ordered[k]),
        p < ordered.len() ==> place_le(x, ordered[p]),
    ensures
        restore_order(seq![x] + windows, ordered.insert(p, x)),
{
    let result = ordered.insert(p, x);
    assert forall|i: int, j: int| 0 <= i < j < result.len() implies place_le(
        #[trigger] result[i],
        #[trigger] result[j],
    ) by {
        if i < p && j == p {
            assert(result[i] == ordered[i]);
            lemma_place_le_total(x, ordered[i]);
        } else if i == p {
            assert(result[j] == ordered[j - 1]);
            if j - 1 > p {
                assert(place_le(ordered[p], ordered[j - 1]));
                lemma_place_le_transitive(x, ordered[p], ordered[j - 1]);
            }
        } else {
            let i0 = if i < p { i } else { i - 1 };
            let j0 = if j < p { j } else { j - 1 };
            assert(result[i] == ordered[i0]);
            assert(result[j] == ordered[j0]);
        }
    }
    assert forall|place: SessionWindowView| #[trigger]
        at_place(result, place) == at_place(seq![x] + windows, place) by {
        let pred = |w: SessionWindowView| same_place(w, place);
        let front = ordered.take(p);
        let back = ordered.skip(p);
        assert(ordered == front + back);
        assert(result == front + (seq![x] + back));
        Seq::filter_distributes_over_add(front, back, pred);
        Seq::filter_distributes_over_add(front, seq![x] + back, pred);
        lemma_filter_front(x, back, pred);
        lemma_filter_front(x, windows, pred);
        assert(at_place(ordered, place) == at_place(windows, place));
        if pred(x) {
            assert forall|k: int| 0 <= k < front.len() implies !pred(#[trigger] front[k]) by {
                assert(front[k] == ordered[k]);
                if pred(front[k]) {
                    assert(same_place(x, ordered[k]));
                    assert(place_le(x, ordered[k]));
                }
            }
            lemma_filter_none(front, pred);
            assert(front.filter(pred) + (seq![x] + back.filter(pred)) == seq![x] + (front.filter(
                pred,
            ) + back.filter(pred)));
        }
    }
}

/// Tells whether window `a` stands before `b`, or at the same place.
pub fn is_place_le(a: &SessionWindow, b: &SessionWindow) -> (res: bool)
    ensures
        res == place_le(a@, b@),
{
    if let Some(x) = a.workspace_output {
        match b.workspace_output {
            Some(y) => {
                if !is_text_le(x, y) {
                    proof {
                        crate::text::lemma_text_le_total(x@, x@);
                    }
                    return false;
                }
                if !is_text_le(y, x) {
                    proof {
                        crate::text::lemma_text_le_total(x@, x@);
                    }
                    return true;
                }
                proof {
                    crate::text::lemma_text_le_antisymmetric(x@, y@);
                }
            },
            None => {
                return false;
            },
        }
    } else if b.workspace_output.is_some() {
        return true;
    }
    match (a.workspace_idx, b.workspace_idx) {
        (None, _) => true,
        (Some(_), None) => false,
        (Some(i), Some(j)) => i <= j,
    }
}

/// Sorts windows by output and workspace index, so that lower-indexed workspaces get created
/// first; windows of the same workspace stay in the order that they have.
pub fn sort_for_restore<'niri>(windows: Vec<SessionWindow<'niri>>) -> (res: Vec<
    SessionWindow<'niri>,
>)
    ensures
        restore_order(windows.deep_view(), res.deep_view()),
        res.deep_view() == restore_sequence(windows.deep_view()),
{
    let ghost all = windows.deep_view();
    let mut left = windows;
    let mut sorted: Vec<SessionWindow<'niri>> = Vec::new();
    proof {
        assert(left.deep_view() == all.take(all.len() as int));
        assert(all.skip(all.len() as int) == sorted.deep_view());
    }
    while left.len() > 0
        invariant
            left@.len() <= all.len(),
            left.deep_view() == all.take(left@.len() as int),
            restore_order(all.skip(left@.len() as int), sorted.deep_view()),
        decreases left@.len(),
    {
        let window: SessionWindow<'niri> = left.pop().unwrap();
        let ghost n = left@.len() as int;
        let ghost before = sorted.deep_view();
        assert(all.take(n + 1)[n] == window@);
        let mut p: usize = 0;
        while p < sorted.len() && !is_place_le(&window, &sorted[p])
            invariant
                p <= sorted.len(),
                before == sorted.deep_view(),
                forall|k: int| 0 <= k < p ==> !place_le(window@, #[trigger] before[k]),
            decreases sorted.len() - p,
        {
            p = p + 1;
        }
        proof {
            lemma_insert(all.skip(n + 1), before, window@, p as int);
            assert(seq![window@] + all.skip(n + 1) == all.skip(n));
        }
        sorted.insert(p, window);
        assert(sorted.deep_view() == before.insert(p as int, window@));
    }
    proof {
        assert(all.skip(0) == all);
        law_restore_order_is_unique(all, sorted.deep_view(), restore_sequence(all));
    }
    sorted
}

/// A window occurs among those of its place as often as among all.
proof fn lemma_at_place_count(windows: Seq<SessionWindowView>, w: SessionWindowView)
    ensures
        at_place(windows, w).to_multiset().count(w) == windows.to_multiset().count(w),
    decreases windows.len(),
{
    broadcast use vstd::seq_lib::group_to_multiset_ensures;

    let pred = |v: SessionWindowView| same_place(v, w);
    reveal(Seq::filter);
    if windows.len() > 0 {
        let rest = windows.drop_last();
        let last = windows.last();
        lemma_at_place_count(rest, w);
        assert(windows == rest.push(last));
        assert(pred(w));
        if pred(last) {
            assert(at_place(windows, w) == at_place(rest, w).push(last));
        } else {
            assert(at_place(windows, w) == at_place(rest, w));
        }
    } else {
        assert(at_place(windows, w) == windows);
    }
}

/// Sorting loses no window and adds none.
pub proof fn law_restore_order_keeps_windows(
    windows: Seq<SessionWindowView>,
    ordered: Seq<SessionWindowView>,
)
    requires
        restore_order(windows, ordered),
    ensures
        ordered.to_multiset() == windows.to_multiset(),
        ordered.len() == windows.len(),
{
    broadcast use vstd::seq_lib::group_to_multiset_ensures;

    assert forall|w: SessionWindowView|
        ordered.to_multiset().count(w) == windows.to_multiset().count(w) by {
        lemma_at_place_count(windows, w);
        lemma_at_place_count(ordered, w);
        assert(at_place(ordered, w) == at_place(windows, w));
    }
    assert(ordered.to_multiset() =~= windows.to_multiset());
    assert(ordered.to_multiset().len() == ordered.len());
    assert(windows.to_multiset().len() == windows.len());
}

/// Of two sequences with the same windows at each place, the first windows are the same if both
/// are in order.
proof fn lemma_same_first(a: Seq<SessionWindowView>, b: Seq<SessionWindowView>)
    requires
        in_place_order(a),
        in_place_order(b),
        a.len() > 0,
        forall|place: SessionWindowView| #[trigger] at_place(a, place) == at_place(b, place),
    ensures
        b.len() > 0,
        a[0] == b[0],
{
    let pa = |w: SessionWindowView| same_place(w, a[0]);
    assert(a == seq![a[0]] + a.drop_first());
    lemma_filter_front(a[0], a.drop_first(), pa);
    assert(at_place(a, a[0]) == a.filter(pa));
    assert(at_place(a, a[0]).len() > 0 && at_place(a, a[0])[0] == a[0]);
    assert(at_place(a, a[0]) == at_place(b, a[0]));
    assert(at_place(b, a[0]) == b.filter(pa));
    if b.len() == 0 {
        lemma_filter_none(b, pa);
    }
    let pb = |w: SessionWindowView| same_place(w, b[0]);
    assert(b == seq![b[0]] + b.drop_first());
    lemma_filter_front(b[0], b.drop_first(), pb);
    assert(at_place(b, b[0]) == b.filter(pb));
    assert(at_place(b, b[0]).len() > 0 && at_place(b, b[0])[0] == b[0]);
    assert(at_place(a, b[0]) == at_place(b, b[0]));
    assert(at_place(a, b[0]) == a.filter(pb));
    // Each first window occurs in the other sequence too, where it stands after the first
    assert(b.filter(pa).contains(a[0]));
    assert(a.filter(pb).contains(b[0]));
    b.lemma_filter_contains_rev(pa, a[0]);
    a.lemma_filter_contains_rev(pb, b[0]);
    let i = choose|i: int| 0 <= i < b.len() && b[i] == a[0];
    let j = choose|j: int| 0 <= j < a.len() && a[j] == b[0];
    lemma_place_le_total(a[0], a[0]);
    lemma_place_le_total(b[0], b[0]);
    assert(place_le(b[0], b[i]));
    assert(place_le(a[0], a[j]));
    lemma_place_le_antisymmetric(a[0], b[0]);
    lemma_filter_front(b[0], b.drop_first(), pa);
    assert(at_place(b, a[0])[0] == b[0]);
}

/// There is only one such order: windows by place, and those of one place as they were.
pub proof fn law_restore_order_is_unique(
    windows: Seq<SessionWindowView>,
    a: Seq<SessionWindowView>,
    b: Seq<SessionWindowView>,
)
    requires
        restore_order(windows, a),
        restore_order(windows, b),
    ensures
        a == b,
{
    assert forall|place: SessionWindowView| #[trigger]
        at_place(a, place) == at_place(b, place) by {
        assert(at_place(a, place) == at_place(windows, place));
        assert(at_place(b, place) == at_place(windows, place));
    }
    lemma_order_determined(a, b);
}

proof fn lemma_order_determined(a: Seq<SessionWindowView>, b: Seq<SessionWindowView>)
    requires
        in_place_order(a),
        in_place_order(b),
        forall|place: SessionWindowView| #[trigger] at_place(a, place) == at_place(b, place),
    ensures
        a == b,
    decreases a.len(),
{
    if a.len() == 0 {
        if b.len() > 0 {
            assert forall|place: SessionWindowView| #[trigger]
                at_place(b, place) == at_place(a, place) by {
                assert(at_place(a, place) == at_place(b, place));
            }
            lemma_same_first(b, a);
        }
        assert(a == b);
    } else {
        lemma_same_first(a, b);
        let x = a[0];
        let ra = a.drop_first();
        let rb = b.drop_first();
        assert(a == seq![x] + ra);
        assert(b == seq![x] + rb);
        assert forall|place: SessionWindowView| #[trigger]
            at_place(ra, place) == at_place(rb, place) by {
            let pred = |w: SessionWindowView| same_place(w, place);
            lemma_filter_front(x, ra, pred);
            lemma_filter_front(x, rb, pred);
            assert(at_place(a, place) == at_place(b, place));
            if pred(x) {
                assert(at_place(a, place).drop_first() == at_place(ra, place));
                assert(at_place(b, place).drop_first() == at_place(rb, place));
            }
        }
        assert forall|i: int, j: int| 0 <= i < j < ra.len() implies place_le(
            #[trigger] ra[i],
            #[trigger] ra[j],
        ) by {
            assert(ra[i] == a[i + 1] && ra[j] == a[j + 1]);
        }
        assert forall|i: int, j: int| 0 <= i < j < rb.len() implies place_le(
            #[trigger] rb[i],
            #[trigger] rb[j],
        ) by {
            assert(rb[i] == b[i + 1] && rb[j] == b[j + 1]);
        }
        lemma_order_determined(ra, rb);
    }
}

/// The place of a window among those that are in order already.
proof fn lemma_insert_position(ordered: Seq<SessionWindowView>, x: SessionWindowView) -> (p: int)
    ensures
        0 <= p <= ordered.len(),
        forall|k: int| 0 <= k < p ==> !place_le(x, #[trigger] ordered[k]),
        p < ordered.len() ==> place_le(x, ordered[p]),
    decreases ordered.len(),
{
    if ordered.len() == 0 || place_le(x, ordered[0]) {
        0
    } else {
        let rest = ordered.drop_first();
        let p = lemma_insert_position(rest, x);
        assert forall|k: int| 0 <= k < p + 1 implies !place_le(x, #[trigger] ordered[k]) by {
            if k > 0 {
                assert(ordered[k] == rest[k - 1]);
            }
        }
        if p + 1 < ordered.len() {
            assert(ordered[p + 1] == rest[p]);
        }
        p + 1
    }
}

proof fn lemma_restore_order_exists(windows: Seq<SessionWindowView>) -> (ordered: Seq<
    SessionWindowView,
>)
    ensures
        restore_order(windows, ordered),
    decreases windows.len(),
{
    if windows.len() == 0 {
        windows
    } else {
        let ordered = lemma_restore_order_exists(windows.drop_first());
        let p = lemma_insert_position(ordered, windows[0]);
        lemma_insert(windows.drop_first(), ordered, windows[0], p);
        assert(seq![windows[0]] + windows.drop_first() == windows);
        ordered.insert(p, windows[0])
    }
}

/// Every session has such an order.
pub proof fn law_restore_sequence_is_in_order(windows: Seq<SessionWindowView>)
    ensures
        restore_order(windows, restore_sequence(windows)),
{
    let ordered = lemma_restore_order_exists(windows);
    assert(restore_order(windows, ordered));
}

/// The windows are brought back sorted, and nothing is lost or added. Those without an output
/// come first, then output by output; on one output those without a workspace index come first,
/// then from the lowest index up; and windows of the same output and index keep their order.
pub proof fn law_restore_sequence_is_a_stable_sort(
    windows: Seq<SessionWindowView>,
    i: int,
    j: int,
    output: Option<Seq<char>>,
    idx: Option<u8>,
)
    ensures
        ({
            let ordered = restore_sequence(windows);
            &&& ordered.to_multiset() == windows.to_multiset()
            &&& 0 <= i < j < ordered.len() ==> {
                let a = ordered[i];
                let b = ordered[j];
                &&& b.workspace_output is None ==> a.workspace_output is None
                &&& a.workspace_output is Some && b.workspace_output is Some
                    ==> crate::text::text_le(a.workspace_output->0, b.workspace_output->0)
                &&& a.workspace_output == b.workspace_output && b.workspace_idx is None
                    ==> a.workspace_idx is None
                &&& a.workspace_output == b.workspace_output && a.workspace_idx is Some
                    && b.workspace_idx is Some ==> a.workspace_idx->0 <= b.workspace_idx->0
            }
            &&& ordered.filter(
                |w: SessionWindowView| w.workspace_output == output && w.workspace_idx == idx,
            ) == windows.filter(
                |w: SessionWindowView| w.workspace_output == output && w.workspace_idx == idx,
            )
        }),
{
    let ordered = restore_sequence(windows);
    law_restore_sequence_is_in_order(windows);
    law_restore_order_keeps_windows(windows, ordered);
    if 0 <= i < j < ordered.len() {
        assert(place_le(ordered[i], ordered[j]));
        if ordered[i].workspace_output is Some {
            crate::text::lemma_text_le_total(
                ordered[i].workspace_output->0,
                ordered[i].workspace_output->0,
            );
        }
    }
    let place = SessionWindowView {
        id: 0,
        app_id: None,
        launch_command: None,
        workspace_idx: idx,
        workspace_name: None,
        workspace_output: output,
        is_focused: false,
        window_size: None,
    };
    let direct = |w: SessionWindowView| w.workspace_output == output && w.workspace_idx == idx;
    let at = |w: SessionWindowView| same_place(w, place);
    assert(direct =~= at);
    assert(at_place(ordered, place) == at_place(windows, place));
    assert(at_place(ordered, place) == ordered.filter(at));
    assert(at_place(windows, place) == windows.filter(at));
}

} // verus!
