//! What holds of the monocle operations across calls, proved over the model.

use vstd::prelude::*;

use crate::model::{
    append_missing, kept_for, lemma_position, not_selected, of_app, position, FrameBase,
    LayoutStateView,
};
use crate::seq_facts::{
    lemma_count_prefix, lemma_count_push, lemma_filter_all, lemma_filter_contains,
    lemma_filter_count, lemma_filter_filter, lemma_filter_no_duplicates, lemma_filter_remove,
};
use crate::render::{describes_layout, ContainerTreeNode};
use crate::window::{pid_t, Direction, WindowId};

verus! {

/// Removing a window keeps the selection among the windows, and present
/// whenever a window is.
pub proof fn law_removal_keeps_selection_valid(v: LayoutStateView, w: WindowId)
    requires
        v.wf(),
    ensures
        v.without(w).wf(),
{
    lemma_position(v.windows, w);
    if let Some(i) = position(v.windows, w) {
        let rest = v.windows.remove(i);
        if let Some(s) = v.selected {
            if s != w {
                let k = choose|k: int| 0 <= k < v.windows.len() && v.windows[k] == s;
                if k < i {
                    assert(rest[k] == s);
                } else {
                    assert(rest[k - 1] == s);
                }
            } else if i < rest.len() {
                assert(rest.contains(rest[i]));
            } else if rest.len() > 0 {
                assert(rest.contains(rest[rest.len() - 1]));
            }
        }
    }
}

/// Removing windows one after the other keeps the selection valid.
pub proof fn law_removals_keep_selection_valid(v: LayoutStateView, ws: Seq<WindowId>)
    requires
        v.wf(),
    ensures
        v.without_each(ws).wf(),
    decreases ws.len(),
{
    if ws.len() > 0 {
        law_removals_keep_selection_valid(v, ws.drop_last());
        law_removal_keeps_selection_valid(v.without_each(ws.drop_last()), ws.last());
    }
}

/// Adding a window behind the selection leaves it selected and among the
/// windows.
pub proof fn law_adding_selects_the_window(v: LayoutStateView, w: WindowId)
    ensures
        v.with_window_after_selection(w).selected == Some(w),
        v.with_window_after_selection(w).windows.contains(w),
        v.with_window_after_selection(w).wf(),
{
    lemma_position(v.windows, w);
    let r = v.with_window_after_selection(w);
    match position(v.windows, w) {
        Some(i) => {
            assert(r.windows[i] == w);
        },
        None => {
            if let Some(s) = v.selected {
                lemma_position(v.windows, s);
            }
            let at = match v.selected_index() {
                Some(i) => i + 1,
                None => v.windows.len() as int,
            };
            v.windows.insert_ensures(at, w);
            assert(r.windows[at] == w);
        },
    }
}

/// Moving the selection, selecting, exchanging windows and toggling
/// fullscreen keep the selection valid.
pub proof fn law_selection_changes_keep_selection_valid(
    v: LayoutStateView,
    dir: Direction,
    w: WindowId,
    a: WindowId,
    b: WindowId,
)
    requires
        v.wf(),
    ensures
        v.stepped(dir).wf(),
        v.with_selection(w).wf(),
        v.swapped(a, b).wf(),
        v.selection_moved(dir).wf(),
        v.fullscreen_toggled().wf(),
        v.fullscreen_within_gaps_toggled().wf(),
{
    lemma_position(v.windows, a);
    lemma_position(v.windows, b);
    if let Some(s) = v.selected {
        lemma_position(v.windows, s);
        let k = choose|k: int| 0 <= k < v.windows.len() && v.windows[k] == s;
        lemma_swap_keeps_members(v.windows, position(v.windows, a), position(v.windows, b), k);
        match v.neighbor_index(dir) {
            Some(n) => {
                assert(v.windows.contains(v.windows[n]));
                lemma_swap_keeps_members(v.windows, v.selected_index(), Some(n), k);
            },
            None => {},
        }
    }
}

proof fn lemma_swap_keeps_members(s: Seq<WindowId>, i: Option<int>, j: Option<int>, k: int)
    requires
        0 <= k < s.len(),
        i matches Some(x) ==> 0 <= x < s.len(),
        j matches Some(y) ==> 0 <= y < s.len(),
    ensures
        i is Some && j is Some ==> LayoutStateView::swap_places(s, i->0, j->0).contains(s[k]),
{
    if let (Some(x), Some(y)) = (i, j) {
        let t = LayoutStateView::swap_places(s, x, y);
        if k == x {
            assert(t[y] == s[k]);
        } else if k == y {
            if x == y {
                assert(t[y] == s[k]);
            } else {
                assert(t[x] == s[k]);
            }
        } else {
            assert(t[k] == s[k]);
        }
    }
}

/// Replacing a window keeps the selection valid.
pub proof fn law_replacing_keeps_selection_valid(v: LayoutStateView, from: WindowId, to: WindowId)
    requires
        v.wf(),
    ensures
        v.replaced(from, to).wf(),
{
    let r = v.replaced(from, to);
    if let Some(s) = v.selected {
        let k = choose|k: int| 0 <= k < v.windows.len() && v.windows[k] == s;
        assert(r.windows[k] == r.selected->0);
    }
}

/// Setting the windows of an application leaves a valid selection, whatever
/// the layout was.
pub proof fn law_setting_app_windows_keeps_selection_valid(
    v: LayoutStateView,
    pid: pid_t,
    desired: Seq<WindowId>,
)
    ensures
        v.with_app_windows(pid, desired).wf(),
{
    let r = v.with_app_windows(pid, desired);
    if r.windows.len() > 0 {
        assert(r.windows.contains(r.windows[0]));
    }
}

/// Every operation on a layout keeps its selection among its windows, and
/// present whenever there is a window.
pub proof fn law_operations_keep_selection_valid(
    v: LayoutStateView,
    w: WindowId,
    dir: Direction,
    a: WindowId,
    b: WindowId,
    pid: pid_t,
    desired: Seq<WindowId>,
)
    requires
        v.wf(),
    ensures
        LayoutStateView::empty().wf(),
        v.without(w).wf(),
        v.without_app(pid).wf(),
        v.with_window_after_selection(w).wf(),
        v.replaced(a, b).wf(),
        v.with_app_windows(pid, desired).wf(),
        v.stepped(dir).wf(),
        v.with_selection(w).wf(),
        v.swapped(a, b).wf(),
        v.selection_moved(dir).wf(),
        v.fullscreen_toggled().wf(),
        v.fullscreen_within_gaps_toggled().wf(),
{
    law_removal_keeps_selection_valid(v, w);
    law_removals_keep_selection_valid(v, v.app_windows(pid));
    law_adding_selects_the_window(v, w);
    law_replacing_keeps_selection_valid(v, a, b);
    law_setting_app_windows_keeps_selection_valid(v, pid, desired);
    law_selection_changes_keep_selection_valid(v, dir, w, a, b);
}

/// With each window listed once, `s[i]` is first at `i`.
proof fn lemma_unique_position(s: Seq<WindowId>, i: int)
    requires
        s.no_duplicates(),
        0 <= i < s.len(),
    ensures
        position(s, s[i]) == Some(i),
{
    crate::model::lemma_position_is(s, s[i], i);
}

/// Toggling fullscreen twice gives the layout back, unless the shown window
/// is also fullscreen within the gaps (the first toggle would end that).
pub proof fn law_fullscreen_toggle_round_trip(v: LayoutStateView)
    requires
        v.selected_or_first() matches Some(s) ==> !v.fullscreen_within_gaps.contains(s),
    ensures
        v.fullscreen_toggled().fullscreen_toggled() == v,
        v.selected_or_first() matches Some(s) ==> (!v.fullscreen.contains(s)
            ==> v.fullscreen_toggled().has_any_fullscreen()),
{
    if let Some(s) = v.selected_or_first() {
        let t = v.fullscreen_toggled();
        if v.fullscreen.contains(s) {
            assert(t.fullscreen_toggled().fullscreen =~= v.fullscreen);
            assert(t.fullscreen_toggled().fullscreen_within_gaps =~= v.fullscreen_within_gaps);
        } else {
            assert(t.fullscreen.contains(s));
            assert(t.fullscreen_toggled().fullscreen =~= v.fullscreen);
            assert(t.fullscreen_toggled().fullscreen_within_gaps =~= v.fullscreen_within_gaps);
        }
    }
}

/// Toggling fullscreen within the gaps twice gives the layout back, unless
/// the shown window is also plain fullscreen.
pub proof fn law_fullscreen_within_gaps_toggle_round_trip(v: LayoutStateView)
    requires
        v.selected_or_first() matches Some(s) ==> !v.fullscreen.contains(s),
    ensures
        v.fullscreen_within_gaps_toggled().fullscreen_within_gaps_toggled() == v,
        v.selected_or_first() matches Some(s) ==> (!v.fullscreen_within_gaps.contains(s)
            ==> v.fullscreen_within_gaps_toggled().has_any_fullscreen()),
{
    if let Some(s) = v.selected_or_first() {
        let t = v.fullscreen_within_gaps_toggled();
        if v.fullscreen_within_gaps.contains(s) {
            assert(t.fullscreen_within_gaps_toggled().fullscreen =~= v.fullscreen);
            assert(t.fullscreen_within_gaps_toggled().fullscreen_within_gaps
                =~= v.fullscreen_within_gaps);
        } else {
            assert(t.fullscreen_within_gaps.contains(s));
            assert(t.fullscreen_within_gaps_toggled().fullscreen =~= v.fullscreen);
            assert(t.fullscreen_within_gaps_toggled().fullscreen_within_gaps
                =~= v.fullscreen_within_gaps);
        }
    }
}

/// A step of the selection is undone by a step the opposite way, when each
/// window is listed once.
pub proof fn law_focus_step_is_undone_by_opposite_step(v: LayoutStateView, dir: Direction)
    requires
        v.windows.no_duplicates(),
        v.neighbor(dir) is Some,
    ensures
        v.stepped(dir).neighbor(dir.opposite()) == v.selected,
        v.stepped(dir).stepped(dir.opposite()) == v,
{
    let s = v.selected->0;
    lemma_position(v.windows, s);
    let i = v.selected_index()->0;
    let n = v.neighbor_index(dir)->0;
    lemma_unique_position(v.windows, n);
    let t = v.stepped(dir);
    assert(t.selected_index() == Some(n));
    assert(t.neighbor_index(dir.opposite()) == Some(i));
}

/// Exchanging two windows twice gives the layout back, when each window is
/// listed once.
pub proof fn law_swap_twice_is_identity(v: LayoutStateView, a: WindowId, b: WindowId)
    requires
        v.windows.no_duplicates(),
    ensures
        v.swapped(a, b).swapped(a, b) == v,
        v.swapped(a, b).windows.no_duplicates(),
{
    lemma_position(v.windows, a);
    lemma_position(v.windows, b);
    if let (Some(i), Some(j)) = (position(v.windows, a), position(v.windows, b)) {
        let t = v.swapped(a, b);
        let w = LayoutStateView::swap_places(v.windows, i, j);
        assert(w.no_duplicates()) by {
            assert forall|x: int, y: int|
                0 <= x < w.len() && 0 <= y < w.len() && x != y implies w[x] != w[y] by {
                let ox = if x == i { j } else if x == j { i } else { x };
                let oy = if y == i { j } else if y == j { i } else { y };
                assert(w[x] == v.windows[ox]);
                assert(w[y] == v.windows[oy]);
            }
        }
        if i == j {
            assert(w =~= v.windows);
        } else {
            assert(w[j] == a);
            assert(w[i] == b);
            lemma_unique_position(w, j);
            lemma_unique_position(w, i);
            assert(t.swapped(a, b).windows =~= v.windows);
        }
    }
}

/// After removing a window listed once, it is no longer in the layout, and
/// every window remains listed at most once.
pub proof fn law_removed_window_is_gone(v: LayoutStateView, w: WindowId)
    requires
        v.windows.no_duplicates(),
    ensures
        !v.without(w).windows.contains(w),
        v.without(w).windows.no_duplicates(),
{
    lemma_position(v.windows, w);
    if let Some(i) = position(v.windows, w) {
        let rest = v.windows.remove(i);
        assert forall|k: int| 0 <= k < rest.len() implies rest[k] != w by {
            if k < i {
                assert(rest[k] == v.windows[k]);
            } else {
                assert(rest[k] == v.windows[k + 1]);
            }
        }
        assert forall|x: int, y: int|
            0 <= x < rest.len() && 0 <= y < rest.len() && x != y implies rest[x] != rest[y] by {
            let ox = if x < i { x } else { x + 1 };
            let oy = if y < i { y } else { y + 1 };
            assert(rest[x] == v.windows[ox]);
            assert(rest[y] == v.windows[oy]);
        }
    }
}

/// After replacing a window by another, the replaced window is gone from the
/// layout and the other stands in each of its places.
pub proof fn law_replaced_window_is_gone(v: LayoutStateView, from: WindowId, to: WindowId)
    requires
        from != to,
    ensures
        !v.replaced(from, to).windows.contains(from),
        v.replaced(from, to).windows.len() == v.windows.len(),
        forall|i: int|
            0 <= i < v.windows.len() && v.windows[i] == from ==> #[trigger] v.replaced(
                from,
                to,
            ).windows[i] == to,
        v.replaced(from, to).selected != Some(from),
{
}

/// Adding a window not yet there puts it just behind the selection, with
/// the other windows in their order.
pub proof fn law_added_window_goes_behind_selection(v: LayoutStateView, w: WindowId)
    requires
        v.wf(),
        !v.windows.contains(w),
    ensures
        v.with_window_after_selection(w).windows == (match v.selected_index() {
            Some(i) => v.windows.insert(i + 1, w),
            None => v.windows.push(w),
        }),
{
    lemma_position(v.windows, w);
    if v.selected_index() is None {
        assert(v.windows.insert(v.windows.len() as int, w) =~= v.windows.push(w));
    }
}

/// Not of process `pid`.
pub open spec fn not_of_app(pid: pid_t) -> spec_fn(WindowId) -> bool {
    |x: WindowId| x.pid != pid
}

proof fn lemma_append_missing_contains(s: Seq<WindowId>, ds: Seq<WindowId>, pid: pid_t, x: WindowId)
    ensures
        append_missing(s, ds, pid).contains(x) <==> (s.contains(x) || (x.pid == pid
            && ds.contains(x))),
    decreases ds.len(),
{
    broadcast use vstd::seq_lib::group_seq_properties;
    if ds.len() > 0 {
        let init = ds.drop_last();
        lemma_append_missing_contains(s, init, pid, x);
        assert(ds =~= init.push(ds.last()));
        let prev = append_missing(s, init, pid);
        if ds.last().pid == pid && !prev.contains(ds.last()) {
            assert(prev.push(ds.last())[prev.len() as int] == ds.last());
        }
        if ds.contains(x) && x != ds.last() {
            let k = choose|k: int| 0 <= k < ds.len() && ds[k] == x;
            assert(init[k] == x);
        }
        if init.contains(x) {
            let k = choose|k: int| 0 <= k < init.len() && init[k] == x;
            assert(ds[k] == x);
        }
    }
}

proof fn lemma_append_missing_no_duplicates(s: Seq<WindowId>, ds: Seq<WindowId>, pid: pid_t)
    requires
        s.no_duplicates(),
    ensures
        append_missing(s, ds, pid).no_duplicates(),
    decreases ds.len(),
{
    if ds.len() > 0 {
        lemma_append_missing_no_duplicates(s, ds.drop_last(), pid);
    }
}

proof fn lemma_append_missing_other_apps(s: Seq<WindowId>, ds: Seq<WindowId>, pid: pid_t)
    ensures
        append_missing(s, ds, pid).filter(not_of_app(pid)) == s.filter(not_of_app(pid)),
    decreases ds.len(),
{
    reveal(Seq::filter);
    if ds.len() > 0 {
        lemma_append_missing_other_apps(s, ds.drop_last(), pid);
        let prev = append_missing(s, ds.drop_last(), pid);
        assert(prev.push(ds.last()).drop_last() =~= prev);
    }
}

/// Making the windows of process `pid` those of `desired` leaves in the
/// layout exactly the windows of `pid` listed in `desired`, keeps the
/// windows of other processes in their order, and lists no window twice
/// that was not listed twice before.
pub proof fn law_set_app_windows_result(v: LayoutStateView, pid: pid_t, desired: Seq<WindowId>)
    ensures
        forall|x: WindowId|
            #[trigger] v.with_app_windows(pid, desired).app_windows(pid).contains(x) <==> (x.pid
                == pid && desired.contains(x)),
        v.with_app_windows(pid, desired).windows.filter(not_of_app(pid)) == v.windows.filter(
            not_of_app(pid),
        ),
        v.windows.no_duplicates() ==> v.with_app_windows(pid, desired).windows.no_duplicates(),
{
    let kept = v.kept_for_app(pid, desired);
    let r = v.with_app_windows(pid, desired);
    assert forall|x: WindowId| #[trigger] r.app_windows(pid).contains(x) <==> (x.pid == pid
        && desired.contains(x)) by {
        lemma_filter_contains(r.windows, of_app(pid), x);
        lemma_append_missing_contains(kept, desired, pid, x);
        lemma_filter_contains(v.windows, kept_for(pid, desired), x);
    }
    lemma_append_missing_other_apps(kept, desired, pid);
    lemma_filter_filter(v.windows, kept_for(pid, desired), not_of_app(pid));
    if v.windows.no_duplicates() {
        lemma_filter_no_duplicates(v.windows, kept_for(pid, desired));
        lemma_append_missing_no_duplicates(kept, desired, pid);
    }
}

/// How often `x` is listed after removing each of `ws` in turn: once less
/// for each time `ws` lists it, down to none.
proof fn lemma_without_each_count(v: LayoutStateView, ws: Seq<WindowId>, x: WindowId)
    ensures
        v.without_each(ws).windows.to_multiset().count(x) == (if v.windows.to_multiset().count(x)
            >= ws.to_multiset().count(x) {
            v.windows.to_multiset().count(x) - ws.to_multiset().count(x)
        } else {
            0
        }),
    decreases ws.len(),
{
    broadcast use vstd::multiset::group_multiset_axioms;
    if ws.len() == 0 {
        vstd::seq_lib::to_multiset_contains(ws, x);
    } else {
        let init = ws.drop_last();
        let w = ws.last();
        lemma_without_each_count(v, init, x);
        assert(ws =~= init.push(w));
        lemma_count_push(init, w, x);
        let u = v.without_each(init);
        lemma_position(u.windows, w);
        match position(u.windows, w) {
            Some(i) => {
                vstd::seq_lib::to_multiset_remove(u.windows, i);
            },
            None => {
                vstd::seq_lib::to_multiset_contains(u.windows, w);
            },
        }
    }
}

/// After removing the windows of process `pid`, no window of `pid` is left.
pub proof fn law_removing_app_leaves_none_of_it(v: LayoutStateView, pid: pid_t)
    ensures
        !v.without_app(pid).has_app_windows(pid),
{
    let r = v.without_app(pid);
    assert forall|i: int| 0 <= i < r.windows.len() implies #[trigger] r.windows[i].pid != pid by {
        let x = r.windows[i];
        if x.pid == pid {
            lemma_without_each_count(v, v.app_windows(pid), x);
            lemma_filter_count(v.windows, of_app(pid), x);
            assert(r.windows.contains(x));
            vstd::seq_lib::to_multiset_contains(r.windows, x);
        }
    }
}

/// Removing windows one after the other keeps each window listed at most
/// once.
proof fn lemma_removals_keep_distinct(v: LayoutStateView, ws: Seq<WindowId>)
    requires
        v.windows.no_duplicates(),
    ensures
        v.without_each(ws).windows.no_duplicates(),
    decreases ws.len(),
{
    if ws.len() > 0 {
        lemma_removals_keep_distinct(v, ws.drop_last());
        law_removed_window_is_gone(v.without_each(ws.drop_last()), ws.last());
    }
}

proof fn lemma_swap_places_distinct(s: Seq<WindowId>, i: int, j: int)
    requires
        s.no_duplicates(),
        0 <= i < s.len(),
        0 <= j < s.len(),
    ensures
        LayoutStateView::swap_places(s, i, j).no_duplicates(),
{
    let w = LayoutStateView::swap_places(s, i, j);
    assert forall|x: int, y: int| 0 <= x < w.len() && 0 <= y < w.len() && x != y implies w[x]
        != w[y] by {
        let ox = if x == i {
            j
        } else if x == j {
            i
        } else {
            x
        };
        let oy = if y == i {
            j
        } else if y == j {
            i
        } else {
            y
        };
        assert(w[x] == s[ox]);
        assert(w[y] == s[oy]);
    }
}

/// Every operation but replacing keeps each window listed at most once.
pub proof fn law_operations_keep_windows_distinct(
    v: LayoutStateView,
    w: WindowId,
    dir: Direction,
    a: WindowId,
    b: WindowId,
    pid: pid_t,
    desired: Seq<WindowId>,
)
    requires
        v.windows.no_duplicates(),
    ensures
        v.without(w).windows.no_duplicates(),
        v.without_app(pid).windows.no_duplicates(),
        v.with_window_after_selection(w).windows.no_duplicates(),
        v.with_app_windows(pid, desired).windows.no_duplicates(),
        v.stepped(dir).windows.no_duplicates(),
        v.with_selection(w).windows.no_duplicates(),
        v.swapped(a, b).windows.no_duplicates(),
        v.selection_moved(dir).windows.no_duplicates(),
        v.fullscreen_toggled().windows.no_duplicates(),
        v.fullscreen_within_gaps_toggled().windows.no_duplicates(),
{
    law_removed_window_is_gone(v, w);
    lemma_removals_keep_distinct(v, v.app_windows(pid));
    law_set_app_windows_result(v, pid, desired);
    law_swap_twice_is_identity(v, a, b);
    lemma_position(v.windows, w);
    if position(v.windows, w) is None {
        if let Some(s) = v.selected {
            lemma_position(v.windows, s);
        }
        let at = match v.selected_index() {
            Some(i) => i + 1,
            None => v.windows.len() as int,
        };
        v.windows.insert_ensures(at, w);
        let t = v.windows.insert(at, w);
        assert forall|x: int, y: int| 0 <= x < t.len() && 0 <= y < t.len() && x != y implies t[x]
            != t[y] by {
            if x != at && y != at {
                let ox = if x < at {
                    x
                } else {
                    x - 1
                };
                let oy = if y < at {
                    y
                } else {
                    y - 1
                };
                assert(t[x] == v.windows[ox]);
                assert(t[y] == v.windows[oy]);
            } else if x == at {
                let oy = if y < at {
                    y
                } else {
                    y - 1
                };
                assert(t[y] == v.windows[oy]);
            } else {
                let ox = if x < at {
                    x
                } else {
                    x - 1
                };
                assert(t[x] == v.windows[ox]);
            }
        }
    }
    if let (Some(i), Some(n)) = (v.selected_index(), v.neighbor_index(dir)) {
        lemma_position(v.windows, v.selected->0);
        lemma_swap_places_distinct(v.windows, i, n);
    }
}

/// The shown window is placed last, on top of the others; with no window
/// fullscreen every window is given the tiling area; and, when each window is
/// listed once and the selection is valid, every window is placed exactly
/// once.
pub proof fn law_placement_puts_selection_on_top(v: LayoutStateView)
    ensures
        v.selected_or_first() matches Some(s) ==> v.placement().last() == (s, v.frame_base(s)),
        v.placement().len() == v.stacking_order().len(),
        v.fullscreen == Set::<WindowId>::empty() ==> forall|i: int|
            0 <= i < v.placement().len() ==> (#[trigger] v.placement()[i]).1 == FrameBase::Tiling,
        v.wf() && v.windows.no_duplicates() ==> v.stacking_order().to_multiset()
            == v.windows.to_multiset(),
{
    broadcast use vstd::multiset::group_multiset_axioms;
    if v.wf() && v.windows.no_duplicates() {
        let u = v.unselected();
        assert forall|x: WindowId| #[trigger] v.stacking_order().to_multiset().count(x)
            == v.windows.to_multiset().count(x) by {
            lemma_filter_count(v.windows, not_selected(v.selected), x);
            match v.selected {
                Some(s) => {
                    assert(v.stacking_order() =~= u.push(s));
                    lemma_count_push(u, s, x);
                    if x == s {
                        lemma_count_one(v.windows, s);
                    }
                },
                None => {
                    assert(v.stacking_order() =~= u);
                },
            }
        }
        assert(v.stacking_order().to_multiset() =~= v.windows.to_multiset());
    }
}

/// A window listed once, and present, is counted once.
proof fn lemma_count_one(s: Seq<WindowId>, x: WindowId)
    requires
        s.no_duplicates(),
        s.contains(x),
    ensures
        s.to_multiset().count(x) == 1,
    decreases s.len(),
{
    broadcast use vstd::multiset::group_multiset_axioms;
    let init = s.drop_last();
    assert(s =~= init.push(s.last()));
    lemma_count_push(init, s.last(), x);
    if s.last() == x {
        assert(!init.contains(x));
        vstd::seq_lib::to_multiset_contains(init, x);
    } else {
        let k = choose|k: int| 0 <= k < s.len() && s[k] == x;
        assert(init[k] == x);
        lemma_count_one(init, x);
    }
}

/// In the container tree of a layout whose selection is valid and whose
/// windows are listed once, exactly one leaf is marked selected when there
/// is a window.
pub proof fn law_tree_marks_one_selection(node: ContainerTreeNode, v: LayoutStateView)
    requires
        describes_layout(node, v),
        v.wf(),
        v.windows.no_duplicates(),
    ensures
        v.windows.len() > 0 ==> exists|i: int|
            0 <= i < node.children@.len() && (#[trigger] node.children@[i]).is_selected,
        forall|i: int, j: int|
            0 <= i < node.children@.len() && 0 <= j < node.children@.len()
                && (#[trigger] node.children@[i]).is_selected
                && (#[trigger] node.children@[j]).is_selected ==> i == j,
{
    if v.windows.len() > 0 {
        let s = v.selected->0;
        let k = choose|k: int| 0 <= k < v.windows.len() && v.windows[k] == s;
        assert(node.children@[k].is_selected);
    }
}

/// Moving the selected window one place in a direction and then one place
/// the opposite way gives the layout back, when each window is listed once.
pub proof fn law_selection_move_is_undone_by_opposite_move(v: LayoutStateView, dir: Direction)
    requires
        v.windows.no_duplicates(),
        v.neighbor_index(dir) is Some,
    ensures
        v.selection_moved(dir).neighbor_index(dir.opposite()) is Some,
        v.selection_moved(dir).selection_moved(dir.opposite()) == v,
{
    let s = v.selected->0;
    lemma_position(v.windows, s);
    let i = v.selected_index()->0;
    let n = v.neighbor_index(dir)->0;
    let t = v.selection_moved(dir);
    let w = LayoutStateView::swap_places(v.windows, i, n);
    lemma_swap_places_distinct(v.windows, i, n);
    assert(w[n] == s);
    lemma_unique_position(w, n);
    assert(t.selected_index() == Some(n));
    assert(t.neighbor_index(dir.opposite()) == Some(i));
    assert(LayoutStateView::swap_places(w, n, i) =~= v.windows);
}

/// After removing the first `i` windows of the list of process `pid`'s
/// windows: the other processes' windows are as before, in order, and the
/// removed windows have left both fullscreen sets.
proof fn lemma_without_app_prefix(v: LayoutStateView, pid: pid_t, i: int)
    requires
        0 <= i <= v.app_windows(pid).len(),
    ensures
        v.without_each(v.app_windows(pid).take(i)).windows.filter(not_of_app(pid))
            == v.windows.filter(not_of_app(pid)),
        v.without_each(v.app_windows(pid).take(i)).fullscreen == v.fullscreen.difference(
            v.app_windows(pid).take(i).to_set(),
        ),
        v.without_each(v.app_windows(pid).take(i)).fullscreen_within_gaps
            == v.fullscreen_within_gaps.difference(v.app_windows(pid).take(i).to_set()),
    decreases i,
{
    broadcast use vstd::multiset::group_multiset_axioms;
    let a = v.app_windows(pid);
    if i == 0 {
        assert(a.take(0) =~= Seq::<WindowId>::empty());
        assert(v.fullscreen.difference(a.take(0).to_set()) =~= v.fullscreen);
        assert(v.fullscreen_within_gaps.difference(a.take(0).to_set())
            =~= v.fullscreen_within_gaps);
    } else {
        lemma_without_app_prefix(v, pid, i - 1);
        let x = a[i - 1];
        let prev = v.without_each(a.take(i - 1));
        assert(a.take(i).drop_last() =~= a.take(i - 1));
        assert(a.take(i) =~= a.take(i - 1).push(x));
        v.windows.lemma_filter_pred(of_app(pid), i - 1);
        assert(x.pid == pid);
        lemma_without_each_count(v, a.take(i - 1), x);
        lemma_filter_count(v.windows, of_app(pid), x);
        lemma_count_prefix(a, i, x);
        lemma_count_push(a.take(i - 1), x, x);
        vstd::seq_lib::to_multiset_contains(prev.windows, x);
        lemma_position(prev.windows, x);
        let p = position(prev.windows, x)->0;
        lemma_filter_remove(prev.windows, not_of_app(pid), p);
        let u = prev.without(x);
        assert(a.take(i).to_set() =~= a.take(i - 1).to_set().insert(x));
        assert(u.fullscreen =~= v.fullscreen.difference(a.take(i).to_set()));
        assert(u.fullscreen_within_gaps =~= v.fullscreen_within_gaps.difference(
            a.take(i).to_set(),
        ));
    }
}

/// Removing the windows of process `pid` leaves the other windows in their
/// order, and takes out of both fullscreen sets the windows of `pid` that the
/// stack listed.
pub proof fn law_removing_app_keeps_the_rest(v: LayoutStateView, pid: pid_t)
    ensures
        v.without_app(pid).windows == v.windows.filter(not_of_app(pid)),
        v.without_app(pid).fullscreen == v.fullscreen.difference(v.app_windows(pid).to_set()),
        v.without_app(pid).fullscreen_within_gaps == v.fullscreen_within_gaps.difference(
            v.app_windows(pid).to_set(),
        ),
{
    let a = v.app_windows(pid);
    lemma_without_app_prefix(v, pid, a.len() as int);
    assert(a.take(a.len() as int) =~= a);
    law_removing_app_leaves_none_of_it(v, pid);
    let r = v.without_app(pid);
    assert forall|i: int| 0 <= i < r.windows.len() implies not_of_app(pid)(
        #[trigger] r.windows[i],
    ) by {
        if r.windows[i].pid == pid {
            assert(r.has_app_windows(pid));
        }
    }
    lemma_filter_all(r.windows, not_of_app(pid));
}

/// Every window is placed with the whole screen when it is fullscreen and not
/// fullscreen within the gaps, and with the tiling area otherwise, whichever
/// window is selected.
pub proof fn law_fullscreen_windows_get_the_screen(v: LayoutStateView)
    ensures
        forall|i: int|
            0 <= i < v.placement().len() ==> {
                let (w, f) = #[trigger] v.placement()[i];
                &&& w == v.stacking_order()[i]
                &&& (v.fullscreen.contains(w) && !v.fullscreen_within_gaps.contains(w)) ==> f
                    == FrameBase::Screen
                &&& !(v.fullscreen.contains(w) && !v.fullscreen_within_gaps.contains(w)) ==> f
                    == FrameBase::Tiling
            },
{
}

/// Setting the windows of an application keeps the selection whenever the
/// selected window is still in the layout; otherwise the front window, if
/// any, becomes selected.
pub proof fn law_setting_app_windows_keeps_a_remaining_selection(
    v: LayoutStateView,
    pid: pid_t,
    desired: Seq<WindowId>,
    s: WindowId,
)
    ensures
        v.selected == Some(s) && v.with_app_windows(pid, desired).windows.contains(s)
            ==> v.with_app_windows(pid, desired).selected == Some(s),
        !(v.selected matches Some(t) && v.with_app_windows(pid, desired).windows.contains(t))
            ==> v.with_app_windows(pid, desired).selected == (if v.with_app_windows(
            pid,
            desired,
        ).windows.len() > 0 {
            Some(v.with_app_windows(pid, desired).windows[0])
        } else {
            None
        }),
{
}

/// Removing the selected window from place `i` selects the window that
/// followed it, else the window before it, else nothing; removing any other
/// window leaves the selection alone. The other windows keep their order.
pub proof fn law_removal_selects_the_neighbor(v: LayoutStateView, w: WindowId, i: int)
    requires
        position(v.windows, w) == Some(i),
    ensures
        v.selected == Some(w) && i + 1 < v.windows.len() ==> v.without(w).selected == Some(
            v.windows[i + 1],
        ),
        v.selected == Some(w) && i + 1 == v.windows.len() && i >= 1 ==> v.without(w).selected
            == Some(v.windows[i - 1]),
        v.selected == Some(w) && v.windows.len() == 1 ==> v.without(w).selected is None,
        v.selected != Some(w) ==> v.without(w).selected == v.selected,
        v.without(w).windows.len() + 1 == v.windows.len(),
        forall|k: int| 0 <= k < i ==> #[trigger] v.without(w).windows[k] == v.windows[k],
        forall|k: int|
            i <= k < v.windows.len() - 1 ==> #[trigger] v.without(w).windows[k] == v.windows[k
                + 1],
{
    lemma_position(v.windows, w);
    v.windows.remove_ensures(i);
}

/// Exchanging two windows, or the selected window with its neighbor, never
/// changes the selection: the windows change places, the selection follows
/// its window. When both are there, each takes the other's first place and
/// every other place is unchanged.
pub proof fn law_swapping_keeps_the_selection(
    v: LayoutStateView,
    a: WindowId,
    b: WindowId,
    dir: Direction,
    i: int,
    j: int,
)
    ensures
        v.swapped(a, b).selected == v.selected,
        v.selection_moved(dir).selected == v.selected,
        v.swapped(a, b).fullscreen == v.fullscreen,
        v.swapped(a, b).fullscreen_within_gaps == v.fullscreen_within_gaps,
        position(v.windows, a) == Some(i) && position(v.windows, b) == Some(j) ==> {
            &&& v.swapped(a, b).windows.len() == v.windows.len()
            &&& v.swapped(a, b).windows[i] == b
            &&& v.swapped(a, b).windows[j] == a
            &&& forall|k: int|
                0 <= k < v.windows.len() && k != i && k != j ==> #[trigger] v.swapped(
                    a,
                    b,
                ).windows[k] == v.windows[k]
        },
{
    lemma_position(v.windows, a);
    lemma_position(v.windows, b);
}

/// Turning fullscreen on for the shown window ends its fullscreen within the
/// gaps, so that it gets the whole screen; turning it off leaves fullscreen
/// within the gaps alone. No other window changes either way.
pub proof fn law_fullscreen_toggle_takes_the_screen(v: LayoutStateView, s: WindowId, x: WindowId)
    requires
        v.selected_or_first() == Some(s),
    ensures
        !v.fullscreen.contains(s) ==> v.fullscreen_toggled().fullscreen.contains(s)
            && !v.fullscreen_toggled().fullscreen_within_gaps.contains(s)
            && v.fullscreen_toggled().frame_base(s) == FrameBase::Screen,
        v.fullscreen.contains(s) ==> !v.fullscreen_toggled().fullscreen.contains(s)
            && v.fullscreen_toggled().fullscreen_within_gaps == v.fullscreen_within_gaps,
        x != s ==> (v.fullscreen_toggled().fullscreen.contains(x) == v.fullscreen.contains(x)
            && v.fullscreen_toggled().fullscreen_within_gaps.contains(x)
            == v.fullscreen_within_gaps.contains(x)),
        v.fullscreen_toggled().windows == v.windows,
        v.fullscreen_toggled().selected == v.selected,
{
}

/// Turning fullscreen within the gaps on for the shown window ends its plain
/// fullscreen, so that it gets the tiling area; turning it off leaves plain
/// fullscreen alone. No other window changes either way.
pub proof fn law_fullscreen_within_gaps_toggle_takes_the_tiling_area(
    v: LayoutStateView,
    s: WindowId,
    x: WindowId,
)
    requires
        v.selected_or_first() == Some(s),
    ensures
        !v.fullscreen_within_gaps.contains(s) ==> v.fullscreen_within_gaps_toggled().fullscreen_within_gaps.contains(
            s,
        ) && !v.fullscreen_within_gaps_toggled().fullscreen.contains(s)
            && v.fullscreen_within_gaps_toggled().frame_base(s) == FrameBase::Tiling,
        v.fullscreen_within_gaps.contains(s)
            ==> !v.fullscreen_within_gaps_toggled().fullscreen_within_gaps.contains(s)
            && v.fullscreen_within_gaps_toggled().fullscreen == v.fullscreen,
        x != s ==> (v.fullscreen_within_gaps_toggled().fullscreen.contains(x)
            == v.fullscreen.contains(x)
            && v.fullscreen_within_gaps_toggled().fullscreen_within_gaps.contains(x)
            == v.fullscreen_within_gaps.contains(x)),
        v.fullscreen_within_gaps_toggled().windows == v.windows,
        v.fullscreen_within_gaps_toggled().selected == v.selected,
{
}

/// The neighbor of the selected window is the window just before it in the
/// stack when stepping back (left or up), just after it when stepping forward,
/// and none at the end of the stack; a step selects that neighbor and changes
/// nothing else.
pub proof fn law_step_goes_to_the_adjacent_window(
    v: LayoutStateView,
    dir: Direction,
    s: WindowId,
    i: int,
)
    requires
        v.selected == Some(s),
        position(v.windows, s) == Some(i),
    ensures
        dir.is_backward() && i >= 1 ==> v.neighbor(dir) == Some(v.windows[i - 1]),
        dir.is_backward() && i == 0 ==> v.neighbor(dir) is None,
        !dir.is_backward() && i + 1 < v.windows.len() ==> v.neighbor(dir) == Some(
            v.windows[i + 1],
        ),
        !dir.is_backward() && i + 1 == v.windows.len() ==> v.neighbor(dir) is None,
        v.stepped(dir).windows == v.windows,
        v.stepped(dir).fullscreen == v.fullscreen,
        v.stepped(dir).selected == (match v.neighbor(dir) {
            Some(n) => Some(n),
            None => Some(s),
        }),
{
    lemma_position(v.windows, s);
}

/// Adding a window not yet there puts it at the place just after the
/// selected window (at the back when nothing is selected) and selects it;
/// the windows before that place stay, those after it move back by one.
pub proof fn law_added_window_takes_the_place_after_selection(
    v: LayoutStateView,
    w: WindowId,
    at: int,
)
    requires
        !v.windows.contains(w),
        match v.selected {
            Some(s) => position(v.windows, s) == Some(at - 1),
            None => at == v.windows.len(),
        },
    ensures
        v.with_window_after_selection(w).windows.len() == v.windows.len() + 1,
        v.with_window_after_selection(w).windows[at] == w,
        forall|k: int| 0 <= k < at ==> #[trigger] v.with_window_after_selection(w).windows[k]
            == v.windows[k],
        forall|k: int|
            at <= k < v.windows.len() ==> #[trigger] v.with_window_after_selection(w).windows[k
                + 1] == v.windows[k],
        v.with_window_after_selection(w).selected == Some(w),
{
    lemma_position(v.windows, w);
    if let Some(s) = v.selected {
        lemma_position(v.windows, s);
    }
    v.windows.insert_ensures(at, w);
}

/// Selecting a window of the layout makes it the selection; selecting any
/// other window changes nothing.
pub proof fn law_selecting_sets_the_selection(v: LayoutStateView, w: WindowId)
    ensures
        v.windows.contains(w) ==> v.with_selection(w).selected == Some(w)
            && v.with_selection(w).windows == v.windows,
        !v.windows.contains(w) ==> v.with_selection(w) == v,
{
}

} // verus!
