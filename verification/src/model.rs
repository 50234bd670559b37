//! The mathematical model of one monocle layout and of what each operation
//! does to it.

use vstd::prelude::*;

use crate::window::{pid_t, Direction, WindowId};

verus! {

/// Which rectangle a window of a monocle layout is given: the whole screen,
/// or the tiling area (the screen less its gaps).
#[derive(Clone, Copy, Debug, PartialEq, Eq, Structural)]
pub enum FrameBase {
    Screen,
    Tiling,
}

/// One monocle layout: its windows from the front of the stack to the back,
/// the selected window, and the windows shown fullscreen (over the whole
/// screen) or fullscreen within the gaps.
pub struct LayoutStateView {
    pub windows: Seq<WindowId>,
    pub selected: Option<WindowId>,
    pub fullscreen: Set<WindowId>,
    pub fullscreen_within_gaps: Set<WindowId>,
}

/// `i` is the first place of `w` in `s`.
pub open spec fn is_first_at(s: Seq<WindowId>, w: WindowId, i: int) -> bool {
    &&& 0 <= i < s.len()
    &&& s[i] == w
    &&& forall|j: int| 0 <= j < i ==> s[j] != w
}

/// The first place of `w` in `s`, if `w` occurs in `s`.
pub open spec fn position(s: Seq<WindowId>, w: WindowId) -> Option<int> {
    if s.contains(w) {
        Some(choose|i: int| is_first_at(s, w, i))
    } else {
        None
    }
}

proof fn lemma_first_exists(s: Seq<WindowId>, w: WindowId, k: int)
    requires
        0 <= k < s.len(),
        s[k] == w,
    ensures
        exists|i: int| is_first_at(s, w, i),
    decreases k,
{
    if exists|j: int| 0 <= j < k && s[j] == w {
        let j = choose|j: int| 0 <= j < k && s[j] == w;
        lemma_first_exists(s, w, j);
    } else {
        assert(is_first_at(s, w, k));
    }
}

/// What `position` is: the first place of `w`, or none when `w` does not occur.
pub proof fn lemma_position(s: Seq<WindowId>, w: WindowId)
    ensures
        match position(s, w) {
            Some(i) => is_first_at(s, w, i),
            None => !s.contains(w),
        },
{
    if s.contains(w) {
        let k = choose|k: int| 0 <= k < s.len() && s[k] == w;
        lemma_first_exists(s, w, k);
    }
}

/// A first place found is the position.
pub proof fn lemma_position_is(s: Seq<WindowId>, w: WindowId, i: int)
    requires
        is_first_at(s, w, i),
    ensures
        position(s, w) == Some(i),
{
    assert(s.contains(w));
    lemma_position(s, w);
}

/// The sequence holding the window of `o`, if any.
pub open spec fn seq_of(o: Option<WindowId>) -> Seq<WindowId> {
    match o {
        Some(w) => seq![w],
        None => Seq::empty(),
    }
}

/// `s` followed by the windows of `desired` that belong to `pid` and are not
/// yet listed, in the order of `desired`, each added once.
pub open spec fn append_missing(s: Seq<WindowId>, desired: Seq<WindowId>, pid: pid_t) -> Seq<
    WindowId,
>
    decreases desired.len(),
{
    if desired.len() == 0 {
        s
    } else {
        let prev = append_missing(s, desired.drop_last(), pid);
        let d = desired.last();
        if d.pid == pid && !prev.contains(d) {
            prev.push(d)
        } else {
            prev
        }
    }
}

/// The prefix `s[0..i+1]` filtered, from `s[0..i]` filtered.
pub proof fn lemma_filter_step<A>(s: Seq<A>, pred: spec_fn(A) -> bool, i: int)
    requires
        0 <= i < s.len(),
    ensures
        s.subrange(0, i + 1).filter(pred) == (if pred(s[i]) {
            s.subrange(0, i).filter(pred).push(s[i])
        } else {
            s.subrange(0, i).filter(pred)
        }),
{
    reveal(Seq::filter);
    assert(s.subrange(0, i + 1).drop_last() =~= s.subrange(0, i));
}

/// Belongs to process `pid`.
pub open spec fn of_app(pid: pid_t) -> spec_fn(WindowId) -> bool {
    |x: WindowId| x.pid == pid
}

/// Stays when the windows of `pid` become `desired`.
pub open spec fn kept_for(pid: pid_t, desired: Seq<WindowId>) -> spec_fn(WindowId) -> bool {
    |x: WindowId| x.pid != pid || desired.contains(x)
}

/// Is not the selection `selected`.
pub open spec fn not_selected(selected: Option<WindowId>) -> spec_fn(WindowId) -> bool {
    |x: WindowId| Some(x) != selected
}

impl LayoutStateView {
    /// The layout with no window.
    pub open spec fn empty() -> LayoutStateView {
        LayoutStateView {
            windows: Seq::empty(),
            selected: None,
            fullscreen: Set::empty(),
            fullscreen_within_gaps: Set::empty(),
        }
    }

    /// The selection is one of the windows, and there is a selection
    /// whenever there is a window.
    pub open spec fn wf(self) -> bool {
        match self.selected {
            Some(s) => self.windows.contains(s),
            None => self.windows.len() == 0,
        }
    }

    /// The selected window, else the front window, if any.
    pub open spec fn selected_or_first(self) -> Option<WindowId> {
        match self.selected {
            Some(s) => Some(s),
            None => if self.windows.len() > 0 {
                Some(self.windows[0])
            } else {
                None
            },
        }
    }

    /// The first place of the selected window.
    pub open spec fn selected_index(self) -> Option<int> {
        match self.selected {
            Some(s) => position(self.windows, s),
            None => None,
        }
    }

    /// The layout after removing the first occurrence of `w`: the selection
    /// falls to the window that took its place, else to the last window.
    pub open spec fn without(self, w: WindowId) -> LayoutStateView {
        match position(self.windows, w) {
            None => self,
            Some(i) => {
                let rest = self.windows.remove(i);
                LayoutStateView {
                    windows: rest,
                    selected: if self.selected == Some(w) {
                        if i < rest.len() {
                            Some(rest[i])
                        } else if rest.len() > 0 {
                            Some(rest.last())
                        } else {
                            None
                        }
                    } else {
                        self.selected
                    },
                    fullscreen: self.fullscreen.remove(w),
                    fullscreen_within_gaps: self.fullscreen_within_gaps.remove(w),
                }
            },
        }
    }

    /// The selection after removing `w`, or none when `w` is not there.
    pub open spec fn selection_after_removal(self, w: WindowId) -> Option<WindowId> {
        match position(self.windows, w) {
            None => None,
            Some(_) => self.without(w).selected,
        }
    }

    /// The place next to the selection in `dir`, if there is one.
    pub open spec fn neighbor_index(self, dir: Direction) -> Option<int> {
        match self.selected_index() {
            None => None,
            Some(i) => if dir.is_backward() {
                if i >= 1 {
                    Some(i - 1)
                } else {
                    None
                }
            } else {
                if i + 1 < self.windows.len() {
                    Some(i + 1)
                } else {
                    None
                }
            },
        }
    }

    /// The window next to the selection in `dir`, if there is one.
    pub open spec fn neighbor(self, dir: Direction) -> Option<WindowId> {
        match self.neighbor_index(dir) {
            Some(n) => Some(self.windows[n]),
            None => None,
        }
    }

    /// The layout with the selection moved to its neighbor in `dir`.
    pub open spec fn stepped(self, dir: Direction) -> LayoutStateView {
        match self.neighbor(dir) {
            Some(n) => LayoutStateView { selected: Some(n), ..self },
            None => self,
        }
    }

    /// The layout after adding `w` just behind the selection (at the back
    /// when nothing is selected) and selecting it; a window already there is
    /// only selected.
    pub open spec fn with_window_after_selection(self, w: WindowId) -> LayoutStateView {
        match position(self.windows, w) {
            Some(i) => LayoutStateView { selected: Some(self.windows[i]), ..self },
            None => {
                let at = match self.selected_index() {
                    Some(i) => i + 1,
                    None => self.windows.len() as int,
                };
                LayoutStateView {
                    windows: self.windows.insert(at, w),
                    selected: Some(w),
                    ..self
                }
            },
        }
    }

    /// The layout with every occurrence of `from` replaced by `to`.
    pub open spec fn replaced(self, from: WindowId, to: WindowId) -> LayoutStateView {
        LayoutStateView {
            windows: self.windows.map_values(|x: WindowId| if x == from { to } else { x }),
            selected: if self.selected == Some(from) {
                Some(to)
            } else {
                self.selected
            },
            fullscreen: if self.fullscreen.contains(from) {
                self.fullscreen.remove(from).insert(to)
            } else {
                self.fullscreen
            },
            fullscreen_within_gaps: if self.fullscreen_within_gaps.contains(from) {
                self.fullscreen_within_gaps.remove(from).insert(to)
            } else {
                self.fullscreen_within_gaps
            },
        }
    }

    /// The windows of process `pid`, in stack order.
    pub open spec fn app_windows(self, pid: pid_t) -> Seq<WindowId> {
        self.windows.filter(of_app(pid))
    }

    /// The layout after removing each of `ws` in turn.
    pub open spec fn without_each(self, ws: Seq<WindowId>) -> LayoutStateView
        decreases ws.len(),
    {
        if ws.len() == 0 {
            self
        } else {
            self.without_each(ws.drop_last()).without(ws.last())
        }
    }

    /// The layout after removing every window of process `pid`.
    pub open spec fn without_app(self, pid: pid_t) -> LayoutStateView {
        self.without_each(self.app_windows(pid))
    }

    /// The windows kept when the windows of `pid` become `desired`.
    pub open spec fn kept_for_app(self, pid: pid_t, desired: Seq<WindowId>) -> Seq<WindowId> {
        self.windows.filter(kept_for(pid, desired))
    }

    /// The layout whose windows of process `pid` are those of `desired`: the
    /// others of `pid` leave, the missing ones join at the back; the
    /// selection stays if its window stays, else falls to the front window.
    pub open spec fn with_app_windows(self, pid: pid_t, desired: Seq<WindowId>) -> LayoutStateView {
        let windows = append_missing(self.kept_for_app(pid, desired), desired, pid);
        LayoutStateView {
            windows: windows,
            selected: match self.selected {
                Some(s) if windows.contains(s) => Some(s),
                _ => if windows.len() > 0 {
                    Some(windows[0])
                } else {
                    None
                },
            },
            ..self
        }
    }

    /// Whether some window of the layout belongs to process `pid`.
    pub open spec fn has_app_windows(self, pid: pid_t) -> bool {
        exists|i: int| 0 <= i < self.windows.len() && #[trigger] self.windows[i].pid == pid
    }

    /// The layout with `w` selected, when `w` is one of its windows.
    pub open spec fn with_selection(self, w: WindowId) -> LayoutStateView {
        if self.windows.contains(w) {
            LayoutStateView { selected: Some(w), ..self }
        } else {
            self
        }
    }

    /// The windows with the places `i` and `j` exchanged.
    pub open spec fn swap_places(s: Seq<WindowId>, i: int, j: int) -> Seq<WindowId> {
        s.update(i, s[j]).update(j, s[i])
    }

    /// The layout with the first occurrences of `a` and `b` exchanged, when
    /// both are there.
    pub open spec fn swapped(self, a: WindowId, b: WindowId) -> LayoutStateView {
        match (position(self.windows, a), position(self.windows, b)) {
            (Some(i), Some(j)) => LayoutStateView {
                windows: Self::swap_places(self.windows, i, j),
                ..self
            },
            _ => self,
        }
    }

    /// The layout with the selected window exchanged with its neighbor in
    /// `dir`, when there is one.
    pub open spec fn selection_moved(self, dir: Direction) -> LayoutStateView {
        match (self.selected_index(), self.neighbor_index(dir)) {
            (Some(i), Some(n)) => LayoutStateView {
                windows: Self::swap_places(self.windows, i, n),
                ..self
            },
            _ => self,
        }
    }

    /// The layout after toggling the shown window between fullscreen and
    /// not; becoming fullscreen ends fullscreen within the gaps.
    pub open spec fn fullscreen_toggled(self) -> LayoutStateView {
        match self.selected_or_first() {
            None => self,
            Some(s) => if self.fullscreen.contains(s) {
                LayoutStateView { fullscreen: self.fullscreen.remove(s), ..self }
            } else {
                LayoutStateView {
                    fullscreen: self.fullscreen.insert(s),
                    fullscreen_within_gaps: self.fullscreen_within_gaps.remove(s),
                    ..self
                }
            },
        }
    }

    /// The layout after toggling the shown window between fullscreen within
    /// the gaps and not; becoming so ends plain fullscreen.
    pub open spec fn fullscreen_within_gaps_toggled(self) -> LayoutStateView {
        match self.selected_or_first() {
            None => self,
            Some(s) => if self.fullscreen_within_gaps.contains(s) {
                LayoutStateView {
                    fullscreen_within_gaps: self.fullscreen_within_gaps.remove(s),
                    ..self
                }
            } else {
                LayoutStateView {
                    fullscreen: self.fullscreen.remove(s),
                    fullscreen_within_gaps: self.fullscreen_within_gaps.insert(s),
                    ..self
                }
            },
        }
    }

    /// Whether some window is fullscreen, either way.
    pub open spec fn has_any_fullscreen(self) -> bool {
        self.fullscreen != Set::<WindowId>::empty() || self.fullscreen_within_gaps != Set::<
            WindowId,
        >::empty()
    }

    /// The windows other than the selected one, in stack order.
    pub open spec fn unselected(self) -> Seq<WindowId> {
        self.windows.filter(not_selected(self.selected))
    }

    /// The order in which windows are placed, back to front: the unselected
    /// windows, then the shown window, so that it ends on top.
    pub open spec fn stacking_order(self) -> Seq<WindowId> {
        self.unselected() + seq_of(self.selected_or_first())
    }

    /// The rectangle a window is given.
    pub open spec fn frame_base(self, w: WindowId) -> FrameBase {
        if self.fullscreen_within_gaps.contains(w) {
            FrameBase::Tiling
        } else if self.fullscreen.contains(w) {
            FrameBase::Screen
        } else {
            FrameBase::Tiling
        }
    }

    /// A window with the rectangle it is given.
    pub open spec fn placed(self) -> spec_fn(WindowId) -> (WindowId, FrameBase) {
        |w: WindowId| (w, self.frame_base(w))
    }

    /// Each window in stacking order with the rectangle it is given.
    pub open spec fn placement(self) -> Seq<(WindowId, FrameBase)> {
        self.stacking_order().map_values(self.placed())
    }
}

} // verus!
