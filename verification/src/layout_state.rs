//! One monocle layout: the executable state and its operations, each stated
//! over the model of `model.rs`.

use vstd::prelude::*;

use crate::model::{
    append_missing, kept_for, lemma_filter_step, not_selected, of_app, lemma_position, lemma_position_is, position, seq_of, FrameBase,
    LayoutStateView,
};
use crate::window::{pid_t, Direction, WindowId};
use crate::window_set::{copy_windows, vec_contains, WindowSet};

verus! {

/// One monocle layout: its windows in stack order, front first, the
/// selected window, and the windows shown fullscreen.
#[derive(Debug)]
pub struct LayoutState {
    windows: Vec<WindowId>,
    selected: Option<WindowId>,
    fullscreen: WindowSet,
    fullscreen_within_gaps: WindowSet,
}

impl View for LayoutState {
    type V = LayoutStateView;

    closed spec fn view(&self) -> LayoutStateView {
        LayoutStateView {
            windows: self.windows@,
            selected: self.selected,
            fullscreen: self.fullscreen@,
            fullscreen_within_gaps: self.fullscreen_within_gaps@,
        }
    }
}

/// Whether `o` holds `w`.
fn is_some_window(o: Option<WindowId>, w: WindowId) -> (b: bool)
    ensures
        b == (o == Some(w)),
{
    match o {
        Some(x) => x == w,
        None => false,
    }
}

impl Default for LayoutState {
    fn default() -> (s: LayoutState)
        ensures
            s@ == LayoutStateView::empty(),
    {
        let s = LayoutState {
            windows: Vec::new(),
            selected: None,
            fullscreen: WindowSet::new(),
            fullscreen_within_gaps: WindowSet::new(),
        };
        assert(s@.windows =~= Seq::<WindowId>::empty());
        s
    }
}

impl LayoutState {
    /// The layout made of the given parts.
    pub fn from_parts(
        windows: Vec<WindowId>,
        selected: Option<WindowId>,
        fullscreen: Vec<WindowId>,
        fullscreen_within_gaps: Vec<WindowId>,
    ) -> (s: LayoutState)
        ensures
            s@.windows == windows@,
            s@.selected == selected,
            s@.fullscreen == fullscreen@.to_set(),
            s@.fullscreen_within_gaps == fullscreen_within_gaps@.to_set(),
    {
        LayoutState {
            windows,
            selected,
            fullscreen: WindowSet::from_vec(fullscreen),
            fullscreen_within_gaps: WindowSet::from_vec(fullscreen_within_gaps),
        }
    }

    /// The windows, front of the stack first.
    pub fn windows(&self) -> (v: Vec<WindowId>)
        ensures
            v@ == self@.windows,
    {
        copy_windows(&self.windows)
    }

    /// The selected window, if any.
    pub fn selected(&self) -> (s: Option<WindowId>)
        ensures
            s == self@.selected,
    {
        self.selected
    }

    /// The fullscreen windows.
    pub fn fullscreen_windows(&self) -> (v: Vec<WindowId>)
        ensures
            v@.to_set() == self@.fullscreen,
    {
        self.fullscreen.to_vec()
    }

    /// The windows fullscreen within the gaps.
    pub fn fullscreen_within_gaps_windows(&self) -> (v: Vec<WindowId>)
        ensures
            v@.to_set() == self@.fullscreen_within_gaps,
    {
        self.fullscreen_within_gaps.to_vec()
    }

    /// A second layout equal to this one.
    pub fn duplicate(&self) -> (s: LayoutState)
        ensures
            s@ == self@,
    {
        LayoutState {
            windows: copy_windows(&self.windows),
            selected: self.selected,
            fullscreen: self.fullscreen.duplicate(),
            fullscreen_within_gaps: self.fullscreen_within_gaps.duplicate(),
        }
    }

    /// The first place of `wid` among the windows.
    pub fn locate(&self, wid: WindowId) -> (r: Option<usize>)
        ensures
            match r {
                Some(i) => position(self@.windows, wid) == Some(i as int),
                None => position(self@.windows, wid) is None,
            },
    {
        let mut i: usize = 0;
        while i < self.windows.len()
            invariant
                0 <= i <= self.windows@.len(),
                forall|j: int| 0 <= j < i ==> self.windows@[j] != wid,
            decreases self.windows@.len() - i,
        {
            if self.windows[i] == wid {
                proof {
                    lemma_position_is(self@.windows, wid, i as int);
                }
                return Some(i);
            }
            i = i + 1;
        }
        proof {
            lemma_position(self@.windows, wid);
        }
        None
    }

    /// The selected window, else the front window.
    pub fn selected_or_first(&self) -> (r: Option<WindowId>)
        ensures
            r == self@.selected_or_first(),
    {
        match self.selected {
            Some(s) => Some(s),
            None => if self.windows.len() > 0 {
                Some(self.windows[0])
            } else {
                None
            },
        }
    }

    /// The first place of the selected window.
    pub fn selected_index(&self) -> (r: Option<usize>)
        ensures
            match r {
                Some(i) => self@.selected_index() == Some(i as int),
                None => self@.selected_index() is None,
            },
    {
        match self.selected {
            Some(s) => self.locate(s),
            None => None,
        }
    }

    /// The place next to the selection in `dir`, if there is one.
    pub fn neighbor_index(&self, dir: Direction) -> (r: Option<usize>)
        ensures
            match r {
                Some(n) => self@.neighbor_index(dir) == Some(n as int),
                None => self@.neighbor_index(dir) is None,
            },
    {
        let idx = match self.selected_index() {
            Some(i) => i,
            None => return None,
        };
        proof {
            lemma_position(self@.windows, self@.selected->0);
        }
        let n = self.windows.len();
        assert(idx < n);
        match dir {
            Direction::Left | Direction::Up => if idx >= 1 {
                Some(idx - 1)
            } else {
                None
            },
            Direction::Right | Direction::Down => if idx + 1 < n {
                Some(idx + 1)
            } else {
                None
            },
        }
    }

    /// The window next to the selection in `dir`, if there is one.
    pub fn neighbor(&self, dir: Direction) -> (r: Option<WindowId>)
        ensures
            r == self@.neighbor(dir),
    {
        match self.neighbor_index(dir) {
            Some(n) => {
                proof {
                    lemma_position(self@.windows, self@.selected->0);
                }
                Some(self.windows[n])
            },
            None => None,
        }
    }

    /// Moves the selection to its neighbor in `dir`; answers the newly
    /// selected window, or none (and no change) at the end of the stack.
    pub fn step_selection(&mut self, dir: Direction) -> (r: Option<WindowId>)
        ensures
            final(self)@ == old(self)@.stepped(dir),
            r == old(self)@.neighbor(dir),
    {
        match self.neighbor(dir) {
            Some(n) => {
                self.selected = Some(n);
                Some(n)
            },
            None => None,
        }
    }

    /// Adds `wid` just behind the selection (at the back when nothing is
    /// selected) and selects it; a window already there is only selected.
    pub fn add_window_after_selection(&mut self, wid: WindowId)
        ensures
            final(self)@ == old(self)@.with_window_after_selection(wid),
    {
        if let Some(idx) = self.locate(wid) {
            proof {
                lemma_position(self@.windows, wid);
            }
            self.selected = Some(self.windows[idx]);
            return;
        }
        let n = self.windows.len();
        let insert_at = match self.selected_index() {
            Some(idx) => {
                proof {
                    lemma_position(self@.windows, self@.selected->0);
                }
                idx + 1
            },
            None => n,
        };
        let at = if insert_at < n {
            insert_at
        } else {
            n
        };
        self.windows.insert(at, wid);
        self.selected = Some(wid);
    }

    /// Whether `wid` is one of the windows.
    pub fn contains(&self, wid: WindowId) -> (b: bool)
        ensures
            b == self@.windows.contains(wid),
    {
        proof {
            lemma_position(self@.windows, wid);
        }
        self.locate(wid).is_some()
    }

    /// Selects `wid` when it is one of the windows; says whether it is.
    pub fn select(&mut self, wid: WindowId) -> (b: bool)
        ensures
            b == old(self)@.windows.contains(wid),
            final(self)@ == old(self)@.with_selection(wid),
    {
        if self.contains(wid) {
            self.selected = Some(wid);
            true
        } else {
            false
        }
    }

    /// Replaces every occurrence of `from` by `to`.
    pub fn replace_window(&mut self, from: WindowId, to: WindowId)
        ensures
            final(self)@ == old(self)@.replaced(from, to),
    {
        let mut i: usize = 0;
        while i < self.windows.len()
            invariant
                0 <= i <= self.windows@.len(),
                self.windows@.len() == old(self)@.windows.len(),
                forall|j: int|
                    0 <= j < i ==> self.windows@[j] == (if old(self)@.windows[j] == from {
                        to
                    } else {
                        old(self)@.windows[j]
                    }),
                forall|j: int| i <= j < self.windows@.len() ==> self.windows@[j] == old(self)@.windows[j],
                self.selected == old(self).selected,
                self.fullscreen@ == old(self)@.fullscreen,
                self.fullscreen_within_gaps@ == old(self)@.fullscreen_within_gaps,
            decreases self.windows@.len() - i,
        {
            if self.windows[i] == from {
                self.windows.set(i, to);
            }
            i = i + 1;
        }
        if is_some_window(self.selected, from) {
            self.selected = Some(to);
        }
        if self.fullscreen.remove(from) {
            self.fullscreen.insert(to);
        } else {
            assert(self.fullscreen@ =~= old(self)@.fullscreen);
        }
        if self.fullscreen_within_gaps.remove(from) {
            self.fullscreen_within_gaps.insert(to);
        } else {
            assert(self.fullscreen_within_gaps@ =~= old(self)@.fullscreen_within_gaps);
        }
        assert(self@.windows =~= old(self)@.replaced(from, to).windows);
    }

    /// The windows of process `pid`, in stack order.
    pub fn app_windows(&self, pid: pid_t) -> (v: Vec<WindowId>)
        ensures
            v@ == self@.app_windows(pid),
    {
        let ghost pred = of_app(pid);
        let mut out: Vec<WindowId> = Vec::new();
        let mut i: usize = 0;
        while i < self.windows.len()
            invariant
                0 <= i <= self.windows@.len(),
                pred == of_app(pid),
                out@ == self.windows@.subrange(0, i as int).filter(pred),
            decreases self.windows@.len() - i,
        {
            proof {
                lemma_filter_step(self.windows@, pred, i as int);
            }
            let w = self.windows[i];
            if w.pid == pid {
                out.push(w);
            }
            i = i + 1;
        }
        assert(self.windows@.subrange(0, self.windows@.len() as int) =~= self.windows@);
        out
    }

    /// Whether some window belongs to process `pid`.
    pub fn has_app_windows(&self, pid: pid_t) -> (b: bool)
        ensures
            b == self@.has_app_windows(pid),
    {
        let mut i: usize = 0;
        while i < self.windows.len()
            invariant
                0 <= i <= self.windows@.len(),
                forall|j: int| 0 <= j < i ==> self.windows@[j].pid != pid,
            decreases self.windows@.len() - i,
        {
            if self.windows[i].pid == pid {
                assert(self@.windows[i as int].pid == pid);
                return true;
            }
            i = i + 1;
        }
        false
    }

    /// Removes every window of process `pid`, one after the other.
    pub fn remove_app_windows(&mut self, pid: pid_t)
        ensures
            final(self)@ == old(self)@.without_app(pid),
    {
        let windows = self.app_windows(pid);
        let mut i: usize = 0;
        while i < windows.len()
            invariant
                0 <= i <= windows@.len(),
                windows@ == old(self)@.app_windows(pid),
                self@ == old(self)@.without_each(windows@.subrange(0, i as int)),
            decreases windows@.len() - i,
        {
            proof {
                assert(windows@.subrange(0, i + 1).drop_last() =~= windows@.subrange(0, i as int));
            }
            self.remove_window(windows[i]);
            i = i + 1;
        }
        assert(windows@.subrange(0, windows@.len() as int) =~= windows@);
    }

    /// Makes the windows of process `pid` those of `desired`: the others of
    /// `pid` leave, the missing ones join at the back; the selection stays if
    /// its window stays, else falls to the front window.
    pub fn set_app_windows(&mut self, pid: pid_t, desired: &Vec<WindowId>)
        ensures
            final(self)@ == old(self)@.with_app_windows(pid, desired@),
    {
        let selected = self.selected;
        let ghost pred = kept_for(pid, desired@);
        let mut kept: Vec<WindowId> = Vec::new();
        let mut i: usize = 0;
        while i < self.windows.len()
            invariant
                0 <= i <= self.windows@.len(),
                self@ == old(self)@,
                pred == kept_for(pid, desired@),
                kept@ == self.windows@.subrange(0, i as int).filter(pred),
            decreases self.windows@.len() - i,
        {
            proof {
                lemma_filter_step(self.windows@, pred, i as int);
            }
            let w = self.windows[i];
            if w.pid != pid || vec_contains(desired, w) {
                kept.push(w);
            }
            i = i + 1;
        }
        assert(self.windows@.subrange(0, self.windows@.len() as int) =~= self.windows@);
        let ghost base = kept@;
        assert(base == old(self)@.kept_for_app(pid, desired@));
        let mut j: usize = 0;
        while j < desired.len()
            invariant
                0 <= j <= desired@.len(),
                kept@ == append_missing(base, desired@.subrange(0, j as int), pid),
            decreases desired@.len() - j,
        {
            proof {
                assert(desired@.subrange(0, j + 1).drop_last() =~= desired@.subrange(0, j as int));
            }
            let d = desired[j];
            if d.pid == pid && !vec_contains(&kept, d) {
                kept.push(d);
            }
            j = j + 1;
        }
        assert(desired@.subrange(0, desired@.len() as int) =~= desired@);
        self.windows = kept;
        self.selected = match selected {
            Some(s) if vec_contains(&self.windows, s) => Some(s),
            _ => if self.windows.len() > 0 {
                Some(self.windows[0])
            } else {
                None
            },
        };
    }

    /// Exchanges the first occurrences of `a` and `b`, when both are there;
    /// says whether they are.
    pub fn swap_windows(&mut self, a: WindowId, b: WindowId) -> (done: bool)
        ensures
            done == (old(self)@.windows.contains(a) && old(self)@.windows.contains(b)),
            final(self)@ == old(self)@.swapped(a, b),
    {
        proof {
            lemma_position(self@.windows, a);
            lemma_position(self@.windows, b);
        }
        let (i, j) = match (self.locate(a), self.locate(b)) {
            (Some(i), Some(j)) => (i, j),
            _ => return false,
        };
        self.swap_places(i, j);
        true
    }

    /// Exchanges the windows at places `i` and `j`.
    fn swap_places(&mut self, i: usize, j: usize)
        requires
            i < old(self)@.windows.len(),
            j < old(self)@.windows.len(),
        ensures
            final(self)@ == (LayoutStateView {
                windows: LayoutStateView::swap_places(old(self)@.windows, i as int, j as int),
                ..old(self)@
            }),
    {
        let x = self.windows[i];
        let y = self.windows[j];
        self.windows.set(i, y);
        self.windows.set(j, x);
    }

    /// Exchanges the selected window with its neighbor in `dir`; says
    /// whether there was one.
    pub fn move_selection(&mut self, dir: Direction) -> (moved: bool)
        ensures
            moved == (old(self)@.neighbor_index(dir) is Some),
            final(self)@ == old(self)@.selection_moved(dir),
    {
        let idx = match self.selected_index() {
            Some(i) => i,
            None => return false,
        };
        let target = match self.neighbor_index(dir) {
            Some(t) => t,
            None => return false,
        };
        proof {
            lemma_position(self@.windows, self@.selected->0);
        }
        self.swap_places(idx, target);
        true
    }

    /// Toggles the shown window between fullscreen and not; becoming
    /// fullscreen ends fullscreen within the gaps. Answers the window.
    pub fn toggle_fullscreen(&mut self) -> (r: Vec<WindowId>)
        ensures
            final(self)@ == old(self)@.fullscreen_toggled(),
            r@ == seq_of(old(self)@.selected_or_first()),
    {
        let selected = match self.selected_or_first() {
            Some(s) => s,
            None => return Vec::new(),
        };
        if self.fullscreen.remove(selected) {
            return vec![selected];
        }
        assert(self.fullscreen@ =~= old(self)@.fullscreen);
        self.fullscreen_within_gaps.remove(selected);
        self.fullscreen.insert(selected);
        vec![selected]
    }

    /// Toggles the shown window between fullscreen within the gaps and not;
    /// becoming so ends plain fullscreen. Answers the window.
    pub fn toggle_fullscreen_within_gaps(&mut self) -> (r: Vec<WindowId>)
        ensures
            final(self)@ == old(self)@.fullscreen_within_gaps_toggled(),
            r@ == seq_of(old(self)@.selected_or_first()),
    {
        let selected = match self.selected_or_first() {
            Some(s) => s,
            None => return Vec::new(),
        };
        if self.fullscreen_within_gaps.remove(selected) {
            return vec![selected];
        }
        assert(self.fullscreen_within_gaps@ =~= old(self)@.fullscreen_within_gaps);
        self.fullscreen.remove(selected);
        self.fullscreen_within_gaps.insert(selected);
        vec![selected]
    }

    /// Whether some window is fullscreen, either way.
    pub fn has_any_fullscreen(&self) -> (b: bool)
        ensures
            b == self@.has_any_fullscreen(),
    {
        !self.fullscreen.is_empty() || !self.fullscreen_within_gaps.is_empty()
    }

    /// Whether `wid` is fullscreen.
    pub fn is_fullscreen(&self, wid: WindowId) -> (b: bool)
        ensures
            b == self@.fullscreen.contains(wid),
    {
        self.fullscreen.contains(wid)
    }

    /// Whether `wid` is fullscreen within the gaps.
    pub fn is_fullscreen_within_gaps(&self, wid: WindowId) -> (b: bool)
        ensures
            b == self@.fullscreen_within_gaps.contains(wid),
    {
        self.fullscreen_within_gaps.contains(wid)
    }

    /// The rectangle `wid` is given.
    pub fn frame_base(&self, wid: WindowId) -> (f: FrameBase)
        ensures
            f == self@.frame_base(wid),
    {
        if self.fullscreen_within_gaps.contains(wid) {
            FrameBase::Tiling
        } else if self.fullscreen.contains(wid) {
            FrameBase::Screen
        } else {
            FrameBase::Tiling
        }
    }

    /// Each window in stacking order, back to front, with the rectangle it is
    /// given: the unselected windows, then the shown window on top.
    pub fn placement(&self) -> (v: Vec<(WindowId, FrameBase)>)
        ensures
            v@ == self@.placement(),
    {
        let ghost pred = not_selected(self@.selected);
        let ghost f = self@.placed();
        let mut out: Vec<(WindowId, FrameBase)> = Vec::new();
        let mut i: usize = 0;
        while i < self.windows.len()
            invariant
                0 <= i <= self.windows@.len(),
                pred == not_selected(self@.selected),
                f == self@.placed(),
                out@ == self.windows@.subrange(0, i as int).filter(pred).map_values(f),
            decreases self.windows@.len() - i,
        {
            proof {
                lemma_filter_step(self.windows@, pred, i as int);
            }
            let w = self.windows[i];
            if !is_some_window(self.selected, w) {
                let base = self.frame_base(w);
                out.push((w, base));
            }
            proof {
                let sub = self.windows@.subrange(0, i + 1).filter(pred);
                assert(out@ =~= sub.map_values(f));
            }
            i = i + 1;
        }
        assert(self.windows@.subrange(0, self.windows@.len() as int) =~= self.windows@);
        let ghost unselected = out@;
        if let Some(s) = self.selected_or_first() {
            let base = self.frame_base(s);
            out.push((s, base));
        }
        assert(out@ =~= self@.placement());
        out
    }

    /// Removes the first occurrence of `wid`; when it was selected, the
    /// window that took its place (else the last window) becomes selected.
    /// Answers the selection after removal, or none when `wid` was not there.
    pub fn remove_window(&mut self, wid: WindowId) -> (r: Option<WindowId>)
        ensures
            final(self)@ == old(self)@.without(wid),
            r == old(self)@.selection_after_removal(wid),
    {
        let idx = match self.locate(wid) {
            Some(i) => i,
            None => return None,
        };
        proof {
            lemma_position(self@.windows, wid);
        }
        self.windows.remove(idx);
        self.fullscreen.remove(wid);
        self.fullscreen_within_gaps.remove(wid);
        if is_some_window(self.selected, wid) {
            let n = self.windows.len();
            self.selected = if idx < n {
                Some(self.windows[idx])
            } else if n > 0 {
                Some(self.windows[n - 1])
            } else {
                None
            };
        }
        self.selected
    }
}

} // verus!
