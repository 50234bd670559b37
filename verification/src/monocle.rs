//! The monocle layout system: many layouts, each a stack of windows of
//! which only the selected one is shown on top.

use vstd::prelude::*;

use crate::layout_state::LayoutState;
use crate::laws::{
    law_adding_selects_the_window, law_removal_keeps_selection_valid,
    law_removals_keep_selection_valid, law_replacing_keeps_selection_valid,
    law_selection_changes_keep_selection_valid, law_setting_app_windows_keeps_selection_valid,
};
use crate::model::{seq_of, FrameBase, LayoutStateView};
use crate::render::{describe_layout, describes_layout, layout_text, layout_tree, ContainerTreeNode};
use crate::slots::{slot_layouts, LayoutId, LayoutSlots};
use crate::window::{pid_t, Direction, WindowId};

verus! {

/// The layouts of the monocle system, by id.
pub type Layouts = Map<LayoutId, LayoutStateView>;

/// `layouts` with the layout under `layout` replaced by `v`, when there is
/// one under it.
pub open spec fn with_layout(layouts: Layouts, layout: LayoutId, v: LayoutStateView) -> Layouts {
    if layouts.dom().contains(layout) {
        layouts.insert(layout, v)
    } else {
        layouts
    }
}

/// The layout under `layout`, or the empty layout when there is none.
pub open spec fn layout_or_empty(layouts: Layouts, layout: LayoutId) -> LayoutStateView {
    if layouts.dom().contains(layout) {
        layouts[layout]
    } else {
        LayoutStateView::empty()
    }
}

/// Every layout has its selection among its windows, and a selection
/// whenever it has a window.
pub open spec fn layouts_wf(layouts: Layouts) -> bool {
    forall|k: LayoutId| layouts.dom().contains(k) ==> (#[trigger] layouts[k]).wf()
}

proof fn lemma_layouts_wf_update(layouts: Layouts, layout: LayoutId, v: LayoutStateView)
    ensures
        layouts_wf(layouts) && (layouts.dom().contains(layout) ==> v.wf()) ==> layouts_wf(
            with_layout(layouts, layout, v),
        ),
{
}

/// The layouts after the shown window of `from_layout` leaves it and joins
/// `to_layout` just behind its selection, selected there.
pub open spec fn moved_selection(layouts: Layouts, from_layout: LayoutId, to_layout: LayoutId) -> Layouts {
    match layout_or_empty(layouts, from_layout).selected_or_first() {
        None => layouts,
        Some(w) => {
            let mid = with_layout(layouts, from_layout, layouts[from_layout].without(w));
            with_layout(mid, to_layout, mid[to_layout].with_window_after_selection(w))
        },
    }
}

/// Moving the shown window of one layout to another leaves it selected
/// there and, when it was listed once, gone from where it was.
pub proof fn law_moved_window_lands_selected(layouts: Layouts, from_layout: LayoutId, to_layout: LayoutId)
    requires
        layouts.dom().contains(from_layout),
        layouts.dom().contains(to_layout),
        from_layout != to_layout,
        layouts[from_layout].windows.no_duplicates(),
        layouts[from_layout].selected_or_first() is Some,
    ensures
        ({
            let w = layouts[from_layout].selected_or_first()->0;
            let r = moved_selection(layouts, from_layout, to_layout);
            &&& r.dom() == layouts.dom()
            &&& r[to_layout].windows.contains(w)
            &&& r[to_layout].selected == Some(w)
            &&& !r[from_layout].windows.contains(w)
        }),
{
    let w = layouts[from_layout].selected_or_first()->0;
    let mid = with_layout(layouts, from_layout, layouts[from_layout].without(w));
    crate::laws::law_removed_window_is_gone(layouts[from_layout], w);
    law_adding_selects_the_window(mid[to_layout], w);
    assert(moved_selection(layouts, from_layout, to_layout).dom() =~= layouts.dom());
}

/// With each window of a layout listed once, moving its selected window one
/// place in a direction, when that succeeds, is undone by moving it one place
/// the opposite way, which then succeeds too.
pub proof fn law_move_selection_round_trip(layouts: Layouts, layout: LayoutId, dir: Direction)
    requires
        layouts.dom().contains(layout),
        layouts[layout].windows.no_duplicates(),
        layouts[layout].neighbor_index(dir) is Some,
    ensures
        ({
            let once = with_layout(layouts, layout, layouts[layout].selection_moved(dir));
            &&& once[layout].neighbor_index(dir.opposite()) is Some
            &&& with_layout(once, layout, once[layout].selection_moved(dir.opposite()))
                == layouts
        }),
{
    crate::laws::law_selection_move_is_undone_by_opposite_move(layouts[layout], dir);
    let once = with_layout(layouts, layout, layouts[layout].selection_moved(dir));
    assert(with_layout(once, layout, once[layout].selection_moved(dir.opposite())) =~= layouts);
}

/// A change applied to every layout.
enum EachLayout {
    RemoveWindow(WindowId),
    ReplaceWindow(WindowId, WindowId),
    RemoveApp(pid_t),
}

impl EachLayout {
    spec fn apply(self, v: LayoutStateView) -> LayoutStateView {
        match self {
            EachLayout::RemoveWindow(w) => v.without(w),
            EachLayout::ReplaceWindow(from, to) => v.replaced(from, to),
            EachLayout::RemoveApp(pid) => v.without_app(pid),
        }
    }

    fn run(&self, state: &mut LayoutState)
        ensures
            final(state)@ == self.apply(old(state)@),
    {
        match self {
            EachLayout::RemoveWindow(w) => {
                state.remove_window(*w);
            },
            EachLayout::ReplaceWindow(from, to) => state.replace_window(*from, *to),
            EachLayout::RemoveApp(pid) => state.remove_app_windows(*pid),
        }
    }
}

/// Every window of a layout fills the whole tiling area and the selected
/// window is raised on top of the others.
pub struct MonocleLayoutSystem {
    layouts: LayoutSlots,
}

impl View for MonocleLayoutSystem {
    type V = Layouts;

    closed spec fn view(&self) -> Layouts {
        slot_layouts(self.layouts)
    }
}

impl Default for MonocleLayoutSystem {
    fn default() -> (s: MonocleLayoutSystem)
        ensures
            s@.dom() == Set::<LayoutId>::empty(),
            layouts_wf(s@),
    {
        MonocleLayoutSystem { layouts: LayoutSlots::new() }
    }
}

impl MonocleLayoutSystem {
    /// The number of layouts.
    pub fn layout_count(&self) -> (n: usize)
        ensures
            n == self@.len(),
    {
        self.layouts.len()
    }

    /// The ids of all layouts, each once.
    pub fn layout_ids(&self) -> (ids: Vec<LayoutId>)
        ensures
            ids@.no_duplicates(),
            ids@.to_set() == self@.dom(),
    {
        let ids = self.layouts.keys();
        assert(ids@.to_set() =~= self@.dom());
        ids
    }

    fn layout_state(&self, layout: LayoutId) -> (r: Option<&LayoutState>)
        ensures
            match r {
                Some(s) => self@.dom().contains(layout) && s@ == self@[layout],
                None => !self@.dom().contains(layout),
            },
    {
        self.layouts.get(layout)
    }

    /// A copy of the layout under `layout`, if there is one.
    pub fn layout_snapshot(&self, layout: LayoutId) -> (r: Option<LayoutState>)
        ensures
            match r {
                Some(s) => self@.dom().contains(layout) && s@ == self@[layout],
                None => !self@.dom().contains(layout),
            },
    {
        match self.layouts.get(layout) {
            Some(s) => Some(s.duplicate()),
            None => None,
        }
    }

    /// Makes a new empty layout and answers its id.
    pub fn create_layout(&mut self) -> (layout: LayoutId)
        requires
            old(self)@.len() + 1 < u32::MAX,
        ensures
            layouts_wf(old(self)@) ==> layouts_wf(final(self)@),
            !old(self)@.dom().contains(layout),
            final(self)@ == old(self)@.insert(layout, LayoutStateView::empty()),
    {
        proof {
            assert(LayoutStateView::empty().wf());
        }
        self.layouts.insert(LayoutState::default())
    }

    /// Makes a new empty layout, unless the slot map is full.
    pub fn try_create_layout(&mut self) -> (layout: Option<LayoutId>)
        ensures
            layouts_wf(old(self)@) ==> layouts_wf(final(self)@),
            old(self)@.len() + 1 < u32::MAX <==> layout is Some,
            match layout {
                Some(l) => !old(self)@.dom().contains(l) && final(self)@ == old(self)@.insert(
                    l,
                    LayoutStateView::empty(),
                ),
                None => final(self)@ == old(self)@,
            },
    {
        proof {
            assert(LayoutStateView::empty().wf());
        }
        if self.layouts.len() < u32::MAX as usize - 1 {
            Some(self.create_layout())
        } else {
            None
        }
    }

    /// Whether there is a layout under `layout`.
    pub fn contains_layout(&self, layout: LayoutId) -> (b: bool)
        ensures
            b == self@.dom().contains(layout),
    {
        self.layouts.contains_key(layout)
    }

    /// Makes a new layout equal to the one under `layout` (empty when there
    /// is none) and answers its id.
    pub fn clone_layout(&mut self, layout: LayoutId) -> (copy: LayoutId)
        requires
            old(self)@.len() + 1 < u32::MAX,
        ensures
            layouts_wf(old(self)@) ==> layouts_wf(final(self)@),
            !old(self)@.dom().contains(copy),
            final(self)@ == old(self)@.insert(copy, layout_or_empty(old(self)@, layout)),
    {
        proof {
            assert(LayoutStateView::empty().wf());
        }
        let cloned = match self.layouts.get(layout) {
            Some(s) => s.duplicate(),
            None => LayoutState::default(),
        };
        self.layouts.insert(cloned)
    }

    /// Makes a new layout equal to the one under `layout` (empty when there
    /// is none), unless the slot map is full.
    pub fn try_clone_layout(&mut self, layout: LayoutId) -> (copy: Option<LayoutId>)
        ensures
            old(self)@.len() + 1 < u32::MAX <==> copy is Some,
            match copy {
                Some(c) => !old(self)@.dom().contains(c) && final(self)@ == old(self)@.insert(
                    c,
                    layout_or_empty(old(self)@, layout),
                ),
                None => final(self)@ == old(self)@,
            },
            layouts_wf(old(self)@) ==> layouts_wf(final(self)@),
    {
        if self.layouts.len() < u32::MAX as usize - 1 {
            Some(self.clone_layout(layout))
        } else {
            None
        }
    }

    /// Drops the layout under `layout`.
    pub fn remove_layout(&mut self, layout: LayoutId)
        ensures
            layouts_wf(old(self)@) ==> layouts_wf(final(self)@),
            final(self)@ == old(self)@.remove(layout),
    {
        self.layouts.remove(layout);
    }

    /// The one-line description of the layout (empty when there is none):
    /// `Monocle:` and each window in stack order, the selected one starred.
    pub fn draw_tree(&self, layout: LayoutId) -> (text: String)
        ensures
            text@ == (if self@.dom().contains(layout) {
                layout_text(self@[layout])
            } else {
                Seq::<char>::empty()
            }),
    {
        match self.layout_state(layout) {
            Some(state) => describe_layout(state),
            None => String::new(),
        }
    }

    /// The container tree of the layout: one monocle container holding a
    /// leaf for each window, in stack order.
    pub fn container_tree(&self, layout: LayoutId) -> (node: ContainerTreeNode)
        requires
            self@.dom().contains(layout),
        ensures
            describes_layout(node, self@[layout]),
    {
        match self.layout_state(layout) {
            Some(state) => layout_tree(state),
            None => {
                assert(false);
                layout_tree(&LayoutState::default())
            },
        }
    }

    /// Each window of the layout in stacking order, back to front, with the
    /// rectangle it is given; the shown window comes last, on top.
    pub fn calculate_layout(&self, layout: LayoutId) -> (v: Vec<(WindowId, FrameBase)>)
        ensures
            v@ == layout_or_empty(self@, layout).placement(),
    {
        match self.layout_state(layout) {
            Some(state) => state.placement(),
            None => {
                assert(LayoutStateView::empty().windows.filter(
                    crate::model::not_selected(None),
                ) =~= Seq::<WindowId>::empty()) by {
                    reveal(Seq::filter);
                }
                assert(LayoutStateView::empty().placement() =~= Seq::<(WindowId, FrameBase)>::empty());
                Vec::new()
            },
        }
    }

    /// The shown window of the layout: the selected one, else the front one.
    pub fn selected_window(&self, layout: LayoutId) -> (r: Option<WindowId>)
        ensures
            r == layout_or_empty(self@, layout).selected_or_first(),
    {
        match self.layout_state(layout) {
            Some(state) => state.selected_or_first(),
            None => None,
        }
    }

    /// The windows of the layout, front first.
    pub fn all_windows_in_layout(&self, layout: LayoutId) -> (v: Vec<WindowId>)
        ensures
            v@ == layout_or_empty(self@, layout).windows,
    {
        match self.layout_state(layout) {
            Some(state) => state.windows(),
            None => Vec::new(),
        }
    }

    /// The windows of the layout that count as visible: all of them.
    pub fn visible_windows_in_layout(&self, layout: LayoutId) -> (v: Vec<WindowId>)
        ensures
            v@ == layout_or_empty(self@, layout).windows,
    {
        self.all_windows_in_layout(layout)
    }

    /// The windows under the selection: the shown window alone.
    pub fn visible_windows_under_selection(&self, layout: LayoutId) -> (v: Vec<WindowId>)
        ensures
            v@ == seq_of(layout_or_empty(self@, layout).selected_or_first()),
    {
        match self.selected_window(layout) {
            Some(w) => vec![w],
            None => Vec::new(),
        }
    }

    /// A monocle layout has no containers to ascend to.
    pub fn ascend_selection(&mut self, layout: LayoutId) -> (moved: bool)
        ensures
            !moved,
            final(self)@ == old(self)@,
    {
        false
    }

    /// A monocle layout has no containers to descend into.
    pub fn descend_selection(&mut self, layout: LayoutId) -> (moved: bool)
        ensures
            !moved,
            final(self)@ == old(self)@,
    {
        false
    }

    /// Moves the selection to its neighbor in `direction`; answers the newly
    /// selected window and the windows to raise (that window alone). At the
    /// end of the stack nothing changes and nothing is answered, so that
    /// navigation falls through to the next space.
    pub fn move_focus(&mut self, layout: LayoutId, direction: Direction) -> (r: (
        Option<WindowId>,
        Vec<WindowId>,
    ))
        ensures
            layouts_wf(old(self)@) ==> layouts_wf(final(self)@),
            r.0 == (if old(self)@.dom().contains(layout) {
                old(self)@[layout].neighbor(direction)
            } else {
                None
            }),
            r.1@ == seq_of(r.0),
            final(self)@ == with_layout(
                old(self)@,
                layout,
                old(self)@[layout].stepped(direction),
            ),
    {
        proof {
            if layouts_wf(self@) && self@.dom().contains(layout) {
                law_selection_changes_keep_selection_valid(self@[layout], direction, arbitrary(), arbitrary(), arbitrary());
            }
            lemma_layouts_wf_update(self@, layout, self@[layout].stepped(direction));
        }
        if !self.layouts.contains_key(layout) {
            return (None, Vec::new());
        }
        let state = self.layouts.get_mut(layout);
        let new_sel = Self::step_selection(state, direction);
        let raise = match new_sel {
            Some(w) => vec![w],
            None => Vec::new(),
        };
        (new_sel, raise)
    }

    /// Moves the selection of `state` to its neighbor in `direction`.
    fn step_selection(state: &mut LayoutState, direction: Direction) -> (r: Option<WindowId>)
        ensures
            final(state)@ == old(state)@.stepped(direction),
            r == old(state)@.neighbor(direction),
    {
        state.step_selection(direction)
    }

    /// The neighbor of the selection in `direction`, if any.
    pub fn window_in_direction(&self, layout: LayoutId, direction: Direction) -> (r: Option<
        WindowId,
    >)
        ensures
            r == layout_or_empty(self@, layout).neighbor(direction),
    {
        match self.layout_state(layout) {
            Some(state) => state.neighbor(direction),
            None => {
                assert(LayoutStateView::empty().selected_index() is None);
                None
            },
        }
    }

    /// Adds `wid` just behind the selection of the layout (at the back when
    /// nothing is selected) and selects it; a window already there is only
    /// selected. Nothing happens when there is no such layout.
    pub fn add_window_after_selection(&mut self, layout: LayoutId, wid: WindowId)
        ensures
            layouts_wf(old(self)@) ==> layouts_wf(final(self)@),
            final(self)@ == with_layout(
                old(self)@,
                layout,
                old(self)@[layout].with_window_after_selection(wid),
            ),
    {
        proof {
            if layouts_wf(self@) && self@.dom().contains(layout) {
                law_adding_selects_the_window(self@[layout], wid);
            }
            lemma_layouts_wf_update(self@, layout, self@[layout].with_window_after_selection(wid));
        }
        if !self.layouts.contains_key(layout) {
            return ;
        }
        let state = self.layouts.get_mut(layout);
        state.add_window_after_selection(wid);
    }

    /// Applies `change` to every layout.
    fn for_each_layout(&mut self, change: EachLayout)
        ensures
            final(self)@ == old(self)@.map_values(|v: LayoutStateView| change.apply(v)),
    {
        let keys = self.layouts.keys();
        let mut i: usize = 0;
        while i < keys.len()
            invariant
                0 <= i <= keys@.len(),
                keys@.no_duplicates(),
                forall|j: int| 0 <= j < keys@.len() ==> old(self)@.dom().contains(#[trigger] keys@[j]),
                forall|k: LayoutId| old(self)@.dom().contains(k) ==> #[trigger] keys@.contains(k),
                self@.dom() == old(self)@.dom(),
                forall|k: LayoutId|
                    #![trigger self@[k]]
                    old(self)@.dom().contains(k) ==> self@[k] == (if keys@.subrange(
                        0,
                        i as int,
                    ).contains(k) {
                        change.apply(old(self)@[k])
                    } else {
                        old(self)@[k]
                    }),
            decreases keys@.len() - i,
        {
            let key = keys[i];
            proof {
                assert(!keys@.subrange(0, i as int).contains(key));
                assert(keys@.subrange(0, i + 1) =~= keys@.subrange(0, i as int).push(key));
            }
            let ghost prev = self@;
            let state = self.layouts.get_mut(key);
            change.run(state);
            proof {
                assert(self@ == prev.insert(key, change.apply(prev[key])));
                assert(prev[key] == old(self)@[key]);
                assert forall|k: LayoutId|
                    #![trigger self@[k]]
                    old(self)@.dom().contains(k) implies self@[k] == (if keys@.subrange(
                        0,
                        i + 1,
                    ).contains(k) {
                        change.apply(old(self)@[k])
                    } else {
                        old(self)@[k]
                    }) by {
                    if k == key {
                        assert(keys@.subrange(0, i + 1)[i as int] == key);
                    } else {
                        assert(self@[k] == prev[k]);
                        assert(keys@.subrange(0, i + 1).contains(k) == keys@.subrange(
                            0,
                            i as int,
                        ).contains(k));
                    }
                }
            }
            i = i + 1;
        }
        assert(keys@.subrange(0, keys@.len() as int) =~= keys@);
        assert(self@ =~= old(self)@.map_values(|v: LayoutStateView| change.apply(v)));
    }

    /// Replaces every occurrence of `from` by `to`, in every layout.
    pub fn replace_window(&mut self, from: WindowId, to: WindowId)
        ensures
            layouts_wf(old(self)@) ==> layouts_wf(final(self)@),
            final(self)@ == (if from == to {
                old(self)@
            } else {
                old(self)@.map_values(|v: LayoutStateView| v.replaced(from, to))
            }),
    {
        proof {
            if layouts_wf(self@) {
                assert forall|k: LayoutId| self@.dom().contains(k) implies #[trigger] self@[k].replaced(from, to).wf() by {
                    law_replacing_keeps_selection_valid(self@[k], from, to);
                }
            }
        }
        if from == to {
            return ;
        }
        self.for_each_layout(EachLayout::ReplaceWindow(from, to));
    }

    /// Removes `wid` from every layout.
    pub fn remove_window(&mut self, wid: WindowId)
        ensures
            layouts_wf(old(self)@) ==> layouts_wf(final(self)@),
            final(self)@ == old(self)@.map_values(|v: LayoutStateView| v.without(wid)),
    {
        proof {
            if layouts_wf(self@) {
                assert forall|k: LayoutId| self@.dom().contains(k) implies #[trigger] self@[k].without(wid).wf() by {
                    law_removal_keeps_selection_valid(self@[k], wid);
                }
            }
        }
        self.for_each_layout(EachLayout::RemoveWindow(wid));
    }

    /// Removes every window of process `pid` from every layout.
    pub fn remove_windows_for_app(&mut self, pid: pid_t)
        ensures
            layouts_wf(old(self)@) ==> layouts_wf(final(self)@),
            final(self)@ == old(self)@.map_values(|v: LayoutStateView| v.without_app(pid)),
    {
        proof {
            if layouts_wf(self@) {
                assert forall|k: LayoutId| self@.dom().contains(k) implies #[trigger] self@[k].without_app(pid).wf() by {
                    law_removals_keep_selection_valid(self@[k], self@[k].app_windows(pid));
                }
            }
        }
        self.for_each_layout(EachLayout::RemoveApp(pid));
    }

    /// The windows of process `pid` in the layout, in stack order.
    pub fn windows_for_app(&self, layout: LayoutId, pid: pid_t) -> (v: Vec<WindowId>)
        ensures
            v@ == layout_or_empty(self@, layout).app_windows(pid),
    {
        match self.layout_state(layout) {
            Some(state) => state.app_windows(pid),
            None => {
                assert(LayoutStateView::empty().app_windows(pid) =~= Seq::<WindowId>::empty())
                    by {
                    reveal(Seq::filter);
                }
                Vec::new()
            },
        }
    }

    /// Makes the windows of process `pid` in the layout those of `desired`:
    /// the others of `pid` leave, the missing ones join at the back; the
    /// selection stays if its window stays, else falls to the front window.
    pub fn set_windows_for_app(&mut self, layout: LayoutId, pid: pid_t, desired: Vec<WindowId>)
        ensures
            layouts_wf(old(self)@) ==> layouts_wf(final(self)@),
            final(self)@ == with_layout(
                old(self)@,
                layout,
                old(self)@[layout].with_app_windows(pid, desired@),
            ),
    {
        proof {
            if layouts_wf(self@) && self@.dom().contains(layout) {
                law_setting_app_windows_keeps_selection_valid(self@[layout], pid, desired@);
            }
            lemma_layouts_wf_update(self@, layout, self@[layout].with_app_windows(pid, desired@));
        }
        if !self.layouts.contains_key(layout) {
            return ;
        }
        let state = self.layouts.get_mut(layout);
        state.set_app_windows(pid, &desired);
    }

    /// Whether some window of the layout belongs to process `pid`.
    pub fn has_windows_for_app(&self, layout: LayoutId, pid: pid_t) -> (b: bool)
        ensures
            b == (self@.dom().contains(layout) && self@[layout].has_app_windows(pid)),
    {
        match self.layout_state(layout) {
            Some(state) => state.has_app_windows(pid),
            None => false,
        }
    }

    /// Whether `wid` is one of the windows of the layout.
    pub fn contains_window(&self, layout: LayoutId, wid: WindowId) -> (b: bool)
        ensures
            b == (self@.dom().contains(layout) && self@[layout].windows.contains(wid)),
    {
        match self.layout_state(layout) {
            Some(state) => state.contains(wid),
            None => false,
        }
    }

    /// Selects `wid` in the layout when it is one of its windows; says
    /// whether it is.
    pub fn select_window(&mut self, layout: LayoutId, wid: WindowId) -> (b: bool)
        ensures
            layouts_wf(old(self)@) ==> layouts_wf(final(self)@),
            b == (old(self)@.dom().contains(layout) && old(self)@[layout].windows.contains(wid)),
            final(self)@ == with_layout(old(self)@, layout, old(self)@[layout].with_selection(wid)),
    {
        proof {
            if layouts_wf(self@) && self@.dom().contains(layout) {
                law_selection_changes_keep_selection_valid(self@[layout], arbitrary(), wid, arbitrary(), arbitrary());
            }
            lemma_layouts_wf_update(self@, layout, self@[layout].with_selection(wid));
        }
        if !self.layouts.contains_key(layout) {
            return false;
        }
        let state = self.layouts.get_mut(layout);
        state.select(wid)
    }

    /// Exchanges `a` and `b` in the stack of the layout when both are
    /// there; says whether they are.
    pub fn swap_windows(&mut self, layout: LayoutId, a: WindowId, b: WindowId) -> (done: bool)
        ensures
            layouts_wf(old(self)@) ==> layouts_wf(final(self)@),
            done == (old(self)@.dom().contains(layout) && old(self)@[layout].windows.contains(a)
                && old(self)@[layout].windows.contains(b)),
            final(self)@ == with_layout(old(self)@, layout, old(self)@[layout].swapped(a, b)),
    {
        proof {
            if layouts_wf(self@) && self@.dom().contains(layout) {
                law_selection_changes_keep_selection_valid(self@[layout], arbitrary(), arbitrary(), a, b);
            }
            lemma_layouts_wf_update(self@, layout, self@[layout].swapped(a, b));
        }
        if !self.layouts.contains_key(layout) {
            return false;
        }
        let state = self.layouts.get_mut(layout);
        state.swap_windows(a, b)
    }

    /// Exchanges the selected window with its neighbor in `direction`; says
    /// whether there was one.
    pub fn move_selection(&mut self, layout: LayoutId, direction: Direction) -> (moved: bool)
        ensures
            layouts_wf(old(self)@) ==> layouts_wf(final(self)@),
            moved == (old(self)@.dom().contains(layout) && old(self)@[layout].neighbor_index(
                direction,
            ) is Some),
            final(self)@ == with_layout(
                old(self)@,
                layout,
                old(self)@[layout].selection_moved(direction),
            ),
    {
        proof {
            if layouts_wf(self@) && self@.dom().contains(layout) {
                law_selection_changes_keep_selection_valid(self@[layout], direction, arbitrary(), arbitrary(), arbitrary());
            }
            lemma_layouts_wf_update(self@, layout, self@[layout].selection_moved(direction));
        }
        if !self.layouts.contains_key(layout) {
            return false;
        }
        let state = self.layouts.get_mut(layout);
        state.move_selection(direction)
    }

    /// Moves the shown window of `from_layout` into `to_layout`, just behind
    /// its selection, and selects it there. The window leaves `from_layout`
    /// even when there is no layout under `to_layout`.
    pub fn move_selection_to_layout_after_selection(
        &mut self,
        from_layout: LayoutId,
        to_layout: LayoutId,
    )
        ensures
            layouts_wf(old(self)@) ==> layouts_wf(final(self)@),
            final(self)@ == moved_selection(old(self)@, from_layout, to_layout),
    {
        proof {
            if layouts_wf(self@) {
                let from = layout_or_empty(self@, from_layout);
                if let Some(w) = from.selected_or_first() {
                    if self@.dom().contains(from_layout) {
                        law_removal_keeps_selection_valid(self@[from_layout], w);
                    }
                    lemma_layouts_wf_update(self@, from_layout, self@[from_layout].without(w));
                    let mid = with_layout(self@, from_layout, self@[from_layout].without(w));
                    if mid.dom().contains(to_layout) {
                        law_adding_selects_the_window(mid[to_layout], w);
                    }
                    lemma_layouts_wf_update(mid, to_layout, mid[to_layout].with_window_after_selection(w));
                }
            }
        }
        let selected = match self.selected_window(from_layout) {
            Some(w) => w,
            None => return ,
        };
        if self.layouts.contains_key(from_layout) {
            let state = self.layouts.get_mut(from_layout);
            state.remove_window(selected);
        }
        self.add_window_after_selection(to_layout, selected);
    }

    /// Toggles the shown window of the layout between fullscreen and not;
    /// answers that window.
    pub fn toggle_fullscreen_of_selection(&mut self, layout: LayoutId) -> (r: Vec<WindowId>)
        ensures
            layouts_wf(old(self)@) ==> layouts_wf(final(self)@),
            r@ == seq_of(layout_or_empty(old(self)@, layout).selected_or_first()),
            final(self)@ == with_layout(old(self)@, layout, old(self)@[layout].fullscreen_toggled()),
    {
        proof {
            if layouts_wf(self@) && self@.dom().contains(layout) {
                law_selection_changes_keep_selection_valid(self@[layout], arbitrary(), arbitrary(), arbitrary(), arbitrary());
            }
            lemma_layouts_wf_update(self@, layout, self@[layout].fullscreen_toggled());
        }
        if !self.layouts.contains_key(layout) {
            return Vec::new();
        }
        let state = self.layouts.get_mut(layout);
        state.toggle_fullscreen()
    }

    /// Toggles the shown window of the layout between fullscreen within the
    /// gaps and not; answers that window.
    pub fn toggle_fullscreen_within_gaps_of_selection(&mut self, layout: LayoutId) -> (r: Vec<
        WindowId,
    >)
        ensures
            layouts_wf(old(self)@) ==> layouts_wf(final(self)@),
            r@ == seq_of(layout_or_empty(old(self)@, layout).selected_or_first()),
            final(self)@ == with_layout(
                old(self)@,
                layout,
                old(self)@[layout].fullscreen_within_gaps_toggled(),
            ),
    {
        proof {
            if layouts_wf(self@) && self@.dom().contains(layout) {
                law_selection_changes_keep_selection_valid(self@[layout], arbitrary(), arbitrary(), arbitrary(), arbitrary());
            }
            lemma_layouts_wf_update(self@, layout, self@[layout].fullscreen_within_gaps_toggled());
        }
        if !self.layouts.contains_key(layout) {
            return Vec::new();
        }
        let state = self.layouts.get_mut(layout);
        state.toggle_fullscreen_within_gaps()
    }

    /// Whether some window of the layout is fullscreen, either way.
    pub fn has_any_fullscreen_node(&self, layout: LayoutId) -> (b: bool)
        ensures
            b == (self@.dom().contains(layout) && self@[layout].has_any_fullscreen()),
    {
        match self.layout_state(layout) {
            Some(state) => state.has_any_fullscreen(),
            None => false,
        }
    }

    /// A monocle layout has no containers to join.
    pub fn join_selection_with_direction(&mut self, layout: LayoutId, direction: Direction)
        ensures
            final(self)@ == old(self)@,
    {
    }

    /// A monocle layout has no containers to split, whatever their kind.
    pub fn split_selection<K>(&mut self, layout: LayoutId, kind: K)
        ensures
            final(self)@ == old(self)@,
    {
    }

    /// A monocle layout has no containers to stack: nothing changes and no
    /// window is answered.
    pub fn apply_stacking_to_parent_of_selection<O>(
        &mut self,
        layout: LayoutId,
        default_orientation: O,
    ) -> (r: Vec<WindowId>)
        ensures
            r@.len() == 0,
            final(self)@ == old(self)@,
    {
        Vec::new()
    }

    /// A monocle layout has no stacked containers to unstack: nothing
    /// changes and no window is answered.
    pub fn unstack_parent_of_selection<O>(&mut self, layout: LayoutId, default_orientation: O) -> (r: Vec<
        WindowId,
    >)
        ensures
            r@.len() == 0,
            final(self)@ == old(self)@,
    {
        Vec::new()
    }

    /// A monocle layout has no stacked containers.
    pub fn parent_of_selection_is_stacked(&self, layout: LayoutId) -> (b: bool)
        ensures
            !b,
    {
        false
    }

    /// A monocle layout has no containers to unjoin.
    pub fn unjoin_selection(&mut self, layout: LayoutId)
        ensures
            final(self)@ == old(self)@,
    {
    }

    /// A monocle layout has no sizes to rebalance.
    pub fn rebalance(&mut self, layout: LayoutId)
        ensures
            final(self)@ == old(self)@,
    {
    }

    /// A monocle layout has no tiling orientation.
    pub fn toggle_tile_orientation(&mut self, layout: LayoutId)
        ensures
            final(self)@ == old(self)@,
    {
    }
}

} // verus!
