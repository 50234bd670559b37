use vstd::prelude::*;

use crate::window::WindowId;

verus! {

/// A set of windows, kept as a list. Its meaning is the set of windows
/// listed; adding never lists a window twice, removing drops every listing.
#[derive(Debug)]
pub struct WindowSet {
    items: Vec<WindowId>,
}

impl View for WindowSet {
    type V = Set<WindowId>;

    closed spec fn view(&self) -> Set<WindowId> {
        self.items@.to_set()
    }
}

impl WindowSet {
    /// The empty set.
    pub fn new() -> (s: WindowSet)
        ensures
            s@ == Set::<WindowId>::empty(),
    {
        let s = WindowSet { items: Vec::new() };
        assert(s@ =~= Set::<WindowId>::empty());
        s
    }

    /// Every window set is finite.
    pub proof fn lemma_finite(&self)
        ensures
            self@.finite(),
    {
        vstd::seq_lib::seq_to_set_is_finite(self.items@);
    }

    /// The set of the windows listed in `items`.
    pub fn from_vec(items: Vec<WindowId>) -> (s: WindowSet)
        ensures
            s@ == items@.to_set(),
    {
        WindowSet { items }
    }

    /// The windows of the set, as listed.
    pub fn to_vec(&self) -> (v: Vec<WindowId>)
        ensures
            v@.to_set() == self@,
    {
        copy_windows(&self.items)
    }

    /// Whether `w` is in the set.
    pub fn contains(&self, w: WindowId) -> (b: bool)
        ensures
            b == self@.contains(w),
    {
        let mut i: usize = 0;
        while i < self.items.len()
            invariant
                0 <= i <= self.items@.len(),
                forall|j: int| 0 <= j < i ==> self.items@[j] != w,
            decreases self.items@.len() - i,
        {
            if self.items[i] == w {
                assert(self.items@.contains(w));
                return true;
            }
            i = i + 1;
        }
        false
    }

    /// Whether the set holds no window.
    pub fn is_empty(&self) -> (b: bool)
        ensures
            b == (self@ == Set::<WindowId>::empty()),
    {
        if self.items.len() == 0 {
            assert(self@ =~= Set::<WindowId>::empty());
            true
        } else {
            assert(self@.contains(self.items@[0]));
            false
        }
    }

    /// Adds `w` to the set.
    pub fn insert(&mut self, w: WindowId)
        ensures
            final(self)@ == old(self)@.insert(w),
    {
        broadcast use vstd::seq_lib::group_seq_properties;
        if !self.contains(w) {
            self.items.push(w);
            assert(self@ =~= old(self)@.insert(w));
        } else {
            assert(self@ =~= old(self)@.insert(w));
        }
    }

    /// Removes `w` from the set; says whether it was there.
    pub fn remove(&mut self, w: WindowId) -> (was_present: bool)
        ensures
            was_present == old(self)@.contains(w),
            final(self)@ == old(self)@.remove(w),
    {
        let was_present = self.contains(w);
        if was_present {
            let mut kept: Vec<WindowId> = Vec::new();
            let mut i: usize = 0;
            while i < self.items.len()
                invariant
                    0 <= i <= self.items@.len(),
                    forall|x: WindowId|
                        kept@.contains(x) <==> (self.items@.subrange(0, i as int).contains(x)
                            && x != w),
                decreases self.items@.len() - i,
            {
                let x = self.items[i];
                if x != w {
                    kept.push(x);
                }
                proof {
                    broadcast use vstd::seq_lib::group_seq_properties;
                    let pre = self.items@.subrange(0, i as int);
                    assert(self.items@.subrange(0, i + 1) =~= pre.push(x));
                }
                i = i + 1;
            }
            assert(self.items@.subrange(0, self.items@.len() as int) =~= self.items@);
            self.items = kept;
            assert(self@ =~= old(self)@.remove(w));
        } else {
            assert(self@ =~= old(self)@.remove(w));
        }
        was_present
    }

    /// A second set with the same windows.
    pub fn duplicate(&self) -> (s: WindowSet)
        ensures
            s@ == self@,
    {
        WindowSet { items: copy_windows(&self.items) }
    }
}

/// Whether `w` is listed in `v`.
pub fn vec_contains(v: &Vec<WindowId>, w: WindowId) -> (b: bool)
    ensures
        b == v@.contains(w),
{
    let mut i: usize = 0;
    while i < v.len()
        invariant
            0 <= i <= v@.len(),
            forall|j: int| 0 <= j < i ==> v@[j] != w,
        decreases v@.len() - i,
    {
        if v[i] == w {
            assert(v@.contains(w));
            return true;
        }
        i = i + 1;
    }
    false
}

/// A copy of a list of windows.
pub fn copy_windows(v: &Vec<WindowId>) -> (out: Vec<WindowId>)
    ensures
        out@ == v@,
{
    let mut out: Vec<WindowId> = Vec::new();
    let mut i: usize = 0;
    while i < v.len()
        invariant
            0 <= i <= v@.len(),
            out@ == v@.subrange(0, i as int),
        decreases v@.len() - i,
    {
        out.push(v[i]);
        assert(out@ =~= v@.subrange(0, i + 1));
        i = i + 1;
    }
    assert(out@ =~= v@);
    out
}

} // verus!
