//! The slot map that holds the layouts, reached through a few trusted
//! wrappers around `slotmap::SlotMap`.

use vstd::prelude::*;

use slotmap::{DefaultKey, SlotMap};

use crate::layout_state::LayoutState;
use crate::model::LayoutStateView;

verus! {

/// `slotmap::DefaultKey`, a stable handle of one stored value. Opaque: only
/// its identity matters here, and two keys are equal when they are the same
/// key.
#[verifier::external_type_specification]
#[verifier::external_body]
pub struct ExDefaultKey(DefaultKey);

/// Identifies a layout.
pub type LayoutId = DefaultKey;

/// The layouts, each under the key that `slotmap::SlotMap` gave it. The slot
/// map sits in a private field of a struct hidden from Verus, because its key
/// bound `slotmap::Key` cannot stand in a declaration of `SlotMap` itself;
/// the methods below are the only ways to reach it.
#[verifier::external_body]
pub struct LayoutSlots {
    inner: SlotMap<DefaultKey, LayoutState>,
}

/// The layouts that the slot map holds, by key: its domain is the set of keys
/// of occupied slots.
pub uninterp spec fn slot_layouts(slots: LayoutSlots) -> Map<DefaultKey, LayoutStateView>;

impl LayoutSlots {
    /// `SlotMap::new`: claimed to hold no layout.
    #[verifier::external_body]
    pub(crate) fn new() -> (slots: LayoutSlots)
        ensures
            slot_layouts(slots).dom() == Set::<DefaultKey>::empty(),
    {
        LayoutSlots { inner: SlotMap::new() }
    }

    /// `SlotMap::len`: claimed to answer the number of keys held.
    #[verifier::external_body]
    pub(crate) fn len(&self) -> (n: usize)
        ensures
            n == slot_layouts(*self).len(),
    {
        self.inner.len()
    }

    /// `SlotMap::contains_key`: claimed to answer whether `key` is held.
    #[verifier::external_body]
    pub(crate) fn contains_key(&self, key: DefaultKey) -> (b: bool)
        ensures
            b == slot_layouts(*self).dom().contains(key),
    {
        self.inner.contains_key(key)
    }

    /// `SlotMap::get`: claimed to answer the layout held under `key`, and
    /// nothing when the key is not held.
    #[verifier::external_body]
    pub(crate) fn get(&self, key: DefaultKey) -> (r: Option<&LayoutState>)
        ensures
            match r {
                Some(s) => slot_layouts(*self).dom().contains(key) && s@ == slot_layouts(*self)[key],
                None => !slot_layouts(*self).dom().contains(key),
            },
    {
        self.inner.get(key)
    }

    /// `SlotMap::get_mut`, for a key that is held (so its `unwrap` cannot
    /// fail): claimed to lend the layout under `key`, such that what the
    /// borrower leaves there is what the slot map holds under `key` after,
    /// all other keys unchanged.
    #[verifier::external_body]
    pub(crate) fn get_mut(&mut self, key: DefaultKey) -> (r: &mut LayoutState)
        requires
            slot_layouts(*old(self)).dom().contains(key),
        ensures
            r@ == slot_layouts(*old(self))[key],
            slot_layouts(*final(self)) == slot_layouts(*old(self)).insert(key, final(r)@),
    {
        self.inner.get_mut(key).unwrap()
    }

    /// `SlotMap::insert`: claimed to store `value` under a key not held
    /// before, answer that key and change nothing else. It panics only when
    /// no slot is free and `u32::MAX` slots exist, which the bound on the
    /// number held rules out.
    #[verifier::external_body]
    pub(crate) fn insert(&mut self, value: LayoutState) -> (key: DefaultKey)
        requires
            slot_layouts(*old(self)).len() + 1 < u32::MAX,
        ensures
            !slot_layouts(*old(self)).dom().contains(key),
            slot_layouts(*final(self)) == slot_layouts(*old(self)).insert(key, value@),
    {
        self.inner.insert(value)
    }

    /// `SlotMap::remove`: claimed to drop `key` and answer the layout that
    /// was under it, or nothing when the key was not held.
    #[verifier::external_body]
    pub(crate) fn remove(&mut self, key: DefaultKey) -> (r: Option<LayoutState>)
        ensures
            slot_layouts(*final(self)) == slot_layouts(*old(self)).remove(key),
            match r {
                Some(s) => slot_layouts(*old(self)).dom().contains(key) && s@ == slot_layouts(
                    *old(self),
                )[key],
                None => !slot_layouts(*old(self)).dom().contains(key),
            },
    {
        self.inner.remove(key)
    }

    /// `SlotMap::keys`, collected into a vector: claimed to list every key
    /// held, each once; the order (slot order) is left unsaid.
    #[verifier::external_body]
    pub(crate) fn keys(&self) -> (keys: Vec<DefaultKey>)
        ensures
            keys@.no_duplicates(),
            forall|i: int| 0 <= i < keys@.len() ==> slot_layouts(*self).dom().contains(#[trigger] keys@[i]),
            forall|k: DefaultKey| slot_layouts(*self).dom().contains(k) ==> #[trigger] keys@.contains(k),
    {
        self.inner.keys().collect()
    }
}

} // verus!
