//! Dispatch of X11 key presses to the callbacks of registered hotkeys.
//!
//! A hotkey is grabbed under its modifiers combined with every lock mask;
//! an incoming key press has its lock bits stripped and is then looked up by
//! keycode and modifiers.
use crate::hotkey::linux::{
    grab_list, lemma_lock_masks_cover_all_lock_states, lock_bits, lock_masks, GrabPlan, LockModifiers,
};
use std::collections::HashMap;
use vstd::prelude::*;

verus! {

broadcast use vstd::std_specs::hash::group_hash_axioms;

/// The key under which a `(keycode, modifiers)` pair is looked up.
pub open spec fn dispatch_key(keycode: u8, mods: u16) -> u32 {
    ((keycode as u32) * 0x10000 + (mods as u32)) as u32
}

fn pack(keycode: u8, mods: u16) -> (r: u32)
    ensures
        r == dispatch_key(keycode, mods),
{
    (keycode as u32) * 0x10000 + (mods as u32)
}

/// Distinct pairs have distinct keys.
pub proof fn lemma_dispatch_key_injective(k1: u8, m1: u16, k2: u8, m2: u16)
    ensures
        dispatch_key(k1, m1) == dispatch_key(k2, m2) ==> k1 == k2 && m1 == m2,
{
}

/// The lock bits of a state of Num Lock, Caps Lock and Scroll Lock.
pub open spec fn lock_state(lm: LockModifiers, num: bool, caps: bool, scroll: bool) -> u16 {
    (if num {
        lm.num_lock
    } else {
        0u16
    }) | (if caps {
        lm.caps_lock
    } else {
        0u16
    }) | (if scroll {
        lm.scroll_lock
    } else {
        0u16
    })
}

/// The callbacks of the registered hotkeys, by keycode and modifiers.
pub struct X11HotkeyTable<C> {
    lock_mods: LockModifiers,
    callbacks: Vec<C>,
    slots: HashMap<u32, usize>,
}

impl<C> X11HotkeyTable<C> {
    #[verifier::type_invariant]
    spec fn slots_in_range(&self) -> bool {
        forall|k: u32| #[trigger]
            self.slots@.contains_key(k) ==> (self.slots@[k] as int) < self.callbacks@.len()
    }

    /// The lock modifiers that key presses are stripped of.
    pub closed spec fn locks(&self) -> LockModifiers {
        self.lock_mods
    }

    /// How many registrations the table holds.
    pub closed spec fn count(&self) -> nat {
        self.callbacks@.len()
    }

    /// The callback under each lookup key.
    pub closed spec fn table(&self) -> Map<u32, C> {
        Map::new(
            |k: u32| self.slots@.contains_key(k),
            |k: u32| self.callbacks@[self.slots@[k] as int],
        )
    }

    /// An empty table for the given lock modifiers.
    pub fn new(lock_mods: LockModifiers) -> (r: Self)
        ensures
            r.locks() == lock_mods,
            r.count() == 0,
            r.table() == Map::<u32, C>::empty(),
    {
        let r = X11HotkeyTable { lock_mods, callbacks: Vec::new(), slots: HashMap::new() };
        assert(r.table() =~= Map::<u32, C>::empty());
        r
    }

    /// How many registrations the table holds.
    pub fn registered(&self) -> (r: usize)
        ensures
            r == self.count(),
    {
        self.callbacks.len()
    }

    /// Register the callback of a hotkey whose keys were grabbed: every
    /// keycode of the plan, under the plan's modifiers, now leads to it.
    pub fn bind(&mut self, plan: &GrabPlan, callback: C)
        requires
            old(self).count() < usize::MAX,
        ensures
            final(self).locks() == old(self).locks(),
            final(self).count() == old(self).count() + 1,
            forall|k: u32|
                #[trigger] final(self).table().contains_key(k) == (old(self).table().contains_key(k)
                    || exists|i: int|
                    0 <= i < plan.keycodes@.len() && k == dispatch_key(
                        plan.keycodes@[i],
                        plan.modifiers,
                    )),
            forall|i: int|
                0 <= i < plan.keycodes@.len() ==> #[trigger] final(self).table()[dispatch_key(
                    plan.keycodes@[i],
                    plan.modifiers,
                )] == callback,
            forall|k: u32|
                old(self).table().contains_key(k) && !(exists|i: int|
                    0 <= i < plan.keycodes@.len() && k == dispatch_key(
                        plan.keycodes@[i],
                        plan.modifiers,
                    )) ==> #[trigger] final(self).table()[k] == old(self).table()[k],
    {
        proof {
            use_type_invariant(&*self);
        }
        assert(forall|k: u32| #[trigger]
            old(self).slots@.contains_key(k) ==> (old(self).slots@[k] as int) < old(
            self,
        ).callbacks@.len());
        let ghost old_table = self.table();
        let mut slots: HashMap<u32, usize> = HashMap::new();
        std::mem::swap(&mut slots, &mut self.slots);
        let mut callbacks: Vec<C> = Vec::new();
        std::mem::swap(&mut callbacks, &mut self.callbacks);
        let idx = callbacks.len();
        callbacks.push(callback);
        let mut j: usize = 0;
        while j < plan.keycodes.len()
            invariant
                0 <= j <= plan.keycodes@.len(),
                idx == old(self).callbacks@.len(),
                forall|k: u32| #[trigger]
                    old(self).slots@.contains_key(k) ==> (old(self).slots@[k] as int) < old(
                    self,
                ).callbacks@.len(),
                callbacks@ == old(self).callbacks@.push(callback),
                self.lock_mods == old(self).lock_mods,
                self.callbacks@.len() == 0,
                self.slots@ == Map::<u32, usize>::empty(),
                old_table == old(self).table(),
                forall|k: u32| #[trigger]
                    slots@.contains_key(k) ==> (slots@[k] as int) < callbacks@.len(),
                forall|k: u32|
                    #[trigger] slots@.contains_key(k) == (old(self).slots@.contains_key(k)
                        || exists|i: int|
                        0 <= i < j && k == dispatch_key(plan.keycodes@[i], plan.modifiers)),
                forall|i: int|
                    0 <= i < j ==> #[trigger] slots@[dispatch_key(
                        plan.keycodes@[i],
                        plan.modifiers,
                    )] == idx,
                forall|k: u32|
                    old(self).slots@.contains_key(k) && !(exists|i: int|
                        0 <= i < j && k == dispatch_key(plan.keycodes@[i], plan.modifiers))
                        ==> #[trigger] slots@[k] == old(self).slots@[k],
            decreases plan.keycodes.len() - j,
        {
            let key = pack(plan.keycodes[j], plan.modifiers);
            slots.insert(key, idx);
            proof {
                assert forall|k: u32|
                    #[trigger] slots@.contains_key(k) == (old(self).slots@.contains_key(k)
                        || exists|i: int|
                        0 <= i < j + 1 && k == dispatch_key(
                            plan.keycodes@[i],
                            plan.modifiers,
                        )) by {
                    if k == key {
                        assert(k == dispatch_key(plan.keycodes@[j as int], plan.modifiers));
                    }
                }
                assert forall|i: int|
                    0 <= i < j + 1 implies #[trigger] slots@[dispatch_key(
                    plan.keycodes@[i],
                    plan.modifiers,
                )] == idx by {
                    if dispatch_key(plan.keycodes@[i], plan.modifiers) != key {
                    }
                }
                assert forall|k: u32|
                    old(self).slots@.contains_key(k) && !(exists|i: int|
                        0 <= i < j + 1 && k == dispatch_key(plan.keycodes@[i], plan.modifiers))
                        implies #[trigger] slots@[k] == old(self).slots@[k] by {
                    assert(k != dispatch_key(plan.keycodes@[j as int], plan.modifiers));
                    assert(!(exists|i: int|
                        0 <= i < j && k == dispatch_key(plan.keycodes@[i], plan.modifiers))) by {
                        if exists|i: int|
                            0 <= i < j && k == dispatch_key(plan.keycodes@[i], plan.modifiers) {
                            let i = choose|i: int|
                                0 <= i < j && k == dispatch_key(plan.keycodes@[i], plan.modifiers);
                            assert(0 <= i < j + 1 && k == dispatch_key(
                                plan.keycodes@[i],
                                plan.modifiers,
                            ));
                        }
                    }
                }
            }
            j = j + 1;
        }
        self.callbacks = callbacks;
        self.slots = slots;
        proof {
            let t = self.table();
            assert forall|k: u32|
                old_table.contains_key(k) && !(exists|i: int|
                    0 <= i < plan.keycodes@.len() && k == dispatch_key(
                        plan.keycodes@[i],
                        plan.modifiers,
                    )) implies #[trigger] t[k] == old_table[k] by {
                assert(self.slots@[k] == old(self).slots@[k]);
                assert(self.callbacks@[self.slots@[k] as int] == old(self).callbacks@[old(
                    self,
                ).slots@[k] as int]);
            }
        }
    }

    /// The callback of the hotkey a key press triggers: its state is
    /// stripped of the lock bits, then looked up with its keycode.
    pub fn callback_for(&self, keycode: u8, state: u16) -> (r: Option<&C>)
        ensures
            match r {
                Some(c) => self.table().contains_key(
                    dispatch_key(keycode, state & !lock_bits(self.locks())),
                ) && *c == self.table()[dispatch_key(keycode, state & !lock_bits(self.locks()))],
                None => !self.table().contains_key(
                    dispatch_key(keycode, state & !lock_bits(self.locks())),
                ),
            },
    {
        proof {
            use_type_invariant(self);
        }
        let mods = self.lock_mods.event_modifiers(state);
        let key = pack(keycode, mods);
        match self.slots.get(&key) {
            Some(i) => Some(&self.callbacks[*i]),
            None => None,
        }
    }
}

/// A hotkey fires whatever the state of the lock keys: a key press of a
/// registered keycode, under the hotkey's modifiers plus any combination of
/// Num Lock, Caps Lock and Scroll Lock, is looked up exactly as the hotkey
/// was registered (when its modifiers share no bit with the lock masks).
pub proof fn lemma_press_ignores_locks(
    lm: LockModifiers,
    keycode: u8,
    mods: u16,
    num: bool,
    caps: bool,
    scroll: bool,
)
    requires
        mods & lock_bits(lm) == 0,
    ensures
        dispatch_key(keycode, (mods | lock_state(lm, num, caps, scroll)) & !lock_bits(lm))
            == dispatch_key(keycode, mods),
{
    let n = lm.num_lock;
    let c = lm.caps_lock;
    let s = lm.scroll_lock;
    let l = lock_state(lm, num, caps, scroll);
    let pn = if num { n } else { 0u16 };
    let pc = if caps { c } else { 0u16 };
    let ps = if scroll { s } else { 0u16 };
    assert(l == (pn | pc) | ps);
    assert(((mods | ((pn | pc) | ps)) & !(n | c | s)) == mods) by (bit_vector)
        requires
            mods & (n | c | s) == 0,
            pn == 0 || pn == n,
            pc == 0 || pc == c,
            ps == 0 || ps == s,
    ;
}

proof fn lemma_grab_list_contains(keycodes: Seq<u8>, mods: u16, locks: Seq<u16>, i: int, l: u16)
    requires
        0 <= i < keycodes.len(),
        locks.contains(l),
    ensures
        grab_list(keycodes, mods, locks).contains((keycodes[i], mods | l)),
    decreases keycodes.len(),
{
    let head = grab_list(keycodes.drop_last(), mods, locks);
    let tail = locks.map_values(|x: u16| (keycodes.last(), mods | x));
    assert(grab_list(keycodes, mods, locks) == head + tail);
    if i == keycodes.len() - 1 {
        let j = choose|j: int| 0 <= j < locks.len() && locks[j] == l;
        assert((head + tail)[head.len() + j] == (keycodes[i], mods | l));
    } else {
        assert(keycodes.drop_last()[i] == keycodes[i]);
        lemma_grab_list_contains(keycodes.drop_last(), mods, locks, i, l);
        let k = choose|k: int| 0 <= k < head.len() && head[k] == (keycodes[i], mods | l);
        assert((head + tail)[k] == head[k]);
    }
}

/// A registered hotkey works whatever the state of the lock keys: for every
/// keycode of the hotkey and every combination of Num Lock, Caps Lock and
/// Scroll Lock, the key is grabbed under the hotkey's modifiers plus those
/// locks, and a press in that state is looked up as the hotkey was
/// registered (when its modifiers share no bit with the lock masks).
pub proof fn lemma_registered_hotkey_fires(
    keycodes: Seq<u8>,
    mods: u16,
    lm: LockModifiers,
    i: int,
    num: bool,
    caps: bool,
    scroll: bool,
)
    requires
        0 <= i < keycodes.len(),
        mods & lock_bits(lm) == 0,
    ensures
        grab_list(keycodes, mods, lock_masks(lm)).contains(
            (keycodes[i], mods | lock_state(lm, num, caps, scroll)),
        ),
        dispatch_key(keycodes[i], (mods | lock_state(lm, num, caps, scroll)) & !lock_bits(lm))
            == dispatch_key(keycodes[i], mods),
{
    lemma_lock_masks_cover_all_lock_states(lm, num, caps, scroll, mods);
    lemma_grab_list_contains(keycodes, mods, lock_masks(lm), i, lock_state(lm, num, caps, scroll));
    lemma_press_ignores_locks(lm, keycodes[i], mods, num, caps, scroll);
}

} // verus!
