use vstd::prelude::*;

use crate::items::ItemType;

verus! {

/// Number of slots in every inventory.
pub const INVENTORY_SIZE: usize = 10;

/// One inventory slot: an item kind and how many of it the slot holds.
/// A well-formed slot is empty (count zero) exactly when its kind is the
/// reserved `ItemType::Empty` marker.
#[derive(Clone, Copy, PartialEq, Eq, Structural, Debug)]
pub struct InventoryEntry {
    pub item: ItemType,
    pub count: usize,
}

/// A fixed-capacity, ordered inventory of `INVENTORY_SIZE` slots, plus the
/// index of the currently selected slot (the target of the drop action).
pub struct Inventory {
    pub items: Vec<InventoryEntry>,
    pub selected: usize,
}

/// The slot that stands for "nothing here".
pub open spec fn empty_entry() -> InventoryEntry {
    InventoryEntry { item: ItemType::Empty, count: 0 }
}

/// A slot is well formed when it is counted empty exactly if it holds the
/// empty marker.
pub open spec fn entry_wf(e: InventoryEntry) -> bool {
    (e.count == 0) <==> (e.item == ItemType::Empty)
}

/// Every slot of the sequence is well formed.
pub open spec fn slots_wf(s: Seq<InventoryEntry>) -> bool {
    forall|i: int| 0 <= i < s.len() ==> entry_wf(#[trigger] s[i])
}

/// Index of the first slot holding `kind`, or the sequence's length when no
/// slot does. Both operations walk the slots in declaration order and act on
/// the first match, so this is the model of their slot search.
pub open spec fn first_slot(s: Seq<InventoryEntry>, kind: ItemType) -> int
    decreases s.len(),
{
    if s.len() == 0 {
        0
    } else if s[0].item == kind {
        0
    } else {
        1 + first_slot(s.subrange(1, s.len() as int), kind)
    }
}

/// Some slot of the sequence holds `kind`.
pub open spec fn contains_kind(s: Seq<InventoryEntry>, kind: ItemType) -> bool {
    first_slot(s, kind) < s.len()
}

/// `first_slot` is a sound and minimal search: it stays within bounds, it
/// points at a slot holding `kind` whenever one exists, and no earlier slot
/// holds `kind`.
pub proof fn lemma_first_slot(s: Seq<InventoryEntry>, kind: ItemType)
    ensures
        0 <= first_slot(s, kind) <= s.len(),
        first_slot(s, kind) < s.len() ==> s[first_slot(s, kind)].item == kind,
        forall|j: int| 0 <= j < first_slot(s, kind) ==> s[j].item != kind,
    decreases s.len(),
{
    if s.len() == 0 {
    } else if s[0].item == kind {
    } else {
        let tail = s.subrange(1, s.len() as int);
        lemma_first_slot(tail, kind);
        assert forall|j: int| 0 <= j < first_slot(s, kind) implies s[j].item != kind by {
            if j > 0 {
                assert(s[j] == tail[j - 1]);
            }
        }
    }
}

/// A slot that holds `kind` bounds the search: `first_slot` finds `kind` at
/// `i` or earlier.
pub proof fn lemma_first_slot_le(s: Seq<InventoryEntry>, kind: ItemType, i: int)
    requires
        0 <= i < s.len(),
        s[i].item == kind,
    ensures
        first_slot(s, kind) <= i,
{
    lemma_first_slot(s, kind);
    if first_slot(s, kind) > i {
        assert(s[i].item != kind);
    }
}

/// Whether `give_item` can place one `kind`: some slot already holds it
/// (stacking) or some slot is free.
pub open spec fn can_give(s: Seq<InventoryEntry>, kind: ItemType) -> bool {
    contains_kind(s, kind) || contains_kind(s, ItemType::Empty)
}

/// The slots after giving one `kind`: the first slot already holding `kind`
/// gains one, else the first free slot starts holding one `kind`, else the
/// slots are unchanged.
pub open spec fn give_spec(s: Seq<InventoryEntry>, kind: ItemType) -> Seq<InventoryEntry> {
    let i = first_slot(s, kind);
    let e = first_slot(s, ItemType::Empty);
    if i < s.len() {
        s.update(i, InventoryEntry { item: kind, count: (s[i].count + 1) as usize })
    } else if e < s.len() {
        s.update(e, InventoryEntry { item: kind, count: 1 })
    } else {
        s
    }
}

/// Whether `remove_item` succeeds: some slot holds `kind`, and the first
/// such slot holds at least `amount`.
pub open spec fn remove_ok(s: Seq<InventoryEntry>, kind: ItemType, amount: usize) -> bool {
    let i = first_slot(s, kind);
    i < s.len() && amount <= s[i].count
}

/// The slots after removing `amount` of `kind`: the first slot holding
/// `kind` loses `amount`, reverting to the empty marker when its count hits
/// zero; on failure the slots are unchanged.
pub open spec fn remove_spec(s: Seq<InventoryEntry>, kind: ItemType, amount: usize) -> Seq<
    InventoryEntry,
> {
    let i = first_slot(s, kind);
    if remove_ok(s, kind, amount) {
        if s[i].count == amount {
            s.update(i, empty_entry())
        } else {
            s.update(i, InventoryEntry { item: kind, count: (s[i].count - amount) as usize })
        }
    } else {
        s
    }
}

/// The slots after dropping one item from slot `idx`: that slot loses one,
/// reverting to the empty marker when its count hits zero; an empty slot
/// drops nothing.
pub open spec fn drop_spec(s: Seq<InventoryEntry>, idx: int) -> Seq<InventoryEntry> {
    if 0 <= idx < s.len() && s[idx].count > 0 {
        if s[idx].count == 1 {
            s.update(idx, empty_entry())
        } else {
            s.update(idx, InventoryEntry { item: s[idx].item, count: (s[idx].count - 1) as usize })
        }
    } else {
        s
    }
}

/// Gives one item of `kind` to the inventory. If a slot already holds
/// `kind`, that (first such) slot's count grows by one — the same kind is
/// never split across slots. Otherwise the first free slot starts holding
/// one `kind`. With no matching and no free slot, nothing changes and the
/// call reports failure.
#[verifier::loop_isolation(false)]
pub fn give_item(inventory: &mut Inventory, to_give: ItemType) -> (ok: bool)
    requires
        old(inventory).wf(),
        to_give != ItemType::Empty,
        contains_kind(old(inventory).items@, to_give) ==> old(inventory).items@[first_slot(
            old(inventory).items@,
            to_give,
        )].count < usize::MAX,
    ensures
        final(inventory).wf(),
        ok == can_give(old(inventory).items@, to_give),
        final(inventory).items@ == give_spec(old(inventory).items@, to_give),
        final(inventory).selected == old(inventory).selected,
{
    let ghost s = old(inventory).items@;
    proof {
        lemma_first_slot(s, to_give);
        lemma_first_slot(s, ItemType::Empty);
    }
    let n = inventory.items.len();
    let mut i: usize = 0;
    while i < n
        invariant
            *inventory == *old(inventory),
            i <= n,
            forall|j: int| 0 <= j < i ==> s[j].item != to_give,
        decreases n - i,
    {
        if inventory.items[i].item == to_give {
            proof {
                lemma_first_slot_le(s, to_give, i as int);
            }
            let c = inventory.items[i].count;
            inventory.items.set(i, InventoryEntry { item: to_give, count: c + 1 });
            return true;
        }
        i += 1;
    }
    let mut i: usize = 0;
    while i < n
        invariant
            *inventory == *old(inventory),
            i <= n,
            forall|j: int| 0 <= j < i ==> s[j].item != ItemType::Empty,
        decreases n - i,
    {
        if inventory.items[i].item == ItemType::Empty {
            proof {
                lemma_first_slot_le(s, ItemType::Empty, i as int);
            }
            inventory.items.set(i, InventoryEntry { item: to_give, count: 1 });
            return true;
        }
        i += 1;
    }
    false
}

/// Removes `amount` of `kind` from the first slot holding `kind`. When that
/// slot holds fewer than `amount` — or no slot holds `kind` — nothing
/// changes and the call reports failure; later slots of the same kind are
/// never consulted. A slot emptied by the removal reverts to the empty
/// marker.
#[verifier::loop_isolation(false)]
pub fn remove_item(inventory: &mut Inventory, to_remove: ItemType, amount: usize) -> (ok: bool)
    requires
        old(inventory).wf(),
        to_remove != ItemType::Empty,
    ensures
        final(inventory).wf(),
        ok == remove_ok(old(inventory).items@, to_remove, amount),
        final(inventory).items@ == remove_spec(old(inventory).items@, to_remove, amount),
        final(inventory).selected == old(inventory).selected,
{
    let ghost s = old(inventory).items@;
    proof {
        lemma_first_slot(s, to_remove);
    }
    let n = inventory.items.len();
    let mut i: usize = 0;
    while i < n
        invariant
            *inventory == *old(inventory),
            i <= n,
            forall|j: int| 0 <= j < i ==> s[j].item != to_remove,
        decreases n - i,
    {
        if inventory.items[i].item == to_remove {
            proof {
                lemma_first_slot_le(s, to_remove, i as int);
            }
            let c = inventory.items[i].count;
            if c < amount {
                return false;
            }
            let newc = c - amount;
            if newc == 0 {
                inventory.items.set(i, InventoryEntry { item: ItemType::Empty, count: 0 });
            } else {
                inventory.items.set(i, InventoryEntry { item: to_remove, count: newc });
            }
            return true;
        }
        i += 1;
    }
    false
}

impl Inventory {
    /// The mathematical contents of the inventory: its slots in order.
    pub open spec fn slots(self) -> Seq<InventoryEntry> {
        self.items@
    }

    /// The selected slot index, as a mathematical integer.
    pub open spec fn sel(self) -> int {
        self.selected as int
    }

    /// Well-formedness: exactly `INVENTORY_SIZE` slots, a selected index in
    /// bounds, and every slot empty exactly when it holds the empty marker.
    pub open spec fn wf(self) -> bool {
        &&& self.items@.len() == INVENTORY_SIZE
        &&& self.selected < INVENTORY_SIZE
        &&& slots_wf(self.items@)
    }

    /// A fresh inventory: every slot empty, the first slot selected.
    pub fn new() -> (inv: Inventory)
        ensures
            inv.wf(),
            inv.slots().len() == INVENTORY_SIZE,
            forall|i: int| 0 <= i < INVENTORY_SIZE ==> inv.slots()[i] == empty_entry(),
            inv.sel() == 0,
    {
        let mut items: Vec<InventoryEntry> = Vec::new();
        let mut i: usize = 0;
        while i < INVENTORY_SIZE
            invariant
                i <= INVENTORY_SIZE,
                items@.len() == i,
                forall|j: int| 0 <= j < i ==> items@[j] == empty_entry(),
            decreases INVENTORY_SIZE - i,
        {
            items.push(InventoryEntry { item: ItemType::Empty, count: 0 });
            i += 1;
        }
        Inventory { items, selected: 0 }
    }

    /// The selected slot index.
    pub fn selected_index(&self) -> (i: usize)
        ensures
            i == self.sel(),
    {
        self.selected
    }

    /// Selects the slot the drop action will target.
    pub fn select_slot(&mut self, index: usize)
        requires
            old(self).wf(),
            index < INVENTORY_SIZE,
        ensures
            final(self).wf(),
            final(self).items@ == old(self).items@,
            final(self).sel() == index,
    {
        self.selected = index;
    }

    /// Drops one item from the selected slot, returning its kind so the
    /// caller can place it back into the world. An empty selected slot
    /// drops nothing; a slot emptied by the drop reverts to the empty
    /// marker.
    pub fn drop_selected_item(&mut self) -> (dropped: Option<ItemType>)
        requires
            old(self).wf(),
        ensures
            final(self).wf(),
            final(self).items@ == drop_spec(old(self).items@, old(self).sel()),
            final(self).selected == old(self).selected,
            dropped == if old(self).items@[old(self).sel()].count > 0 {
                Some(old(self).items@[old(self).sel()].item)
            } else {
                None::<ItemType>
            },
    {
        let i = self.selected;
        let e = self.items[i];
        if e.count == 0 {
            None
        } else {
            if e.count == 1 {
                self.items.set(i, InventoryEntry { item: ItemType::Empty, count: 0 });
            } else {
                self.items.set(i, InventoryEntry { item: e.item, count: e.count - 1 });
            }
            Some(e.item)
        }
    }
}

/// How many slots hold an item (their kind is not the empty marker).
pub open spec fn occupied_slots(s: Seq<InventoryEntry>) -> nat
    decreases s.len(),
{
    if s.len() == 0 {
        0
    } else {
        occupied_slots(s.drop_last()) + (if s.last().item == ItemType::Empty {
            0nat
        } else {
            1nat
        })
    }
}

/// Replacing a slot with one of the same occupancy (both hold an item, or
/// both are empty) keeps the number of occupied slots.
pub proof fn lemma_occupied_update(s: Seq<InventoryEntry>, i: int, e: InventoryEntry)
    requires
        0 <= i < s.len(),
        (e.item == ItemType::Empty) == (s[i].item == ItemType::Empty),
    ensures
        occupied_slots(s.update(i, e)) == occupied_slots(s),
    decreases s.len(),
{
    let t = s.update(i, e);
    if i == s.len() - 1 {
        assert(t.drop_last() =~= s.drop_last());
    } else {
        assert(t.drop_last() =~= s.drop_last().update(i, e));
        lemma_occupied_update(s.drop_last(), i, e);
        assert(t.last() == s.last());
    }
}

/// Round trip: giving one item of a kind and then removing one of that
/// kind restores the inventory exactly, provided the give could land (a
/// matching or free slot existed).
pub proof fn lemma_give_then_remove_roundtrip(s: Seq<InventoryEntry>, kind: ItemType)
    requires
        slots_wf(s),
        kind != ItemType::Empty,
        can_give(s, kind),
        contains_kind(s, kind) ==> s[first_slot(s, kind)].count < usize::MAX,
    ensures
        remove_spec(give_spec(s, kind), kind, 1) == s,
{
    lemma_first_slot(s, kind);
    lemma_first_slot(s, ItemType::Empty);
    if contains_kind(s, kind) {
        let i = first_slot(s, kind);
        let t = s.update(i, InventoryEntry { item: kind, count: (s[i].count + 1) as usize });
        lemma_first_slot(t, kind);
        lemma_first_slot_le(t, kind, i);
        let f = first_slot(t, kind);
        if f < i {
            assert(t[f] == s[f]);
        }
        assert(f == i);
        assert(entry_wf(s[i]));
        assert(remove_spec(t, kind, 1) =~= s);
    } else {
        let e = first_slot(s, ItemType::Empty);
        let t = s.update(e, InventoryEntry { item: kind, count: 1 });
        lemma_first_slot(t, kind);
        lemma_first_slot_le(t, kind, e);
        let f = first_slot(t, kind);
        if f < e {
            assert(t[f] == s[f]);
            assert(s[f].item != kind);
        }
        assert(f == e);
        assert(entry_wf(s[e]));
        assert(remove_spec(t, kind, 1) =~= s);
    }
}

/// Giving a kind that is already present stacks: the number of occupied
/// slots stays the same, the first slot holding the kind gains exactly one,
/// and every other slot is untouched.
pub proof fn lemma_give_stacks_when_present(s: Seq<InventoryEntry>, kind: ItemType)
    requires
        kind != ItemType::Empty,
        contains_kind(s, kind),
        s[first_slot(s, kind)].count < usize::MAX,
    ensures
        occupied_slots(give_spec(s, kind)) == occupied_slots(s),
        give_spec(s, kind)[first_slot(s, kind)].count == s[first_slot(s, kind)].count + 1,
        give_spec(s, kind)[first_slot(s, kind)].item == kind,
        forall|j: int|
            0 <= j < s.len() && j != first_slot(s, kind) ==> give_spec(s, kind)[j] == s[j],
{
    lemma_first_slot(s, kind);
    let i = first_slot(s, kind);
    lemma_occupied_update(s, i, InventoryEntry { item: kind, count: (s[i].count + 1) as usize });
}

/// Removing fails without a trace when the first slot holding the kind has
/// too few items: the inventory is left exactly as it was.
pub proof fn lemma_remove_insufficient(s: Seq<InventoryEntry>, kind: ItemType, amount: usize)
    requires
        contains_kind(s, kind),
        s[first_slot(s, kind)].count < amount,
    ensures
        !remove_ok(s, kind, amount),
        remove_spec(s, kind, amount) == s,
{
}

/// Giving fails without a trace on a full inventory: when every slot holds
/// some other kind, nothing can land and nothing changes.
pub proof fn lemma_give_fails_when_full(s: Seq<InventoryEntry>, kind: ItemType)
    requires
        forall|i: int|
            0 <= i < s.len() ==> (#[trigger] s[i]).item != kind && s[i].item != ItemType::Empty,
    ensures
        !can_give(s, kind),
        give_spec(s, kind) == s,
{
    lemma_first_slot(s, kind);
    lemma_first_slot(s, ItemType::Empty);
}

/// Dropping touches exactly the selected slot: after selecting `idx`, a
/// drop decrements that slot's count by one and leaves every other slot
/// untouched (and an empty selected slot drops nothing at all).
pub proof fn lemma_drop_touches_only_selected(s: Seq<InventoryEntry>, idx: int)
    requires
        0 <= idx < s.len(),
    ensures
        forall|j: int| 0 <= j < s.len() && j != idx ==> drop_spec(s, idx)[j] == s[j],
        s[idx].count > 0 ==> drop_spec(s, idx)[idx].count == s[idx].count - 1,
        s[idx].count == 0 ==> drop_spec(s, idx) == s,
{
}

impl core::default::Default for Inventory {
    /// The default inventory is the fresh, all-empty one.
    fn default() -> (inv: Inventory)
        ensures
            inv.wf(),
            inv.slots().len() == INVENTORY_SIZE,
            forall|i: int| 0 <= i < INVENTORY_SIZE ==> inv.slots()[i] == empty_entry(),
            inv.sel() == 0,
    {
        Inventory::new()
    }
}

} // verus!
