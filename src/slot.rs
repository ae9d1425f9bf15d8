use vstd::prelude::*;
use crate::poh::{entry_hash, entry_valid, hash_eq, verify_entry, Entry, EntryView};

verus! {

/// A numbered run of entries, one leader's turn.
#[derive(Clone, Debug)]
pub struct Slot {
    pub slot: u64,
    pub last_hash: crate::poh::Hash,
    pub entries: Vec<Entry>,
}

/// The mathematical value of a `Slot`.
pub ghost struct SlotView {
    pub slot: u64,
    pub last_hash: Seq<u8>,
    pub entries: Seq<EntryView>,
}

impl View for Slot {
    type V = SlotView;

    open spec fn view(&self) -> SlotView {
        SlotView {
            slot: self.slot,
            last_hash: self.last_hash@,
            entries: self.entries@.map_values(|e: Entry| e@),
        }
    }
}

/// The hash that entry `i` of `es` follows when the run starts at `prev`.
pub open spec fn link_prev(prev: Seq<u8>, es: Seq<EntryView>, i: int) -> Seq<u8> {
    if i == 0 {
        prev
    } else {
        es[i - 1].hash
    }
}

/// The hash a run of entries ends on: its last entry's, or `prev` when empty.
pub open spec fn chain_tip(prev: Seq<u8>, es: Seq<EntryView>) -> Seq<u8> {
    link_prev(prev, es, es.len() as int)
}

/// Every entry of `es` is a correct link from the one before it, the first
/// from `prev`.
pub open spec fn entries_valid(prev: Seq<u8>, es: Seq<EntryView>) -> bool {
    forall|i: int| 0 <= i < es.len() ==> #[trigger] entry_valid(link_prev(prev, es, i), es[i])
}

/// `s` replays correctly from `prev` and ends on its `last_hash`.
pub open spec fn slot_valid(prev: Seq<u8>, s: SlotView) -> bool {
    &&& entries_valid(prev, s.entries)
    &&& s.last_hash == chain_tip(prev, s.entries)
}

/// Whether `slot` replays correctly from `prev`: each entry verifies against
/// the hash before it and the last one (or `prev`, with no entries) is
/// `slot.last_hash`.
pub fn verify_slot(prev: &crate::poh::Hash, slot: &Slot) -> (r: bool)
    ensures
        r == slot_valid(prev@, slot@),
{
    let ghost es = slot@.entries;
    let mut curr: crate::poh::Hash = *prev;
    let mut i: usize = 0;
    while i < slot.entries.len()
        invariant
            i <= slot.entries@.len(),
            es == slot@.entries,
            es.len() == slot.entries@.len(),
            curr@ == link_prev(prev@, es, i as int),
            forall|j: int| 0 <= j < i ==> #[trigger] entry_valid(link_prev(prev@, es, j), es[j]),
        decreases slot.entries@.len() - i,
    {
        let e = &slot.entries[i];
        assert(es[i as int] == e@);
        if !verify_entry(&curr, e) {
            return false;
        }
        curr = e.hash;
        i += 1;
    }
    hash_eq(&curr, &slot.last_hash)
}

/// The hash that slot `k` of a run of slots follows: `prev` for the first,
/// the `last_hash` of the one before otherwise.
pub open spec fn slot_prev(prev: Seq<u8>, slots: Seq<SlotView>, k: int) -> Seq<u8> {
    if k == 0 {
        prev
    } else {
        slots[k - 1].last_hash
    }
}

/// Each slot of `slots` verifies against the one before it, the first
/// against `prev`.
pub open spec fn slots_valid(prev: Seq<u8>, slots: Seq<SlotView>) -> bool {
    forall|k: int| 0 <= k < slots.len() ==> #[trigger] slot_valid(slot_prev(prev, slots, k), slots[k])
}

/// Changing a verified slot's `last_hash` makes it fail verification.
pub proof fn lemma_changed_last_hash_rejected(prev: Seq<u8>, s: SlotView, h: Seq<u8>)
    requires
        slot_valid(prev, s),
        h != s.last_hash,
    ensures
        !slot_valid(prev, SlotView { last_hash: h, ..s }),
{
}

/// Changing only the hash of one entry of a verified slot makes it fail
/// verification.
pub proof fn lemma_changed_entry_hash_rejected(prev: Seq<u8>, s: SlotView, i: int, h: Seq<u8>)
    requires
        slot_valid(prev, s),
        0 <= i < s.entries.len(),
        h != s.entries[i].hash,
    ensures
        !slot_valid(
            prev,
            SlotView { entries: s.entries.update(i, EntryView { hash: h, ..s.entries[i] }), ..s },
        ),
{
    let es2 = s.entries.update(i, EntryView { hash: h, ..s.entries[i] });
    assert(link_prev(prev, es2, i) == link_prev(prev, s.entries, i));
    assert(entry_valid(link_prev(prev, s.entries, i), s.entries[i]));
    assert(!entry_valid(link_prev(prev, es2, i), es2[i]));
}

/// Changing the step count or the payload of one entry of a verified slot
/// makes it fail verification, unless the changed entry still hashes to the
/// same value (a digest collision, or no change at all).
pub proof fn lemma_changed_entry_content_rejected(
    prev: Seq<u8>,
    s: SlotView,
    i: int,
    num_hashes: nat,
    payload: Option<Seq<u8>>,
)
    requires
        slot_valid(prev, s),
        0 <= i < s.entries.len(),
        num_hashes == 0 || entry_hash(link_prev(prev, s.entries, i), num_hashes, payload)
            != s.entries[i].hash,
    ensures
        !slot_valid(
            prev,
            SlotView {
                entries: s.entries.update(
                    i,
                    EntryView { num_hashes: num_hashes, payload: payload, ..s.entries[i] },
                ),
                ..s
            },
        ),
{
    let es2 = s.entries.update(
        i,
        EntryView { num_hashes: num_hashes, payload: payload, ..s.entries[i] },
    );
    assert(link_prev(prev, es2, i) == link_prev(prev, s.entries, i));
    assert(!entry_valid(link_prev(prev, es2, i), es2[i]));
}

} // verus!
