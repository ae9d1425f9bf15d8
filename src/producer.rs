use vstd::prelude::*;
use crate::poh::{
    entry_hash, entry_valid, hash_n, hash_once, payload_view, Entry, EntryView,
};
use crate::slot::{chain_tip, entries_valid, link_prev, slot_valid, Slot, SlotView};

verus! {

/// What a producer means to append: a step count and an optional payload.
#[derive(Clone, Debug)]
pub struct EntrySpec {
    pub num_hashes: u64,
    pub payload: Option<Vec<u8>>,
}

/// The mathematical value of an `EntrySpec`.
pub ghost struct EntrySpecView {
    pub num_hashes: nat,
    pub payload: Option<Seq<u8>>,
}

impl View for EntrySpec {
    type V = EntrySpecView;

    open spec fn view(&self) -> EntrySpecView {
        EntrySpecView { num_hashes: self.num_hashes as nat, payload: payload_view(self.payload) }
    }
}

/// The views of a run of specs.
pub open spec fn specs_view(specs: Seq<EntrySpec>) -> Seq<EntrySpecView> {
    specs.map_values(|s: EntrySpec| s@)
}

/// The entry that `num_hashes` steps from `prev`, the last mixed with
/// `payload`, give.
pub open spec fn made_entry(prev: Seq<u8>, num_hashes: nat, payload: Option<Seq<u8>>) -> EntryView {
    EntryView { num_hashes, hash: entry_hash(prev, num_hashes, payload), payload }
}

/// The entries that `specs` give in order, each chained from the one before,
/// the first from `prev`.
pub open spec fn produced(prev: Seq<u8>, specs: Seq<EntrySpecView>) -> Seq<EntryView>
    decreases specs.len(),
{
    if specs.len() == 0 {
        Seq::empty()
    } else {
        let pre = produced(prev, specs.drop_last());
        pre.push(
            made_entry(
                chain_tip(prev, pre),
                specs.last().num_hashes,
                specs.last().payload,
            ),
        )
    }
}

/// The slot that `produce_slot(prev, slot_id, specs)` builds.
pub open spec fn produced_slot(prev: Seq<u8>, slot_id: u64, specs: Seq<EntrySpecView>) -> SlotView {
    SlotView {
        slot: slot_id,
        last_hash: chain_tip(prev, produced(prev, specs)),
        entries: produced(prev, specs),
    }
}

/// Every spec asks for at least one hash step.
pub open spec fn specs_well_formed(specs: Seq<EntrySpecView>) -> bool {
    forall|i: int| 0 <= i < specs.len() ==> #[trigger] specs[i].num_hashes >= 1
}

/// Builds the entry that follows `prev` as `spec` describes.
pub fn make_entry_from_spec(prev: &crate::poh::Hash, spec: &EntrySpec) -> (r: Entry)
    requires
        spec.num_hashes >= 1,
    ensures
        r@ == made_entry(prev@, spec.num_hashes as nat, payload_view(spec.payload)),
{
    let curr = hash_n(prev, spec.num_hashes - 1);
    let final_hash = match spec.payload.as_ref() {
        Some(p) => hash_once(&curr, Some(p.as_slice())),
        None => hash_once(&curr, None),
    };
    let payload = match spec.payload.as_ref() {
        Some(p) => Some(p.clone()),
        None => None,
    };
    assert(payload_view(payload) == payload_view(spec.payload));
    Entry { num_hashes: spec.num_hashes, hash: final_hash, payload }
}

/// Builds slot `slot_id` from `specs` in order, each entry chained from the
/// one before, the first from `prev`.
pub fn produce_slot(prev: &crate::poh::Hash, slot_id: u64, specs: &[EntrySpec]) -> (r: Slot)
    requires
        specs_well_formed(specs_view(specs@)),
    ensures
        r@ == produced_slot(prev@, slot_id, specs_view(specs@)),
{
    let ghost sv = specs_view(specs@);
    let mut curr: crate::poh::Hash = *prev;
    let mut entries: Vec<Entry> = Vec::new();
    let mut i: usize = 0;
    while i < specs.len()
        invariant
            i <= specs@.len(),
            sv == specs_view(specs@),
            specs_well_formed(sv),
            entries@.map_values(|e: Entry| e@) == produced(prev@, sv.subrange(0, i as int)),
            curr@ == chain_tip(prev@, produced(prev@, sv.subrange(0, i as int))),
        decreases specs@.len() - i,
    {
        let ghost pre = produced(prev@, sv.subrange(0, i as int));
        assert(sv.subrange(0, i + 1).drop_last() == sv.subrange(0, i as int));
        assert(sv[i as int] == specs@[i as int]@);
        assert(sv[i as int].num_hashes >= 1);
        let e = make_entry_from_spec(&curr, &specs[i]);
        curr = e.hash;
        entries.push(e);
        i += 1;
        assert(entries@.map_values(|e: Entry| e@) =~= pre.push(e@));
    }
    assert(sv.subrange(0, sv.len() as int) == sv);
    Slot { slot: slot_id, last_hash: curr, entries }
}

/// An entry built from any step count of at least one verifies against the
/// hash it was built from.
pub proof fn lemma_made_entry_verifies(prev: Seq<u8>, num_hashes: nat, payload: Option<Seq<u8>>)
    requires
        num_hashes >= 1,
    ensures
        entry_valid(prev, made_entry(prev, num_hashes, payload)),
{
}

/// An entry with no hash steps never verifies.
pub proof fn lemma_zero_steps_rejected(prev: Seq<u8>, e: EntryView)
    requires
        e.num_hashes == 0,
    ensures
        !entry_valid(prev, e),
{
}

proof fn lemma_produced_len(prev: Seq<u8>, specs: Seq<EntrySpecView>)
    ensures
        produced(prev, specs).len() == specs.len(),
    decreases specs.len(),
{
    if specs.len() > 0 {
        lemma_produced_len(prev, specs.drop_last());
    }
}

/// A slot produced from `prev` with step counts of at least one verifies
/// against `prev`.
pub proof fn lemma_produced_slot_verifies(
    prev: Seq<u8>,
    slot_id: u64,
    specs: Seq<EntrySpecView>,
)
    requires
        specs_well_formed(specs),
    ensures
        slot_valid(prev, produced_slot(prev, slot_id, specs)),
    decreases specs.len(),
{
    lemma_produced_entries_valid(prev, specs);
}

proof fn lemma_produced_entries_valid(prev: Seq<u8>, specs: Seq<EntrySpecView>)
    requires
        specs_well_formed(specs),
    ensures
        entries_valid(prev, produced(prev, specs)),
    decreases specs.len(),
{
    if specs.len() > 0 {
        let pre_specs = specs.drop_last();
        assert(specs_well_formed(pre_specs)) by {
            assert forall|i: int| 0 <= i < pre_specs.len() implies #[trigger] pre_specs[i].num_hashes
                >= 1 by {
                assert(pre_specs[i] == specs[i]);
            }
        }
        lemma_produced_entries_valid(prev, pre_specs);
        lemma_produced_len(prev, pre_specs);
        let pre = produced(prev, pre_specs);
        let es = produced(prev, specs);
        assert(specs.last() == specs[specs.len() - 1]);
        assert forall|i: int| 0 <= i < es.len() implies #[trigger] entry_valid(
            link_prev(prev, es, i),
            es[i],
        ) by {
            if i < pre.len() {
                assert(es[i] == pre[i]);
                assert(link_prev(prev, es, i) == link_prev(prev, pre, i));
            } else {
                assert(link_prev(prev, es, i) == chain_tip(prev, pre));
            }
        }
    }
}

} // verus!
