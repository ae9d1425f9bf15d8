use vstd::prelude::*;
use crate::producer::{lemma_produced_slot_verifies, produced_slot, specs_well_formed, EntrySpecView};
use crate::slot::{slot_prev, slot_valid, slots_valid, verify_slot, Slot, SlotView};
use crate::poh::hash_eq;

verus! {

/// A message between peers.
#[derive(Debug)]
pub enum NetMsg {
    Hello { node_id: String },
    SlotBroadcast { prev_hash: crate::poh::Hash, slot: Slot },
    Ping,
}

/// What the adoption rule did with one message.
#[derive(Clone, Copy, Debug, PartialEq, Eq, Structural)]
pub enum Adoption {
    /// The slot extended the tip and was committed.
    Committed,
    /// The slot did not extend the tip or did not verify; nothing changed.
    Rejected,
    /// The message carries no slot; nothing changed.
    Ignored,
}

/// A broadcast slot claiming to follow `prev_hash` extends a chain whose tip
/// is `tip`: it claims the tip and replays correctly from it.
pub open spec fn extends_tip(tip: Seq<u8>, prev_hash: Seq<u8>, s: SlotView) -> bool {
    prev_hash == tip && slot_valid(tip, s)
}

/// The mathematical value of an `Adopter`.
pub ghost struct AdopterView {
    pub genesis: Seq<u8>,
    pub tip: Seq<u8>,
    pub chain: Seq<SlotView>,
}

/// The adopted chain is one unbroken hash chain from genesis, and the tip is
/// where it ends.
pub open spec fn adopter_wf(v: AdopterView) -> bool {
    &&& slots_valid(v.genesis, v.chain)
    &&& v.tip == slot_prev(v.genesis, v.chain, v.chain.len() as int)
}

/// The local chain head and the slots committed so far; the single place
/// where received slots are adopted.
pub struct Adopter {
    genesis: Ghost<Seq<u8>>,
    tip: crate::poh::Hash,
    adopted: Vec<Slot>,
}

impl View for Adopter {
    type V = AdopterView;

    closed spec fn view(&self) -> AdopterView {
        AdopterView {
            genesis: self.genesis@,
            tip: self.tip@,
            chain: self.adopted@.map_values(|s: Slot| s@),
        }
    }
}

impl Adopter {
    pub open spec fn wf(&self) -> bool {
        adopter_wf(self@)
    }

    /// An empty chain whose tip is `genesis`.
    pub fn new(genesis: crate::poh::Hash) -> (r: Self)
        ensures
            r.wf(),
            r@.genesis == genesis@,
            r@.tip == genesis@,
            r@.chain.len() == 0,
    {
        let r = Adopter { genesis: Ghost(genesis@), tip: genesis, adopted: Vec::new() };
        assert(r@.chain =~= Seq::<SlotView>::empty());
        r
    }

    /// The current tip.
    pub fn tip(&self) -> (r: crate::poh::Hash)
        ensures
            r@ == self@.tip,
    {
        self.tip
    }

    /// The slots adopted so far, oldest first.
    pub fn adopted(&self) -> (r: &[Slot])
        ensures
            r@.map_values(|s: Slot| s@) == self@.chain,
    {
        self.adopted.as_slice()
    }

    /// Handles one message. A `SlotBroadcast` is committed exactly when its
    /// `prev_hash` is the tip and its slot replays from the tip: the tip then
    /// becomes the slot's `last_hash` and the slot is appended to the chain.
    /// Anything else leaves the state as it was.
    pub fn receive(&mut self, msg: NetMsg) -> (r: Adoption)
        requires
            old(self).wf(),
        ensures
            final(self).wf(),
            final(self)@.genesis == old(self)@.genesis,
            match msg {
                NetMsg::SlotBroadcast { prev_hash, slot } => if extends_tip(
                    old(self)@.tip,
                    prev_hash@,
                    slot@,
                ) {
                    &&& r == Adoption::Committed
                    &&& final(self)@.tip == slot@.last_hash
                    &&& final(self)@.chain == old(self)@.chain.push(slot@)
                } else {
                    &&& r == Adoption::Rejected
                    &&& final(self)@ == old(self)@
                },
                _ => r == Adoption::Ignored && final(self)@ == old(self)@,
            },
    {
        match msg {
            NetMsg::SlotBroadcast { prev_hash, slot } => {
                if hash_eq(&prev_hash, &self.tip) && verify_slot(&self.tip, &slot) {
                    let ghost old_chain = self@.chain;
                    let ghost g = self@.genesis;
                    self.tip = slot.last_hash;
                    self.adopted.push(slot);
                    proof {
                        let chain = self@.chain;
                        assert(chain =~= old_chain.push(slot@));
                        assert forall|k: int| 0 <= k < chain.len() implies #[trigger] slot_valid(
                            slot_prev(g, chain, k),
                            chain[k],
                        ) by {
                            if k < old_chain.len() {
                                assert(slot_prev(g, chain, k) == slot_prev(g, old_chain, k));
                            }
                        }
                    }
                    Adoption::Committed
                } else {
                    Adoption::Rejected
                }
            },
            _ => Adoption::Ignored,
        }
    }
}

/// A broadcast whose `prev_hash` is not the tip is never adopted, even when
/// its slot replays correctly from that `prev_hash`.
pub proof fn lemma_stale_prev_rejected(tip: Seq<u8>, prev_hash: Seq<u8>, s: SlotView)
    requires
        prev_hash != tip,
    ensures
        !extends_tip(tip, prev_hash, s),
{
}

/// A slot produced from the tip, with step counts of at least one, and
/// broadcast as following the tip is adopted.
pub proof fn lemma_produced_from_tip_adopted(
    tip: Seq<u8>,
    slot_id: u64,
    specs: Seq<EntrySpecView>,
)
    requires
        specs_well_formed(specs),
    ensures
        extends_tip(tip, tip, produced_slot(tip, slot_id, specs)),
{
    lemma_produced_slot_verifies(tip, slot_id, specs);
}

} // verus!
