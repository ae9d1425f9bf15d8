use vstd::prelude::*;
use vstd::arithmetic::div_mod::lemma_mod_multiples_vanish;

verus! {

/// Round-robin assignment of slots to node identifiers.
#[derive(Clone, Debug)]
pub struct LeaderSchedule {
    pub order: Vec<String>,
}

/// The identifier that `order` assigns to `slot`.
pub open spec fn leader_of(order: Seq<String>, slot: int) -> Seq<char>
    recommends
        order.len() > 0,
{
    order[slot % (order.len() as int)]@
}

impl LeaderSchedule {
    /// A schedule over `order`; an empty order is a configuration error.
    pub fn new(order: Vec<String>) -> (r: Result<Self, &'static str>)
        ensures
            r.is_err() <==> order@.len() == 0,
            r matches Ok(s) ==> s.order@ == order@,
    {
        if order.len() == 0 {
            return Err("order must be non-empty");
        }
        Ok(Self { order })
    }

    /// The leader of `slot`: `order[slot mod len(order)]`, or `None` when the
    /// order is empty.
    pub fn leader_for_slot(&self, slot: u64) -> (r: Option<&str>)
        ensures
            self.order@.len() == 0 ==> r.is_none(),
            self.order@.len() > 0 ==> (r matches Some(l) && l@ == leader_of(self.order@, slot as int)),
    {
        if self.order.len() == 0 {
            return None;
        }
        let i: usize = (slot % (self.order.len() as u64)) as usize;
        Some(self.order[i].as_str())
    }

    /// Whether `me` leads `slot`.
    pub fn is_leader(&self, slot: u64, me: &str) -> (r: bool)
        ensures
            r == (self.order@.len() > 0 && leader_of(self.order@, slot as int) == me@),
    {
        if self.order.len() == 0 {
            return false;
        }
        let i: usize = (slot % (self.order.len() as u64)) as usize;
        let me_owned = String::from_str(me);
        self.order[i] == me_owned
    }
}

/// The leader of a slot repeats every `len(order)` slots.
pub proof fn lemma_leader_periodic(order: Seq<String>, slot: nat, k: nat)
    requires
        order.len() > 0,
    ensures
        leader_of(order, slot as int) == leader_of(order, (slot + k * order.len()) as int),
{
    let m = order.len() as int;
    lemma_mod_multiples_vanish(k as int, slot as int, m);
    assert(slot + k * order.len() == m * k + slot) by (nonlinear_arith)
        requires
            m == order.len(),
    ;
}

/// A schedule of one node gives that node every slot.
pub proof fn lemma_single_leader(order: Seq<String>, slot: nat)
    requires
        order.len() == 1,
    ensures
        leader_of(order, slot as int) == order[0]@,
{
    assert(slot as int % 1 == 0);
}

} // verus!
