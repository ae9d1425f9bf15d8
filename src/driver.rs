use vstd::prelude::*;
use vstd::string::{StrSliceExecFns, StringSliceAdditionalSpecFns};
use crate::producer::{
    lemma_produced_slot_verifies, produce_slot, produced_slot, specs_view,
    EntrySpec, EntrySpecView,
};
use crate::schedule::{leader_of, LeaderSchedule};
use crate::slot::{slot_prev, slot_valid, slots_valid, verify_slot, Slot, SlotView};

verus! {

/// The ASCII decimal digits of `n`, without leading zeros.
pub open spec fn decimal(n: nat) -> Seq<u8>
    decreases n,
{
    if n < 10 {
        seq![(48 + n) as u8]
    } else {
        decimal(n / 10).push((48 + n % 10) as u8)
    }
}

/// The payload text `<tag><who>:slot=<slot>`, as bytes.
pub open spec fn labelled_payload(tag: Seq<u8>, who: Seq<char>, slot: nat) -> Seq<u8> {
    tag + who_bytes(who) + ":slot=".spec_bytes() + decimal(slot)
}

/// The UTF-8 encoding of an identifier.
pub open spec fn who_bytes(who: Seq<char>) -> Seq<u8> {
    vstd::utf8::encode_utf8(who)
}

/// The specs of slot `slot`: when `me` leads it, a padding entry of two steps
/// and an entry of three steps carrying `ME:<me>:slot=<slot>`; otherwise a
/// simulated view of the leader's slot, one step and then two steps carrying
/// `OTHER:<leader>:slot=<slot>`.
pub open spec fn round_specs(order: Seq<String>, me: Seq<char>, slot: nat) -> Seq<EntrySpecView> {
    let leader = leader_of(order, slot as int);
    if leader == me {
        seq![
            EntrySpecView { num_hashes: 2, payload: None },
            EntrySpecView {
                num_hashes: 3,
                payload: Some(labelled_payload("ME:".spec_bytes(), me, slot)),
            },
        ]
    } else {
        seq![
            EntrySpecView { num_hashes: 1, payload: None },
            EntrySpecView {
                num_hashes: 2,
                payload: Some(labelled_payload("OTHER:".spec_bytes(), leader, slot)),
            },
        ]
    }
}

/// The slots that driving `n` slots from `start` gives, each produced from
/// the `last_hash` of the one before.
pub open spec fn driven(
    order: Seq<String>,
    me: Seq<char>,
    prev: Seq<u8>,
    start: nat,
    n: nat,
) -> Seq<SlotView>
    decreases n,
{
    if n == 0 {
        Seq::empty()
    } else {
        let pre = driven(order, me, prev, start, (n - 1) as nat);
        let s = (start + n - 1) as nat;
        pre.push(
            produced_slot(slot_prev(prev, pre, pre.len() as int), s as u64, round_specs(order, me, s)),
        )
    }
}

proof fn lemma_driven_len(order: Seq<String>, me: Seq<char>, prev: Seq<u8>, start: nat, n: nat)
    ensures
        driven(order, me, prev, start, n).len() == n,
    decreases n,
{
    if n > 0 {
        lemma_driven_len(order, me, prev, start, (n - 1) as nat);
    }
}

fn push_decimal(out: &mut Vec<u8>, n: u64)
    ensures
        final(out)@ == old(out)@ + decimal(n as nat),
    decreases n,
{
    if n >= 10 {
        push_decimal(out, n / 10);
    }
    out.push((48 + n % 10) as u8);
    assert(final(out)@ =~= old(out)@ + decimal(n as nat));
}

fn labelled_bytes(tag: &str, who: &str, slot: u64) -> (r: Vec<u8>)
    ensures
        r@ == labelled_payload(tag.spec_bytes(), who@, slot as nat),
{
    let mut text = tag.as_bytes_vec();
    let mut who_part = who.as_bytes_vec();
    text.append(&mut who_part);
    let mut label = ":slot=".as_bytes_vec();
    text.append(&mut label);
    push_decimal(&mut text, slot);
    text
}

fn slot_specs(schedule: &LeaderSchedule, me: &str, slot: u64) -> (r: Vec<EntrySpec>)
    requires
        schedule.order@.len() > 0,
    ensures
        specs_view(r@) == round_specs(schedule.order@, me@, slot as nat),
{
    let leader = schedule.leader_for_slot(slot).unwrap();
    let r = if schedule.is_leader(slot, me) {
        vec![
            EntrySpec { num_hashes: 2, payload: None },
            EntrySpec { num_hashes: 3, payload: Some(labelled_bytes("ME:", me, slot)) },
        ]
    } else {
        vec![
            EntrySpec { num_hashes: 1, payload: None },
            EntrySpec { num_hashes: 2, payload: Some(labelled_bytes("OTHER:", leader, slot)) },
        ]
    };
    assert(specs_view(r@) =~= round_specs(schedule.order@, me@, slot as nat));
    r
}

/// Produces slots `start_slot .. start_slot + n_slots` in order under
/// `schedule`, as node `me`, the first from `prev` and each later one from the
/// `last_hash` of the one before; every slot verifies against the hash it was
/// produced from.
pub fn drive_round_robin(
    schedule: &LeaderSchedule,
    me: &str,
    prev: crate::poh::Hash,
    start_slot: u64,
    n_slots: u64,
) -> (r: Vec<Slot>)
    requires
        schedule.order@.len() > 0,
        start_slot + n_slots <= u64::MAX + 1,
    ensures
        r@.map_values(|s: Slot| s@) == driven(
            schedule.order@,
            me@,
            prev@,
            start_slot as nat,
            n_slots as nat,
        ),
        r@.len() == n_slots,
        slots_valid(prev@, r@.map_values(|s: Slot| s@)),
{
    let ghost order = schedule.order@;
    let mut out: Vec<Slot> = Vec::new();
    let mut curr: crate::poh::Hash = prev;
    let mut k: u64 = 0;
    while k < n_slots
        invariant
            schedule.order@ == order,
            order.len() > 0,
            start_slot + n_slots <= u64::MAX + 1,
            k <= n_slots,
            out@.len() == k,
            out@.map_values(|s: Slot| s@) == driven(order, me@, prev@, start_slot as nat, k as nat),
            curr@ == slot_prev(prev@, out@.map_values(|s: Slot| s@), k as int),
            slots_valid(prev@, out@.map_values(|s: Slot| s@)),
        decreases n_slots - k,
    {
        let ghost pre = out@.map_values(|s: Slot| s@);
        let s: u64 = start_slot + k;
        let specs = slot_specs(schedule, me, s);
        let slot = produce_slot(&curr, s, specs.as_slice());
        proof {
            lemma_produced_slot_verifies(curr@, s, specs_view(specs@));
        }
        // The self-check: a freshly produced slot always replays from `curr`.
        let ok = verify_slot(&curr, &slot);
        assert(ok);
        curr = slot.last_hash;
        out.push(slot);
        k += 1;
        proof {
            let post = out@.map_values(|s: Slot| s@);
            assert(post =~= pre.push(slot@));
            assert forall|j: int| 0 <= j < post.len() implies #[trigger] slot_valid(
                slot_prev(prev@, post, j),
                post[j],
            ) by {
                if j < pre.len() {
                    assert(slot_prev(prev@, post, j) == slot_prev(prev@, pre, j));
                }
            }
        }
    }
    proof {
        lemma_driven_len(order, me@, prev@, start_slot as nat, n_slots as nat);
    }
    out
}

} // verus!
