use crate::dna::{combine_byte, combined};
use crate::genealogy::{empty_record, genealogy_of, parentage};
use crate::pallet::{
    breed_spec, count, create_spec, is_kitty, owned, stake, transfer_spec, valid, Event, KittyError,
    ModuleView, Outcome,
};
use vstd::prelude::*;

verus! {

/// The id that an event announces: the new one for a mint or a breed, the
/// moved one for a transfer.
pub open spec fn event_id(e: Event) -> u32 {
    match e {
        Event::Created(_, id) => id,
        Event::Transferred(_, _, id) => id,
        Event::Breeded(_, _, _, id) => id,
    }
}

/// The id announced by a successful command.
pub open spec fn outcome_id(r: Result<Outcome, KittyError>) -> u32 {
    match r {
        Ok(out) => event_id(out.event),
        Err(_) => 0,
    }
}

/// A successful mint adds exactly one collectible, owned by the sender and
/// listed as the sender's, and raises the sender's stake by one increment.
pub proof fn lemma_create_grows_by_one(
    pre: ModuleView,
    post: ModuleView,
    sender: u64,
    free_balance: u64,
    dna: Seq<u8>,
    r: Result<Outcome, KittyError>,
)
    requires
        valid(pre),
        stake(pre, sender) + pre.staking <= u64::MAX,
        create_spec(pre, post, sender, free_balance, dna, r),
        r is Ok,
    ensures
        count(post) == count(pre) + 1,
        outcome_id(r) == count(pre),
        post.owners[outcome_id(r) as int] == sender,
        owned(post, sender).contains(outcome_id(r)),
        stake(post, sender) == stake(pre, sender) + pre.staking,
{
    let id = count(pre) as u32;
    assert(owned(post, sender)[owned(post, sender).len() - 1] == id);
}

/// Every byte of a bred payload takes the selected bits from the first
/// parent and the rest from the second, and the recorded parent pair does
/// not depend on the order in which the parents were given.
pub proof fn lemma_breed_combines_bytes(
    pre: ModuleView,
    post: ModuleView,
    sender: u64,
    kitty_id_1: u32,
    kitty_id_2: u32,
    free_balance: u64,
    selector: Seq<u8>,
    r: Result<Outcome, KittyError>,
)
    requires
        breed_spec(pre, post, sender, kitty_id_1, kitty_id_2, free_balance, selector, r),
        r is Ok,
    ensures
        forall|i: int|
            0 <= i < 16 ==> #[trigger] post.kitties[count(pre) as int][i] == combine_byte(
                pre.kitties[kitty_id_1 as int][i],
                pre.kitties[kitty_id_2 as int][i],
                selector[i],
            ),
        post.genealogy[count(pre) as u32] == parentage(kitty_id_2, kitty_id_1),
{
    assert(post.kitties[count(pre) as int] == combined(
        pre.kitties[kitty_id_1 as int],
        pre.kitties[kitty_id_2 as int],
        selector,
    ));
}

/// Two mints in a row never announce the same id.
pub proof fn lemma_create_twice_distinct(
    s0: ModuleView,
    s1: ModuleView,
    s2: ModuleView,
    sender: u64,
    free_1: u64,
    free_2: u64,
    dna_1: Seq<u8>,
    dna_2: Seq<u8>,
    r1: Result<Outcome, KittyError>,
    r2: Result<Outcome, KittyError>,
)
    requires
        valid(s0),
        create_spec(s0, s1, sender, free_1, dna_1, r1),
        create_spec(s1, s2, sender, free_2, dna_2, r2),
        r1 is Ok,
        r2 is Ok,
    ensures
        outcome_id(r1) != outcome_id(r2),
        outcome_id(r2) == outcome_id(r1) + 1,
{
}

/// A transfer followed by a transfer back gives every collectible its
/// former owner again. (The recorded stakes need not come back.)
pub proof fn lemma_transfer_round_trip(
    s0: ModuleView,
    s1: ModuleView,
    s2: ModuleView,
    from: u64,
    to: u64,
    kitty_id: u32,
    free_to: u64,
    free_from: u64,
    r1: Result<Outcome, KittyError>,
    r2: Result<Outcome, KittyError>,
)
    requires
        valid(s0),
        transfer_spec(s0, s1, from, to, kitty_id, free_to, r1),
        transfer_spec(s1, s2, to, from, kitty_id, free_from, r2),
        r1 is Ok,
        r2 is Ok,
    ensures
        s2.owners == s0.owners,
{
    assert(s2.owners =~= s0.owners);
}

/// Breeding the same two parents twice gives two distinct new ids whose
/// records hold the same parent pair, smaller id first.
pub proof fn lemma_breed_twice(
    s0: ModuleView,
    s1: ModuleView,
    s2: ModuleView,
    sender: u64,
    kitty_id_1: u32,
    kitty_id_2: u32,
    free_1: u64,
    free_2: u64,
    selector_1: Seq<u8>,
    selector_2: Seq<u8>,
    r1: Result<Outcome, KittyError>,
    r2: Result<Outcome, KittyError>,
)
    requires
        valid(s0),
        breed_spec(s0, s1, sender, kitty_id_1, kitty_id_2, free_1, selector_1, r1),
        breed_spec(s1, s2, sender, kitty_id_1, kitty_id_2, free_2, selector_2, r2),
        r1 is Ok,
        r2 is Ok,
    ensures
        outcome_id(r1) != outcome_id(r2),
        s2.genealogy[outcome_id(r1)] == parentage(kitty_id_1, kitty_id_2),
        s2.genealogy[outcome_id(r2)] == parentage(kitty_id_1, kitty_id_2),
        parentage(kitty_id_1, kitty_id_2).parent_one == Some(
            if kitty_id_1 < kitty_id_2 { kitty_id_1 } else { kitty_id_2 },
        ),
        parentage(kitty_id_1, kitty_id_2).parent_two == Some(
            if kitty_id_1 < kitty_id_2 { kitty_id_2 } else { kitty_id_1 },
        ),
{
}

/// The genealogy query on an existing collectible that has taken part in
/// no breeding event (so no record is stored for it) answers the empty
/// record: no parents, and no siblings, children or partners.
pub proof fn lemma_unbred_kitty_has_empty_record(v: ModuleView, kitty_id: u32)
    requires
        is_kitty(v, kitty_id),
        !v.genealogy.contains_key(kitty_id),
    ensures
        genealogy_of(v.genealogy, kitty_id, count(v)) == Some(empty_record()),
        empty_record().parent_one is None,
        empty_record().parent_two is None,
        empty_record().brothers.len() == 0,
        empty_record().children.len() == 0,
        empty_record().breeds.len() == 0,
{
}

} // verus!
