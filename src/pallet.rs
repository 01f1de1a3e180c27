use crate::dna::{combine, combined, Kitty};
use crate::genealogy::{
    bred, derive_siblings, genealogy_of, lemma_without_members, linked_child, linked_partners, parentage, record,
    with_partner, without, KittyData, KittyDataView,
};
use crate::randomness::{blake2_128_of, random_value, seed_payload, Entropy};
use std::collections::HashMap;
use vstd::prelude::*;

verus! {

/// Why a command or a list operation was rejected.
#[derive(Clone, Copy, PartialEq, Eq, Structural, Debug)]
pub enum KittyError {
    /// The identifier space is exhausted.
    KittiesCountOverFlow,
    /// The collectible does not exist.
    InvalidKittyId,
    /// Breeding needs two distinct collectibles.
    RequireDifferentParent,
    /// The sender does not own the collectible.
    RequireOwner,
    /// The id is already in the account's owned list.
    KittyMustBeNotInclude,
    /// The id is not in the account's owned list.
    KittyMustBeInclude,
    /// The free balance is below the staking requirement.
    InsufficientFunds,
}

/// What a successful command announces.
#[derive(Clone, Copy, PartialEq, Eq, Structural, Debug)]
pub enum Event {
    /// (owner, new id)
    Created(u64, u32),
    /// (from, to, id)
    Transferred(u64, u64, u32),
    /// (owner, first parent, second parent, new id)
    Breeded(u64, u32, u32, u32),
}

/// An instruction to the balance ledger: hold exactly `amount` of
/// `account`'s funds under this module's lock, replacing the previous hold.
#[derive(Clone, Copy, PartialEq, Eq, Structural, Debug)]
pub struct Lock {
    pub account: u64,
    pub amount: u64,
}

/// The result of a successful command: its event, and the lock instructions
/// for the ledger, in the order in which they are to be applied.
#[derive(Debug)]
pub struct Outcome {
    pub event: Event,
    pub locks: Vec<Lock>,
}

/// The mathematical value of the module's storage.
pub struct ModuleView {
    /// The fixed staking increment.
    pub staking: u64,
    /// Trait payloads, by id; the length is the collectible count.
    pub kitties: Seq<Seq<u8>>,
    /// Owners, by id.
    pub owners: Seq<u64>,
    /// The owned-id list of each account that has one.
    pub lists: Map<u64, Seq<u32>>,
    /// Genealogy records, by id.
    pub genealogy: Map<u32, KittyDataView>,
    /// Recorded staked totals, by account.
    pub stakes: Map<u64, u64>,
}

/// The storage of the collectible module.
pub struct Module {
    staking: u64,
    kitties: Vec<Kitty>,
    owners: Vec<u64>,
    kitties_list: HashMap<u64, Vec<u32>>,
    kitties_data: HashMap<u32, KittyData>,
    staking_data: HashMap<u64, u64>,
}

impl View for Module {
    type V = ModuleView;

    closed spec fn view(&self) -> ModuleView {
        ModuleView {
            staking: self.staking,
            kitties: Seq::new(self.kitties@.len(), |i: int| self.kitties@[i].0@),
            owners: self.owners@,
            lists: self.kitties_list@.map_values(|l: Vec<u32>| l@),
            genealogy: self.kitties_data@.map_values(|d: KittyData| d@),
            stakes: self.staking_data@,
        }
    }
}

/// The number of collectibles, which is also the next id.
pub open spec fn count(v: ModuleView) -> nat {
    v.kitties.len()
}

/// The ids that `who` owns by its list; empty where it has none.
pub open spec fn owned(v: ModuleView, who: u64) -> Seq<u32> {
    if v.lists.contains_key(who) {
        v.lists[who]
    } else {
        Seq::empty()
    }
}

/// The staked total recorded for `who`; zero where none is.
pub open spec fn stake(v: ModuleView, who: u64) -> u64 {
    if v.stakes.contains_key(who) {
        v.stakes[who]
    } else {
        0
    }
}

/// The storage's invariant: ids fit in `u32`, every collectible has one
/// owner, and each owned list is non-empty, free of repeats, and holds
/// existing ids only.
pub open spec fn valid(v: ModuleView) -> bool {
    &&& v.kitties.len() <= u32::MAX
    &&& v.owners.len() == v.kitties.len()
    &&& forall|i: int| 0 <= i < v.kitties.len() ==> #[trigger] v.kitties[i].len() == 16
    &&& forall|a: u64|
        #[trigger] v.lists.contains_key(a) ==> {
            &&& v.lists[a].len() > 0
            &&& v.lists[a].no_duplicates()
            &&& forall|j: int| 0 <= j < v.lists[a].len() ==> (#[trigger] v.lists[a][j]) < v.kitties.len()
        }
}

/// `v` with `who`'s staked total raised by one increment.
pub open spec fn staked(v: ModuleView, who: u64) -> ModuleView {
    ModuleView { stakes: v.stakes.insert(who, (stake(v, who) + v.staking) as u64), ..v }
}

/// `v` with `who`'s staked total lowered by one increment, not below zero.
pub open spec fn released(v: ModuleView, who: u64) -> ModuleView {
    ModuleView {
        stakes: v.stakes.insert(
            who,
            if stake(v, who) >= v.staking { (stake(v, who) - v.staking) as u64 } else { 0 },
        ),
        ..v
    }
}

/// `v` with a new collectible of payload `dna` owned by `owner` under the
/// next id, which is appended to the owner's list.
pub open spec fn stored(v: ModuleView, owner: u64, dna: Seq<u8>) -> ModuleView {
    ModuleView {
        kitties: v.kitties.push(dna),
        owners: v.owners.push(owner),
        lists: v.lists.insert(owner, owned(v, owner).push(count(v) as u32)),
        ..v
    }
}

/// Whether `id` names an existing collectible.
pub open spec fn is_kitty(v: ModuleView, id: u32) -> bool {
    (id as nat) < count(v)
}

/// What `create` does: checks the sender's free balance against the
/// increment, then the id space; on success it stakes one increment for the
/// sender and stores a collectible of payload `dna` owned by the sender.
/// A rejected command changes nothing.
pub open spec fn create_spec(
    pre: ModuleView,
    post: ModuleView,
    sender: u64,
    free_balance: u64,
    dna: Seq<u8>,
    r: Result<Outcome, KittyError>,
) -> bool {
    if pre.staking > free_balance {
        r == Err::<Outcome, KittyError>(KittyError::InsufficientFunds) && post == pre
    } else if count(pre) == u32::MAX {
        r == Err::<Outcome, KittyError>(KittyError::KittiesCountOverFlow) && post == pre
    } else {
        &&& post == stored(staked(pre, sender), sender, dna)
        &&& match r {
            Ok(out) => {
                &&& out.event == Event::Created(sender, count(pre) as u32)
                &&& out.locks@ == seq![Lock { account: sender, amount: stake(post, sender) }]
            },
            Err(_) => false,
        }
    }
}

/// What `transfer` does: checks that the collectible exists, that the
/// sender owns it, and the receiver's free balance; on success it stakes one
/// increment for the receiver, releases one from the sender, and makes the
/// receiver the owner. The owned lists are left as they are.
pub open spec fn transfer_spec(
    pre: ModuleView,
    post: ModuleView,
    sender: u64,
    to: u64,
    kitty_id: u32,
    to_free_balance: u64,
    r: Result<Outcome, KittyError>,
) -> bool {
    if !is_kitty(pre, kitty_id) {
        r == Err::<Outcome, KittyError>(KittyError::InvalidKittyId) && post == pre
    } else if pre.owners[kitty_id as int] != sender {
        r == Err::<Outcome, KittyError>(KittyError::RequireOwner) && post == pre
    } else if pre.staking > to_free_balance {
        r == Err::<Outcome, KittyError>(KittyError::InsufficientFunds) && post == pre
    } else {
        let mid = staked(pre, to);
        &&& post == (ModuleView {
            owners: pre.owners.update(kitty_id as int, to),
            ..released(mid, sender)
        })
        &&& match r {
            Ok(out) => {
                &&& out.event == Event::Transferred(sender, to, kitty_id)
                &&& out.locks@ == seq![
                    Lock { account: to, amount: stake(mid, to) },
                    Lock { account: sender, amount: stake(post, sender) },
                ]
            },
            Err(_) => false,
        }
    }
}

/// What `breed` does: checks that both parents exist and differ, the
/// sender's free balance and the id space; on success it stakes one
/// increment for the sender, stores the offspring of the two payloads under
/// `selector` as the sender's, and records the genealogy.
pub open spec fn breed_spec(
    pre: ModuleView,
    post: ModuleView,
    sender: u64,
    kitty_id_1: u32,
    kitty_id_2: u32,
    free_balance: u64,
    selector: Seq<u8>,
    r: Result<Outcome, KittyError>,
) -> bool {
    if !is_kitty(pre, kitty_id_1) || !is_kitty(pre, kitty_id_2) {
        r == Err::<Outcome, KittyError>(KittyError::InvalidKittyId) && post == pre
    } else if kitty_id_1 == kitty_id_2 {
        r == Err::<Outcome, KittyError>(KittyError::RequireDifferentParent) && post == pre
    } else if pre.staking > free_balance {
        r == Err::<Outcome, KittyError>(KittyError::InsufficientFunds) && post == pre
    } else if count(pre) == u32::MAX {
        r == Err::<Outcome, KittyError>(KittyError::KittiesCountOverFlow) && post == pre
    } else {
        let child = count(pre) as u32;
        let dna = combined(pre.kitties[kitty_id_1 as int], pre.kitties[kitty_id_2 as int], selector);
        let grown = stored(staked(pre, sender), sender, dna);
        &&& post == (ModuleView {
            genealogy: bred(pre.genealogy, kitty_id_1, kitty_id_2, child),
            ..grown
        })
        &&& match r {
            Ok(out) => {
                &&& out.event == Event::Breeded(sender, kitty_id_1, kitty_id_2, child)
                &&& out.locks@ == seq![Lock { account: sender, amount: stake(post, sender) }]
            },
            Err(_) => false,
        }
    }
}

impl Module {
    /// The well-formedness of the storage.
    pub open spec fn wf(&self) -> bool {
        valid(self@)
    }

    /// Empty storage with the given staking increment.
    pub fn new(staking: u64) -> (r: Module)
        ensures
            r.wf(),
            r@ == (ModuleView {
                staking,
                kitties: Seq::empty(),
                owners: Seq::empty(),
                lists: Map::empty(),
                genealogy: Map::empty(),
                stakes: Map::empty(),
            }),
    {
        let r = Module {
            staking,
            kitties: Vec::new(),
            owners: Vec::new(),
            kitties_list: HashMap::new(),
            kitties_data: HashMap::new(),
            staking_data: HashMap::new(),
        };
        assert(r@.kitties =~= Seq::empty());
        assert(r@.lists =~= Map::empty());
        assert(r@.genealogy =~= Map::empty());
        r
    }

    /// The fixed staking increment.
    pub fn staking(&self) -> (r: u64)
        ensures
            r == self@.staking,
    {
        self.staking
    }

    /// The number of collectibles.
    pub fn kitties_count(&self) -> (r: u32)
        requires
            self.wf(),
        ensures
            r == count(self@),
    {
        self.kitties.len() as u32
    }

    /// The staked total recorded for `who`.
    pub fn staking_data(&self, who: u64) -> (r: u64)
        ensures
            r == stake(self@, who),
    {
        match self.staking_data.get(&who) {
            Some(v) => *v,
            None => 0,
        }
    }

    /// The next id, unless the id space is exhausted.
    pub fn next_kitty_id(&self) -> (r: Result<u32, KittyError>)
        requires
            self.wf(),
        ensures
            count(self@) == u32::MAX ==> r == Err::<u32, KittyError>(KittyError::KittiesCountOverFlow),
            count(self@) < u32::MAX ==> r == Ok::<u32, KittyError>(count(self@) as u32),
    {
        let kitty_id = self.kitties.len() as u32;
        if kitty_id == u32::MAX {
            return Err(KittyError::KittiesCountOverFlow);
        }
        Ok(kitty_id)
    }

    /// Appends `kitty_id` to `who`'s owned list, creating the list where
    /// there is none; rejected if the id is already there.
    fn add_to_kitties_list(&mut self, who: u64, kitty_id: u32) -> (r: Result<(), KittyError>)
        requires
            old(self).wf(),
            (kitty_id as nat) < count(old(self)@),
        ensures
            final(self).wf(),
            match r {
                Ok(()) => !owned(old(self)@, who).contains(kitty_id) && final(self)@ == (ModuleView {
                    lists: old(self)@.lists.insert(who, owned(old(self)@, who).push(kitty_id)),
                    ..old(self)@
                }),
                Err(e) => e == KittyError::KittyMustBeNotInclude && owned(old(self)@, who).contains(
                    kitty_id,
                ) && final(self)@ == old(self)@,
            },
    {
        let ghost pre = self@;
        let mut list: Vec<u32> = match self.kitties_list.get(&who) {
            Some(l) => l.clone(),
            None => Vec::new(),
        };
        assert(list@ =~= owned(pre, who));
        let n = list.len();
        for i in 0..n
            invariant
                n == list@.len(),
                list@ == owned(pre, who),
                self@ == pre,
                pre == old(self)@,
                self.wf(),
                forall|j: int| 0 <= j < i ==> list@[j] != kitty_id,
        {
            if list[i] == kitty_id {
                return Err(KittyError::KittyMustBeNotInclude);
            }
        }
        list.push(kitty_id);
        self.kitties_list.insert(who, list);
        assert(self@.lists =~= pre.lists.insert(who, owned(pre, who).push(kitty_id)));
        assert(self@ == (ModuleView { lists: pre.lists.insert(who, owned(pre, who).push(kitty_id)), ..pre }));
        Ok(())
    }

    /// Removes `kitty_id` from `who`'s owned list, dropping the list once it
    /// is empty; rejected if the id is not there.
    pub fn del_from_kitties_list(&mut self, who: u64, kitty_id: u32) -> (r: Result<(), KittyError>)
        requires
            old(self).wf(),
        ensures
            final(self).wf(),
            match r {
                Ok(()) => owned(old(self)@, who).contains(kitty_id) && final(self)@ == (ModuleView {
                    lists: if without(owned(old(self)@, who), kitty_id).len() == 0 {
                        old(self)@.lists.remove(who)
                    } else {
                        old(self)@.lists.insert(who, without(owned(old(self)@, who), kitty_id))
                    },
                    ..old(self)@
                }),
                Err(e) => e == KittyError::KittyMustBeInclude && !owned(old(self)@, who).contains(
                    kitty_id,
                ) && final(self)@ == old(self)@,
            },
    {
        let ghost pre = self@;
        let list: Vec<u32> = match self.kitties_list.get(&who) {
            Some(l) => l.clone(),
            None => {
                return Err(KittyError::KittyMustBeInclude);
            },
        };
        assert(list@ =~= owned(pre, who));
        let n = list.len();
        let mut founded: bool = false;
        let mut kept: Vec<u32> = Vec::new();
        for i in 0..n
            invariant
                n == list@.len(),
                list@ == owned(pre, who),
                founded == exists|j: int| 0 <= j < i && list@[j] == kitty_id,
                kept@ == without(list@.take(i as int), kitty_id),
        {
            assert(list@.take(i + 1).drop_last() =~= list@.take(i as int));
            if list[i] == kitty_id {
                founded = true;
            } else {
                kept.push(list[i]);
            }
        }
        assert(list@.take(n as int) =~= list@);
        if !founded {
            return Err(KittyError::KittyMustBeInclude);
        }
        proof {
            lemma_without_members(list@, kitty_id);
        }
        if kept.len() == 0 {
            self.kitties_list.remove(&who);
            assert(self@.lists =~= pre.lists.remove(who));
        } else {
            self.kitties_list.insert(who, kept);
            assert(self@.lists =~= pre.lists.insert(who, without(owned(pre, who), kitty_id)));
        }
        assert forall|a: u64| #[trigger] self@.lists.contains_key(a) implies {
            &&& self@.lists[a].len() > 0
            &&& self@.lists[a].no_duplicates()
            &&& forall|j: int| 0 <= j < self@.lists[a].len() ==> (#[trigger] self@.lists[a][j]) < self@.kitties.len()
        } by {
            if a == who {
                assert forall|j: int| 0 <= j < self@.lists[a].len() implies (#[trigger] self@.lists[a][j]) < self@.kitties.len() by {
                    assert(list@.contains(self@.lists[a][j]));
                }
            }
        }
        Ok(())
    }

    /// Stores a new collectible under the next id, owned by `owner`, and
    /// appends the id to the owner's list.
    fn insert_kitty(&mut self, owner: u64, kitty_id: u32, kitty: Kitty)
        requires
            old(self).wf(),
            kitty_id as nat == count(old(self)@),
            count(old(self)@) < u32::MAX,
        ensures
            final(self).wf(),
            final(self)@ == stored(old(self)@, owner, kitty.0@),
    {
        let ghost pre = self@;
        self.kitties.push(kitty);
        self.owners.push(owner);
        assert(self@.kitties =~= pre.kitties.push(kitty.0@));
        assert(!owned(pre, owner).contains(kitty_id)) by {
            if owned(pre, owner).contains(kitty_id) {
                let j = choose|j: int| 0 <= j < owned(pre, owner).len() && owned(pre, owner)[j] == kitty_id;
                assert(pre.lists.contains_key(owner));
            }
        }
        let r = self.add_to_kitties_list(owner, kitty_id);
        assert(r is Ok);
    }

    /// Raises `who`'s recorded stake by one increment; returns the new total.
    fn add_stake(&mut self, who: u64) -> (total: u64)
        requires
            stake(old(self)@, who) + old(self)@.staking <= u64::MAX,
        ensures
            final(self)@ == staked(old(self)@, who),
            total == stake(final(self)@, who),
    {
        let ghost pre = self@;
        let total = self.staking_data(who) + self.staking;
        self.staking_data.insert(who, total);
        assert(self@.stakes =~= staked(pre, who).stakes);
        total
    }

    /// Lowers `who`'s recorded stake by one increment, not below zero;
    /// returns the new total.
    fn release_stake(&mut self, who: u64) -> (total: u64)
        ensures
            final(self)@ == released(old(self)@, who),
            total == stake(final(self)@, who),
    {
        let ghost pre = self@;
        let total = self.staking_data(who).saturating_sub(self.staking);
        self.staking_data.insert(who, total);
        assert(self@.stakes =~= released(pre, who).stakes);
        total
    }

    /// The stored genealogy record of `kitty_id`, or the empty one.
    fn load_data(&self, kitty_id: u32) -> (r: KittyData)
        ensures
            r@ == record(self@.genealogy, kitty_id),
    {
        match self.kitties_data.get(&kitty_id) {
            Some(d) => d.duplicate(),
            None => KittyData::default(),
        }
    }

    /// Records the parents of `kitty_id`, smaller id first, replacing any
    /// record it had.
    pub fn create_kitty_data(&mut self, kitty_id: u32, parent_id_1: u32, parent_id_2: u32)
        ensures
            final(self)@ == (ModuleView {
                genealogy: old(self)@.genealogy.insert(kitty_id, parentage(parent_id_1, parent_id_2)),
                ..old(self)@
            }),
    {
        let ghost pre = self@;
        let (p1, p2) = if parent_id_1 < parent_id_2 {
            (parent_id_1, parent_id_2)
        } else {
            (parent_id_2, parent_id_1)
        };
        let mut data = KittyData::default();
        data.parent_one = Some(p1);
        data.parent_two = Some(p2);
        self.kitties_data.insert(kitty_id, data);
        assert(self@.genealogy =~= pre.genealogy.insert(kitty_id, parentage(parent_id_1, parent_id_2)));
    }

    /// Records `kitty_id_1` and `kitty_id_2` as breeding partners of each
    /// other, each at most once.
    pub fn add_breeds(&mut self, kitty_id_1: u32, kitty_id_2: u32)
        ensures
            final(self)@ == (ModuleView {
                genealogy: linked_partners(old(self)@.genealogy, kitty_id_1, kitty_id_2),
                ..old(self)@
            }),
    {
        let ghost pre = self@;
        let mut data = self.load_data(kitty_id_1);
        data.add_breeds(kitty_id_2);
        self.kitties_data.insert(kitty_id_1, data);
        let ghost mid = self@.genealogy;
        assert(mid =~= pre.genealogy.insert(kitty_id_1, with_partner(record(pre.genealogy, kitty_id_1), kitty_id_2)));
        let mut data = self.load_data(kitty_id_2);
        data.add_breeds(kitty_id_1);
        self.kitties_data.insert(kitty_id_2, data);
        assert(self@.genealogy =~= linked_partners(pre.genealogy, kitty_id_1, kitty_id_2));
    }

    /// Appends `child_id` to the children of `parent_id`.
    pub fn add_children(&mut self, parent_id: u32, child_id: u32)
        ensures
            final(self)@ == (ModuleView {
                genealogy: linked_child(old(self)@.genealogy, parent_id, child_id),
                ..old(self)@
            }),
    {
        let ghost pre = self@;
        let mut data = self.load_data(parent_id);
        data.add_children(child_id);
        self.kitties_data.insert(parent_id, data);
        assert(self@.genealogy =~= linked_child(pre.genealogy, parent_id, child_id));
    }

    /// Mints a collectible of payload `dna` for `sender`, staking one
    /// increment of the sender's funds.
    pub fn create_with_dna(&mut self, sender: u64, free_balance: u64, dna: [u8; 16]) -> (r: Result<Outcome, KittyError>)
        requires
            old(self).wf(),
            stake(old(self)@, sender) + old(self)@.staking <= u64::MAX,
        ensures
            final(self).wf(),
            create_spec(old(self)@, final(self)@, sender, free_balance, dna@, r),
    {
        if self.staking > free_balance {
            return Err(KittyError::InsufficientFunds);
        }
        let kitty_id = match self.next_kitty_id() {
            Ok(id) => id,
            Err(e) => {
                return Err(e);
            },
        };
        let total = self.add_stake(sender);
        self.insert_kitty(sender, kitty_id, Kitty(dna));
        let mut locks: Vec<Lock> = Vec::new();
        locks.push(Lock { account: sender, amount: total });
        assert(locks@ =~= seq![Lock { account: sender, amount: total }]);
        Ok(Outcome { event: Event::Created(sender, kitty_id), locks })
    }

    /// Mints a collectible for `sender` whose payload is drawn from
    /// `entropy`, staking one increment of the sender's funds.
    pub fn create(&mut self, sender: u64, free_balance: u64, entropy: &Entropy) -> (r: Result<Outcome, KittyError>)
        requires
            old(self).wf(),
            stake(old(self)@, sender) + old(self)@.staking <= u64::MAX,
        ensures
            final(self).wf(),
            create_spec(
                old(self)@,
                final(self)@,
                sender,
                free_balance,
                blake2_128_of(seed_payload(entropy.random_seed@, sender, entropy.extrinsic_index)),
                r,
            ),
    {
        let dna = random_value(entropy, sender);
        self.create_with_dna(sender, free_balance, dna)
    }

    /// Hands `kitty_id` from `sender` to `to`; the receiver stakes one
    /// increment and the sender's stake drops by one.
    pub fn transfer(&mut self, sender: u64, to: u64, kitty_id: u32, to_free_balance: u64) -> (r: Result<Outcome, KittyError>)
        requires
            old(self).wf(),
            stake(old(self)@, to) + old(self)@.staking <= u64::MAX,
        ensures
            final(self).wf(),
            transfer_spec(old(self)@, final(self)@, sender, to, kitty_id, to_free_balance, r),
    {
        let ghost pre = self@;
        if kitty_id as usize >= self.owners.len() {
            return Err(KittyError::InvalidKittyId);
        }
        if self.owners[kitty_id as usize] != sender {
            return Err(KittyError::RequireOwner);
        }
        if self.staking > to_free_balance {
            return Err(KittyError::InsufficientFunds);
        }
        let to_total = self.add_stake(to);
        let sender_total = self.release_stake(sender);
        self.owners.set(kitty_id as usize, to);
        assert(self@.owners =~= pre.owners.update(kitty_id as int, to));
        let mut locks: Vec<Lock> = Vec::new();
        locks.push(Lock { account: to, amount: to_total });
        locks.push(Lock { account: sender, amount: sender_total });
        assert(locks@ =~= seq![
            Lock { account: to, amount: to_total },
            Lock { account: sender, amount: sender_total },
        ]);
        Ok(Outcome { event: Event::Transferred(sender, to, kitty_id), locks })
    }

    /// Breeds `kitty_id_1` with `kitty_id_2` under `selector`: the offspring
    /// belongs to `sender`, who stakes one increment.
    pub fn breed_with_selector(
        &mut self,
        sender: u64,
        kitty_id_1: u32,
        kitty_id_2: u32,
        free_balance: u64,
        selector: [u8; 16],
    ) -> (r: Result<Outcome, KittyError>)
        requires
            old(self).wf(),
            stake(old(self)@, sender) + old(self)@.staking <= u64::MAX,
        ensures
            final(self).wf(),
            breed_spec(old(self)@, final(self)@, sender, kitty_id_1, kitty_id_2, free_balance, selector@, r),
    {
        let ghost pre = self@;
        if kitty_id_1 as usize >= self.kitties.len() || kitty_id_2 as usize >= self.kitties.len() {
            return Err(KittyError::InvalidKittyId);
        }
        if kitty_id_1 == kitty_id_2 {
            return Err(KittyError::RequireDifferentParent);
        }
        if self.staking > free_balance {
            return Err(KittyError::InsufficientFunds);
        }
        let kitty_id = match self.next_kitty_id() {
            Ok(id) => id,
            Err(e) => {
                return Err(e);
            },
        };
        let total = self.add_stake(sender);
        let dna1 = self.kitties[kitty_id_1 as usize].0;
        let dna2 = self.kitties[kitty_id_2 as usize].0;
        let new_dna = combine(&dna1, &dna2, &selector);
        self.insert_kitty(sender, kitty_id, Kitty(new_dna));
        self.add_children(kitty_id_1, kitty_id);
        self.add_children(kitty_id_2, kitty_id);
        self.add_breeds(kitty_id_1, kitty_id_2);
        self.create_kitty_data(kitty_id, kitty_id_1, kitty_id_2);
        let mut locks: Vec<Lock> = Vec::new();
        locks.push(Lock { account: sender, amount: total });
        assert(locks@ =~= seq![Lock { account: sender, amount: total }]);
        Ok(Outcome { event: Event::Breeded(sender, kitty_id_1, kitty_id_2, kitty_id), locks })
    }

    /// Breeds `kitty_id_1` with `kitty_id_2` under a selector drawn from
    /// `entropy`: the offspring belongs to `sender`, who stakes one increment.
    pub fn breed(
        &mut self,
        sender: u64,
        kitty_id_1: u32,
        kitty_id_2: u32,
        free_balance: u64,
        entropy: &Entropy,
    ) -> (r: Result<Outcome, KittyError>)
        requires
            old(self).wf(),
            stake(old(self)@, sender) + old(self)@.staking <= u64::MAX,
        ensures
            final(self).wf(),
            breed_spec(
                old(self)@,
                final(self)@,
                sender,
                kitty_id_1,
                kitty_id_2,
                free_balance,
                blake2_128_of(seed_payload(entropy.random_seed@, sender, entropy.extrinsic_index)),
                r,
            ),
    {
        let selector = random_value(entropy, sender);
        self.breed_with_selector(sender, kitty_id_1, kitty_id_2, free_balance, selector)
    }

    /// The ids in `who`'s owned list; empty where it has none.
    pub fn get_kitties(&self, who: u64) -> (r: Vec<u32>)
        ensures
            r@ == owned(self@, who),
    {
        let r = match self.kitties_list.get(&who) {
            Some(l) => l.clone(),
            None => Vec::new(),
        };
        assert(r@ =~= owned(self@, who));
        r
    }

    /// The genealogy of `kitty_id` with its siblings derived from its
    /// parents' children. An existing collectible with no stored record gets
    /// the empty record; `None` only where the id names no collectible and
    /// has no record.
    pub fn get_kitty_data(&self, kitty_id: u32) -> (r: Option<KittyData>)
        ensures
            match r {
                Some(d) => genealogy_of(self@.genealogy, kitty_id, count(self@)) == Some(d@),
                None => genealogy_of(self@.genealogy, kitty_id, count(self@)) is None,
            },
    {
        match self.kitties_data.get(&kitty_id) {
            None => {
                if (kitty_id as usize) < self.kitties.len() {
                    Some(KittyData::default())
                } else {
                    None
                }
            },
            Some(d) => {
                let mut data = d.duplicate();
                let data1 = match data.parent_one {
                    Some(p) => self.load_data(p),
                    None => KittyData::default(),
                };
                let data2 = match data.parent_two {
                    Some(p) => self.load_data(p),
                    None => KittyData::default(),
                };
                data.brothers = derive_siblings(&data1.children, &data2.children, kitty_id);
                Some(data)
            },
        }
    }

    /// The payload of `kitty_id`, if it exists.
    pub fn kitties(&self, kitty_id: u32) -> (r: Option<Kitty>)
        ensures
            match r {
                Some(k) => is_kitty(self@, kitty_id) && k.0@ == self@.kitties[kitty_id as int],
                None => !is_kitty(self@, kitty_id),
            },
    {
        if (kitty_id as usize) < self.kitties.len() {
            Some(self.kitties[kitty_id as usize])
        } else {
            None
        }
    }

    /// The owner of `kitty_id`, if it exists.
    pub fn kitty_owner(&self, kitty_id: u32) -> (r: Option<u64>)
        requires
            self.wf(),
        ensures
            match r {
                Some(o) => is_kitty(self@, kitty_id) && o == self@.owners[kitty_id as int],
                None => !is_kitty(self@, kitty_id),
            },
    {
        if (kitty_id as usize) < self.owners.len() {
            Some(self.owners[kitty_id as usize])
        } else {
            None
        }
    }
}

} // verus!
