use vstd::prelude::*;

verus! {

/// The genealogy of one collectible: its parents (smaller id first), its
/// siblings, its children and the collectibles it was bred with.
#[derive(Debug)]
pub struct KittyData {
    pub parent_one: Option<u32>,
    pub parent_two: Option<u32>,
    pub brothers: Vec<u32>,
    pub children: Vec<u32>,
    pub breeds: Vec<u32>,
}

/// The mathematical value of a `KittyData`.
pub struct KittyDataView {
    pub parent_one: Option<u32>,
    pub parent_two: Option<u32>,
    pub brothers: Seq<u32>,
    pub children: Seq<u32>,
    pub breeds: Seq<u32>,
}

impl View for KittyData {
    type V = KittyDataView;

    open spec fn view(&self) -> KittyDataView {
        KittyDataView {
            parent_one: self.parent_one,
            parent_two: self.parent_two,
            brothers: self.brothers@,
            children: self.children@,
            breeds: self.breeds@,
        }
    }
}

/// The record with no parents and empty lists.
pub open spec fn empty_record() -> KittyDataView {
    KittyDataView {
        parent_one: None,
        parent_two: None,
        brothers: Seq::empty(),
        children: Seq::empty(),
        breeds: Seq::empty(),
    }
}

/// `r` with `id` added to its breeding partners, unless already there.
pub open spec fn with_partner(r: KittyDataView, id: u32) -> KittyDataView {
    if r.breeds.contains(id) {
        r
    } else {
        KittyDataView { breeds: r.breeds.push(id), ..r }
    }
}

/// `r` with `id` appended to its children.
pub open spec fn with_child(r: KittyDataView, id: u32) -> KittyDataView {
    KittyDataView { children: r.children.push(id), ..r }
}

/// How many entries of `s` differ from `x`.
pub open spec fn count_unequal(s: Seq<u32>, x: u32) -> nat
    decreases s.len(),
{
    if s.len() == 0 {
        0
    } else {
        count_unequal(s.drop_last(), x) + if s.last() != x { 1nat } else { 0nat }
    }
}

/// For each entry `i` of `second` in order, `i` repeated once for every entry
/// of `first` that differs from it.
pub open spec fn unequal_pairs(second: Seq<u32>, first: Seq<u32>) -> Seq<u32>
    decreases second.len(),
{
    if second.len() == 0 {
        Seq::empty()
    } else {
        let i = second.last();
        unequal_pairs(second.drop_last(), first) + Seq::new(count_unequal(first, i), |k: int| i)
    }
}

/// `s` with every occurrence of `x` removed, order kept.
pub open spec fn without(s: Seq<u32>, x: u32) -> Seq<u32>
    decreases s.len(),
{
    if s.len() == 0 {
        Seq::empty()
    } else {
        let rest = without(s.drop_last(), x);
        if s.last() != x {
            rest.push(s.last())
        } else {
            rest
        }
    }
}

/// Every entry of `without(s, x)` is an entry of `s` other than `x`, and
/// removing entries keeps a sequence free of repeats.
pub proof fn lemma_without_members(s: Seq<u32>, x: u32)
    ensures
        forall|j: int|
            0 <= j < without(s, x).len() ==> s.contains(#[trigger] without(s, x)[j]) && without(
                s,
                x,
            )[j] != x,
        s.no_duplicates() ==> without(s, x).no_duplicates(),
    decreases s.len(),
{
    if s.len() > 0 {
        let init = s.drop_last();
        lemma_without_members(init, x);
        let rest = without(init, x);
        assert forall|j: int| 0 <= j < without(s, x).len() implies s.contains(
            #[trigger] without(s, x)[j],
        ) && without(s, x)[j] != x by {
            if j < rest.len() {
                assert(init.contains(rest[j]));
                let k = choose|k: int| 0 <= k < init.len() && init[k] == rest[j];
                assert(s[k] == rest[j]);
            } else {
                assert(s[s.len() - 1] == s.last());
            }
        }
        if s.no_duplicates() {
            assert(init.no_duplicates());
            if s.last() != x {
                assert forall|j: int| 0 <= j < rest.len() implies rest[j] != s.last() by {
                    assert(init.contains(rest[j]));
                    let k = choose|k: int| 0 <= k < init.len() && init[k] == rest[j];
                    assert(s[k] == init[k]);
                }
            }
        }
    }
}

/// The siblings reported for `id`, given the children of its first and its
/// second parent: the first parent's children, then each child of the
/// second parent once per child of the first parent that differs from it,
/// with `id` itself left out.
pub open spec fn siblings(first: Seq<u32>, second: Seq<u32>, id: u32) -> Seq<u32> {
    without(first + unequal_pairs(second, first), id)
}

impl KittyData {
    /// The record with no parents and empty lists.
    pub fn default() -> (r: KittyData)
        ensures
            r@ == empty_record(),
    {
        let r = KittyData {
            parent_one: None,
            parent_two: None,
            brothers: Vec::new(),
            children: Vec::new(),
            breeds: Vec::new(),
        };
        assert(r@.brothers =~= Seq::empty());
        r
    }

    /// A copy of the record.
    pub fn duplicate(&self) -> (r: KittyData)
        ensures
            r@ == self@,
    {
        let r = KittyData {
            parent_one: self.parent_one,
            parent_two: self.parent_two,
            brothers: self.brothers.clone(),
            children: self.children.clone(),
            breeds: self.breeds.clone(),
        };
        assert(r.brothers@ =~= self.brothers@);
        assert(r.children@ =~= self.children@);
        assert(r.breeds@ =~= self.breeds@);
        r
    }

    /// Appends `kitty_id` to the siblings.
    pub fn add_brother(&mut self, kitty_id: u32)
        ensures
            final(self)@ == (KittyDataView { brothers: old(self)@.brothers.push(kitty_id), ..old(self)@ }),
    {
        self.brothers.push(kitty_id);
    }

    /// Appends `kitty_id` to the children.
    pub fn add_children(&mut self, kitty_id: u32)
        ensures
            final(self)@ == with_child(old(self)@, kitty_id),
    {
        self.children.push(kitty_id);
    }

    /// Adds `kitty_id` to the breeding partners unless it is already one.
    pub fn add_breeds(&mut self, kitty_id: u32)
        ensures
            final(self)@ == with_partner(old(self)@, kitty_id),
    {
        let n = self.breeds.len();
        for i in 0..n
            invariant
                n == self.breeds@.len(),
                forall|j: int| 0 <= j < i ==> self.breeds@[j] != kitty_id,
        {
            if self.breeds[i] == kitty_id {
                return;
            }
        }
        assert(!self.breeds@.contains(kitty_id));
        self.breeds.push(kitty_id);
    }
}

/// Computes `siblings(first, second, id)`.
pub fn derive_siblings(first: &Vec<u32>, second: &Vec<u32>, id: u32) -> (r: Vec<u32>)
    ensures
        r@ == siblings(first@, second@, id),
{
    let mut candidates: Vec<u32> = first.clone();
    assert(candidates@ =~= first@);
    let n2 = second.len();
    for k in 0..n2
        invariant
            n2 == second@.len(),
            candidates@ == first@ + unequal_pairs(second@.take(k as int), first@),
    {
        let i = second[k];
        let n1 = first.len();
        for m in 0..n1
            invariant
                n1 == first@.len(),
                i == second@[k as int],
                k < n2,
                candidates@ == first@ + unequal_pairs(second@.take(k as int), first@)
                    + Seq::new(count_unequal(first@.take(m as int), i), |x: int| i),
        {
            assert(first@.take(m + 1).drop_last() =~= first@.take(m as int));
            if first[m] != i {
                candidates.push(i);
            }
            assert(candidates@ =~= first@ + unequal_pairs(second@.take(k as int), first@)
                + Seq::new(count_unequal(first@.take(m + 1), i), |x: int| i));
        }
        assert(first@.take(n1 as int) =~= first@);
        assert(second@.take(k + 1).drop_last() =~= second@.take(k as int));
        assert(candidates@ =~= first@ + unequal_pairs(second@.take(k + 1), first@));
    }
    assert(second@.take(n2 as int) =~= second@);
    let ghost all = candidates@;
    let mut r: Vec<u32> = Vec::new();
    let n = candidates.len();
    for k in 0..n
        invariant
            n == candidates@.len(),
            candidates@ == all,
            r@ == without(all.take(k as int), id),
    {
        assert(all.take(k + 1).drop_last() =~= all.take(k as int));
        if candidates[k] != id {
            r.push(candidates[k]);
        }
    }
    assert(all.take(n as int) =~= all);
    r
}


/// The stored record of `id`, or the empty one where none is stored.
pub open spec fn record(g: Map<u32, KittyDataView>, id: u32) -> KittyDataView {
    if g.contains_key(id) {
        g[id]
    } else {
        empty_record()
    }
}

/// `g` after `child` is appended to the children of `parent`.
pub open spec fn linked_child(g: Map<u32, KittyDataView>, parent: u32, child: u32) -> Map<u32, KittyDataView> {
    g.insert(parent, with_child(record(g, parent), child))
}

/// `g` after `a` and `b` are recorded as breeding partners of each other.
pub open spec fn linked_partners(g: Map<u32, KittyDataView>, a: u32, b: u32) -> Map<u32, KittyDataView> {
    let g1 = g.insert(a, with_partner(record(g, a), b));
    g1.insert(b, with_partner(record(g1, b), a))
}

/// The record of a child of `a` and `b`: the parents in ascending order.
pub open spec fn parentage(a: u32, b: u32) -> KittyDataView {
    KittyDataView {
        parent_one: Some(if a < b { a } else { b }),
        parent_two: Some(if a < b { b } else { a }),
        ..empty_record()
    }
}

/// `g` after `child` is bred from `a` and `b`.
pub open spec fn bred(g: Map<u32, KittyDataView>, a: u32, b: u32, child: u32) -> Map<u32, KittyDataView> {
    linked_partners(linked_child(linked_child(g, a, child), b, child), a, b).insert(
        child,
        parentage(a, b),
    )
}

/// The record of a parent, or the empty one where the parent is unknown.
pub open spec fn parent_record(g: Map<u32, KittyDataView>, parent: Option<u32>) -> KittyDataView {
    match parent {
        Some(p) => record(g, p),
        None => empty_record(),
    }
}

/// What the genealogy query answers for `id`, among `count` collectibles:
/// the stored record with its siblings derived from the parents' children;
/// the empty record for an existing collectible with no stored record; and
/// nothing for an id that names no collectible and has no record.
pub open spec fn genealogy_of(g: Map<u32, KittyDataView>, id: u32, count: nat) -> Option<KittyDataView> {
    if g.contains_key(id) {
        let d = g[id];
        Some(
            KittyDataView {
                brothers: siblings(
                    parent_record(g, d.parent_one).children,
                    parent_record(g, d.parent_two).children,
                    id,
                ),
                ..d
            },
        )
    } else if (id as nat) < count {
        Some(empty_record())
    } else {
        None
    }
}

} // verus!
