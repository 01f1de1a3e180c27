use vstd::prelude::*;

verus! {

/// Number of trait bytes carried by every collectible.
pub const DNA_LEN: usize = 16;

/// A collectible: an immutable 16-byte trait payload.
#[derive(Clone, Copy, PartialEq, Eq, Debug)]
pub struct Kitty(pub [u8; 16]);

/// One byte of offspring: the bits selected by `selector` come from the first
/// parent, the others from the second.
pub open spec fn combine_byte(dna1: u8, dna2: u8, selector: u8) -> u8 {
    (selector & dna1) | (!selector & dna2)
}

/// The whole offspring payload: `combine_byte` applied at every position.
pub open spec fn combined(dna1: Seq<u8>, dna2: Seq<u8>, selector: Seq<u8>) -> Seq<u8> {
    Seq::new(DNA_LEN as nat, |i: int| combine_byte(dna1[i], dna2[i], selector[i]))
}

/// Combines one byte of each parent under one selector byte.
pub fn combine_dna(dna1: u8, dna2: u8, selector: u8) -> (r: u8)
    ensures
        r == combine_byte(dna1, dna2, selector),
{
    (selector & dna1) | (!selector & dna2)
}

/// Combines two parents' payloads byte by byte under one selector.
pub fn combine(dna1: &[u8; 16], dna2: &[u8; 16], selector: &[u8; 16]) -> (r: [u8; 16])
    ensures
        r@ == combined(dna1@, dna2@, selector@),
{
    let mut new_dna: [u8; 16] = [0u8; 16];
    for i in 0..DNA_LEN
        invariant
            new_dna@.len() == DNA_LEN,
            forall|j: int|
                0 <= j < i ==> new_dna@[j] == combine_byte(dna1@[j], dna2@[j], selector@[j]),
    {
        new_dna[i] = combine_dna(dna1[i], dna2[i], selector[i]);
    }
    assert(new_dna@ =~= combined(dna1@, dna2@, selector@));
    new_dna
}

} // verus!
