//! A ledger of breedable collectibles: minting, transfer under a staking
//! requirement, and breeding with a recorded genealogy.

pub mod dna;
pub mod randomness;
pub mod genealogy;
pub mod pallet;
pub mod laws;
