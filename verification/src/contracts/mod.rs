//! The reference contracts: what each keeps, and what its functions do to it.
//!
//! A contract here is its state. Addresses are strkeys. The authorisation of a caller, and the
//! transfer of tokens that the escrow asks for, belong to the host that runs the contract.
pub mod counter;
pub mod escrow;
pub mod nft;
pub mod token;
