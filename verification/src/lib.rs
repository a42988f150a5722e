//! A token mint whose minting authority is a program-derived address.
//!
//! The crate models the ledger that holds the mint and its holder accounts,
//! the token accounting module that owns their contents, and the program that
//! creates the mint and mints into a holder's account by presenting, on each
//! call, the evidence that it speaks for the mint's authority.

pub mod address;
pub mod laws;
pub mod program;
pub mod store;
pub mod token;

pub use program::{create_mint, mint_tokens, CreateMint, MintTokens};
