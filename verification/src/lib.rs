//! Verified core of the FamTrust Vault wallet: the catalogue of the
//! `FamilyTrust` contract functions, the parsing and formatting of what the
//! user types and what the chain returns, the wallet store and the decisions
//! that the screens take.

pub mod text;
pub mod functions;
pub mod eth;
pub mod calls;
pub mod wallet;
pub mod pages;
