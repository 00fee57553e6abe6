//! An over-collateralized stable-token issuance engine.
//!
//! Users lock approved collateral assets, mint a pegged token against that
//! collateral up to a safety limit, and third parties may liquidate
//! under-collateralized positions for a bonus. The engine tracks per-user
//! collateral and debt ledgers, computes health factors from oracle price
//! quotes, and enforces solvency as a post-condition of every mutating
//! operation.
//!
//! External collaborators (the pegged token's own ledger, the collateral
//! asset transfer primitive, and the price oracle) are represented at the
//! interface boundary: operations take the outcomes of those external calls
//! as plain arguments and the contracts state what holds for every outcome.

pub mod arith;
pub mod coin;
pub mod engine;
pub mod oracle;
pub mod params;
