//! Rebuilds rollup block records from the calldata of a "commit blocks" call.
//!
//! The argument list is decoded against a fixed ABI schema into a token tree,
//! and the tree is then walked to produce one record per committed block.
pub mod abi;
pub mod commit;
