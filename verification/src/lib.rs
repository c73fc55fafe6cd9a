//! An interactive prompting toolkit: acceptance policies that decide whether
//! a raw line of input is taken, and the loop that keeps asking until one is.
pub mod policy;
pub mod menu;
pub mod querier;
