pub mod group;
pub mod ledger;
