pub mod laws;
pub mod pallet;
pub mod records;
pub mod store;
