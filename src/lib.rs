//! Per-device throttling of account-recovery actions: a store of device
//! states and a decision engine with two independent policies, one for
//! initial reset requests and one for code resends.
pub mod device;
pub mod laws;
pub mod policy;
pub mod store;
