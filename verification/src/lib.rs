pub mod address;
pub mod error;
pub mod str_map;
pub mod sums;
pub mod token;
pub mod shared_account;
pub mod proxy;
pub mod greeting;
pub mod custody;
