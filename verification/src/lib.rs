pub mod boundary;
pub mod clients;
pub mod error;
pub mod notifier;
pub mod surface;
pub mod worker;
