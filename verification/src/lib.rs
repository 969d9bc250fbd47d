//! A password store in the format of `pass`, the standard unix password
//! manager: a directory tree of OpenPGP-encrypted `.gpg` files, with
//! `.gpg-id` files naming the recipients.

pub mod error;
pub mod generate;
pub mod ids;
pub mod listing;
pub mod ops;
pub mod paths;
pub mod secret;
pub mod sort;
pub mod store;
pub mod text;
