//! A vault of single-use numeric codes: it makes codes or takes them in from
//! an upload, keeps them encrypted, reserves them for a limited time and
//! gives each out once.
//!
//! `cipher` encrypts and decrypts code values. `pincode` holds the codes'
//! model, the store of codes and the log of reservations, the steps by
//! which a code is reserved and redeemed, and the assembly of uploads into
//! lines. `application` holds the configuration and what is settled of the
//! directory service and the document store before either is reached.
//! `vault` holds the messages that callers exchange with the vault.

pub mod application;
pub mod cipher;
pub mod pincode;
pub mod text;
pub mod vault;
