//! A dictionary search for the password protecting an encrypted archive's
//! first stored entry. Candidate passwords are read from a dictionary,
//! grouped into bounded batches, and each candidate is probed against the
//! archive; the first candidate that both decrypts the entry and yields
//! content that drains without error is the verified password.

pub mod batch;
pub mod probe;
pub mod scan;
pub mod search;
pub mod slot;
