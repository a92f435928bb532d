//! Cleanup and validation of mobile phone numbers in contact records.
//!
//! A record holds a phone string, a name and a count.  The phone string is
//! normalized (whitespace trimmed, a domestic dialing prefix of `"00"` or
//! `"0"` dropped, a fixed set of punctuation characters removed, and a
//! country code of `"20"` or `"966"` inferred from the first digit) and then
//! validated: an accepted phone is one of the two country codes followed by
//! 9 to 11 digits.  Rejected records are filtered out of the row stream.

pub mod phone;
pub mod pipeline;
pub mod record;
