//! The contact record and the record-level operations.

use crate::phone::accepts;
use crate::phone::add_country_prefix;
use crate::phone::clean_phone;
use crate::phone::infer_country;
use crate::phone::is_valid_phone;
use crate::phone::normalize_phone;
use crate::phone::remove_dialing_prefix;
use crate::phone::remove_special_chars;
use crate::phone::trim_ws;
use vstd::prelude::*;

verus! {

/// One row of the contact table.
#[derive(Debug)]
pub struct Record {
    /// The mobile phone number.
    pub ph: String,
    pub name: String,
    pub count: u16,
}

/// The mathematical image of a record: each field replaced by its view.
#[verifier::ext_equal]
pub struct RecordView {
    pub ph: Seq<char>,
    pub name: Seq<char>,
    pub count: u16,
}

impl View for Record {
    type V = RecordView;

    open spec fn view(&self) -> RecordView {
        RecordView { ph: self.ph@, name: self.name@, count: self.count }
    }
}

impl DeepView for Record {
    type V = RecordView;

    open spec fn deep_view(&self) -> RecordView {
        self@
    }
}

impl Record {
    /// Builds a record from borrowed field values.
    pub fn new(ph: &str, name: &str, count: u16) -> (r: Record)
        ensures
            r@.ph == ph@,
            r@.name == name@,
            r@.count == count,
    {
        Record { ph: ph.to_owned(), name: name.to_owned(), count }
    }
}

impl Clone for Record {
    fn clone(&self) -> (r: Self)
        ensures
            r@ == self@,
    {
        Record { ph: self.ph.clone(), name: self.name.clone(), count: self.count }
    }
}

/// The cleanup half of the normalization: trims the phone field, drops a
/// single leading `"00"` or `"0"`, strips the special characters and trims
/// again.  The other two fields are untouched.
pub fn remove_bad_chars(record: Record) -> (r: Record)
    ensures
        r@.ph == clean_phone(record@.ph),
        r@.name == record@.name,
        r@.count == record@.count,
{
    let t1 = trim_ws(record.ph.as_str());
    let t2 = remove_dialing_prefix(t1.as_str());
    let t3 = remove_special_chars(t2.as_str());
    let ph = trim_ws(t3.as_str());
    Record { ph, name: record.name, count: record.count }
}

/// The inference half of the normalization: prepends the country code
/// inferred from the first character of the phone field.  The other two
/// fields are untouched.
pub fn standardize_ph(record: Record) -> (r: Record)
    ensures
        r@.ph == infer_country(record@.ph),
        r@.name == record@.name,
        r@.count == record@.count,
{
    let ph = add_country_prefix(record.ph.as_str());
    Record { ph, name: record.name, count: record.count }
}

/// Normalizes the record's phone field and tests it against the validator.
/// Exactly the accepted records come back, with the phone field rewritten to
/// its normalization and the name and count fields unchanged.
pub fn is_good_ph(record: Record) -> (res: Option<Record>)
    ensures
        (match res {
            Some(r) => accepts(record@.ph) && r@.ph == normalize_phone(record@.ph)
                && r@.name == record@.name && r@.count == record@.count,
            None => !accepts(record@.ph),
        }),
{
    let r = remove_bad_chars(record);
    let r = standardize_ph(r);
    if is_valid_phone(r.ph.as_str()) {
        Some(r)
    } else {
        None
    }
}

} // verus!
