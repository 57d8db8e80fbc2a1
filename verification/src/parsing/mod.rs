//! The command grammar and the date formats of the wire and of the store.

use vstd::prelude::*;

pub mod fetch;
pub mod imap;

verus! {

/// Internal date as the store writes it.
pub const DB_DATETIME_FMT: &'static str = "%F %T%.3f%:z";

/// Calendar date as the store compares it.
pub const DB_DATE_FMT: &'static str = "%Y-%m-%d";

/// Internal date on the wire (APPEND, INTERNALDATE).
pub const IMAP_DATETIME_FMT: &'static str = "%d-%b-%Y %T %z";

/// Date argument of a SEARCH key.
pub const SEARCH_DATE_FMT: &'static str = "%d-%b-%Y";

/// Calendar date at the start of a `Date:` header value, the weekday left out.
pub const MAIL_NAIVE_DATE_FMT: &'static str = "%d %b %Y";

} // verus!
