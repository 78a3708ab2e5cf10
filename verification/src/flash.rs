//! The one-time notice shown after a redirect.
use vstd::prelude::*;

use crate::text::string_of;

verus! {

/// A notice: its level (`ok` or `err`) and its message.
#[derive(Debug, Clone)]
pub struct Flash {
    pub level: String,
    pub message: String,
}

impl Flash {
    /// A notice that something went well.
    pub fn ok(message: &str) -> (r: Self)
        ensures
            r.level@ == "ok"@,
            r.message@ == message@,
    {
        Flash { level: string_of("ok"), message: string_of(message) }
    }

    /// A notice that something failed.
    pub fn err(message: &str) -> (r: Self)
        ensures
            r.level@ == "err"@,
            r.message@ == message@,
    {
        Flash { level: string_of("err"), message: string_of(message) }
    }
}

} // verus!
