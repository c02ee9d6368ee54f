//! Records of apply and rollback events.
//!
//! Recording is best effort: callers record events but do not fail their
//! main operation when recording fails.

use vstd::prelude::*;

verus! {

/// Default on-disk location of the history database.
pub const DEFAULT_PATH: &'static str = "/var/lib/gli/history.db";

/// A recorded action against a module.
#[derive(Debug, Clone, PartialEq, Eq)]
pub struct Event {
    pub timestamp: String,
    /// "apply", "rollback", etc.
    pub action: String,
    pub module: String,
    pub summary: String,
    pub ok: bool,
}

/// The database column value for an outcome.
pub fn ok_column(ok: bool) -> (r: i64)
    ensures
        r == (if ok {
            1i64
        } else {
            0i64
        }),
{
    if ok {
        1
    } else {
        0
    }
}

/// The outcome a database column value stands for: anything but 0 is success.
pub fn ok_of_column(v: i64) -> (r: bool)
    ensures
        r == (v != 0),
{
    v != 0
}

} // verus!
