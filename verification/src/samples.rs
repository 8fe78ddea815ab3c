//! Sample data types that the derive helpers are exercised on.

use vstd::prelude::*;

verus! {

/// A log level, some levels carrying details.
#[derive(Clone, Debug)]
pub enum LogLevel<'a, T: 'static> {
    Trace,
    Debug,
    Info,
    Warn(String, i32),
    Error { message: String, code: u32, extra: &'a T },
}

} // verus!
