//! Names of result files, and the error of exporters.

use vstd::prelude::*;

use crate::text::{decimal, decimal_string, push_all, chars_of, string_of};

verus! {

/// The default name of a results file: `data<timestamp>.<ext>`.
pub open spec fn results_filename(ext: Seq<char>, timestamp: u128) -> Seq<char> {
    "data"@ + decimal(timestamp as nat) + "."@ + ext
}

/// The default name of a results file for the time `timestamp`, in
/// microseconds.
pub fn default_results_filename(ext: &str, timestamp: u128) -> (s: String)
    ensures
        s@ == results_filename(ext@, timestamp),
{
    let mut v = chars_of("data");
    push_all(&mut v, &chars_of(decimal_string(timestamp).as_str()));
    push_all(&mut v, &chars_of("."));
    push_all(&mut v, &chars_of(ext));
    string_of(v)
}

/// An exporter error.
#[derive(Debug)]
pub struct ExporterError {
    pub message: String,
}

impl ExporterError {
    /// An error with the given message.
    pub fn boxed(message: String) -> (e: Self)
        ensures
            e.message@ == message@,
    {
        ExporterError { message }
    }
}

} // verus!
