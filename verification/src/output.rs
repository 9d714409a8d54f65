//! Output format of the JSON written to stdout: compact by default, pretty
//! with `--pretty`.

use vstd::prelude::*;

verus! {

/// How JSON is printed.
#[derive(Debug, Clone, Copy, PartialEq, Eq, Structural)]
pub enum Format {
    Compact,
    Pretty,
}

impl Format {
    /// `Pretty` when the flag is set, `Compact` otherwise.
    pub fn from_pretty_flag(pretty: bool) -> (res: Format)
        ensures
            res == (if pretty { Format::Pretty } else { Format::Compact }),
    {
        if pretty {
            Format::Pretty
        } else {
            Format::Compact
        }
    }
}

} // verus!
