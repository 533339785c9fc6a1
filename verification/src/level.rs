//! Ordered severity levels for events and filter thresholds.

use vstd::prelude::*;

verus! {

/// Severity of an event, from finest (`Trace`) to most severe (`Error`).
#[derive(Clone, Copy, Debug, PartialEq, Eq, Structural)]
pub enum Level {
    Trace,
    Debug,
    Info,
    Warn,
    Error,
}

impl Level {
    /// Numeric severity rank: a higher rank is more severe.
    pub open spec fn severity(self) -> nat {
        match self {
            Level::Trace => 0,
            Level::Debug => 1,
            Level::Info => 2,
            Level::Warn => 3,
            Level::Error => 4,
        }
    }

    /// Executable severity rank.
    pub fn rank(&self) -> (r: u8)
        ensures
            r as nat == self.severity(),
    {
        match self {
            Level::Trace => 0,
            Level::Debug => 1,
            Level::Info => 2,
            Level::Warn => 3,
            Level::Error => 4,
        }
    }

    /// True iff `self` is at least as severe as the threshold `min`:
    /// an `Error` event passes a `Warn` threshold, a `Debug` event does not.
    pub fn passes(&self, min: &Level) -> (r: bool)
        ensures
            r == (self.severity() >= min.severity()),
    {
        self.rank() >= min.rank()
    }

    /// Uppercase display name, as conventionally printed in log lines.
    pub open spec fn display_seq(self) -> Seq<char> {
        match self {
            Level::Trace => seq!['T', 'R', 'A', 'C', 'E'],
            Level::Debug => seq!['D', 'E', 'B', 'U', 'G'],
            Level::Info => seq!['I', 'N', 'F', 'O'],
            Level::Warn => seq!['W', 'A', 'R', 'N'],
            Level::Error => seq!['E', 'R', 'R', 'O', 'R'],
        }
    }

    /// Renders the uppercase display name.
    pub fn display(&self) -> (r: String)
        ensures
            r@ == self.display_seq(),
    {
        match self {
            Level::Trace => {
                proof {
                    reveal_strlit("TRACE");
                }
                let r = String::from_str("TRACE");
                proof {
                    assert(r@ =~= self.display_seq());
                }
                r
            },
            Level::Debug => {
                proof {
                    reveal_strlit("DEBUG");
                }
                let r = String::from_str("DEBUG");
                proof {
                    assert(r@ =~= self.display_seq());
                }
                r
            },
            Level::Info => {
                proof {
                    reveal_strlit("INFO");
                }
                let r = String::from_str("INFO");
                proof {
                    assert(r@ =~= self.display_seq());
                }
                r
            },
            Level::Warn => {
                proof {
                    reveal_strlit("WARN");
                }
                let r = String::from_str("WARN");
                proof {
                    assert(r@ =~= self.display_seq());
                }
                r
            },
            Level::Error => {
                proof {
                    reveal_strlit("ERROR");
                }
                let r = String::from_str("ERROR");
                proof {
                    assert(r@ =~= self.display_seq());
                }
                r
            },
        }
    }
}

} // verus!
