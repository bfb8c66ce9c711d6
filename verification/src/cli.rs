//! The command-line configuration of the host program, and the
//! validated plan of work it implies.
//!
//! Parsing the raw arguments is the host's business; the host hands
//! over this plain configuration, and `plan` decides, exactly, what the
//! run should do: the only accepted value of the `generate` option is
//! `random`, anything else is rejected, and the run stays in
//! command-line mode when it cleared or generated anything.

use vstd::prelude::*;
use vstd::string::StrSliceExecFns;

verus! {

/// The options given on the command line: an optional generation mode
/// and whether to clear the feature store.
pub struct Cli {
    pub generate: Option<String>,
    pub clear: bool,
}

/// The one rejection the options can earn: a `generate` value other
/// than `random`.
#[derive(Debug, PartialEq, Eq, Structural)]
pub enum CliArgError {
    InvalidGenerate,
}

/// The validated work of a run.
#[derive(Debug, PartialEq, Eq, Structural)]
pub struct CliPlan {
    /// Clear the feature store first.
    pub clear: bool,
    /// Fill the feature store with randomly drawn features.
    pub generate_random: bool,
    /// Whether the run is a pure command-line run, with no interactive
    /// session after it.
    pub cli_mode: bool,
}

/// Whether the string reads exactly `random`.
fn is_random(s: &str) -> (r: bool)
    ensures
        r == (s@ == "random"@),
{
    proof {
        reveal_strlit("random");
    }
    if s.unicode_len() != 6 {
        proof {
            assert(s@ != "random"@);
        }
        return false;
    }
    let r = s.get_char(0) == 'r' && s.get_char(1) == 'a' && s.get_char(2) == 'n' && s.get_char(3)
        == 'd' && s.get_char(4) == 'o' && s.get_char(5) == 'm';
    proof {
        if r {
            assert(s@ =~= "random"@);
        }
    }
    r
}

impl Cli {
    /// Decides what the run does: the `clear` flag passes through, a
    /// `generate` of `random` asks for random features, any other
    /// `generate` value is rejected, and the run is a command-line run
    /// exactly when it clears or generates.
    pub fn plan(&self) -> (r: Result<CliPlan, CliArgError>)
        ensures
            r is Err <==> (self.generate matches Some(s) && s@ != "random"@),
            r matches Ok(p) ==> p.clear == self.clear && p.generate_random == (
            self.generate matches Some(s) && s@ == "random"@) && p.cli_mode == (self.clear
                || p.generate_random),
    {
        match &self.generate {
            None => Ok(CliPlan { clear: self.clear, generate_random: false, cli_mode: self.clear }),
            Some(s) => {
                if is_random(s.as_str()) {
                    Ok(CliPlan { clear: self.clear, generate_random: true, cli_mode: true })
                } else {
                    Err(CliArgError::InvalidGenerate)
                }
            },
        }
    }
}

} // verus!
