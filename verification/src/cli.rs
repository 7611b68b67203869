//! The pipeline's subcommands, parsed from the command word the caller
//! received.

use vstd::prelude::*;
use crate::keys::str_eq;

verus! {

/// What the pipeline is asked to do: announce the start of a workflow,
/// upgrade the build tool, or run a full deployment.
pub enum Commands {
    Start,
    UpgradeHugo,
    Run,
}

impl Commands {
    /// Parse the subcommand word: `start`, `upgrade-hugo` or `run`;
    /// anything else is rejected.
    pub fn init(arg: &str) -> (r: Option<Commands>)
        ensures
            r == Some(Commands::Start) <==> arg@ == "start"@,
            r == Some(Commands::UpgradeHugo) <==> arg@ == "upgrade-hugo"@,
            r == Some(Commands::Run) <==> arg@ == "run"@,
            r is None <==> (arg@ != "start"@ && arg@ != "upgrade-hugo"@ && arg@ != "run"@),
    {
        proof {
            reveal_strlit("start");
            reveal_strlit("upgrade-hugo");
            reveal_strlit("run");
            assert("start"@.len() == 5);
            assert("upgrade-hugo"@.len() == 12);
            assert("run"@.len() == 3);
        }
        if str_eq(arg, "start") {
            Some(Commands::Start)
        } else if str_eq(arg, "upgrade-hugo") {
            Some(Commands::UpgradeHugo)
        } else if str_eq(arg, "run") {
            Some(Commands::Run)
        } else {
            None
        }
    }

    /// Whether this is the start announcement.
    pub fn is_start(&self) -> (r: bool)
        ensures
            r == (self is Start),
    {
        if let Commands::Start = self {
            true
        } else {
            false
        }
    }

    /// Whether this is a full deployment run.
    pub fn is_run(&self) -> (r: bool)
        ensures
            r == (self is Run),
    {
        if let Commands::Run = self {
            true
        } else {
            false
        }
    }
}

} // verus!
