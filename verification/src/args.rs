use vstd::prelude::*;

verus! {

/// The parsed command line: one subcommand per invocation. The outward
/// argument parser constructs this from the process arguments.
pub struct Cli {
    pub command: Commands,
}

/// The subcommands the tool offers, with the values each carries.
pub enum Commands {
    Add { task: String },
    List,
    Complete { id: i64 },
    Remove { id: i64 },
    Export { file: String },
    Import { file: String, dry_run: bool },
}

} // verus!
