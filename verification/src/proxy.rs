//! What the command line starts: the `run` subcommand, its argument, and
//! the startup decisions the runner reads. The runtime, the signals and
//! the sockets live outside the library.

use vstd::prelude::*;

verus! {

/// The argument of the `run` subcommand.
#[derive(Clone, Debug)]
pub struct Bootstrap {
    /// The configuration directory.
    pub conf: String,
}

/// The command line's subcommands.
#[derive(Clone, Debug)]
pub enum Commands {
    Run(Bootstrap),
}

/// The configuration directory used when none is named.
pub fn default_conf_dir() -> (r: String)
    ensures
        r@ == "configs"@,
{
    String::from_str("configs")
}

/// The log level derived from the `debug` flag, where the environment
/// sets no filter of its own.
pub fn log_level(debug: bool) -> (r: String)
    ensures
        debug ==> r@ == "trace"@,
        !debug ==> r@ == "info"@,
{
    if debug {
        String::from_str("trace")
    } else {
        String::from_str("info")
    }
}

} // verus!
