//! Command-line arguments of the relay binary: `--config <path>` (required)
//! and `--check` (validate the configuration and exit).

use vstd::prelude::*;

use crate::error::{err_info, rv, ErrorInfo, RelayError, RelayResult};

verus! {

/// The parsed command line.
#[derive(Debug, Clone, PartialEq, Eq)]
pub struct CliArgs {
    /// `config_path` is the path of the relay's YAML configuration.
    pub config_path: String,
    /// `check_only` says to validate the configuration and exit.
    pub check_only: bool,
}

/// The error for `--config` without a value, or without `--config` at all.
pub open spec fn missing_config(message: Seq<char>) -> ErrorInfo {
    err_info("missing_config_arg"@, "args"@, None, message, false)
}

/// Reads the arguments from position `i` on, with the configuration path and
/// check flag seen so far; a later `--config` replaces an earlier one.
pub open spec fn scan_args(args: Seq<String>, i: int, config: Option<Seq<char>>, check: bool) -> Result<
    (Option<Seq<char>>, bool),
    ErrorInfo,
>
    decreases args.len() - i,
{
    if i < 0 || i >= args.len() {
        Ok((config, check))
    } else if args[i]@ == "--config"@ {
        if i + 1 < args.len() {
            scan_args(args, i + 2, Some(args[i + 1]@), check)
        } else {
            Err(missing_config("--config requires a path"@))
        }
    } else if args[i]@ == "--check"@ {
        scan_args(args, i + 1, config, true)
    } else {
        Err(err_info("unknown_arg"@, "args"@, None, "unknown argument: "@ + args[i]@, false))
    }
}

/// The meaning of a command line: the configuration path and check flag.
pub open spec fn cli_outcome(args: Seq<String>) -> Result<(Seq<char>, bool), ErrorInfo> {
    match scan_args(args, 0, None, false) {
        Err(e) => Err(e),
        Ok((None, _)) => Err(missing_config("--config is required"@)),
        Ok((Some(path), check)) => Ok((path, check)),
    }
}

/// Parses the arguments that follow the program name.
pub fn parse_cli_args(args: &Vec<String>) -> (r: RelayResult<CliArgs>)
    ensures
        match cli_outcome(args@) {
            Ok((path, check)) => r matches Ok(a) && a.config_path@ == path && a.check_only == check,
            Err(e) => rv(r) == Err::<CliArgs, ErrorInfo>(e),
        },
{
    let n = args.len();
    let mut config_path: Option<String> = None;
    let mut check_only = false;
    let mut i: usize = 0;
    while i < n
        invariant
            n == args@.len(),
            i <= n + 1,
            scan_args(args@, 0, None, false) == scan_args(args@, i as int, match config_path {
                Some(p) => Some(p@),
                None => None,
            }, check_only),
        decreases n + 1 - i,
    {
        let arg = args[i].as_str();
        if crate::text::str_eq(arg, "--config") {
            if i + 1 < n {
                config_path = Some(args[i + 1].clone());
                i = i + 2;
            } else {
                return Err(RelayError::new("missing_config_arg", "args", None, "--config requires a path", false));
            }
        } else if crate::text::str_eq(arg, "--check") {
            check_only = true;
            i = i + 1;
        } else {
            let message = crate::text::concat_str("unknown argument: ", arg);
            return Err(RelayError::new("unknown_arg", "args", None, message.as_str(), false));
        }
    }
    match config_path {
        Some(path) => Ok(CliArgs { config_path: path, check_only }),
        None => Err(RelayError::new("missing_config_arg", "args", None, "--config is required", false)),
    }
}

} // verus!
