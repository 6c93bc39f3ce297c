//! Runtime registration payloads submitted by target processes.
//!
//! A target process registers itself once its local IPC endpoint is ready;
//! the registry answers each registration with an acknowledgement.

use vstd::prelude::*;

use crate::error::{opt_view, RelayResult};
use crate::registry::TargetProcessRegistration;

verus! {

/// A command that a target declares it can execute.
#[derive(Debug, Clone, PartialEq, Eq)]
pub struct SupportedCommand {
    /// `name` is the wire command name.
    pub name: String,
    /// `idempotent` says whether the command may be retried automatically.
    pub idempotent: bool,
    /// `timeout_seconds` is how long the relay waits for the result.
    pub timeout_seconds: u64,
}

impl SupportedCommand {
    /// Creates a supported command declaration.
    pub fn new(name: &str, idempotent: bool, timeout_seconds: u64) -> (r: Self)
        ensures
            r.name@ == name@,
            r.idempotent == idempotent,
            r.timeout_seconds == timeout_seconds,
    {
        SupportedCommand { name: name.to_owned(), idempotent, timeout_seconds }
    }

    /// An equal copy of the declaration.
    pub fn duplicate(&self) -> (r: Self)
        ensures
            r == *self,
    {
        SupportedCommand { name: self.name.clone(), idempotent: self.idempotent, timeout_seconds: self.timeout_seconds }
    }
}

/// An equal copy of a list of command declarations.
pub fn duplicate_commands(commands: &Vec<SupportedCommand>) -> (r: Vec<SupportedCommand>)
    ensures
        r@ == commands@,
{
    let mut out: Vec<SupportedCommand> = Vec::new();
    let n = commands.len();
    let mut i: usize = 0;
    while i < n
        invariant
            n == commands@.len(),
            i <= n,
            out@ == commands@.subrange(0, i as int),
        decreases n - i,
    {
        out.push(commands[i].duplicate());
        assert(commands@.subrange(0, i + 1) =~= commands@.subrange(0, i as int).push(commands@[i as int]));
        i = i + 1;
    }
    assert(commands@.subrange(0, n as int) =~= commands@);
    out
}

/// An equal copy of an optional text.
pub fn duplicate_opt_string(o: &Option<String>) -> (r: Option<String>)
    ensures
        r == *o,
{
    match o {
        Some(s) => Some(s.clone()),
        None => None,
    }
}

/// The registration payload of one target process.
#[derive(Debug, Clone, PartialEq, Eq)]
pub struct RegistrationRequest {
    /// `target_id` is the stable target process identity.
    pub target_id: String,
    /// `display_name` is the name the dashboard shows to operators.
    pub display_name: String,
    /// `ipc_path` is the Unix domain socket path the target already opened.
    pub ipc_path: String,
    /// `lease_seconds` is the validity window of this registration.
    pub lease_seconds: u64,
    /// `supported_commands` is the command set the target declares executable.
    pub supported_commands: Vec<SupportedCommand>,
}

impl RegistrationRequest {
    /// Creates a target process registration request.
    pub fn new(
        target_id: &str,
        display_name: &str,
        ipc_path: &str,
        lease_seconds: u64,
        supported_commands: Vec<SupportedCommand>,
    ) -> (r: Self)
        ensures
            r.target_id@ == target_id@,
            r.display_name@ == display_name@,
            r.ipc_path@ == ipc_path@,
            r.lease_seconds == lease_seconds,
            r.supported_commands == supported_commands,
    {
        RegistrationRequest {
            target_id: target_id.to_owned(),
            display_name: display_name.to_owned(),
            ipc_path: ipc_path.to_owned(),
            lease_seconds,
            supported_commands,
        }
    }
}

/// The acknowledgement written back to a registering target.
#[derive(Debug, Clone, PartialEq, Eq)]
pub struct RegistrationAck {
    /// `ok` says whether the registration entered the registry.
    pub ok: bool,
    /// `target_id` is the registered target, on success.
    pub target_id: Option<String>,
    /// `status` is `registered`, on success.
    pub status: Option<String>,
    /// `error_code` is the refusal code, on failure.
    pub error_code: Option<String>,
    /// `error_message` is the refusal message, on failure.
    pub error_message: Option<String>,
    /// `retryable` says whether the target may retry.
    pub retryable: bool,
}

/// Builds the acknowledgement for a registration outcome.
pub fn registration_ack(result: &RelayResult<TargetProcessRegistration>) -> (r: RegistrationAck)
    ensures
        match result {
            Ok(reg) => r.ok && r.target_id == Some(reg.target_id) && opt_view(r.status) == Some("registered"@)
                && r.error_code is None && r.error_message is None && !r.retryable,
            Err(e) => !r.ok && r.target_id is None && r.status is None && r.error_code == Some(e.code)
                && r.error_message == Some(e.message) && r.retryable == e.retryable,
        },
{
    match result {
        Ok(registration) => RegistrationAck {
            ok: true,
            target_id: Some(registration.target_id.clone()),
            status: Some("registered".to_owned()),
            error_code: None,
            error_message: None,
            retryable: false,
        },
        Err(error) => RegistrationAck {
            ok: false,
            target_id: None,
            status: None,
            error_code: Some(error.code.clone()),
            error_message: Some(error.message.clone()),
            retryable: error.retryable,
        },
    }
}

} // verus!
