//! Active registrations of target processes and their IPC connection state.
//!
//! Registration only places a target in the visible list; IPC connects only
//! after an authenticated session binds the target.

use vstd::prelude::*;

use crate::clock::{after_seconds, time_in_range, Timestamp};
use crate::command::{wire_name_of, ControlCommandName};
use crate::config::{is_absolute_path, path_allowed, RegistrationPolicy};
use crate::error::{err_info, opt_view, rv, ErrorInfo, RelayError, RelayResult};
use crate::registration::{duplicate_commands, duplicate_opt_string, RegistrationRequest, SupportedCommand};
use crate::text::{concat_str, is_blank};

verus! {

/// The state of a registration lease.
#[derive(Debug, Clone, Copy, PartialEq, Eq, Structural)]
pub enum RegistrationState {
    /// The lease is still valid.
    Active,
    /// The payload did not enter the active table.
    Rejected,
    /// The lease has expired.
    Expired,
}

/// The lifecycle between the relay and a target's IPC.
#[derive(Debug, Clone, Copy, PartialEq, Eq, Structural)]
pub enum ConnectionState {
    /// The target only entered the registry; IPC has not connected.
    Registered,
    /// The target has no active IPC connection.
    Disconnected,
    /// An authenticated session is connecting IPC.
    Connecting,
    /// IPC handshake and state read succeeded.
    Connected,
    /// A retry is in progress after a connection failure.
    Reconnecting,
    /// Target IPC is currently unreachable.
    Unavailable,
    /// The registration lease has expired.
    Expired,
}

/// The active record stored by the registry.
#[derive(Debug, Clone, PartialEq, Eq)]
pub struct TargetProcessRegistration {
    pub target_id: String,
    pub display_name: String,
    pub ipc_path: String,
    /// `ipc_path_key` is the normalized key used to detect path conflicts.
    pub ipc_path_key: String,
    /// `owner_identity` is the local process identity that registered.
    pub owner_identity: String,
    pub lease_seconds: u64,
    pub supported_commands: Vec<SupportedCommand>,
    /// `registered_at` is when the record first entered the registry.
    pub registered_at: Timestamp,
    /// `renewed_at` is the latest renewal time.
    pub renewed_at: Timestamp,
    /// `expires_at` is when the current lease ends.
    pub expires_at: Timestamp,
    pub registration_state: RegistrationState,
    pub last_rejection: Option<String>,
}

/// The abstract content of a registration.
pub struct RegistrationView {
    pub target_id: Seq<char>,
    pub display_name: Seq<char>,
    pub ipc_path: Seq<char>,
    pub ipc_path_key: Seq<char>,
    pub owner_identity: Seq<char>,
    pub lease_seconds: u64,
    pub supported_commands: Seq<SupportedCommand>,
    pub registered_at: Timestamp,
    pub renewed_at: Timestamp,
    pub expires_at: Timestamp,
    pub registration_state: RegistrationState,
    pub last_rejection: Option<Seq<char>>,
}

impl View for TargetProcessRegistration {
    type V = RegistrationView;

    open spec fn view(&self) -> RegistrationView {
        RegistrationView {
            target_id: self.target_id@,
            display_name: self.display_name@,
            ipc_path: self.ipc_path@,
            ipc_path_key: self.ipc_path_key@,
            owner_identity: self.owner_identity@,
            lease_seconds: self.lease_seconds,
            supported_commands: self.supported_commands@,
            registered_at: self.registered_at,
            renewed_at: self.renewed_at,
            expires_at: self.expires_at,
            registration_state: self.registration_state,
            last_rejection: opt_view(self.last_rejection),
        }
    }
}

/// The IPC connection state of one target.
#[derive(Debug, Clone, PartialEq, Eq)]
pub struct TargetProcessConnection {
    pub target_id: String,
    pub ipc_path: String,
    pub state: ConnectionState,
    pub last_error: Option<String>,
    /// `last_state_generation` is the state generation already sent.
    pub last_state_generation: Option<u64>,
    /// `last_sequence` is the last forwarded event sequence.
    pub last_sequence: Option<u64>,
    pub connected_at: Option<Timestamp>,
    pub updated_at: Timestamp,
}

/// The target summary sent to the dashboard in the first session payload.
#[derive(Debug, Clone, PartialEq, Eq)]
pub struct VisibleTarget {
    pub target_id: String,
    pub display_name: String,
    pub registration_state: RegistrationState,
    pub connection_state: ConnectionState,
    pub supported_commands: Vec<SupportedCommand>,
}

/// The abstract content of a target summary.
pub struct VisibleTargetView {
    pub target_id: Seq<char>,
    pub display_name: Seq<char>,
    pub registration_state: RegistrationState,
    pub connection_state: ConnectionState,
    pub supported_commands: Seq<SupportedCommand>,
}

impl View for VisibleTarget {
    type V = VisibleTargetView;

    open spec fn view(&self) -> VisibleTargetView {
        VisibleTargetView {
            target_id: self.target_id@,
            display_name: self.display_name@,
            registration_state: self.registration_state,
            connection_state: self.connection_state,
            supported_commands: self.supported_commands@,
        }
    }
}

/// The views of a list of summaries.
pub open spec fn visible_views(v: Seq<VisibleTarget>) -> Seq<VisibleTargetView> {
    v.map_values(|t: VisibleTarget| t@)
}

/// Connection state counts across targets.
#[derive(Debug, Clone, Copy, PartialEq, Eq, Structural)]
pub struct AvailabilitySummary {
    pub total: usize,
    /// Targets that have not yet bound a connection.
    pub registered: usize,
    pub connected: usize,
    pub reconnecting: usize,
    pub unavailable: usize,
    pub expired: usize,
}

/// One registered target: its registration and its connection.
#[derive(Debug, Clone, PartialEq, Eq)]
pub struct RegistryEntry {
    pub registration: TargetProcessRegistration,
    pub connection: TargetProcessConnection,
}

/// What the filesystem says about a registered IPC path: whether the path is
/// a symlink, and the canonical form of its parent directory (or the error
/// from canonicalizing it).
#[derive(Debug, PartialEq, Eq)]
pub struct IpcPathProbe {
    pub is_symlink: bool,
    pub canonical_parent: Result<String, String>,
}

/// What `Path::parent` yields for a path text.
pub uninterp spec fn path_parent_of(path: Seq<char>) -> Option<Seq<char>>;

/// What `Path::file_name` yields for a path text.
pub uninterp spec fn path_file_name_of(path: Seq<char>) -> Option<Seq<char>>;

/// What `Path::join(..).display().to_string()` yields for a base and a name.
pub uninterp spec fn path_join_of(base: Seq<char>, name: Seq<char>) -> Seq<char>;

/// Calls `Path::parent`, converting the parent to text. The contract claims
/// the result is the named function of the path.
#[verifier::external_body]
fn path_parent(path: &str) -> (r: Option<String>)
    ensures
        opt_view(r) == path_parent_of(path@),
{
    std::path::Path::new(path).parent().map(|p| p.to_string_lossy().into_owned())
}

/// Calls `Path::file_name`, converting the name to text. The contract claims
/// the result is the named function of the path.
#[verifier::external_body]
fn path_file_name(path: &str) -> (r: Option<String>)
    ensures
        opt_view(r) == path_file_name_of(path@),
{
    std::path::Path::new(path).file_name().map(|n| n.to_string_lossy().into_owned())
}

/// Calls `Path::join` and displays the joined path. The contract claims the
/// result is the named function of both texts.
#[verifier::external_body]
fn path_join(base: &str, name: &str) -> (r: String)
    ensures
        r@ == path_join_of(base@, name@),
{
    std::path::Path::new(base).join(name).display().to_string()
}

/// The outcome of normalizing an IPC path into its conflict key.
pub open spec fn key_outcome(path: Seq<char>, probe: IpcPathProbe) -> Result<Seq<char>, ErrorInfo> {
    if probe.is_symlink {
        Err(err_info("invalid_ipc_path"@, "registration"@, None, "ipc path must not be a symlink"@, false))
    } else if path_parent_of(path) is None {
        Err(err_info("invalid_ipc_path"@, "registration"@, None, "ipc path must have a parent directory"@, false))
    } else if path_file_name_of(path) is None {
        Err(err_info("invalid_ipc_path"@, "registration"@, None, "ipc path must have a file name"@, false))
    } else {
        match probe.canonical_parent {
            Err(e) => Err(err_info("invalid_ipc_path"@, "registration"@, None,
                "ipc path parent could not be normalized: "@ + e@, false)),
            Ok(p) => Ok(path_join_of(p@, path_file_name_of(path).unwrap())),
        }
    }
}

/// Normalizes an IPC path into the key used to detect path conflicts: the
/// canonical parent joined with the file name. Symlinks are refused.
pub fn normalize_ipc_path_key(path: &str, probe: &IpcPathProbe) -> (r: RelayResult<String>)
    ensures
        match key_outcome(path@, *probe) {
            Ok(k) => r matches Ok(key) && key@ == k,
            Err(e) => rv(r) == Err::<String, ErrorInfo>(e),
        },
{
    if probe.is_symlink {
        return Err(RelayError::new("invalid_ipc_path", "registration", None, "ipc path must not be a symlink", false));
    }
    if path_parent(path).is_none() {
        return Err(RelayError::new("invalid_ipc_path", "registration", None,
            "ipc path must have a parent directory", false));
    }
    let file_name = match path_file_name(path) {
        Some(name) => name,
        None => {
            return Err(RelayError::new("invalid_ipc_path", "registration", None,
                "ipc path must have a file name", false));
        },
    };
    match &probe.canonical_parent {
        Err(error) => {
            let message = concat_str("ipc path parent could not be normalized: ", error.as_str());
            Err(RelayError::new("invalid_ipc_path", "registration", None, message.as_str(), false))
        },
        Ok(parent) => Ok(path_join(parent.as_str(), file_name.as_str())),
    }
}

/// Every declared command has a name and a positive timeout.
pub open spec fn commands_valid(cs: Seq<SupportedCommand>) -> bool {
    forall|i: int| 0 <= i < cs.len() ==> !is_blank(#[trigger] cs[i].name@) && cs[i].timeout_seconds != 0
}

/// The refusal, if any, of a registration payload under a policy.
pub open spec fn request_refusal(policy: RegistrationPolicy, req: RegistrationRequest) -> Option<ErrorInfo> {
    if is_blank(req.target_id@) {
        Some(err_info("empty_target_id"@, "registration"@, None, "target id must not be empty"@, false))
    } else if !is_absolute_path(req.ipc_path@) {
        Some(err_info("relative_ipc_path"@, "registration"@, Some(req.target_id@), "IPC path must be absolute"@, false))
    } else if !path_allowed(policy, req.ipc_path@) {
        Some(err_info("ipc_path_not_allowed"@, "registration"@, Some(req.target_id@),
            "IPC path is outside allowed prefixes"@, false))
    } else if req.lease_seconds == 0 || req.lease_seconds > policy.max_lease_seconds {
        Some(err_info("invalid_lease_seconds"@, "registration"@, Some(req.target_id@),
            "lease seconds must be positive and must not exceed policy max"@, false))
    } else if !commands_valid(req.supported_commands@) {
        Some(err_info("unsupported_command_schema"@, "registration"@, Some(req.target_id@),
            "supported command name and timeout must be valid"@, false))
    } else {
        None
    }
}

/// A registration that a policy admits: it passed the payload checks, and its
/// lease ends `lease_seconds` after its last renewal.
pub open spec fn admissible(policy: RegistrationPolicy, reg: TargetProcessRegistration) -> bool {
    &&& !is_blank(reg.target_id@)
    &&& path_allowed(policy, reg.ipc_path@)
    &&& 1 <= reg.lease_seconds <= policy.max_lease_seconds
    &&& commands_valid(reg.supported_commands@)
    &&& reg.expires_at.unix_nanos == after_seconds(reg.renewed_at, reg.lease_seconds as int)
}

/// The identity of an entry.
pub open spec fn id_of(e: RegistryEntry) -> Seq<char> {
    e.registration.target_id@
}

/// Whether some entry has the identity.
pub open spec fn has_id(s: Seq<RegistryEntry>, id: Seq<char>) -> bool {
    exists|i: int| 0 <= i < s.len() && id_of(#[trigger] s[i]) == id
}

/// The position of the entry with the identity.
pub open spec fn index_of(s: Seq<RegistryEntry>, id: Seq<char>) -> int {
    choose|i: int| 0 <= i < s.len() && id_of(#[trigger] s[i]) == id
}

/// The invariant of the registry: identities and path keys are unique, each
/// connection belongs to its registration, and every registration is admissible.
pub open spec fn entries_wf(policy: RegistrationPolicy, s: Seq<RegistryEntry>) -> bool {
    &&& forall|i: int| 0 <= i < s.len() ==> (#[trigger] s[i]).connection.target_id@ == s[i].registration.target_id@
        && s[i].connection.ipc_path@ == s[i].registration.ipc_path@
    &&& forall|i: int, j: int| 0 <= i < s.len() && 0 <= j < s.len() && i != j
        ==> id_of(#[trigger] s[i]) != id_of(#[trigger] s[j])
    &&& forall|i: int, j: int| 0 <= i < s.len() && 0 <= j < s.len() && i != j
        ==> (#[trigger] s[i]).registration.ipc_path_key@ != (#[trigger] s[j]).registration.ipc_path_key@
    &&& forall|i: int| 0 <= i < s.len() ==> admissible(policy, #[trigger] s[i].registration)
}

/// The error for an unknown target.
pub open spec fn not_registered(id: Seq<char>, stage: Seq<char>) -> ErrorInfo {
    err_info("target_not_registered"@, stage, Some(id), "target is not registered"@, true)
}

/// The error for a target without a connection record.
pub open spec fn connection_not_registered(id: Seq<char>) -> ErrorInfo {
    err_info("target_not_registered"@, "registry"@, Some(id), "target connection is not registered"@, true)
}

/// Whether an entry's lease is active at `now`.
pub open spec fn is_active_at(e: RegistryEntry, now: Timestamp) -> bool {
    e.registration.registration_state == RegistrationState::Active
        && e.registration.expires_at.unix_nanos > now.unix_nanos
}

/// Whether an entry's active lease has run out at `now`.
pub open spec fn lease_lapsed(e: RegistryEntry, now: Timestamp) -> bool {
    e.registration.registration_state == RegistrationState::Active
        && e.registration.expires_at.unix_nanos <= now.unix_nanos
}

/// An entry after lease expiry at `now`.
pub open spec fn expired_entry(e: RegistryEntry, now: Timestamp) -> RegistryEntry {
    if lease_lapsed(e, now) {
        RegistryEntry {
            registration: TargetProcessRegistration { registration_state: RegistrationState::Expired, ..e.registration },
            connection: TargetProcessConnection { state: ConnectionState::Expired, updated_at: now, ..e.connection },
        }
    } else {
        e
    }
}

/// How many entries have lapsed at `now`.
pub open spec fn count_lapsed(s: Seq<RegistryEntry>, now: Timestamp) -> nat
    decreases s.len(),
{
    if s.len() == 0 {
        0
    } else {
        count_lapsed(s.drop_last(), now) + if lease_lapsed(s.last(), now) { 1nat } else { 0nat }
    }
}

/// How many entries are active at `now`.
pub open spec fn count_active(s: Seq<RegistryEntry>, now: Timestamp) -> nat
    decreases s.len(),
{
    if s.len() == 0 {
        0
    } else {
        count_active(s.drop_last(), now) + if is_active_at(s.last(), now) { 1nat } else { 0nat }
    }
}

/// The dashboard summary of an entry.
pub open spec fn visible_of(e: RegistryEntry) -> VisibleTargetView {
    VisibleTargetView {
        target_id: e.registration.target_id@,
        display_name: e.registration.display_name@,
        registration_state: e.registration.registration_state,
        connection_state: e.connection.state,
        supported_commands: e.registration.supported_commands@,
    }
}

/// The summaries of the entries active at `now`, in registry order.
pub open spec fn active_visible(s: Seq<RegistryEntry>, now: Timestamp) -> Seq<VisibleTargetView>
    decreases s.len(),
{
    if s.len() == 0 {
        Seq::empty()
    } else if is_active_at(s.last(), now) {
        active_visible(s.drop_last(), now).push(visible_of(s.last()))
    } else {
        active_visible(s.drop_last(), now)
    }
}

/// The summary category of a connection state: 0 registered, 1 connected,
/// 2 reconnecting, 3 unavailable, 4 expired.
pub open spec fn category(c: ConnectionState) -> int {
    match c {
        ConnectionState::Registered | ConnectionState::Disconnected | ConnectionState::Connecting => 0,
        ConnectionState::Connected => 1,
        ConnectionState::Reconnecting => 2,
        ConnectionState::Unavailable => 3,
        ConnectionState::Expired => 4,
    }
}

/// How many entries' connections fall in a category.
pub open spec fn count_category(s: Seq<RegistryEntry>, k: int) -> nat
    decreases s.len(),
{
    if s.len() == 0 {
        0
    } else {
        count_category(s.drop_last(), k) + if category(s.last().connection.state) == k { 1nat } else { 0nat }
    }
}

/// A registration built from a request.
pub open spec fn is_registration_for(
    reg: TargetProcessRegistration,
    req: RegistrationRequest,
    owner: String,
    key: Seq<char>,
    registered_at: Timestamp,
    now: Timestamp,
) -> bool {
    &&& reg.target_id == req.target_id
    &&& reg.display_name == req.display_name
    &&& reg.ipc_path == req.ipc_path
    &&& reg.ipc_path_key@ == key
    &&& reg.owner_identity == owner
    &&& reg.lease_seconds == req.lease_seconds
    &&& reg.supported_commands@ == req.supported_commands@
    &&& reg.registered_at == registered_at
    &&& reg.renewed_at == now
    &&& reg.expires_at.unix_nanos == after_seconds(now, req.lease_seconds as int)
    &&& reg.registration_state == RegistrationState::Active
    &&& reg.last_rejection is None
}

/// The connection of a target that has just registered.
pub open spec fn fresh_connection(req: RegistrationRequest, now: Timestamp) -> TargetProcessConnection {
    TargetProcessConnection {
        target_id: req.target_id,
        ipc_path: req.ipc_path,
        state: ConnectionState::Registered,
        last_error: None,
        last_state_generation: None,
        last_sequence: None,
        connected_at: None,
        updated_at: now,
    }
}

/// A connection after its target re-registered, with the path key changed or not.
pub open spec fn is_upserted_connection(
    c: TargetProcessConnection,
    old: TargetProcessConnection,
    req: RegistrationRequest,
    path_changed: bool,
    now: Timestamp,
) -> bool {
    &&& c.target_id == old.target_id
    &&& c.ipc_path == req.ipc_path
    &&& c.updated_at == now
    &&& c.last_state_generation == old.last_state_generation
    &&& c.last_sequence == old.last_sequence
    &&& if path_changed {
        &&& c.state == ConnectionState::Reconnecting
        &&& opt_view(c.last_error) == Some("ipc_path_changed"@)
        &&& c.connected_at is None
    } else {
        &&& c.state == old.state
        &&& c.last_error == old.last_error
        &&& c.connected_at == old.connected_at
    }
}

/// Whether another target already uses the key.
pub open spec fn key_taken(s: Seq<RegistryEntry>, id: Seq<char>, key: Seq<char>) -> bool {
    exists|j: int| 0 <= j < s.len() && id_of(#[trigger] s[j]) != id && s[j].registration.ipc_path_key@ == key
}

/// The refusal, if any, of a registration, before any change to the registry.
pub open spec fn register_refusal(
    policy: RegistrationPolicy,
    s: Seq<RegistryEntry>,
    req: RegistrationRequest,
    owner: String,
    probe: IpcPathProbe,
) -> Option<ErrorInfo> {
    match request_refusal(policy, req) {
        Some(e) => Some(e),
        None => match key_outcome(req.ipc_path@, probe) {
            Err(e) => Some(e),
            Ok(key) => if has_id(s, req.target_id@) && s[index_of(s, req.target_id@)].registration.owner_identity@ != owner@ {
                Some(err_info("target_id_owner_mismatch"@, "registration"@, Some(req.target_id@),
                    "target id is owned by another supervisor identity"@, false))
            } else if key_taken(s, req.target_id@, key) {
                Some(err_info("ipc_path_conflict"@, "registration"@, None,
                    "ipc path is already used by another target"@, false))
            } else {
                None
            },
        },
    }
}

/// Stores active registrations and connection state.
pub struct TargetProcessRegistry {
    /// `policy` stores the registration path, IPC prefixes and lease limits.
    policy: RegistrationPolicy,
    /// `entries` holds one record per target identity.
    entries: Vec<RegistryEntry>,
}

impl TargetProcessRegistration {
    /// A copy of the registration.
    pub fn duplicate(&self) -> (r: Self)
        ensures
            r@ == self@,
    {
        TargetProcessRegistration {
            target_id: self.target_id.clone(),
            display_name: self.display_name.clone(),
            ipc_path: self.ipc_path.clone(),
            ipc_path_key: self.ipc_path_key.clone(),
            owner_identity: self.owner_identity.clone(),
            lease_seconds: self.lease_seconds,
            supported_commands: duplicate_commands(&self.supported_commands),
            registered_at: self.registered_at,
            renewed_at: self.renewed_at,
            expires_at: self.expires_at,
            registration_state: self.registration_state,
            last_rejection: duplicate_opt_string(&self.last_rejection),
        }
    }
}

impl TargetProcessConnection {
    /// An equal copy of the connection record.
    pub fn duplicate(&self) -> (r: Self)
        ensures
            r == *self,
    {
        TargetProcessConnection {
            target_id: self.target_id.clone(),
            ipc_path: self.ipc_path.clone(),
            state: self.state,
            last_error: duplicate_opt_string(&self.last_error),
            last_state_generation: self.last_state_generation,
            last_sequence: self.last_sequence,
            connected_at: self.connected_at,
            updated_at: self.updated_at,
        }
    }
}

impl VisibleTarget {
    /// A copy of the summary.
    pub fn duplicate(&self) -> (r: Self)
        ensures
            r@ == self@,
    {
        VisibleTarget {
            target_id: self.target_id.clone(),
            display_name: self.display_name.clone(),
            registration_state: self.registration_state,
            connection_state: self.connection_state,
            supported_commands: duplicate_commands(&self.supported_commands),
        }
    }
}

/// A copy of a list of summaries.
pub fn duplicate_visible(v: &Vec<VisibleTarget>) -> (r: Vec<VisibleTarget>)
    ensures
        visible_views(r@) == visible_views(v@),
{
    let mut out: Vec<VisibleTarget> = Vec::new();
    let n = v.len();
    let mut i: usize = 0;
    while i < n
        invariant
            n == v@.len(),
            i <= n,
            out@.len() == i,
            forall|j: int| 0 <= j < i ==> (#[trigger] out@[j])@ == v@[j]@,
        decreases n - i,
    {
        out.push(v[i].duplicate());
        i = i + 1;
    }
    assert(visible_views(out@) =~= visible_views(v@));
    out
}

pub proof fn lemma_index_of_unique(s: Seq<RegistryEntry>, i: int)
    requires
        0 <= i < s.len(),
        forall|a: int, b: int| 0 <= a < s.len() && 0 <= b < s.len() && a != b
            ==> id_of(#[trigger] s[a]) != id_of(#[trigger] s[b]),
    ensures
        has_id(s, id_of(s[i])),
        index_of(s, id_of(s[i])) == i,
{
    let id = id_of(s[i]);
    assert(0 <= i < s.len() && id_of(s[i]) == id);
    let j = index_of(s, id);
    assert(0 <= j < s.len() && id_of(s[j]) == id);
}

impl TargetProcessRegistry {
    /// The entries of the registry, in registration order.
    pub closed spec fn entries(&self) -> Seq<RegistryEntry> {
        self.entries@
    }

    /// The registration policy of the registry.
    pub closed spec fn policy(&self) -> RegistrationPolicy {
        self.policy
    }

    /// The registry invariant.
    pub open spec fn wf(&self) -> bool {
        entries_wf(self.policy(), self.entries())
    }

    /// Creates an empty registry.
    pub fn new(policy: RegistrationPolicy) -> (r: Self)
        ensures
            r.wf(),
            r.entries() == Seq::<RegistryEntry>::empty(),
            r.policy() == policy,
    {
        TargetProcessRegistry { policy, entries: Vec::new() }
    }

    /// The position of the target, if registered.
    fn find(&self, target_id: &str) -> (r: Option<usize>)
        requires
            self.wf(),
        ensures
            match r {
                Some(i) => i < self.entries().len() && id_of(self.entries()[i as int]) == target_id@
                    && has_id(self.entries(), target_id@) && index_of(self.entries(), target_id@) == i,
                None => !has_id(self.entries(), target_id@),
            },
    {
        let n = self.entries.len();
        let mut i: usize = 0;
        while i < n
            invariant
                self.wf(),
                n == self.entries@.len(),
                i <= n,
                forall|j: int| 0 <= j < i ==> id_of(#[trigger] self.entries@[j]) != target_id@,
            decreases n - i,
        {
            if crate::text::str_eq(self.entries[i].registration.target_id.as_str(), target_id) {
                proof {
                    lemma_index_of_unique(self.entries@, i as int);
                }
                return Some(i);
            }
            i = i + 1;
        }
        None
    }

    /// Checks a registration payload against the policy.
    #[verifier::loop_isolation(false)]
    fn validate_request(&self, request: &RegistrationRequest) -> (r: RelayResult<()>)
        ensures
            match request_refusal(self.policy(), *request) {
                Some(e) => rv(r) == Err::<(), ErrorInfo>(e),
                None => r is Ok,
            },
    {
        if crate::text::is_blank_str(request.target_id.as_str()) {
            return Err(RelayError::new("empty_target_id", "registration", None, "target id must not be empty", false));
        }
        if !crate::config::path_is_absolute(request.ipc_path.as_str()) {
            return Err(RelayError::for_target("relative_ipc_path", "registration", request.target_id.as_str(),
                "IPC path must be absolute", false));
        }
        if !self.policy.ipc_path_is_allowed(request.ipc_path.as_str()) {
            return Err(RelayError::for_target("ipc_path_not_allowed", "registration", request.target_id.as_str(),
                "IPC path is outside allowed prefixes", false));
        }
        if request.lease_seconds == 0 || request.lease_seconds > self.policy.max_lease_seconds {
            return Err(RelayError::for_target("invalid_lease_seconds", "registration", request.target_id.as_str(),
                "lease seconds must be positive and must not exceed policy max", false));
        }
        let n = request.supported_commands.len();
        let mut i: usize = 0;
        while i < n
            invariant
                n == request.supported_commands@.len(),
                i <= n,
                forall|j: int| 0 <= j < i ==> !is_blank(#[trigger] request.supported_commands@[j].name@)
                    && request.supported_commands@[j].timeout_seconds != 0,
            decreases n - i,
        {
            let command = &request.supported_commands[i];
            assert(*command == request.supported_commands@[i as int]);
            if crate::text::is_blank_str(command.name.as_str()) || command.timeout_seconds == 0 {
                return Err(RelayError::for_target("unsupported_command_schema", "registration",
                    request.target_id.as_str(), "supported command name and timeout must be valid", false));
            }
            assert(!is_blank(request.supported_commands@[i as int].name@));
            i = i + 1;
        }
        Ok(())
    }
}


/// The effect of an accepted registration on the entries: a re-registration
/// of a known target updates its entry in place (keeping `registered_at`),
/// a new target is appended with a fresh connection.
pub open spec fn register_effect(
    old_s: Seq<RegistryEntry>,
    new_s: Seq<RegistryEntry>,
    req: RegistrationRequest,
    owner: String,
    key: Seq<char>,
    now: Timestamp,
) -> bool {
    if has_id(old_s, req.target_id@) {
        let i = index_of(old_s, req.target_id@);
        &&& new_s.len() == old_s.len()
        &&& is_registration_for(new_s[i].registration, req, owner, key, old_s[i].registration.registered_at, now)
        &&& is_upserted_connection(new_s[i].connection, old_s[i].connection, req,
            old_s[i].registration.ipc_path_key@ != key, now)
        &&& forall|j: int| 0 <= j < old_s.len() && j != i ==> new_s[j] == old_s[j]
    } else {
        &&& new_s.len() == old_s.len() + 1
        &&& new_s.subrange(0, old_s.len() as int) == old_s
        &&& is_registration_for(new_s.last().registration, req, owner, key, now, now)
        &&& new_s.last().connection == fresh_connection(req, now)
    }
}

/// The registration stored for a target identity.
pub open spec fn stored_registration(s: Seq<RegistryEntry>, id: Seq<char>) -> TargetProcessRegistration {
    s[index_of(s, id)].registration
}

impl TargetProcessRegistry {
    /// Registers one target process, or renews the registration of a target
    /// already registered by the same owner.
    ///
    /// The payload must satisfy the policy, the IPC path must normalize to a
    /// key (`probe` holds what the filesystem says about the path), a known
    /// target may only be re-registered by its owner, and no other target may
    /// use the same path key.
    #[verifier::loop_isolation(false)]
    pub fn register(
        &mut self,
        request: RegistrationRequest,
        owner_identity: String,
        probe: &IpcPathProbe,
        now: Timestamp,
    ) -> (r: RelayResult<TargetProcessRegistration>)
        requires
            old(self).wf(),
            1 <= request.lease_seconds <= old(self).policy().max_lease_seconds
                ==> time_in_range(after_seconds(now, request.lease_seconds as int)),
        ensures
            final(self).wf(),
            final(self).policy() == old(self).policy(),
            keeps_registrations(old(self).entries(), final(self).entries()),
            match register_refusal(old(self).policy(), old(self).entries(), request, owner_identity, *probe) {
                Some(e) => rv(r) == Err::<TargetProcessRegistration, ErrorInfo>(e)
                    && final(self).entries() == old(self).entries(),
                None => r matches Ok(reg)
                    && register_effect(old(self).entries(), final(self).entries(), request, owner_identity,
                        key_outcome(request.ipc_path@, *probe)->Ok_0, now)
                    && reg@ == stored_registration(final(self).entries(), request.target_id@)@,
            },
    {
        self.validate_request(&request)?;
        let ipc_path_key = normalize_ipc_path_key(request.ipc_path.as_str(), probe)?;
        let ghost key = ipc_path_key@;
        let ghost old_s = self.entries@;
        let found = self.find(request.target_id.as_str());
        if let Some(i) = found {
            if self.entries[i].registration.owner_identity != owner_identity {
                return Err(RelayError::for_target("target_id_owner_mismatch", "registration",
                    request.target_id.as_str(), "target id is owned by another supervisor identity", false));
            }
        }
        let n = self.entries.len();
        let mut j: usize = 0;
        while j < n
            invariant
                self.entries@ == old_s,
                n == old_s.len(),
                j <= n,
                forall|k: int| 0 <= k < j ==> !(id_of(#[trigger] old_s[k]) != request.target_id@
                    && old_s[k].registration.ipc_path_key@ == key),
            decreases n - j,
        {
            let other = &self.entries[j].registration;
            assert(*other == old_s[j as int].registration);
            if !crate::text::str_eq(other.target_id.as_str(), request.target_id.as_str())
                && crate::text::str_eq(other.ipc_path_key.as_str(), ipc_path_key.as_str()) {
                assert(id_of(old_s[j as int]) != request.target_id@ && old_s[j as int].registration.ipc_path_key@ == key);
                return Err(RelayError::new("ipc_path_conflict", "registration", None,
                    "ipc path is already used by another target", false));
            }
            j = j + 1;
        }
        assert(!key_taken(old_s, request.target_id@, key));
        match found {
            Some(i) => self.upsert_existing_registration(i, request, owner_identity, ipc_path_key, now),
            None => {
                let expires_at = now.plus_unsigned_seconds(request.lease_seconds);
                let connection = TargetProcessConnection {
                    target_id: request.target_id.clone(),
                    ipc_path: request.ipc_path.clone(),
                    state: ConnectionState::Registered,
                    last_error: None,
                    last_state_generation: None,
                    last_sequence: None,
                    connected_at: None,
                    updated_at: now,
                };
                let registration = TargetProcessRegistration {
                    target_id: request.target_id,
                    display_name: request.display_name,
                    ipc_path: request.ipc_path,
                    ipc_path_key,
                    owner_identity,
                    lease_seconds: request.lease_seconds,
                    supported_commands: request.supported_commands,
                    registered_at: now,
                    renewed_at: now,
                    expires_at,
                    registration_state: RegistrationState::Active,
                    last_rejection: None,
                };
                let copy = registration.duplicate();
                self.entries.push(RegistryEntry { registration, connection });
                proof {
                    let new_s = self.entries@;
                    assert(new_s.subrange(0, old_s.len() as int) =~= old_s);
                    assert forall|a: int, b: int| 0 <= a < new_s.len() && 0 <= b < new_s.len() && a != b
                        implies id_of(#[trigger] new_s[a]) != id_of(#[trigger] new_s[b]) by {
                        if a == old_s.len() {
                            assert(new_s[b] == old_s[b]);
                        } else if b == old_s.len() {
                            assert(new_s[a] == old_s[a]);
                        } else {
                            assert(new_s[a] == old_s[a] && new_s[b] == old_s[b]);
                        }
                    }
                    assert forall|a: int, b: int| 0 <= a < new_s.len() && 0 <= b < new_s.len() && a != b
                        implies (#[trigger] new_s[a]).registration.ipc_path_key@
                            != (#[trigger] new_s[b]).registration.ipc_path_key@ by {
                        if a == old_s.len() {
                            assert(new_s[b] == old_s[b]);
                            assert(id_of(old_s[b]) != request.target_id@);
                        } else if b == old_s.len() {
                            assert(new_s[a] == old_s[a]);
                            assert(id_of(old_s[a]) != request.target_id@);
                        } else {
                            assert(new_s[a] == old_s[a] && new_s[b] == old_s[b]);
                        }
                    }
                    assert forall|a: int| 0 <= a < new_s.len()
                        implies admissible(self.policy, #[trigger] new_s[a].registration) by {
                        if a < old_s.len() {
                            assert(new_s[a] == old_s[a]);
                        }
                    }
                    lemma_index_of_unique(new_s, old_s.len() as int);
                }
                Ok(copy)
            },
        }
    }

    /// Replaces the registration at position `i` by a re-registration of the
    /// same owner, keeping `registered_at`; a changed path key puts the
    /// connection into reconnecting.
    fn upsert_existing_registration(
        &mut self,
        i: usize,
        request: RegistrationRequest,
        owner_identity: String,
        ipc_path_key: String,
        now: Timestamp,
    ) -> (r: RelayResult<TargetProcessRegistration>)
        requires
            old(self).wf(),
            i < old(self).entries().len(),
            id_of(old(self).entries()[i as int]) == request.target_id@,
            request_refusal(old(self).policy(), request) is None,
            !key_taken(old(self).entries(), request.target_id@, ipc_path_key@),
            time_in_range(after_seconds(now, request.lease_seconds as int)),
        ensures
            final(self).wf(),
            final(self).policy() == old(self).policy(),
            r matches Ok(reg)
                && register_effect(old(self).entries(), final(self).entries(), request, owner_identity,
                    ipc_path_key@, now)
                && reg@ == stored_registration(final(self).entries(), request.target_id@)@,
    {
        let ghost old_s = self.entries@;
        proof {
            lemma_index_of_unique(old_s, i as int);
        }
        let existing = self.entries.remove(i);
        let path_changed = existing.registration.ipc_path_key != ipc_path_key;
        let expires_at = now.plus_unsigned_seconds(request.lease_seconds);
        let registration = TargetProcessRegistration {
            target_id: request.target_id,
            display_name: request.display_name,
            ipc_path: request.ipc_path.clone(),
            ipc_path_key,
            owner_identity,
            lease_seconds: request.lease_seconds,
            supported_commands: request.supported_commands,
            registered_at: existing.registration.registered_at,
            renewed_at: now,
            expires_at,
            registration_state: RegistrationState::Active,
            last_rejection: None,
        };
        let mut connection = existing.connection;
        connection.ipc_path = request.ipc_path;
        connection.updated_at = now;
        if path_changed {
            connection.state = ConnectionState::Reconnecting;
            connection.last_error = Some("ipc_path_changed".to_owned());
            connection.connected_at = None;
        }
        let copy = registration.duplicate();
        self.entries.insert(i, RegistryEntry { registration, connection });
        proof {
            let new_s = self.entries@;
            assert(new_s =~= old_s.update(i as int, new_s[i as int]));
            assert forall|a: int, b: int| 0 <= a < new_s.len() && 0 <= b < new_s.len() && a != b
                implies id_of(#[trigger] new_s[a]) != id_of(#[trigger] new_s[b]) by {
                if a == i {
                    assert(new_s[b] == old_s[b]);
                    assert(id_of(old_s[a]) != id_of(old_s[b]));
                } else if b == i {
                    assert(new_s[a] == old_s[a]);
                    assert(id_of(old_s[a]) != id_of(old_s[b]));
                } else {
                    assert(new_s[a] == old_s[a] && new_s[b] == old_s[b]);
                }
            }
            assert forall|a: int, b: int| 0 <= a < new_s.len() && 0 <= b < new_s.len() && a != b
                implies (#[trigger] new_s[a]).registration.ipc_path_key@
                    != (#[trigger] new_s[b]).registration.ipc_path_key@ by {
                if a == i {
                    assert(new_s[b] == old_s[b]);
                    assert(id_of(old_s[b]) != request.target_id@);
                } else if b == i {
                    assert(new_s[a] == old_s[a]);
                    assert(id_of(old_s[a]) != request.target_id@);
                } else {
                    assert(new_s[a] == old_s[a] && new_s[b] == old_s[b]);
                }
            }
            assert forall|a: int| 0 <= a < new_s.len()
                implies admissible(self.policy, #[trigger] new_s[a].registration) by {
                if a != i {
                    assert(new_s[a] == old_s[a]);
                }
            }
            lemma_index_of_unique(new_s, i as int);
        }
        Ok(copy)
    }
}

/// An entry whose connection moved to `state` for `reason` at `now`.
pub open spec fn is_marked(old_e: RegistryEntry, new_e: RegistryEntry, state: ConnectionState, reason: Seq<char>, now: Timestamp) -> bool {
    &&& new_e.registration == old_e.registration
    &&& new_e.connection.target_id == old_e.connection.target_id
    &&& new_e.connection.ipc_path == old_e.connection.ipc_path
    &&& new_e.connection.state == state
    &&& opt_view(new_e.connection.last_error) == Some(reason)
    &&& new_e.connection.last_state_generation == old_e.connection.last_state_generation
    &&& new_e.connection.last_sequence == old_e.connection.last_sequence
    &&& new_e.connection.connected_at == old_e.connection.connected_at
    &&& new_e.connection.updated_at == now
}

/// An entry with its connection replaced.
pub open spec fn with_connection(e: RegistryEntry, c: TargetProcessConnection) -> RegistryEntry {
    RegistryEntry { registration: e.registration, connection: c }
}

/// Whether `s1` keeps the registrations of `s0` in place: each target of
/// `s0` is still at its position in `s1`, with the same owner.
pub open spec fn keeps_registrations(s0: Seq<RegistryEntry>, s1: Seq<RegistryEntry>) -> bool {
    &&& s0.len() <= s1.len()
    &&& forall|i: int| 0 <= i < s0.len() ==> id_of(#[trigger] s1[i]) == id_of(s0[i])
        && s1[i].registration.owner_identity@ == s0[i].registration.owner_identity@
}

/// Registrations persist over any run of registry states in which each step
/// keeps the registrations in place, as every registry operation does: a
/// target registered in the first state is registered in the last one, with
/// the same owner.
pub proof fn lemma_registrations_persist(runs: Seq<TargetProcessRegistry>, id: Seq<char>)
    requires
        runs.len() > 0,
        forall|i: int| 0 <= i < runs.len() ==> (#[trigger] runs[i]).wf(),
        forall|i: int| 0 <= i < runs.len() - 1 ==> keeps_registrations(
            (#[trigger] runs[i]).entries(), runs[i + 1].entries()),
        has_id(runs[0].entries(), id),
    ensures
        has_id(runs.last().entries(), id),
        stored_registration(runs.last().entries(), id).owner_identity@
            == stored_registration(runs[0].entries(), id).owner_identity@,
    decreases runs.len(),
{
    let first = runs[0].entries();
    let j = index_of(first, id);
    if runs.len() > 1 {
        let rest = runs.drop_first();
        assert(rest[0] == runs[1]);
        assert forall|i: int| 0 <= i < rest.len() implies (#[trigger] rest[i]).wf() by {
            assert(rest[i] == runs[i + 1]);
        }
        assert forall|i: int| 0 <= i < rest.len() - 1 implies keeps_registrations(
            (#[trigger] rest[i]).entries(), rest[i + 1].entries()) by {
            assert(rest[i] == runs[i + 1] && rest[i + 1] == runs[i + 2]);
        }
        assert(keeps_registrations(first, runs[1].entries()));
        let second = runs[1].entries();
        assert(id_of(second[j]) == id);
        lemma_index_of_unique(second, j);
        lemma_registrations_persist(rest, id);
        assert(rest.last() == runs.last());
    }
}

/// In a well-formed registry two distinct registered targets have distinct
/// IPC path keys, and each registered target has its connection record.
pub proof fn lemma_registry_consistent(registry: &TargetProcessRegistry, a: Seq<char>, b: Seq<char>)
    requires
        registry.wf(),
        has_id(registry.entries(), a),
        has_id(registry.entries(), b),
        a != b,
    ensures
        stored_registration(registry.entries(), a).ipc_path_key@
            != stored_registration(registry.entries(), b).ipc_path_key@,
        registry.entries()[index_of(registry.entries(), a)].connection.target_id@ == a,
{
}

/// An entry whose connection started binding at `now`.
pub open spec fn connecting_entry(e: RegistryEntry, now: Timestamp) -> RegistryEntry {
    with_connection(e, TargetProcessConnection { state: ConnectionState::Connecting, updated_at: now, ..e.connection })
}

/// An entry whose connection read state generation `generation` at `now`.
pub open spec fn connected_entry(e: RegistryEntry, generation: u64, now: Timestamp) -> RegistryEntry {
    with_connection(e, TargetProcessConnection {
        state: ConnectionState::Connected,
        last_state_generation: Some(generation),
        connected_at: Some(now),
        updated_at: now,
        last_error: None,
        ..e.connection
    })
}

/// Whether two entry lists hold the same registrations, position by position.
pub open spec fn same_registrations(s0: Seq<RegistryEntry>, s1: Seq<RegistryEntry>) -> bool {
    &&& s1.len() == s0.len()
    &&& forall|j: int| 0 <= j < s0.len() ==> (#[trigger] s1[j]).registration == s0[j].registration
}

/// An entry after renewal at `now`.
pub open spec fn renewed_entry(e: RegistryEntry, now: Timestamp) -> RegistryEntry {
    RegistryEntry {
        registration: TargetProcessRegistration {
            renewed_at: now,
            expires_at: Timestamp { unix_nanos: after_seconds(now, e.registration.lease_seconds as int) as i128 },
            registration_state: RegistrationState::Active,
            ..e.registration
        },
        connection: e.connection,
    }
}

/// Whether some declared command has the wire name.
pub open spec fn declares(cs: Seq<SupportedCommand>, name: Seq<char>) -> bool {
    exists|k: int| 0 <= k < cs.len() && (#[trigger] cs[k]).name@ == name
}

proof fn lemma_count_active_bound(s: Seq<RegistryEntry>, now: Timestamp)
    ensures
        count_active(s, now) <= s.len(),
        active_visible(s, now).len() == count_active(s, now),
    decreases s.len(),
{
    if s.len() > 0 {
        lemma_count_active_bound(s.drop_last(), now);
    }
}

/// The number of active registrations equals the number of targets listed as active.
pub proof fn lemma_active_targets_match_count(registry: &TargetProcessRegistry, now: Timestamp)
    ensures
        active_visible(registry.entries(), now).len() == count_active(registry.entries(), now),
{
    lemma_count_active_bound(registry.entries(), now);
}

proof fn lemma_count_category_bound(s: Seq<RegistryEntry>, k: int)
    ensures
        count_category(s, k) <= s.len(),
    decreases s.len(),
{
    if s.len() > 0 {
        lemma_count_category_bound(s.drop_last(), k);
    }
}

/// The summary categories partition the entries.
pub proof fn lemma_categories_partition(s: Seq<RegistryEntry>)
    ensures
        count_category(s, 0) + count_category(s, 1) + count_category(s, 2) + count_category(s, 3)
            + count_category(s, 4) == s.len(),
    decreases s.len(),
{
    if s.len() > 0 {
        lemma_categories_partition(s.drop_last());
    }
}

/// An entry active at `now` is listed among the targets active at `now`.
pub proof fn lemma_active_entry_listed(s: Seq<RegistryEntry>, now: Timestamp, j: int)
    requires
        0 <= j < s.len(),
        is_active_at(s[j], now),
    ensures
        active_visible(s, now).contains(visible_of(s[j])),
    decreases s.len(),
{
    let p = active_visible(s.drop_last(), now);
    if j == s.len() - 1 {
        assert(active_visible(s, now)[p.len() as int] == visible_of(s[j]));
    } else {
        lemma_active_entry_listed(s.drop_last(), now, j);
        assert(s.drop_last()[j] == s[j]);
        let k = choose|k: int| 0 <= k < p.len() && p[k] == visible_of(s[j]);
        assert(active_visible(s, now)[k] == p[k]);
    }
}

/// A target whose registration the registry accepted at `now` is active at
/// `now` and is listed among the targets active at `now`.
pub proof fn lemma_accepted_registration_listed(
    before: &TargetProcessRegistry,
    after: &TargetProcessRegistry,
    request: RegistrationRequest,
    owner: String,
    key: Seq<char>,
    now: Timestamp,
)
    requires
        after.wf(),
        request.lease_seconds >= 1,
        register_effect(before.entries(), after.entries(), request, owner, key, now),
    ensures
        has_id(after.entries(), request.target_id@),
        is_active_at(after.entries()[index_of(after.entries(), request.target_id@)], now),
        active_visible(after.entries(), now).contains(
            visible_of(after.entries()[index_of(after.entries(), request.target_id@)])),
{
    let s0 = before.entries();
    let s1 = after.entries();
    let i = if has_id(s0, request.target_id@) {
        index_of(s0, request.target_id@)
    } else {
        s1.len() - 1
    };
    assert(s1[i].registration.target_id == request.target_id);
    lemma_index_of_unique(s1, i);
    lemma_active_entry_listed(s1, now, i);
}

/// After an accepted registration, of a new target or a renewal by its
/// owner, the registry holds for the target exactly what the request
/// declared: its name, IPC path, lease and supported commands, owned by the
/// registering identity, active from `now` for the lease; a renewal keeps the
/// first registration time, a new target is registered at `now`.
pub proof fn lemma_registration_stores_request(
    before: &TargetProcessRegistry,
    after: &TargetProcessRegistry,
    req: RegistrationRequest,
    owner: String,
    key: Seq<char>,
    now: Timestamp,
)
    requires
        before.wf(),
        after.wf(),
        register_effect(before.entries(), after.entries(), req, owner, key, now),
    ensures
        ({
            let t = req.target_id@;
            let reg = stored_registration(after.entries(), t);
            &&& has_id(after.entries(), t)
            &&& reg.target_id@ == t
            &&& reg.display_name@ == req.display_name@
            &&& reg.ipc_path@ == req.ipc_path@
            &&& reg.lease_seconds == req.lease_seconds
            &&& reg.supported_commands@ == req.supported_commands@
            &&& reg.owner_identity@ == owner@
            &&& reg.registration_state == RegistrationState::Active
            &&& reg.renewed_at == now
            &&& reg.expires_at.unix_nanos == now.unix_nanos + req.lease_seconds * 1_000_000_000
            &&& reg.registered_at == (if has_id(before.entries(), t) {
                stored_registration(before.entries(), t).registered_at
            } else {
                now
            })
        }),
{
    let s0 = before.entries();
    let s1 = after.entries();
    let t = req.target_id@;
    if has_id(s0, t) {
        let i = index_of(s0, t);
        lemma_index_of_unique(s0, i);
        assert(id_of(s1[i]) == t);
        lemma_index_of_unique(s1, i);
    } else {
        let i = s1.len() - 1;
        assert(s1[i] == s1.last());
        assert(id_of(s1[i]) == t);
        lemma_index_of_unique(s1, i);
    }
}

/// Every target listed as active at `now` comes from an entry active at
/// `now`, and is that entry's summary.
pub proof fn lemma_active_visible_member(s: Seq<RegistryEntry>, now: Timestamp, k: int)
    requires
        0 <= k < active_visible(s, now).len(),
    ensures
        exists|j: int| 0 <= j < s.len() && is_active_at(s[j], now) && active_visible(s, now)[k] == visible_of(
            #[trigger] s[j]),
    decreases s.len(),
{
    let prefix = active_visible(s.drop_last(), now);
    if is_active_at(s.last(), now) && k == prefix.len() {
        assert(active_visible(s, now)[k] == visible_of(s[s.len() - 1]));
    } else {
        lemma_active_visible_member(s.drop_last(), now, k);
        let j = choose|j: int| 0 <= j < s.drop_last().len() && is_active_at(s.drop_last()[j], now)
            && prefix[k] == visible_of(#[trigger] s.drop_last()[j]);
        assert(s[j] == s.drop_last()[j]);
    }
}

/// Every target listed as active at `now` is registered with an active lease
/// that runs past `now`, and carries the registry's own record of it: its
/// registration's name and commands, and the connection state that
/// `connection_state` reports for it.
pub proof fn lemma_active_list_reports_connection(registry: &TargetProcessRegistry, now: Timestamp, k: int)
    requires
        registry.wf(),
        0 <= k < active_visible(registry.entries(), now).len(),
    ensures
        ({
            let s = registry.entries();
            let v = active_visible(s, now)[k];
            let e = s[index_of(s, v.target_id)];
            &&& has_id(s, v.target_id)
            &&& v.connection_state == e.connection.state
            &&& v.registration_state == RegistrationState::Active
            &&& e.registration.registration_state == RegistrationState::Active
            &&& e.registration.expires_at.unix_nanos > now.unix_nanos
            &&& v.display_name == e.registration.display_name@
            &&& v.supported_commands == e.registration.supported_commands@
        }),
{
    let s = registry.entries();
    lemma_active_visible_member(s, now, k);
    let j = choose|j: int| 0 <= j < s.len() && is_active_at(s[j], now) && active_visible(s, now)[k] == visible_of(
        #[trigger] s[j]);
    lemma_index_of_unique(s, j);
}

/// Once leases are expired at `now`, no registration's active lease has run
/// out at `now`.
pub proof fn lemma_expired_leases_cleared(now: Timestamp)
    ensures
        forall|e: RegistryEntry| !lease_lapsed(#[trigger] expired_entry(e, now), now),
{
}

proof fn lemma_count_lapsed_bound(s: Seq<RegistryEntry>, now: Timestamp)
    ensures
        count_lapsed(s, now) <= s.len(),
    decreases s.len(),
{
    if s.len() > 0 {
        lemma_count_lapsed_bound(s.drop_last(), now);
    }
}

impl TargetProcessRegistry {
    /// Takes the entry at `i` out of the registry.
    fn take_entry(&mut self, i: usize) -> (r: RegistryEntry)
        requires
            i < old(self).entries().len(),
        ensures
            r == old(self).entries()[i as int],
            final(self).entries() == old(self).entries().remove(i as int),
            final(self).policy() == old(self).policy(),
    {
        self.entries.remove(i)
    }

    /// Puts an entry back at `i`; it keeps the identity and path key of the
    /// entry it replaces.
    fn put_entry(&mut self, i: usize, e: RegistryEntry, Ghost(s): Ghost<Seq<RegistryEntry>>)
        requires
            entries_wf(old(self).policy(), s),
            i < s.len(),
            old(self).entries() == s.remove(i as int),
            id_of(e) == id_of(s[i as int]),
            e.registration.ipc_path_key@ == s[i as int].registration.ipc_path_key@,
            e.connection.target_id@ == e.registration.target_id@,
            e.connection.ipc_path@ == e.registration.ipc_path@,
            admissible(old(self).policy(), e.registration),
        ensures
            final(self).entries() == s.update(i as int, e),
            final(self).policy() == old(self).policy(),
            final(self).wf(),
    {
        self.entries.insert(i, e);
        proof {
            let new_s = self.entries@;
            assert(new_s =~= s.update(i as int, e));
            assert forall|a: int, b: int| 0 <= a < new_s.len() && 0 <= b < new_s.len() && a != b
                implies id_of(#[trigger] new_s[a]) != id_of(#[trigger] new_s[b]) by {
                assert(id_of(s[a]) != id_of(s[b]));
            }
            assert forall|a: int, b: int| 0 <= a < new_s.len() && 0 <= b < new_s.len() && a != b
                implies (#[trigger] new_s[a]).registration.ipc_path_key@
                    != (#[trigger] new_s[b]).registration.ipc_path_key@ by {
                assert(s[a].registration.ipc_path_key@ != s[b].registration.ipc_path_key@);
            }
        }
    }

    /// Renews the lease of a registered target from `now`.
    pub fn renew(&mut self, target_id: &str, now: Timestamp) -> (r: RelayResult<()>)
        requires
            old(self).wf(),
            has_id(old(self).entries(), target_id@) ==> time_in_range(after_seconds(now,
                stored_registration(old(self).entries(), target_id@).lease_seconds as int)),
        ensures
            final(self).wf(),
            final(self).policy() == old(self).policy(),
            keeps_registrations(old(self).entries(), final(self).entries()),
            !has_id(old(self).entries(), target_id@) ==> rv(r) == Err::<(), ErrorInfo>(
                not_registered(target_id@, "registration_renew"@)) && final(self).entries() == old(self).entries(),
            has_id(old(self).entries(), target_id@) ==> r is Ok && final(self).entries() == old(self).entries().update(
                index_of(old(self).entries(), target_id@),
                renewed_entry(old(self).entries()[index_of(old(self).entries(), target_id@)], now)),
    {
        match self.find(target_id) {
            None => Err(RelayError::for_target("target_not_registered", "registration_renew", target_id,
                "target is not registered", true)),
            Some(i) => {
                let ghost s = self.entries@;
                let mut e = self.take_entry(i);
                e.registration.renewed_at = now;
                e.registration.expires_at = now.plus_unsigned_seconds(e.registration.lease_seconds);
                e.registration.registration_state = RegistrationState::Active;
                self.put_entry(i, e, Ghost(s));
                Ok(())
            },
        }
    }

    /// Marks registrations whose active lease has run out at `now` as
    /// expired, together with their connections; returns how many were marked.
    pub fn expire_leases(&mut self, now: Timestamp) -> (r: usize)
        requires
            old(self).wf(),
        ensures
            final(self).wf(),
            final(self).policy() == old(self).policy(),
            keeps_registrations(old(self).entries(), final(self).entries()),
            final(self).entries() == old(self).entries().map_values(|e: RegistryEntry| expired_entry(e, now)),
            r == count_lapsed(old(self).entries(), now),
    {
        let ghost s0 = self.entries@;
        let n = self.entries.len();
        let mut expired: usize = 0;
        let mut i: usize = 0;
        while i < n
            invariant
                self.wf(),
                self.policy() == old(self).policy(),
                s0 == old(self).entries(),
                n == s0.len(),
                self.entries@.len() == n,
                i <= n,
                forall|k: int| 0 <= k < i ==> self.entries@[k] == expired_entry(s0[k], now),
                forall|k: int| i <= k < n ==> self.entries@[k] == s0[k],
                expired == count_lapsed(s0.subrange(0, i as int), now),
            decreases n - i,
        {
            proof {
                lemma_count_lapsed_bound(s0.subrange(0, i as int), now);
                assert(s0.subrange(0, i + 1).drop_last() =~= s0.subrange(0, i as int));
            }
            let lapsed = self.entries[i].registration.registration_state == RegistrationState::Active
                && !now.is_before(self.entries[i].registration.expires_at);
            if lapsed {
                let ghost s = self.entries@;
                let mut e = self.take_entry(i);
                e.registration.registration_state = RegistrationState::Expired;
                e.connection.state = ConnectionState::Expired;
                e.connection.updated_at = now;
                self.put_entry(i, e, Ghost(s));
                expired = expired + 1;
            }
            i = i + 1;
        }
        assert(s0.subrange(0, n as int) =~= s0);
        assert(self.entries@ =~= s0.map_values(|e: RegistryEntry| expired_entry(e, now)));
        expired
    }

    /// The number of registrations active at `now`.
    pub fn active_registration_count(&self, now: Timestamp) -> (r: usize)
        ensures
            r == count_active(self.entries(), now),
    {
        let n = self.entries.len();
        let mut count: usize = 0;
        let mut i: usize = 0;
        while i < n
            invariant
                n == self.entries@.len(),
                i <= n,
                count == count_active(self.entries@.subrange(0, i as int), now),
            decreases n - i,
        {
            proof {
                lemma_count_active_bound(self.entries@.subrange(0, i as int), now);
                assert(self.entries@.subrange(0, i + 1).drop_last() =~= self.entries@.subrange(0, i as int));
            }
            let registration = &self.entries[i].registration;
            if registration.registration_state == RegistrationState::Active && now.is_before(registration.expires_at) {
                count = count + 1;
            }
            i = i + 1;
        }
        assert(self.entries@.subrange(0, n as int) =~= self.entries@);
        count
    }

    /// The summaries of the targets active at `now`, in registration order.
    pub fn active_targets(&self, now: Timestamp) -> (r: Vec<VisibleTarget>)
        ensures
            visible_views(r@) == active_visible(self.entries(), now),
    {
        let n = self.entries.len();
        let mut out: Vec<VisibleTarget> = Vec::new();
        let mut i: usize = 0;
        while i < n
            invariant
                n == self.entries@.len(),
                i <= n,
                visible_views(out@) == active_visible(self.entries@.subrange(0, i as int), now),
            decreases n - i,
        {
            let ghost before = out@;
            proof {
                assert(self.entries@.subrange(0, i + 1).drop_last() =~= self.entries@.subrange(0, i as int));
            }
            let entry = &self.entries[i];
            if entry.registration.registration_state == RegistrationState::Active
                && now.is_before(entry.registration.expires_at) {
                out.push(VisibleTarget {
                    target_id: entry.registration.target_id.clone(),
                    display_name: entry.registration.display_name.clone(),
                    registration_state: entry.registration.registration_state,
                    connection_state: entry.connection.state,
                    supported_commands: duplicate_commands(&entry.registration.supported_commands),
                });
                assert(visible_views(out@) =~= visible_views(before).push(visible_of(self.entries@[i as int])));
            }
            i = i + 1;
        }
        assert(self.entries@.subrange(0, n as int) =~= self.entries@);
        out
    }

    /// Reads the registration of a target.
    pub fn registration(&self, target_id: &str) -> (r: RelayResult<&TargetProcessRegistration>)
        requires
            self.wf(),
        ensures
            has_id(self.entries(), target_id@) ==> (r matches Ok(reg)
                && *reg == stored_registration(self.entries(), target_id@)),
            !has_id(self.entries(), target_id@) ==> rv(r) == Err::<&TargetProcessRegistration, ErrorInfo>(
                not_registered(target_id@, "registry"@)),
    {
        match self.find(target_id) {
            Some(i) => Ok(&self.entries[i].registration),
            None => Err(RelayError::for_target("target_not_registered", "registry", target_id,
                "target is not registered", true)),
        }
    }

    /// Checks that a target is registered with a lease active at `now`.
    pub fn ensure_target_active(&self, target_id: &str, now: Timestamp) -> (r: RelayResult<()>)
        requires
            self.wf(),
        ensures
            !has_id(self.entries(), target_id@) ==> rv(r) == Err::<(), ErrorInfo>(not_registered(target_id@, "registry"@)),
            has_id(self.entries(), target_id@) ==> (
                if is_active_at(self.entries()[index_of(self.entries(), target_id@)], now) {
                    r is Ok
                } else {
                    rv(r) == Err::<(), ErrorInfo>(err_info("target_unavailable"@, "registry"@, Some(target_id@),
                        "target registration is not active"@, true))
                }),
    {
        let registration = self.registration(target_id)?;
        if registration.registration_state != RegistrationState::Active || !now.is_before(registration.expires_at) {
            return Err(RelayError::for_target("target_unavailable", "registry", target_id,
                "target registration is not active", true));
        }
        Ok(())
    }

    /// Checks that a target declares support for a command.
    #[verifier::loop_isolation(false)]
    pub fn ensure_command_supported(&self, target_id: &str, command: ControlCommandName) -> (r: RelayResult<()>)
        requires
            self.wf(),
        ensures
            !has_id(self.entries(), target_id@) ==> rv(r) == Err::<(), ErrorInfo>(not_registered(target_id@, "registry"@)),
            has_id(self.entries(), target_id@) ==> (
                if declares(stored_registration(self.entries(), target_id@).supported_commands@, wire_name_of(command)) {
                    r is Ok
                } else {
                    rv(r) == Err::<(), ErrorInfo>(err_info("unsupported_command"@, "command_validate"@,
                        Some(target_id@), "target does not declare support for this command"@, false))
                }),
    {
        let registration = self.registration(target_id)?;
        let command_name = command.wire_name();
        let n = registration.supported_commands.len();
        let mut k: usize = 0;
        while k < n
            invariant
                n == registration.supported_commands@.len(),
                k <= n,
                command_name@ == wire_name_of(command),
                forall|j: int| 0 <= j < k ==> (#[trigger] registration.supported_commands@[j]).name@ != command_name@,
            decreases n - k,
        {
            if crate::text::str_eq(registration.supported_commands[k].name.as_str(), command_name) {
                assert(registration.supported_commands@[k as int].name@ == command_name@);
                return Ok(());
            }
            k = k + 1;
        }
        Err(RelayError::for_target("unsupported_command", "command_validate", target_id,
            "target does not declare support for this command", false))
    }

    /// Marks that a target starts binding IPC.
    pub fn begin_binding(&mut self, target_id: &str, now: Timestamp) -> (r: RelayResult<()>)
        requires
            old(self).wf(),
        ensures
            final(self).wf(),
            final(self).policy() == old(self).policy(),
            keeps_registrations(old(self).entries(), final(self).entries()),
            !has_id(old(self).entries(), target_id@) ==> rv(r) == Err::<(), ErrorInfo>(
                connection_not_registered(target_id@)) && final(self).entries() == old(self).entries(),
            has_id(old(self).entries(), target_id@) ==> r is Ok && ({
                let i = index_of(old(self).entries(), target_id@);
                final(self).entries() == old(self).entries().update(i, connecting_entry(old(self).entries()[i], now))
            }),
    {
        match self.find(target_id) {
            None => Err(RelayError::for_target("target_not_registered", "registry", target_id,
                "target connection is not registered", true)),
            Some(i) => {
                let ghost s = self.entries@;
                let mut e = self.take_entry(i);
                e.connection.state = ConnectionState::Connecting;
                e.connection.updated_at = now;
                self.put_entry(i, e, Ghost(s));
                Ok(())
            },
        }
    }

    /// Marks target IPC as connected, remembering the state generation read.
    pub fn mark_connected(&mut self, target_id: &str, state_generation: u64, now: Timestamp) -> (r: RelayResult<()>)
        requires
            old(self).wf(),
        ensures
            final(self).wf(),
            final(self).policy() == old(self).policy(),
            keeps_registrations(old(self).entries(), final(self).entries()),
            !has_id(old(self).entries(), target_id@) ==> rv(r) == Err::<(), ErrorInfo>(
                connection_not_registered(target_id@)) && final(self).entries() == old(self).entries(),
            has_id(old(self).entries(), target_id@) ==> r is Ok && ({
                let i = index_of(old(self).entries(), target_id@);
                final(self).entries() == old(self).entries().update(i,
                    connected_entry(old(self).entries()[i], state_generation, now))
            }),
    {
        match self.find(target_id) {
            None => Err(RelayError::for_target("target_not_registered", "registry", target_id,
                "target connection is not registered", true)),
            Some(i) => {
                let ghost s = self.entries@;
                let mut e = self.take_entry(i);
                e.connection.state = ConnectionState::Connected;
                e.connection.last_state_generation = Some(state_generation);
                e.connection.connected_at = Some(now);
                e.connection.updated_at = now;
                e.connection.last_error = None;
                self.put_entry(i, e, Ghost(s));
                Ok(())
            },
        }
    }

    fn mark_connection(&mut self, target_id: &str, state: ConnectionState, reason: &str, now: Timestamp)
        requires
            old(self).wf(),
        ensures
            final(self).wf(),
            final(self).policy() == old(self).policy(),
            keeps_registrations(old(self).entries(), final(self).entries()),
            !has_id(old(self).entries(), target_id@) ==> final(self).entries() == old(self).entries(),
            has_id(old(self).entries(), target_id@) ==> ({
                let i = index_of(old(self).entries(), target_id@);
                &&& final(self).entries().len() == old(self).entries().len()
                &&& is_marked(old(self).entries()[i], final(self).entries()[i], state, reason@, now)
                &&& forall|j: int| 0 <= j < old(self).entries().len() && j != i
                    ==> final(self).entries()[j] == old(self).entries()[j]
            }),
    {
        if let Some(i) = self.find(target_id) {
            let ghost s = self.entries@;
            let mut e = self.take_entry(i);
            e.connection.state = state;
            e.connection.last_error = Some(reason.to_owned());
            e.connection.updated_at = now;
            self.put_entry(i, e, Ghost(s));
        }
    }

    /// Marks target IPC as reconnecting; unknown targets are ignored.
    pub fn mark_reconnecting(&mut self, target_id: &str, reason: &str, now: Timestamp)
        requires
            old(self).wf(),
        ensures
            final(self).wf(),
            final(self).policy() == old(self).policy(),
            keeps_registrations(old(self).entries(), final(self).entries()),
            !has_id(old(self).entries(), target_id@) ==> final(self).entries() == old(self).entries(),
            has_id(old(self).entries(), target_id@) ==> ({
                let i = index_of(old(self).entries(), target_id@);
                &&& final(self).entries().len() == old(self).entries().len()
                &&& is_marked(old(self).entries()[i], final(self).entries()[i], ConnectionState::Reconnecting, reason@, now)
                &&& forall|j: int| 0 <= j < old(self).entries().len() && j != i
                    ==> final(self).entries()[j] == old(self).entries()[j]
            }),
    {
        self.mark_connection(target_id, ConnectionState::Reconnecting, reason, now)
    }

    /// Marks target IPC as unavailable; unknown targets are ignored.
    pub fn mark_unavailable(&mut self, target_id: &str, reason: &str, now: Timestamp)
        requires
            old(self).wf(),
        ensures
            final(self).wf(),
            final(self).policy() == old(self).policy(),
            keeps_registrations(old(self).entries(), final(self).entries()),
            !has_id(old(self).entries(), target_id@) ==> final(self).entries() == old(self).entries(),
            has_id(old(self).entries(), target_id@) ==> ({
                let i = index_of(old(self).entries(), target_id@);
                &&& final(self).entries().len() == old(self).entries().len()
                &&& is_marked(old(self).entries()[i], final(self).entries()[i], ConnectionState::Unavailable, reason@, now)
                &&& forall|j: int| 0 <= j < old(self).entries().len() && j != i
                    ==> final(self).entries()[j] == old(self).entries()[j]
            }),
    {
        self.mark_connection(target_id, ConnectionState::Unavailable, reason, now)
    }

    /// The connection state of a target, if registered.
    pub fn connection_state(&self, target_id: &str) -> (r: Option<ConnectionState>)
        requires
            self.wf(),
        ensures
            !has_id(self.entries(), target_id@) ==> r is None,
            has_id(self.entries(), target_id@) ==> r == Some(self.entries()[index_of(self.entries(), target_id@)].connection.state),
    {
        match self.find(target_id) {
            Some(i) => Some(self.entries[i].connection.state),
            None => None,
        }
    }

    /// Counts the targets per connection category.
    pub fn availability_summary(&self) -> (r: AvailabilitySummary)
        ensures
            r.total == self.entries().len(),
            r.registered == count_category(self.entries(), 0),
            r.connected == count_category(self.entries(), 1),
            r.reconnecting == count_category(self.entries(), 2),
            r.unavailable == count_category(self.entries(), 3),
            r.expired == count_category(self.entries(), 4),
    {
        let n = self.entries.len();
        let mut summary = AvailabilitySummary {
            total: n,
            registered: 0,
            connected: 0,
            reconnecting: 0,
            unavailable: 0,
            expired: 0,
        };
        let mut i: usize = 0;
        while i < n
            invariant
                n == self.entries@.len(),
                i <= n,
                summary.total == n,
                summary.registered == count_category(self.entries@.subrange(0, i as int), 0),
                summary.connected == count_category(self.entries@.subrange(0, i as int), 1),
                summary.reconnecting == count_category(self.entries@.subrange(0, i as int), 2),
                summary.unavailable == count_category(self.entries@.subrange(0, i as int), 3),
                summary.expired == count_category(self.entries@.subrange(0, i as int), 4),
            decreases n - i,
        {
            proof {
                let p = self.entries@.subrange(0, i as int);
                assert(self.entries@.subrange(0, i + 1).drop_last() =~= p);
                lemma_count_category_bound(p, 0);
                lemma_count_category_bound(p, 1);
                lemma_count_category_bound(p, 2);
                lemma_count_category_bound(p, 3);
                lemma_count_category_bound(p, 4);
            }
            match self.entries[i].connection.state {
                ConnectionState::Registered | ConnectionState::Disconnected | ConnectionState::Connecting => {
                    summary.registered = summary.registered + 1;
                },
                ConnectionState::Connected => summary.connected = summary.connected + 1,
                ConnectionState::Reconnecting => summary.reconnecting = summary.reconnecting + 1,
                ConnectionState::Unavailable => summary.unavailable = summary.unavailable + 1,
                ConnectionState::Expired => summary.expired = summary.expired + 1,
            }
            i = i + 1;
        }
        assert(self.entries@.subrange(0, n as int) =~= self.entries@);
        summary
    }

    /// Records the latest forwarded sequence of a target and returns the
    /// previous one; `None` when the target is unknown or had none.
    pub fn update_sequence(&mut self, target_id: &str, sequence: u64) -> (r: Option<u64>)
        requires
            old(self).wf(),
        ensures
            final(self).wf(),
            final(self).policy() == old(self).policy(),
            keeps_registrations(old(self).entries(), final(self).entries()),
            !has_id(old(self).entries(), target_id@) ==> r is None && final(self).entries() == old(self).entries(),
            has_id(old(self).entries(), target_id@) ==> ({
                let i = index_of(old(self).entries(), target_id@);
                let e = old(self).entries()[i];
                &&& r == e.connection.last_sequence
                &&& final(self).entries() == old(self).entries().update(i, with_connection(e,
                    TargetProcessConnection { last_sequence: Some(sequence), ..e.connection }))
            }),
    {
        match self.find(target_id) {
            None => None,
            Some(i) => {
                let ghost s = self.entries@;
                let mut e = self.take_entry(i);
                let previous = e.connection.last_sequence;
                e.connection.last_sequence = Some(sequence);
                self.put_entry(i, e, Ghost(s));
                previous
            },
        }
    }
}

} // verus!
