//! Relay configuration and its security checks.
//!
//! The configuration only describes the `wss://` listener, mTLS, the trusted
//! proxy, the registration entry point and lease rules; target processes
//! enter at run time through dynamic registration.

use vstd::prelude::*;

use crate::error::{err_info, rv, ErrorInfo, RelayError, RelayResult};
use crate::text::concat_str;

verus! {

/// An IP address: version 4 as its 32-bit value, version 6 as its 128-bit value.
#[derive(Debug, Clone, Copy, PartialEq, Eq, Structural)]
pub enum IpAddress {
    V4(u32),
    V6(u128),
}

/// What `str::parse::<SocketAddr>` yields for a text: `None` when it parses,
/// otherwise the displayed parse error.
pub uninterp spec fn socket_addr_parse_error(text: Seq<char>) -> Option<Seq<char>>;

/// What `url::Url::parse` yields for a text: the URL's scheme, or the
/// displayed parse error.
pub uninterp spec fn url_scheme_parse(text: Seq<char>) -> Result<Seq<char>, Seq<char>>;

/// What `str::parse::<IpAddr>` yields for a text: the address, or the
/// displayed parse error.
pub uninterp spec fn ip_address_parse(text: Seq<char>) -> Result<IpAddress, Seq<char>>;

/// What `Path::starts_with` yields: whether `base` is a prefix of `path`
/// made of whole path components.
pub uninterp spec fn path_component_prefix(path: Seq<char>, base: Seq<char>) -> bool;

/// Calls `str::parse::<core::net::SocketAddr>`; `None` when the text parses,
/// otherwise the displayed error. The contract claims the outcome is the
/// named function of the text.
#[verifier::external_body]
fn socket_addr_error(text: &str) -> (r: Option<String>)
    ensures
        match r {
            None => socket_addr_parse_error(text@) is None,
            Some(e) => socket_addr_parse_error(text@) == Some(e@),
        },
{
    match text.parse::<core::net::SocketAddr>() {
        Ok(_) => None,
        Err(error) => Some(error.to_string()),
    }
}

/// Calls `url::Url::parse` and reads the parsed URL's `scheme`; on failure
/// returns the displayed `url::ParseError`. The contract claims the outcome
/// is the named function of the text.
#[verifier::external_body]
fn url_scheme(text: &str) -> (r: Result<String, String>)
    ensures
        match r {
            Ok(s) => url_scheme_parse(text@) == Ok::<Seq<char>, Seq<char>>(s@),
            Err(e) => url_scheme_parse(text@) == Err::<Seq<char>, Seq<char>>(e@),
        },
{
    match url::Url::parse(text) {
        Ok(url) => Ok(url.scheme().to_owned()),
        Err(error) => Err(error.to_string()),
    }
}

/// Calls `str::parse::<core::net::IpAddr>` and converts the address to its
/// numeric value; on failure returns the displayed error. The contract claims
/// the outcome is the named function of the text.
#[verifier::external_body]
fn ip_address(text: &str) -> (r: Result<IpAddress, String>)
    ensures
        match r {
            Ok(ip) => ip_address_parse(text@) == Ok::<IpAddress, Seq<char>>(ip),
            Err(e) => ip_address_parse(text@) == Err::<IpAddress, Seq<char>>(e@),
        },
{
    match text.parse::<core::net::IpAddr>() {
        Ok(core::net::IpAddr::V4(v4)) => Ok(IpAddress::V4(u32::from(v4))),
        Ok(core::net::IpAddr::V6(v6)) => Ok(IpAddress::V6(u128::from(v6))),
        Err(error) => Err(error.to_string()),
    }
}

/// Calls `std::path::Path::starts_with`, which matches whole components only.
/// The contract claims the result is the named function of both texts.
#[verifier::external_body]
fn path_starts_with(path: &str, base: &str) -> (r: bool)
    ensures
        r == path_component_prefix(path@, base@),
{
    std::path::Path::new(path).starts_with(base)
}

/// The value of a text of octal digits.
pub open spec fn octal_value(d: Seq<char>) -> int
    decreases d.len(),
{
    if d.len() == 0 {
        0
    } else {
        octal_value(d.drop_last()) * 8 + (d.last() as int - '0' as int)
    }
}

/// Whether every character is an octal digit.
pub open spec fn all_octal(d: Seq<char>) -> bool {
    forall|i: int| 0 <= i < d.len() ==> '0' <= #[trigger] d[i] <= '7'
}

/// What `u32::from_str_radix(text, 8)` yields: an optional `+` followed by
/// at least one octal digit, with a value that fits in `u32`.
pub open spec fn octal_parse(text: Seq<char>) -> Option<u32> {
    let digits = if text.len() > 0 && text[0] == '+' {
        text.drop_first()
    } else {
        text
    };
    if digits.len() > 0 && all_octal(digits) && octal_value(digits) <= u32::MAX {
        Some(octal_value(digits) as u32)
    } else {
        None
    }
}

/// The text without its leading `0` characters.
pub open spec fn strip_leading_zeros(s: Seq<char>) -> Seq<char>
    decreases s.len(),
{
    if s.len() > 0 && s[0] == '0' {
        strip_leading_zeros(s.drop_first())
    } else {
        s
    }
}

proof fn lemma_octal_prefix_bound(d: Seq<char>, j: int)
    requires
        all_octal(d),
        0 <= j <= d.len(),
    ensures
        0 <= octal_value(d.subrange(0, j)) <= octal_value(d),
    decreases d.len(),
{
    if d.len() > 0 {
        let p = d.drop_last();
        assert(all_octal(p)) by {
            assert forall|i: int| 0 <= i < p.len() implies '0' <= #[trigger] p[i] <= '7' by {
                assert(p[i] == d[i]);
            }
        }
        assert('0' <= d[d.len() - 1] <= '7');
        if j == d.len() {
            assert(d.subrange(0, j) =~= d);
            lemma_octal_prefix_bound(p, p.len() as int);
            assert(p.subrange(0, p.len() as int) =~= p);
        } else {
            lemma_octal_prefix_bound(p, j);
            assert(p.subrange(0, j) =~= d.subrange(0, j));
            lemma_octal_prefix_bound(p, p.len() as int);
            assert(p.subrange(0, p.len() as int) =~= p);
        }
    } else {
        assert(d.subrange(0, j) =~= d);
    }
}

/// Reads a `u32` in radix 8 as `u32::from_str_radix(text, 8)` does: an
/// optional `+` followed by at least one octal digit, refusing values beyond
/// `u32::MAX`.
fn parse_octal_u32(text: &str) -> (r: Option<u32>)
    ensures
        r == octal_parse(text@),
{
    let n = text.unicode_len();
    let start: usize = if n > 0 && text.get_char(0) == '+' { 1 } else { 0 };
    let ghost digits = text@.subrange(start as int, n as int);
    assert(digits =~= (if text@.len() > 0 && text@[0] == '+' { text@.drop_first() } else { text@ }));
    if start >= n {
        return None;
    }
    let mut acc: u64 = 0;
    let mut i: usize = start;
    assert(digits.subrange(0, 0) =~= Seq::<char>::empty());
    while i < n
        invariant
            n == text@.len(),
            start <= i <= n,
            digits == text@.subrange(start as int, n as int),
            digits == (if text@.len() > 0 && text@[0] == '+' { text@.drop_first() } else { text@ }),
            digits.len() > 0,
            acc <= u32::MAX,
            acc == octal_value(digits.subrange(0, i - start)),
            all_octal(digits.subrange(0, i - start)),
        decreases n - i,
    {
        let c = text.get_char(i);
        assert(c == digits[i - start]);
        if c < '0' || c > '7' {
            assert(!('0' <= digits[i - start] <= '7'));
            assert(!all_octal(digits));
            return None;
        }
        let prefix = Ghost(digits.subrange(0, i - start + 1));
        assert(prefix@.drop_last() =~= digits.subrange(0, i - start));
        assert(prefix@.last() == c);
        acc = acc * 8 + (c as u64 - '0' as u64);
        assert(acc == octal_value(prefix@));
        assert(all_octal(prefix@)) by {
            assert forall|k: int| 0 <= k < prefix@.len() implies '0' <= #[trigger] prefix@[k] <= '7' by {
                if k < prefix@.len() - 1 {
                    assert(prefix@[k] == digits.subrange(0, i - start)[k]);
                }
            }
        }
        if acc > 0xffff_ffff {
            proof {
                if all_octal(digits) {
                    lemma_octal_prefix_bound(digits, i - start + 1);
                }
            }
            return None;
        }
        i = i + 1;
    }
    assert(digits.subrange(0, n - start) =~= digits);
    Some(acc as u32)
}

/// On Unix a path is absolute when it starts with the root `/`.
pub open spec fn is_absolute_path(p: Seq<char>) -> bool {
    p.len() > 0 && p[0] == '/'
}

/// Whether a path text is absolute.
pub fn path_is_absolute(p: &str) -> (r: bool)
    ensures
        r == is_absolute_path(p@),
{
    p.unicode_len() > 0 && p.get_char(0) == '/'
}

/// The root relay configuration.
#[derive(Debug, Clone, PartialEq, Eq)]
pub struct DashboardRelayConfig {
    /// `listen` stores the external `wss://` address.
    pub listen: ListenConfig,
    /// `tls` stores the server certificate and the client certificate trust root.
    pub tls: TlsConfig,
    /// `trusted_proxy` stores where identities come from when a proxy terminates TLS.
    pub trusted_proxy: TrustedProxyConfig,
    /// `registration` stores the registration entry point and lease policy.
    pub registration: RegistrationPolicy,
}

/// The listen address and the public address of the relay.
#[derive(Debug, Clone, PartialEq, Eq)]
pub struct ListenConfig {
    /// `bind` is the local socket address.
    pub bind: String,
    /// `public_url` must use `wss://`.
    pub public_url: String,
}

/// Certificate paths of the relay.
#[derive(Debug, Clone, PartialEq, Eq)]
pub struct TlsConfig {
    /// `certificate_path` points at the relay server certificate.
    pub certificate_path: String,
    /// `private_key_path` points at the relay server private key.
    pub private_key_path: String,
    /// `client_ca_path` points at the CA that verifies operator certificates.
    pub client_ca_path: String,
}

/// Trust boundary of the proxy identity header.
#[derive(Debug, Clone, PartialEq, Eq)]
pub struct TrustedProxyConfig {
    /// `enabled` says whether the relay accepts identities passed by a proxy.
    pub enabled: bool,
    /// `allowed_remote_addrs` are the proxy IP addresses allowed to pass identities.
    pub allowed_remote_addrs: Vec<String>,
    /// `identity_header` is the HTTP header holding the verified subject.
    pub identity_header: String,
}

/// Local entry point and lease rules of dynamic registration.
#[derive(Debug, Clone, PartialEq, Eq)]
pub struct RegistrationPolicy {
    /// `listen_path` is the Unix domain socket where targets register.
    pub listen_path: String,
    /// `permissions` is the file mode of the registration socket.
    pub permissions: String,
    /// `allowed_ipc_path_prefixes` restricts target IPC paths to safe local directories.
    pub allowed_ipc_path_prefixes: Vec<String>,
    /// `default_lease_seconds` is the lease when a target does not choose one.
    pub default_lease_seconds: u64,
    /// `max_lease_seconds` is the longest lease the relay accepts.
    pub max_lease_seconds: u64,
}

/// The outcome of checking the listen section.
pub open spec fn listen_check(l: ListenConfig) -> Result<(), ErrorInfo> {
    match socket_addr_parse_error(l.bind@) {
        Some(e) => Err(err_info("invalid_bind_address"@, "config"@, None,
            "listen.bind must be socket address: "@ + e, false)),
        None => match url_scheme_parse(l.public_url@) {
            Err(e) => Err(err_info("invalid_public_url"@, "config"@, None,
                "listen.public_url could not be parsed: "@ + e, false)),
            Ok(scheme) => if scheme != "wss"@ {
                Err(err_info("invalid_public_url"@, "config"@, None,
                    "listen.public_url must use wss://"@, false))
            } else {
                Ok(())
            },
        },
    }
}

/// The outcome of checking the TLS section.
pub open spec fn tls_check(t: TlsConfig, trusted_proxy_enabled: bool) -> Result<(), ErrorInfo> {
    if t.certificate_path@.len() == 0 || t.private_key_path@.len() == 0 {
        Err(err_info("missing_tls_identity"@, "config"@, None,
            "tls.certificate_path and tls.private_key_path must be configured"@, false))
    } else if !trusted_proxy_enabled && t.client_ca_path@.len() == 0 {
        Err(err_info("missing_client_ca"@, "config"@, None,
            "tls.client_ca_path must be configured when trusted proxy mode is disabled"@, false))
    } else {
        Ok(())
    }
}

/// The parse error of the first address that does not parse, if any.
pub open spec fn first_address_error(addrs: Seq<String>) -> Option<Seq<char>>
    decreases addrs.len(),
{
    if addrs.len() == 0 {
        None
    } else {
        match ip_address_parse(addrs[0]@) {
            Err(e) => Some(e),
            Ok(_) => first_address_error(addrs.drop_first()),
        }
    }
}

/// The outcome of checking the trusted proxy section.
pub open spec fn proxy_check(p: TrustedProxyConfig) -> Result<(), ErrorInfo> {
    if !p.enabled {
        Ok(())
    } else if p.allowed_remote_addrs@.len() == 0 {
        Err(err_info("empty_trusted_proxy_addrs"@, "config"@, None,
            "trusted_proxy.allowed_remote_addrs must not be empty when trusted proxy mode is enabled"@,
            false))
    } else {
        match first_address_error(p.allowed_remote_addrs@) {
            Some(e) => Err(err_info("invalid_trusted_proxy_addr"@, "config"@, None,
                "trusted proxy address could not be parsed: "@ + e, false)),
            None => if crate::text::is_blank(p.identity_header@) {
                Err(err_info("empty_identity_header"@, "config"@, None,
                    "trusted_proxy.identity_header must not be empty"@, false))
            } else {
                Ok(())
            },
        }
    }
}

/// Whether some configured address parses to the remote address.
pub open spec fn proxy_allows(p: TrustedProxyConfig, remote: IpAddress) -> bool {
    p.enabled && exists|i: int|
        0 <= i < p.allowed_remote_addrs@.len()
            && ip_address_parse(#[trigger] p.allowed_remote_addrs@[i]@) == Ok::<IpAddress, Seq<char>>(remote)
}

/// Whether every prefix in a list is absolute.
pub open spec fn all_absolute(prefixes: Seq<String>) -> bool {
    forall|i: int| 0 <= i < prefixes.len() ==> is_absolute_path(#[trigger] prefixes[i]@)
}

/// The outcome of checking the registration policy.
pub open spec fn policy_check(p: RegistrationPolicy) -> Result<(), ErrorInfo> {
    if !is_absolute_path(p.listen_path@) {
        Err(err_info("relative_registration_path"@, "config"@, None,
            "registration.listen_path must be absolute"@, false))
    } else if p.allowed_ipc_path_prefixes@.len() == 0 {
        Err(err_info("empty_allowed_ipc_path_prefixes"@, "config"@, None,
            "registration.allowed_ipc_path_prefixes must not be empty"@, false))
    } else if !all_absolute(p.allowed_ipc_path_prefixes@) {
        Err(err_info("relative_allowed_ipc_path_prefix"@, "config"@, None,
            "each allowed IPC path prefix must be absolute"@, false))
    } else if p.default_lease_seconds == 0 || p.max_lease_seconds == 0
        || p.default_lease_seconds > p.max_lease_seconds {
        Err(err_info("invalid_registration_lease_policy"@, "config"@, None,
            "registration lease values must be positive and default must not exceed max"@, false))
    } else {
        Ok(())
    }
}

/// Whether a registration policy admits an IPC path.
pub open spec fn path_allowed(p: RegistrationPolicy, ipc_path: Seq<char>) -> bool {
    is_absolute_path(ipc_path) && exists|i: int|
        0 <= i < p.allowed_ipc_path_prefixes@.len()
            && path_component_prefix(ipc_path, #[trigger] p.allowed_ipc_path_prefixes@[i]@)
}

/// The outcome of checking a whole configuration, section by section.
pub open spec fn config_check(c: DashboardRelayConfig) -> Result<(), ErrorInfo> {
    match listen_check(c.listen) {
        Err(e) => Err(e),
        Ok(_) => match proxy_check(c.trusted_proxy) {
            Err(e) => Err(e),
            Ok(_) => match tls_check(c.tls, c.trusted_proxy.enabled) {
                Err(e) => Err(e),
                Ok(_) => policy_check(c.registration),
            },
        },
    }
}

/// A configuration validates only with a server certificate and private key
/// configured, and a client CA unless a trusted proxy verifies clients. Once
/// the listen and trusted proxy sections pass, a configuration whose server
/// certificate path or private key path is empty is refused as missing its TLS
/// identity, and one with both but no client CA in mTLS mode is refused as
/// missing its client CA.
pub proof fn lemma_tls_identity_required(c: DashboardRelayConfig)
    ensures
        config_check(c) is Ok ==> c.tls.certificate_path@.len() > 0 && c.tls.private_key_path@.len() > 0
            && (c.trusted_proxy.enabled || c.tls.client_ca_path@.len() > 0),
        listen_check(c.listen) is Ok && proxy_check(c.trusted_proxy) is Ok && (c.tls.certificate_path@.len() == 0
            || c.tls.private_key_path@.len() == 0) ==> config_check(c) == Err::<(), ErrorInfo>(err_info(
            "missing_tls_identity"@, "config"@, None,
            "tls.certificate_path and tls.private_key_path must be configured"@, false)),
        listen_check(c.listen) is Ok && proxy_check(c.trusted_proxy) is Ok && c.tls.certificate_path@.len() > 0
            && c.tls.private_key_path@.len() > 0 && !c.trusted_proxy.enabled && c.tls.client_ca_path@.len() == 0
            ==> config_check(c) == Err::<(), ErrorInfo>(err_info("missing_client_ca"@, "config"@, None,
            "tls.client_ca_path must be configured when trusted proxy mode is disabled"@, false)),
{
}

impl DashboardRelayConfig {
    /// Checks the security shape of the configuration: `wss://`, mTLS or a
    /// trusted proxy, and the registration rules.
    pub fn validate(&self) -> (r: RelayResult<()>)
        ensures
            rv(r) == config_check(*self),
    {
        self.listen.validate()?;
        self.trusted_proxy.validate()?;
        self.tls.validate(self.trusted_proxy.enabled)?;
        self.registration.validate_policy()?;
        Ok(())
    }
}

impl ListenConfig {
    /// Checks that the bind address parses and the public address uses `wss://`.
    pub fn validate(&self) -> (r: RelayResult<()>)
        ensures
            rv(r) == listen_check(*self),
    {
        if let Some(error) = socket_addr_error(self.bind.as_str()) {
            let message = concat_str("listen.bind must be socket address: ", error.as_str());
            return Err(RelayError::new("invalid_bind_address", "config", None, message.as_str(), false));
        }
        match url_scheme(self.public_url.as_str()) {
            Err(error) => {
                let message = concat_str("listen.public_url could not be parsed: ", error.as_str());
                Err(RelayError::new("invalid_public_url", "config", None, message.as_str(), false))
            },
            Ok(scheme) => {
                if !crate::text::str_eq(scheme.as_str(), "wss") {
                    return Err(RelayError::new("invalid_public_url", "config", None,
                        "listen.public_url must use wss://", false));
                }
                Ok(())
            },
        }
    }
}

impl TlsConfig {
    /// Checks that the server identity is configured, and the client CA unless
    /// a trusted proxy verifies clients.
    pub fn validate(&self, trusted_proxy_enabled: bool) -> (r: RelayResult<()>)
        ensures
            rv(r) == tls_check(*self, trusted_proxy_enabled),
            r is Ok ==> self.certificate_path@.len() > 0 && self.private_key_path@.len() > 0
                && (trusted_proxy_enabled || self.client_ca_path@.len() > 0),
    {
        if self.certificate_path.as_str().is_empty() || self.private_key_path.as_str().is_empty() {
            return Err(RelayError::new("missing_tls_identity", "config", None,
                "tls.certificate_path and tls.private_key_path must be configured", false));
        }
        if !trusted_proxy_enabled && self.client_ca_path.as_str().is_empty() {
            return Err(RelayError::new("missing_client_ca", "config", None,
                "tls.client_ca_path must be configured when trusted proxy mode is disabled", false));
        }
        Ok(())
    }
}

impl TrustedProxyConfig {
    /// Checks that an enabled proxy lists parseable addresses and names an identity header.
    pub fn validate(&self) -> (r: RelayResult<()>)
        ensures
            rv(r) == proxy_check(*self),
    {
        if !self.enabled {
            return Ok(());
        }
        if self.allowed_remote_addrs.len() == 0 {
            return Err(RelayError::new("empty_trusted_proxy_addrs", "config", None,
                "trusted_proxy.allowed_remote_addrs must not be empty when trusted proxy mode is enabled",
                false));
        }
        let n = self.allowed_remote_addrs.len();
        let ghost addrs = self.allowed_remote_addrs@;
        let mut i: usize = 0;
        assert(addrs.subrange(0, n as int) =~= addrs);
        while i < n
            invariant
                n == addrs.len(),
                n > 0,
                self.enabled,
                addrs == self.allowed_remote_addrs@,
                i <= n,
                first_address_error(addrs) == first_address_error(addrs.subrange(i as int, n as int)),
            decreases n - i,
        {
            let ghost rest = addrs.subrange(i as int, n as int);
            assert(rest.drop_first() =~= addrs.subrange(i + 1, n as int));
            if let Err(error) = ip_address(self.allowed_remote_addrs[i].as_str()) {
                let message = concat_str("trusted proxy address could not be parsed: ", error.as_str());
                return Err(RelayError::new("invalid_trusted_proxy_addr", "config", None, message.as_str(), false));
            }
            i = i + 1;
        }
        assert(addrs.subrange(n as int, n as int) =~= Seq::<String>::empty());
        if crate::text::is_blank_str(self.identity_header.as_str()) {
            return Err(RelayError::new("empty_identity_header", "config", None,
                "trusted_proxy.identity_header must not be empty", false));
        }
        Ok(())
    }

    /// Whether the remote address is one of the trusted proxies.
    pub fn is_allowed_remote_addr(&self, remote_addr: IpAddress) -> (r: bool)
        ensures
            r == proxy_allows(*self, remote_addr),
    {
        if !self.enabled {
            return false;
        }
        let n = self.allowed_remote_addrs.len();
        let mut i: usize = 0;
        while i < n
            invariant
                n == self.allowed_remote_addrs@.len(),
                self.enabled,
                i <= n,
                forall|j: int| 0 <= j < i ==>
                    ip_address_parse(#[trigger] self.allowed_remote_addrs@[j]@) != Ok::<IpAddress, Seq<char>>(remote_addr),
            decreases n - i,
        {
            match ip_address(self.allowed_remote_addrs[i].as_str()) {
                Ok(allowed) => {
                    if allowed == remote_addr {
                        assert(ip_address_parse(self.allowed_remote_addrs@[i as int]@)
                            == Ok::<IpAddress, Seq<char>>(remote_addr));
                        return true;
                    }
                },
                Err(_) => {},
            }
            i = i + 1;
        }
        false
    }
}

impl RegistrationPolicy {
    /// Checks the registration entry point, the IPC path prefixes and the lease limits.
    pub fn validate_policy(&self) -> (r: RelayResult<()>)
        ensures
            rv(r) == policy_check(*self),
    {
        if !path_is_absolute(self.listen_path.as_str()) {
            return Err(RelayError::new("relative_registration_path", "config", None,
                "registration.listen_path must be absolute", false));
        }
        if self.allowed_ipc_path_prefixes.len() == 0 {
            return Err(RelayError::new("empty_allowed_ipc_path_prefixes", "config", None,
                "registration.allowed_ipc_path_prefixes must not be empty", false));
        }
        let n = self.allowed_ipc_path_prefixes.len();
        let mut i: usize = 0;
        while i < n
            invariant
                n == self.allowed_ipc_path_prefixes@.len(),
                n > 0,
                is_absolute_path(self.listen_path@),
                i <= n,
                forall|j: int| 0 <= j < i ==> is_absolute_path(#[trigger] self.allowed_ipc_path_prefixes@[j]@),
            decreases n - i,
        {
            if !path_is_absolute(self.allowed_ipc_path_prefixes[i].as_str()) {
                assert(!is_absolute_path(self.allowed_ipc_path_prefixes@[i as int]@));
                return Err(RelayError::new("relative_allowed_ipc_path_prefix", "config", None,
                    "each allowed IPC path prefix must be absolute", false));
            }
            i = i + 1;
        }
        if self.default_lease_seconds == 0 || self.max_lease_seconds == 0
            || self.default_lease_seconds > self.max_lease_seconds {
            return Err(RelayError::new("invalid_registration_lease_policy", "config", None,
                "registration lease values must be positive and default must not exceed max", false));
        }
        Ok(())
    }

    /// The file mode for the registration socket: the `permissions` text
    /// read as octal after its leading zeros; `None` when it does not parse.
    pub fn permission_mode(&self) -> (r: Option<u32>)
        ensures
            r == octal_parse(strip_leading_zeros(self.permissions@)),
    {
        let text = self.permissions.as_str();
        let n = text.unicode_len();
        let mut start: usize = 0;
        assert(text@.subrange(0, n as int) =~= text@);
        while start < n && text.get_char(start) == '0'
            invariant
                n == text@.len(),
                start <= n,
                strip_leading_zeros(text@) == strip_leading_zeros(text@.subrange(start as int, n as int)),
            decreases n - start,
        {
            let ghost rest = text@.subrange(start as int, n as int);
            assert(rest.drop_first() =~= text@.subrange(start + 1, n as int));
            start = start + 1;
        }
        proof {
            let rest = text@.subrange(start as int, n as int);
            if start < n {
                assert(rest[0] == text@[start as int]);
            }
        }
        let rest = text.substring_char(start, n);
        parse_octal_u32(rest)
    }

    /// Whether a target IPC path lies under an allowed prefix.
    pub fn ipc_path_is_allowed(&self, ipc_path: &str) -> (r: bool)
        ensures
            r == path_allowed(*self, ipc_path@),
    {
        if !path_is_absolute(ipc_path) {
            return false;
        }
        let n = self.allowed_ipc_path_prefixes.len();
        let mut i: usize = 0;
        while i < n
            invariant
                n == self.allowed_ipc_path_prefixes@.len(),
                is_absolute_path(ipc_path@),
                i <= n,
                forall|j: int| 0 <= j < i ==>
                    !path_component_prefix(ipc_path@, #[trigger] self.allowed_ipc_path_prefixes@[j]@),
            decreases n - i,
        {
            if path_starts_with(ipc_path, self.allowed_ipc_path_prefixes[i].as_str()) {
                assert(path_component_prefix(ipc_path@, self.allowed_ipc_path_prefixes@[i as int]@));
                return true;
            }
            i = i + 1;
        }
        false
    }
}

} // verus!
