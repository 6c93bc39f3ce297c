//! Remote identities derived from mTLS certificates or from a trusted proxy.
//!
//! The relay only trusts verified client certificates, or identity headers
//! passed by a proxy whose address is configured as trusted.

use vstd::prelude::*;
use sha2::Digest;
use vstd::string::*;

use crate::clock::{after_seconds, time_in_range, Timestamp, SECONDS_PER_DAY};
use crate::config::{proxy_allows, IpAddress, TrustedProxyConfig};
use crate::error::{err_info, rv, ErrorInfo, RelayError, RelayResult};
use crate::text::{concat_str, is_blank, same_ascii_lowercase, trimmed};

verus! {

/// Where a remote identity came from.
#[derive(Debug, Clone, Copy, PartialEq, Eq, Structural)]
pub enum IdentitySource {
    /// The identity comes from a client certificate.
    Mtls,
    /// The identity comes from a verified header passed by a trusted proxy.
    TrustedProxy,
}

/// An authenticated operator or service identity.
#[derive(Debug, Clone, PartialEq, Eq)]
pub struct RemoteIdentity {
    /// `client_identity` is the stable client key derived by the relay.
    pub client_identity: String,
    /// `subject` is the certificate subject or the subject verified by the proxy.
    pub subject: String,
    /// `issuer` is the certificate issuer, or the trusted-proxy marker.
    pub issuer: String,
    /// `serial_number` is the certificate serial, or the proxy header marker.
    pub serial_number: String,
    /// `principal` is the operator or service identity used for auditing.
    pub principal: String,
    /// `source` says where the identity came from.
    pub source: IdentitySource,
    /// `not_before` is the start of the identity's validity.
    pub not_before: Timestamp,
    /// `not_after` is the end of the identity's validity.
    pub not_after: Timestamp,
}

/// The fields of a client certificate that the relay reads.
#[derive(Debug, Clone, PartialEq, Eq)]
pub struct CertificateNames {
    /// The subject distinguished name, as displayed.
    pub subject: String,
    /// The issuer distinguished name, as displayed.
    pub issuer: String,
    /// The raw serial number as colon-separated hex.
    pub serial: String,
}

/// The SHA-256 digest of some bytes.
pub uninterp spec fn sha256_of(data: Seq<u8>) -> Seq<u8>;

/// What `x509_parser::parse_x509_certificate` yields for DER bytes: the
/// displayed subject and issuer names and the raw serial as a string, or the
/// displayed parse error.
pub uninterp spec fn x509_names(der: Seq<u8>) -> Result<(Seq<char>, Seq<char>, Seq<char>), Seq<char>>;

/// Calls `sha2::Sha256::digest`; the contract claims the 32-byte digest is the
/// named function of the input.
#[verifier::external_body]
fn sha256(data: &[u8]) -> (r: Vec<u8>)
    ensures
        r@ == sha256_of(data@),
        r@.len() == 32,
{
    sha2::Sha256::digest(data).to_vec()
}

/// Calls `x509_parser::parse_x509_certificate` and reads the parsed
/// certificate's subject, issuer (both displayed) and `raw_serial_as_string`;
/// on failure returns the displayed error. The contract claims the outcome is
/// the named function of the bytes.
#[verifier::external_body]
fn parse_certificate_names(der: &[u8]) -> (r: Result<CertificateNames, String>)
    ensures
        match r {
            Ok(n) => x509_names(der@) == Ok::<(Seq<char>, Seq<char>, Seq<char>), Seq<char>>(
                (n.subject@, n.issuer@, n.serial@)),
            Err(e) => x509_names(der@) == Err::<(Seq<char>, Seq<char>, Seq<char>), Seq<char>>(e@),
        },
{
    match x509_parser::parse_x509_certificate(der) {
        Ok((_, certificate)) => Ok(CertificateNames {
            subject: certificate.subject().to_string(),
            issuer: certificate.issuer().to_string(),
            serial: certificate.raw_serial_as_string(),
        }),
        Err(error) => Err(error.to_string()),
    }
}

/// The lowercase hexadecimal digit for a value below 16.
pub open spec fn hex_digit(n: int) -> char {
    "0123456789abcdef"@[n]
}

/// Two lowercase hexadecimal digits per byte.
pub open spec fn hex_lower(bytes: Seq<u8>) -> Seq<char>
    decreases bytes.len(),
{
    if bytes.len() == 0 {
        Seq::empty()
    } else {
        hex_lower(bytes.drop_last()) + seq![hex_digit(bytes.last() as int / 16), hex_digit(bytes.last() as int % 16)]
    }
}

/// The fingerprint identity of some bytes.
pub open spec fn fingerprint_of(data: Seq<u8>) -> Seq<char> {
    "mtls_cert_fingerprint:"@ + hex_lower(sha256_of(data))
}

/// A lowercase hexadecimal digit.
pub open spec fn is_lower_hex_char(c: char) -> bool {
    ('0' <= c && c <= '9') || ('a' <= c && c <= 'f')
}

/// The shape of a certificate identity: `mtls_cert_fingerprint:` followed by
/// 64 lowercase hexadecimal digits.
pub open spec fn is_fingerprint_text(s: Seq<char>) -> bool {
    &&& s.len() == 86
    &&& s.subrange(0, 22) == "mtls_cert_fingerprint:"@
    &&& forall|i: int| 22 <= i < s.len() ==> is_lower_hex_char(#[trigger] s[i])
}

proof fn lemma_hex_lower_shape(bytes: Seq<u8>)
    ensures
        hex_lower(bytes).len() == 2 * bytes.len(),
        forall|i: int| 0 <= i < hex_lower(bytes).len() ==> is_lower_hex_char(#[trigger] hex_lower(bytes)[i]),
    decreases bytes.len(),
{
    reveal_strlit("0123456789abcdef");
    assert forall|n: int| 0 <= n < 16 implies is_lower_hex_char(#[trigger] hex_digit(n)) by {
        assert("0123456789abcdef"@.len() == 16);
    }
    if bytes.len() > 0 {
        lemma_hex_lower_shape(bytes.drop_last());
        let b = bytes.last() as int;
        assert(0 <= b / 16 < 16 && 0 <= b % 16 < 16);
        assert(is_lower_hex_char(hex_digit(b / 16)));
        assert(is_lower_hex_char(hex_digit(b % 16)));
    }
}

proof fn lemma_fingerprint_shape(data: Seq<u8>)
    requires
        sha256_of(data).len() == 32,
    ensures
        is_fingerprint_text(fingerprint_of(data)),
{
    reveal_strlit("mtls_cert_fingerprint:");
    assert("mtls_cert_fingerprint:"@.len() == 22);
    lemma_hex_lower_shape(sha256_of(data));
    let s = fingerprint_of(data);
    let h = hex_lower(sha256_of(data));
    assert(s.subrange(0, 22) =~= "mtls_cert_fingerprint:"@);
    assert forall|i: int| 22 <= i < s.len() implies is_lower_hex_char(#[trigger] s[i]) by {
        assert(s[i] == h[i - 22]);
    }
}

/// The bytes hashed for a certificate identity given by its parts: the
/// UTF-8 subject, issuer and serial, separated by zero bytes.
pub open spec fn parts_bytes(subject: Seq<u8>, issuer: Seq<u8>, serial: Seq<u8>) -> Seq<u8> {
    subject + seq![0u8] + issuer + seq![0u8] + serial
}

/// Formats bytes as lowercase hexadecimal, two digits per byte.
pub fn lowercase_hex(bytes: &[u8]) -> (r: String)
    ensures
        r@ == hex_lower(bytes@),
{
    let digits = "0123456789abcdef";
    proof {
        reveal_strlit("0123456789abcdef");
    }
    let mut out = String::new();
    let n = bytes.len();
    let mut i: usize = 0;
    while i < n
        invariant
            n == bytes@.len(),
            i <= n,
            digits@ == "0123456789abcdef"@,
            digits@.len() == 16,
            out@ == hex_lower(bytes@.subrange(0, i as int)),
        decreases n - i,
    {
        let b = bytes[i];
        let hi = (b / 16) as usize;
        let lo = (b % 16) as usize;
        let high = digits.substring_char(hi, hi + 1);
        let low = digits.substring_char(lo, lo + 1);
        out.append(high);
        out.append(low);
        proof {
            let prefix = bytes@.subrange(0, i + 1);
            assert(prefix.drop_last() =~= bytes@.subrange(0, i as int));
            assert(prefix.last() == b);
            assert(high@ =~= seq![hex_digit(b as int / 16)]);
            assert(low@ =~= seq![hex_digit(b as int % 16)]);
        }
        i = i + 1;
    }
    assert(bytes@.subrange(0, n as int) =~= bytes@);
    out
}

fn push_bytes(v: &mut Vec<u8>, b: &[u8])
    ensures
        final(v)@ == old(v)@ + b@,
{
    let n = b.len();
    let mut i: usize = 0;
    while i < n
        invariant
            n == b@.len(),
            i <= n,
            v@ == old(v)@ + b@.subrange(0, i as int),
        decreases n - i,
    {
        v.push(b[i]);
        assert(b@.subrange(0, i + 1) =~= b@.subrange(0, i as int).push(b@[i as int]));
        i = i + 1;
    }
    assert(b@.subrange(0, n as int) =~= b@);
}

/// The fingerprint identity of whole certificate bytes.
fn fingerprint_identity(data: &[u8]) -> (r: String)
    ensures
        r@ == fingerprint_of(data@),
        is_fingerprint_text(r@),
{
    let digest = sha256(data);
    proof {
        lemma_fingerprint_shape(data@);
    }
    let hex = lowercase_hex(digest.as_slice());
    concat_str("mtls_cert_fingerprint:", hex.as_str())
}

/// The fingerprint identity of certificate parts.
fn fingerprint_identity_from_parts(subject: &[u8], issuer: &[u8], serial: &[u8]) -> (r: String)
    ensures
        r@ == fingerprint_of(parts_bytes(subject@, issuer@, serial@)),
        is_fingerprint_text(r@),
{
    let mut data: Vec<u8> = Vec::new();
    push_bytes(&mut data, subject);
    data.push(0u8);
    push_bytes(&mut data, issuer);
    data.push(0u8);
    push_bytes(&mut data, serial);
    assert(data@ =~= parts_bytes(subject@, issuer@, serial@));
    fingerprint_identity(data.as_slice())
}

/// Whether an identity is the one derived from verified certificate fields.
pub open spec fn is_mtls_identity(
    id: RemoteIdentity,
    subject: Seq<char>,
    issuer: Seq<char>,
    serial: Seq<char>,
    not_before: Timestamp,
    not_after: Timestamp,
) -> bool {
    &&& id.subject@ == subject
    &&& id.principal@ == subject
    &&& id.issuer@ == issuer
    &&& id.serial_number@ == serial
    &&& id.source == IdentitySource::Mtls
    &&& id.not_before == not_before
    &&& id.not_after == not_after
}

/// The refusal, if any, of verified certificate fields at a given time.
pub open spec fn mtls_refusal(subject: Seq<char>, not_before: Timestamp, not_after: Timestamp, now: Timestamp) -> Option<ErrorInfo> {
    if is_blank(subject) {
        Some(err_info("empty_certificate_subject"@, "auth"@, None,
            "client certificate subject must not be empty"@, false))
    } else if now.unix_nanos < not_before.unix_nanos || now.unix_nanos > not_after.unix_nanos {
        Some(err_info("certificate_expired"@, "auth"@, None,
            "client certificate is outside its validity window"@, false))
    } else {
        None
    }
}

/// Whether an identity is the one derived from a proxy-verified subject.
pub open spec fn is_proxy_identity(id: RemoteIdentity, subject: Seq<char>, now: Timestamp) -> bool {
    &&& id.client_identity@ == "trusted_proxy:"@ + subject
    &&& id.subject@ == subject
    &&& id.principal@ == subject
    &&& id.issuer@ == "trusted-proxy"@
    &&& id.serial_number@ == "trusted-proxy-header"@
    &&& id.source == IdentitySource::TrustedProxy
    &&& id.not_before == now
    &&& id.not_after.unix_nanos == after_seconds(now, 86_400)
}

/// The refusal of an empty proxy subject.
pub open spec fn proxy_subject_refusal() -> ErrorInfo {
    err_info("empty_proxy_subject"@, "auth"@, None, "trusted proxy identity header must not be empty"@, false)
}

/// The value of the first header whose name equals `name` ignoring ASCII case.
pub open spec fn header_value(headers: Seq<(String, String)>, name: Seq<char>) -> Option<Seq<char>>
    decreases headers.len(),
{
    if headers.len() == 0 {
        None
    } else if same_ascii_lowercase(headers[0].0@, name) {
        Some(headers[0].1@)
    } else {
        header_value(headers.drop_first(), name)
    }
}

impl RemoteIdentity {
    /// An equal copy of the identity.
    pub fn duplicate(&self) -> (r: Self)
        ensures
            r == *self,
    {
        RemoteIdentity {
            client_identity: self.client_identity.clone(),
            subject: self.subject.clone(),
            issuer: self.issuer.clone(),
            serial_number: self.serial_number.clone(),
            principal: self.principal.clone(),
            source: self.source,
            not_before: self.not_before,
            not_after: self.not_after,
        }
    }

    /// Creates an identity from verified certificate fields.
    pub fn from_verified_mtls_subject(
        subject: &str,
        issuer: &str,
        serial_number: &str,
        not_before: Timestamp,
        not_after: Timestamp,
        now: Timestamp,
    ) -> (r: RelayResult<Self>)
        ensures
            match mtls_refusal(subject@, not_before, not_after, now) {
                Some(e) => rv(r) == Err::<RemoteIdentity, ErrorInfo>(e),
                None => r matches Ok(id) && is_mtls_identity(id, subject@, issuer@, serial_number@, not_before, not_after)
                    && id.client_identity@ == fingerprint_of(
                        parts_bytes(subject.spec_bytes(), issuer.spec_bytes(), serial_number.spec_bytes()))
                    && is_fingerprint_text(id.client_identity@),
            },
    {
        if crate::text::is_blank_str(subject) {
            return Err(RelayError::new("empty_certificate_subject", "auth", None,
                "client certificate subject must not be empty", false));
        }
        if now.is_before(not_before) || not_after.is_before(now) {
            return Err(RelayError::new("certificate_expired", "auth", None,
                "client certificate is outside its validity window", false));
        }
        Ok(RemoteIdentity {
            client_identity: fingerprint_identity_from_parts(subject.as_bytes(), issuer.as_bytes(),
                serial_number.as_bytes()),
            subject: subject.to_owned(),
            issuer: issuer.to_owned(),
            serial_number: serial_number.to_owned(),
            principal: subject.to_owned(),
            source: IdentitySource::Mtls,
            not_before,
            not_after,
        })
    }

    /// Creates an identity from a subject verified by a trusted proxy; it is
    /// valid for one day from `now`.
    pub fn from_trusted_proxy_subject(subject: &str, now: Timestamp) -> (r: RelayResult<Self>)
        requires
            !is_blank(subject@) ==> time_in_range(after_seconds(now, 86_400)),
        ensures
            is_blank(subject@) ==> rv(r) == Err::<RemoteIdentity, ErrorInfo>(proxy_subject_refusal()),
            !is_blank(subject@) ==> (r matches Ok(id) && is_proxy_identity(id, subject@, now)),
    {
        if crate::text::is_blank_str(subject) {
            return Err(RelayError::new("empty_proxy_subject", "auth", None,
                "trusted proxy identity header must not be empty", false));
        }
        Ok(RemoteIdentity {
            client_identity: concat_str("trusted_proxy:", subject),
            subject: subject.to_owned(),
            issuer: "trusted-proxy".to_owned(),
            serial_number: "trusted-proxy-header".to_owned(),
            principal: subject.to_owned(),
            source: IdentitySource::TrustedProxy,
            not_before: now,
            not_after: now.plus_seconds(SECONDS_PER_DAY),
        })
    }
}

/// Derives remote identities from mTLS certificates or trusted proxy headers.
pub struct AuthContext;

/// The refusal of a connection that presents no client certificate.
pub open spec fn missing_certificate() -> ErrorInfo {
    err_info("missing_client_certificate"@, "auth"@, None, "client certificate must be present for mTLS mode"@, false)
}

/// The outcome of reading an identity from certificate bytes, as a predicate
/// on the result.
pub open spec fn mtls_der_outcome(der: Seq<u8>, now: Timestamp, r: Result<RemoteIdentity, ErrorInfo>) -> bool {
    if der.len() == 0 {
        r == Err::<RemoteIdentity, ErrorInfo>(missing_certificate())
    } else {
        match x509_names(der) {
            Err(e) => r == Err::<RemoteIdentity, ErrorInfo>(err_info("certificate_parse_failed"@, "auth"@,
                None, "client certificate could not be parsed: "@ + e, false)),
            Ok(names) => if is_blank(names.0) {
                r == Err::<RemoteIdentity, ErrorInfo>(err_info("empty_certificate_subject"@, "auth"@, None,
                    "client certificate subject must not be empty"@, false))
            } else {
                r matches Ok(id) && id.client_identity@ == fingerprint_of(der)
                    && is_fingerprint_text(id.client_identity@) && is_mtls_identity(id,
                    names.0, names.1, names.2, Timestamp { unix_nanos: (now.unix_nanos - 1_000_000_000) as i128 },
                    Timestamp { unix_nanos: after_seconds(now, 86_400) as i128 })
            },
        }
    }
}

/// The outcome of reading an identity through a trusted proxy, as a
/// predicate on the result.
pub open spec fn proxy_outcome(
    config: TrustedProxyConfig,
    remote_addr: IpAddress,
    headers: Seq<(String, String)>,
    now: Timestamp,
    r: Result<RemoteIdentity, ErrorInfo>,
) -> bool {
    if !config.enabled {
        r == Err::<RemoteIdentity, ErrorInfo>(err_info("trusted_proxy_disabled"@, "auth"@, None,
            "trusted proxy mode is disabled"@, false))
    } else if !proxy_allows(config, remote_addr) {
        r == Err::<RemoteIdentity, ErrorInfo>(err_info("untrusted_proxy"@, "auth"@, None,
            "identity header came from an untrusted remote address"@, false))
    } else {
        match header_value(headers, config.identity_header@) {
            None => r == Err::<RemoteIdentity, ErrorInfo>(err_info("missing_proxy_identity"@, "auth"@, None,
                "trusted proxy identity header is missing"@, false)),
            Some(v) => if is_blank(trimmed(v)) {
                r == Err::<RemoteIdentity, ErrorInfo>(proxy_subject_refusal())
            } else {
                r matches Ok(id) && is_proxy_identity(id, trimmed(v), now)
            },
        }
    }
}

impl AuthContext {
    /// Reads an mTLS identity from DER certificate bytes.
    pub fn identity_from_mtls_der(certificate_der: &[u8], now: Timestamp) -> (r: RelayResult<RemoteIdentity>)
        requires
            certificate_der@.len() > 0 ==> time_in_range(now.unix_nanos - 1_000_000_000) && time_in_range(
                after_seconds(now, 86_400)),
        ensures
            mtls_der_outcome(certificate_der@, now, rv(r)),
    {
        if certificate_der.len() == 0 {
            return Err(RelayError::new("missing_client_certificate", "auth", None,
                "client certificate must be present for mTLS mode", false));
        }
        let names = match parse_certificate_names(certificate_der) {
            Ok(names) => names,
            Err(error) => {
                let message = concat_str("client certificate could not be parsed: ", error.as_str());
                return Err(RelayError::new("certificate_parse_failed", "auth", None, message.as_str(), false));
            },
        };
        let mut identity = RemoteIdentity::from_verified_mtls_subject(
            names.subject.as_str(),
            names.issuer.as_str(),
            names.serial.as_str(),
            now.plus_seconds(-1),
            now.plus_seconds(SECONDS_PER_DAY),
            now,
        )?;
        identity.client_identity = fingerprint_identity(certificate_der);
        Ok(identity)
    }

    /// Reads an identity passed by a trusted proxy: the proxy must be enabled,
    /// the remote address must be trusted, and the configured header present.
    pub fn identity_from_trusted_proxy(
        config: &TrustedProxyConfig,
        remote_addr: IpAddress,
        headers: &Vec<(String, String)>,
        now: Timestamp,
    ) -> (r: RelayResult<RemoteIdentity>)
        requires
            config.enabled && (header_value(headers@, config.identity_header@) matches Some(v) && !is_blank(
                trimmed(v))) ==> time_in_range(after_seconds(now, 86_400)),
        ensures
            proxy_outcome(*config, remote_addr, headers@, now, rv(r)),
    {
        if !config.enabled {
            return Err(RelayError::new("trusted_proxy_disabled", "auth", None,
                "trusted proxy mode is disabled", false));
        }
        if !config.is_allowed_remote_addr(remote_addr) {
            return Err(RelayError::new("untrusted_proxy", "auth", None,
                "identity header came from an untrusted remote address", false));
        }
        let n = headers.len();
        let ghost hs = headers@;
        let mut i: usize = 0;
        assert(hs.subrange(0, n as int) =~= hs);
        while i < n
            invariant
                n == hs.len(),
                hs == headers@,
                config.enabled,
                proxy_allows(*config, remote_addr),
                (header_value(hs, config.identity_header@) matches Some(v) && !is_blank(trimmed(v)))
                    ==> time_in_range(after_seconds(now, 86_400)),
                i <= n,
                header_value(hs, config.identity_header@)
                    == header_value(hs.subrange(i as int, n as int), config.identity_header@),
            decreases n - i,
        {
            let ghost rest = hs.subrange(i as int, n as int);
            assert(rest.drop_first() =~= hs.subrange(i + 1, n as int));
            assert(rest[0] == headers@[i as int]);
            if crate::text::eq_ignore_ascii_case(headers[i].0.as_str(), config.identity_header.as_str()) {
                let subject = crate::text::trim_str(headers[i].1.as_str());
                return RemoteIdentity::from_trusted_proxy_subject(subject.as_str(), now);
            }
            i = i + 1;
        }
        Err(RelayError::new("missing_proxy_identity", "auth", None,
            "trusted proxy identity header is missing", false))
    }

    /// Chooses how a new connection is authenticated: through the trusted
    /// proxy when it is enabled, otherwise from the peer certificate.
    pub fn connection_identity(
        config: &TrustedProxyConfig,
        remote_addr: IpAddress,
        headers: &Vec<(String, String)>,
        peer_certificate: &Option<Vec<u8>>,
        now: Timestamp,
    ) -> (r: RelayResult<RemoteIdentity>)
        requires
            config.enabled && (header_value(headers@, config.identity_header@) matches Some(v) && !is_blank(
                trimmed(v))) ==> time_in_range(after_seconds(now, 86_400)),
            !config.enabled && (peer_certificate matches Some(der) && der@.len() > 0) ==> time_in_range(
                now.unix_nanos - 1_000_000_000) && time_in_range(after_seconds(now, 86_400)),
        ensures
            config.enabled ==> proxy_outcome(*config, remote_addr, headers@, now, rv(r)),
            !config.enabled ==> match peer_certificate {
                None => rv(r) == Err::<RemoteIdentity, ErrorInfo>(missing_certificate()),
                Some(der) => mtls_der_outcome(der@, now, rv(r)),
            },
    {
        if config.enabled {
            Self::identity_from_trusted_proxy(config, remote_addr, headers, now)
        } else {
            match peer_certificate {
                None => Err(RelayError::new("missing_client_certificate", "auth", None,
                    "client certificate must be present for mTLS mode", false)),
                Some(der) => Self::identity_from_mtls_der(der.as_slice(), now),
            }
        }
    }
}

} // verus!
