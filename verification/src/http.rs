//! Fetching from the network: what may be fetched, how much of it, and when to try again.
use vstd::prelude::*;

use crate::text::{same, strip_prefix, strip_suffix};

verus! {

/// A generous ceiling for a single download when the expected size isn't known ahead of time.
/// Mod jars and loader installers are far below this; it exists only so a hostile or misbehaving
/// endpoint can't stream an unbounded body straight into memory and OOM the process.
pub const DEFAULT_MAX_DOWNLOAD: u64 = 1024 * 1024 * 1024;

/// Slack added to a known content size before it becomes the cap, so a legitimate file that is a
/// few bytes larger than the recorded size (re-compression, metadata) still downloads.
pub const SIZE_MARGIN: u64 = 64 * 1024;

/// Ceiling for a sibling checksum file (`<url>.sha256`). A checksum line is a few dozen bytes; the
/// cap only exists so a hostile host can't stream an unbounded body in place of a checksum.
pub const MAX_CHECKSUM: u64 = 64 * 1024;

/// Ceiling for a metadata/API JSON body. Provider catalogs and release manifests are small; the cap
/// keeps a hostile or misbehaving host from streaming an unbounded body into a JSON decode.
pub const MAX_JSON: u64 = 8 * 1024 * 1024;

/// The most redirect hops a download will follow. Matches reqwest's own default; re-declared here
/// because the guarding custom policy replaces the built-in redirect limit.
pub const MAX_REDIRECTS: usize = 10;

/// The one User-Agent every lode request sends. Providers key rate limits and etiquette off it,
/// so it names the tool and its repo; kept in one place so every request stays in lockstep.
pub const USER_AGENT: &'static str = "lode/0.2.1 (github.com/giovani-freitag/lode)";

/// How many seconds to wait for a TCP+TLS connection before giving up, the same for every client.
pub const CONNECT_TIMEOUT_SECS: u64 = 15;

/// Overall deadline in seconds for a metadata/API request. These bodies are tiny JSON, so a
/// whole-request cap is the right guard: a provider that stalls can't hang the command forever.
pub const REQUEST_TIMEOUT_SECS: u64 = 60;

/// Overall deadline in seconds for a streamed download. Far more generous than the metadata timeout
/// so a large jar or loader installer over a slow link isn't cut off, while a truly hung transfer
/// still eventually aborts instead of blocking forever.
pub const DOWNLOAD_TIMEOUT_SECS: u64 = 600;

/// Maximum attempts a retryable operation makes before surfacing the last error.
pub const MAX_ATTEMPTS: u32 = 3;

// ---- where a download may go ------------------------------------------------------------------

/// An internet address: the four octets of version 4, or the eight segments of version 6.
#[derive(Debug, Clone, Copy, PartialEq, Eq, Structural)]
pub enum Ip {
    V4(u8, u8, u8, u8),
    V6(u16, u16, u16, u16, u16, u16, u16, u16),
}

/// A version 4 address that is not publicly routable: loopback, private, link-local (which covers
/// the `169.254.169.254` cloud metadata service), unspecified, broadcast, documentation or CGNAT.
pub open spec fn internal_v4(a: u8, b: u8, c: u8, d: u8) -> bool {
    ||| a == 127
    ||| a == 10
    ||| a == 172 && 16 <= b <= 31
    ||| a == 192 && b == 168
    ||| a == 169 && b == 254
    ||| a == 0 && b == 0 && c == 0 && d == 0
    ||| a == 255 && b == 255 && c == 255 && d == 255
    ||| a == 192 && b == 0 && c == 2
    ||| a == 198 && b == 51 && c == 100
    ||| a == 203 && b == 0 && c == 113
    ||| a == 100 && 64 <= b <= 127
}

/// An address a download must never reach. A version 4 address mapped into version 6 counts as
/// that version 4 address; otherwise the loopback, unspecified, unique-local and link-local
/// addresses of version 6 count.
pub open spec fn internal(ip: Ip) -> bool {
    match ip {
        Ip::V4(a, b, c, d) => internal_v4(a, b, c, d),
        Ip::V6(s0, s1, s2, s3, s4, s5, s6, s7) => if s0 == 0 && s1 == 0 && s2 == 0 && s3 == 0 && s4
            == 0 && s5 == 0xffff {
            internal_v4(
                (s6 / 256) as u8,
                (s6 % 256) as u8,
                (s7 / 256) as u8,
                (s7 % 256) as u8,
            )
        } else {
            ||| s0 == 0 && s1 == 0 && s2 == 0 && s3 == 0 && s4 == 0 && s5 == 0 && s6 == 0 && (s7
                == 0 || s7 == 1)
            ||| 0xfc00 <= s0 <= 0xfdff
            ||| 0xfe80 <= s0 <= 0xfebf
        },
    }
}

fn is_blocked_v4(a: u8, b: u8, c: u8, d: u8) -> (r: bool)
    ensures
        r == internal_v4(a, b, c, d),
{
    a == 127 || a == 10 || (a == 172 && 16 <= b && b <= 31) || (a == 192 && b == 168) || (a == 169
        && b == 254) || (a == 0 && b == 0 && c == 0 && d == 0) || (a == 255 && b == 255 && c == 255
        && d == 255) || (a == 192 && b == 0 && c == 2) || (a == 198 && b == 51 && c == 100) || (a
        == 203 && b == 0 && c == 113) || is_cgnat(a, b)
}

/// CGNAT / shared address space, `100.64.0.0/10` (RFC 6598).
fn is_cgnat(a: u8, b: u8) -> (r: bool)
    ensures
        r == (a == 100 && 64 <= b <= 127),
{
    a == 100 && 64 <= b && b <= 127
}

/// IPv6 unique-local addresses, `fc00::/7` (RFC 4193), the v6 analogue of RFC 1918 private space.
fn is_v6_unique_local(first: u16) -> (r: bool)
    ensures
        r == (0xfc00 <= first <= 0xfdff),
{
    assert((first & 0xfe00) == 0xfc00 <==> (0xfc00 <= first && first <= 0xfdff)) by (bit_vector);
    (first & 0xfe00) == 0xfc00
}

/// IPv6 link-local addresses, `fe80::/10`.
fn is_v6_link_local(first: u16) -> (r: bool)
    ensures
        r == (0xfe80 <= first <= 0xfebf),
{
    assert((first & 0xffc0) == 0xfe80 <==> (0xfe80 <= first && first <= 0xfebf)) by (bit_vector);
    (first & 0xffc0) == 0xfe80
}

/// Whether an address is in a range a download must never reach: loopback, private, link-local
/// (which covers the `169.254.169.254` cloud metadata service), CGNAT, unspecified/broadcast, or
/// the IPv6 unique-local / link-local equivalents. IPv4-mapped IPv6 is unwrapped so an internal v4
/// tunneled through v6 is caught.
pub fn is_blocked_ip(ip: Ip) -> (r: bool)
    ensures
        r == internal(ip),
{
    match ip {
        Ip::V4(a, b, c, d) => is_blocked_v4(a, b, c, d),
        Ip::V6(s0, s1, s2, s3, s4, s5, s6, s7) => {
            let zeros = s0 == 0 && s1 == 0 && s2 == 0 && s3 == 0 && s4 == 0;
            if zeros && s5 == 0xffff {
                return is_blocked_v4(
                    (s6 / 256) as u8,
                    (s6 % 256) as u8,
                    (s7 / 256) as u8,
                    (s7 % 256) as u8,
                );
            }
            (zeros && s5 == 0 && s6 == 0 && (s7 == 0 || s7 == 1)) || is_v6_unique_local(s0)
                || is_v6_link_local(s0)
        },
    }
}

/// Why a destination is refused.
#[derive(Debug, Clone, Copy, PartialEq, Eq, Structural)]
pub enum GuardFault {
    /// The URL is not https.
    NotHttps,
    /// The URL has no host.
    NoHost,
    /// The host is, or resolves to, a non-routable or internal address.
    Internal(Ip),
    /// Too many redirects.
    TooManyRedirects,
}

/// What is wrong with a destination: the first fault that applies.
pub open spec fn destination_fault(
    scheme: Seq<char>,
    has_host: bool,
    addresses: Seq<Ip>,
) -> Option<GuardFault> {
    if scheme != "https"@ {
        Some(GuardFault::NotHttps)
    } else if !has_host {
        Some(GuardFault::NoHost)
    } else {
        first_internal(addresses)
    }
}

/// The first address that a download must never reach.
pub open spec fn first_internal(addresses: Seq<Ip>) -> Option<GuardFault>
    decreases addresses.len(),
{
    if addresses.len() == 0 {
        None
    } else if internal(addresses[0]) {
        Some(GuardFault::Internal(addresses[0]))
    } else {
        first_internal(addresses.drop_first())
    }
}

/// The single choke point for destinations. A download destination must be `https` and must not
/// resolve to a non-routable or internal address: loopback, link-local (incl. the `169.254.169.254`
/// cloud metadata endpoint), private, CGNAT, or the IPv6 equivalents. Applied to the initial URL of
/// every download and re-applied to each redirect hop, so neither an attacker-authored URL nor a
/// public host that 30x-redirects inward can reach an internal service. No host allowlist:
/// self-hosted mavens and `--from-url` are first-class, so the guard is by address class, not by
/// name. `addresses` holds the host itself where it is a literal address, and otherwise *every*
/// address that it resolves to; an unresolvable host has none, and the real connection would fail on
/// its own anyway.
pub fn guard_download_url(scheme: &str, has_host: bool, addresses: &Vec<Ip>) -> (r: Result<
    (),
    GuardFault,
>)
    ensures
        r == (match destination_fault(scheme@, has_host, addresses@) {
            Some(fault) => Err::<(), GuardFault>(fault),
            None => Ok(()),
        }),
{
    if !same(scheme, "https") {
        return Err(GuardFault::NotHttps);
    }
    if !has_host {
        return Err(GuardFault::NoHost);
    }
    let mut i: usize = 0;
    assert(addresses@.skip(0) =~= addresses@);
    while i < addresses.len()
        invariant
            i <= addresses@.len(),
            scheme@ == "https"@,
            has_host,
            first_internal(addresses@) == first_internal(addresses@.skip(i as int)),
        decreases addresses.len() - i,
    {
        assert(addresses@.skip(i as int)[0] == addresses@[i as int]);
        if is_blocked_ip(addresses[i]) {
            return Err(GuardFault::Internal(addresses[i]));
        }
        assert(addresses@.skip(i as int).drop_first() =~= addresses@.skip(i + 1));
        i = i + 1;
    }
    Ok(())
}

/// Whether a redirect is followed: the guard is run again on every hop, and the number of hops is
/// capped. A blocked or non-https redirect target aborts the request instead of being followed.
pub fn follow_redirect(
    previous: usize,
    scheme: &str,
    has_host: bool,
    addresses: &Vec<Ip>,
) -> (r: Result<(), GuardFault>)
    ensures
        r == (if previous >= MAX_REDIRECTS {
            Err::<(), GuardFault>(GuardFault::TooManyRedirects)
        } else {
            match destination_fault(scheme@, has_host, addresses@) {
                Some(fault) => Err(fault),
                None => Ok(()),
            }
        }),
{
    if previous >= MAX_REDIRECTS {
        return Err(GuardFault::TooManyRedirects);
    }
    guard_download_url(scheme, has_host, addresses)
}

/// The host without the `[..]` brackets a URL wraps an IPv6 literal in.
pub fn bare_host(host: &str) -> (r: String)
    ensures
        r@ == (if "["@.is_prefix_of(host@) && "]"@.is_suffix_of(host@.skip(1)) {
            host@.skip(1).take(host@.len() - 2)
        } else {
            host@
        }),
{
    proof {
        reveal_strlit("[");
        reveal_strlit("]");
    }
    match strip_prefix(host, "[") {
        Some(rest) => match strip_suffix(rest.as_str(), "]") {
            Some(inner) => inner,
            None => host.to_owned(),
        },
        None => host.to_owned(),
    }
}

// ---- how much is read -------------------------------------------------------------------------

/// A body was longer than its cap.
#[derive(Debug, Clone, Copy, PartialEq, Eq, Structural)]
pub struct OverCap;

/// A response body as it streams in, under a cap.
#[derive(Debug)]
pub struct CappedBody {
    pub bytes: Vec<u8>,
    pub max: u64,
}

/// What has been read once the next chunk is, or nothing where that is over the cap.
pub open spec fn with_chunk(read: Seq<u8>, chunk: Seq<u8>, max: int) -> Option<Seq<u8>> {
    if read.len() + chunk.len() <= max {
        Some(read + chunk)
    } else {
        None
    }
}

impl CappedBody {
    /// The body is within its cap.
    pub open spec fn valid(&self) -> bool {
        self.bytes@.len() <= self.max
    }

    /// Start to read a body of at most `max` bytes. A length that the server advertises is refused
    /// early when it is over the cap; the running count is the real guard.
    pub fn start(max: u64, advertised: Option<u64>) -> (r: Result<CappedBody, OverCap>)
        ensures
            match r {
                Ok(body) => body.valid() && body.max == max && body.bytes@ == Seq::<u8>::empty()
                    && !(advertised matches Some(len) && len > max),
                Err(_) => advertised matches Some(len) && len > max,
            },
    {
        match advertised {
            Some(len) => {
                if len > max {
                    return Err(OverCap);
                }
            },
            None => {},
        }
        Ok(CappedBody { bytes: Vec::new(), max })
    }

    /// Take the next chunk, unless the body would run past its cap: a truncated or lying
    /// `Content-Length` can't get past the running byte counter.
    pub fn take(&mut self, chunk: &[u8]) -> (r: Result<(), OverCap>)
        requires
            old(self).valid(),
        ensures
            final(self).valid(),
            final(self).max == old(self).max,
            match r {
                Ok(_) => old(self).bytes@.len() + chunk@.len() <= old(self).max
                    && final(self).bytes@ == old(self).bytes@ + chunk@,
                Err(_) => old(self).bytes@.len() + chunk@.len() > old(self).max
                    && final(self).bytes@ == old(self).bytes@,
            },
            with_chunk(old(self).bytes@, chunk@, old(self).max as int) == (match r {
                Ok(_) => Some(final(self).bytes@),
                Err(_) => None,
            }),
    {
        let read: u64 = self.bytes.len() as u64;
        if chunk.len() as u64 > self.max - read {
            return Err(OverCap);
        }
        self.bytes.extend_from_slice(chunk);
        assert(self.bytes@ =~= old(self).bytes@ + chunk@);
        Ok(())
    }
}

/// The chunks one after the other.
pub open spec fn concatenated(chunks: Seq<Seq<u8>>) -> Seq<u8>
    decreases chunks.len(),
{
    if chunks.len() == 0 {
        Seq::empty()
    } else {
        concatenated(chunks.drop_last()) + chunks.last()
    }
}

/// What is read of a body that comes in chunks: all of it, or nothing where it is over the cap.
pub open spec fn read_under_cap(chunks: Seq<Seq<u8>>, max: u64) -> Option<Seq<u8>>
    decreases chunks.len(),
{
    if chunks.len() == 0 {
        Some(Seq::empty())
    } else {
        match read_under_cap(chunks.drop_last(), max) {
            Some(read) => with_chunk(read, chunks.last(), max as int),
            None => None,
        }
    }
}

/// A body is read whole exactly when it is within the cap; what is read is never longer.
pub proof fn cap_decides(chunks: Seq<Seq<u8>>, max: u64)
    ensures
        read_under_cap(chunks, max) == (if concatenated(chunks).len() <= max {
            Some(concatenated(chunks))
        } else {
            None
        }),
    decreases chunks.len(),
{
    if chunks.len() > 0 {
        cap_decides(chunks.drop_last(), max);
    }
}

// ---- trying again -----------------------------------------------------------------------------

/// What is known of a failed request: the status of the response where there was one, and which
/// kind of transport fault it was.
#[derive(Debug, Clone, Copy, PartialEq, Eq, Structural)]
pub struct RequestFault {
    pub status: Option<u16>,
    pub connect: bool,
    pub timeout: bool,
    pub request: bool,
}

/// A fault that may go away: a transport fault, or the response 429 or 5xx.
pub open spec fn transient(fault: Option<RequestFault>) -> bool {
    match fault {
        Some(f) => match f.status {
            Some(status) => status == 429 || 500 <= status <= 599,
            None => f.connect || f.timeout || f.request,
        },
        None => false,
    }
}

/// Whether a failed operation is worth retrying. Transport faults (connect/timeout/broken body)
/// and the transient server responses (429, 5xx) are retried; a definitive 4xx like 401/404 is
/// the server's final word and must never be retried. `None` is an error that is no request fault.
pub fn is_retryable(fault: Option<RequestFault>) -> (r: bool)
    ensures
        r == transient(fault),
{
    match fault {
        Some(f) => match f.status {
            Some(status) => status == 429 || (500 <= status && status <= 599),
            None => f.connect || f.timeout || f.request,
        },
        None => false,
    }
}

/// The pause in milliseconds after a failed attempt: 200 after the first, doubled each time.
pub open spec fn pause_after(attempt: u32) -> nat
    decreases attempt,
{
    if attempt <= 1 {
        200
    } else {
        2 * pause_after((attempt - 1) as u32)
    }
}

/// The next attempt and the pause before it, or nothing where the failure is final.
pub open spec fn next_attempt(attempt: u32, retryable: bool) -> Option<(int, nat)> {
    if retryable && attempt < MAX_ATTEMPTS {
        Some((attempt + 1, pause_after(attempt)))
    } else {
        None
    }
}

/// The attempts at a retryable operation.
#[derive(Debug)]
pub struct Retry {
    pub attempt: u32,
}

impl Retry {
    pub open spec fn valid(&self) -> bool {
        1 <= self.attempt <= MAX_ATTEMPTS
    }

    /// The first attempt.
    pub fn start() -> (r: Retry)
        ensures
            r.valid(),
            r.attempt == 1,
    {
        Retry { attempt: 1 }
    }

    /// What to do after the current attempt failed: pause for so many milliseconds and try again,
    /// with exponential backoff, up to `MAX_ATTEMPTS`; or give up. A non-retryable error (or the
    /// last attempt) surfaces immediately.
    pub fn failed(&mut self, retryable: bool) -> (r: Option<u64>)
        requires
            old(self).valid(),
        ensures
            final(self).valid(),
            match r {
                Some(pause) => retryable && old(self).attempt < MAX_ATTEMPTS
                    && final(self).attempt == old(self).attempt + 1 && pause == pause_after(
                    old(self).attempt,
                ),
                None => (!retryable || old(self).attempt == MAX_ATTEMPTS) && final(self).attempt
                    == old(self).attempt,
            },
            next_attempt(old(self).attempt, retryable) == (match r {
                Some(pause) => Some((final(self).attempt as int, pause as nat)),
                None => None,
            }),
    {
        if self.attempt >= MAX_ATTEMPTS || !retryable {
            return None;
        }
        proof {
            reveal_with_fuel(pause_after, 3);
        }
        let pause: u64 = if self.attempt == 1 {
            200
        } else {
            400
        };
        self.attempt = self.attempt + 1;
        Some(pause)
    }
}

// ---- laws -------------------------------------------------------------------------------------

/// An accepted destination is https, has a host, and none of the addresses behind it is internal.
pub proof fn accepted_destinations_are_public(scheme: Seq<char>, has_host: bool, addresses: Seq<Ip>)
    ensures
        destination_fault(scheme, has_host, addresses) is None <==> scheme == "https"@ && has_host
            && forall|i: int| 0 <= i < addresses.len() ==> !internal(#[trigger] addresses[i]),
{
    nothing_internal(addresses);
}

proof fn nothing_internal(addresses: Seq<Ip>)
    ensures
        first_internal(addresses) is None <==> forall|i: int|
            0 <= i < addresses.len() ==> !internal(#[trigger] addresses[i]),
    decreases addresses.len(),
{
    if addresses.len() > 0 {
        let rest = addresses.drop_first();
        nothing_internal(rest);
        assert(forall|i: int| 0 <= i < rest.len() ==> rest[i] == #[trigger] addresses[i + 1]);
        if !internal(addresses[0]) && first_internal(rest) is None {
            assert forall|i: int| 0 <= i < addresses.len() implies !internal(#[trigger] addresses[i])
                by {
                if i > 0 {
                    assert(!internal(rest[i - 1]));
                }
            }
        }
        if forall|i: int| 0 <= i < addresses.len() ==> !internal(#[trigger] addresses[i]) {
            assert forall|i: int| 0 <= i < rest.len() implies !internal(#[trigger] rest[i]) by {
                assert(!internal(addresses[i + 1]));
            }
        }
    }
}

/// An internal version 4 address stays internal when it is mapped into version 6.
pub proof fn mapping_hides_nothing(a: u8, b: u8, c: u8, d: u8)
    ensures
        internal(
            Ip::V6(0, 0, 0, 0, 0, 0xffff, (a * 256 + b) as u16, (c * 256 + d) as u16),
        ) == internal(Ip::V4(a, b, c, d)),
{
}

/// A definitive answer of the server is never retried.
pub proof fn definitive_answers_are_not_retried(status: u16, connect: bool, timeout: bool, request: bool)
    requires
        400 <= status < 500,
        status != 429,
    ensures
        !transient(Some(RequestFault { status: Some(status), connect, timeout, request })),
{
}

/// The version 4 addresses that are refused, as ranges of numbers: those of this host, of private and
/// link-local networks, of carrier networks, of documentation, and the two that stand for none and all.
pub proof fn internal_addresses_are_these_ranges(a: u8, b: u8, c: u8, d: u8)
    ensures
        ({
            let n = a * 0x1000000 + b * 0x10000 + c * 0x100 + d;
            internal(Ip::V4(a, b, c, d)) <==> {
                ||| 0x0a000000 <= n <= 0x0affffff
                ||| 0x7f000000 <= n <= 0x7fffffff
                ||| 0xac100000 <= n <= 0xac1fffff
                ||| 0xc0a80000 <= n <= 0xc0a8ffff
                ||| 0xa9fe0000 <= n <= 0xa9feffff
                ||| 0x64400000 <= n <= 0x647fffff
                ||| 0xc0000200 <= n <= 0xc00002ff
                ||| 0xc6336400 <= n <= 0xc63364ff
                ||| 0xcb007100 <= n <= 0xcb0071ff
                ||| n == 0
                ||| n == 0xffffffff
            }
        }),
{
}

/// The version 6 addresses that are refused, apart from those that stand for a version 4 address: the
/// unspecified one, that of this host, and the unique local and link-local ones, told by their first bits.
pub proof fn internal_version_6_addresses_are_these(s0: u16, s1: u16, s7: u16)
    ensures
        s0 != 0 ==> (internal(Ip::V6(s0, s1, 0, 0, 0, 0, 0, s7)) <==> s0 as int / 0x200 == 0x7e || s0
            as int / 0x40 == 0x3fa),
        s0 == 0 && s1 == 0 ==> (internal(Ip::V6(s0, s1, 0, 0, 0, 0, 0, s7)) <==> s7 <= 1),
        s0 == 0 && s1 != 0 ==> !internal(Ip::V6(s0, s1, 0, 0, 0, 0, 0, s7)),
{
}

/// A refused destination is not https, has no host, or resolves to an internal address: the first one.
pub proof fn refused_destinations_say_why(scheme: Seq<char>, has_host: bool, addresses: Seq<Ip>)
    ensures
        match destination_fault(scheme, has_host, addresses) {
            None => scheme == "https"@ && has_host,
            Some(GuardFault::NotHttps) => scheme != "https"@,
            Some(GuardFault::NoHost) => scheme == "https"@ && !has_host,
            Some(GuardFault::Internal(ip)) => scheme == "https"@ && has_host && exists|i: int|
                0 <= i < addresses.len() && #[trigger] addresses[i] == ip && internal(ip)
                    && forall|j: int| 0 <= j < i ==> !internal(#[trigger] addresses[j]),
            Some(GuardFault::TooManyRedirects) => false,
        },
{
    the_first_internal_address(addresses);
}

proof fn the_first_internal_address(addresses: Seq<Ip>)
    ensures
        match first_internal(addresses) {
            Some(GuardFault::Internal(ip)) => exists|i: int|
                0 <= i < addresses.len() && #[trigger] addresses[i] == ip && internal(ip)
                    && forall|j: int| 0 <= j < i ==> !internal(#[trigger] addresses[j]),
            Some(_) => false,
            None => true,
        },
    decreases addresses.len(),
{
    if addresses.len() > 0 {
        let rest = addresses.drop_first();
        the_first_internal_address(rest);
        if internal(addresses[0]) {
            assert(addresses[0] == addresses[0]);
        } else if first_internal(rest) is Some {
            let ip = first_internal(rest)->0->Internal_0;
            let i = choose|i: int|
                0 <= i < rest.len() && #[trigger] rest[i] == ip && internal(ip) && forall|j: int|
                    0 <= j < i ==> !internal(#[trigger] rest[j]);
            assert(addresses[i + 1] == ip);
            assert forall|j: int| 0 <= j < i + 1 implies !internal(#[trigger] addresses[j]) by {
                if j > 0 {
                    assert(!internal(rest[j - 1]));
                }
            }
        }
    }
}

/// A redirect is followed like a first request, and no more than ten of them are.
pub proof fn redirects_are_guarded(
    previous: usize,
    scheme: &str,
    has_host: bool,
    addresses: &Vec<Ip>,
    r: Result<(), GuardFault>,
)
    requires
        call_ensures(follow_redirect, (previous, scheme, has_host, addresses), r),
    ensures
        r is Ok <==> previous < 10 && destination_fault(scheme@, has_host, addresses@) is None,
{
}

/// A request is tried again exactly where the server is overloaded or at fault, or where none answered;
/// and each pause is twice the one before, from a fifth of a second on.
pub proof fn passing_faults_are_tried_again(fault: RequestFault, attempt: u32)
    requires
        1 <= attempt < u32::MAX,
    ensures
        !transient(None),
        fault.status matches Some(status) ==> (transient(Some(fault)) <==> status == 429 || (status
            >= 500 && status < 600)),
        fault.status is None ==> (transient(Some(fault)) <==> fault.connect || fault.timeout
            || fault.request),
        pause_after(1) == 200,
        pause_after((attempt + 1) as u32) == 2 * pause_after(attempt),
{
}

/// The brackets around a version 6 address are no part of the host.
pub proof fn brackets_are_no_part_of_a_host(host: &str, address: Seq<char>, r: String)
    requires
        call_ensures(bare_host, (host,), r),
    ensures
        host@ == "["@ + address + "]"@ ==> r@ == address,
        !"["@.is_prefix_of(host@) || !"]"@.is_suffix_of(host@) ==> r@ == host@,
{
    reveal_strlit("[");
    reveal_strlit("]");
    let h = host@;
    if h == "["@ + address + "]"@ {
        assert(h.subrange(0, 1) =~= "["@);
        let rest = h.skip(1);
        assert(rest.subrange(rest.len() - 1, rest.len() as int) =~= "]"@);
        assert(rest.take(h.len() - 2) =~= address);
    }
    if "["@.is_prefix_of(h) && "]"@.is_suffix_of(h.skip(1)) {
        let rest = h.skip(1);
        assert(h.subrange(h.len() - 1, h.len() as int) =~= rest.subrange(
            rest.len() - 1,
            rest.len() as int,
        ));
    }
}

/// A request that may be tried again is tried three times in all, after a fifth and two fifths of a second;
/// any other failure is final.
pub proof fn a_request_is_tried_three_times(attempt: u32)
    requires
        1 <= attempt,
    ensures
        next_attempt(attempt, false) is None,
        next_attempt(attempt, true) is Some <==> attempt < 3,
        next_attempt(1, true) == Some((2int, 200nat)),
        next_attempt(2, true) == Some((3int, 400nat)),
{
    reveal_with_fuel(pause_after, 3);
}

/// A body is read whole or not at all, whatever its chunks are and however they are cut.
pub proof fn a_body_does_not_depend_on_its_chunks(a: Seq<Seq<u8>>, b: Seq<Seq<u8>>, max: u64)
    requires
        concatenated(a) == concatenated(b),
    ensures
        read_under_cap(a, max) == read_under_cap(b, max),
        read_under_cap(a, max) is Some <==> concatenated(a).len() <= max,
        read_under_cap(a, max) matches Some(read) ==> read == concatenated(a),
{
    cap_decides(a, max);
    cap_decides(b, max);
}

/// A body whose announced length is over the cap is not read at all.
pub proof fn an_oversized_body_is_not_read(
    max: u64,
    advertised: Option<u64>,
    r: Result<CappedBody, OverCap>,
)
    requires
        call_ensures(CappedBody::start, (max, advertised), r),
    ensures
        r is Err <==> advertised is Some && advertised->0 > max,
        r matches Ok(body) ==> body.bytes@.len() == 0 && body.max == max,
{
}

} // verus!
