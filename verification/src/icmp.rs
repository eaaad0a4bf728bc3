//! ICMP echo: the request packet, its RFC 1071 checksum, and which replies answer it.

use vstd::prelude::*;

use crate::duration::Duration;
use crate::probe::{ProbeError, ProbeOutcome};
use crate::text::{push_str, string_of};

verus! {

pub const ICMPV4_ECHO_REQUEST: u8 = 8;
pub const ICMPV4_ECHO_REPLY: u8 = 0;
pub const ICMPV6_ECHO_REQUEST: u8 = 128;
pub const ICMPV6_ECHO_REPLY: u8 = 129;

/// The 16-bit word `j` of `s`, big-endian; an odd last byte is padded with a zero byte.
pub open spec fn word_at(s: Seq<u8>, j: int) -> nat {
    (s[2 * j] as nat) * 256 + (if 2 * j + 1 < s.len() { s[2 * j + 1] as nat } else { 0 })
}

/// The sum of the first `k` words of `s`.
pub open spec fn words_sum(s: Seq<u8>, k: nat) -> nat
    decreases k,
{
    if k == 0 {
        0
    } else {
        words_sum(s, (k - 1) as nat) + word_at(s, k - 1)
    }
}

/// The number of 16-bit words that cover `s`.
pub open spec fn word_count(s: Seq<u8>) -> nat {
    ((s.len() + 1) / 2) as nat
}

/// The plain sum of all words of `s`.
pub open spec fn words_total(s: Seq<u8>) -> nat {
    words_sum(s, word_count(s))
}

/// Folds the carries above 16 bits back in until the value fits in 16 bits
/// (the one's-complement sum).
pub open spec fn fold16(x: nat) -> nat
    decreases x,
{
    if x < 0x10000 {
        x
    } else {
        proof {
            assert(x % 0x10000 + x / 0x10000 < x) by (nonlinear_arith)
                requires
                    x >= 0x10000,
            ;
        }
        fold16(x % 0x10000 + x / 0x10000)
    }
}

/// The RFC 1071 checksum of `s`: the one's complement of the one's-complement sum of its
/// words.
pub open spec fn internet_checksum(s: Seq<u8>) -> nat {
    (0xFFFF - fold16(words_total(s))) as nat
}

proof fn lemma_fold16_small(x: nat)
    ensures
        fold16(x) < 0x10000,
    decreases x,
{
    if x >= 0x10000 {
        assert(x % 0x10000 + x / 0x10000 < x) by (nonlinear_arith)
            requires
                x >= 0x10000,
        ;
        lemma_fold16_small(x % 0x10000 + x / 0x10000);
    }
}

/// Folding keeps a positive value's residue modulo 0xFFFF, in the range 1..=0xFFFF.
proof fn lemma_fold16_residue(x: nat)
    ensures
        x == 0 ==> fold16(x) == 0,
        x > 0 ==> fold16(x) == (x - 1) % 0xFFFF + 1,
    decreases x,
{
    if x >= 0x10000 {
        let y = x % 0x10000 + x / 0x10000;
        assert(y < x && y > 0 && (y - 1) % 0xFFFF == (x - 1) % 0xFFFF) by (nonlinear_arith)
            requires
                x >= 0x10000,
                y == x % 0x10000 + x / 0x10000,
        ;
        lemma_fold16_residue(y);
    }
}

/// Writing the word `w` over a zero word at `p` adds `w` to the sum of every prefix
/// that covers it.
proof fn lemma_words_sum_put(s: Seq<u8>, t: Seq<u8>, p: int, w: nat, k: nat)
    requires
        p % 2 == 0,
        0 <= p,
        p + 1 < s.len(),
        s[p] == 0,
        s[p + 1] == 0,
        w < 0x10000,
        t == s.update(p, (w / 256) as u8).update(p + 1, (w % 256) as u8),
        2 * k <= s.len() + 1,
    ensures
        words_sum(t, k) == words_sum(s, k) + (if k > p / 2 { w } else { 0 }),
    decreases k,
{
    if k > 0 {
        lemma_words_sum_put(s, t, p, w, (k - 1) as nat);
        let j = k - 1;
        if j == p / 2 {
            assert(2 * j == p);
            assert(word_at(s, j) == 0);
            assert(word_at(t, j) == w);
        } else {
            assert(2 * j != p && 2 * j + 1 != p && 2 * j != p + 1 && 2 * j + 1 != p + 1);
            assert(word_at(t, j) == word_at(s, j));
        }
    }
}

/// `s` with the checksum `c` written big-endian at bytes `p` and `p + 1`.
pub open spec fn put_checksum(s: Seq<u8>, p: int, c: nat) -> Seq<u8> {
    s.update(p, (c / 256) as u8).update(p + 1, (c % 256) as u8)
}

/// A message that carries its own checksum (computed with the checksum field zero and
/// written into it) checks to zero: what a receiver verifies.
pub proof fn lemma_checksum_embedded_verifies(s: Seq<u8>, p: int)
    requires
        p % 2 == 0,
        0 <= p,
        p + 1 < s.len(),
        s[p] == 0,
        s[p + 1] == 0,
    ensures
        internet_checksum(put_checksum(s, p, internet_checksum(s))) == 0,
{
    let total = words_total(s);
    lemma_fold16_small(total);
    lemma_fold16_residue(total);
    let c = internet_checksum(s);
    assert(c == 0xFFFF - fold16(total));
    let t = put_checksum(s, p, c);
    assert(word_count(t) == word_count(s));
    lemma_words_sum_put(s, t, p, c, word_count(s));
    assert(p / 2 < word_count(s));
    let total2 = words_total(t);
    assert(total2 == total + c);
    // The checksum brings the sum up to a positive multiple of 0xFFFF.
    if total == 0 {
        assert(total2 == 0xFFFF);
    } else {
        assert(total2 > 0 && total2 % 0xFFFF == 0) by (nonlinear_arith)
            requires
                total > 0,
                total2 == total + 0xFFFF - ((total - 1) % 0xFFFF + 1),
        ;
    }
    lemma_fold16_residue(total2);
    assert((total2 - 1) % 0xFFFF + 1 == 0xFFFF) by (nonlinear_arith)
        requires
            total2 > 0,
            total2 % 0xFFFF == 0,
    ;
}

/// Two values with the same one's-complement sum stay so when the same word is added.
proof fn lemma_fold16_add(x: nat, y: nat, w: nat)
    requires
        fold16(x) == fold16(y),
    ensures
        fold16(x + w) == fold16(y + w),
{
    lemma_fold16_residue(x);
    lemma_fold16_residue(y);
    lemma_fold16_residue(x + w);
    lemma_fold16_residue(y + w);
    lemma_fold16_small(x);
    if x > 0 && y > 0 {
        assert((x + w - 1) % 0xFFFF == (y + w - 1) % 0xFFFF) by (nonlinear_arith)
            requires
                (x - 1) % 0xFFFF == (y - 1) % 0xFFFF,
                x > 0,
                y > 0,
        ;
    }
}

/// Folds the carry of a sum of two 16-bit values back into 16 bits.
fn fold_once(x: u32) -> (r: u32)
    requires
        x <= 0x1FFFE,
    ensures
        r <= 0xFFFF,
        fold16(r as nat) == fold16(x as nat),
{
    assert((x & 0xFFFF) == x % 0x10000 && (x >> 16) == x / 0x10000) by (bit_vector);
    let r = (x & 0xFFFF) + (x >> 16);
    assert(r <= 0xFFFF && (x < 0x10000 ==> r == x)) by (nonlinear_arith)
        requires
            x <= 0x1FFFE,
            r == x % 0x10000 + x / 0x10000,
    ;
    r
}

/// RFC 1071 one's-complement sum over 16-bit words, complemented.
pub fn checksum(data: &[u8]) -> (c: u16)
    ensures
        c == internet_checksum(data@),
{
    let n = data.len();
    // The running one's-complement sum: carries are folded back in after each word, so
    // it stays within 16 bits.
    let mut sum: u32 = 0;
    let mut i: usize = 0;
    while i < n && n - i >= 2
        invariant
            n == data@.len(),
            i <= n,
            i % 2 == 0,
            sum <= 0xFFFF,
            fold16(sum as nat) == fold16(words_sum(data@, (i / 2) as nat)),
        decreases n - i,
    {
        let w = (data[i] as u32) * 256 + (data[i + 1] as u32);
        assert(w == word_at(data@, (i / 2) as int));
        proof {
            lemma_fold16_add(sum as nat, words_sum(data@, (i / 2) as nat), w as nat);
        }
        sum = fold_once(sum + w);
        i = i + 2;
    }
    if i < n {
        let w = (data[i] as u32) * 256;
        assert(w == word_at(data@, (i / 2) as int));
        proof {
            lemma_fold16_add(sum as nat, words_sum(data@, (i / 2) as nat), w as nat);
            assert(word_count(data@) == i / 2 + 1);
        }
        sum = fold_once(sum + w);
    } else {
        assert(word_count(data@) == i / 2);
    }
    assert(fold16(sum as nat) == fold16(words_total(data@)));
    assert(fold16(sum as nat) == sum);
    let r = !(sum as u16);
    assert(r == 0xFFFF - (sum as u16)) by (bit_vector)
        requires
            r == !(sum as u16),
    ;
    r
}

/// The address family of the probed target.
#[derive(Clone, Copy, Debug, PartialEq, Eq, Structural)]
pub enum AddressFamily {
    V4,
    V6,
}

pub open spec fn request_type(f: AddressFamily) -> u8 {
    match f {
        AddressFamily::V4 => ICMPV4_ECHO_REQUEST,
        AddressFamily::V6 => ICMPV6_ECHO_REQUEST,
    }
}

pub open spec fn reply_type(f: AddressFamily) -> u8 {
    match f {
        AddressFamily::V4 => ICMPV4_ECHO_REPLY,
        AddressFamily::V6 => ICMPV6_ECHO_REPLY,
    }
}

/// The echo payload: the ASCII text `bidebide`.
pub open spec fn echo_payload() -> Seq<u8> {
    seq![0x62u8, 0x69u8, 0x64u8, 0x65u8, 0x62u8, 0x69u8, 0x64u8, 0x65u8]
}

/// An echo request with its checksum field zero: type, code 0, checksum 0, identifier and
/// sequence number big-endian, then the payload.
pub open spec fn echo_body(f: AddressFamily, ident: u16, seq: u16) -> Seq<u8> {
    seq![
        request_type(f),
        0u8,
        0u8,
        0u8,
        (ident / 256) as u8,
        (ident % 256) as u8,
        (seq / 256) as u8,
        (seq % 256) as u8,
    ] + echo_payload()
}

/// The echo request as sent: over IPv4 it carries its checksum; over IPv6 the kernel
/// computes the checksum (it covers a pseudo-header), so the field stays zero.
pub open spec fn echo_request(f: AddressFamily, ident: u16, seq: u16) -> Seq<u8> {
    match f {
        AddressFamily::V4 => put_checksum(echo_body(f, ident, seq), 2, internet_checksum(echo_body(f, ident, seq))),
        AddressFamily::V6 => echo_body(f, ident, seq),
    }
}

/// The sequence number that bytes 6 and 7 of `data` carry.
pub open spec fn seq_field(data: Seq<u8>) -> nat {
    (data[6] as nat) * 256 + (data[7] as nat)
}

/// `data` is an echo reply of family `f` to the request with sequence number `seq`.
/// The identifier is not compared: the kernel rewrites it on unprivileged sockets,
/// and such a socket only receives replies addressed to it.
pub open spec fn reply_matches(f: AddressFamily, data: Seq<u8>, seq: u16) -> bool {
    &&& data.len() >= 8
    &&& data[0] == reply_type(f)
    &&& seq_field(data) == seq
}

/// What the socket reported while the probe waited for its reply.
pub enum RecvEvent {
    /// The probe's deadline passed before anything arrived.
    DeadlinePassed,
    /// Setting the socket's read timeout failed; the error's text.
    TimeoutNotSet(String),
    /// A packet arrived.
    Packet(Vec<u8>),
    /// Nothing answered: the read timed out, would have blocked, a signal interrupted it,
    /// or the target proved unreachable.
    Quiet,
    /// The read failed otherwise; the error's text.
    Failed(String),
}

/// What the probe does after a `RecvEvent`.
pub enum RecvStep {
    /// The reply arrived: the target responded.
    Reply,
    /// A stray packet: keep waiting until the deadline.
    KeepWaiting,
    /// No reply before the deadline.
    NoResponse,
    /// The probe cannot go on.
    Fatal(ProbeError),
}

/// `prefix` followed by `detail`, as a probe error.
fn error_with(prefix: &str, detail: &str) -> (e: ProbeError)
    ensures
        e.message@ == prefix@ + detail@,
{
    let mut m = string_of(prefix);
    push_str(&mut m, detail);
    ProbeError { message: m }
}

impl ProbeError {
    /// Sending the request failed; `detail` is the error's text.
    pub fn send_failed(detail: &str) -> (e: ProbeError)
        ensures
            e.message@ == "send failed: "@ + detail@,
    {
        error_with("send failed: ", detail)
    }
}

/// Whether a wait of `remaining` is too short to read for: a socket's read timeout counts
/// whole microseconds, and a shorter one would read as no timeout at all. The deadline
/// has then passed.
pub fn wait_too_short(remaining: Duration) -> (b: bool)
    ensures
        b == (remaining@ < 1000),
{
    remaining.as_nanos() < 1000
}

/// How a socket operation failed, as far as a probe is concerned.
#[derive(Clone, Copy, Debug, PartialEq, Eq, Structural)]
pub enum SocketErrorKind {
    WouldBlock,
    TimedOut,
    Interrupted,
    HostUnreachable,
    NetworkUnreachable,
    /// Any other failure.
    Other,
}

/// The failure only means that the target did not respond: a timeout, an interrupted
/// call (the run notices the signal itself), or an unreachable host or network. Other
/// failures are fatal.
pub open spec fn means_no_response(k: SocketErrorKind) -> bool {
    !(k is Other)
}

/// What a failed read means: no response for a timeout, an interruption or an
/// unreachable target; a fatal error otherwise, with the error's text `detail`.
pub fn recv_failure(kind: SocketErrorKind, detail: String) -> (e: RecvEvent)
    ensures
        means_no_response(kind) ==> e is Quiet,
        !means_no_response(kind) ==> (e matches RecvEvent::Failed(d) && d@ == detail@),
{
    match kind {
        SocketErrorKind::Other => RecvEvent::Failed(detail),
        _ => RecvEvent::Quiet,
    }
}

/// What a failed send means for the probe: no response for a timeout, an interruption
/// or an unreachable target; a fatal error otherwise, with the error's text `detail`.
pub fn send_failure(kind: SocketErrorKind, detail: &str) -> (r: Result<ProbeOutcome, ProbeError>)
    ensures
        means_no_response(kind) ==> (r matches Ok(ProbeOutcome::NoResponse)),
        !means_no_response(kind) ==> (r matches Err(e) && e.message@ == "send failed: "@ + detail@),
{
    match kind {
        SocketErrorKind::Other => Err(ProbeError::send_failed(detail)),
        _ => Ok(ProbeOutcome::NoResponse),
    }
}

/// The message for a socket that could not be opened for lack of permission.
pub open spec fn permission_message(detail: Seq<char>) -> Seq<char> {
    "unable to open unprivileged ICMP socket ("@ + detail
        + "). On Linux, either widen `sysctl net.ipv4.ping_group_range` to include your GID, or grant CAP_NET_RAW via `sudo setcap cap_net_raw+ep <binary>`."@
}

/// The message for a socket that could not be opened otherwise.
pub open spec fn open_failed_message(detail: Seq<char>) -> Seq<char> {
    "failed to open ICMP socket: "@ + detail
}

/// The error for a socket that could not be opened: the OS error code `os_code`
/// (where there is one) is compared with the codes of permission errors, `eacces` and
/// `eperm`; `detail` is the error's text.
pub fn classify_open_failure(os_code: Option<i32>, eacces: i32, eperm: i32, detail: &str) -> (e: ProbeError)
    ensures
        (os_code matches Some(c) && (c == eacces || c == eperm)) ==> e.message@ == permission_message(detail@),
        !(os_code matches Some(c) && (c == eacces || c == eperm)) ==> e.message@ == open_failed_message(detail@),
{
    match os_code {
        Some(c) => {
            if c == eacces || c == eperm {
                let mut m = string_of("unable to open unprivileged ICMP socket (");
                push_str(&mut m, detail);
                push_str(
                    &mut m,
                    "). On Linux, either widen `sysctl net.ipv4.ping_group_range` to include your GID, or grant CAP_NET_RAW via `sudo setcap cap_net_raw+ep <binary>`.",
                );
                return ProbeError { message: m };
            }
        },
        None => {},
    }
    error_with("failed to open ICMP socket: ", detail)
}

/// `message` is the permission advice exactly when `os_code` is one of the permission
/// error codes `eacces` and `eperm`, and the plain failure message otherwise.
pub open spec fn permission_codes(os_code: Option<i32>, eacces: i32, eperm: i32, detail: Seq<char>, message: Seq<char>) -> bool {
    &&& (os_code matches Some(c) && (c == eacces || c == eperm)) ==> message == permission_message(detail)
    &&& !(os_code matches Some(c) && (c == eacces || c == eperm)) ==> message == open_failed_message(detail)
}

/// `message` is what `permission_codes` gives for some values that `errno_eacces` and
/// `errno_eperm` can return: the advice exactly when `os_code` is one of libc's two
/// permission error codes.
pub closed spec fn advice_follows_libc_codes(os_code: Option<i32>, detail: Seq<char>, message: Seq<char>) -> bool {
    exists|a: i32, b: i32|
        call_ensures(errno_eacces, (), a) && call_ensures(errno_eperm, (), b) && permission_codes(
            os_code,
            a,
            b,
            detail,
            message,
        )
}

/// `libc::EACCES`, the platform's error code for "permission denied". Nothing is promised
/// of its value: libc defines it per platform (13 on Linux, other values elsewhere).
#[verifier::external_body]
fn errno_eacces() -> i32 {
    libc::EACCES
}

/// `libc::EPERM`, the platform's error code for "operation not permitted". Nothing is
/// promised of its value: libc defines it per platform (1 on Linux, other values elsewhere).
#[verifier::external_body]
fn errno_eperm() -> i32 {
    libc::EPERM
}

/// The error for a socket that could not be opened, from the OS error code (where there
/// is one) and the error's text: a permission error (`EACCES`, `EPERM`) gets the advice on
/// how to allow unprivileged ICMP.
pub fn open_failure(os_code: Option<i32>, detail: &str) -> (e: ProbeError)
    ensures
        e.message@ == permission_message(detail@) || e.message@ == open_failed_message(detail@),
        os_code is None ==> e.message@ == open_failed_message(detail@),
        advice_follows_libc_codes(os_code, detail@, e.message@),
{
    let a = errno_eacces();
    let b = errno_eperm();
    let e = classify_open_failure(os_code, a, b, detail);
    assert(call_ensures(errno_eacces, (), a) && call_ensures(errno_eperm, (), b) && permission_codes(
        os_code,
        a,
        b,
        detail@,
        e.message@,
    ));
    e
}

/// How the echo exchange with one target is framed.
pub struct IcmpEcho {
    pub family: AddressFamily,
    pub ident: u16,
}

impl IcmpEcho {
    /// The echo request with sequence number `seq`.
    pub fn build_echo_request(&self, seq: u16) -> (pkt: [u8; 16])
        ensures
            pkt@ == echo_request(self.family, self.ident, seq),
            self.family == AddressFamily::V4 ==> internet_checksum(pkt@) == 0,
    {
        let typ = match self.family {
            AddressFamily::V4 => ICMPV4_ECHO_REQUEST,
            AddressFamily::V6 => ICMPV6_ECHO_REQUEST,
        };
        let mut pkt = [0u8; 16];
        pkt[0] = typ;
        pkt[1] = 0;
        pkt[4] = (self.ident / 256) as u8;
        pkt[5] = (self.ident % 256) as u8;
        pkt[6] = (seq / 256) as u8;
        pkt[7] = (seq % 256) as u8;
        pkt[8] = 0x62;
        pkt[9] = 0x69;
        pkt[10] = 0x64;
        pkt[11] = 0x65;
        pkt[12] = 0x62;
        pkt[13] = 0x69;
        pkt[14] = 0x64;
        pkt[15] = 0x65;
        let ghost body = echo_body(self.family, self.ident, seq);
        assert(pkt@ =~= body);
        match self.family {
            AddressFamily::V4 => {
                let cs = checksum(&pkt);
                pkt[2] = (cs / 256) as u8;
                pkt[3] = (cs % 256) as u8;
                assert(pkt@ =~= put_checksum(body, 2, internet_checksum(body)));
                proof {
                    lemma_checksum_embedded_verifies(body, 2);
                }
            },
            AddressFamily::V6 => {},
        }
        pkt
    }

    /// Whether `data` is the echo reply to the request with sequence number `seq`.
    pub fn is_matching_reply(&self, data: &[u8], seq: u16) -> (b: bool)
        ensures
            b == reply_matches(self.family, data@, seq),
    {
        if data.len() < 8 {
            return false;
        }
        let expected_type = match self.family {
            AddressFamily::V4 => ICMPV4_ECHO_REPLY,
            AddressFamily::V6 => ICMPV6_ECHO_REPLY,
        };
        if data[0] != expected_type {
            return false;
        }
        let rseq = (data[6] as u16) * 256 + (data[7] as u16);
        rseq == seq
    }

    /// What the probe for sequence number `seq` does after `event`: a matching reply ends
    /// it with a response, a stray packet keeps it waiting, a passed deadline or a quiet
    /// read ends it without one, and a socket error ends it with that error.
    pub fn on_recv(&self, seq: u16, event: RecvEvent) -> (step: RecvStep)
        ensures
            match event {
                RecvEvent::DeadlinePassed => step is NoResponse,
                RecvEvent::Quiet => step is NoResponse,
                RecvEvent::Packet(data) => if reply_matches(self.family, data@, seq) {
                    step is Reply
                } else {
                    step is KeepWaiting
                },
                RecvEvent::TimeoutNotSet(d) => step matches RecvStep::Fatal(e)
                    && e.message@ == "setsockopt(SO_RCVTIMEO): "@ + d@,
                RecvEvent::Failed(d) => step matches RecvStep::Fatal(e) && e.message@ == "recv failed: "@ + d@,
            },
    {
        match event {
            RecvEvent::DeadlinePassed => RecvStep::NoResponse,
            RecvEvent::Quiet => RecvStep::NoResponse,
            RecvEvent::Packet(data) => {
                if self.is_matching_reply(data.as_slice(), seq) {
                    RecvStep::Reply
                } else {
                    RecvStep::KeepWaiting
                }
            },
            RecvEvent::TimeoutNotSet(d) => RecvStep::Fatal(error_with("setsockopt(SO_RCVTIMEO): ", d.as_str())),
            RecvEvent::Failed(d) => RecvStep::Fatal(error_with("recv failed: ", d.as_str())),
        }
    }
}

/// The echo request's layout, for both families: 16 bytes; the echo-request type of the
/// family (8 for ICMPv4, 128 for ICMPv6) and code 0; the identifier and the sequence
/// number big-endian at bytes 4-5 and 6-7; the payload `bidebide`; and over IPv6 a zero
/// checksum field, which the kernel fills in.
pub proof fn lemma_echo_request_layout(f: AddressFamily, ident: u16, seq: u16)
    ensures
        echo_request(f, ident, seq).len() == 16,
        echo_request(f, ident, seq)[0] == (if f == AddressFamily::V4 { 8u8 } else { 128u8 }),
        echo_request(f, ident, seq)[1] == 0,
        (echo_request(f, ident, seq)[4] as nat) * 256 + (echo_request(f, ident, seq)[5] as nat) == ident,
        seq_field(echo_request(f, ident, seq)) == seq,
        echo_request(f, ident, seq).subrange(8, 16) == seq![0x62u8, 0x69u8, 0x64u8, 0x65u8, 0x62u8, 0x69u8, 0x64u8, 0x65u8],
        f == AddressFamily::V6 ==> echo_request(f, ident, seq)[2] == 0 && echo_request(f, ident, seq)[3] == 0,
{
    let r = echo_request(f, ident, seq);
    assert(r.subrange(8, 16) =~= seq![0x62u8, 0x69u8, 0x64u8, 0x65u8, 0x62u8, 0x69u8, 0x64u8, 0x65u8]);
}

/// The reply to an echo request matches it: whatever else the replier changed, a packet
/// of the reply type that carries the request's sequence number is its answer.
pub proof fn lemma_reply_to_request_matches(f: AddressFamily, ident: u16, seq: u16, reply: Seq<u8>)
    requires
        reply.len() >= 8,
        reply[0] == reply_type(f),
        reply[6] == echo_request(f, ident, seq)[6],
        reply[7] == echo_request(f, ident, seq)[7],
    ensures
        reply_matches(f, reply, seq),
{
    assert(echo_request(f, ident, seq)[6] == (seq / 256) as u8);
    assert(echo_request(f, ident, seq)[7] == (seq % 256) as u8);
}

/// A request looped back to the sender answers nothing: its type is not a reply type.
pub proof fn lemma_request_is_not_a_reply(f: AddressFamily, ident: u16, seq: u16, other: u16)
    ensures
        !reply_matches(f, echo_request(f, ident, seq), other),
{
    assert(echo_request(f, ident, seq)[0] == request_type(f));
}

/// A reply answers one sequence number only: replies to earlier, late requests are not
/// taken for the current one.
pub proof fn lemma_reply_answers_one_seq(f: AddressFamily, data: Seq<u8>, seq: u16, other: u16)
    requires
        reply_matches(f, data, seq),
        seq != other,
    ensures
        !reply_matches(f, data, other),
{
}

} // verus!
