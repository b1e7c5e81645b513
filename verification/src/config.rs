//! Configuration model: the readiness-probe protocol, the invocation mode,
//! the status-code list, and the full option set of the sidecar.
//!
//! Textual settings parse leniently: an unrecognized protocol or invocation
//! mode falls back to its default rather than failing, and malformed entries
//! of the status-code list are dropped while the rest still apply.

use vstd::prelude::*;

use crate::text::{
    contains_char, contains_char_str, eq_ignore_ascii_case, eq_str, lower, parse_u16_spec,
    parse_u16_str, split_seq, split_str, trim, trim_str,
};

verus! {

/// The mechanism of the readiness probe.
#[derive(Clone, Copy, Debug, Eq, PartialEq, Structural)]
pub enum Protocol {
    Http,
    Tcp,
}

/// The protocol named by `s`, compared case-insensitively; anything but
/// `tcp` (in particular anything unrecognized) maps to `Http`.
pub open spec fn protocol_from_spec(s: Seq<char>) -> Protocol {
    if lower(s) == "tcp"@ {
        Protocol::Tcp
    } else {
        Protocol::Http
    }
}

impl From<&str> for Protocol {
    fn from(value: &str) -> (r: Self) {
        proof {
            reveal_strlit("tcp");
            assert(lower("tcp"@) =~= "tcp"@);
        }
        if eq_ignore_ascii_case(value, "tcp") {
            Protocol::Tcp
        } else {
            Protocol::Http
        }
    }
}

impl vstd::std_specs::convert::FromSpecImpl<&str> for Protocol {
    open spec fn obeys_from_spec() -> bool {
        true
    }

    open spec fn from_spec(v: &str) -> Protocol {
        protocol_from_spec(v@)
    }
}

impl Default for Protocol {
    fn default() -> (r: Self)
        ensures
            r == Protocol::Http,
    {
        Protocol::Http
    }
}

/// How responses are delivered back to the invocation runtime.
#[derive(Clone, Copy, Debug, Eq, PartialEq, Structural)]
pub enum LambdaInvokeMode {
    Buffered,
    ResponseStream,
}

/// The invocation mode named by `s`, compared case-insensitively; anything
/// but `response_stream` (in particular anything unrecognized) maps to
/// `Buffered`.
pub open spec fn invoke_mode_from_spec(s: Seq<char>) -> LambdaInvokeMode {
    if lower(s) == "response_stream"@ {
        LambdaInvokeMode::ResponseStream
    } else {
        LambdaInvokeMode::Buffered
    }
}

impl From<&str> for LambdaInvokeMode {
    fn from(value: &str) -> (r: Self) {
        proof {
            reveal_strlit("response_stream");
            assert(lower("response_stream"@) =~= "response_stream"@);
        }
        if eq_ignore_ascii_case(value, "response_stream") {
            LambdaInvokeMode::ResponseStream
        } else {
            LambdaInvokeMode::Buffered
        }
    }
}

impl vstd::std_specs::convert::FromSpecImpl<&str> for LambdaInvokeMode {
    open spec fn obeys_from_spec() -> bool {
        true
    }

    open spec fn from_spec(v: &str) -> LambdaInvokeMode {
        invoke_mode_from_spec(v@)
    }
}

impl Default for LambdaInvokeMode {
    fn default() -> (r: Self)
        ensures
            r == LambdaInvokeMode::Buffered,
    {
        LambdaInvokeMode::Buffered
    }
}

/// The codes `lo..=hi`, in ascending order; empty when `lo > hi`.
pub open spec fn range_codes(lo: int, hi: int) -> Seq<u16>
    decreases hi - lo + 1,
{
    if lo > hi || lo < 0 || hi > u16::MAX {
        Seq::empty()
    } else {
        seq![lo as u16] + range_codes(lo + 1, hi)
    }
}

/// The codes one comma-separated token stands for: after trimming, either a
/// single number, or `lo-hi` expanded to the whole range; a malformed token
/// stands for no codes at all.
pub open spec fn token_codes(tok: Seq<char>) -> Seq<u16> {
    let t = trim(tok);
    if contains_char(t, '-') {
        let parts = split_seq(t, '-');
        if parts.len() == 2 {
            match (parse_u16_spec(parts[0]), parse_u16_spec(parts[1])) {
                (Some(lo), Some(hi)) => range_codes(lo as int, hi as int),
                _ => Seq::empty(),
            }
        } else {
            Seq::empty()
        }
    } else {
        match parse_u16_spec(t) {
            Some(v) => seq![v],
            None => Seq::empty(),
        }
    }
}

/// The codes a sequence of tokens stands for, in order.
pub open spec fn tokens_codes(toks: Seq<Seq<char>>) -> Seq<u16>
    decreases toks.len(),
{
    if toks.len() == 0 {
        Seq::empty()
    } else {
        token_codes(toks[0]) + tokens_codes(toks.drop_first())
    }
}

/// The status codes the whole comma-separated list stands for.
pub open spec fn status_codes_spec(s: Seq<char>) -> Seq<u16> {
    tokens_codes(split_seq(s, ','))
}

fn range_codes_exec(lo: u16, hi: u16) -> (r: Vec<u16>)
    ensures
        r@ == range_codes(lo as int, hi as int),
{
    let mut out: Vec<u16> = Vec::new();
    let mut c: u32 = lo as u32;
    while c <= hi as u32
        invariant
            lo as int <= c <= hi as int + 1 || (c == lo as u32 && lo > hi),
            out@ + range_codes(c as int, hi as int) == range_codes(lo as int, hi as int),
        decreases hi as int + 1 - c,
    {
        let ghost prev = out@;
        out.push(c as u16);
        proof {
            assert(range_codes(c as int, hi as int) == seq![c as u16] + range_codes(
                c + 1,
                hi as int,
            ));
            assert(out@ =~= prev + seq![c as u16]);
            assert(prev + (seq![c as u16] + range_codes(c + 1, hi as int)) =~= (prev + seq![
                c as u16,
            ]) + range_codes(c + 1, hi as int));
        }
        c = c + 1;
    }
    proof {
        assert(range_codes(c as int, hi as int) =~= Seq::<u16>::empty());
        assert(out@ + Seq::<u16>::empty() =~= out@);
    }
    out
}

fn token_codes_exec(tok: &str) -> (r: Vec<u16>)
    ensures
        r@ == token_codes(tok@),
{
    let t = trim_str(tok);
    if contains_char_str(t, '-') {
        let parts = split_str(t, '-');
        if parts.len() == 2 {
            proof {
                assert(parts.deep_view()[0] == parts@[0]@);
                assert(parts.deep_view()[1] == parts@[1]@);
            }
            let lo = parse_u16_str(parts[0]);
            let hi = parse_u16_str(parts[1]);
            match (lo, hi) {
                (Some(lo), Some(hi)) => range_codes_exec(lo, hi),
                _ => Vec::new(),
            }
        } else {
            Vec::new()
        }
    } else {
        match parse_u16_str(t) {
            Some(v) => {
                let mut out: Vec<u16> = Vec::new();
                out.push(v);
                proof {
                    assert(out@ =~= seq![v]);
                }
                out
            },
            None => Vec::new(),
        }
    }
}

/// Parses a comma-separated list of status codes and ranges, such as
/// `"500,502-504,422"`; whitespace around tokens is ignored and malformed
/// tokens are dropped.
pub fn parse_status_codes(input: &str) -> (r: Vec<u16>)
    ensures
        r@ == status_codes_spec(input@),
{
    let tokens = split_str(input, ',');
    let ghost toks = tokens.deep_view();
    let mut out: Vec<u16> = Vec::new();
    let mut i: usize = 0;
    proof {
        assert(toks.skip(0) =~= toks);
        assert(Seq::<u16>::empty() + tokens_codes(toks) =~= tokens_codes(toks));
    }
    while i < tokens.len()
        invariant
            i <= tokens.len(),
            toks == tokens.deep_view(),
            toks.len() == tokens@.len(),
            out@ + tokens_codes(toks.skip(i as int)) == tokens_codes(toks),
        decreases tokens.len() - i,
    {
        proof {
            assert(toks[i as int] == tokens@[i as int]@);
        }
        let codes = token_codes_exec(tokens[i]);
        let ghost prev = out@;
        let mut j: usize = 0;
        while j < codes.len()
            invariant
                j <= codes.len(),
                out@ == prev + codes@.take(j as int),
            decreases codes.len() - j,
        {
            let ghost prev2 = out@;
            out.push(codes[j]);
            proof {
                assert(out@ =~= prev + codes@.take(j + 1));
            }
            j = j + 1;
        }
        proof {
            assert(codes@.take(codes@.len() as int) =~= codes@);
            let rest = toks.skip(i as int);
            assert(rest[0] == toks[i as int]);
            assert(rest.drop_first() =~= toks.skip(i + 1));
            assert(tokens_codes(rest) == token_codes(toks[i as int]) + tokens_codes(
                toks.skip(i + 1),
            ));
            assert((prev + codes@) + tokens_codes(toks.skip(i + 1)) =~= prev + (codes@
                + tokens_codes(toks.skip(i + 1))));
        }
        i = i + 1;
    }
    proof {
        assert(toks.skip(i as int) =~= Seq::<Seq<char>>::empty());
        assert(tokens_codes(Seq::empty()) =~= Seq::<u16>::empty());
        assert(out@ + Seq::<u16>::empty() =~= out@);
    }
    out
}

/// The full option set of the sidecar, with every duration in seconds.
pub struct AdapterOptions {
    pub host: String,
    pub port: String,
    pub readiness_check_port: String,
    pub readiness_check_path: String,
    pub readiness_check_protocol: Protocol,
    pub readiness_check_min_unhealthy_status: u16,
    pub base_path: Option<String>,
    pub pass_through_path: String,
    pub async_init: bool,
    pub compression: bool,
    pub invoke_mode: LambdaInvokeMode,
    pub authorization_source: Option<String>,
    pub error_status_codes: Option<Vec<u16>>,
    pub http_keepalive_secs: Option<u64>,
    pub http_nodelay: bool,
    pub http_reuse_address: bool,
    pub http_pool_idle_timeout_secs: u64,
    pub http_pool_max_idle: usize,
    pub http_http2_only: bool,
}

impl Default for AdapterOptions {
    /// The options when nothing is configured: loopback host, port 8080,
    /// probe at `/` over HTTP with unhealthy threshold 500, no base path,
    /// pass-through path `/events`, buffered delivery, no compression, and
    /// the stock connection-pool tuning.
    fn default() -> (r: Self)
        ensures
            r.host@ == "127.0.0.1"@,
            r.port@ == "8080"@,
            r.readiness_check_port@ == "8080"@,
            r.readiness_check_path@ == "/"@,
            r.readiness_check_protocol == Protocol::Http,
            r.readiness_check_min_unhealthy_status == 500,
            r.base_path is None,
            r.pass_through_path@ == "/events"@,
            !r.async_init,
            !r.compression,
            r.invoke_mode == LambdaInvokeMode::Buffered,
            r.authorization_source is None,
            r.error_status_codes is None,
            r.http_keepalive_secs == Some(30u64),
            r.http_nodelay,
            r.http_reuse_address,
            r.http_pool_idle_timeout_secs == 60,
            r.http_pool_max_idle == 32,
            !r.http_http2_only,
    {
        AdapterOptions {
            host: String::from_str("127.0.0.1"),
            port: String::from_str("8080"),
            readiness_check_port: String::from_str("8080"),
            readiness_check_path: String::from_str("/"),
            readiness_check_protocol: Protocol::Http,
            readiness_check_min_unhealthy_status: 500,
            base_path: None,
            pass_through_path: String::from_str("/events"),
            async_init: false,
            compression: false,
            invoke_mode: LambdaInvokeMode::Buffered,
            authorization_source: None,
            error_status_codes: None,
            http_keepalive_secs: Some(30),
            http_nodelay: true,
            http_reuse_address: true,
            http_pool_idle_timeout_secs: 60,
            http_pool_max_idle: 32,
            http_http2_only: false,
        }
    }
}

/// Picks the first setting that is present: the primary name wins over the
/// legacy fallback name.
pub fn first_present(primary: Option<String>, fallback: Option<String>) -> (r: Option<String>)
    ensures
        primary is Some ==> r == primary,
        primary is None ==> r == fallback,
{
    match primary {
        Some(v) => Some(v),
        None => fallback,
    }
}

/// The boolean a setting stands for: exactly `true` or `false`, anything
/// else falling back to `default`.
pub open spec fn bool_setting_spec(s: Seq<char>, default: bool) -> bool {
    if s == "true"@ {
        true
    } else if s == "false"@ {
        false
    } else {
        default
    }
}

/// Parses a boolean setting, mirroring `bool_setting_spec`.
pub fn parse_bool_or(s: &str, default: bool) -> (r: bool)
    ensures
        r == bool_setting_spec(s@, default),
{
    if eq_str(s, "true") {
        true
    } else if eq_str(s, "false") {
        false
    } else {
        default
    }
}

/// Parses a status-code threshold, falling back to `default` when malformed.
pub fn parse_u16_or(s: &str, default: u16) -> (r: u16)
    ensures
        r == match parse_u16_spec(s@) {
            Some(v) => v,
            None => default,
        },
{
    match parse_u16_str(s) {
        Some(v) => v,
        None => default,
    }
}

} // verus!
