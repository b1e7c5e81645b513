//! The adapter core: the per-request pipeline that rewrites an invocation
//! event into an outbound HTTP request description and rewrites the local
//! application's response back, together with the once-per-process dispatch
//! decision.
//!
//! Sending the request, and every other network step, happens outside this
//! crate; these functions decide exactly what is sent and what is returned.

use vstd::prelude::*;

use crate::config::{AdapterOptions, LambdaInvokeMode, Protocol};
use crate::headers::{
    has_header, header_first, lemma_has_header_first, remove_header, Headers,
};

verus! {

/// The body of an invocation event or of the outbound request: absent,
/// text, or binary. A body in any other shape is drained into binary
/// before it reaches this crate.
pub enum EventBody {
    Empty,
    Text(String),
    Binary(Vec<u8>),
}

/// One inbound unit of work, as plain values: the HTTP shape of the event,
/// whether the runtime delivered it through a pass-through (non-HTTP)
/// trigger, and the serialized request context and execution metadata
/// (`None` where serialization failed).
pub struct InvocationEvent {
    pub method: String,
    pub raw_path: String,
    pub query: Option<String>,
    pub headers: Headers,
    pub body: EventBody,
    pub pass_through: bool,
    pub request_context_json: Option<String>,
    pub lambda_context_json: Option<String>,
}

/// The outbound request the pipeline decided on.
pub struct OutboundRequest {
    pub method: String,
    pub url: String,
    pub headers: Headers,
    pub body: EventBody,
}

/// A failure of the translation pipeline, scoped to one request.
#[derive(Clone, Copy, Debug, Eq, PartialEq, Structural)]
pub enum AdapterError {
    /// Serializing the request context or the execution metadata failed.
    ContextSerialization,
    /// A serialized context cannot stand in a header value.
    InvalidHeaderValue,
    /// The local application answered with a status configured as an error.
    ErrorStatusCode(u16),
}

impl AdapterError {
    /// A short description of the failure.
    pub fn message(&self) -> (r: &'static str) {
        match self {
            AdapterError::ContextSerialization => "failed to serialize a context header",
            AdapterError::InvalidHeaderValue => "a context header holds an invalid value",
            AdapterError::ErrorStatusCode(_) => {
                "request failed with configured error status code"
            },
        }
    }

    /// The intercepted status, where one was.
    pub fn status(&self) -> (r: Option<u16>)
        ensures
            r == match *self {
                AdapterError::ErrorStatusCode(s) => Some(s),
                _ => None::<u16>,
            },
    {
        match self {
            AdapterError::ErrorStatusCode(s) => Some(*s),
            _ => None,
        }
    }
}

/// A character that may stand in an HTTP header value: horizontal tab or
/// anything from space on, except delete.
pub open spec fn valid_header_value_char(c: char) -> bool {
    c == '\t' || (c as int >= 32 && c as int != 127)
}

/// Every character of `s` may stand in a header value.
pub open spec fn valid_header_value(s: Seq<char>) -> bool {
    forall|i: int| 0 <= i < s.len() ==> valid_header_value_char(#[trigger] s[i])
}

/// Checks a string against `valid_header_value`.
pub fn is_valid_header_value(s: &str) -> (r: bool)
    ensures
        r == valid_header_value(s@),
{
    let len = s.unicode_len();
    let mut i: usize = 0;
    while i < len
        invariant
            i <= len,
            len == s@.len(),
            forall|j: int| 0 <= j < i ==> valid_header_value_char(#[trigger] s@[j]),
        decreases len - i,
    {
        let c = s.get_char(i);
        if !(c == '\t' || (c >= ' ' && c != '\u{7f}')) {
            assert(!valid_header_value_char(s@[i as int]));
            return false;
        }
        i = i + 1;
    }
    true
}

/// The path with every leading copy of `base` removed, as a literal
/// character prefix: no path-segment awareness, so a path that merely
/// starts with the same characters is still stripped.
pub open spec fn strip_prefix_spec(path: Seq<char>, base: Seq<char>) -> Seq<char>
    decreases path.len(),
{
    if base.len() > 0 && path.len() >= base.len() && path.take(base.len() as int) == base {
        strip_prefix_spec(path.skip(base.len() as int), base)
    } else {
        path
    }
}

/// Strips `base` from the front of `path`, mirroring `strip_prefix_spec`.
pub fn strip_base_path<'a>(path: &'a str, base: &str) -> (r: &'a str)
    ensures
        r@ == strip_prefix_spec(path@, base@),
{
    let path_len = path.unicode_len();
    let base_len = base.unicode_len();
    let mut start: usize = 0;
    proof {
        assert(path@.skip(0) =~= path@);
    }
    while base_len > 0 && path_len - start >= base_len && crate::text::matches_at_exact(
        path,
        base,
        start,
    )
        invariant
            start <= path_len,
            path_len == path@.len(),
            base_len == base@.len(),
            strip_prefix_spec(path@, base@) == strip_prefix_spec(path@.skip(start as int), base@),
        decreases path_len - start,
    {
        proof {
            let rest = path@.skip(start as int);
            assert(rest.take(base@.len() as int) =~= path@.subrange(
                start as int,
                start + base@.len(),
            ));
            assert(rest.skip(base@.len() as int) =~= path@.skip(start + base@.len()));
        }
        start = start + base_len;
    }
    proof {
        let rest = path@.skip(start as int);
        if base@.len() > 0 && rest.len() >= base@.len() {
            assert(rest.take(base@.len() as int) =~= path@.subrange(
                start as int,
                start + base@.len(),
            ));
        }
        assert(strip_prefix_spec(rest, base@) == rest);
        assert(rest =~= path@.subrange(start as int, path@.len() as int));
    }
    path.substring_char(start, path_len)
}

/// Base-path stripping removes only a literal matching prefix: a path that
/// does not start with the base passes through unchanged (so does every
/// path when the base is empty).
pub proof fn lemma_strip_non_matching(path: Seq<char>, base: Seq<char>)
    requires
        base.len() == 0 || path.len() < base.len() || path.take(base.len() as int) != base,
    ensures
        strip_prefix_spec(path, base) == path,
{
}

/// Pass-through path substitution applies only when the method is POST and
/// the event came through a pass-through trigger; any other combination
/// leaves the (stripped) path unchanged.
pub proof fn lemma_pass_through_only_post(
    raw: Seq<char>,
    base: Option<Seq<char>>,
    pass_through_path: Seq<char>,
    pass_through: bool,
    method: Seq<char>,
)
    requires
        !(pass_through && method == "POST"@),
    ensures
        effective_path_spec(raw, base, pass_through_path, pass_through, method) == match base {
            Some(b) => strip_prefix_spec(raw, b),
            None => raw,
        },
{
}

/// The view of an optional string.
pub open spec fn opt_view(o: Option<String>) -> Option<Seq<char>> {
    match o {
        Some(s) => Some(s@),
        None => None,
    }
}

/// The path the outbound request uses: the raw path with the configured
/// base path stripped, except that a pass-through event delivered by POST
/// uses the configured pass-through path instead.
pub open spec fn effective_path_spec(
    raw: Seq<char>,
    base: Option<Seq<char>>,
    pass_through_path: Seq<char>,
    pass_through: bool,
    method: Seq<char>,
) -> Seq<char> {
    if pass_through && method == "POST"@ {
        pass_through_path
    } else {
        match base {
            Some(b) => strip_prefix_spec(raw, b),
            None => raw,
        }
    }
}

/// The headers with `name: value` inserted, replacing any entry of that name.
pub open spec fn with_inserted(
    hs: Seq<(Seq<char>, Seq<char>)>,
    name: Seq<char>,
    value: Seq<char>,
) -> Seq<(Seq<char>, Seq<char>)> {
    remove_header(hs, name) + seq![(name, value)]
}

/// The headers after the authorization remap: where a source header name is
/// configured and present, its value moves to the standard authorization
/// header (overwriting any existing value there) and the source entry
/// disappears; where it is configured but absent, nothing changes.
pub open spec fn remapped_auth(
    hs: Seq<(Seq<char>, Seq<char>)>,
    source: Option<Seq<char>>,
) -> Seq<(Seq<char>, Seq<char>)> {
    match source {
        None => hs,
        Some(src) => if has_header(hs, src) {
            with_inserted(remove_header(hs, src), "authorization"@, header_first(hs, src)->0)
        } else {
            hs
        },
    }
}

/// The outbound header set: the event's headers, with the serialized
/// request context and execution metadata injected under their two fixed
/// names, then the authorization remap applied.
pub open spec fn translated_headers(
    hs: Seq<(Seq<char>, Seq<char>)>,
    ctx_json: Seq<char>,
    lambda_json: Seq<char>,
    source: Option<Seq<char>>,
) -> Seq<(Seq<char>, Seq<char>)> {
    remapped_auth(
        with_inserted(
            with_inserted(hs, "x-amzn-request-context"@, ctx_json),
            "x-amzn-lambda-context"@,
            lambda_json,
        ),
        source,
    )
}

/// The query part of the outbound URL.
pub open spec fn query_part(q: Option<Seq<char>>) -> Seq<char> {
    match q {
        Some(qs) => "?"@ + qs,
        None => Seq::empty(),
    }
}

/// The authorization remap law. With a source header name configured that
/// is not itself the authorization header: where it is present with value
/// `v`, afterwards the standard authorization header holds `v` and the
/// source is absent; where it is absent, the headers are unchanged (and the
/// remap reports it, so a warning is observable).
pub proof fn lemma_authorization_remap(hs: Seq<(Seq<char>, Seq<char>)>, src: Seq<char>)
    requires
        !crate::headers::key_matches(src, "authorization"@),
    ensures
        has_header(hs, src) ==> header_first(remapped_auth(hs, Some(src)), "authorization"@)
            == Some(header_first(hs, src)->0),
        has_header(hs, src) ==> !has_header(remapped_auth(hs, Some(src)), src),
        !has_header(hs, src) ==> remapped_auth(hs, Some(src)) == hs,
{
    if has_header(hs, src) {
        let removed = remove_header(hs, src);
        let cleared = remove_header(removed, "authorization"@);
        let value = header_first(hs, src)->0;
        crate::headers::lemma_remove_header_removes(removed, "authorization"@);
        crate::headers::lemma_header_first_append(cleared, "authorization"@, ("authorization"@, value));
        crate::headers::lemma_remove_header_removes(hs, src);
        crate::headers::lemma_remove_header_has(removed, "authorization"@, src);
        crate::headers::lemma_has_header_append(cleared, src, ("authorization"@, value));
    }
}

/// Error-status interception never fires without a configured, non-empty
/// set: with no set, or with an empty one, every status passes through.
pub proof fn lemma_no_error_set_never_intercepts(status: u16)
    ensures
        !intercepts_spec(None, status),
        !intercepts_spec(Some(Seq::<u16>::empty()), status),
{
    assert(!Seq::<u16>::empty().contains(status));
}

/// Whether a configured error set intercepts a status.
pub open spec fn intercepts_spec(codes: Option<Seq<u16>>, status: u16) -> bool {
    match codes {
        Some(cs) => cs.contains(status),
        None => false,
    }
}

/// The view of an optional code list.
pub open spec fn codes_view(o: Option<Vec<u16>>) -> Option<Seq<u16>> {
    match o {
        Some(v) => Some(v@),
        None => None,
    }
}

/// Moves the value of `source` to the standard authorization header;
/// reports whether the source header was present (when it is not, the
/// caller logs a warning and the request goes out unmodified).
pub fn remap_authorization(headers: &mut Headers, source: &str) -> (found: bool)
    ensures
        found == has_header(old(headers)@, source@),
        final(headers)@ == remapped_auth(old(headers)@, Some(source@)),
{
    proof {
        lemma_has_header_first(headers@, source@);
    }
    if headers.contains(source) {
        let value = headers.remove(source);
        match value {
            Some(v) => {
                headers.insert(String::from_str("authorization"), v);
                true
            },
            None => {
                // contains and remove agree: this arm cannot be reached
                proof {
                    assert(false);
                }
                true
            },
        }
    } else {
        false
    }
}

/// The adapter: the configuration-derived state every request context
/// shares. The pooled HTTP client and the shared readiness flag live with
/// the transport; this is the part that decides.
pub struct Adapter {
    pub healthcheck_url: String,
    pub healthcheck_protocol: Protocol,
    pub healthcheck_min_unhealthy_status: u16,
    pub async_init: bool,
    pub domain: String,
    pub base_path: Option<String>,
    pub path_through_path: String,
    pub compression: bool,
    pub invoke_mode: LambdaInvokeMode,
    pub authorization_source: Option<String>,
    pub error_status_codes: Option<Vec<u16>>,
}

/// The origin part of a URL over plain HTTP.
pub open spec fn origin_spec(host: Seq<char>, port: Seq<char>) -> Seq<char> {
    "http://"@ + host + ":"@ + port
}

fn build_origin(host: &str, port: &str) -> (r: String)
    ensures
        r@ == origin_spec(host@, port@),
{
    let mut out = String::from_str("http://");
    out.append(host);
    out.append(":");
    out.append(port);
    proof {
        assert(out@ =~= origin_spec(host@, port@));
    }
    out
}

impl Adapter {
    /// Builds the adapter from the option set: the probe URL and the
    /// application origin are assembled from host, ports and path, and the
    /// remaining options are carried over unchanged.
    pub fn new(options: &AdapterOptions) -> (r: Adapter)
        ensures
            r.healthcheck_url@ == origin_spec(options.host@, options.readiness_check_port@)
                + options.readiness_check_path@,
            r.healthcheck_protocol == options.readiness_check_protocol,
            r.healthcheck_min_unhealthy_status == options.readiness_check_min_unhealthy_status,
            r.async_init == options.async_init,
            r.domain@ == origin_spec(options.host@, options.port@),
            opt_view(r.base_path) == opt_view(options.base_path),
            r.path_through_path@ == options.pass_through_path@,
            r.compression == options.compression,
            r.invoke_mode == options.invoke_mode,
            opt_view(r.authorization_source) == opt_view(options.authorization_source),
            match (&r.error_status_codes, &options.error_status_codes) {
                (Some(a), Some(b)) => a@ == b@,
                (None, None) => true,
                _ => false,
            },
    {
        let mut healthcheck_url = build_origin(
            options.host.as_str(),
            options.readiness_check_port.as_str(),
        );
        healthcheck_url.append(options.readiness_check_path.as_str());
        let domain = build_origin(options.host.as_str(), options.port.as_str());
        let base_path = match &options.base_path {
            Some(b) => Some(b.clone()),
            None => None,
        };
        let authorization_source = match &options.authorization_source {
            Some(s) => Some(s.clone()),
            None => None,
        };
        let error_status_codes = match &options.error_status_codes {
            Some(codes) => {
                let mut copy: Vec<u16> = Vec::new();
                let mut i: usize = 0;
                while i < codes.len()
                    invariant
                        i <= codes.len(),
                        copy@ == codes@.take(i as int),
                    decreases codes.len() - i,
                {
                    let ghost prev = copy@;
                    copy.push(codes[i]);
                    proof {
                        assert(copy@ =~= codes@.take(i + 1));
                    }
                    i = i + 1;
                }
                proof {
                    assert(codes@.take(codes@.len() as int) =~= codes@);
                }
                Some(copy)
            },
            None => None,
        };
        Adapter {
            healthcheck_url,
            healthcheck_protocol: options.readiness_check_protocol,
            healthcheck_min_unhealthy_status: options.readiness_check_min_unhealthy_status,
            async_init: options.async_init,
            domain,
            base_path,
            path_through_path: options.pass_through_path.clone(),
            compression: options.compression,
            invoke_mode: options.invoke_mode,
            authorization_source,
            error_status_codes,
        }
    }

    /// Whether the first forwarded request must still probe readiness
    /// inline: only under async init, and only while the shared flag is
    /// still false.
    pub fn needs_inline_probe(&self, flag_ready: bool) -> (r: bool)
        ensures
            r == (self.async_init && !flag_ready),
    {
        self.async_init && !flag_ready
    }

    /// Translates one invocation event into the outbound request: rewrites
    /// the path, injects the two context headers, applies the authorization
    /// remap, and assembles the destination URL; the body is carried in its
    /// most specific representation. Fails exactly when a context failed to
    /// serialize or cannot stand in a header value.
    pub fn translate_event(&self, event: InvocationEvent) -> (r: Result<
        OutboundRequest,
        AdapterError,
    >)
        ensures
            r is Ok <==> {
                &&& event.request_context_json is Some
                &&& event.lambda_context_json is Some
                &&& valid_header_value(event.request_context_json->0@)
                &&& valid_header_value(event.lambda_context_json->0@)
            },
            r matches Ok(out) ==> {
                &&& out.method@ == event.method@
                &&& out.body == event.body
                &&& out.headers@ == translated_headers(
                    event.headers@,
                    event.request_context_json->0@,
                    event.lambda_context_json->0@,
                    opt_view(self.authorization_source),
                )
                &&& out.url@ == self.domain@ + effective_path_spec(
                    event.raw_path@,
                    opt_view(self.base_path),
                    self.path_through_path@,
                    event.pass_through,
                    event.method@,
                ) + query_part(opt_view(event.query))
            },
            r matches Err(e) ==> {
                &&& (e is ContextSerialization || e is InvalidHeaderValue)
                &&& (e is ContextSerialization <==> (event.request_context_json is None
                    || event.lambda_context_json is None))
                &&& (e is InvalidHeaderValue <==> (event.request_context_json is Some
                    && event.lambda_context_json is Some && !(valid_header_value(
                    event.request_context_json->0@,
                ) && valid_header_value(event.lambda_context_json->0@))))
            },
    {
        let ctx_json = match event.request_context_json {
            Some(s) => s,
            None => {
                return Err(AdapterError::ContextSerialization);
            },
        };
        let lambda_json = match event.lambda_context_json {
            Some(s) => s,
            None => {
                return Err(AdapterError::ContextSerialization);
            },
        };
        if !is_valid_header_value(ctx_json.as_str()) || !is_valid_header_value(
            lambda_json.as_str(),
        ) {
            return Err(AdapterError::InvalidHeaderValue);
        }

        let mut headers = event.headers;
        headers.insert(String::from_str("x-amzn-request-context"), ctx_json);
        headers.insert(String::from_str("x-amzn-lambda-context"), lambda_json);
        match &self.authorization_source {
            Some(source) => {
                // a missing source header leaves the request unmodified; the
                // transport layer logs the warning
                let _found = remap_authorization(&mut headers, source.as_str());
            },
            None => {},
        }

        let mut url = self.domain.clone();
        let is_post = crate::text::eq_str(event.method.as_str(), "POST");
        if event.pass_through && is_post {
            url.append(self.path_through_path.as_str());
        } else {
            match &self.base_path {
                Some(base) => {
                    let stripped = strip_base_path(event.raw_path.as_str(), base.as_str());
                    url.append(stripped);
                },
                None => {
                    url.append(event.raw_path.as_str());
                },
            }
        }
        match &event.query {
            Some(q) => {
                url.append("?");
                url.append(q.as_str());
                proof {
                    assert(url@ =~= self.domain@ + effective_path_spec(
                        event.raw_path@,
                        opt_view(self.base_path),
                        self.path_through_path@,
                        event.pass_through,
                        event.method@,
                    ) + query_part(opt_view(event.query)));
                }
            },
            None => {
                proof {
                    assert(url@ =~= self.domain@ + effective_path_spec(
                        event.raw_path@,
                        opt_view(self.base_path),
                        self.path_through_path@,
                        event.pass_through,
                        event.method@,
                    ) + query_part(opt_view(event.query)));
                }
            },
        }

        Ok(OutboundRequest { method: event.method, url, headers, body: event.body })
    }

    /// Judges the local application's response: a status the configured
    /// error set contains fails the whole call even though a well-formed
    /// response arrived; otherwise the response passes with any
    /// transfer-encoding header removed. An absent or empty set never
    /// intercepts.
    pub fn evaluate_response(&self, status: u16, headers: Headers) -> (r: Result<
        Headers,
        AdapterError,
    >)
        ensures
            r is Err <==> intercepts_spec(codes_view(self.error_status_codes), status),
            r matches Err(e) ==> e == AdapterError::ErrorStatusCode(status),
            r matches Ok(out) ==> out@ == remove_header(headers@, "transfer-encoding"@),
    {
        let intercepted = match &self.error_status_codes {
            Some(codes) => contains_code(codes, status),
            None => false,
        };
        if intercepted {
            return Err(AdapterError::ErrorStatusCode(status));
        }
        let mut out = headers;
        let _removed = out.remove("transfer-encoding");
        Ok(out)
    }

    /// The once-per-process dispatch decision: compression wraps the
    /// translator uniformly, and the invocation mode picks the platform
    /// entry point.
    pub fn dispatch_plan(&self) -> (r: DispatchPlan)
        ensures
            r.compression == self.compression,
            r.streaming == (self.invoke_mode is ResponseStream),
    {
        DispatchPlan {
            compression: self.compression,
            streaming: match self.invoke_mode {
                LambdaInvokeMode::ResponseStream => true,
                LambdaInvokeMode::Buffered => false,
            },
        }
    }
}

/// How the translator is composed into the platform: whether a compression
/// stage wraps it, and whether responses stream back incrementally.
pub struct DispatchPlan {
    pub compression: bool,
    pub streaming: bool,
}

/// Whether `codes` holds `status`.
fn contains_code(codes: &Vec<u16>, status: u16) -> (r: bool)
    ensures
        r == codes@.contains(status),
{
    let mut i: usize = 0;
    while i < codes.len()
        invariant
            i <= codes.len(),
            forall|j: int| 0 <= j < i ==> codes@[j] != status,
        decreases codes.len() - i,
    {
        if codes[i] == status {
            return true;
        }
        i = i + 1;
    }
    false
}

} // verus!
