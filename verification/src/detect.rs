//! Invocation-mode resolution: an explicit setting always wins; otherwise a
//! side-effect-free classification of the process environment looks for
//! markers of reactive or streaming frameworks and selects streaming
//! delivery when any matches, falling back to buffered delivery.
//!
//! The environment is handed in as a snapshot of `(name, value)` pairs, so
//! the classification itself is pure and fully checked.

use vstd::prelude::*;

use crate::config::{invoke_mode_from_spec, LambdaInvokeMode};
use crate::text::{contains_seq, contains_str, contains_str_folded, eq_ignore_ascii_case, lower};

verus! {

/// The value of the first entry of `env` named `name`, if any.
pub open spec fn env_lookup(env: Seq<(Seq<char>, Seq<char>)>, name: Seq<char>) -> Option<Seq<char>>
    decreases env.len(),
{
    if env.len() == 0 {
        None
    } else if env[0].0 == name {
        Some(env[0].1)
    } else {
        env_lookup(env.drop_first(), name)
    }
}

/// Looks a name up in an environment snapshot, mirroring `env_lookup`.
pub fn lookup_env<'a>(env: &'a Vec<(String, String)>, name: &str) -> (r: Option<&'a String>)
    ensures
        match r {
            Some(v) => env_lookup(env.deep_view(), name@) == Some(v@),
            None => env_lookup(env.deep_view(), name@) is None,
        },
{
    let ghost deep = env.deep_view();
    let mut i: usize = 0;
    proof {
        assert(deep.skip(0) =~= deep);
    }
    while i < env.len()
        invariant
            i <= env.len(),
            deep == env.deep_view(),
            deep.len() == env@.len(),
            env_lookup(deep, name@) == env_lookup(deep.skip(i as int), name@),
        decreases env.len() - i,
    {
        proof {
            assert(deep[i as int] == (env@[i as int].0@, env@[i as int].1@));
            assert(deep.skip(i as int)[0] == deep[i as int]);
            assert(deep.skip(i as int).drop_first() =~= deep.skip(i + 1));
        }
        if crate::text::eq_str(env[i].0.as_str(), name) {
            return Some(&env[i].1);
        }
        i = i + 1;
    }
    proof {
        assert(deep.skip(i as int) =~= Seq::<(Seq<char>, Seq<char>)>::empty());
    }
    None
}

/// Environment variables whose presence marks a reactive or streaming
/// framework, across several language ecosystems.
pub open spec fn reactive_markers() -> Seq<Seq<char>> {
    seq![
        "SPRING_WEBFLUX_VERSION"@,
        "REACTOR_VERSION"@,
        "VERTX_VERSION"@,
        "VERTX_HOME"@,
        "QUARKUS_REACTIVE"@,
        "QUARKUS_MUTINY_VERSION"@,
        "MICRONAUT_REACTOR"@,
        "MICRONAUT_REACTIVE"@,
        "HELIDON_REACTIVE"@,
        "AKKA_VERSION"@,
        "AKKA_HTTP_VERSION"@,
        "FASTAPI_VERSION"@,
        "STARLETTE_VERSION"@,
        "SANIC_VERSION"@,
        "QUART_APP"@,
        "QUART_ENV"@,
        "AIOHTTP_VERSION"@,
        "CHANNELS_VERSION"@,
        "PYTHON_ASYNC_APP"@,
        "NESTJS_VERSION"@,
        "FASTIFY_VERSION"@,
        "KOA_VERSION"@,
        "NODE_STREAMING_APP"@,
        "ASYNC_RUBY"@,
        "HANAMI_STREAMING"@,
        "REACTPHP_VERSION"@,
        "SWOOLE_VERSION"@,
        "LARAVEL_ASYNC"@,
        "GO_ASYNC_APP"@,
        "ECHO_VERSION"@,
        "ACTIX_WEB_VERSION"@,
        "ROCKET_VERSION"@,
    ]
}

fn reactive_markers_exec() -> (r: Vec<&'static str>)
    ensures
        r.deep_view() == reactive_markers(),
{
    let out: Vec<&'static str> = vec![
        "SPRING_WEBFLUX_VERSION",
        "REACTOR_VERSION",
        "VERTX_VERSION",
        "VERTX_HOME",
        "QUARKUS_REACTIVE",
        "QUARKUS_MUTINY_VERSION",
        "MICRONAUT_REACTOR",
        "MICRONAUT_REACTIVE",
        "HELIDON_REACTIVE",
        "AKKA_VERSION",
        "AKKA_HTTP_VERSION",
        "FASTAPI_VERSION",
        "STARLETTE_VERSION",
        "SANIC_VERSION",
        "QUART_APP",
        "QUART_ENV",
        "AIOHTTP_VERSION",
        "CHANNELS_VERSION",
        "PYTHON_ASYNC_APP",
        "NESTJS_VERSION",
        "FASTIFY_VERSION",
        "KOA_VERSION",
        "NODE_STREAMING_APP",
        "ASYNC_RUBY",
        "HANAMI_STREAMING",
        "REACTPHP_VERSION",
        "SWOOLE_VERSION",
        "LARAVEL_ASYNC",
        "GO_ASYNC_APP",
        "ECHO_VERSION",
        "ACTIX_WEB_VERSION",
        "ROCKET_VERSION",
    ];
    proof {
        assert(out.deep_view() =~= reactive_markers());
    }
    out
}

/// Some reactive-framework marker variable is present.
pub open spec fn any_marker_present(env: Seq<(Seq<char>, Seq<char>)>) -> bool {
    exists|i: int|
        0 <= i < reactive_markers().len() && #[trigger] env_lookup(env, reactive_markers()[i])
            is Some
}

/// A profile-style setting points at a reactive framework: a Spring profile
/// containing `reactive`, a Django settings module containing `channels`, or
/// the presence of a Quarkus, Micronaut or Laravel version variable.
pub open spec fn profile_indicator_matches(env: Seq<(Seq<char>, Seq<char>)>) -> bool {
    ||| match env_lookup(env, "SPRING_PROFILES_ACTIVE"@) {
        Some(v) => contains_seq(v, "reactive"@),
        None => false,
    }
    ||| match env_lookup(env, "DJANGO_SETTINGS_MODULE"@) {
        Some(v) => contains_seq(v, "channels"@),
        None => false,
    }
    ||| env_lookup(env, "QUARKUS_VERSION"@) is Some
    ||| env_lookup(env, "MICRONAUT_VERSION"@) is Some
    ||| env_lookup(env, "LARAVEL_VERSION"@) is Some
}

/// Content-type sniffing is on unless explicitly turned off.
pub open spec fn content_type_check_enabled(env: Seq<(Seq<char>, Seq<char>)>) -> bool {
    match env_lookup(env, "AWS_LWA_CHECK_CONTENT_TYPES"@) {
        Some(v) => lower(v) == "true"@,
        None => true,
    }
}

/// The advertised accept header names a streaming content type.
pub open spec fn streaming_accept_header(env: Seq<(Seq<char>, Seq<char>)>) -> bool {
    match env_lookup(env, "HTTP_ACCEPT"@) {
        Some(v) => contains_seq(lower(v), "text/event-stream"@) || contains_seq(
            lower(v),
            "application/octet-stream"@,
        ) || contains_seq(lower(v), "multipart/"@),
        None => false,
    }
}

/// The whole classification: an explicit reactive setting wins either way;
/// otherwise detection can be disabled; otherwise any marker variable,
/// profile indicator, or (unless disabled) streaming accept header selects
/// streaming.
pub open spec fn detect_reactive_spec(env: Seq<(Seq<char>, Seq<char>)>) -> bool {
    let explicit = env_lookup(env, "AWS_LWA_IS_REACTIVE_APPLICATION"@);
    let explicit_true = match explicit {
        Some(v) => lower(v) == "true"@,
        None => false,
    };
    let explicit_false = match explicit {
        Some(v) => lower(v) == "false"@,
        None => false,
    };
    let disabled = match env_lookup(env, "AWS_LWA_DISABLE_FRAMEWORK_DETECTION"@) {
        Some(v) => lower(v) == "true"@,
        None => false,
    };
    if explicit_true {
        true
    } else if explicit_false {
        false
    } else if disabled {
        false
    } else if any_marker_present(env) {
        true
    } else if profile_indicator_matches(env) {
        true
    } else {
        content_type_check_enabled(env) && streaming_accept_header(env)
    }
}

/// Checks every marker variable for presence.
fn scan_markers(env: &Vec<(String, String)>) -> (r: bool)
    ensures
        r == any_marker_present(env.deep_view()),
{
    let ghost deep = env.deep_view();
    let markers = reactive_markers_exec();
    let mut i: usize = 0;
    while i < markers.len()
        invariant
            i <= markers.len(),
            deep == env.deep_view(),
            markers.deep_view() == reactive_markers(),
            markers@.len() == reactive_markers().len(),
            forall|j: int|
                0 <= j < i ==> #[trigger] env_lookup(deep, reactive_markers()[j]) is None,
        decreases markers.len() - i,
    {
        proof {
            assert(markers.deep_view()[i as int] == markers@[i as int]@);
        }
        if lookup_env(env, markers[i]).is_some() {
            assert(any_marker_present(deep));
            return true;
        }
        i = i + 1;
    }
    assert(!any_marker_present(deep));
    false
}

/// Classifies the environment snapshot, mirroring `detect_reactive_spec`.
pub fn detect_reactive_framework(env: &Vec<(String, String)>) -> (r: bool)
    ensures
        r == detect_reactive_spec(env.deep_view()),
{
    let ghost deep = env.deep_view();
    proof {
        reveal_strlit("true");
        assert(lower("true"@) =~= "true"@);
        reveal_strlit("false");
        assert(lower("false"@) =~= "false"@);
    }
    if let Some(v) = lookup_env(env, "AWS_LWA_IS_REACTIVE_APPLICATION") {
        if eq_ignore_ascii_case(v.as_str(), "true") {
            return true;
        }
        if eq_ignore_ascii_case(v.as_str(), "false") {
            return false;
        }
    }
    if let Some(v) = lookup_env(env, "AWS_LWA_DISABLE_FRAMEWORK_DETECTION") {
        if eq_ignore_ascii_case(v.as_str(), "true") {
            return false;
        }
    }
    if scan_markers(env) {
        return true;
    }
    if let Some(v) = lookup_env(env, "SPRING_PROFILES_ACTIVE") {
        if contains_str(v.as_str(), "reactive") {
            return true;
        }
    }
    if let Some(v) = lookup_env(env, "DJANGO_SETTINGS_MODULE") {
        if contains_str(v.as_str(), "channels") {
            return true;
        }
    }
    if lookup_env(env, "QUARKUS_VERSION").is_some() {
        return true;
    }
    if lookup_env(env, "MICRONAUT_VERSION").is_some() {
        return true;
    }
    if lookup_env(env, "LARAVEL_VERSION").is_some() {
        return true;
    }
    let check_content_types = match lookup_env(env, "AWS_LWA_CHECK_CONTENT_TYPES") {
        Some(v) => eq_ignore_ascii_case(v.as_str(), "true"),
        None => true,
    };
    if check_content_types {
        if let Some(accept) = lookup_env(env, "HTTP_ACCEPT") {
            if contains_str_folded(accept.as_str(), "text/event-stream") {
                return true;
            }
            if contains_str_folded(accept.as_str(), "application/octet-stream") {
                return true;
            }
            if contains_str_folded(accept.as_str(), "multipart/") {
                return true;
            }
        }
    }
    false
}

/// The view of an optional textual setting.
pub open spec fn opt_str_view(o: Option<&String>) -> Option<Seq<char>> {
    match o {
        Some(s) => Some(s@),
        None => None,
    }
}

/// The invocation mode the process should use: an explicit setting is
/// parsed (leniently) and always wins; with none, streaming is chosen
/// exactly when the environment classifies as reactive.
pub open spec fn resolve_invoke_mode_spec(
    explicit: Option<Seq<char>>,
    env: Seq<(Seq<char>, Seq<char>)>,
) -> LambdaInvokeMode {
    match explicit {
        Some(s) => invoke_mode_from_spec(s),
        None => if detect_reactive_spec(env) {
            LambdaInvokeMode::ResponseStream
        } else {
            LambdaInvokeMode::Buffered
        },
    }
}

/// An explicit invocation-mode setting always wins, whatever the
/// environment holds; without one, the classification decides, and an
/// environment without any marker selects buffered delivery.
pub proof fn lemma_explicit_setting_wins(
    setting: Seq<char>,
    env1: Seq<(Seq<char>, Seq<char>)>,
    env2: Seq<(Seq<char>, Seq<char>)>,
)
    ensures
        resolve_invoke_mode_spec(Some(setting), env1) == invoke_mode_from_spec(setting),
        resolve_invoke_mode_spec(Some(setting), env1) == resolve_invoke_mode_spec(
            Some(setting),
            env2,
        ),
        !detect_reactive_spec(env1) ==> resolve_invoke_mode_spec(None, env1)
            == LambdaInvokeMode::Buffered,
{
}

/// Resolves the invocation mode, mirroring `resolve_invoke_mode_spec`.
pub fn resolve_invoke_mode(explicit: Option<&String>, env: &Vec<(String, String)>) -> (r:
    LambdaInvokeMode)
    ensures
        r == resolve_invoke_mode_spec(opt_str_view(explicit), env.deep_view()),
{
    match explicit {
        Some(s) => LambdaInvokeMode::from(s.as_str()),
        None => {
            if detect_reactive_framework(env) {
                LambdaInvokeMode::ResponseStream
            } else {
                LambdaInvokeMode::Buffered
            }
        },
    }
}

} // verus!
