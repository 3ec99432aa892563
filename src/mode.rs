//! The authentication-mode policy: how each mode classifies a connection and
//! where a classified connection is routed.
use vstd::prelude::*;

use crate::auth::{tag_spec, verify_spec, window_matches, window_of, HMAC_SIZE};

verus! {

/// How strictly authentication is enforced, fixed for the process lifetime.
#[derive(Clone, Copy, Debug, PartialEq, Eq, Structural)]
pub enum V3Mode {
    /// No tag is produced or expected: every connection is unauthenticated.
    Disabled,
    /// Irregular or wrong tags fall back to treating the peer as unauthenticated.
    Lossy,
    /// Any irregularity or mismatch is an authentication failure.
    Strict,
}

/// The outcome of the single authentication decision of a connection.
#[derive(Clone, Copy, Debug, PartialEq, Eq, Structural)]
pub enum AuthOutcome {
    Unverified,
    Verified,
    Failed,
}

/// Where a classified connection goes.
#[derive(Clone, Copy, Debug, PartialEq, Eq, Structural)]
pub enum Route {
    /// The backend chosen by the dispatch table.
    Backend,
    /// The fallback TLS server.
    Fallback,
    /// The connection is closed.
    Close,
}

impl V3Mode {
    /// The configuration word of the mode.
    pub fn as_str(&self) -> (r: &'static str)
        ensures
            r@ == mode_name(*self),
    {
        match self {
            V3Mode::Disabled => "disabled",
            V3Mode::Lossy => "lossy",
            V3Mode::Strict => "strict",
        }
    }
}

/// The configuration word of a mode.
pub open spec fn mode_name(m: V3Mode) -> Seq<char> {
    match m {
        V3Mode::Disabled => "disabled"@,
        V3Mode::Lossy => "lossy"@,
        V3Mode::Strict => "strict"@,
    }
}

/// The outcome under `mode` when the stream closed before a full window
/// (`truncated`) or else when the window's tag did or did not match.
pub open spec fn outcome_spec(mode: V3Mode, truncated: bool, tag_matches: bool) -> AuthOutcome {
    match mode {
        V3Mode::Disabled => AuthOutcome::Unverified,
        V3Mode::Lossy => if !truncated && tag_matches {
            AuthOutcome::Verified
        } else {
            AuthOutcome::Unverified
        },
        V3Mode::Strict => if !truncated && tag_matches {
            AuthOutcome::Verified
        } else {
            AuthOutcome::Failed
        },
    }
}

/// The route of each outcome.
pub open spec fn route_spec(o: AuthOutcome) -> Route {
    match o {
        AuthOutcome::Verified => Route::Backend,
        AuthOutcome::Unverified => Route::Fallback,
        AuthOutcome::Failed => Route::Close,
    }
}

/// Applies the mode's policy to the facts gathered from the tag window.
pub fn outcome(mode: V3Mode, truncated: bool, tag_matches: bool) -> (r: AuthOutcome)
    ensures
        r == outcome_spec(mode, truncated, tag_matches),
{
    match mode {
        V3Mode::Disabled => AuthOutcome::Unverified,
        V3Mode::Lossy => if !truncated && tag_matches {
            AuthOutcome::Verified
        } else {
            AuthOutcome::Unverified
        },
        V3Mode::Strict => if !truncated && tag_matches {
            AuthOutcome::Verified
        } else {
            AuthOutcome::Failed
        },
    }
}

/// Routes a connection by its authentication outcome.
pub fn route(o: AuthOutcome) -> (r: Route)
    ensures
        r == route_spec(o),
{
    match o {
        AuthOutcome::Verified => Route::Backend,
        AuthOutcome::Unverified => Route::Fallback,
        AuthOutcome::Failed => Route::Close,
    }
}

/// The outcome of a connection whose first bytes, up to the window's size
/// or to the close of the stream, are `received`.
pub open spec fn authenticate_spec(
    mode: V3Mode,
    key: Seq<u8>,
    context: Seq<u8>,
    received: Seq<u8>,
) -> AuthOutcome {
    let truncated = received.len() < HMAC_SIZE;
    outcome_spec(
        mode,
        truncated,
        !truncated && verify_spec(key, context, window_of(received)),
    )
}

/// Classifies a connection from what it sent first. Under `Disabled` the
/// window is not examined at all.
pub fn authenticate(mode: V3Mode, key: &[u8], context: &[u8], received: &[u8]) -> (r:
    AuthOutcome)
    ensures
        r == authenticate_spec(mode, key@, context@, received@),
{
    if mode == V3Mode::Disabled {
        return AuthOutcome::Unverified;
    }
    let truncated = received.len() < HMAC_SIZE;
    let matches = if truncated {
        false
    } else {
        window_matches(key, context, received)
    };
    outcome(mode, truncated, matches)
}

/// A stream that closes before a full window arrives goes to the fallback
/// under `Lossy` and is closed as a failure under `Strict`.
pub proof fn lemma_truncated_window(key: Seq<u8>, context: Seq<u8>, received: Seq<u8>)
    requires
        received.len() < HMAC_SIZE,
    ensures
        authenticate_spec(V3Mode::Lossy, key, context, received) == AuthOutcome::Unverified,
        route_spec(authenticate_spec(V3Mode::Lossy, key, context, received)) == Route::Fallback,
        authenticate_spec(V3Mode::Strict, key, context, received) == AuthOutcome::Failed,
        route_spec(authenticate_spec(V3Mode::Strict, key, context, received)) == Route::Close,
{
}

/// A full window whose tag does not match is indistinguishable, under
/// `Lossy`, from a peer that never tried: both go to the fallback. Under
/// `Strict` it is a failure.
pub proof fn lemma_mismatch(key: Seq<u8>, context: Seq<u8>, received: Seq<u8>)
    requires
        received.len() >= HMAC_SIZE,
        window_of(received) != tag_spec(key, context),
    ensures
        route_spec(authenticate_spec(V3Mode::Lossy, key, context, received)) == Route::Fallback,
        authenticate_spec(V3Mode::Strict, key, context, received) == AuthOutcome::Failed,
{
}

/// Under `Disabled` every connection is unverified and goes to the fallback.
pub proof fn lemma_disabled_never_verifies(key: Seq<u8>, context: Seq<u8>, received: Seq<u8>)
    ensures
        authenticate_spec(V3Mode::Disabled, key, context, received) == AuthOutcome::Unverified,
        route_spec(authenticate_spec(V3Mode::Disabled, key, context, received)) == Route::Fallback,
{
}

/// A stream that starts with the tag of the context under the session key is
/// verified and sent to the backend under `Lossy` and `Strict`.
pub proof fn lemma_tagged_stream_verified(
    mode: V3Mode,
    key: Seq<u8>,
    context: Seq<u8>,
    received: Seq<u8>,
)
    requires
        mode != V3Mode::Disabled,
        received.len() >= HMAC_SIZE,
        window_of(received) == tag_spec(key, context),
    ensures
        authenticate_spec(mode, key, context, received) == AuthOutcome::Verified,
        route_spec(authenticate_spec(mode, key, context, received)) == Route::Backend,
{
}

} // verus!
