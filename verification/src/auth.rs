//! Access and refresh tokens, and the decision of when to renew them.

use vstd::prelude::*;

verus! {

/// Cadence of the metrics-and-auth tick, in seconds.
pub const METRICS_TICK_S: u64 = 1;

/// An opaque credential with its absolute expiry, in seconds.
pub struct Token {
    pub value: String,
    pub expires_at_s: u64,
}

impl Clone for Token {
    fn clone(&self) -> (r: Self)
        ensures
            r.value@ == self.value@,
            r.expires_at_s == self.expires_at_s,
    {
        Token { value: self.value.clone(), expires_at_s: self.expires_at_s }
    }
}

/// What the periodic auth check decides to do.
#[derive(PartialEq, Eq, Structural, Clone, Copy, Debug)]
pub enum RefreshPlan {
    /// The refresh token is about to expire: run the full two-step handshake
    /// again, minting both tokens.
    FullGenerate,
    /// Only the access token is about to expire: mint a new access token from
    /// the refresh token.
    RefreshAccess,
    /// Both tokens outlive the window: do nothing.
    Noop,
}

/// The renewal decision: renew whatever expires within the window.  The
/// refresh token is checked first, so that it can never expire between an
/// access-token renewal and its use.
pub open spec fn spec_plan_refresh(
    now_s: u64,
    access_expires_at_s: u64,
    refresh_expires_at_s: u64,
    refresh_within_s: u64,
) -> RefreshPlan {
    if refresh_expires_at_s <= now_s + refresh_within_s {
        RefreshPlan::FullGenerate
    } else if access_expires_at_s <= now_s + refresh_within_s {
        RefreshPlan::RefreshAccess
    } else {
        RefreshPlan::Noop
    }
}

/// Decides whether the tokens are renewed this tick: a token is renewed when
/// it expires within `refresh_within_s` seconds of `now_s`.
pub fn plan_refresh(
    now_s: u64,
    access_expires_at_s: u64,
    refresh_expires_at_s: u64,
    refresh_within_s: u64,
) -> (r: RefreshPlan)
    ensures
        r == spec_plan_refresh(now_s, access_expires_at_s, refresh_expires_at_s, refresh_within_s),
{
    let window_end = match now_s.checked_add(refresh_within_s) {
        Some(e) => e,
        None => {
            // the window reaches past any representable expiry
            return RefreshPlan::FullGenerate;
        },
    };
    if refresh_expires_at_s <= window_end {
        RefreshPlan::FullGenerate
    } else if access_expires_at_s <= window_end {
        RefreshPlan::RefreshAccess
    } else {
        RefreshPlan::Noop
    }
}

/// The renewal window derived from the tick cadence: one and a half ticks,
/// rounded down, saturating.
pub fn compute_refresh_within_s(tick_s: u64) -> (r: u64)
    ensures
        tick_s * 3 <= u64::MAX ==> r == tick_s * 3 / 2,
        tick_s * 3 > u64::MAX ==> r == u64::MAX / 2,
{
    match tick_s.checked_mul(3) {
        Some(t) => t / 2,
        None => u64::MAX / 2,
    }
}

/// Law: under the renewal schedule, the access token attached to an outbound
/// call never lies behind the clock.  If every tick applies the plan, a tick
/// happened at most one tick interval before the send, the window covers at
/// least one tick interval, and renewed tokens are minted to outlive the
/// window, then the token held at the send expires no earlier than the send.
pub proof fn lemma_access_token_fresh(
    tick_at_s: u64,
    send_at_s: u64,
    tick_s: u64,
    refresh_within_s: u64,
    access_expires_at_s: u64,
    refresh_expires_at_s: u64,
    held_expires_at_s: u64,
)
    requires
        tick_s <= refresh_within_s,
        tick_at_s <= send_at_s <= tick_at_s + tick_s,
        spec_plan_refresh(tick_at_s, access_expires_at_s, refresh_expires_at_s, refresh_within_s)
            is Noop ==> held_expires_at_s == access_expires_at_s,
        !(spec_plan_refresh(tick_at_s, access_expires_at_s, refresh_expires_at_s, refresh_within_s)
            is Noop) ==> held_expires_at_s >= tick_at_s + refresh_within_s,
    ensures
        held_expires_at_s >= send_at_s,
{
}

} // verus!
