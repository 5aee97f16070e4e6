//! One streaming session: the state machine behind the select loop that
//! multiplexes stream messages, the heartbeat watchdog tick and the
//! metrics-and-auth tick.
//!
//! The transport hands each ready source in as a [`SessionEvent`]; the step
//! answers with the actions to perform and whether the session goes on.  All
//! session-fatal conditions are decided here; performing the actions (channel
//! sends, datapoint emission, the token cell write) is the caller's part.

use vstd::prelude::*;
use crate::auth::Token;
use crate::config::{spec_config_eq, RelayerConfig};
use crate::error::ProxyError;
use crate::keys::Pubkey;
use crate::net::HeartbeatEvent;
use crate::router::{
    route_message, spec_route, spec_stats_after, ActionView, RouteAction, ServerMessage,
};
use crate::stats::RelayerStageStats;

verus! {

/// One source of the select loop becoming ready.
pub enum SessionEvent {
    /// The stream yielded an error with the given message.
    StreamFailed(String),
    /// The stream ended.
    StreamClosed,
    /// The stream yielded a message, observed at the given time.
    StreamMessage { now_ms: u64, msg: ServerMessage },
    /// The heartbeat watchdog tick fired.
    HeartbeatTick { now_ms: u64 },
    /// The metrics-and-auth tick fired: the identity and global config as they
    /// are now, and the tokens the renewal returned, if any.
    MetricsTick {
        now_ms: u64,
        current_identity: Pubkey,
        current_config: RelayerConfig,
        new_access: Option<Token>,
        new_refresh: Option<Token>,
    },
}

/// What the caller must perform after a step.
pub enum SessionAction {
    /// Forward or announce, as the router decided.
    Route(RouteAction),
    /// Publish the stats counters (empty, packets, heartbeats) and start a
    /// fresh window.
    ReportStats(u64, u64, u64),
    /// Replace the shared access token, atomically, with this one.
    StoreAccessToken(Token),
    /// Publish the cumulative count of access-token renewals.
    ReportAccessRefresh(u64),
    /// Publish the cumulative count of full handshakes.
    ReportFullRefresh(u64),
}

/// The routing payloads among a step's actions, in order.
pub open spec fn route_views(actions: Seq<SessionAction>) -> Seq<ActionView>
    decreases actions.len(),
{
    if actions.len() == 0 {
        Seq::empty()
    } else {
        route_views(actions.drop_last()) + (match actions.last() {
            SessionAction::Route(ra) => seq![ra@],
            _ => Seq::empty(),
        })
    }
}

/// The error the caller reports when performing a routing action fails
/// because the downstream channel rejected the send.
pub fn send_failure_error(action: &RouteAction) -> (r: ProxyError)
    ensures
        (action is EmitHeartbeat) ==> r is HeartbeatChannelError,
        !(action is EmitHeartbeat) ==> r is PacketForwardError,
{
    match action {
        RouteAction::EmitHeartbeat => ProxyError::HeartbeatChannelError,
        _ => ProxyError::PacketForwardError,
    }
}

/// The heartbeat gate: whether the last sign of life lies further back than
/// the allowed age.
pub fn heartbeat_expired(now_ms: u64, last_heartbeat_ms: u64, oldest_allowed_ms: u64) -> (r:
    bool)
    requires
        now_ms >= last_heartbeat_ms,
    ensures
        r == (now_ms - last_heartbeat_ms > oldest_allowed_ms),
{
    now_ms - last_heartbeat_ms > oldest_allowed_ms
}

/// The live state of one session.
pub struct Session {
    /// The config snapshot the session was built from.
    pub config: RelayerConfig,
    /// The ingress sockets re-emitted on every heartbeat.
    pub heartbeat_event: HeartbeatEvent,
    /// The identity that signed the handshake.
    pub handshake_identity: Pubkey,
    /// When the watchdog last saw life: session start, then every heartbeat.
    pub last_heartbeat_ms: u64,
    /// Counters of the current metrics window.
    pub stats: RelayerStageStats,
    /// Full handshakes so far (the session's own counts as the first).
    pub num_full_refreshes: u64,
    /// Access-token renewals so far.
    pub num_refresh_access_token: u64,
    /// The refresh token currently held.
    pub refresh_token: Token,
    /// Set once a fatal condition was answered; an ended session acts no more.
    pub ended: bool,
}

impl Session {
    /// Opens a session: the watchdog reference starts at `now_ms`, counters
    /// start fresh, and the handshake that just succeeded counts as the first
    /// full token generation.
    pub fn start(
        config: RelayerConfig,
        heartbeat_event: HeartbeatEvent,
        handshake_identity: Pubkey,
        refresh_token: Token,
        now_ms: u64,
    ) -> (r: Session)
        ensures
            spec_config_eq(&r.config, &config),
            r.heartbeat_event == heartbeat_event,
            r.handshake_identity@ == handshake_identity@,
            r.last_heartbeat_ms == now_ms,
            r.stats == (RelayerStageStats {
                num_empty_messages: 0,
                num_packets: 0,
                num_heartbeats: 0,
            }),
            r.num_full_refreshes == 1,
            r.num_refresh_access_token == 0,
            r.refresh_token.value@ == refresh_token.value@,
            r.refresh_token.expires_at_s == refresh_token.expires_at_s,
            !r.ended,
    {
        Session {
            config,
            heartbeat_event,
            handshake_identity,
            last_heartbeat_ms: now_ms,
            stats: RelayerStageStats::default(),
            num_full_refreshes: 1,
            num_refresh_access_token: 0,
            refresh_token,
            ended: false,
        }
    }

    /// The watchdog has expired when the last sign of life is older than the
    /// allowed age.
    pub open spec fn spec_expired(&self, now_ms: u64) -> bool {
        now_ms - self.last_heartbeat_ms > self.config.oldest_allowed_heartbeat_ms
    }

    /// Feeds one ready source into the session.  Returns the actions to
    /// perform, in order, and `Err` exactly when the session ends.
    ///
    /// An ended session absorbs every event without acting; otherwise:
    /// stream failure or closure ends the session; a message is routed and a
    /// heartbeat re-arms the watchdog; a watchdog tick ends the session
    /// exactly when no heartbeat arrived within the allowed age; a metrics
    /// tick reports and resets the counters, then ends the session on an
    /// identity or config change, else applies the token renewal outcome.
    pub fn step(&mut self, event: SessionEvent) -> (r: (Vec<SessionAction>, Result<
        (),
        ProxyError,
    >))
        requires
            (event matches SessionEvent::StreamMessage { now_ms, .. } ==> now_ms >= old(
                self,
            ).last_heartbeat_ms),
            (event matches SessionEvent::HeartbeatTick { now_ms } ==> now_ms >= old(
                self,
            ).last_heartbeat_ms),
            (event matches SessionEvent::MetricsTick { new_access, .. } ==> (new_access is Some
                ==> old(self).num_refresh_access_token < u64::MAX)),
            (event matches SessionEvent::MetricsTick { new_refresh, .. } ==> (new_refresh is Some
                ==> old(self).num_full_refreshes < u64::MAX)),
        ensures
            final(self).config == old(self).config,
            final(self).heartbeat_event == old(self).heartbeat_event,
            final(self).handshake_identity == old(self).handshake_identity,
            final(self).last_heartbeat_ms >= old(self).last_heartbeat_ms,
            r.1 is Err ==> final(self).ended,
            old(self).ended ==> r.0@.len() == 0 && r.1 is Ok && *final(self) == *old(self),
            !old(self).ended ==> match event {
                SessionEvent::StreamFailed(m) => r.0@.len() == 0 && (r.1 matches Err(
                    ProxyError::GrpcError(w),
                ) && w@ == m@) && final(self).ended,
                SessionEvent::StreamClosed => r.0@.len() == 0 && (r.1 matches Err(e)
                    && e is GrpcStreamDisconnected) && final(self).ended,
                SessionEvent::StreamMessage { now_ms, msg } => {
                    &&& r.1 is Ok
                    &&& !final(self).ended
                    &&& route_views(r.0@) == spec_route(msg@, old(self).config.trust_packets)
                    &&& forall|i: int|
                        0 <= i < r.0@.len() ==> r.0@[i] is Route
                    &&& final(self).stats == spec_stats_after(msg@, old(self).stats)
                    &&& final(self).last_heartbeat_ms == (if msg@ is Heartbeat {
                        now_ms
                    } else {
                        old(self).last_heartbeat_ms
                    })
                    &&& final(self).num_full_refreshes == old(self).num_full_refreshes
                    &&& final(self).num_refresh_access_token == old(self).num_refresh_access_token
                    &&& final(self).refresh_token == old(self).refresh_token
                },
                SessionEvent::HeartbeatTick { now_ms } => {
                    &&& r.0@.len() == 0
                    &&& *final(self) == (Session { ended: final(self).ended, ..*old(self) })
                    &&& (old(self).spec_expired(now_ms) ==> (r.1 matches Err(e)
                        && e is HeartbeatExpired) && final(self).ended)
                    &&& (!old(self).spec_expired(now_ms) ==> r.1 is Ok && !final(self).ended)
                },
                SessionEvent::MetricsTick {
                    now_ms,
                    current_identity,
                    current_config,
                    new_access,
                    new_refresh,
                } => {
                    &&& final(self).stats == (RelayerStageStats {
                        num_empty_messages: 0,
                        num_packets: 0,
                        num_heartbeats: 0,
                    })
                    &&& final(self).last_heartbeat_ms == old(self).last_heartbeat_ms
                    &&& (current_identity@ != old(self).handshake_identity@ ==> {
                        &&& r.0@ == seq![
                            SessionAction::ReportStats(
                                old(self).stats.num_empty_messages,
                                old(self).stats.num_packets,
                                old(self).stats.num_heartbeats,
                            ),
                        ]
                        &&& (r.1 matches Err(ProxyError::AuthenticationConnectionError(w)) && w@
                            == "validator identity changed"@)
                        &&& final(self).ended
                    })
                    &&& (current_identity@ == old(self).handshake_identity@ && !spec_config_eq(
                        &current_config,
                        &old(self).config,
                    ) ==> {
                        &&& r.0@ == seq![
                            SessionAction::ReportStats(
                                old(self).stats.num_empty_messages,
                                old(self).stats.num_packets,
                                old(self).stats.num_heartbeats,
                            ),
                        ]
                        &&& (r.1 matches Err(ProxyError::AuthenticationConnectionError(w)) && w@
                            == "relayer config changed"@)
                        &&& final(self).ended
                    })
                    &&& (current_identity@ == old(self).handshake_identity@ && spec_config_eq(
                        &current_config,
                        &old(self).config,
                    ) ==> {
                        &&& r.1 is Ok
                        &&& !final(self).ended
                        &&& r.0@ == seq![
                            SessionAction::ReportStats(
                                old(self).stats.num_empty_messages,
                                old(self).stats.num_packets,
                                old(self).stats.num_heartbeats,
                            ),
                        ] + (match new_access {
                            Some(t) => seq![
                                SessionAction::ReportAccessRefresh(
                                    (old(self).num_refresh_access_token + 1) as u64,
                                ),
                                SessionAction::StoreAccessToken(t),
                            ],
                            None => Seq::<SessionAction>::empty(),
                        }) + (match new_refresh {
                            Some(t) => seq![
                                SessionAction::ReportFullRefresh(
                                    (old(self).num_full_refreshes + 1) as u64,
                                ),
                            ],
                            None => Seq::<SessionAction>::empty(),
                        })
                        &&& (match new_access {
                            Some(t) => final(self).num_refresh_access_token == old(
                                self,
                            ).num_refresh_access_token + 1,
                            None => final(self).num_refresh_access_token == old(
                                self,
                            ).num_refresh_access_token,
                        })
                        &&& (match new_refresh {
                            Some(t) => final(self).num_full_refreshes == old(
                                self,
                            ).num_full_refreshes + 1 && final(self).refresh_token == t,
                            None => final(self).num_full_refreshes == old(self).num_full_refreshes
                                && final(self).refresh_token == old(self).refresh_token,
                        })
                    })
                },
            },
    {
        let mut actions: Vec<SessionAction> = Vec::new();
        if self.ended {
            return (actions, Ok(()));
        }
        match event {
            SessionEvent::StreamFailed(m) => {
                self.ended = true;
                (actions, Err(ProxyError::GrpcError(m)))
            },
            SessionEvent::StreamClosed => {
                self.ended = true;
                (actions, Err(ProxyError::GrpcStreamDisconnected))
            },
            SessionEvent::StreamMessage { now_ms, msg } => {
                let ghost msgv = msg@;
                let is_hb = match &msg {
                    ServerMessage::Heartbeat => true,
                    _ => false,
                };
                let routed = route_message(msg, self.config.trust_packets, &mut self.stats);
                if is_hb {
                    self.last_heartbeat_ms = now_ms;
                }
                match routed {
                    Some(a) => {
                        let ghost av = a@;
                        actions.push(SessionAction::Route(a));
                        proof {
                            assert(actions@.drop_last() =~= Seq::<SessionAction>::empty());
                            assert(route_views(actions@.drop_last()).len() == 0);
                            assert(route_views(actions@) =~= seq![av]);
                        }
                    },
                    None => {
                        proof {
                            assert(route_views(actions@).len() == 0);
                            assert(route_views(actions@) =~= spec_route(
                                msgv,
                                self.config.trust_packets,
                            ));
                        }
                    },
                }
                (actions, Ok(()))
            },
            SessionEvent::HeartbeatTick { now_ms } => {
                if heartbeat_expired(
                    now_ms,
                    self.last_heartbeat_ms,
                    self.config.oldest_allowed_heartbeat_ms,
                ) {
                    self.ended = true;
                    (actions, Err(ProxyError::HeartbeatExpired))
                } else {
                    (actions, Ok(()))
                }
            },
            SessionEvent::MetricsTick {
                now_ms: _,
                current_identity,
                current_config,
                new_access,
                new_refresh,
            } => {
                let reported = self.stats.report();
                actions.push(SessionAction::ReportStats(reported.0, reported.1, reported.2));
                self.stats = RelayerStageStats::default();
                if !(current_identity == self.handshake_identity) {
                    self.ended = true;
                    return (
                        actions,
                        Err(
                            ProxyError::AuthenticationConnectionError(
                                "validator identity changed".to_owned(),
                            ),
                        ),
                    );
                }
                if !(current_config == self.config) {
                    self.ended = true;
                    return (
                        actions,
                        Err(
                            ProxyError::AuthenticationConnectionError(
                                "relayer config changed".to_owned(),
                            ),
                        ),
                    );
                }
                if let Some(t) = new_access {
                    self.num_refresh_access_token = self.num_refresh_access_token + 1;
                    actions.push(
                        SessionAction::ReportAccessRefresh(self.num_refresh_access_token),
                    );
                    actions.push(SessionAction::StoreAccessToken(t));
                }
                if let Some(t) = new_refresh {
                    self.num_full_refreshes = self.num_full_refreshes + 1;
                    actions.push(SessionAction::ReportFullRefresh(self.num_full_refreshes));
                    self.refresh_token = t;
                }
                (actions, Ok(()))
            },
        }
    }
}

} // verus!
