//! One WHEP client session: signaling outcome, resource location and the
//! decision step of the drive loop over the transport engine's outputs.
use vstd::prelude::*;
use vstd::string::*;

use crate::stats::{reported_kbps, sample, Stats, LOSS_SCALE};

verus! {

/// The ASCII serialization of the origin of the URL written `s`, or `None`
/// where `s` does not parse as a URL.
pub uninterp spec fn url_origin(s: Seq<char>) -> Option<Seq<char>>;

/// Relies on `url::Url::parse`, then `Url::origin` and
/// `Origin::ascii_serialization`: the origin of the parsed URL as text.
#[verifier::external_body]
fn parse_origin(s: &str) -> (r: Option<String>)
    ensures
        match r {
            Some(o) => url_origin(s@) == Some(o@),
            None => url_origin(s@) is None,
        },
{
    match url::Url::parse(s) {
        Ok(u) => Some(u.origin().ascii_serialization()),
        Err(_) => None,
    }
}

/// Where the teardown request goes: a location that starts with `/` is a
/// path on the target's origin, any other location is used verbatim.
pub open spec fn resolved_location(origin: Seq<char>, location: Seq<char>) -> Seq<char> {
    if location.len() > 0 && location[0] == '/' {
        origin + location
    } else {
        location
    }
}

/// Resolves the location returned by signaling against the target's origin.
pub fn resolve_location(origin: &str, location: &str) -> (r: String)
    ensures
        r@ == resolved_location(origin@, location@),
{
    if location.unicode_len() > 0 && location.get_char(0) == '/' {
        origin.to_owned().concat(location)
    } else {
        location.to_owned()
    }
}

/// Errors of one session; each ends that session only.
#[derive(Clone, Debug, PartialEq, Eq)]
pub enum WhepError {
    UrlError,
    ServerError(String),
    SdpError,
    WebrtcError,
    NetworkError(String),
}

/// What the drive step reports to the session's owner.
#[derive(Clone, Copy, Debug, PartialEq, Eq, Structural)]
pub enum WhepEvent {
    Continue,
    Connected,
    Stats(Stats),
    Disconnected,
}

/// A protocol event of the transport engine, as plain values.
#[derive(Clone, Copy, Debug, PartialEq, Eq, Structural)]
pub enum EngineEvent {
    /// Full connectivity was reached.
    Connected,
    /// The ICE connection state went to disconnected.
    IceDisconnected,
    /// The ICE connection state changed to anything else.
    IceChanged,
    /// Periodic ingress statistics carrying a round-trip time.
    IngressStats { rtt_ms: u32 },
    /// Periodic peer statistics: cumulative bytes and loss in parts per million.
    PeerStats { bytes_tx: u64, bytes_rx: u64, lost: u32 },
    /// A media packet or any other event, which the session ignores.
    Other,
}

/// One output polled from the transport engine.
#[derive(Clone, Copy, Debug, PartialEq, Eq, Structural)]
pub enum EngineOutput {
    Event(EngineEvent),
    /// A datagram is ready to be sent.
    Transmit,
    /// The engine needs attention again at this instant (milliseconds).
    Timeout { at: u64 },
}

/// What the owner of the session does after one drive step.
#[derive(Clone, Copy, Debug, PartialEq, Eq, Structural)]
pub enum DriveStep {
    /// Report this event.
    Report(WhepEvent),
    /// Send the pending datagram; a failed send does not end the session.
    Send,
    /// The deadline has passed: feed the engine a timeout at the current time.
    AdvanceTime,
    /// Wait at most `ms` milliseconds for a datagram, then feed the engine
    /// the datagram or a timeout.
    Wait { ms: u64 },
}

/// The outcome of the offer/answer exchange with the signaling server.
pub struct NegotiationReply {
    /// `Err` with a message where the request or the reading of its body failed.
    pub exchange: Result<(), String>,
    /// The HTTP status code of the response.
    pub status: u16,
    /// Whether the body parsed as an answering session description.
    pub answer_valid: bool,
    /// The `Location` response header, `None` where absent or not text.
    pub location: Option<String>,
}

/// A 2xx HTTP status.
pub open spec fn is_success(status: u16) -> bool {
    200 <= status < 300
}

/// A loss figure in parts per million, bounded to a fraction of at most one.
pub open spec fn clamp_loss(lost: u32) -> u32 {
    if lost > LOSS_SCALE {
        LOSS_SCALE
    } else {
        lost
    }
}

/// The state of a session as the contracts see it.
pub struct ClientView {
    pub location: Option<Seq<char>>,
    pub origin: Seq<char>,
    pub url: Seq<char>,
    pub token: Seq<char>,
    pub live_at: Option<u64>,
    pub rtt: u32,
    pub pre_ts: u64,
    pub pre_send_bytes: u64,
    pub pre_recv_bytes: u64,
}

/// Milliseconds a session has been live at `now`, capped at `u32::MAX`.
pub open spec fn live_ms_at(live_at: Option<u64>, now: u64) -> u32 {
    match live_at {
        Some(t) => if now <= t {
            0
        } else if now - t > u32::MAX {
            u32::MAX
        } else {
            (now - t) as u32
        },
        None => 0,
    }
}

/// One benchmark client session, apart from its engine and socket.
pub struct WhepClient {
    location: Option<String>,
    origin: String,
    url: String,
    token: String,
    live_at: Option<u64>,
    rtt: u32,
    pre_ts: u64,
    pre_send_bytes: u64,
    pre_recv_bytes: u64,
}

impl View for WhepClient {
    type V = ClientView;

    closed spec fn view(&self) -> ClientView {
        ClientView {
            location: match self.location {
                Some(l) => Some(l@),
                None => None,
            },
            origin: self.origin@,
            url: self.url@,
            token: self.token@,
            live_at: self.live_at,
            rtt: self.rtt,
            pre_ts: self.pre_ts,
            pre_send_bytes: self.pre_send_bytes,
            pre_recv_bytes: self.pre_recv_bytes,
        }
    }
}

impl WhepClient {
    /// A session against the target `url`, created at `now` (milliseconds).
    pub fn new(url: &str, token: &str, now: u64) -> (r: Result<WhepClient, WhepError>)
        ensures
            r is Ok <==> url_origin(url@) is Some,
            url_origin(url@) is None <==> r == Err::<WhepClient, WhepError>(WhepError::UrlError),
            r is Ok ==> ({
                let c = r->Ok_0@;
                &&& Some(c.origin) == url_origin(url@)
                &&& c.url == url@
                &&& c.token == token@
                &&& c.location is None
                &&& c.live_at is None
                &&& c.rtt == 0
                &&& c.pre_ts == now
                &&& c.pre_send_bytes == 0
                &&& c.pre_recv_bytes == 0
            }),
    {
        match parse_origin(url) {
            Some(origin) => Ok(WhepClient {
                location: None,
                origin,
                url: url.to_owned(),
                token: token.to_owned(),
                live_at: None,
                rtt: 0,
                pre_ts: now,
                pre_send_bytes: 0,
                pre_recv_bytes: 0,
            }),
            None => Err(WhepError::UrlError),
        }
    }

    pub fn url(&self) -> (r: &str)
        ensures
            r@ == self@.url,
    {
        self.url.as_str()
    }

    pub fn token(&self) -> (r: &str)
        ensures
            r@ == self@.token,
    {
        self.token.as_str()
    }

    /// The resource location obtained by negotiation, if any.
    pub fn location(&self) -> (r: Option<&str>)
        ensures
            match r {
                Some(l) => self@.location == Some(l@),
                None => self@.location is None,
            },
    {
        match &self.location {
            Some(l) => Some(l.as_str()),
            None => None,
        }
    }

    /// Value of the `Authorization` header of the signaling requests.
    pub fn authorization(&self) -> (r: String)
        ensures
            r@ == seq!['B', 'e', 'a', 'r', 'e', 'r', ' '] + self@.token,
    {
        let r = "Bearer ".to_owned().concat(self.token.as_str());
        proof {
            reveal_strlit("Bearer ");
        }
        r
    }
}

impl WhepClient {
    /// Takes in the outcome of the offer/answer exchange. The exchange's own
    /// failure comes first, then a status other than 2xx, then an unparsable
    /// answer, then a missing location; on success the resolved location is
    /// recorded.
    pub fn prepare(&mut self, reply: NegotiationReply) -> (r: Result<(), WhepError>)
        ensures
            final(self)@.origin == old(self)@.origin,
            final(self)@.url == old(self)@.url,
            final(self)@.token == old(self)@.token,
            final(self)@.live_at == old(self)@.live_at,
            final(self)@.rtt == old(self)@.rtt,
            final(self)@.pre_ts == old(self)@.pre_ts,
            final(self)@.pre_send_bytes == old(self)@.pre_send_bytes,
            final(self)@.pre_recv_bytes == old(self)@.pre_recv_bytes,
            r is Ok <==> (reply.exchange is Ok && is_success(reply.status) && reply.answer_valid
                && reply.location is Some),
            reply.exchange is Err ==> r == Err::<(), WhepError>(
                WhepError::ServerError(reply.exchange->Err_0),
            ),
            reply.exchange is Ok && !is_success(reply.status) ==> (r matches Err(
                WhepError::ServerError(_),
            )),
            reply.exchange is Ok && is_success(reply.status) && !reply.answer_valid ==> r == Err::<(), WhepError>(
                WhepError::SdpError,
            ),
            reply.exchange is Ok && is_success(reply.status) && reply.answer_valid
                && reply.location is None ==> (r matches Err(
                WhepError::ServerError(_),
            )),
            r is Err ==> final(self)@.location == old(self)@.location,
            r is Ok ==> final(self)@.location == Some(
                resolved_location(old(self)@.origin, reply.location->Some_0@),
            ),
    {
        match reply.exchange {
            Err(e) => {
                return Err(WhepError::ServerError(e));
            },
            Ok(()) => {},
        }
        if reply.status < 200 || reply.status >= 300 {
            return Err(WhepError::ServerError("Unexpected Response Status".to_owned()));
        }
        if !reply.answer_valid {
            return Err(WhepError::SdpError);
        }
        match reply.location {
            None => Err(WhepError::ServerError("Location Header Not Found".to_owned())),
            Some(loc) => {
                let resolved = resolve_location(self.origin.as_str(), loc.as_str());
                self.location = Some(resolved);
                Ok(())
            },
        }
    }

    /// Takes the resource location for teardown: the owner deletes it where
    /// one is returned. The location is cleared, so a second call yields `None`.
    pub fn disconnect(&mut self) -> (r: Option<String>)
        ensures
            match r {
                Some(l) => old(self)@.location == Some(l@),
                None => old(self)@.location is None,
            },
            final(self)@.location is None,
            final(self)@.origin == old(self)@.origin,
            final(self)@.url == old(self)@.url,
            final(self)@.token == old(self)@.token,
            final(self)@.live_at == old(self)@.live_at,
            final(self)@.rtt == old(self)@.rtt,
            final(self)@.pre_ts == old(self)@.pre_ts,
            final(self)@.pre_send_bytes == old(self)@.pre_send_bytes,
            final(self)@.pre_recv_bytes == old(self)@.pre_recv_bytes,
    {
        self.location.take()
    }

    /// One step of the drive loop: decides what to do with one output of the
    /// transport engine polled at `now` (milliseconds).
    pub fn recv(&mut self, output: EngineOutput, now: u64) -> (r: DriveStep)
        ensures
            final(self)@.location == old(self)@.location,
            final(self)@.origin == old(self)@.origin,
            final(self)@.url == old(self)@.url,
            final(self)@.token == old(self)@.token,
            match output {
                EngineOutput::Event(EngineEvent::Connected) => {
                    &&& r == DriveStep::Report(WhepEvent::Connected)
                    &&& final(self)@.live_at == (match old(self)@.live_at {
                        Some(t) => Some(t),
                        None => Some(now),
                    })
                    &&& same_counters(final(self)@, old(self)@)
                },
                EngineOutput::Event(EngineEvent::IceDisconnected) => {
                    &&& r == DriveStep::Report(WhepEvent::Disconnected)
                    &&& same_samples(final(self)@, old(self)@)
                },
                EngineOutput::Event(EngineEvent::IngressStats { rtt_ms }) => {
                    &&& r == DriveStep::Report(WhepEvent::Continue)
                    &&& final(self)@.rtt == rtt_ms
                    &&& final(self)@.live_at == old(self)@.live_at
                    &&& final(self)@.pre_ts == old(self)@.pre_ts
                    &&& final(self)@.pre_send_bytes == old(self)@.pre_send_bytes
                    &&& final(self)@.pre_recv_bytes == old(self)@.pre_recv_bytes
                },
                EngineOutput::Event(EngineEvent::PeerStats { bytes_tx, bytes_rx, lost }) => {
                    let o = old(self)@;
                    &&& r == DriveStep::Report(
                        WhepEvent::Stats(
                            Stats {
                                send_kbps: reported_kbps(o.pre_send_bytes, o.pre_ts, bytes_tx, now),
                                recv_kbps: reported_kbps(o.pre_recv_bytes, o.pre_ts, bytes_rx, now),
                                live_ms: live_ms_at(o.live_at, now),
                                rtt_ms: o.rtt,
                                lost: clamp_loss(lost),
                            },
                        ),
                    )
                    &&& final(self)@.pre_ts == now
                    &&& final(self)@.pre_send_bytes == bytes_tx
                    &&& final(self)@.pre_recv_bytes == bytes_rx
                    &&& final(self)@.live_at == o.live_at
                    &&& final(self)@.rtt == o.rtt
                },
                EngineOutput::Event(_) => {
                    &&& r == DriveStep::Report(WhepEvent::Continue)
                    &&& same_samples(final(self)@, old(self)@)
                },
                EngineOutput::Transmit => {
                    &&& r == DriveStep::Send
                    &&& same_samples(final(self)@, old(self)@)
                },
                EngineOutput::Timeout { at } => {
                    &&& r == (if at <= now {
                        DriveStep::AdvanceTime
                    } else {
                        DriveStep::Wait { ms: (at - now) as u64 }
                    })
                    &&& same_samples(final(self)@, old(self)@)
                },
            },
    {
        match output {
            EngineOutput::Event(event) => match event {
                EngineEvent::Connected => {
                    if self.live_at.is_none() {
                        self.live_at = Some(now);
                    }
                    DriveStep::Report(WhepEvent::Connected)
                },
                EngineEvent::IceDisconnected => DriveStep::Report(WhepEvent::Disconnected),
                EngineEvent::IngressStats { rtt_ms } => {
                    self.rtt = rtt_ms;
                    DriveStep::Report(WhepEvent::Continue)
                },
                EngineEvent::PeerStats { bytes_tx, bytes_rx, lost } => {
                    let send_kbps = sample(self.pre_send_bytes, self.pre_ts, bytes_tx, now);
                    let recv_kbps = sample(self.pre_recv_bytes, self.pre_ts, bytes_rx, now);
                    let live_ms: u32 = match self.live_at {
                        Some(t) => if now <= t {
                            0
                        } else if now - t > u32::MAX as u64 {
                            u32::MAX
                        } else {
                            (now - t) as u32
                        },
                        None => 0,
                    };
                    self.pre_ts = now;
                    self.pre_send_bytes = bytes_tx;
                    self.pre_recv_bytes = bytes_rx;
                    DriveStep::Report(
                        WhepEvent::Stats(
                            Stats {
                                send_kbps,
                                recv_kbps,
                                live_ms,
                                rtt_ms: self.rtt,
                                lost: if lost > LOSS_SCALE {
                                    LOSS_SCALE
                                } else {
                                    lost
                                },
                            },
                        ),
                    )
                },
                _ => DriveStep::Report(WhepEvent::Continue),
            },
            EngineOutput::Transmit => DriveStep::Send,
            EngineOutput::Timeout { at } => {
                if at <= now {
                    DriveStep::AdvanceTime
                } else {
                    DriveStep::Wait { ms: at - now }
                }
            },
        }
    }
}

/// The byte counters and their timestamp are unchanged.
pub open spec fn same_counters(a: ClientView, b: ClientView) -> bool {
    &&& a.rtt == b.rtt
    &&& a.pre_ts == b.pre_ts
    &&& a.pre_send_bytes == b.pre_send_bytes
    &&& a.pre_recv_bytes == b.pre_recv_bytes
}

/// Everything the statistics are derived from is unchanged.
pub open spec fn same_samples(a: ClientView, b: ClientView) -> bool {
    &&& a.live_at == b.live_at
    &&& same_counters(a, b)
}

} // verus!
