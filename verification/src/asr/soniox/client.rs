//! The Soniox realtime connection: what to send, when to reconnect, when to stop.
//!
//! Whoever owns the socket performs the actions that a [`SocketSession`] hands
//! out and reports what happened; the session decides what comes next. One owner
//! and one state machine leave the reconnect, finish and re-entrancy hazards
//! nowhere to hide.

use std::collections::VecDeque;
use vstd::prelude::*;

use super::protocol;
use super::protocol::SonioxResponse;
use super::protocol::StartRequest;
use crate::asr::AsrError;
use crate::report;
use crate::report::Field;
use crate::report::FieldValue;
use crate::report::FieldValueView;
use crate::report::FieldView;
use crate::settings;
use crate::text;

verus! {

/// WebSocket-level keepalive. The service has no application-level ping.
pub const PING_INTERVAL_MS: u64 = 15_000;

/// How long teardown waits for the server's `finished` acknowledgement.
pub const FINISH_TIMEOUT_MS: u64 = 2_000;

/// Bounds the TLS handshake.
pub const CONNECT_TIMEOUT_MS: u64 = 10_000;

/// Consecutive failed attempts tolerated before the session is declared dead.
/// The counter resets whenever a connection lives long enough to return a
/// response, so this caps a burst of failures, not a long session's lifetime
/// total.
pub const MAX_RECONNECT_ATTEMPTS: u32 = 5;

pub const BACKOFF_START_MS: u64 = 500;

pub const BACKOFF_CAP_MS: u64 = 15_000;

/// Upload backlog ceiling, in samples at the pipeline's 16 kHz.
pub const MAX_QUEUED_SAMPLES: usize = 480_000;

// ---------------------------------------------------------------------------
// Session parameters
// ---------------------------------------------------------------------------

/// Session parameters for one connection.
#[derive(Clone)]
pub struct SonioxConfig {
    pub api_key: String,
    pub model: String,
    pub language_hints: Vec<String>,
    pub diarization: bool,
    pub endpoint_detection: bool,
}

/// The fields that a listing of the parameters shows, in order. Of the key it
/// shows only whether there is one.
pub open spec fn config_listing(c: SonioxConfig) -> Seq<FieldView> {
    seq![
        FieldView {
            name: "api_key"@,
            value: FieldValueView::Text(settings::masked_key(c.api_key@)),
        },
        FieldView { name: "model"@, value: FieldValueView::Text(c.model@) },
        FieldView {
            name: "language_hints"@,
            value: FieldValueView::List(text::list_view(c.language_hints@)),
        },
        FieldView { name: "diarization"@, value: FieldValueView::Flag(c.diarization) },
        FieldView {
            name: "endpoint_detection"@,
            value: FieldValueView::Flag(c.endpoint_detection),
        },
    ]
}

impl SonioxConfig {
    /// The fields to show when the parameters are listed.
    pub fn fields(&self) -> (r: Vec<Field>)
        ensures
            report::fields_view(r@) == config_listing(*self),
    {
        let mut r: Vec<Field> = Vec::new();
        assert(report::fields_view(r@) =~= Seq::<FieldView>::empty());
        report::list(
            &mut r,
            "api_key",
            FieldValue::Text(settings::mask_key(self.api_key.as_str())),
        );
        report::list(&mut r, "model", FieldValue::Text(self.model.clone()));
        report::list(
            &mut r,
            "language_hints",
            FieldValue::List(text::clone_list(&self.language_hints)),
        );
        report::list(&mut r, "diarization", FieldValue::Flag(self.diarization));
        report::list(&mut r, "endpoint_detection", FieldValue::Flag(self.endpoint_detection));
        assert(report::fields_view(r@) =~= config_listing(*self));
        r
    }

    /// The first frame of a connection with these parameters.
    pub fn start_request(&self) -> (r: StartRequest)
        ensures
            r.api_key == self.api_key,
            r.model == self.model,
            r.audio_format@ == "pcm_s16le"@,
            r.sample_rate == 16_000,
            r.num_channels == 1,
            text::list_view(r.language_hints@) == text::list_view(self.language_hints@),
            !r.language_hints_strict,
            r.enable_speaker_diarization == self.diarization,
            !r.enable_language_identification,
            r.enable_endpoint_detection == self.endpoint_detection,
    {
        StartRequest::new(
            self.api_key.clone(),
            self.model.clone(),
            text::clone_list(&self.language_hints),
            self.diarization,
            self.endpoint_detection,
        )
    }
}

/// A listing tells nothing of a key but whether there is one.
pub proof fn law_config_listing_hides_the_key(a: SonioxConfig, b: SonioxConfig)
    requires
        b == (SonioxConfig { api_key: b.api_key, ..a }),
        a.api_key@.len() == 0 <==> b.api_key@.len() == 0,
    ensures
        config_listing(a) == config_listing(b),
{
}

// ---------------------------------------------------------------------------
// The processing side
// ---------------------------------------------------------------------------

/// Processing side to socket side.
pub enum Outbound {
    Audio { pcm: Vec<u8>, samples: usize },
    /// Begin the clean end-of-stream handshake.
    Finish,
    /// Drop everything now.
    Shutdown,
}

/// Socket side to processing side.
pub enum Inbound {
    /// A transcript frame to fold into the accumulator.
    Response(Box<SonioxResponse>),
    /// The connection dropped and is being re-established. The open segment
    /// must be finalized and the accumulator reset before the next response,
    /// because the new stream restarts its timeline from zero.
    Reconnecting(String),
    /// The server acknowledged end-of-stream, or teardown stopped waiting.
    Finished,
    /// The session cannot continue.
    Fatal(String),
}

/// What the processing side knows of a connection: how many samples wait for
/// upload, and whether the end of the stream was announced.
pub struct SonioxClient {
    pub queued: usize,
    pub finish_sent: bool,
}

/// A backlog after `samples` of it went out.
pub open spec fn released(queued: usize, samples: usize) -> usize {
    if samples >= queued {
        0
    } else {
        (queued - samples) as usize
    }
}

/// One more frame is accepted only if it holds audio and the backlog stays at or
/// below the ceiling.
pub open spec fn admitted(queued: usize, pcm: Seq<u8>, samples: usize) -> bool {
    pcm.len() > 0 && samples > 0 && queued + samples <= MAX_QUEUED_SAMPLES
}

impl SonioxClient {
    /// Opens the processing side of a connection. A blank key is rejected here,
    /// before anything is started.
    pub fn connect(config: &SonioxConfig) -> (r: Result<Self, AsrError>)
        ensures
            match r {
                Ok(client) => {
                    &&& !text::is_blank_text(config.api_key@)
                    &&& client.queued == 0
                    &&& !client.finish_sent
                },
                Err(e) => {
                    &&& text::is_blank_text(config.api_key@)
                    &&& e is Fatal
                    &&& e.text() == "No Soniox API key is configured. Add one in Preferences."@
                },
            },
    {
        if text::is_blank(config.api_key.as_str()) {
            return Err(
                AsrError::Fatal(
                    "No Soniox API key is configured. Add one in Preferences.".to_owned(),
                ),
            );
        }
        Ok(SonioxClient { queued: 0, finish_sent: false })
    }

    /// Admits one PCM frame for upload and counts it as queued.
    ///
    /// An empty buffer is rejected explicitly: an empty binary frame is the
    /// service's end-of-stream signal.
    pub fn send_audio(&mut self, pcm: Vec<u8>, samples: usize) -> (r: Result<Outbound, AsrError>)
        ensures
            final(self).finish_sent == old(self).finish_sent,
            match r {
                Ok(message) => {
                    &&& admitted(old(self).queued, pcm@, samples)
                    &&& message == (Outbound::Audio { pcm, samples })
                    &&& final(self).queued == old(self).queued + samples
                },
                Err(e) => {
                    &&& !admitted(old(self).queued, pcm@, samples)
                    &&& final(self).queued == old(self).queued
                    &&& e is Transient
                    &&& e.text() == if pcm@.len() == 0 || samples == 0 {
                        "Refusing to send an empty Soniox audio frame; that is the end-of-stream signal"@
                    } else {
                        "Soniox upload is backed up past 30s of audio; dropping captured audio"@
                    }
                },
            },
    {
        if pcm.len() == 0 || samples == 0 {
            return Err(
                AsrError::Transient(
                    "Refusing to send an empty Soniox audio frame; that is the end-of-stream signal".to_owned(),
                ),
            );
        }
        if self.queued.saturating_add(samples) > MAX_QUEUED_SAMPLES {
            return Err(
                AsrError::Transient(
                    "Soniox upload is backed up past 30s of audio; dropping captured audio".to_owned(),
                ),
            );
        }
        self.queued = self.queued + samples;
        Ok(Outbound::Audio { pcm, samples })
    }

    /// The socket side is gone: the frame that was just admitted is taken back.
    pub fn send_failed(&mut self, samples: usize) -> (e: AsrError)
        ensures
            final(self).finish_sent == old(self).finish_sent,
            final(self).queued == released(old(self).queued, samples),
            e is Fatal,
            e.text() == "The Soniox connection has ended"@,
    {
        self.release(samples);
        AsrError::Fatal("The Soniox connection has ended".to_owned())
    }

    /// A frame left the backlog, whether or not it could be written.
    pub fn release(&mut self, samples: usize)
        ensures
            final(self).finish_sent == old(self).finish_sent,
            final(self).queued == released(old(self).queued, samples),
    {
        self.queued = self.queued.saturating_sub(samples);
    }

    /// Begins the end-of-stream handshake. Only the first call has anything to
    /// send.
    pub fn finish(&mut self) -> (r: Option<Outbound>)
        ensures
            final(self).finish_sent,
            final(self).queued == old(self).queued,
            r == if old(self).finish_sent {
                None::<Outbound>
            } else {
                Some(Outbound::Finish)
            },
    {
        if self.finish_sent {
            return None;
        }
        self.finish_sent = true;
        Some(Outbound::Finish)
    }

    /// Samples accepted but not yet written to the socket.
    pub fn queued_samples(&self) -> (r: usize)
        ensures
            r == self.queued,
    {
        self.queued
    }
}

// ---------------------------------------------------------------------------
// Backoff
// ---------------------------------------------------------------------------

/// The delay before an attempt: it doubles from half a second, up to a cap.
pub open spec fn backoff_of(attempt: u32) -> u64
    decreases attempt,
{
    if attempt <= 1 {
        BACKOFF_START_MS
    } else if 2 * backoff_of((attempt - 1) as u32) >= BACKOFF_CAP_MS {
        BACKOFF_CAP_MS
    } else {
        (2 * backoff_of((attempt - 1) as u32)) as u64
    }
}

proof fn lemma_backoff_capped(attempt: u32)
    ensures
        BACKOFF_START_MS <= backoff_of(attempt) <= BACKOFF_CAP_MS,
        attempt >= 6 ==> backoff_of(attempt) == BACKOFF_CAP_MS,
    decreases attempt,
{
    if attempt > 1 {
        lemma_backoff_capped((attempt - 1) as u32);
    }
    if attempt == 6 {
        assert(backoff_of(1) == 500);
        assert(backoff_of(2) == 1000);
        assert(backoff_of(3) == 2000);
        assert(backoff_of(4) == 4000);
        assert(backoff_of(5) == 8000);
    }
}

/// 0.5, 1, 2, 4, 8 s, capped. In milliseconds.
pub fn backoff(attempt: u32) -> (r: u64)
    ensures
        r == backoff_of(attempt),
{
    proof {
        lemma_backoff_capped(attempt);
    }
    if attempt >= 6 {
        return BACKOFF_CAP_MS;
    }
    let mut delay: u64 = BACKOFF_START_MS;
    let mut n: u32 = 1;
    while n < attempt
        invariant
            1 <= n,
            n <= attempt || attempt == 0,
            attempt <= 1 ==> n == 1,
            attempt < 6,
            delay == backoff_of(n),
            delay <= BACKOFF_CAP_MS,
        decreases attempt - n,
    {
        proof {
            lemma_backoff_capped((n + 1) as u32);
        }
        n = n + 1;
        delay = if 2 * delay >= BACKOFF_CAP_MS {
            BACKOFF_CAP_MS
        } else {
            2 * delay
        };
    }
    delay
}

/// The delay never shrinks from one attempt to the next and never passes the cap.
pub proof fn law_backoff_grows_to_a_cap(attempt: u32)
    requires
        attempt < u32::MAX,
    ensures
        backoff_of(attempt) <= backoff_of((attempt + 1) as u32) <= BACKOFF_CAP_MS,
{
    lemma_backoff_capped(attempt);
    lemma_backoff_capped((attempt + 1) as u32);
}

// ---------------------------------------------------------------------------
// The socket side
// ---------------------------------------------------------------------------

/// Where a socket session is.
#[derive(Clone, Copy, Debug, PartialEq, Eq, Structural)]
pub enum SocketPhase {
    /// Nothing has happened yet.
    Fresh,
    /// Waiting for a connection.
    Connecting,
    /// Waiting for the start frame to go out.
    Starting,
    /// Sending what was captured while there was no connection.
    Flushing,
    /// Waiting for the next thing to happen.
    Running,
    /// Sending one audio frame.
    Uploading,
    /// Sending a keepalive.
    Pinging,
    /// Taking what is still queued ahead of the end-of-stream frame.
    Draining,
    /// Sending one of those frames.
    DrainUploading,
    /// Sending the end-of-stream frame.
    EndingStream,
    /// Waiting before the next attempt.
    Backoff,
    /// Nothing more will happen.
    Done,
}

/// A frame from the server.
pub enum Incoming {
    /// The stream of frames is over.
    Ended,
    /// Reading failed.
    Failed(String),
    /// A text frame that parses.
    Text(Box<SonioxResponse>),
    /// A text frame that does not parse.
    Unparseable,
    Binary,
    /// A close frame.
    Close,
    /// A ping, a pong, or part of a frame.
    Other,
}

/// Something that happened on the socket side.
pub enum SocketEvent {
    Start,
    Connected,
    ConnectTimedOut,
    ConnectFailed(String),
    /// The start frame could not be written down.
    StartUnbuilt(String),
    /// What was to be sent went out.
    Sent,
    /// What was to be sent did not go out.
    SendFailed(String),
    /// A message from the processing side; `None` if that side is gone.
    Queued(Option<Outbound>),
    /// Nothing more is queued.
    QueueEmpty,
    Incoming(Incoming),
    PingDue,
    /// The wait for the server's acknowledgement is over.
    WatchdogFired,
    BackoffElapsed,
}

/// Something for the owner of the socket to do, in order.
pub enum SocketAction {
    Connect,
    SendStart,
    SendFrame { pcm: Vec<u8> },
    /// An empty binary frame is the end-of-stream signal.
    SendEndOfStream,
    SendPing,
    Close,
    ArmWatchdog,
    /// So many samples left the backlog.
    Release { samples: usize },
    Report(Inbound),
    /// Wait for a queued message, a frame, a keepalive tick or the watchdog.
    Wait,
    /// Take a queued message without waiting.
    TakeQueued,
    /// Wait so long, but take queued messages meanwhile.
    Sleep { ms: u64 },
    /// Go on with the sleep that is under way.
    KeepSleeping,
    Stop,
}

/// What an [`Inbound`] says.
#[verifier::ext_equal]
pub enum InboundView {
    Response(SonioxResponse),
    Reconnecting(Seq<char>),
    Finished,
    Fatal(Seq<char>),
}

impl View for Inbound {
    type V = InboundView;

    open spec fn view(&self) -> InboundView {
        match *self {
            Inbound::Response(r) => InboundView::Response(*r),
            Inbound::Reconnecting(m) => InboundView::Reconnecting(m@),
            Inbound::Finished => InboundView::Finished,
            Inbound::Fatal(m) => InboundView::Fatal(m@),
        }
    }
}

/// What a [`SocketAction`] says.
#[verifier::ext_equal]
pub enum SocketActionView {
    Connect,
    SendStart,
    SendFrame(Seq<u8>),
    SendEndOfStream,
    SendPing,
    Close,
    ArmWatchdog,
    Release(usize),
    Report(InboundView),
    Wait,
    TakeQueued,
    Sleep(u64),
    KeepSleeping,
    Stop,
}

impl View for SocketAction {
    type V = SocketActionView;

    open spec fn view(&self) -> SocketActionView {
        match *self {
            SocketAction::Connect => SocketActionView::Connect,
            SocketAction::SendStart => SocketActionView::SendStart,
            SocketAction::SendFrame { pcm } => SocketActionView::SendFrame(pcm@),
            SocketAction::SendEndOfStream => SocketActionView::SendEndOfStream,
            SocketAction::SendPing => SocketActionView::SendPing,
            SocketAction::Close => SocketActionView::Close,
            SocketAction::ArmWatchdog => SocketActionView::ArmWatchdog,
            SocketAction::Release { samples } => SocketActionView::Release(samples),
            SocketAction::Report(m) => SocketActionView::Report(m@),
            SocketAction::Wait => SocketActionView::Wait,
            SocketAction::TakeQueued => SocketActionView::TakeQueued,
            SocketAction::Sleep { ms } => SocketActionView::Sleep(ms),
            SocketAction::KeepSleeping => SocketActionView::KeepSleeping,
            SocketAction::Stop => SocketActionView::Stop,
        }
    }
}

pub open spec fn socket_actions_view(v: Seq<SocketAction>) -> Seq<SocketActionView> {
    Seq::new(v.len(), |i: int| v[i]@)
}

/// What a [`SocketSession`] holds.
#[verifier::ext_equal]
pub struct SocketView {
    pub phase: SocketPhase,
    /// Failed attempts in a row.
    pub attempt: u32,
    /// Audio captured while there was no connection, oldest first.
    pub pending: Seq<(Seq<u8>, usize)>,
    /// Whether this connection returned a response.
    pub progressed: bool,
    /// Whether end-of-stream is on the wire.
    pub finishing: bool,
}

/// How a connection ends.
pub enum Outcome {
    /// End-of-stream completed, or teardown gave up waiting for it.
    Finished,
    /// A hard stop; say nothing more.
    Shutdown,
    Fatal(Seq<char>),
    /// Try again. `progressed`: the connection got far enough to return a
    /// response.
    Retry { reason: Seq<char>, progressed: bool },
}

/// What follows the end of a connection.
pub open spec fn ended(s: SocketView, outcome: Outcome) -> (SocketView, Seq<SocketActionView>) {
    let done = SocketView { phase: SocketPhase::Done, ..s };
    match outcome {
        Outcome::Finished => (
            done,
            seq![SocketActionView::Report(InboundView::Finished), SocketActionView::Stop],
        ),
        Outcome::Shutdown => (done, seq![SocketActionView::Stop]),
        Outcome::Fatal(message) => (
            done,
            seq![SocketActionView::Report(InboundView::Fatal(message)), SocketActionView::Stop],
        ),
        Outcome::Retry { reason, progressed } => {
            let attempt = if progressed {
                1u32
            } else {
                (s.attempt + 1) as u32
            };
            if attempt > MAX_RECONNECT_ATTEMPTS {
                (
                    SocketView { attempt, ..done },
                    seq![
                        SocketActionView::Report(
                            InboundView::Fatal(
                                "Lost the Soniox connection and could not re-establish it after 5 attempts: "@
                                    + reason,
                            ),
                        ),
                        SocketActionView::Stop,
                    ],
                )
            } else {
                (
                    SocketView { phase: SocketPhase::Backoff, attempt, ..s },
                    seq![
                        SocketActionView::Report(InboundView::Reconnecting(reason)),
                        SocketActionView::Sleep(backoff_of(attempt)),
                    ],
                )
            }
        },
    }
}

/// Audio buffered across the outage goes first, in capture order; then the
/// connection runs.
pub open spec fn flushing(s: SocketView) -> (SocketView, Seq<SocketActionView>) {
    if s.pending.len() > 0 {
        (
            SocketView {
                phase: SocketPhase::Flushing,
                pending: s.pending.drop_first(),
                ..s
            },
            seq![
                SocketActionView::Release(s.pending[0].1),
                SocketActionView::SendFrame(s.pending[0].0),
            ],
        )
    } else {
        (
            SocketView {
                phase: SocketPhase::Running,
                progressed: false,
                finishing: false,
                ..s
            },
            seq![SocketActionView::Wait],
        )
    }
}

pub open spec fn waiting(s: SocketView) -> (SocketView, Seq<SocketActionView>) {
    (SocketView { phase: SocketPhase::Running, ..s }, seq![SocketActionView::Wait])
}

/// The peer went away: that completes a finishing stream and interrupts any other.
pub open spec fn dropped(s: SocketView, reason: Seq<char>) -> (SocketView, Seq<SocketActionView>) {
    if s.finishing {
        ended(s, Outcome::Finished)
    } else {
        ended(s, Outcome::Retry { reason, progressed: s.progressed })
    }
}

/// A step with `first` done ahead of it.
pub open spec fn after(
    first: SocketActionView,
    step: (SocketView, Seq<SocketActionView>),
) -> (SocketView, Seq<SocketActionView>) {
    (step.0, seq![first] + step.1)
}

/// A response while the connection runs.
pub open spec fn responded(s: SocketView, response: SonioxResponse) -> (
    SocketView,
    Seq<SocketActionView>,
) {
    let s = SocketView { progressed: true, ..s };
    match response.error_type {
        Some(error_type) => {
            let message = match response.error_message {
                Some(m) => m@,
                None => error_type@,
            };
            let reason = message + " ("@ + error_type@ + ")"@;
            if protocol::retryable_type(error_type@) {
                ended(s, Outcome::Retry { reason, progressed: true })
            } else {
                ended(s, Outcome::Fatal("Soniox rejected the session: "@ + reason))
            }
        },
        None => {
            let step = if response.finished {
                after(SocketActionView::Close, ended(s, Outcome::Finished))
            } else {
                waiting(s)
            };
            if response.tokens@.len() > 0 {
                after(SocketActionView::Report(InboundView::Response(response)), step)
            } else {
                step
            }
        },
    }
}

/// A frame from the server while the connection runs.
pub open spec fn received(s: SocketView, incoming: Incoming) -> (
    SocketView,
    Seq<SocketActionView>,
) {
    match incoming {
        Incoming::Ended => dropped(s, "Soniox closed the connection"@),
        Incoming::Failed(e) => dropped(s, "the Soniox connection dropped: "@ + e@),
        Incoming::Text(response) => responded(s, *response),
        Incoming::Unparseable => waiting(s),
        Incoming::Binary => ended(
            s,
            Outcome::Fatal("Soniox sent a binary frame, which its protocol never uses"@),
        ),
        Incoming::Close => dropped(s, "Soniox closed the connection"@),
        Incoming::Other => waiting(s),
    }
}

/// A message from the processing side while the connection runs.
pub open spec fn asked(s: SocketView, message: Option<Outbound>) -> (
    SocketView,
    Seq<SocketActionView>,
) {
    match message {
        None => ended(s, Outcome::Shutdown),
        Some(Outbound::Shutdown) => after(SocketActionView::Close, ended(s, Outcome::Shutdown)),
        Some(Outbound::Finish) => if s.finishing {
            waiting(s)
        } else {
            (
                SocketView { phase: SocketPhase::Draining, ..s },
                seq![SocketActionView::TakeQueued],
            )
        },
        Some(Outbound::Audio { pcm, samples }) => if s.finishing {
            after(SocketActionView::Release(samples), waiting(s))
        } else {
            (
                SocketView { phase: SocketPhase::Uploading, ..s },
                seq![SocketActionView::Release(samples), SocketActionView::SendFrame(pcm@)],
            )
        },
    }
}

/// A message taken ahead of the end-of-stream frame.
pub open spec fn drained(s: SocketView, message: Outbound) -> (SocketView, Seq<SocketActionView>) {
    match message {
        Outbound::Audio { pcm, samples } => (
            SocketView { phase: SocketPhase::DrainUploading, ..s },
            seq![SocketActionView::Release(samples), SocketActionView::SendFrame(pcm@)],
        ),
        Outbound::Finish => (s, seq![SocketActionView::TakeQueued]),
        Outbound::Shutdown => after(SocketActionView::Close, ended(s, Outcome::Shutdown)),
    }
}

/// A message from the processing side while there is no connection. Audio waits
/// for the next one unless the backlog is over its ceiling.
pub open spec fn deferred(s: SocketView, message: Option<Outbound>, queued: usize) -> (
    SocketView,
    Seq<SocketActionView>,
) {
    match message {
        None => ended(s, Outcome::Shutdown),
        Some(Outbound::Shutdown) => ended(s, Outcome::Shutdown),
        Some(Outbound::Finish) => ended(s, Outcome::Finished),
        Some(Outbound::Audio { pcm, samples }) => if queued > MAX_QUEUED_SAMPLES {
            (s, seq![SocketActionView::Release(samples), SocketActionView::KeepSleeping])
        } else {
            (
                SocketView { pending: s.pending.push((pcm@, samples)), ..s },
                seq![SocketActionView::KeepSleeping],
            )
        },
    }
}

/// What follows an event; `queued` is the backlog at that time. An event that
/// does not belong to the phase changes nothing.
pub open spec fn socket_step(s: SocketView, event: SocketEvent, queued: usize) -> (
    SocketView,
    Seq<SocketActionView>,
) {
    let nothing = (s, Seq::<SocketActionView>::empty());
    match s.phase {
        SocketPhase::Fresh => match event {
            SocketEvent::Start => (
                SocketView { phase: SocketPhase::Connecting, ..s },
                seq![SocketActionView::Connect],
            ),
            _ => nothing,
        },
        SocketPhase::Connecting => match event {
            SocketEvent::Connected => (
                SocketView { phase: SocketPhase::Starting, ..s },
                seq![SocketActionView::SendStart],
            ),
            SocketEvent::ConnectTimedOut => ended(
                s,
                Outcome::Retry {
                    reason: "the connection to Soniox timed out"@,
                    progressed: false,
                },
            ),
            SocketEvent::ConnectFailed(e) => ended(
                s,
                Outcome::Retry { reason: "could not reach Soniox: "@ + e@, progressed: false },
            ),
            _ => nothing,
        },
        SocketPhase::Starting => match event {
            SocketEvent::StartUnbuilt(e) => ended(
                s,
                Outcome::Fatal("Could not build the Soniox start request: "@ + e@),
            ),
            SocketEvent::Sent => flushing(s),
            SocketEvent::SendFailed(e) => ended(
                s,
                Outcome::Retry {
                    reason: "could not start a Soniox session: "@ + e@,
                    progressed: false,
                },
            ),
            _ => nothing,
        },
        SocketPhase::Flushing => match event {
            SocketEvent::Sent => flushing(s),
            SocketEvent::SendFailed(e) => ended(
                s,
                Outcome::Retry {
                    reason: "Soniox audio upload failed: "@ + e@,
                    progressed: false,
                },
            ),
            _ => nothing,
        },
        SocketPhase::Running => match event {
            SocketEvent::Queued(message) => asked(s, message),
            SocketEvent::Incoming(incoming) => received(s, incoming),
            SocketEvent::PingDue => (
                SocketView { phase: SocketPhase::Pinging, ..s },
                seq![SocketActionView::SendPing],
            ),
            SocketEvent::WatchdogFired => if s.finishing {
                after(SocketActionView::Close, ended(s, Outcome::Finished))
            } else {
                nothing
            },
            _ => nothing,
        },
        SocketPhase::Uploading => match event {
            SocketEvent::Sent => waiting(s),
            SocketEvent::SendFailed(e) => ended(
                s,
                Outcome::Retry {
                    reason: "Soniox audio upload failed: "@ + e@,
                    progressed: s.progressed,
                },
            ),
            _ => nothing,
        },
        SocketPhase::Pinging => match event {
            SocketEvent::Sent => waiting(s),
            SocketEvent::SendFailed(e) => ended(
                s,
                Outcome::Retry {
                    reason: "the Soniox keepalive failed: "@ + e@,
                    progressed: s.progressed,
                },
            ),
            _ => nothing,
        },
        SocketPhase::Draining => match event {
            SocketEvent::Queued(Some(message)) => drained(s, message),
            SocketEvent::QueueEmpty => (
                SocketView { phase: SocketPhase::EndingStream, ..s },
                seq![SocketActionView::SendEndOfStream],
            ),
            _ => nothing,
        },
        SocketPhase::DrainUploading => match event {
            SocketEvent::Sent => (
                SocketView { phase: SocketPhase::Draining, ..s },
                seq![SocketActionView::TakeQueued],
            ),
            SocketEvent::SendFailed(e) => ended(
                s,
                Outcome::Retry {
                    reason: "Soniox audio upload failed: "@ + e@,
                    progressed: s.progressed,
                },
            ),
            _ => nothing,
        },
        SocketPhase::EndingStream => match event {
            SocketEvent::Sent => after(
                SocketActionView::ArmWatchdog,
                waiting(SocketView { finishing: true, ..s }),
            ),
            SocketEvent::SendFailed(_) => ended(s, Outcome::Finished),
            _ => nothing,
        },
        SocketPhase::Backoff => match event {
            SocketEvent::BackoffElapsed => (
                SocketView { phase: SocketPhase::Connecting, ..s },
                seq![SocketActionView::Connect],
            ),
            SocketEvent::Queued(message) => deferred(s, message, queued),
            _ => nothing,
        },
        SocketPhase::Done => nothing,
    }
}

/// Decides what a socket does, event by event.
pub struct SocketSession {
    phase: SocketPhase,
    attempt: u32,
    pending: VecDeque<(Vec<u8>, usize)>,
    progressed: bool,
    finishing: bool,
}

pub open spec fn pending_view(v: Seq<(Vec<u8>, usize)>) -> Seq<(Seq<u8>, usize)> {
    Seq::new(v.len(), |i: int| (v[i].0@, v[i].1))
}

impl View for SocketSession {
    type V = SocketView;

    closed spec fn view(&self) -> SocketView {
        SocketView {
            phase: self.phase,
            attempt: self.attempt,
            pending: pending_view(self.pending@),
            progressed: self.progressed,
            finishing: self.finishing,
        }
    }
}

/// What was to be done already, then what a step adds.
spec fn adding(
    actions: Seq<SocketActionView>,
    step: (SocketView, Seq<SocketActionView>),
) -> (SocketView, Seq<SocketActionView>) {
    (step.0, actions + step.1)
}

fn todo(actions: &mut Vec<SocketAction>, action: SocketAction)
    ensures
        socket_actions_view(final(actions)@) == socket_actions_view(old(actions)@).push(action@),
{
    let ghost before = actions@;
    actions.push(action);
    assert(socket_actions_view(actions@) =~= socket_actions_view(before).push(action@));
}

impl SocketSession {
    /// The failure count stays at or below its limit until the session is over.
    pub open spec fn wf(self) -> bool {
        self@.attempt <= MAX_RECONNECT_ATTEMPTS || self@.phase == SocketPhase::Done
    }

    pub fn new() -> (r: Self)
        ensures
            r.wf(),
            r@ == (SocketView {
                phase: SocketPhase::Fresh,
                attempt: 0,
                pending: Seq::empty(),
                progressed: false,
                finishing: false,
            }),
    {
        let r = SocketSession {
            phase: SocketPhase::Fresh,
            attempt: 0,
            pending: VecDeque::new(),
            progressed: false,
            finishing: false,
        };
        assert(pending_view(r.pending@) =~= Seq::<(Seq<u8>, usize)>::empty());
        r
    }

    pub fn phase(&self) -> (r: SocketPhase)
        ensures
            r == self@.phase,
    {
        self.phase
    }

    fn end_finished(&mut self, actions: &mut Vec<SocketAction>)
        requires
            old(self).wf(),
        ensures
            final(self).wf(),
            (final(self)@, socket_actions_view(final(actions)@)) == adding(
                socket_actions_view(old(actions)@),
                ended(old(self)@, Outcome::Finished),
            ),
    {
        self.phase = SocketPhase::Done;
        todo(actions, SocketAction::Report(Inbound::Finished));
        todo(actions, SocketAction::Stop);
        assert(socket_actions_view(actions@) =~= adding(
            socket_actions_view(old(actions)@),
            ended(old(self)@, Outcome::Finished),
        ).1);
    }

    fn end_shutdown(&mut self, actions: &mut Vec<SocketAction>)
        requires
            old(self).wf(),
        ensures
            final(self).wf(),
            (final(self)@, socket_actions_view(final(actions)@)) == adding(
                socket_actions_view(old(actions)@),
                ended(old(self)@, Outcome::Shutdown),
            ),
    {
        self.phase = SocketPhase::Done;
        todo(actions, SocketAction::Stop);
        assert(socket_actions_view(actions@) =~= adding(
            socket_actions_view(old(actions)@),
            ended(old(self)@, Outcome::Shutdown),
        ).1);
    }

    fn end_fatal(&mut self, message: String, actions: &mut Vec<SocketAction>)
        requires
            old(self).wf(),
        ensures
            final(self).wf(),
            (final(self)@, socket_actions_view(final(actions)@)) == adding(
                socket_actions_view(old(actions)@),
                ended(old(self)@, Outcome::Fatal(message@)),
            ),
    {
        self.phase = SocketPhase::Done;
        todo(actions, SocketAction::Report(Inbound::Fatal(message)));
        todo(actions, SocketAction::Stop);
        assert(socket_actions_view(actions@) =~= adding(
            socket_actions_view(old(actions)@),
            ended(old(self)@, Outcome::Fatal(message@)),
        ).1);
    }

    fn end_retry(&mut self, reason: String, progressed: bool, actions: &mut Vec<SocketAction>)
        requires
            old(self).wf(),
            old(self)@.phase != SocketPhase::Done,
        ensures
            final(self).wf(),
            (final(self)@, socket_actions_view(final(actions)@)) == adding(
                socket_actions_view(old(actions)@),
                ended(old(self)@, Outcome::Retry { reason: reason@, progressed }),
            ),
    {
        let ghost said = reason@;
        let attempt: u32 = if progressed {
            1
        } else {
            self.attempt + 1
        };
        self.attempt = attempt;
        if attempt > MAX_RECONNECT_ATTEMPTS {
            self.phase = SocketPhase::Done;
            let message = text::concat(
                "Lost the Soniox connection and could not re-establish it after 5 attempts: ",
                reason.as_str(),
            );
            todo(actions, SocketAction::Report(Inbound::Fatal(message)));
            todo(actions, SocketAction::Stop);
        } else {
            self.phase = SocketPhase::Backoff;
            todo(actions, SocketAction::Report(Inbound::Reconnecting(reason)));
            todo(actions, SocketAction::Sleep { ms: backoff(attempt) });
        }
        assert(socket_actions_view(actions@) =~= adding(
            socket_actions_view(old(actions)@),
            ended(old(self)@, Outcome::Retry { reason: said, progressed }),
        ).1);
    }

    fn dropped(&mut self, reason: String, actions: &mut Vec<SocketAction>)
        requires
            old(self).wf(),
            old(self)@.phase != SocketPhase::Done,
        ensures
            final(self).wf(),
            (final(self)@, socket_actions_view(final(actions)@)) == adding(
                socket_actions_view(old(actions)@),
                dropped(old(self)@, reason@),
            ),
    {
        if self.finishing {
            self.end_finished(actions);
        } else {
            let progressed = self.progressed;
            self.end_retry(reason, progressed, actions);
        }
    }

    fn wait(&mut self, actions: &mut Vec<SocketAction>)
        requires
            old(self).wf(),
            old(self)@.phase != SocketPhase::Done,
        ensures
            final(self).wf(),
            (final(self)@, socket_actions_view(final(actions)@)) == adding(
                socket_actions_view(old(actions)@),
                waiting(old(self)@),
            ),
    {
        self.phase = SocketPhase::Running;
        todo(actions, SocketAction::Wait);
        assert(socket_actions_view(actions@) =~= adding(
            socket_actions_view(old(actions)@),
            waiting(old(self)@),
        ).1);
    }

    fn flush(&mut self, actions: &mut Vec<SocketAction>)
        requires
            old(self).wf(),
            old(self)@.phase != SocketPhase::Done,
            old(actions)@.len() == 0,
        ensures
            final(self).wf(),
            (final(self)@, socket_actions_view(final(actions)@)) == flushing(old(self)@),
    {
        let ghost before = self.pending@;
        match self.pending.pop_front() {
            Some((pcm, samples)) => {
                self.phase = SocketPhase::Flushing;
                todo(actions, SocketAction::Release { samples });
                todo(actions, SocketAction::SendFrame { pcm });
                assert(pending_view(self.pending@) =~= pending_view(before).drop_first());
                assert(socket_actions_view(actions@) =~= flushing(old(self)@).1);
            },
            None => {
                self.progressed = false;
                self.finishing = false;
                self.wait(actions);
                assert(socket_actions_view(actions@) =~= flushing(old(self)@).1);
            },
        }
    }

    fn respond(&mut self, response: Box<SonioxResponse>, actions: &mut Vec<SocketAction>)
        requires
            old(self).wf(),
            old(self)@.phase == SocketPhase::Running,
            old(actions)@.len() == 0,
        ensures
            final(self).wf(),
            (final(self)@, socket_actions_view(final(actions)@)) == responded(
                old(self)@,
                *response,
            ),
    {
        let ghost told = *response;
        self.progressed = true;
        assert(socket_actions_view(actions@) =~= Seq::<SocketActionView>::empty());
        match response.error() {
            Some(error) => {
                let mut reason = error.message.clone();
                reason.append(" (");
                reason.append(error.error_type.as_str());
                reason.append(")");
                if error.retryable {
                    self.end_retry(reason, true, actions);
                } else {
                    self.end_fatal(
                        text::concat("Soniox rejected the session: ", reason.as_str()),
                        actions,
                    );
                }
            },
            None => {
                let finished = response.finished;
                if response.tokens.len() > 0 {
                    todo(actions, SocketAction::Report(Inbound::Response(response)));
                }
                if finished {
                    todo(actions, SocketAction::Close);
                    self.end_finished(actions);
                } else {
                    self.wait(actions);
                }
            },
        }
        assert(socket_actions_view(actions@) =~= responded(old(self)@, told).1);
    }

    fn receive(&mut self, incoming: Incoming, actions: &mut Vec<SocketAction>)
        requires
            old(self).wf(),
            old(self)@.phase == SocketPhase::Running,
            old(actions)@.len() == 0,
        ensures
            final(self).wf(),
            (final(self)@, socket_actions_view(final(actions)@)) == received(
                old(self)@,
                incoming,
            ),
    {
        let ghost got = incoming;
        assert(socket_actions_view(actions@) =~= Seq::<SocketActionView>::empty());
        match incoming {
            Incoming::Ended | Incoming::Close => self.dropped(
                "Soniox closed the connection".to_owned(),
                actions,
            ),
            Incoming::Failed(e) => self.dropped(
                text::concat("the Soniox connection dropped: ", e.as_str()),
                actions,
            ),
            Incoming::Text(response) => self.respond(response, actions),
            Incoming::Binary => self.end_fatal(
                "Soniox sent a binary frame, which its protocol never uses".to_owned(),
                actions,
            ),
            Incoming::Unparseable | Incoming::Other => self.wait(actions),
        }
        assert(socket_actions_view(actions@) =~= received(old(self)@, got).1);
    }

    fn ask(&mut self, message: Option<Outbound>, actions: &mut Vec<SocketAction>)
        requires
            old(self).wf(),
            old(self)@.phase == SocketPhase::Running,
            old(actions)@.len() == 0,
        ensures
            final(self).wf(),
            (final(self)@, socket_actions_view(final(actions)@)) == asked(old(self)@, message),
    {
        let ghost got = message;
        assert(socket_actions_view(actions@) =~= Seq::<SocketActionView>::empty());
        match message {
            None => self.end_shutdown(actions),
            Some(Outbound::Shutdown) => {
                todo(actions, SocketAction::Close);
                self.end_shutdown(actions);
            },
            Some(Outbound::Finish) => {
                if self.finishing {
                    self.wait(actions);
                } else {
                    self.phase = SocketPhase::Draining;
                    todo(actions, SocketAction::TakeQueued);
                }
            },
            Some(Outbound::Audio { pcm, samples }) => {
                todo(actions, SocketAction::Release { samples });
                if self.finishing {
                    self.wait(actions);
                } else {
                    self.phase = SocketPhase::Uploading;
                    todo(actions, SocketAction::SendFrame { pcm });
                }
            },
        }
        assert(socket_actions_view(actions@) =~= asked(old(self)@, got).1);
    }

    fn drain(&mut self, message: Outbound, actions: &mut Vec<SocketAction>)
        requires
            old(self).wf(),
            old(self)@.phase == SocketPhase::Draining,
            old(actions)@.len() == 0,
        ensures
            final(self).wf(),
            (final(self)@, socket_actions_view(final(actions)@)) == drained(old(self)@, message),
    {
        let ghost got = message;
        assert(socket_actions_view(actions@) =~= Seq::<SocketActionView>::empty());
        match message {
            Outbound::Audio { pcm, samples } => {
                self.phase = SocketPhase::DrainUploading;
                todo(actions, SocketAction::Release { samples });
                todo(actions, SocketAction::SendFrame { pcm });
            },
            Outbound::Finish => {
                todo(actions, SocketAction::TakeQueued);
            },
            Outbound::Shutdown => {
                todo(actions, SocketAction::Close);
                self.end_shutdown(actions);
            },
        }
        assert(socket_actions_view(actions@) =~= drained(old(self)@, got).1);
    }

    fn defer(&mut self, message: Option<Outbound>, queued: usize, actions: &mut Vec<SocketAction>)
        requires
            old(self).wf(),
            old(self)@.phase == SocketPhase::Backoff,
            old(actions)@.len() == 0,
        ensures
            final(self).wf(),
            (final(self)@, socket_actions_view(final(actions)@)) == deferred(
                old(self)@,
                message,
                queued,
            ),
    {
        let ghost got = message;
        let ghost before = self.pending@;
        assert(socket_actions_view(actions@) =~= Seq::<SocketActionView>::empty());
        match message {
            None | Some(Outbound::Shutdown) => self.end_shutdown(actions),
            Some(Outbound::Finish) => self.end_finished(actions),
            Some(Outbound::Audio { pcm, samples }) => {
                if queued > MAX_QUEUED_SAMPLES {
                    todo(actions, SocketAction::Release { samples });
                } else {
                    let ghost bytes = pcm@;
                    self.pending.push_back((pcm, samples));
                    assert(pending_view(self.pending@) =~= pending_view(before).push(
                        (bytes, samples),
                    ));
                }
                todo(actions, SocketAction::KeepSleeping);
            },
        }
        assert(socket_actions_view(actions@) =~= deferred(old(self)@, got, queued).1);
    }

    fn send_failed(&mut self, prefix: &str, error: String, actions: &mut Vec<SocketAction>)
        requires
            old(self).wf(),
            old(self)@.phase != SocketPhase::Done,
            old(actions)@.len() == 0,
        ensures
            final(self).wf(),
            (final(self)@, socket_actions_view(final(actions)@)) == ended(
                old(self)@,
                Outcome::Retry {
                    reason: prefix@ + error@,
                    progressed: old(self)@.progressed,
                },
            ),
    {
        let progressed = self.progressed;
        self.end_retry(text::concat(prefix, error.as_str()), progressed, actions);
        assert(socket_actions_view(actions@) =~= ended(
            old(self)@,
            Outcome::Retry { reason: prefix@ + error@, progressed: old(self)@.progressed },
        ).1);
    }

    /// What to do after `event`; `queued` is the backlog at that time.
    pub fn step(&mut self, event: SocketEvent, queued: usize) -> (actions: Vec<SocketAction>)
        requires
            old(self).wf(),
        ensures
            final(self).wf(),
            (final(self)@, socket_actions_view(actions@)) == socket_step(
                old(self)@,
                event,
                queued,
            ),
    {
        let mut actions: Vec<SocketAction> = Vec::new();
        let ghost happened = event;
        assert(socket_actions_view(actions@) =~= Seq::<SocketActionView>::empty());
        match self.phase {
            SocketPhase::Fresh => {
                if let SocketEvent::Start = event {
                    self.phase = SocketPhase::Connecting;
                    todo(&mut actions, SocketAction::Connect);
                }
            },
            SocketPhase::Connecting => match event {
                SocketEvent::Connected => {
                    self.phase = SocketPhase::Starting;
                    todo(&mut actions, SocketAction::SendStart);
                },
                SocketEvent::ConnectTimedOut => self.end_retry(
                    "the connection to Soniox timed out".to_owned(),
                    false,
                    &mut actions,
                ),
                SocketEvent::ConnectFailed(e) => self.end_retry(
                    text::concat("could not reach Soniox: ", e.as_str()),
                    false,
                    &mut actions,
                ),
                _ => {},
            },
            SocketPhase::Starting => match event {
                SocketEvent::StartUnbuilt(e) => self.end_fatal(
                    text::concat("Could not build the Soniox start request: ", e.as_str()),
                    &mut actions,
                ),
                SocketEvent::Sent => self.flush(&mut actions),
                SocketEvent::SendFailed(e) => self.end_retry(
                    text::concat("could not start a Soniox session: ", e.as_str()),
                    false,
                    &mut actions,
                ),
                _ => {},
            },
            SocketPhase::Flushing => match event {
                SocketEvent::Sent => self.flush(&mut actions),
                SocketEvent::SendFailed(e) => self.end_retry(
                    text::concat("Soniox audio upload failed: ", e.as_str()),
                    false,
                    &mut actions,
                ),
                _ => {},
            },
            SocketPhase::Running => match event {
                SocketEvent::Queued(message) => self.ask(message, &mut actions),
                SocketEvent::Incoming(incoming) => self.receive(incoming, &mut actions),
                SocketEvent::PingDue => {
                    self.phase = SocketPhase::Pinging;
                    todo(&mut actions, SocketAction::SendPing);
                },
                SocketEvent::WatchdogFired => {
                    if self.finishing {
                        todo(&mut actions, SocketAction::Close);
                        self.end_finished(&mut actions);
                    }
                },
                _ => {},
            },
            SocketPhase::Uploading => match event {
                SocketEvent::Sent => self.wait(&mut actions),
                SocketEvent::SendFailed(e) => self.send_failed(
                    "Soniox audio upload failed: ",
                    e,
                    &mut actions,
                ),
                _ => {},
            },
            SocketPhase::Pinging => match event {
                SocketEvent::Sent => self.wait(&mut actions),
                SocketEvent::SendFailed(e) => self.send_failed(
                    "the Soniox keepalive failed: ",
                    e,
                    &mut actions,
                ),
                _ => {},
            },
            SocketPhase::Draining => match event {
                SocketEvent::Queued(Some(message)) => self.drain(message, &mut actions),
                SocketEvent::QueueEmpty => {
                    self.phase = SocketPhase::EndingStream;
                    todo(&mut actions, SocketAction::SendEndOfStream);
                },
                _ => {},
            },
            SocketPhase::DrainUploading => match event {
                SocketEvent::Sent => {
                    self.phase = SocketPhase::Draining;
                    todo(&mut actions, SocketAction::TakeQueued);
                },
                SocketEvent::SendFailed(e) => self.send_failed(
                    "Soniox audio upload failed: ",
                    e,
                    &mut actions,
                ),
                _ => {},
            },
            SocketPhase::EndingStream => match event {
                SocketEvent::Sent => {
                    self.finishing = true;
                    todo(&mut actions, SocketAction::ArmWatchdog);
                    self.wait(&mut actions);
                },
                SocketEvent::SendFailed(_) => self.end_finished(&mut actions),
                _ => {},
            },
            SocketPhase::Backoff => match event {
                SocketEvent::BackoffElapsed => {
                    self.phase = SocketPhase::Connecting;
                    todo(&mut actions, SocketAction::Connect);
                },
                SocketEvent::Queued(message) => self.defer(message, queued, &mut actions),
                _ => {},
            },
            SocketPhase::Done => {},
        }
        assert(socket_actions_view(actions@) =~= socket_step(old(self)@, happened, queued).1);
        actions
    }
}

} // verus!
