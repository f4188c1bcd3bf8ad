//! Diagnostics of the processing loop: what is written, and when.
//!
//! A [`DiagSink`] turns events into SQL statements with their values; whoever
//! owns the database executes them. Every write is gated on a live toggle:
//! flipping diagnostics off mid-session skips writes while the session row stays,
//! so re-enabling resumes writing to the same session.
//!
//! Timestamps are always supplied by the caller: several call sites take one
//! before mutating state and write the row afterwards.

use vstd::prelude::*;

use crate::bits::Double;
use crate::text;

verus! {

// ---------------------------------------------------------------------------
// Statements
// ---------------------------------------------------------------------------

/// A value bound to a statement.
#[derive(Debug)]
pub enum SqlValue {
    Integer(i64),
    Real(Double),
    /// A whole number, bound as a real.
    WholeReal(i64),
    Text(String),
}

/// What a [`SqlValue`] says.
#[verifier::ext_equal]
pub enum SqlView {
    Integer(int),
    Real(Double),
    WholeReal(int),
    Text(Seq<char>),
}

impl View for SqlValue {
    type V = SqlView;

    open spec fn view(&self) -> SqlView {
        match *self {
            SqlValue::Integer(n) => SqlView::Integer(n as int),
            SqlValue::Real(d) => SqlView::Real(d),
            SqlValue::WholeReal(n) => SqlView::WholeReal(n as int),
            SqlValue::Text(t) => SqlView::Text(t@),
        }
    }
}

/// A statement and the values for its parameters, in order.
#[derive(Debug)]
pub struct Statement {
    pub sql: &'static str,
    pub values: Vec<SqlValue>,
}

/// What a [`Statement`] says.
#[verifier::ext_equal]
pub struct StatementView {
    pub sql: Seq<char>,
    pub values: Seq<SqlView>,
}

impl View for Statement {
    type V = StatementView;

    open spec fn view(&self) -> StatementView {
        StatementView { sql: self.sql@, values: Seq::new(self.values@.len(), |i: int| self.values@[i]@) }
    }
}

pub open spec fn statement_view(s: Option<Statement>) -> Option<StatementView> {
    match s {
        Some(s) => Some(s@),
        None => None,
    }
}

impl Statement {
    pub fn new(sql: &'static str) -> (r: Self)
        ensures
            r@ == (StatementView { sql: sql@, values: Seq::empty() }),
    {
        let r = Statement { sql, values: Vec::new() };
        assert(r@.values =~= Seq::<SqlView>::empty());
        r
    }

    /// The statement with one more value.
    pub fn bind(self, value: SqlValue) -> (r: Self)
        ensures
            r@ == (StatementView { sql: self@.sql, values: self@.values.push(value@) }),
    {
        let mut r = self;
        r.values.push(value);
        assert(r@.values =~= self@.values.push(value@));
        r
    }

    pub fn integer(self, n: i64) -> (r: Self)
        ensures
            r@ == (StatementView {
                sql: self@.sql,
                values: self@.values.push(SqlView::Integer(n as int)),
            }),
    {
        self.bind(SqlValue::Integer(n))
    }

    pub fn count(self, n: u64) -> (r: Self)
        ensures
            r@ == (StatementView {
                sql: self@.sql,
                values: self@.values.push(SqlView::Integer(signed(n))),
            }),
    {
        self.bind(SqlValue::Integer(to_signed(n)))
    }

    pub fn flag(self, b: bool) -> (r: Self)
        ensures
            r@ == (StatementView {
                sql: self@.sql,
                values: self@.values.push(
                    SqlView::Integer(
                        if b {
                            1
                        } else {
                            0
                        },
                    ),
                ),
            }),
    {
        let n: i64 = if b {
            1
        } else {
            0
        };
        self.bind(SqlValue::Integer(n))
    }

    pub fn text(self, t: &str) -> (r: Self)
        ensures
            r@ == (StatementView {
                sql: self@.sql,
                values: self@.values.push(SqlView::Text(t@)),
            }),
    {
        self.bind(SqlValue::Text(t.to_owned()))
    }
}

/// An unsigned count as the signed number with the same bits, which is how the
/// database stores it.
pub open spec fn signed(n: u64) -> int {
    if n <= i64::MAX {
        n as int
    } else {
        n - 0x1_0000_0000_0000_0000
    }
}

pub fn to_signed(n: u64) -> (r: i64)
    ensures
        r == signed(n),
{
    if n <= 0x7fff_ffff_ffff_ffff {
        n as i64
    } else {
        let below: i64 = (u64::MAX - n) as i64;
        -below - 1
    }
}

/// How much audio a number of chunks is, in milliseconds, up to the largest value
/// that fits.
pub open spec fn audio_ms_of(chunks: u64, chunk_ms: usize) -> int {
    if chunks * chunk_ms > i64::MAX {
        i64::MAX as int
    } else {
        chunks * chunk_ms
    }
}

pub fn chunks_to_audio_ms(chunks: u64, chunk_ms: usize) -> (r: i64)
    ensures
        r == audio_ms_of(chunks, chunk_ms),
{
    match chunks.checked_mul(chunk_ms as u64) {
        Some(ms) => if ms > 0x7fff_ffff_ffff_ffff {
            0x7fff_ffff_ffff_ffff
        } else {
            ms as i64
        },
        None => 0x7fff_ffff_ffff_ffff,
    }
}

/// An error message says that a column is already there, which a migration expects
/// on every run but the first.
pub fn is_expected_migration_error(message: &str) -> (r: bool)
    ensures
        r == text::contains_text(message@, "duplicate column name"@),
{
    text::contains(message, "duplicate column name")
}

// ---------------------------------------------------------------------------
// Rows
// ---------------------------------------------------------------------------

/// One `transcribe` row. `chunk_source` distinguishes live chunks from ones
/// re-run through the decoder after a mid-speech reset.
pub struct TranscribeRow<'a> {
    pub uptime_ms: i64,
    pub chunk_num: u64,
    pub inference_ms: i64,
    pub drain_samples: usize,
    pub drain_audio_ms: Double,
    pub asr_buf_len: usize,
    pub is_empty: bool,
    pub preview: &'a str,
    pub vad_state: &'a str,
    pub vad_ms: i64,
    pub resample_ms: i64,
    pub iteration_ms: i64,
    pub chunk_source: &'a str,
}

pub struct AsrErrorRow<'a> {
    pub uptime_ms: i64,
    pub chunk_num: u64,
    pub inference_ms: i64,
    pub error_msg: &'a str,
    pub vad_state: &'a str,
    pub chunk_source: &'a str,
}

pub struct PunctuationResetRow {
    pub uptime_ms: i64,
    pub consecutive_empty: u32,
    pub chunks_since_decoder_reset: u64,
}

pub struct MidSpeechResetRow {
    pub uptime_ms: i64,
    pub consecutive_empty: u32,
    pub chunks_since_decoder_reset: u64,
    pub replay_chunks: u64,
    pub replay_nonempty_chunks: i64,
    pub replay_inference_ms: i64,
}

pub struct SpeechEndRow {
    pub uptime_ms: i64,
    pub speech_duration_ms: i64,
    pub consecutive_empty: u32,
    pub chunks_since_decoder_reset: u64,
}

pub const INSERT_SESSION: &'static str = "INSERT INTO sessions (input_rate, chunk_size, needs_resample) VALUES (?1, ?2, ?3)";

pub const INSERT_TRANSCRIBE: &'static str = "INSERT INTO events (session_id, uptime_ms, event_type, chunk_num, inference_ms, drain_samples, drain_audio_ms, asr_buf_len, text_empty, text_preview, vad_state, vad_ms, resample_ms, iteration_ms, chunk_source) VALUES (?1, ?2, 'transcribe', ?3, ?4, ?5, ?6, ?7, ?8, ?9, ?10, ?11, ?12, ?13, ?14)";

pub const INSERT_ASR_ERROR: &'static str = "INSERT INTO events (session_id, uptime_ms, event_type, chunk_num, inference_ms, error_msg, vad_state, chunk_source) VALUES (?1, ?2, 'asr_error', ?3, ?4, ?5, ?6, ?7)";

pub const INSERT_RESAMPLE_ERROR: &'static str = "INSERT INTO events (session_id, uptime_ms, event_type, error_msg) VALUES (?1, ?2, 'resample_error', ?3)";

pub const INSERT_VAD_ERROR: &'static str = "INSERT INTO events (session_id, uptime_ms, event_type, error_msg) VALUES (?1, ?2, 'vad_error', ?3)";

pub const INSERT_BACKEND_ERROR: &'static str = "INSERT INTO events (session_id, uptime_ms, event_type, error_msg, chunk_source) VALUES (?1, ?2, 'backend_error', ?3, ?4)";

pub const INSERT_SHUTDOWN: &'static str = "INSERT INTO events (session_id, uptime_ms, event_type, chunk_num) VALUES (?1, ?2, 'shutdown', ?3)";

pub const INSERT_SPEECH_START: &'static str = "INSERT INTO vad_events (session_id, uptime_ms, event_type, pre_speech_samples) VALUES (?1, ?2, 'speech_start', ?3)";

pub const INSERT_PUNCTUATION_RESET: &'static str = "INSERT INTO vad_events (session_id, uptime_ms, event_type, consecutive_empty, chunks_since_decoder_reset, audio_ms_since_decoder_reset) VALUES (?1, ?2, 'punctuation_reset', ?3, ?4, ?5)";

pub const INSERT_MID_SPEECH_RESET: &'static str = "INSERT INTO vad_events (session_id, uptime_ms, event_type, consecutive_empty, chunks_since_decoder_reset, audio_ms_since_decoder_reset, replay_chunks, replay_audio_ms, replay_nonempty_chunks, replay_inference_ms) VALUES (?1, ?2, 'mid_speech_reset', ?3, ?4, ?5, ?6, ?7, ?8, ?9)";

pub const INSERT_SPEECH_END: &'static str = "INSERT INTO vad_events (session_id, uptime_ms, event_type, speech_duration_ms, consecutive_empty, chunks_since_decoder_reset, audio_ms_since_decoder_reset) VALUES (?1, ?2, 'speech_end', ?3, ?4, ?5, ?6)";

/// What a session writes to, and whether there is anything to write to.
pub struct DiagSink {
    /// Whether a database is open.
    pub connected: bool,
    pub session_id: i64,
    /// Taken from the session's starting settings. Hot-reload never changes it,
    /// and sourcing it live would desync the derived columns from the chunks they
    /// describe.
    pub chunk_ms: usize,
}

impl DiagSink {
    /// The statement that registers a session. Without a database, or with the
    /// toggle off, there is none and the session has id 0.
    pub fn session_statement(
        connected: bool,
        enabled: bool,
        input_rate: usize,
        chunk_size: usize,
        needs_resample: bool,
    ) -> (r: Option<Statement>)
        ensures
            statement_view(r) == if connected && enabled {
                Some(
                    StatementView {
                        sql: INSERT_SESSION@,
                        values: seq![
                            SqlView::Integer(signed(input_rate as u64)),
                            SqlView::Integer(signed(chunk_size as u64)),
                            SqlView::Integer(
                                if needs_resample {
                                    1
                                } else {
                                    0
                                },
                            ),
                        ],
                    },
                )
            } else {
                None
            },
    {
        if !(connected && enabled) {
            return None;
        }
        let r = Statement::new(INSERT_SESSION).count(input_rate as u64).count(
            chunk_size as u64,
        ).flag(needs_resample);
        assert(r@.values =~= seq![
            SqlView::Integer(signed(input_rate as u64)),
            SqlView::Integer(signed(chunk_size as u64)),
            SqlView::Integer(
                if needs_resample {
                    1
                } else {
                    0
                },
            ),
        ]);
        Some(r)
    }

    pub fn new(connected: bool, session_id: i64, chunk_ms: usize) -> (r: Self)
        ensures
            r.connected == connected,
            r.session_id == session_id,
            r.chunk_ms == chunk_ms,
    {
        DiagSink { connected, session_id, chunk_ms }
    }

    /// The single gate: a write goes out only with a database and the toggle on.
    pub fn live(&self, enabled: bool) -> (r: bool)
        ensures
            r == (self.connected && enabled),
    {
        self.connected && enabled
    }

    pub open spec fn gated(self, enabled: bool, s: StatementView) -> Option<StatementView> {
        if self.connected && enabled {
            Some(s)
        } else {
            None
        }
    }

    fn row(&self, sql: &'static str, uptime_ms: i64) -> (r: Statement)
        ensures
            r@ == (StatementView {
                sql: sql@,
                values: seq![
                    SqlView::Integer(self.session_id as int),
                    SqlView::Integer(uptime_ms as int),
                ],
            }),
    {
        let r = Statement::new(sql).integer(self.session_id).integer(uptime_ms);
        assert(r@.values =~= seq![
            SqlView::Integer(self.session_id as int),
            SqlView::Integer(uptime_ms as int),
        ]);
        r
    }

    pub open spec fn transcribe_row(self, r: TranscribeRow) -> StatementView {
        StatementView {
            sql: INSERT_TRANSCRIBE@,
            values: seq![
                SqlView::Integer(self.session_id as int),
                SqlView::Integer(r.uptime_ms as int),
                SqlView::Integer(signed(r.chunk_num)),
                SqlView::Integer(r.inference_ms as int),
                SqlView::Integer(signed(r.drain_samples as u64)),
                SqlView::Real(r.drain_audio_ms),
                SqlView::Integer(signed(r.asr_buf_len as u64)),
                SqlView::Integer(
                    if r.is_empty {
                        1
                    } else {
                        0
                    },
                ),
                SqlView::Text(r.preview@),
                SqlView::Text(r.vad_state@),
                SqlView::Integer(r.vad_ms as int),
                SqlView::Integer(r.resample_ms as int),
                SqlView::Integer(r.iteration_ms as int),
                SqlView::Text(r.chunk_source@),
            ],
        }
    }

    pub fn transcribe(&self, enabled: bool, r: &TranscribeRow<'_>) -> (s: Option<Statement>)
        ensures
            statement_view(s) == self.gated(enabled, self.transcribe_row(*r)),
    {
        if !self.live(enabled) {
            return None;
        }
        let s = self.row(INSERT_TRANSCRIBE, r.uptime_ms).count(r.chunk_num).integer(
            r.inference_ms,
        ).count(r.drain_samples as u64).bind(SqlValue::Real(r.drain_audio_ms)).count(
            r.asr_buf_len as u64,
        ).flag(r.is_empty).text(r.preview).text(r.vad_state).integer(r.vad_ms).integer(
            r.resample_ms,
        ).integer(r.iteration_ms).text(r.chunk_source);
        assert(s@.values =~= self.transcribe_row(*r).values);
        Some(s)
    }

    pub open spec fn asr_error_row(self, r: AsrErrorRow) -> StatementView {
        StatementView {
            sql: INSERT_ASR_ERROR@,
            values: seq![
                SqlView::Integer(self.session_id as int),
                SqlView::Integer(r.uptime_ms as int),
                SqlView::Integer(signed(r.chunk_num)),
                SqlView::Integer(r.inference_ms as int),
                SqlView::Text(r.error_msg@),
                SqlView::Text(r.vad_state@),
                SqlView::Text(r.chunk_source@),
            ],
        }
    }

    pub fn asr_error(&self, enabled: bool, r: &AsrErrorRow<'_>) -> (s: Option<Statement>)
        ensures
            statement_view(s) == self.gated(enabled, self.asr_error_row(*r)),
    {
        if !self.live(enabled) {
            return None;
        }
        let s = self.row(INSERT_ASR_ERROR, r.uptime_ms).count(r.chunk_num).integer(
            r.inference_ms,
        ).text(r.error_msg).text(r.vad_state).text(r.chunk_source);
        assert(s@.values =~= self.asr_error_row(*r).values);
        Some(s)
    }

    /// A row that holds nothing but a message.
    pub open spec fn message_row(self, sql: Seq<char>, uptime_ms: i64, error_msg: Seq<char>) -> StatementView {
        StatementView {
            sql,
            values: seq![
                SqlView::Integer(self.session_id as int),
                SqlView::Integer(uptime_ms as int),
                SqlView::Text(error_msg),
            ],
        }
    }

    pub fn resample_error(&self, enabled: bool, uptime_ms: i64, error_msg: &str) -> (s: Option<
        Statement,
    >)
        ensures
            statement_view(s) == self.gated(
                enabled,
                self.message_row(INSERT_RESAMPLE_ERROR@, uptime_ms, error_msg@),
            ),
    {
        if !self.live(enabled) {
            return None;
        }
        let s = self.row(INSERT_RESAMPLE_ERROR, uptime_ms).text(error_msg);
        assert(s@.values =~= self.message_row(s@.sql, uptime_ms, error_msg@).values);
        Some(s)
    }

    pub fn vad_error(&self, enabled: bool, uptime_ms: i64, error_msg: &str) -> (s: Option<
        Statement,
    >)
        ensures
            statement_view(s) == self.gated(
                enabled,
                self.message_row(INSERT_VAD_ERROR@, uptime_ms, error_msg@),
            ),
    {
        if !self.live(enabled) {
            return None;
        }
        let s = self.row(INSERT_VAD_ERROR, uptime_ms).text(error_msg);
        assert(s@.values =~= self.message_row(s@.sql, uptime_ms, error_msg@).values);
        Some(s)
    }

    pub open spec fn backend_error_row(
        self,
        uptime_ms: i64,
        kind: Seq<char>,
        error_msg: Seq<char>,
    ) -> StatementView {
        StatementView {
            sql: INSERT_BACKEND_ERROR@,
            values: seq![
                SqlView::Integer(self.session_id as int),
                SqlView::Integer(uptime_ms as int),
                SqlView::Text(error_msg),
                SqlView::Text(kind),
            ],
        }
    }

    /// Non-fatal or fatal error reported by a backend.
    pub fn backend_error(&self, enabled: bool, uptime_ms: i64, kind: &str, error_msg: &str) -> (s:
        Option<Statement>)
        ensures
            statement_view(s) == self.gated(
                enabled,
                self.backend_error_row(uptime_ms, kind@, error_msg@),
            ),
    {
        if !self.live(enabled) {
            return None;
        }
        let s = self.row(INSERT_BACKEND_ERROR, uptime_ms).text(error_msg).text(kind);
        assert(s@.values =~= self.backend_error_row(uptime_ms, kind@, error_msg@).values);
        Some(s)
    }

    /// A row that holds nothing but a count.
    pub open spec fn count_row(self, sql: Seq<char>, uptime_ms: i64, n: u64) -> StatementView {
        StatementView {
            sql,
            values: seq![
                SqlView::Integer(self.session_id as int),
                SqlView::Integer(uptime_ms as int),
                SqlView::Integer(signed(n)),
            ],
        }
    }

    pub fn shutdown(&self, enabled: bool, uptime_ms: i64, chunk_num: u64) -> (s: Option<Statement>)
        ensures
            statement_view(s) == self.gated(
                enabled,
                self.count_row(INSERT_SHUTDOWN@, uptime_ms, chunk_num),
            ),
    {
        if !self.live(enabled) {
            return None;
        }
        let s = self.row(INSERT_SHUTDOWN, uptime_ms).count(chunk_num);
        assert(s@.values =~= self.count_row(s@.sql, uptime_ms, chunk_num).values);
        Some(s)
    }

    pub fn speech_start(&self, enabled: bool, uptime_ms: i64, pre_speech_samples: usize) -> (s:
        Option<Statement>)
        ensures
            statement_view(s) == self.gated(
                enabled,
                self.count_row(INSERT_SPEECH_START@, uptime_ms, pre_speech_samples as u64),
            ),
    {
        if !self.live(enabled) {
            return None;
        }
        let s = self.row(INSERT_SPEECH_START, uptime_ms).count(pre_speech_samples as u64);
        assert(s@.values =~= self.count_row(
            s@.sql,
            uptime_ms,
            pre_speech_samples as u64,
        ).values);
        Some(s)
    }

    pub open spec fn punctuation_reset_row(self, r: PunctuationResetRow) -> StatementView {
        StatementView {
            sql: INSERT_PUNCTUATION_RESET@,
            values: seq![
                SqlView::Integer(self.session_id as int),
                SqlView::Integer(r.uptime_ms as int),
                SqlView::Integer(r.consecutive_empty as int),
                SqlView::Integer(signed(r.chunks_since_decoder_reset)),
                SqlView::Integer(audio_ms_of(r.chunks_since_decoder_reset, self.chunk_ms)),
            ],
        }
    }

    pub fn punctuation_reset(&self, enabled: bool, r: &PunctuationResetRow) -> (s: Option<
        Statement,
    >)
        ensures
            statement_view(s) == self.gated(enabled, self.punctuation_reset_row(*r)),
    {
        if !self.live(enabled) {
            return None;
        }
        let s = self.row(INSERT_PUNCTUATION_RESET, r.uptime_ms).integer(
            r.consecutive_empty as i64,
        ).count(r.chunks_since_decoder_reset).integer(
            chunks_to_audio_ms(r.chunks_since_decoder_reset, self.chunk_ms),
        );
        assert(s@.values =~= self.punctuation_reset_row(*r).values);
        Some(s)
    }

    pub open spec fn mid_speech_reset_row(self, r: MidSpeechResetRow) -> StatementView {
        StatementView {
            sql: INSERT_MID_SPEECH_RESET@,
            values: seq![
                SqlView::Integer(self.session_id as int),
                SqlView::Integer(r.uptime_ms as int),
                SqlView::Integer(r.consecutive_empty as int),
                SqlView::Integer(signed(r.chunks_since_decoder_reset)),
                SqlView::Integer(audio_ms_of(r.chunks_since_decoder_reset, self.chunk_ms)),
                SqlView::Integer(signed(r.replay_chunks)),
                SqlView::Integer(audio_ms_of(r.replay_chunks, self.chunk_ms)),
                SqlView::Integer(r.replay_nonempty_chunks as int),
                SqlView::Integer(r.replay_inference_ms as int),
            ],
        }
    }

    pub fn mid_speech_reset(&self, enabled: bool, r: &MidSpeechResetRow) -> (s: Option<Statement>)
        ensures
            statement_view(s) == self.gated(enabled, self.mid_speech_reset_row(*r)),
    {
        if !self.live(enabled) {
            return None;
        }
        let s = self.row(INSERT_MID_SPEECH_RESET, r.uptime_ms).integer(
            r.consecutive_empty as i64,
        ).count(r.chunks_since_decoder_reset).integer(
            chunks_to_audio_ms(r.chunks_since_decoder_reset, self.chunk_ms),
        ).count(r.replay_chunks).integer(
            chunks_to_audio_ms(r.replay_chunks, self.chunk_ms),
        ).integer(r.replay_nonempty_chunks).integer(r.replay_inference_ms);
        assert(s@.values =~= self.mid_speech_reset_row(*r).values);
        Some(s)
    }

    pub open spec fn speech_end_row(self, r: SpeechEndRow) -> StatementView {
        StatementView {
            sql: INSERT_SPEECH_END@,
            values: seq![
                SqlView::Integer(self.session_id as int),
                SqlView::Integer(r.uptime_ms as int),
                SqlView::WholeReal(r.speech_duration_ms as int),
                SqlView::Integer(r.consecutive_empty as int),
                SqlView::Integer(signed(r.chunks_since_decoder_reset)),
                SqlView::Integer(audio_ms_of(r.chunks_since_decoder_reset, self.chunk_ms)),
            ],
        }
    }

    pub fn speech_end(&self, enabled: bool, r: &SpeechEndRow) -> (s: Option<Statement>)
        ensures
            statement_view(s) == self.gated(enabled, self.speech_end_row(*r)),
    {
        if !self.live(enabled) {
            return None;
        }
        let s = self.row(INSERT_SPEECH_END, r.uptime_ms).bind(
            SqlValue::WholeReal(r.speech_duration_ms),
        ).integer(r.consecutive_empty as i64).count(r.chunks_since_decoder_reset).integer(
            chunks_to_audio_ms(r.chunks_since_decoder_reset, self.chunk_ms),
        );
        assert(s@.values =~= self.speech_end_row(*r).values);
        Some(s)
    }
}

} // verus!
