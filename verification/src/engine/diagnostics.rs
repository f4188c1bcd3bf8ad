//! Diagnostics shared by the processing loop and the active engine: what is written,
//! and when.

use vstd::prelude::*;

use crate::bits::Double;
use crate::diag;
use crate::diag::SqlValue;
use crate::diag::SqlView;
use crate::diag::Statement;
use crate::diag::StatementView;

pub use crate::text::text_preview;

verus! {

pub const INSERT_SESSION: &'static str = "INSERT INTO sessions (input_rate, needs_resample, engine) VALUES (?1, ?2, ?3)";

pub const UPDATE_CHUNK_SIZE: &'static str = "UPDATE sessions SET chunk_size = ?1 WHERE id = ?2";

pub const INSERT_SPEECH_START: &'static str = "INSERT INTO vad_events (session_id, uptime_ms, event_type, pre_speech_samples) VALUES (?1, ?2, 'speech_start', ?3)";

pub const INSERT_SPEECH_END: &'static str = "INSERT INTO vad_events (session_id, uptime_ms, event_type, speech_duration_ms) VALUES (?1, ?2, 'speech_end', ?3)";

pub const INSERT_FEED: &'static str = "INSERT INTO events (session_id, uptime_ms, event_type, drain_samples, drain_audio_ms, resample_ms, vad_ms, iteration_ms) VALUES (?1, ?2, 'feed', ?3, ?4, ?5, ?6, ?7)";

pub const INSERT_ERROR: &'static str = "INSERT INTO events (session_id, uptime_ms, event_type, error_msg) VALUES (?1, ?2, ?3, ?4)";

pub const INSERT_SHUTDOWN: &'static str = "INSERT INTO events (session_id, uptime_ms, event_type) VALUES (?1, ?2, 'shutdown')";

/// The statement that registers a session.
pub fn session_statement(engine_id: &str, input_rate: usize, needs_resample: bool) -> (s: Statement)
    ensures
        s@ == (StatementView {
            sql: INSERT_SESSION@,
            values: seq![
                SqlView::Integer(diag::signed(input_rate as u64)),
                SqlView::Integer(
                    if needs_resample {
                        1
                    } else {
                        0
                    },
                ),
                SqlView::Text(engine_id@),
            ],
        }),
{
    let s = Statement::new(INSERT_SESSION).count(input_rate as u64).flag(needs_resample).text(
        engine_id,
    );
    assert(s@.values =~= seq![
        SqlView::Integer(diag::signed(input_rate as u64)),
        SqlView::Integer(
            if needs_resample {
                1
            } else {
                0
            },
        ),
        SqlView::Text(engine_id@),
    ]);
    s
}

/// Where a session's diagnostics go. A disabled sink makes every logging call a
/// no-op. Writes are gated on a live toggle, so flipping diagnostics off mid-session
/// stops writes while the connection stays open; re-enabling resumes writes to the
/// same session row.
#[derive(Debug, Clone, Copy, PartialEq, Eq, Structural)]
pub struct DiagSink {
    /// The session's row, where a database is open.
    pub session_id: Option<i64>,
}

impl DiagSink {
    pub fn disabled() -> (r: Self)
        ensures
            r.session_id is None,
    {
        DiagSink { session_id: None }
    }

    /// A sink for the session with the given row.
    pub fn opened(session_id: i64) -> (r: Self)
        ensures
            r.session_id == Some(session_id),
    {
        DiagSink { session_id: Some(session_id) }
    }

    /// Milliseconds since the session started. Returns 0 when disabled.
    pub fn uptime_ms(&self, elapsed_ms: i64) -> (r: i64)
        ensures
            r == if self.session_id is Some {
                elapsed_ms
            } else {
                0
            },
    {
        if self.session_id.is_some() {
            elapsed_ms
        } else {
            0
        }
    }

    /// The session to write to, unless the sink is disabled or the live toggle is
    /// off.
    pub fn live(&self, enabled: bool) -> (r: Option<i64>)
        ensures
            r == if enabled {
                self.session_id
            } else {
                None
            },
    {
        if enabled {
            self.session_id
        } else {
            None
        }
    }

    /// A statement that a live sink writes.
    pub open spec fn gated(self, enabled: bool, s: StatementView) -> Option<StatementView> {
        if enabled && self.session_id is Some {
            Some(s)
        } else {
            None
        }
    }

    /// The values that a row starts with, and the rest.
    pub open spec fn row_values(self, uptime_ms: i64, rest: Seq<SqlView>) -> Seq<SqlView> {
        seq![
            SqlView::Integer(self.session_id->Some_0 as int),
            SqlView::Integer(uptime_ms as int),
        ] + rest
    }

    /// A row to fill; none where the sink is not live.
    pub fn row(&self, enabled: bool, sql: &'static str, uptime_ms: i64) -> (r: Option<Statement>)
        ensures
            diag::statement_view(r) == self.gated(
                enabled,
                StatementView { sql: sql@, values: self.row_values(uptime_ms, Seq::empty()) },
            ),
    {
        let session_id: i64 = match self.live(enabled) {
            Some(id) => id,
            None => return None,
        };
        let r = Statement::new(sql).integer(session_id).integer(uptime_ms);
        assert(r@.values =~= self.row_values(uptime_ms, Seq::empty()));
        Some(r)
    }

    /// Engines that consume fixed-size chunks record their chunk size on the
    /// session row; streaming engines leave it NULL.
    pub fn set_session_chunk_size(&self, enabled: bool, chunk_size: usize) -> (s: Option<Statement>)
        ensures
            diag::statement_view(s) == self.gated(
                enabled,
                StatementView {
                    sql: UPDATE_CHUNK_SIZE@,
                    values: seq![
                        SqlView::Integer(diag::signed(chunk_size as u64)),
                        SqlView::Integer(self.session_id->Some_0 as int),
                    ],
                },
            ),
    {
        let session_id: i64 = match self.live(enabled) {
            Some(id) => id,
            None => return None,
        };
        let s = Statement::new(UPDATE_CHUNK_SIZE).count(chunk_size as u64).integer(session_id);
        assert(s@.values =~= seq![
            SqlView::Integer(diag::signed(chunk_size as u64)),
            SqlView::Integer(self.session_id->Some_0 as int),
        ]);
        Some(s)
    }

    pub fn log_speech_start(&self, enabled: bool, uptime_ms: i64, pre_speech_samples: usize) -> (s:
        Option<Statement>)
        ensures
            diag::statement_view(s) == self.gated(
                enabled,
                StatementView {
                    sql: INSERT_SPEECH_START@,
                    values: self.row_values(
                        uptime_ms,
                        seq![SqlView::Integer(diag::signed(pre_speech_samples as u64))],
                    ),
                },
            ),
    {
        match self.row(enabled, INSERT_SPEECH_START, uptime_ms) {
            Some(row) => {
                let s = row.count(pre_speech_samples as u64);
                assert(s@.values =~= self.row_values(
                    uptime_ms,
                    seq![SqlView::Integer(diag::signed(pre_speech_samples as u64))],
                ));
                Some(s)
            },
            None => None,
        }
    }

    pub fn log_speech_end(&self, enabled: bool, uptime_ms: i64, speech_duration_ms: i64) -> (s:
        Option<Statement>)
        ensures
            diag::statement_view(s) == self.gated(
                enabled,
                StatementView {
                    sql: INSERT_SPEECH_END@,
                    values: self.row_values(
                        uptime_ms,
                        seq![SqlView::WholeReal(speech_duration_ms as int)],
                    ),
                },
            ),
    {
        match self.row(enabled, INSERT_SPEECH_END, uptime_ms) {
            Some(row) => {
                let s = row.bind(SqlValue::WholeReal(speech_duration_ms));
                assert(s@.values =~= self.row_values(
                    uptime_ms,
                    seq![SqlView::WholeReal(speech_duration_ms as int)],
                ));
                Some(s)
            },
            None => None,
        }
    }

    /// One row per non-empty capture-buffer drain: how much audio came in and
    /// where the iteration time went. Engine-agnostic counterpart to the
    /// per-chunk 'transcribe' rows.
    pub fn log_feed(
        &self,
        enabled: bool,
        uptime_ms: i64,
        drain_samples: usize,
        drain_audio_ms: Double,
        resample_ms: i64,
        vad_ms: i64,
        iteration_ms: i64,
    ) -> (s: Option<Statement>)
        ensures
            diag::statement_view(s) == self.gated(
                enabled,
                StatementView {
                    sql: INSERT_FEED@,
                    values: self.row_values(
                        uptime_ms,
                        seq![
                            SqlView::Integer(diag::signed(drain_samples as u64)),
                            SqlView::Real(drain_audio_ms),
                            SqlView::Integer(resample_ms as int),
                            SqlView::Integer(vad_ms as int),
                            SqlView::Integer(iteration_ms as int),
                        ],
                    ),
                },
            ),
    {
        match self.row(enabled, INSERT_FEED, uptime_ms) {
            Some(row) => {
                let s = row.count(drain_samples as u64).bind(SqlValue::Real(drain_audio_ms)).integer(
                    resample_ms,
                ).integer(vad_ms).integer(iteration_ms);
                assert(s@.values =~= self.row_values(
                    uptime_ms,
                    seq![
                        SqlView::Integer(diag::signed(drain_samples as u64)),
                        SqlView::Real(drain_audio_ms),
                        SqlView::Integer(resample_ms as int),
                        SqlView::Integer(vad_ms as int),
                        SqlView::Integer(iteration_ms as int),
                    ],
                ));
                Some(s)
            },
            None => None,
        }
    }

    pub fn log_error(&self, enabled: bool, uptime_ms: i64, event_type: &str, error_msg: &str) -> (s:
        Option<Statement>)
        ensures
            diag::statement_view(s) == self.gated(
                enabled,
                StatementView {
                    sql: INSERT_ERROR@,
                    values: self.row_values(
                        uptime_ms,
                        seq![SqlView::Text(event_type@), SqlView::Text(error_msg@)],
                    ),
                },
            ),
    {
        match self.row(enabled, INSERT_ERROR, uptime_ms) {
            Some(row) => {
                let s = row.text(event_type).text(error_msg);
                assert(s@.values =~= self.row_values(
                    uptime_ms,
                    seq![SqlView::Text(event_type@), SqlView::Text(error_msg@)],
                ));
                Some(s)
            },
            None => None,
        }
    }

    pub fn log_shutdown(&self, enabled: bool, uptime_ms: i64) -> (s: Option<Statement>)
        ensures
            diag::statement_view(s) == self.gated(
                enabled,
                StatementView {
                    sql: INSERT_SHUTDOWN@,
                    values: self.row_values(uptime_ms, Seq::empty()),
                },
            ),
    {
        self.row(enabled, INSERT_SHUTDOWN, uptime_ms)
    }
}

/// A sink that is not live writes nothing, whatever it is asked to write; a disabled
/// one is never live.
pub proof fn law_quiet_sink_writes_nothing(sink: DiagSink, enabled: bool, s: StatementView)
    requires
        !enabled || sink.session_id is None,
    ensures
        sink.gated(enabled, s) is None,
{
}

} // verus!
