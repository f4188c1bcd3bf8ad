//! What a diagnostics row tells of the event that it is about.

use vstd::prelude::*;

use crate::decoder::ActionView;
use crate::decoder::ChunkSource;
use crate::diag;
use crate::diag::AsrErrorRow;
use crate::diag::DiagSink;
use crate::diag::MidSpeechResetRow;
use crate::diag::PunctuationResetRow;
use crate::diag::SpeechEndRow;
use crate::diag::SqlView;
use crate::diag::StatementView;
use crate::diag::TranscribeRow;
use crate::engine::diagnostics;
use crate::engine::nemotron;

verus! {

/// A sink writes exactly while it is live, and then exactly what it is asked to write.
pub proof fn law_a_live_sink_writes_what_it_is_asked(
    sink: DiagSink,
    other: diagnostics::DiagSink,
    enabled: bool,
    s: StatementView,
)
    ensures
        sink.gated(enabled, s) == if sink.connected && enabled {
            Some(s)
        } else {
            None
        },
        other.gated(enabled, s) == if other.session_id is Some && enabled {
            Some(s)
        } else {
            None
        },
{
}

/// A count is stored as it is as far as the column reaches, and no two counts are stored
/// alike.
pub proof fn law_counts_are_told_apart(a: u64, b: u64)
    ensures
        i64::MIN <= diag::signed(a) <= i64::MAX,
        a <= i64::MAX ==> diag::signed(a) == a,
        diag::signed(a) == diag::signed(b) ==> a == b,
{
}

/// So many chunks are so much audio, as far as the column reaches: one more chunk is one
/// chunk's duration more.
pub proof fn law_chunks_are_audio(chunks: u64, chunk_ms: usize)
    ensures
        diag::audio_ms_of(0, chunk_ms) == 0,
        0 <= diag::audio_ms_of(chunks, chunk_ms) <= i64::MAX,
        chunks < u64::MAX && diag::audio_ms_of((chunks + 1) as u64, chunk_ms) < i64::MAX
            ==> diag::audio_ms_of((chunks + 1) as u64, chunk_ms) == diag::audio_ms_of(
            chunks,
            chunk_ms,
        ) + chunk_ms,
{
    assert(0 * chunk_ms == 0);
    assert(chunks * chunk_ms >= 0) by (nonlinear_arith);
    assert((chunks + 1) * chunk_ms == chunks * chunk_ms + chunk_ms) by (nonlinear_arith);
}

/// The numbers at the front of every row: which session, and when.
pub open spec fn dated(values: Seq<SqlView>, session_id: int, uptime_ms: int) -> bool {
    &&& values.len() >= 2
    &&& values[0] == SqlView::Integer(session_id)
    &&& values[1] == SqlView::Integer(uptime_ms)
}

pub open spec fn flag(b: bool) -> SqlView {
    SqlView::Integer(
        if b {
            1
        } else {
            0
        },
    )
}

/// A row of a transcribed chunk tells everything of it, each value in its column.
pub proof fn law_a_transcribed_chunk_is_told(sink: DiagSink, r: TranscribeRow)
    ensures
        ({
            let v = sink.transcribe_row(r).values;
            &&& v.len() == 14
            &&& dated(v, sink.session_id as int, r.uptime_ms as int)
            &&& v[2] == SqlView::Integer(diag::signed(r.chunk_num))
            &&& v[3] == SqlView::Integer(r.inference_ms as int)
            &&& v[4] == SqlView::Integer(diag::signed(r.drain_samples as u64))
            &&& v[5] == SqlView::Real(r.drain_audio_ms)
            &&& v[6] == SqlView::Integer(diag::signed(r.asr_buf_len as u64))
            &&& v[7] == flag(r.is_empty)
            &&& v[8] == SqlView::Text(r.preview@)
            &&& v[9] == SqlView::Text(r.vad_state@)
            &&& v[10] == SqlView::Integer(r.vad_ms as int)
            &&& v[11] == SqlView::Integer(r.resample_ms as int)
            &&& v[12] == SqlView::Integer(r.iteration_ms as int)
            &&& v[13] == SqlView::Text(r.chunk_source@)
        }),
{
}

/// A row of an error tells what went wrong, where and when.
pub proof fn law_an_error_is_told(
    sink: DiagSink,
    r: AsrErrorRow,
    sql: Seq<char>,
    uptime_ms: i64,
    kind: Seq<char>,
    message: Seq<char>,
)
    ensures
        ({
            let v = sink.asr_error_row(r).values;
            &&& v.len() == 7
            &&& dated(v, sink.session_id as int, r.uptime_ms as int)
            &&& v[2] == SqlView::Integer(diag::signed(r.chunk_num))
            &&& v[3] == SqlView::Integer(r.inference_ms as int)
            &&& v[4] == SqlView::Text(r.error_msg@)
            &&& v[5] == SqlView::Text(r.vad_state@)
            &&& v[6] == SqlView::Text(r.chunk_source@)
        }),
        ({
            let v = sink.message_row(sql, uptime_ms, message).values;
            &&& v.len() == 3
            &&& dated(v, sink.session_id as int, uptime_ms as int)
            &&& v[2] == SqlView::Text(message)
            &&& sink.message_row(sql, uptime_ms, message).sql == sql
        }),
        ({
            let v = sink.backend_error_row(uptime_ms, kind, message).values;
            &&& v.len() == 4
            &&& dated(v, sink.session_id as int, uptime_ms as int)
            &&& v[2] == SqlView::Text(message)
            &&& v[3] == SqlView::Text(kind)
        }),
{
}

/// A row of a reset tells what led to it, and how much audio the model had heard since the
/// reset before; one with a replay tells how much was replayed and what came of it.
pub proof fn law_a_reset_is_told(
    sink: DiagSink,
    p: PunctuationResetRow,
    m: MidSpeechResetRow,
    e: SpeechEndRow,
)
    ensures
        ({
            let v = sink.punctuation_reset_row(p).values;
            let n = p.chunks_since_decoder_reset;
            &&& v.len() == 5
            &&& dated(v, sink.session_id as int, p.uptime_ms as int)
            &&& v[2] == SqlView::Integer(p.consecutive_empty as int)
            &&& v[3] == SqlView::Integer(diag::signed(n))
            &&& v[4] == SqlView::Integer(diag::audio_ms_of(n, sink.chunk_ms))
        }),
        ({
            let v = sink.mid_speech_reset_row(m).values;
            let n = m.chunks_since_decoder_reset;
            &&& v.len() == 9
            &&& dated(v, sink.session_id as int, m.uptime_ms as int)
            &&& v[2] == SqlView::Integer(m.consecutive_empty as int)
            &&& v[3] == SqlView::Integer(diag::signed(n))
            &&& v[4] == SqlView::Integer(diag::audio_ms_of(n, sink.chunk_ms))
            &&& v[5] == SqlView::Integer(diag::signed(m.replay_chunks))
            &&& v[6] == SqlView::Integer(diag::audio_ms_of(m.replay_chunks, sink.chunk_ms))
            &&& v[7] == SqlView::Integer(m.replay_nonempty_chunks as int)
            &&& v[8] == SqlView::Integer(m.replay_inference_ms as int)
        }),
        ({
            let v = sink.speech_end_row(e).values;
            let n = e.chunks_since_decoder_reset;
            &&& v.len() == 6
            &&& dated(v, sink.session_id as int, e.uptime_ms as int)
            &&& v[2] == SqlView::WholeReal(e.speech_duration_ms as int)
            &&& v[3] == SqlView::Integer(e.consecutive_empty as int)
            &&& v[4] == SqlView::Integer(diag::signed(n))
            &&& v[5] == SqlView::Integer(diag::audio_ms_of(n, sink.chunk_ms))
        }),
{
}

/// A row with one count tells the session, the time and the count.
pub proof fn law_a_count_is_told(sink: DiagSink, sql: Seq<char>, uptime_ms: i64, n: u64)
    ensures
        ({
            let row = sink.count_row(sql, uptime_ms, n);
            &&& row.sql == sql
            &&& row.values.len() == 3
            &&& dated(row.values, sink.session_id as int, uptime_ms as int)
            &&& row.values[2] == SqlView::Integer(diag::signed(n))
        }),
{
}

/// The rows of a pluggable engine begin with the session and the time, and tell what its
/// decoder did: a chunk with its text, an error with its message, a reset with its
/// counts. Nothing else is a row.
pub proof fn law_engine_rows_tell_what_was_done(
    sink: diagnostics::DiagSink,
    uptime_ms: i64,
    chunk_ms: usize,
    action: ActionView,
)
    requires
        sink.session_id is Some,
    ensures
        match nemotron::row_of(sink, uptime_ms, chunk_ms, action) {
            Some(row) => {
                let v = row.values;
                &&& dated(v, sink.session_id->0 as int, uptime_ms as int)
                &&& match action {
                    ActionView::LogTranscribe {
                        chunk_num,
                        inference_ms,
                        buffered,
                        is_empty,
                        preview,
                        speech,
                        source,
                        ..
                    } => {
                        &&& v.len() == 9
                        &&& v[2] == SqlView::Integer(diag::signed(chunk_num))
                        &&& v[3] == SqlView::Integer(diag::signed(inference_ms))
                        &&& v[4] == SqlView::Integer(diag::signed(buffered as u64))
                        &&& v[5] == flag(is_empty)
                        &&& v[6] == SqlView::Text(preview)
                        &&& v[7] == SqlView::Text(heard(speech))
                        &&& v[8] == SqlView::Text(origin(source))
                    },
                    ActionView::LogError {
                        chunk_num,
                        inference_ms,
                        message,
                        speech,
                        source,
                        ..
                    } => {
                        &&& v.len() == 7
                        &&& v[2] == SqlView::Integer(diag::signed(chunk_num))
                        &&& v[3] == SqlView::Integer(diag::signed(inference_ms))
                        &&& v[4] == SqlView::Text(message)
                        &&& v[5] == SqlView::Text(heard(speech))
                        &&& v[6] == SqlView::Text(origin(source))
                    },
                    ActionView::LogPunctuationReset {
                        consecutive_empty,
                        chunks_since_reset,
                        ..
                    } => {
                        &&& v.len() == 5
                        &&& v[2] == SqlView::Integer(consecutive_empty as int)
                        &&& v[3] == SqlView::Integer(diag::signed(chunks_since_reset))
                        &&& v[4] == SqlView::Integer(
                            diag::audio_ms_of(chunks_since_reset, chunk_ms),
                        )
                    },
                    ActionView::LogMidSpeechReset {
                        consecutive_empty,
                        chunks_since_reset,
                        replay_chunks,
                        replay_nonempty_chunks,
                        replay_inference_ms,
                        ..
                    } => {
                        &&& v.len() == 9
                        &&& v[2] == SqlView::Integer(consecutive_empty as int)
                        &&& v[3] == SqlView::Integer(diag::signed(chunks_since_reset))
                        &&& v[4] == SqlView::Integer(
                            diag::audio_ms_of(chunks_since_reset, chunk_ms),
                        )
                        &&& v[5] == SqlView::Integer(diag::signed(replay_chunks))
                        &&& v[6] == SqlView::Integer(diag::audio_ms_of(replay_chunks, chunk_ms))
                        &&& v[7] == SqlView::Integer(diag::signed(replay_nonempty_chunks))
                        &&& v[8] == SqlView::Integer(diag::signed(replay_inference_ms))
                    },
                    _ => false,
                }
            },
            None => action is LogSpeechEnd || action is ResetModel || action is Emit,
        },
{
    match nemotron::row_of(sink, uptime_ms, chunk_ms, action) {
        Some(row) => {
            assert(row.values[0] == SqlView::Integer(sink.session_id->0 as int));
            assert(row.values[1] == SqlView::Integer(uptime_ms as int));
        },
        None => {},
    }
}

/// How the voice-activity state is written.
pub open spec fn heard(speech: bool) -> Seq<char> {
    if speech {
        "speech"@
    } else {
        "silence"@
    }
}

/// How the origin of a chunk is written.
pub open spec fn origin(source: ChunkSource) -> Seq<char> {
    match source {
        ChunkSource::Live => "live"@,
        ChunkSource::Replay => "replay"@,
    }
}

/// A row of a pluggable engine is the session and the time, and behind them its values, in
/// order.
pub proof fn law_engine_rows_are_dated(
    sink: diagnostics::DiagSink,
    uptime_ms: i64,
    rest: Seq<SqlView>,
    i: int,
)
    requires
        sink.session_id is Some,
    ensures
        ({
            let v = sink.row_values(uptime_ms, rest);
            &&& v.len() == rest.len() + 2
            &&& dated(v, sink.session_id->0 as int, uptime_ms as int)
            &&& 0 <= i < rest.len() ==> v[i + 2] == rest[i]
        }),
{
}

} // verus!
