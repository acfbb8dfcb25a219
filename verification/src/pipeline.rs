//! The dictation pipeline: a synchronous state machine over four adapters
//! (capture, transcription, output, status), driven by `handle(Trigger)`.
//!
//! The adapters are traits that the application and the tests implement. The
//! pipeline keeps a ghost record of every call it makes on them, with what
//! came back; the contract of `handle` fixes that record exactly, so it
//! states which events are published, in which order, and what is
//! transcribed and delivered, for every answer the adapters may give.

use vstd::prelude::*;

verus! {

broadcast use vstd::string::group_string_axioms;

/// Push-to-talk edges: the shortcut went down, or came back up.
#[derive(Debug, Clone, Copy, PartialEq, Eq, Structural)]
pub enum Trigger {
    Start,
    Stop,
}

/// What the pipeline tells the status display.
#[derive(Debug, Clone, PartialEq, Eq)]
pub enum StatusEvent {
    Recording,
    Stopped,
    Transcribing,
    Idle,
    Error(String),
}

/// Why a `handle` call failed, with the adapter's message.
#[derive(Debug, Clone, PartialEq, Eq)]
pub enum PipelineError {
    Capture(String),
    Transcribe(String),
    Output(String),
}

/// One thing a capture did, as its record keeps it.
pub enum CaptureCall<S> {
    /// A start, with its answer.
    Start(Result<(), String>),
    /// A stop, with the samples it handed back or its error.
    Stop(Result<Seq<S>, String>),
    /// A chunk handed out while recording.
    Chunk(Seq<S>),
}

/// One thing a streaming transcriber did, as its record keeps it.
pub enum StreamCall<S> {
    StartSession(Result<(), String>),
    Feed(Seq<S>, Result<String, String>),
    Flush(Seq<S>, Result<String, String>),
}

// The records below are the adapters' abstract state: each method of an
// adapter appends to its record what it was handed and what it answered.
// Every adapter must behave as if it kept such a record: its methods owe
// the contracts below. An adapter written outside verified code cannot
// define the record functions and keeps their default bodies, which fix
// no record at all; for such an adapter the contracts are an obligation
// that nothing checks, and the pipeline's guarantees hold only as far as
// the adapter honours it.

/// Audio capture. `Sample` is the audio sample type of the adapter.
pub trait Capture {
    type Sample;

    /// What this capture has done: each start and stop with its answer,
    /// and each chunk it handed out.
    closed spec fn capture_log(&self) -> Seq<CaptureCall<Self::Sample>> {
        vstd::pervasive::arbitrary()
    }

    fn start(&mut self) -> (r: Result<(), String>)
        ensures
            final(self).capture_log() == old(self).capture_log().push(CaptureCall::Start(r)),
    ;

    fn stop(&mut self) -> (r: Result<Vec<Self::Sample>, String>)
        ensures
            final(self).capture_log() == old(self).capture_log().push(
                CaptureCall::Stop(samples_ghost(&r)),
            ),
    ;

    /// Non-blocking: the next chunk of 16 kHz audio, if one is ready. A
    /// capture that does not stream never has a chunk ready.
    fn drain_chunk(&mut self) -> (r: Option<Vec<Self::Sample>>)
        ensures
            match r {
                Some(c) => final(self).capture_log() == old(self).capture_log().push(
                    CaptureCall::Chunk(c@),
                ),
                None => final(self).capture_log() == old(self).capture_log(),
            },
        default_ensures
            r is None,
    {
        None
    }
}

/// Batch speech-to-text over 16 kHz samples.
pub trait Transcriber<S> {
    /// Each batch this transcriber was given, with its answer.
    closed spec fn transcriptions(&self) -> Seq<(Seq<S>, Result<String, String>)> {
        vstd::pervasive::arbitrary()
    }

    fn transcribe(&mut self, pcm_16k: &[S]) -> (r: Result<String, String>)
        ensures
            final(self).transcriptions() == old(self).transcriptions().push((pcm_16k@, r)),
    ;
}

/// Where finished text goes.
pub trait Output {
    /// Each text this output was given, with its answer.
    closed spec fn deliveries(&self) -> Seq<(Seq<char>, Result<(), String>)> {
        vstd::pervasive::arbitrary()
    }

    fn deliver(&mut self, text: &str) -> (r: Result<(), String>)
        ensures
            final(self).deliveries() == old(self).deliveries().push((text@, r)),
    ;
}

/// The status display.
pub trait StatusSink {
    /// The events published to this sink, in order.
    closed spec fn published(&self) -> Seq<StatusEvent> {
        vstd::pervasive::arbitrary()
    }

    fn publish(&mut self, ev: StatusEvent)
        ensures
            final(self).published() == old(self).published().push(ev),
    ;
}

/// Streaming speech-to-text, fed chunk by chunk while recording.
pub trait StreamTranscriber<S> {
    /// What this transcriber was asked to do, with its answers.
    closed spec fn stream_log(&self) -> Seq<StreamCall<S>> {
        vstd::pervasive::arbitrary()
    }

    /// The sample count it reports in its present state.
    closed spec fn reported_count(&self) -> usize {
        vstd::pervasive::arbitrary()
    }

    fn start_session(&mut self) -> (r: Result<(), String>)
        ensures
            final(self).stream_log() == old(self).stream_log().push(StreamCall::StartSession(r)),
    ;

    /// Feeds one chunk; returns the text decoded so far (may be empty).
    fn feed(&mut self, chunk: &[S]) -> (r: Result<String, String>)
        ensures
            final(self).stream_log() == old(self).stream_log().push(StreamCall::Feed(chunk@, r)),
    ;

    /// Called on stop with the rest of the audio; returns any remaining text.
    fn flush(&mut self, remaining: &[S]) -> (r: Result<String, String>)
        ensures
            final(self).stream_log() == old(self).stream_log().push(
                StreamCall::Flush(remaining@, r),
            ),
    ;

    /// How many samples were fed in this session.
    fn sample_count(&self) -> (r: usize)
        ensures
            r == self.reported_count(),
    ;
}

/// One call that the pipeline made on an adapter, with what came back.
pub enum AdapterCall<S> {
    Published(StatusEvent),
    CaptureStarted(Result<(), String>),
    CaptureStopped(Result<Seq<S>, String>),
    SessionStarted(Result<(), String>),
    SessionSampleCount(usize),
    Flushed(Seq<S>, Result<String, String>),
    Transcribed(Seq<S>, Result<String, String>),
    Delivered(String, Result<(), String>),
    ChunkDrained(Option<Seq<S>>),
    Fed(Seq<S>, Result<String, String>),
}

/// The records of all five adapters.
#[verifier::ext_equal]
pub struct AdapterLogs<S> {
    pub capture: Seq<CaptureCall<S>>,
    pub transcriber: Seq<(Seq<S>, Result<String, String>)>,
    pub output: Seq<(Seq<char>, Result<(), String>)>,
    pub sink: Seq<StatusEvent>,
    pub stream: Seq<StreamCall<S>>,
}

/// Empty records.
pub open spec fn no_logs<S>() -> AdapterLogs<S> {
    AdapterLogs {
        capture: Seq::empty(),
        transcriber: Seq::empty(),
        output: Seq::empty(),
        sink: Seq::empty(),
        stream: Seq::empty(),
    }
}

/// The records `a` followed by the records `b`, adapter by adapter.
pub open spec fn logs_add<S>(a: AdapterLogs<S>, b: AdapterLogs<S>) -> AdapterLogs<S> {
    AdapterLogs {
        capture: a.capture + b.capture,
        transcriber: a.transcriber + b.transcriber,
        output: a.output + b.output,
        sink: a.sink + b.sink,
        stream: a.stream + b.stream,
    }
}

/// What one call adds to its adapter's record. Reading the sample count
/// adds nothing, nor does a drain that found no chunk.
pub open spec fn call_logs<S>(c: AdapterCall<S>) -> AdapterLogs<S> {
    match c {
        AdapterCall::Published(e) => AdapterLogs { sink: seq![e], ..no_logs() },
        AdapterCall::CaptureStarted(r) => AdapterLogs {
            capture: seq![CaptureCall::Start(r)],
            ..no_logs()
        },
        AdapterCall::CaptureStopped(r) => AdapterLogs {
            capture: seq![CaptureCall::Stop(r)],
            ..no_logs()
        },
        AdapterCall::SessionStarted(r) => AdapterLogs {
            stream: seq![StreamCall::StartSession(r)],
            ..no_logs()
        },
        AdapterCall::SessionSampleCount(_) => no_logs(),
        AdapterCall::Flushed(rem, r) => AdapterLogs {
            stream: seq![StreamCall::Flush(rem, r)],
            ..no_logs()
        },
        AdapterCall::Transcribed(input, r) => AdapterLogs {
            transcriber: seq![(input, r)],
            ..no_logs()
        },
        AdapterCall::Delivered(t, r) => AdapterLogs { output: seq![(t@, r)], ..no_logs() },
        AdapterCall::ChunkDrained(Some(c)) => AdapterLogs {
            capture: seq![CaptureCall::Chunk(c)],
            ..no_logs()
        },
        AdapterCall::ChunkDrained(None) => no_logs(),
        AdapterCall::Fed(c, r) => AdapterLogs { stream: seq![StreamCall::Feed(c, r)], ..no_logs() },
    }
}

/// What a run of calls adds to the adapters' records.
pub open spec fn trace_logs<S>(calls: Seq<AdapterCall<S>>) -> AdapterLogs<S>
    decreases calls.len(),
{
    if calls.len() == 0 {
        no_logs()
    } else {
        logs_add(trace_logs(calls.drop_last()), call_logs(calls.last()))
    }
}

proof fn lemma_logs_add_assoc<S>(a: AdapterLogs<S>, b: AdapterLogs<S>, c: AdapterLogs<S>)
    ensures
        logs_add(logs_add(a, b), c) == logs_add(a, logs_add(b, c)),
{
    assert(logs_add(logs_add(a, b), c) =~= logs_add(a, logs_add(b, c)));
}

proof fn lemma_logs_add_none<S>(a: AdapterLogs<S>)
    ensures
        logs_add(a, no_logs()) == a,
{
    assert(logs_add(a, no_logs()) =~= a);
}

/// The records of two runs of calls, one after the other.
proof fn lemma_trace_logs_concat<S>(a: Seq<AdapterCall<S>>, b: Seq<AdapterCall<S>>)
    ensures
        trace_logs(a + b) == logs_add(trace_logs(a), trace_logs(b)),
    decreases b.len(),
{
    if b.len() == 0 {
        assert(a + b =~= a);
        lemma_logs_add_none(trace_logs(a));
    } else {
        assert((a + b).drop_last() =~= a + b.drop_last());
        assert((a + b).last() == b.last());
        lemma_trace_logs_concat(a, b.drop_last());
        lemma_logs_add_assoc(trace_logs(a), trace_logs(b.drop_last()), call_logs(b.last()));
    }
}

/// From view `a` to view `b`, the pipeline only added calls to its trace,
/// and the adapters' records grew by exactly what those calls add.
pub open spec fn grew<S>(a: PipelineView<S>, b: PipelineView<S>) -> bool {
    &&& b.trace.len() >= a.trace.len()
    &&& b.trace.take(a.trace.len() as int) == a.trace
    &&& b.logs == logs_add(a.logs, trace_logs(b.trace.skip(a.trace.len() as int)))
}

proof fn lemma_grew_refl<S>(a: PipelineView<S>)
    ensures
        grew(a, a),
{
    assert(a.trace.take(a.trace.len() as int) =~= a.trace);
    assert(a.trace.skip(a.trace.len() as int) =~= Seq::<AdapterCall<S>>::empty());
    lemma_logs_add_none(a.logs);
}

proof fn lemma_grew_push<S>(a: PipelineView<S>, b: PipelineView<S>, x: AdapterCall<S>, c: PipelineView<S>)
    requires
        grew(a, b),
        c.trace == b.trace.push(x),
        c.logs == logs_add(b.logs, call_logs(x)),
    ensures
        grew(a, c),
{
    let k = a.trace.len() as int;
    assert(c.trace.take(k) =~= b.trace.take(k));
    assert(c.trace.skip(k) =~= b.trace.skip(k).push(x));
    assert(c.trace.skip(k).drop_last() =~= b.trace.skip(k));
    lemma_logs_add_assoc(a.logs, trace_logs(b.trace.skip(k)), call_logs(x));
}

proof fn lemma_grew_trans<S>(a: PipelineView<S>, b: PipelineView<S>, c: PipelineView<S>)
    requires
        grew(a, b),
        grew(b, c),
    ensures
        grew(a, c),
{
    let ka = a.trace.len() as int;
    let kb = b.trace.len() as int;
    assert(c.trace.take(ka) =~= b.trace.take(ka));
    assert(c.trace.skip(ka) =~= b.trace.skip(ka) + c.trace.skip(kb));
    lemma_trace_logs_concat(b.trace.skip(ka), c.trace.skip(kb));
    lemma_logs_add_assoc(a.logs, trace_logs(b.trace.skip(ka)), trace_logs(c.trace.skip(kb)));
}

/// The abstract state of a pipeline.
pub struct PipelineView<S> {
    pub recording: bool,
    pub streaming: bool,
    pub has_stream: bool,
    pub min_samples: usize,
    pub trace: Seq<AdapterCall<S>>,
    /// The adapters' records.
    pub logs: AdapterLogs<S>,
    /// The sample count the stream transcriber reports (zero without one).
    pub stream_count: usize,
}

/// The pipeline over its adapters.
pub struct Pipeline<C: Capture, T, ST, O, S> {
    capture: C,
    transcriber: T,
    stream_transcriber: Option<ST>,
    output: O,
    sink: S,
    min_samples: usize,
    recording: bool,
    streaming: bool,
    trace: Ghost<Seq<AdapterCall<C::Sample>>>,
}

/// The calls of a `Start` edge, the recording flag after it, and its result.
pub open spec fn start_outcome<S>(
    recording: bool,
    streaming: bool,
    has_stream: bool,
    calls: Seq<AdapterCall<S>>,
    rec_after: bool,
    result: Result<(), PipelineError>,
) -> bool {
    if recording {
        calls.len() == 0 && rec_after && result is Ok
    } else {
        &&& calls.len() >= 2
        &&& calls[0] == AdapterCall::<S>::Published(StatusEvent::Recording)
        &&& calls[1] matches AdapterCall::CaptureStarted(r)
        &&& match r {
            Err(e) => {
                &&& calls.len() == 4
                &&& calls[2] == AdapterCall::<S>::Published(StatusEvent::Error(e))
                &&& calls[3] == AdapterCall::<S>::Published(StatusEvent::Idle)
                &&& !rec_after
                &&& result == Err::<(), PipelineError>(PipelineError::Capture(e))
            },
            Ok(_) => if streaming && has_stream {
                &&& calls.len() >= 3
                &&& calls[2] matches AdapterCall::SessionStarted(r2)
                &&& match r2 {
                    Err(e) => {
                        &&& calls.len() == 5
                        &&& calls[3] == AdapterCall::<S>::Published(StatusEvent::Error(e))
                        &&& calls[4] == AdapterCall::<S>::Published(StatusEvent::Idle)
                        &&& !rec_after
                        &&& result == Err::<(), PipelineError>(PipelineError::Transcribe(e))
                    },
                    Ok(_) => calls.len() == 3 && rec_after && result is Ok,
                }
            } else {
                calls.len() == 2 && rec_after && result is Ok
            },
        }
    }
}

/// The calls after a transcript came back: `Idle` is published, then a
/// non-empty transcript is delivered; a failed transcription publishes
/// the error before `Idle` and delivers nothing.
pub open spec fn finish_outcome<S>(
    rest: Seq<AdapterCall<S>>,
    transcript: Result<String, String>,
    result: Result<(), PipelineError>,
) -> bool {
    match transcript {
        Err(e) => {
            &&& rest.len() == 2
            &&& rest[0] == AdapterCall::<S>::Published(StatusEvent::Error(e))
            &&& rest[1] == AdapterCall::<S>::Published(StatusEvent::Idle)
            &&& result == Err::<(), PipelineError>(PipelineError::Transcribe(e))
        },
        Ok(t) => {
            &&& rest.len() >= 1
            &&& rest[0] == AdapterCall::<S>::Published(StatusEvent::Idle)
            &&& if t@.len() == 0 {
                rest.len() == 1 && result is Ok
            } else {
                &&& rest.len() == 2
                &&& rest[1] matches AdapterCall::Delivered(d, dr)
                &&& d == t
                &&& match dr {
                    Ok(_) => result is Ok,
                    Err(e) => result == Err::<(), PipelineError>(PipelineError::Output(e)),
                }
            }
        },
    }
}

/// The calls of a `Stop` edge and its result; recording is always over
/// afterwards.
pub open spec fn stop_outcome<S>(
    recording: bool,
    streaming: bool,
    has_stream: bool,
    min_samples: usize,
    stream_count: usize,
    calls: Seq<AdapterCall<S>>,
    result: Result<(), PipelineError>,
) -> bool {
    if !recording {
        calls.len() == 0 && result is Ok
    } else {
        &&& calls.len() >= 2
        &&& calls[0] == AdapterCall::<S>::Published(StatusEvent::Stopped)
        &&& calls[1] matches AdapterCall::CaptureStopped(r)
        &&& match r {
            Err(e) => calls.len() == 2 && result == Err::<(), PipelineError>(
                PipelineError::Capture(e),
            ),
            Ok(samples) => if streaming {
                if !has_stream {
                    &&& calls.len() == 2
                    &&& result matches Err(PipelineError::Transcribe(m))
                    &&& m@ == "no streaming transcriber"@
                } else {
                    &&& calls.len() >= 3
                    &&& calls[2] == AdapterCall::<S>::SessionSampleCount(stream_count)
                    &&& if stream_count + samples.len() < min_samples {
                        &&& calls.len() == 4
                        &&& calls[3] == AdapterCall::<S>::Published(StatusEvent::Idle)
                        &&& result is Ok
                    } else {
                        &&& calls.len() >= 5
                        &&& calls[3] == AdapterCall::<S>::Published(StatusEvent::Transcribing)
                        &&& calls[4] matches AdapterCall::Flushed(rem, fr)
                        &&& rem == samples
                        &&& finish_outcome(calls.skip(5), fr, result)
                    }
                }
            } else {
                if samples.len() < min_samples {
                    &&& calls.len() == 3
                    &&& calls[2] == AdapterCall::<S>::Published(StatusEvent::Idle)
                    &&& result is Ok
                } else {
                    &&& calls.len() >= 4
                    &&& calls[2] == AdapterCall::<S>::Published(StatusEvent::Transcribing)
                    &&& calls[3] matches AdapterCall::Transcribed(input, tr)
                    &&& input == samples
                    &&& finish_outcome(calls.skip(4), tr, result)
                }
            },
        }
    }
}

/// What one `handle` call did: the calls it made on the adapters (`calls`),
/// the recording flag after it, and its result.
pub open spec fn handle_outcome<S>(
    pre: PipelineView<S>,
    trigger: Trigger,
    calls: Seq<AdapterCall<S>>,
    rec_after: bool,
    result: Result<(), PipelineError>,
) -> bool {
    match trigger {
        Trigger::Start => start_outcome(
            pre.recording,
            pre.streaming,
            pre.has_stream,
            calls,
            rec_after,
            result,
        ),
        Trigger::Stop => !rec_after && stop_outcome(
            pre.recording,
            pre.streaming,
            pre.has_stream,
            pre.min_samples,
            pre.stream_count,
            calls,
            result,
        ),
    }
}

/// What one step of streaming drain did.
#[derive(Debug, Clone, PartialEq, Eq)]
pub enum DrainStep {
    /// There is no streaming transcriber; nothing was drained.
    NoStream,
    /// No chunk was ready.
    Empty,
    /// A chunk was fed and decoded to no new text.
    Fed,
    /// A chunk was fed and its new text delivered.
    Delivered,
    /// Feeding the chunk failed.
    FeedError(String),
    /// Delivering the new text failed.
    OutputError(String),
}

/// The calls of one drain step and what it reports.
pub open spec fn drain_outcome<S>(has_stream: bool, calls: Seq<AdapterCall<S>>, r: DrainStep) -> bool {
    if !has_stream {
        calls.len() == 0 && r == DrainStep::NoStream
    } else {
        &&& calls.len() >= 1
        &&& calls[0] matches AdapterCall::ChunkDrained(chunk)
        &&& match chunk {
            None => calls.len() == 1 && r == DrainStep::Empty,
            Some(ch) => {
                &&& calls.len() >= 2
                &&& calls[1] matches AdapterCall::Fed(fed, fr)
                &&& fed == ch
                &&& match fr {
                    Err(e) => calls.len() == 2 && r == DrainStep::FeedError(e),
                    Ok(t) => if t@.len() == 0 {
                        calls.len() == 2 && r == DrainStep::Fed
                    } else {
                        &&& calls.len() == 3
                        &&& calls[2] matches AdapterCall::Delivered(d, dr)
                        &&& d == t
                        &&& match dr {
                            Ok(_) => r == DrainStep::Delivered,
                            Err(e) => r == DrainStep::OutputError(e),
                        }
                    },
                }
            },
        }
    }
}

impl<C: Capture, T: Transcriber<C::Sample>, ST: StreamTranscriber<C::Sample>, O: Output, S: StatusSink> Pipeline<
    C,
    T,
    ST,
    O,
    S,
> {
    /// The adapters' records.
    pub closed spec fn logs(&self) -> AdapterLogs<C::Sample> {
        AdapterLogs {
            capture: self.capture.capture_log(),
            transcriber: self.transcriber.transcriptions(),
            output: self.output.deliveries(),
            sink: self.sink.published(),
            stream: match self.stream_transcriber {
                Some(st) => st.stream_log(),
                None => Seq::empty(),
            },
        }
    }

    /// The abstract state of the pipeline.
    pub closed spec fn view(&self) -> PipelineView<C::Sample> {
        PipelineView {
            recording: self.recording,
            streaming: self.streaming,
            has_stream: self.stream_transcriber is Some,
            min_samples: self.min_samples,
            trace: self.trace@,
            logs: self.logs(),
            stream_count: match self.stream_transcriber {
                Some(st) => st.reported_count(),
                None => 0,
            },
        }
    }

    /// The settings that an adapter call leaves as they are.
    spec fn kept(self, other: Self) -> bool {
        &&& self.recording == other.recording
        &&& self.streaming == other.streaming
        &&& self.min_samples == other.min_samples
        &&& (self.stream_transcriber is Some) == (other.stream_transcriber is Some)
    }

    /// A pipeline that is not recording and has made no call on its
    /// adapters. Clips shorter than `min_samples` are dropped without
    /// transcribing; with `streaming` on and a stream transcriber given,
    /// audio is decoded while it is captured.
    pub fn new(
        capture: C,
        transcriber: T,
        stream_transcriber: Option<ST>,
        output: O,
        sink: S,
        min_samples: usize,
        streaming: bool,
    ) -> (p: Self)
        ensures
            !p.view().recording,
            p.view().streaming == streaming,
            p.view().has_stream == stream_transcriber is Some,
            p.view().min_samples == min_samples,
            p.view().trace == Seq::<AdapterCall<C::Sample>>::empty(),
            p.view().logs == (AdapterLogs {
                capture: capture.capture_log(),
                transcriber: transcriber.transcriptions(),
                output: output.deliveries(),
                sink: sink.published(),
                stream: match stream_transcriber {
                    Some(st) => st.stream_log(),
                    None => Seq::empty(),
                },
            }),
            p.view().stream_count == match stream_transcriber {
                Some(st) => st.reported_count(),
                None => 0,
            },
    {
        Pipeline {
            capture,
            transcriber,
            stream_transcriber,
            output,
            sink,
            min_samples,
            recording: false,
            streaming,
            trace: Ghost(Seq::empty()),
        }
    }

    /// Whether a recording is under way.
    pub fn is_recording(&self) -> (r: bool)
        ensures
            r == self.view().recording,
    {
        self.recording
    }

    /// How long the receive loop waits for the next edge before it drains
    /// streaming audio: 160 ms while a streaming recording is on, an hour
    /// otherwise.
    pub fn idle_wait_ms(&self) -> (r: u64)
        ensures
            r == if self.view().recording && self.view().streaming {
                160u64
            } else {
                3_600_000u64
            },
    {
        if self.recording && self.streaming {
            160
        } else {
            3_600_000
        }
    }

    /// Whether the pipeline decodes while capturing.
    pub fn is_streaming(&self) -> (r: bool)
        ensures
            r == self.view().streaming,
    {
        self.streaming
    }

    fn publish(&mut self, ev: StatusEvent, Ghost(v0): Ghost<PipelineView<C::Sample>>)
        requires
            grew(v0, old(self).view()),
        ensures
            grew(v0, final(self).view()),
            final(self).trace@ == old(self).trace@.push(AdapterCall::Published(ev)),
            final(self).kept(*old(self)),
            final(self).stream_transcriber == old(self).stream_transcriber,
    {
        let ghost g = ev;
        let ghost before = self.view();
        self.sink.publish(ev);
        self.trace = Ghost(self.trace@.push(AdapterCall::Published(g)));
        proof {
            assert(self.view().logs =~= logs_add(before.logs, call_logs(AdapterCall::Published(g))));
            lemma_grew_push(v0, before, AdapterCall::Published(g), self.view());
        }
    }

    fn capture_start(&mut self, Ghost(v0): Ghost<PipelineView<C::Sample>>) -> (r: Result<
        (),
        String,
    >)
        requires
            grew(v0, old(self).view()),
        ensures
            grew(v0, final(self).view()),
            final(self).trace@ == old(self).trace@.push(AdapterCall::CaptureStarted(unit_ghost(&r))),
            final(self).kept(*old(self)),
            final(self).stream_transcriber == old(self).stream_transcriber,
    {
        let ghost before = self.view();
        let r = self.capture.start();
        let ghost x = AdapterCall::<C::Sample>::CaptureStarted(unit_ghost(&r));
        self.trace = Ghost(self.trace@.push(x));
        proof {
            assert(self.view().logs =~= logs_add(before.logs, call_logs(x)));
            lemma_grew_push(v0, before, x, self.view());
        }
        r
    }

    fn capture_stop(&mut self, Ghost(v0): Ghost<PipelineView<C::Sample>>) -> (r: Result<
        Vec<C::Sample>,
        String,
    >)
        requires
            grew(v0, old(self).view()),
        ensures
            grew(v0, final(self).view()),
            final(self).trace@ == old(self).trace@.push(
                AdapterCall::CaptureStopped(samples_ghost(&r)),
            ),
            final(self).kept(*old(self)),
            final(self).stream_transcriber == old(self).stream_transcriber,
    {
        let ghost before = self.view();
        let r = self.capture.stop();
        let ghost x = AdapterCall::<C::Sample>::CaptureStopped(samples_ghost(&r));
        self.trace = Ghost(self.trace@.push(x));
        proof {
            assert(self.view().logs =~= logs_add(before.logs, call_logs(x)));
            lemma_grew_push(v0, before, x, self.view());
        }
        r
    }

    fn capture_drain(&mut self, Ghost(v0): Ghost<PipelineView<C::Sample>>) -> (r: Option<
        Vec<C::Sample>,
    >)
        requires
            grew(v0, old(self).view()),
        ensures
            grew(v0, final(self).view()),
            final(self).trace@ == old(self).trace@.push(AdapterCall::ChunkDrained(chunk_ghost(&r))),
            final(self).kept(*old(self)),
            final(self).stream_transcriber == old(self).stream_transcriber,
    {
        let ghost before = self.view();
        let r = self.capture.drain_chunk();
        let ghost x = AdapterCall::<C::Sample>::ChunkDrained(chunk_ghost(&r));
        self.trace = Ghost(self.trace@.push(x));
        proof {
            assert(self.view().logs =~= logs_add(before.logs, call_logs(x)));
            lemma_grew_push(v0, before, x, self.view());
        }
        r
    }

    fn session_start(&mut self, Ghost(v0): Ghost<PipelineView<C::Sample>>) -> (r: Result<
        (),
        String,
    >)
        requires
            grew(v0, old(self).view()),
            old(self).stream_transcriber is Some,
        ensures
            grew(v0, final(self).view()),
            final(self).trace@ == old(self).trace@.push(AdapterCall::SessionStarted(unit_ghost(&r))),
            final(self).kept(*old(self)),
    {
        let ghost before = self.view();
        let r = match self.stream_transcriber.as_mut() {
            Some(st) => st.start_session(),
            None => Ok(()),
        };
        let ghost x = AdapterCall::<C::Sample>::SessionStarted(unit_ghost(&r));
        self.trace = Ghost(self.trace@.push(x));
        proof {
            assert(self.view().logs =~= logs_add(before.logs, call_logs(x)));
            lemma_grew_push(v0, before, x, self.view());
        }
        r
    }

    fn session_count(&mut self, Ghost(v0): Ghost<PipelineView<C::Sample>>) -> (c: usize)
        requires
            grew(v0, old(self).view()),
        ensures
            grew(v0, final(self).view()),
            final(self).trace@ == old(self).trace@.push(AdapterCall::SessionSampleCount(c)),
            c == old(self).view().stream_count,
            final(self).kept(*old(self)),
            final(self).stream_transcriber == old(self).stream_transcriber,
    {
        let ghost before = self.view();
        let c = match &self.stream_transcriber {
            Some(st) => st.sample_count(),
            None => 0,
        };
        let ghost x = AdapterCall::<C::Sample>::SessionSampleCount(c);
        self.trace = Ghost(self.trace@.push(x));
        proof {
            assert(self.view().logs =~= logs_add(before.logs, call_logs(x)));
            lemma_grew_push(v0, before, x, self.view());
        }
        c
    }

    fn session_flush(&mut self, rem: &Vec<C::Sample>, Ghost(v0): Ghost<PipelineView<C::Sample>>) -> (r:
        Result<String, String>)
        requires
            grew(v0, old(self).view()),
            old(self).stream_transcriber is Some,
        ensures
            grew(v0, final(self).view()),
            final(self).trace@ == old(self).trace@.push(AdapterCall::Flushed(rem@, r)),
            final(self).kept(*old(self)),
    {
        let ghost before = self.view();
        let r = match self.stream_transcriber.as_mut() {
            Some(st) => st.flush(rem.as_slice()),
            None => Ok(String::new()),
        };
        let ghost x = AdapterCall::<C::Sample>::Flushed(rem@, r);
        self.trace = Ghost(self.trace@.push(x));
        proof {
            assert(self.view().logs =~= logs_add(before.logs, call_logs(x)));
            lemma_grew_push(v0, before, x, self.view());
        }
        r
    }

    fn session_feed(&mut self, chunk: &Vec<C::Sample>, Ghost(v0): Ghost<PipelineView<C::Sample>>) -> (r:
        Result<String, String>)
        requires
            grew(v0, old(self).view()),
            old(self).stream_transcriber is Some,
        ensures
            grew(v0, final(self).view()),
            final(self).trace@ == old(self).trace@.push(AdapterCall::Fed(chunk@, r)),
            final(self).kept(*old(self)),
    {
        let ghost before = self.view();
        let r = match self.stream_transcriber.as_mut() {
            Some(st) => st.feed(chunk.as_slice()),
            None => Ok(String::new()),
        };
        let ghost x = AdapterCall::<C::Sample>::Fed(chunk@, r);
        self.trace = Ghost(self.trace@.push(x));
        proof {
            assert(self.view().logs =~= logs_add(before.logs, call_logs(x)));
            lemma_grew_push(v0, before, x, self.view());
        }
        r
    }

    fn run_transcriber(&mut self, samples: &Vec<C::Sample>, Ghost(v0): Ghost<PipelineView<C::Sample>>) -> (r:
        Result<String, String>)
        requires
            grew(v0, old(self).view()),
        ensures
            grew(v0, final(self).view()),
            final(self).trace@ == old(self).trace@.push(AdapterCall::Transcribed(samples@, r)),
            final(self).kept(*old(self)),
            final(self).stream_transcriber == old(self).stream_transcriber,
    {
        let ghost before = self.view();
        let r = self.transcriber.transcribe(samples.as_slice());
        let ghost x = AdapterCall::<C::Sample>::Transcribed(samples@, r);
        self.trace = Ghost(self.trace@.push(x));
        proof {
            assert(self.view().logs =~= logs_add(before.logs, call_logs(x)));
            lemma_grew_push(v0, before, x, self.view());
        }
        r
    }

    fn deliver(&mut self, text: &String, Ghost(v0): Ghost<PipelineView<C::Sample>>) -> (r: Result<
        (),
        String,
    >)
        requires
            grew(v0, old(self).view()),
        ensures
            grew(v0, final(self).view()),
            final(self).trace@ == old(self).trace@.push(AdapterCall::Delivered(*text, r)),
            final(self).kept(*old(self)),
            final(self).stream_transcriber == old(self).stream_transcriber,
    {
        let ghost before = self.view();
        let r = self.output.deliver(text.as_str());
        let ghost x = AdapterCall::<C::Sample>::Delivered(*text, r);
        self.trace = Ghost(self.trace@.push(x));
        proof {
            assert(self.view().logs =~= logs_add(before.logs, call_logs(x)));
            lemma_grew_push(v0, before, x, self.view());
        }
        r
    }

    /// Publishes `Error(e)` and then `Idle`.
    fn publish_failure(&mut self, e: &String, Ghost(v0): Ghost<PipelineView<C::Sample>>)
        requires
            grew(v0, old(self).view()),
        ensures
            grew(v0, final(self).view()),
            final(self).trace@ == old(self).trace@.push(
                AdapterCall::Published(StatusEvent::Error(*e)),
            ).push(AdapterCall::Published(StatusEvent::Idle)),
            final(self).kept(*old(self)),
    {
        self.publish(StatusEvent::Error(e.clone()), Ghost(v0));
        self.publish(StatusEvent::Idle, Ghost(v0));
    }

    /// Publishes `Idle`, then delivers a non-empty transcript.
    fn finish(&mut self, transcript: Result<String, String>, Ghost(v0): Ghost<PipelineView<C::Sample>>) -> (r:
        Result<(), PipelineError>)
        requires
            grew(v0, old(self).view()),
        ensures
            grew(v0, final(self).view()),
            final(self).trace@.len() >= old(self).trace@.len(),
            final(self).trace@.take(old(self).trace@.len() as int) == old(self).trace@,
            finish_outcome(
                final(self).trace@.skip(old(self).trace@.len() as int),
                transcript,
                r,
            ),
            final(self).kept(*old(self)),
    {
        let ghost t0 = self.trace@;
        match transcript {
            Err(e) => {
                self.publish_failure(&e, Ghost(v0));
                assert(self.trace@.skip(t0.len() as int) =~= seq![
                    AdapterCall::Published(StatusEvent::Error(e)),
                    AdapterCall::Published(StatusEvent::Idle),
                ]);
                assert(self.trace@.take(t0.len() as int) =~= t0);
                Err(PipelineError::Transcribe(e))
            },
            Ok(text) => {
                self.publish(StatusEvent::Idle, Ghost(v0));
                let empty = text.as_str().is_empty();
                if !empty {
                    let delivered = self.deliver(&text, Ghost(v0));
                    assert(self.trace@.skip(t0.len() as int)[1] == AdapterCall::<C::Sample>::Delivered(
                        text,
                        delivered_ghost(&delivered),
                    ));
                    assert(self.trace@.skip(t0.len() as int).len() == 2);
                    assert(self.trace@.skip(t0.len() as int)[0] == AdapterCall::<C::Sample>::Published(
                        StatusEvent::Idle,
                    ));
                    assert(self.trace@.take(t0.len() as int) =~= t0);
                    match delivered {
                        Ok(()) => Ok(()),
                        Err(e) => Err(PipelineError::Output(e)),
                    }
                } else {
                    assert(self.trace@.skip(t0.len() as int) =~= seq![
                        AdapterCall::Published(StatusEvent::Idle),
                    ]);
                    assert(self.trace@.take(t0.len() as int) =~= t0);
                    Ok(())
                }
            },
        }
    }

    /// Handles one push-to-talk edge.
    ///
    /// `Start` while recording and `Stop` while idle do nothing. `Start`
    /// publishes `Recording` and starts capture (and the streaming
    /// session); a failure publishes `Error` then `Idle` and leaves the
    /// pipeline idle. `Stop` publishes `Stopped`, stops capture, drops a
    /// clip shorter than `min_samples` (publishing `Idle`), and otherwise
    /// publishes `Transcribing`, transcribes exactly the captured samples,
    /// publishes `Idle` (after `Error` on failure) and delivers a
    /// non-empty transcript.
    ///
    /// The calls it makes (`calls` below) are real calls: each adapter's
    /// record grows by exactly the calls made on it, with the arguments
    /// handed over and the answers that came back.
    pub fn handle(&mut self, trigger: Trigger) -> (r: Result<(), PipelineError>)
        ensures
            final(self).view().trace.len() >= old(self).view().trace.len(),
            final(self).view().trace.take(old(self).view().trace.len() as int) == old(
                self,
            ).view().trace,
            handle_outcome(
                old(self).view(),
                trigger,
                final(self).view().trace.skip(old(self).view().trace.len() as int),
                final(self).view().recording,
                r,
            ),
            final(self).view().logs == logs_add(
                old(self).view().logs,
                trace_logs(final(self).view().trace.skip(old(self).view().trace.len() as int)),
            ),
            final(self).view().streaming == old(self).view().streaming,
            final(self).view().has_stream == old(self).view().has_stream,
            final(self).view().min_samples == old(self).view().min_samples,
    {
        match trigger {
            Trigger::Start => self.start_edge(),
            Trigger::Stop => self.stop_edge(),
        }
    }

    /// A `Start` edge.
    fn start_edge(&mut self) -> (r: Result<(), PipelineError>)
        ensures
            grew(old(self).view(), final(self).view()),
            final(self).streaming == old(self).streaming,
            final(self).min_samples == old(self).min_samples,
            final(self).stream_transcriber is Some == old(self).stream_transcriber is Some,
            start_outcome(
                old(self).recording,
                old(self).streaming,
                old(self).stream_transcriber is Some,
                final(self).trace@.skip(old(self).trace@.len() as int),
                final(self).recording,
                r,
            ),
    {
        let ghost t0 = self.trace@;
        let ghost v0 = self.view();
        proof {
            lemma_grew_refl(v0);
        }
        if self.recording {
            assert(self.trace@.skip(t0.len() as int) =~= Seq::<AdapterCall<C::Sample>>::empty());
            return Ok(());
        }
        self.publish(StatusEvent::Recording, Ghost(v0));
        let started = self.capture_start(Ghost(v0));
        let ghost t1 = self.trace@;
        assert(t1.skip(t0.len() as int)[0] == AdapterCall::<C::Sample>::Published(
            StatusEvent::Recording,
        ));
        assert(t1.skip(t0.len() as int)[1] == AdapterCall::<C::Sample>::CaptureStarted(
            unit_ghost(&started),
        ));
        if let Err(e) = started {
            self.publish_failure(&e, Ghost(v0));
            assert(self.trace@.skip(t0.len() as int) =~= t1.skip(t0.len() as int).push(
                AdapterCall::Published(StatusEvent::Error(e)),
            ).push(AdapterCall::Published(StatusEvent::Idle)));
            return Err(PipelineError::Capture(e));
        }
        if self.streaming {
            let has = self.stream_transcriber.is_some();
            if has {
                let session = self.session_start(Ghost(v0));
                let ghost t2 = self.trace@;
                assert(t2.skip(t0.len() as int) =~= t1.skip(t0.len() as int).push(
                    AdapterCall::SessionStarted(unit_ghost(&session)),
                ));
                if let Err(e) = session {
                    self.publish_failure(&e, Ghost(v0));
                    assert(self.trace@.skip(t0.len() as int) =~= t2.skip(
                        t0.len() as int,
                    ).push(AdapterCall::Published(StatusEvent::Error(e))).push(
                        AdapterCall::Published(StatusEvent::Idle),
                    ));
                    return Err(PipelineError::Transcribe(e));
                }
            }
        }
        self.recording = true;
        Ok(())
    }

    /// A `Stop` edge.
    fn stop_edge(&mut self) -> (r: Result<(), PipelineError>)
        ensures
            grew(old(self).view(), final(self).view()),
            final(self).streaming == old(self).streaming,
            final(self).min_samples == old(self).min_samples,
            final(self).stream_transcriber is Some == old(self).stream_transcriber is Some,
            !final(self).recording,
            stop_outcome(
                old(self).recording,
                old(self).streaming,
                old(self).stream_transcriber is Some,
                old(self).min_samples,
                old(self).view().stream_count,
                final(self).trace@.skip(old(self).trace@.len() as int),
                r,
            ),
    {
        let ghost t0 = self.trace@;
        let ghost v0 = self.view();
        proof {
            lemma_grew_refl(v0);
        }
        if !self.recording {
            assert(self.trace@.skip(t0.len() as int) =~= Seq::<AdapterCall<C::Sample>>::empty());
            return Ok(());
        }
        self.recording = false;
        self.publish(StatusEvent::Stopped, Ghost(v0));
        let stopped = self.capture_stop(Ghost(v0));
        let ghost t1 = self.trace@;
        assert(t1.skip(t0.len() as int)[0] == AdapterCall::<C::Sample>::Published(
            StatusEvent::Stopped,
        ));
        assert(t1.skip(t0.len() as int)[1] == AdapterCall::<C::Sample>::CaptureStopped(
            samples_ghost(&stopped),
        ));
        assert(t1.skip(t0.len() as int).len() == 2);
        let samples = match stopped {
            Err(e) => {
                return Err(PipelineError::Capture(e));
            },
            Ok(s) => s,
        };
        if self.streaming {
            if self.stream_transcriber.is_none() {
                let mut msg = String::new();
                crate::text::push_str(&mut msg, "no streaming transcriber");
                return Err(PipelineError::Transcribe(msg));
            }
            let count = self.session_count(Ghost(v0));
            let ghost t2 = self.trace@;
            assert(t2.skip(t0.len() as int) =~= t1.skip(t0.len() as int).push(
                AdapterCall::SessionSampleCount(count),
            ));
            let n = samples.len();
            let short = count < self.min_samples && n < self.min_samples - count;
            if short {
                self.publish(StatusEvent::Idle, Ghost(v0));
                assert(self.trace@.skip(t0.len() as int) =~= t2.skip(t0.len() as int).push(
                    AdapterCall::Published(StatusEvent::Idle),
                ));
                return Ok(());
            }
            self.publish(StatusEvent::Transcribing, Ghost(v0));
            let flushed = self.session_flush(&samples, Ghost(v0));
            let ghost t3 = self.trace@;
            assert(t3.skip(t0.len() as int) =~= t2.skip(t0.len() as int).push(
                AdapterCall::Published(StatusEvent::Transcribing),
            ).push(AdapterCall::Flushed(samples@, flushed)));
            let r = self.finish(flushed, Ghost(v0));
            assert(self.trace@.skip(t0.len() as int).skip(5) =~= self.trace@.skip(
                t3.len() as int,
            ));
            let ghost calls = self.trace@.skip(t0.len() as int);
            assert(calls.take(5) =~= t3.skip(t0.len() as int));
            assert(calls[0] == calls.take(5)[0]);
            assert(calls[1] == calls.take(5)[1]);
            assert(calls[2] == calls.take(5)[2]);
            assert(calls[3] == calls.take(5)[3]);
            assert(calls[4] == calls.take(5)[4]);
            r
        } else {
            if samples.len() < self.min_samples {
                self.publish(StatusEvent::Idle, Ghost(v0));
                assert(self.trace@.skip(t0.len() as int) =~= t1.skip(t0.len() as int).push(
                    AdapterCall::Published(StatusEvent::Idle),
                ));
                return Ok(());
            }
            self.publish(StatusEvent::Transcribing, Ghost(v0));
            let transcript = self.run_transcriber(&samples, Ghost(v0));
            let ghost t3 = self.trace@;
            assert(t3.skip(t0.len() as int) =~= t1.skip(t0.len() as int).push(
                AdapterCall::Published(StatusEvent::Transcribing),
            ).push(AdapterCall::Transcribed(samples@, transcript)));
            let r = self.finish(transcript, Ghost(v0));
            assert(self.trace@.skip(t0.len() as int).skip(4) =~= self.trace@.skip(
                t3.len() as int,
            ));
            let ghost calls = self.trace@.skip(t0.len() as int);
            assert(calls.take(4) =~= t3.skip(t0.len() as int));
            assert(calls[0] == calls.take(4)[0]);
            assert(calls[1] == calls.take(4)[1]);
            assert(calls[2] == calls.take(4)[2]);
            assert(calls[3] == calls.take(4)[3]);
            r
        }
    }

    /// One step of streaming decode: takes the next ready chunk, if any,
    /// feeds it to the stream transcriber and delivers any new text.
    /// The caller repeats it until it reports `NoStream` or `Empty`. Each
    /// adapter's record grows by exactly the calls made on it.
    pub fn drain_streaming_chunk(&mut self) -> (r: DrainStep)
        ensures
            final(self).view().trace.len() >= old(self).view().trace.len(),
            final(self).view().trace.take(old(self).view().trace.len() as int) == old(
                self,
            ).view().trace,
            drain_outcome(
                old(self).view().has_stream,
                final(self).view().trace.skip(old(self).view().trace.len() as int),
                r,
            ),
            final(self).view().logs == logs_add(
                old(self).view().logs,
                trace_logs(final(self).view().trace.skip(old(self).view().trace.len() as int)),
            ),
            final(self).view().recording == old(self).view().recording,
            final(self).view().streaming == old(self).view().streaming,
            final(self).view().has_stream == old(self).view().has_stream,
            final(self).view().min_samples == old(self).view().min_samples,
    {
        let ghost t0 = self.trace@;
        let ghost v0 = self.view();
        proof {
            lemma_grew_refl(v0);
        }
        if self.stream_transcriber.is_none() {
            assert(self.trace@.skip(t0.len() as int) =~= Seq::<AdapterCall<C::Sample>>::empty());
            return DrainStep::NoStream;
        }
        let chunk = self.capture_drain(Ghost(v0));
        let ghost t1 = self.trace@;
        assert(t1.skip(t0.len() as int) =~= seq![AdapterCall::ChunkDrained(chunk_ghost(&chunk))]);
        let chunk = match chunk {
            None => {
                return DrainStep::Empty;
            },
            Some(c) => c,
        };
        let fed = self.session_feed(&chunk, Ghost(v0));
        let ghost t2 = self.trace@;
        assert(t2.skip(t0.len() as int) =~= seq![
            AdapterCall::ChunkDrained(Some(chunk@)),
            AdapterCall::Fed(chunk@, fed),
        ]);
        match fed {
            Err(e) => DrainStep::FeedError(e),
            Ok(text) => {
                if text.as_str().is_empty() {
                    DrainStep::Fed
                } else {
                    let delivered = self.deliver(&text, Ghost(v0));
                    assert(self.trace@.skip(t0.len() as int) =~= t2.skip(t0.len() as int).push(
                        AdapterCall::Delivered(text, delivered_ghost(&delivered)),
                    ));
                    match delivered {
                        Ok(()) => DrainStep::Delivered,
                        Err(e) => DrainStep::OutputError(e),
                    }
                }
            },
        }
    }
}

/// The ghost copy of a unit result.
pub open spec fn unit_ghost(r: &Result<(), String>) -> Result<(), String> {
    *r
}

/// The ghost copy of a delivery result.
pub open spec fn delivered_ghost(r: &Result<(), String>) -> Result<(), String> {
    *r
}

/// The ghost view of captured samples.
pub open spec fn samples_ghost<S>(r: &Result<Vec<S>, String>) -> Result<Seq<S>, String> {
    match r {
        Ok(v) => Ok(v@),
        Err(e) => Err(*e),
    }
}

/// The ghost view of a drained chunk.
pub open spec fn chunk_ghost<S>(c: &Option<Vec<S>>) -> Option<Seq<S>> {
    match c {
        Some(v) => Some(v@),
        None => None,
    }
}


/// `Start` while recording touches no adapter and leaves the recording on.
pub proof fn lemma_start_while_recording_is_noop<S>(
    pre: PipelineView<S>,
    calls: Seq<AdapterCall<S>>,
    rec_after: bool,
    result: Result<(), PipelineError>,
)
    requires
        pre.recording,
        handle_outcome(pre, Trigger::Start, calls, rec_after, result),
    ensures
        calls.len() == 0,
        rec_after,
        result is Ok,
{
}

/// `Stop` while idle touches no adapter and leaves the pipeline idle.
pub proof fn lemma_stop_while_idle_is_noop<S>(
    pre: PipelineView<S>,
    calls: Seq<AdapterCall<S>>,
    rec_after: bool,
    result: Result<(), PipelineError>,
)
    requires
        !pre.recording,
        handle_outcome(pre, Trigger::Stop, calls, rec_after, result),
    ensures
        calls.len() == 0,
        !rec_after,
        result is Ok,
{
}

/// After a `Start`, the pipeline is recording exactly when the edge
/// succeeded; after a `Stop`, it is never recording.
pub proof fn lemma_recording_after_edge<S>(
    pre: PipelineView<S>,
    trigger: Trigger,
    calls: Seq<AdapterCall<S>>,
    rec_after: bool,
    result: Result<(), PipelineError>,
)
    requires
        handle_outcome(pre, trigger, calls, rec_after, result),
    ensures
        trigger == Trigger::Start ==> (rec_after <==> result is Ok),
        trigger == Trigger::Stop ==> !rec_after,
{
}

/// A start that failed leaves the pipeline idle, so the next `Start`
/// tries again: it publishes `Recording` and starts capture anew.
pub proof fn lemma_failed_start_retries<S>(
    pre: PipelineView<S>,
    calls1: Seq<AdapterCall<S>>,
    rec1: bool,
    result1: Result<(), PipelineError>,
    mid: PipelineView<S>,
    calls2: Seq<AdapterCall<S>>,
    rec2: bool,
    result2: Result<(), PipelineError>,
)
    requires
        handle_outcome(pre, Trigger::Start, calls1, rec1, result1),
        result1 is Err,
        mid.recording == rec1,
        handle_outcome(mid, Trigger::Start, calls2, rec2, result2),
    ensures
        calls2.len() >= 2,
        calls2[0] == AdapterCall::<S>::Published(StatusEvent::Recording),
        calls2[1] is CaptureStarted,
{
}

/// Every `Error` that a `handle` call publishes is followed at once by
/// `Idle`.
pub proof fn lemma_error_is_followed_by_idle<S>(
    pre: PipelineView<S>,
    trigger: Trigger,
    calls: Seq<AdapterCall<S>>,
    rec_after: bool,
    result: Result<(), PipelineError>,
    i: int,
)
    requires
        handle_outcome(pre, trigger, calls, rec_after, result),
        0 <= i < calls.len(),
        calls[i] matches AdapterCall::Published(ev) && ev is Error,
    ensures
        i + 1 < calls.len(),
        calls[i + 1] == AdapterCall::<S>::Published(StatusEvent::Idle),
{
    match trigger {
        Trigger::Start => {},
        Trigger::Stop => {
            if pre.recording {
                let r = calls[1]->CaptureStopped_0;
                if r is Ok && pre.streaming && pre.has_stream {
                    let c = calls[2]->SessionSampleCount_0;
                    if c + r->Ok_0.len() >= pre.min_samples {
                        assert(calls[i] == calls.skip(5)[i - 5]);
                        assert(calls[i + 1] == calls.skip(5)[i - 4]);
                    }
                } else if r is Ok && !pre.streaming && r->Ok_0.len() >= pre.min_samples {
                    assert(calls[i] == calls.skip(4)[i - 4]);
                    assert(calls[i + 1] == calls.skip(4)[i - 3]);
                }
            }
        },
    }
}

/// A `handle` call delivers at most one text, never an empty one, and
/// only the text that the transcriber (or the stream flush) returned for
/// exactly the samples that capture handed back.
pub proof fn lemma_delivery_is_transcript<S>(
    pre: PipelineView<S>,
    trigger: Trigger,
    calls: Seq<AdapterCall<S>>,
    rec_after: bool,
    result: Result<(), PipelineError>,
    i: int,
)
    requires
        handle_outcome(pre, trigger, calls, rec_after, result),
        0 <= i < calls.len(),
        calls[i] is Delivered,
    ensures
        i == calls.len() - 1,
        calls[i]->Delivered_0@.len() > 0,
        trigger == Trigger::Stop,
        calls[1] matches AdapterCall::CaptureStopped(Ok(samples)) && (
        (calls[i - 2] == AdapterCall::<S>::Transcribed(samples, Ok(calls[i]->Delivered_0)))
            || (calls[i - 2] == AdapterCall::<S>::Flushed(samples, Ok(calls[i]->Delivered_0)))),
{
    match trigger {
        Trigger::Start => {},
        Trigger::Stop => {
            let r = calls[1]->CaptureStopped_0;
            if r is Ok && pre.streaming && pre.has_stream {
                assert(calls[i] == calls.skip(5)[i - 5]);
            } else if r is Ok && !pre.streaming {
                assert(calls[i] == calls.skip(4)[i - 4]);
            }
        },
    }
}

/// Whether a stopped clip is long enough to decode is decided on all the
/// audio of the dictation: with streaming, the samples the stream
/// transcriber already took (its reported count) plus the leftover that
/// capture hands back on stop. When they reach `min_samples`, the stop
/// publishes `Transcribing`, flushes exactly the leftover samples, then
/// publishes `Idle` (after `Error` on failure) and delivers a non-empty
/// flushed text; when they fall short, it publishes `Idle` and neither
/// flushes nor delivers.
pub proof fn lemma_streaming_stop_uses_whole_count<S>(
    pre: PipelineView<S>,
    calls: Seq<AdapterCall<S>>,
    rec_after: bool,
    result: Result<(), PipelineError>,
    samples: Seq<S>,
)
    requires
        pre.recording,
        pre.streaming,
        pre.has_stream,
        handle_outcome(pre, Trigger::Stop, calls, rec_after, result),
        calls[1] == AdapterCall::<S>::CaptureStopped(Ok(samples)),
    ensures
        pre.stream_count + samples.len() >= pre.min_samples ==> {
            &&& calls.len() >= 6
            &&& calls[3] == AdapterCall::<S>::Published(StatusEvent::Transcribing)
            &&& calls[4] matches AdapterCall::Flushed(rem, fr) && rem == samples && match fr {
                Ok(t) => {
                    &&& calls[5] == AdapterCall::<S>::Published(StatusEvent::Idle)
                    &&& t@.len() > 0 ==> calls.len() == 7 && (calls[6] matches AdapterCall::Delivered(
                        d,
                        _,
                    ) && d == t)
                    &&& t@.len() == 0 ==> calls.len() == 6 && result is Ok
                },
                Err(e) => {
                    &&& calls.len() == 7
                    &&& calls[5] == AdapterCall::<S>::Published(StatusEvent::Error(e))
                    &&& calls[6] == AdapterCall::<S>::Published(StatusEvent::Idle)
                },
            }
        },
        pre.stream_count + samples.len() < pre.min_samples ==> {
            &&& calls.len() == 4
            &&& calls[3] == AdapterCall::<S>::Published(StatusEvent::Idle)
            &&& result is Ok
        },
{
    if pre.stream_count + samples.len() >= pre.min_samples {
        let rest = calls.skip(5);
        assert(rest.len() == calls.len() - 5);
        if rest.len() >= 1 {
            assert(calls[5] == rest[0]);
        }
        if rest.len() >= 2 {
            assert(calls[6] == rest[1]);
        }
    }
}

/// Without streaming, the clip capture hands back is transcribed exactly
/// when it has at least `min_samples` samples: then the stop publishes
/// `Transcribing`, hands the transcriber exactly those samples, publishes
/// `Idle` (after `Error` on failure) and delivers a non-empty transcript;
/// a shorter clip publishes `Idle` and is neither transcribed nor
/// delivered.
pub proof fn lemma_batch_stop_uses_clip_length<S>(
    pre: PipelineView<S>,
    calls: Seq<AdapterCall<S>>,
    rec_after: bool,
    result: Result<(), PipelineError>,
    samples: Seq<S>,
)
    requires
        pre.recording,
        !pre.streaming,
        handle_outcome(pre, Trigger::Stop, calls, rec_after, result),
        calls[1] == AdapterCall::<S>::CaptureStopped(Ok(samples)),
    ensures
        samples.len() >= pre.min_samples ==> {
            &&& calls.len() >= 5
            &&& calls[2] == AdapterCall::<S>::Published(StatusEvent::Transcribing)
            &&& calls[3] matches AdapterCall::Transcribed(input, tr) && input == samples && match tr {
                Ok(t) => {
                    &&& calls[4] == AdapterCall::<S>::Published(StatusEvent::Idle)
                    &&& t@.len() > 0 ==> calls.len() == 6 && (calls[5] matches AdapterCall::Delivered(
                        d,
                        _,
                    ) && d == t)
                    &&& t@.len() == 0 ==> calls.len() == 5 && result is Ok
                },
                Err(e) => {
                    &&& calls.len() == 6
                    &&& calls[4] == AdapterCall::<S>::Published(StatusEvent::Error(e))
                    &&& calls[5] == AdapterCall::<S>::Published(StatusEvent::Idle)
                },
            }
        },
        samples.len() < pre.min_samples ==> {
            &&& calls.len() == 3
            &&& calls[2] == AdapterCall::<S>::Published(StatusEvent::Idle)
            &&& result is Ok
        },
{
    if samples.len() >= pre.min_samples {
        let rest = calls.skip(4);
        assert(rest.len() == calls.len() - 4);
        if rest.len() >= 1 {
            assert(calls[4] == rest[0]);
        }
        if rest.len() >= 2 {
            assert(calls[5] == rest[1]);
        }
    }
}

/// A `Start` while idle whose capture starts (without a streaming
/// session) publishes `Recording` and starts capture once; no other
/// adapter is called, and the pipeline is recording.
pub proof fn lemma_start_records<S>(
    pre: PipelineView<S>,
    calls: Seq<AdapterCall<S>>,
    rec_after: bool,
    result: Result<(), PipelineError>,
)
    requires
        !pre.recording,
        !(pre.streaming && pre.has_stream),
        handle_outcome(pre, Trigger::Start, calls, rec_after, result),
        calls[1] == AdapterCall::<S>::CaptureStarted(Ok(())),
    ensures
        result is Ok,
        rec_after,
        trace_logs(calls) == (AdapterLogs::<S> {
            capture: seq![CaptureCall::Start(Ok(()))],
            sink: seq![StatusEvent::Recording],
            ..no_logs()
        }),
{
    assert(calls == seq![
        AdapterCall::<S>::Published(StatusEvent::Recording),
        AdapterCall::<S>::CaptureStarted(Ok(())),
    ]);
    reveal_with_fuel(trace_logs, 3);
    assert(trace_logs(calls) =~= (AdapterLogs::<S> {
        capture: seq![CaptureCall::Start(Ok(()))],
        sink: seq![StatusEvent::Recording],
        ..no_logs()
    }));
}

/// A dictation that goes through: a `Stop` while recording (without
/// streaming) where capture hands back at least `min_samples` samples, the
/// transcriber returns a non-empty text for them and the output takes it,
/// publishes `Stopped`, `Transcribing` and `Idle`, stops capture once,
/// hands the transcriber exactly the captured samples and the output
/// exactly the transcript, and calls nothing else.
pub proof fn lemma_dictation_delivers<S>(
    pre: PipelineView<S>,
    calls: Seq<AdapterCall<S>>,
    rec_after: bool,
    result: Result<(), PipelineError>,
    samples: Seq<S>,
    text: String,
)
    requires
        pre.recording,
        !pre.streaming,
        handle_outcome(pre, Trigger::Stop, calls, rec_after, result),
        calls[1] == AdapterCall::<S>::CaptureStopped(Ok(samples)),
        samples.len() >= pre.min_samples,
        calls[3] == AdapterCall::<S>::Transcribed(samples, Ok(text)),
        text@.len() > 0,
        calls[5] == AdapterCall::<S>::Delivered(text, Ok(())),
    ensures
        result is Ok,
        !rec_after,
        trace_logs(calls) == (AdapterLogs::<S> {
            capture: seq![CaptureCall::Stop(Ok(samples))],
            transcriber: seq![(samples, Ok::<String, String>(text))],
            output: seq![(text@, Ok::<(), String>(()))],
            sink: seq![StatusEvent::Stopped, StatusEvent::Transcribing, StatusEvent::Idle],
            stream: Seq::empty(),
        }),
{
    let rest = calls.skip(4);
    assert(rest[0] == calls[4]);
    assert(rest[1] == calls[5]);
    assert(calls == seq![
        AdapterCall::<S>::Published(StatusEvent::Stopped),
        AdapterCall::<S>::CaptureStopped(Ok(samples)),
        AdapterCall::<S>::Published(StatusEvent::Transcribing),
        AdapterCall::<S>::Transcribed(samples, Ok(text)),
        AdapterCall::<S>::Published(StatusEvent::Idle),
        AdapterCall::<S>::Delivered(text, Ok(())),
    ]);
    reveal_with_fuel(trace_logs, 7);
    assert(trace_logs(calls) =~= (AdapterLogs::<S> {
        capture: seq![CaptureCall::Stop(Ok(samples))],
        transcriber: seq![(samples, Ok::<String, String>(text))],
        output: seq![(text@, Ok::<(), String>(()))],
        sink: seq![StatusEvent::Stopped, StatusEvent::Transcribing, StatusEvent::Idle],
        stream: Seq::empty(),
    }));
}

} // verus!
