use std::sync::{Arc, Mutex};

use hush::pipeline::{
    Capture, DrainStep, Output, Pipeline, PipelineError, StatusEvent, StatusSink,
    StreamTranscriber, Transcriber, Trigger,
};

#[derive(Clone, Default)]
struct VecCapture {
    inner: Arc<Mutex<VecCaptureState>>,
}

#[derive(Default)]
struct VecCaptureState {
    start_count: usize,
    stop_count: usize,
    samples: Vec<f32>,
    start_err: Option<String>,
    stop_err: Option<String>,
    chunks: Vec<Vec<f32>>,
}

impl VecCapture {
    fn with_samples(samples: Vec<f32>) -> Self {
        let s = Self::default();
        s.inner.lock().unwrap().samples = samples;
        s
    }
    fn set_start_err(&self, msg: &str) {
        self.inner.lock().unwrap().start_err = Some(msg.to_string());
    }
    fn clear_start_err(&self) {
        self.inner.lock().unwrap().start_err = None;
    }
    fn set_stop_err(&self, msg: &str) {
        self.inner.lock().unwrap().stop_err = Some(msg.to_string());
    }
    fn push_chunk(&self, chunk: Vec<f32>) {
        self.inner.lock().unwrap().chunks.push(chunk);
    }
    fn start_count(&self) -> usize {
        self.inner.lock().unwrap().start_count
    }
    fn stop_count(&self) -> usize {
        self.inner.lock().unwrap().stop_count
    }
}

impl Capture for VecCapture {
    type Sample = f32;

    fn start(&mut self) -> Result<(), String> {
        let mut g = self.inner.lock().unwrap();
        g.start_count += 1;
        if let Some(e) = g.start_err.clone() {
            return Err(e);
        }
        Ok(())
    }
    fn stop(&mut self) -> Result<Vec<f32>, String> {
        let mut g = self.inner.lock().unwrap();
        g.stop_count += 1;
        if let Some(e) = g.stop_err.clone() {
            return Err(e);
        }
        Ok(g.samples.clone())
    }
    fn drain_chunk(&mut self) -> Option<Vec<f32>> {
        let mut g = self.inner.lock().unwrap();
        if g.chunks.is_empty() {
            None
        } else {
            Some(g.chunks.remove(0))
        }
    }
}

#[derive(Clone)]
struct CannedTranscriber {
    result: Arc<Result<String, String>>,
    seen: Arc<Mutex<Vec<usize>>>,
}

impl CannedTranscriber {
    fn new(text: &str) -> Self {
        Self {
            result: Arc::new(Ok(text.to_string())),
            seen: Arc::new(Mutex::new(Vec::new())),
        }
    }
    fn fail(err: &str) -> Self {
        Self {
            result: Arc::new(Err(err.to_string())),
            seen: Arc::new(Mutex::new(Vec::new())),
        }
    }
}

impl Transcriber<f32> for CannedTranscriber {
    fn transcribe(&mut self, pcm: &[f32]) -> Result<String, String> {
        self.seen.lock().unwrap().push(pcm.len());
        (*self.result).clone()
    }
}

#[derive(Clone, Default)]
struct RecordingOutput {
    texts: Arc<Mutex<Vec<String>>>,
    fail: Arc<Mutex<Option<String>>>,
}

impl RecordingOutput {
    fn texts(&self) -> Vec<String> {
        self.texts.lock().unwrap().clone()
    }
}

impl Output for RecordingOutput {
    fn deliver(&mut self, text: &str) -> Result<(), String> {
        if let Some(e) = self.fail.lock().unwrap().clone() {
            return Err(e);
        }
        self.texts.lock().unwrap().push(text.to_string());
        Ok(())
    }
}

#[derive(Clone, Default)]
struct VecStatusSink {
    events: Arc<Mutex<Vec<StatusEvent>>>,
}

impl VecStatusSink {
    fn events(&self) -> Vec<StatusEvent> {
        self.events.lock().unwrap().clone()
    }
}

impl StatusSink for VecStatusSink {
    fn publish(&mut self, ev: StatusEvent) {
        self.events.lock().unwrap().push(ev);
    }
}

struct NoopStreamTranscriber;

impl StreamTranscriber<f32> for NoopStreamTranscriber {
    fn start_session(&mut self) -> Result<(), String> {
        Ok(())
    }
    fn feed(&mut self, _chunk: &[f32]) -> Result<String, String> {
        Ok(String::new())
    }
    fn flush(&mut self, _remaining: &[f32]) -> Result<String, String> {
        Ok(String::new())
    }
    fn sample_count(&self) -> usize {
        0
    }
}

/// A stream transcriber that counts what it was fed and says "word"
/// for each chunk, and "end" on flush.
#[derive(Default)]
struct CountingStream {
    fed: usize,
    session_err: Option<String>,
}

impl StreamTranscriber<f32> for CountingStream {
    fn start_session(&mut self) -> Result<(), String> {
        match self.session_err.clone() {
            Some(e) => Err(e),
            None => Ok(()),
        }
    }
    fn feed(&mut self, chunk: &[f32]) -> Result<String, String> {
        self.fed += chunk.len();
        Ok("word".to_string())
    }
    fn flush(&mut self, remaining: &[f32]) -> Result<String, String> {
        self.fed += remaining.len();
        Ok("end".to_string())
    }
    fn sample_count(&self) -> usize {
        self.fed
    }
}

fn make_pipeline() -> (
    Pipeline<VecCapture, CannedTranscriber, NoopStreamTranscriber, RecordingOutput, VecStatusSink>,
    VecCapture,
    RecordingOutput,
    VecStatusSink,
) {
    let cap = VecCapture::with_samples(vec![0.0; 32_000]);
    let trans = CannedTranscriber::new("hello");
    let out = RecordingOutput::default();
    let sink = VecStatusSink::default();
    let p = Pipeline::new(
        cap.clone(),
        trans,
        None::<NoopStreamTranscriber>,
        out.clone(),
        sink.clone(),
        4_800,
        false,
    );
    (p, cap, out, sink)
}

#[test]
fn start_emits_recording() {
    let (mut p, _cap, _out, sink) = make_pipeline();
    p.handle(Trigger::Start).unwrap();
    assert_eq!(sink.events(), vec![StatusEvent::Recording]);
}

#[test]
fn second_start_is_idempotent() {
    let (mut p, cap, _out, sink) = make_pipeline();
    p.handle(Trigger::Start).unwrap();
    p.handle(Trigger::Start).unwrap();
    assert_eq!(cap.start_count(), 1);
    assert_eq!(sink.events(), vec![StatusEvent::Recording]);
}

#[test]
fn happy_path_delivers_transcript() {
    let (mut p, _cap, out, sink) = make_pipeline();
    p.handle(Trigger::Start).unwrap();
    p.handle(Trigger::Stop).unwrap();
    assert_eq!(
        sink.events(),
        vec![
            StatusEvent::Recording,
            StatusEvent::Stopped,
            StatusEvent::Transcribing,
            StatusEvent::Idle,
        ]
    );
    assert_eq!(out.texts(), vec!["hello".to_string()]);
}

#[test]
fn empty_transcript_does_not_deliver() {
    let cap = VecCapture::with_samples(vec![0.0; 32_000]);
    let trans = CannedTranscriber::new("");
    let out = RecordingOutput::default();
    let sink = VecStatusSink::default();
    let mut p = Pipeline::new(cap, trans, None::<NoopStreamTranscriber>, out.clone(), sink.clone(), 4_800, false);
    p.handle(Trigger::Start).unwrap();
    p.handle(Trigger::Stop).unwrap();
    assert_eq!(
        sink.events(),
        vec![
            StatusEvent::Recording,
            StatusEvent::Stopped,
            StatusEvent::Transcribing,
            StatusEvent::Idle,
        ]
    );
    assert!(out.texts().is_empty());
}

#[test]
fn stop_without_start_is_noop() {
    let cap = VecCapture::with_samples(vec![0.0; 32_000]);
    let trans = CannedTranscriber::new("hello");
    let out = RecordingOutput::default();
    let sink = VecStatusSink::default();
    let mut p = Pipeline::new(cap.clone(), trans, None::<NoopStreamTranscriber>, out.clone(), sink.clone(), 4_800, false);
    p.handle(Trigger::Stop).unwrap();
    assert!(sink.events().is_empty());
    assert_eq!(cap.start_count(), 0);
    assert_eq!(cap.stop_count(), 0);
    assert!(out.texts().is_empty());
}

#[test]
fn transcribe_error_emits_error_then_idle_and_skips_deliver() {
    let cap = VecCapture::with_samples(vec![0.0; 32_000]);
    let trans = CannedTranscriber::fail("model crashed");
    let out = RecordingOutput::default();
    let sink = VecStatusSink::default();
    let mut p = Pipeline::new(cap, trans, None::<NoopStreamTranscriber>, out.clone(), sink.clone(), 4_800, false);
    p.handle(Trigger::Start).unwrap();
    let _ = p.handle(Trigger::Stop);
    assert_eq!(
        sink.events(),
        vec![
            StatusEvent::Recording,
            StatusEvent::Stopped,
            StatusEvent::Transcribing,
            StatusEvent::Error("model crashed".to_string()),
            StatusEvent::Idle,
        ]
    );
    assert!(out.texts().is_empty());
}

#[test]
fn capture_start_error_emits_error_then_idle_and_recovers() {
    let cap = VecCapture::with_samples(vec![0.0; 32_000]);
    cap.set_start_err("device busy");
    let trans = CannedTranscriber::new("hello");
    let out = RecordingOutput::default();
    let sink = VecStatusSink::default();
    let mut p = Pipeline::new(cap.clone(), trans, None::<NoopStreamTranscriber>, out.clone(), sink.clone(), 4_800, false);

    let _ = p.handle(Trigger::Start);
    assert_eq!(
        sink.events(),
        vec![
            StatusEvent::Recording,
            StatusEvent::Error("device busy".to_string()),
            StatusEvent::Idle,
        ]
    );
    assert!(out.texts().is_empty());

    cap.clear_start_err();
    p.handle(Trigger::Start).unwrap();
    assert_eq!(sink.events().last(), Some(&StatusEvent::Recording));
    assert_eq!(cap.start_count(), 2);
}

#[test]
fn short_clip_drops_without_transcribing() {
    let cap = VecCapture::with_samples(vec![0.0; 100]);
    let trans = CannedTranscriber::new("should not be delivered");
    let out = RecordingOutput::default();
    let sink = VecStatusSink::default();
    let mut p = Pipeline::new(cap, trans, None::<NoopStreamTranscriber>, out.clone(), sink.clone(), 4_800, false);
    p.handle(Trigger::Start).unwrap();
    p.handle(Trigger::Stop).unwrap();
    assert_eq!(
        sink.events(),
        vec![
            StatusEvent::Recording,
            StatusEvent::Stopped,
            StatusEvent::Idle,
        ]
    );
    assert!(out.texts().is_empty());
}

#[test]
fn start_error_result_and_not_recording() {
    let cap = VecCapture::with_samples(vec![0.0; 32_000]);
    cap.set_start_err("no mic");
    let (trans, out, sink) = (CannedTranscriber::new("x"), RecordingOutput::default(), VecStatusSink::default());
    let mut p = Pipeline::new(cap, trans, None::<NoopStreamTranscriber>, out, sink, 4_800, false);
    assert_eq!(p.handle(Trigger::Start), Err(PipelineError::Capture("no mic".to_string())));
    assert!(!p.is_recording());
}

#[test]
fn capture_stop_error_is_reported() {
    let cap = VecCapture::with_samples(vec![0.0; 32_000]);
    cap.set_stop_err("stream lost");
    let (trans, out, sink) = (CannedTranscriber::new("x"), RecordingOutput::default(), VecStatusSink::default());
    let mut p = Pipeline::new(cap, trans, None::<NoopStreamTranscriber>, out.clone(), sink.clone(), 4_800, false);
    p.handle(Trigger::Start).unwrap();
    assert_eq!(p.handle(Trigger::Stop), Err(PipelineError::Capture("stream lost".to_string())));
    assert!(!p.is_recording());
    assert_eq!(sink.events(), vec![StatusEvent::Recording, StatusEvent::Stopped]);
    assert!(out.texts().is_empty());
}

#[test]
fn output_error_is_reported_after_idle() {
    let cap = VecCapture::with_samples(vec![0.0; 32_000]);
    let (trans, out, sink) = (CannedTranscriber::new("hi"), RecordingOutput::default(), VecStatusSink::default());
    *out.fail.lock().unwrap() = Some("paste refused".to_string());
    let mut p = Pipeline::new(cap, trans, None::<NoopStreamTranscriber>, out.clone(), sink.clone(), 4_800, false);
    p.handle(Trigger::Start).unwrap();
    assert_eq!(p.handle(Trigger::Stop), Err(PipelineError::Output("paste refused".to_string())));
    assert_eq!(sink.events().last(), Some(&StatusEvent::Idle));
}

#[test]
fn transcriber_sees_exactly_the_captured_samples() {
    let cap = VecCapture::with_samples(vec![0.5; 4_800]);
    let trans = CannedTranscriber::new("ok");
    let seen = trans.seen.clone();
    let (out, sink) = (RecordingOutput::default(), VecStatusSink::default());
    let mut p = Pipeline::new(cap, trans, None::<NoopStreamTranscriber>, out.clone(), sink, 4_800, false);
    p.handle(Trigger::Start).unwrap();
    p.handle(Trigger::Stop).unwrap();
    assert_eq!(*seen.lock().unwrap(), vec![4_800]);
    assert_eq!(out.texts(), vec!["ok".to_string()]);
}

#[test]
fn streaming_without_stream_transcriber_fails_on_stop() {
    let cap = VecCapture::with_samples(vec![0.0; 32_000]);
    let (trans, out, sink) = (CannedTranscriber::new("x"), RecordingOutput::default(), VecStatusSink::default());
    let mut p = Pipeline::new(cap, trans, None::<CountingStream>, out, sink, 4_800, true);
    p.handle(Trigger::Start).unwrap();
    assert_eq!(
        p.handle(Trigger::Stop),
        Err(PipelineError::Transcribe("no streaming transcriber".to_string()))
    );
}

#[test]
fn streaming_drains_chunks_and_flushes_on_stop() {
    let cap = VecCapture::with_samples(vec![0.0; 3_000]);
    let (trans, out, sink) = (CannedTranscriber::new("unused"), RecordingOutput::default(), VecStatusSink::default());
    let mut p = Pipeline::new(cap.clone(), trans, Some(CountingStream::default()), out.clone(), sink.clone(), 4_800, true);
    assert!(p.is_streaming());
    p.handle(Trigger::Start).unwrap();
    cap.push_chunk(vec![0.0; 2_560]);
    assert_eq!(p.drain_streaming_chunk(), DrainStep::Delivered);
    assert_eq!(p.drain_streaming_chunk(), DrainStep::Empty);
    p.handle(Trigger::Stop).unwrap();
    assert_eq!(out.texts(), vec!["word".to_string(), "end".to_string()]);
    assert_eq!(
        sink.events(),
        vec![
            StatusEvent::Recording,
            StatusEvent::Stopped,
            StatusEvent::Transcribing,
            StatusEvent::Idle,
        ]
    );
}

#[test]
fn streaming_short_session_drops() {
    let cap = VecCapture::with_samples(vec![0.0; 100]);
    let (trans, out, sink) = (CannedTranscriber::new("unused"), RecordingOutput::default(), VecStatusSink::default());
    let mut p = Pipeline::new(cap, trans, Some(CountingStream::default()), out.clone(), sink.clone(), 4_800, true);
    p.handle(Trigger::Start).unwrap();
    p.handle(Trigger::Stop).unwrap();
    assert!(out.texts().is_empty());
    assert_eq!(sink.events(), vec![StatusEvent::Recording, StatusEvent::Stopped, StatusEvent::Idle]);
}

#[test]
fn streaming_session_error_on_start() {
    let cap = VecCapture::with_samples(vec![0.0; 100]);
    let (trans, out, sink) = (CannedTranscriber::new("unused"), RecordingOutput::default(), VecStatusSink::default());
    let st = CountingStream { fed: 0, session_err: Some("busy".to_string()) };
    let mut p = Pipeline::new(cap, trans, Some(st), out, sink.clone(), 4_800, true);
    assert_eq!(p.handle(Trigger::Start), Err(PipelineError::Transcribe("busy".to_string())));
    assert!(!p.is_recording());
    assert_eq!(
        sink.events(),
        vec![StatusEvent::Recording, StatusEvent::Error("busy".to_string()), StatusEvent::Idle]
    );
}

#[test]
fn drain_without_stream_reports_no_stream() {
    let (mut p, _cap, _out, _sink) = make_pipeline();
    assert_eq!(p.drain_streaming_chunk(), DrainStep::NoStream);
}

#[test]
fn idle_wait_is_short_only_while_streaming() {
    let (mut p, _cap, _out, _sink) = make_pipeline();
    assert_eq!(p.idle_wait_ms(), 3_600_000);
    p.handle(Trigger::Start).unwrap();
    assert_eq!(p.idle_wait_ms(), 3_600_000);
    let cap = VecCapture::with_samples(vec![0.0; 10]);
    let (trans, out, sink) = (CannedTranscriber::new("x"), RecordingOutput::default(), VecStatusSink::default());
    let mut q = Pipeline::new(cap, trans, Some(CountingStream::default()), out, sink, 4_800, true);
    q.handle(Trigger::Start).unwrap();
    assert_eq!(q.idle_wait_ms(), 160);
    q.handle(Trigger::Stop).unwrap();
    assert_eq!(q.idle_wait_ms(), 3_600_000);
}
