use std::sync::atomic::{AtomicBool, Ordering};
use std::sync::Arc;

use musicgpt::audio_generation_backend::ProcessError;
use musicgpt::logits::Logits;
use musicgpt::music_gen_decoder::{
    generate_tokens, BoundedFrameLog, DecoderModel, FrameLog, StepOutput,
};
use musicgpt::past_key_values::PastKeyValues;

const LAYERS: usize = 3;
const VOCAB: usize = 32;

/// Deterministic stand-in for the neural session. At step `s` it scores
/// token `4 * s + r` highest for codebook row `r`, so the sampled history is
/// known exactly. It returns fresh, recognizable attention tensors each
/// step and checks that the loop feeds back the cache as specified: the
/// self-attention tensors of the previous step, and the cross-attention
/// tensors of step 0, frozen forever.
struct StubModel {
    step: usize,
    raise_abort_at: Option<usize>,
    abort: Arc<AtomicBool>,
}

impl DecoderModel<u8> for StubModel {
    fn forward(
        &mut self,
        input_ids: &Vec<i64>,
        cache: &PastKeyValues<u8>,
        use_cache_branch: bool,
    ) -> Result<StepOutput<u8>, String> {
        let s = self.step;
        assert_eq!(input_ids.len(), 8);
        assert_eq!(use_cache_branch, s > 0);
        assert_eq!(cache.is_empty(), s == 0);
        // the input is always the staggered view of the history, duplicated
        // along the batch axis: codebook i reads the newest frame once its
        // delayed stream has started, the pad sentinel before that
        let mut expected_half: Vec<i64> = Vec::new();
        for i in 0..4usize {
            if i < s {
                expected_half.push((4 * (s - 1) + i) as i64);
            } else {
                expected_half.push(99);
            }
        }
        let mut expected = expected_half.clone();
        expected.extend(expected_half);
        assert_eq!(input_ids, &expected);
        if s == 0 {
        } else {
            // the cross-attention tensors must still be the ones of step 0
            assert_eq!(cache.encoder_keys(), &vec![101u8; LAYERS]);
            assert_eq!(cache.encoder_values(), &vec![201u8; LAYERS]);
            // the self-attention tensors are the previous step's
            assert_eq!(cache.decoder_keys(), &vec![s as u8; LAYERS]);
            assert_eq!(cache.decoder_values(), &vec![100 + s as u8; LAYERS]);
        }
        if let Some(n) = self.raise_abort_at {
            if s + 1 == n {
                self.abort.store(true, Ordering::Relaxed);
            }
        }
        self.step += 1;
        let mut rows: Vec<Vec<i64>> = Vec::new();
        for r in 0..4 {
            let mut row = vec![0i64; VOCAB];
            row[(4 * s + r) % VOCAB] = 100;
            rows.push(row);
        }
        for _ in 0..4 {
            rows.push(vec![0i64; VOCAB]);
        }
        Ok(StepOutput {
            logits: Logits::new(rows),
            decoder_keys: vec![s as u8 + 1; LAYERS],
            decoder_values: vec![100 + s as u8 + 1; LAYERS],
            encoder_keys: vec![101 + s as u8; LAYERS],
            encoder_values: vec![201 + s as u8; LAYERS],
        })
    }

    fn weights(&mut self, row: &Vec<i64>) -> Vec<u64> {
        row.iter().map(|v| if *v > 0 { *v as u64 } else { 0 }).collect()
    }

    fn zero_state(&mut self) -> u8 {
        0
    }
}

fn stub(raise_abort_at: Option<usize>, abort: &Arc<AtomicBool>) -> StubModel {
    StubModel { step: 0, raise_abort_at, abort: Arc::clone(abort) }
}

#[test]
fn decodes_max_len_steps_and_emits_de_delayed_frames() {
    let abort = Arc::new(AtomicBool::new(false));
    let mut model = stub(None, &abort);
    let mut sink = FrameLog::new();
    let (result, _, _, _) = generate_tokens(&mut model, LAYERS, 99, 5, abort.as_ref(), 6, &mut sink);
    assert!(result.is_ok());
    assert_eq!(model.step, 6);
    // six pushes, so three frames have drained out of the staircase
    assert_eq!(
        sink.collected,
        vec![vec![0, 5, 10, 15], vec![4, 9, 14, 19], vec![8, 13, 18, 23]]
    );
}

#[test]
fn short_runs_emit_nothing() {
    let abort = Arc::new(AtomicBool::new(false));
    let mut model = stub(None, &abort);
    let mut sink = FrameLog::new();
    let (result, _, _, _) = generate_tokens(&mut model, LAYERS, 99, 5, abort.as_ref(), 3, &mut sink);
    assert!(result.is_ok());
    assert_eq!(model.step, 3);
    assert!(sink.collected.is_empty());
}

#[test]
fn abort_flag_stops_before_the_first_step() {
    let abort = Arc::new(AtomicBool::new(true));
    let mut model = stub(None, &abort);
    let mut sink = FrameLog::new();
    let (result, _, _, _) = generate_tokens(&mut model, LAYERS, 99, 5, abort.as_ref(), 6, &mut sink);
    assert!(matches!(result, Err(ProcessError::Aborted)));
    assert_eq!(model.step, 0);
    assert!(sink.collected.is_empty());
}

// Cancellation latency is one step: a flag raised during step 4 is observed
// at the top of step 5, before the model runs again.
#[test]
fn abort_flag_is_observed_within_one_step() {
    let abort = Arc::new(AtomicBool::new(false));
    let mut model = stub(Some(5), &abort);
    let mut sink = FrameLog::new();
    let (result, _, _, _) = generate_tokens(&mut model, LAYERS, 99, 5, abort.as_ref(), 20, &mut sink);
    assert!(matches!(result, Err(ProcessError::Aborted)));
    assert_eq!(model.step, 5);
    // five pushes happened before the abort was observed: two frames out
    assert_eq!(sink.collected, vec![vec![0, 5, 10, 15], vec![4, 9, 14, 19]]);
}

// A consumer that hangs up ends the decode loop early without error.
#[test]
fn disconnected_consumer_ends_the_stream_without_error() {
    let abort = Arc::new(AtomicBool::new(false));
    let mut model = stub(None, &abort);
    let mut sink = BoundedFrameLog::new(2);
    let (result, _, _, _) = generate_tokens(&mut model, LAYERS, 99, 5, abort.as_ref(), 20, &mut sink);
    assert!(result.is_ok());
    assert_eq!(sink.collected, vec![vec![0, 5, 10, 15], vec![4, 9, 14, 19]]);
    // the loop stopped as soon as the hang-up was seen, long before step 20
    assert_eq!(model.step, 6);
}

// A model that answers with the wrong batch shape is a session failure.
struct RaggedModel;

impl DecoderModel<u8> for RaggedModel {
    fn forward(
        &mut self,
        _input_ids: &Vec<i64>,
        _cache: &PastKeyValues<u8>,
        _use_cache_branch: bool,
    ) -> Result<StepOutput<u8>, String> {
        Ok(StepOutput {
            logits: Logits::new(vec![vec![1, 2], vec![3, 4]]),
            decoder_keys: vec![],
            decoder_values: vec![],
            encoder_keys: vec![],
            encoder_values: vec![],
        })
    }

    fn weights(&mut self, _row: &Vec<i64>) -> Vec<u64> {
        vec![]
    }

    fn zero_state(&mut self) -> u8 {
        0
    }
}

#[test]
fn malformed_model_output_is_a_session_failure() {
    let abort = AtomicBool::new(false);
    let mut model = RaggedModel;
    let mut sink = FrameLog::new();
    let (result, _, _, _) = generate_tokens(&mut model, LAYERS, 99, 5, &abort, 6, &mut sink);
    match result {
        Err(ProcessError::Session(msg)) => assert_eq!(msg, "unexpected batch size"),
        other => panic!("expected a session failure, got {other:?}"),
    }
    assert!(sink.collected.is_empty());
}

// A model whose forward pass fails outright surfaces its message verbatim.
struct FailingModel;

impl DecoderModel<u8> for FailingModel {
    fn forward(
        &mut self,
        _input_ids: &Vec<i64>,
        _cache: &PastKeyValues<u8>,
        _use_cache_branch: bool,
    ) -> Result<StepOutput<u8>, String> {
        Err("hardware fault".to_string())
    }

    fn weights(&mut self, _row: &Vec<i64>) -> Vec<u64> {
        vec![]
    }

    fn zero_state(&mut self) -> u8 {
        0
    }
}

#[test]
fn session_errors_are_fatal_to_the_job() {
    let abort = AtomicBool::new(false);
    let mut model = FailingModel;
    let mut sink = FrameLog::new();
    let (result, _, _, _) = generate_tokens(&mut model, LAYERS, 99, 5, &abort, 6, &mut sink);
    match result {
        Err(ProcessError::Session(msg)) => assert_eq!(msg, "hardware fault"),
        other => panic!("expected a session failure, got {other:?}"),
    }
}
