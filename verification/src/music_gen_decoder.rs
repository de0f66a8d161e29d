//! The autoregressive decode loop.
//!
//! Each step feeds the staggered token view back into the model, applies
//! classifier-free guidance to the returned scores, samples one token per
//! codebook, and extracts the updated attention cache — replacing the
//! cross-attention tensors only on the very first step. A fully resolved
//! frame is emitted downstream once the delay staircase has drained.
//!
//! The cancellation flag is polled exactly once per step, at the top,
//! before the model is invoked: observing it ends the stream with the
//! distinguished `Aborted` error within one step. The loop otherwise runs
//! exactly `max_len` steps, or stops early without error when the consumer
//! disconnects.

use vstd::prelude::*;

use crate::audio_generation_backend::ProcessError;
use crate::delay_pattern_mask_ids::DelayedPatternMaskIds;
use crate::logits::Logits;
use crate::past_key_values::PastKeyValues;
use crate::sampler::sample_row;
use std::sync::atomic::AtomicBool;
use std::sync::atomic::Ordering;

verus! {

/// Number of parallel codebooks produced per step.
pub const NUM_CODEBOOKS: usize = 4;

/// Guidance scale applied to every step's scores.
pub const GUIDANCE_SCALE: usize = 3;

/// What one model invocation returns: the score matrix over the doubled
/// batch and the freshly computed attention tensors of every layer.
pub struct StepOutput<T> {
    pub logits: Logits,
    pub decoder_keys: Vec<T>,
    pub decoder_values: Vec<T>,
    pub encoder_keys: Vec<T>,
    pub encoder_values: Vec<T>,
}

/// The neural capability driven by the decode loop: one forward pass, the
/// weighting of a score row for sampling, and fresh zero-sized tensors for
/// the initial cache. Nothing is promised of any of them — the loop checks
/// the shape of whatever comes back and treats a malformed answer as a
/// session failure.
pub trait DecoderModel<T> {
    /// Run the network once on the staggered input tokens and the current
    /// cache. `use_cache_branch` is false exactly on the first call of a
    /// generation: that is the one call on which the implementation feeds
    /// the encoder hidden states to the session (they are omitted
    /// afterwards) and on which the session's cross-attention answer is
    /// worth keeping.
    fn forward(
        &mut self,
        input_ids: &Vec<i64>,
        cache: &PastKeyValues<T>,
        use_cache_branch: bool,
    ) -> Result<StepOutput<T>, String>;

    /// Nonnegative sampling weights for one guided score row, monotone in
    /// the score (the real pipeline uses the row's softmax probabilities).
    fn weights(&mut self, row: &Vec<i64>) -> Vec<u64>;

    /// A fresh tensor of sequence length zero, used to prime the cache.
    fn zero_state(&mut self) -> T;
}

/// Where fully resolved frames go: a channel to the consumer in the running
/// service, a plain buffer in tests. `emit` reports whether the consumer is
/// still listening; once it is gone the frame is dropped and the decode
/// loop winds down without error.
pub trait FrameSink {
    spec fn frames(&self) -> Seq<Seq<i64>>;

    spec fn alive(&self) -> bool;

    fn emit(&mut self, frame: Vec<i64>) -> (ok: bool)
        ensures
            ok == final(self).alive(),
            final(self).alive() ==> final(self).frames() == old(self).frames().push(frame@),
            !final(self).alive() ==> final(self).frames() == old(self).frames(),
    ;
}

/// A frame sink that keeps everything: the verified recorder used by the
/// synchronous pipeline and by tests.
pub struct FrameLog {
    pub collected: Vec<Vec<i64>>,
}

impl FrameLog {
    pub fn new() -> (r: Self)
        ensures
            r.frames() == Seq::<Seq<i64>>::empty(),
            r.alive(),
    {
        let r = FrameLog { collected: Vec::new() };
        proof {
            assert(r.frames() =~= Seq::<Seq<i64>>::empty());
        }
        r
    }
}

impl FrameSink for FrameLog {
    closed spec fn frames(&self) -> Seq<Seq<i64>> {
        Seq::new(self.collected@.len(), |k: int| self.collected@[k]@)
    }

    closed spec fn alive(&self) -> bool {
        true
    }

    fn emit(&mut self, frame: Vec<i64>) -> (ok: bool)
        ensures
            ok == final(self).alive(),
            final(self).alive() ==> final(self).frames() == old(self).frames().push(frame@),
            !final(self).alive() ==> final(self).frames() == old(self).frames(),
    {
        let ghost f0 = self.frames();
        let ghost fv = frame@;
        self.collected.push(frame);
        proof {
            assert(self.frames() =~= f0.push(fv));
        }
        true
    }
}

/// A frame sink whose consumer disconnects after accepting a fixed number
/// of frames — the overflowing frame is lost, as it is on a channel whose
/// receiver is gone. It lets tests drive the early-exit path of the decode
/// loop.
pub struct BoundedFrameLog {
    pub collected: Vec<Vec<i64>>,
    pub capacity: usize,
    dead: bool,
}

impl BoundedFrameLog {
    pub fn new(capacity: usize) -> (r: Self)
        ensures
            r.frames() == Seq::<Seq<i64>>::empty(),
            r.alive(),
    {
        let r = BoundedFrameLog { collected: Vec::new(), capacity, dead: false };
        proof {
            assert(r.frames() =~= Seq::<Seq<i64>>::empty());
        }
        r
    }
}

impl FrameSink for BoundedFrameLog {
    closed spec fn frames(&self) -> Seq<Seq<i64>> {
        Seq::new(self.collected@.len(), |k: int| self.collected@[k]@)
    }

    closed spec fn alive(&self) -> bool {
        !self.dead
    }

    fn emit(&mut self, frame: Vec<i64>) -> (ok: bool)
        ensures
            ok == final(self).alive(),
            final(self).alive() ==> final(self).frames() == old(self).frames().push(frame@),
            !final(self).alive() ==> final(self).frames() == old(self).frames(),
    {
        let ghost f0 = self.frames();
        let ghost fv = frame@;
        if self.dead {
            false
        } else if self.collected.len() < self.capacity {
            self.collected.push(frame);
            proof {
                assert(self.frames() =~= f0.push(fv));
            }
            true
        } else {
            self.dead = true;
            false
        }
    }
}

/// The staggered input view of a token history: the newest token of each
/// codebook whose delayed stream has started, the pad sentinel for the
/// rest. This is `DelayedPatternMaskIds::last_delayed_masked` as a value.
pub open spec fn staggered_view(h: Seq<Seq<i64>>, pad: i64) -> Seq<i64> {
    Seq::new(
        NUM_CODEBOOKS as nat,
        |i: int|
            if i < h.len() {
                h.last()[i]
            } else {
                pad
            },
    )
}

/// The exact model input of the step that follows the pushes in `h`: the
/// staggered view duplicated along the batch axis, for the conditional and
/// unconditional halves of the doubled batch.
pub open spec fn model_input(h: Seq<Seq<i64>>, pad: i64) -> Seq<i64> {
    staggered_view(h, pad) + staggered_view(h, pad)
}

/// Build the next step's model input from the token history: the staggered
/// view, duplicated.
pub fn next_model_input(seq: &DelayedPatternMaskIds<NUM_CODEBOOKS>, pad_token_id: i64) -> (r: Vec<
    i64,
>)
    requires
        seq.wf(),
    ensures
        r@ == model_input(seq.history(), pad_token_id),
{
    let staggered = seq.last_delayed_masked(pad_token_id);
    proof {
        assert(staggered@ =~= staggered_view(seq.history(), pad_token_id));
    }
    let mut input_ids: Vec<i64> = Vec::new();
    let mut i: usize = 0;
    while i < 4
        invariant
            staggered@.len() == 4,
            i <= 4,
            input_ids@ == staggered@.take(i as int),
        decreases 4 - i,
    {
        input_ids.push(staggered[i]);
        proof {
            assert(input_ids@ =~= staggered@.take(i as int + 1));
        }
        i = i + 1;
    }
    proof {
        assert(input_ids@ =~= staggered@ + staggered@.take(0));
    }
    let mut i2: usize = 0;
    while i2 < 4
        invariant
            staggered@.len() == 4,
            i2 <= 4,
            input_ids@ == staggered@ + staggered@.take(i2 as int),
        decreases 4 - i2,
    {
        input_ids.push(staggered[i2]);
        proof {
            assert(input_ids@ =~= staggered@ + staggered@.take(i2 as int + 1));
        }
        i2 = i2 + 1;
    }
    proof {
        assert(input_ids@ =~= model_input(seq.history(), pad_token_id));
    }
    input_ids
}

/// The frames that have fully drained out of the delay staircase after the
/// pushes in `h`: one frame per push from the `n`-th one on, whose
/// codebook-`i` entry is the token pushed for codebook `i` at step
/// `j + i`.
pub open spec fn de_delayed_frames(h: Seq<Seq<i64>>, n: int) -> Seq<Seq<i64>> {
    Seq::new(
        if h.len() >= n {
            (h.len() - n + 1) as nat
        } else {
            0nat
        },
        |j: int| Seq::new(n as nat, |i: int| h[j + i][i]),
    )
}

/// All frames the sink holds once the loop is done, given the final token
/// history `h`: everything that drained out of the staircase, except that
/// the newest frame is lost when the consumer disconnected on it.
pub open spec fn emitted_frames(h: Seq<Seq<i64>>, sink_alive: bool) -> Seq<Seq<i64>> {
    let de = de_delayed_frames(h, NUM_CODEBOOKS as int);
    if sink_alive {
        de
    } else {
        de.take(if de.len() > 0 {
            de.len() - 1
        } else {
            0
        })
    }
}

/// What the decode loop handed to one model invocation: the token input,
/// the cache-branch flag, and the four cached attention tensor sequences.
pub ghost struct DecoderCall<T> {
    pub input_ids: Seq<i64>,
    pub use_cache_branch: bool,
    pub decoder_keys: Seq<T>,
    pub decoder_values: Seq<T>,
    pub encoder_keys: Seq<T>,
    pub encoder_values: Seq<T>,
}

/// The four attention tensor sequences one model invocation returned.
pub ghost struct DecoderPresent<T> {
    pub decoder_keys: Seq<T>,
    pub decoder_values: Seq<T>,
    pub encoder_keys: Seq<T>,
    pub encoder_values: Seq<T>,
}

/// The decode loop. Runs up to `max_len` steps against the model; each step
/// polls the cancellation flag first (observing it raises `Aborted` within
/// one step, before the model is invoked again), runs one forward pass,
/// applies guidance, samples one token per codebook, emits the newly
/// resolved frame downstream, and absorbs the fresh attention tensors into
/// the cache — the cross-attention pair only on the very first step.
///
/// A malformed model answer (wrong batch shape, scores out of range, no
/// positive sampling weight) is a session failure. A consumer that hangs up
/// ends the loop early without error.
///
/// Returns three ghost values beside the result: the pushed token history,
/// the log of the calls made (one entry per `forward` invocation), and the
/// log of the attention tensors each answered call returned. The call log
/// pins the whole interaction with the model:
/// - call `s` is fed exactly the duplicated staggered view of the history's
///   first `s` frames — the decoder's own feedback, never anything else;
/// - call 0 carries `use_cache_branch == false` and the freshly primed
///   cache of one zero tensor per layer and role (which is also how the
///   model knows to consume the encoder hidden states on that call alone);
///   every later call carries `use_cache_branch == true`;
/// - every later call's self-attention cache is exactly what the previous
///   call returned, and its cross-attention cache is exactly what call 0
///   returned — frozen, never overwritten by the repeats of later answers.
///
/// On success the sink gained exactly the de-staggered frames of the
/// history, and all `max_len` steps ran unless the consumer hung up; the
/// call log outruns the history and the answer log by one entry exactly
/// when a step's model answer was the failure.
pub fn generate_tokens<T, M: DecoderModel<T>, F: FrameSink>(
    model: &mut M,
    num_hidden_layers: usize,
    pad_token_id: i64,
    top_k: usize,
    abort: &AtomicBool,
    max_len: usize,
    sink: &mut F,
) -> (r: (
    Result<(), ProcessError>,
    Ghost<Seq<Seq<i64>>>,
    Ghost<Seq<DecoderCall<T>>>,
    Ghost<Seq<DecoderPresent<T>>>,
))
    requires
        top_k >= 1,
    ensures
        r.1@.len() <= max_len,
        r.0 is Ok ==> final(sink).frames() == old(sink).frames() + emitted_frames(
            r.1@,
            final(sink).alive(),
        ),
        r.0 is Ok && final(sink).alive() ==> r.1@.len() == max_len,
        r.0 is Err ==> (final(sink).alive() ==> final(sink).frames() == old(sink).frames()
            + de_delayed_frames(r.1@, NUM_CODEBOOKS as int)),
        r.1@.len() <= r.2@.len() <= r.1@.len() + 1,
        r.3@.len() <= r.2@.len() <= r.3@.len() + 1,
        forall|s: int|
            0 <= s < r.2@.len() ==> {
                let call = #[trigger] r.2@[s];
                &&& call.input_ids == model_input(r.1@.take(s), pad_token_id)
                &&& call.use_cache_branch == (s > 0)
                &&& s > 0 ==> call.decoder_keys == r.3@[s - 1].decoder_keys
                    && call.decoder_values == r.3@[s - 1].decoder_values
                    && call.encoder_keys == r.3@[0].encoder_keys
                    && call.encoder_values == r.3@[0].encoder_values
            },
        r.2@.len() > 0 ==> r.2@[0].decoder_keys.len() == num_hidden_layers
            && r.2@[0].decoder_values.len() == num_hidden_layers
            && r.2@[0].encoder_keys.len() == num_hidden_layers
            && r.2@[0].encoder_values.len() == num_hidden_layers,
        r.0 is Ok ==> r.2@.len() == r.1@.len() && r.3@.len() == r.2@.len(),
        r.0 matches Err(ProcessError::Aborted) ==> r.2@.len() == r.1@.len() && r.3@.len()
            == r.2@.len(),
        r.0 matches Err(ProcessError::Session(m)) ==> r.2@.len() == r.1@.len() + 1
            && r.1@.len() < max_len,
{
    let mut seq = DelayedPatternMaskIds::<NUM_CODEBOOKS>::new();
    let mut decoder_keys: Vec<T> = Vec::new();
    let mut decoder_values: Vec<T> = Vec::new();
    let mut encoder_keys: Vec<T> = Vec::new();
    let mut encoder_values: Vec<T> = Vec::new();
    let mut l: usize = 0;
    while l < num_hidden_layers
        invariant
            decoder_keys@.len() == l as int,
            decoder_values@.len() == l as int,
            encoder_keys@.len() == l as int,
            encoder_values@.len() == l as int,
            l <= num_hidden_layers,
        decreases num_hidden_layers - l,
    {
        decoder_keys.push(model.zero_state());
        decoder_values.push(model.zero_state());
        encoder_keys.push(model.zero_state());
        encoder_values.push(model.zero_state());
        l = l + 1;
    }
    let mut cache = PastKeyValues::new(decoder_keys, decoder_values, encoder_keys, encoder_values);
    let ghost mut calls_log: Seq<DecoderCall<T>> = Seq::empty();
    let ghost mut answers_log: Seq<DecoderPresent<T>> = Seq::empty();
    let mut use_cache_branch = false;
    let mut disconnected = false;
    let mut step: usize = 0;
    while step < max_len && !disconnected
        invariant
            top_k >= 1,
            seq.wf(),
            seq.history().len() == step as int,
            step <= max_len,
            !disconnected ==> use_cache_branch == (step > 0),
            !disconnected ==> sink.frames() == old(sink).frames() + de_delayed_frames(
                seq.history(),
                4,
            ),
            !disconnected && de_delayed_frames(seq.history(), 4).len() > 0 ==> sink.alive(),
            disconnected ==> !sink.alive() && sink.frames() == old(sink).frames()
                + emitted_frames(seq.history(), false),
            calls_log.len() == step as int,
            answers_log.len() == step as int,
            forall|s: int|
                0 <= s < step as int ==> {
                    let call = #[trigger] calls_log[s];
                    &&& call.input_ids == model_input(seq.history().take(s), pad_token_id)
                    &&& call.use_cache_branch == (s > 0)
                    &&& s > 0 ==> call.decoder_keys == answers_log[s - 1].decoder_keys
                        && call.decoder_values == answers_log[s - 1].decoder_values
                        && call.encoder_keys == answers_log[0].encoder_keys
                        && call.encoder_values == answers_log[0].encoder_values
                },
            calls_log.len() > 0 ==> calls_log[0].decoder_keys.len() == num_hidden_layers
                && calls_log[0].decoder_values.len() == num_hidden_layers
                && calls_log[0].encoder_keys.len() == num_hidden_layers
                && calls_log[0].encoder_values.len() == num_hidden_layers,
            step == 0 ==> cache.spec_decoder_keys().len() == num_hidden_layers
                && cache.spec_decoder_values().len() == num_hidden_layers
                && cache.spec_encoder_keys().len() == num_hidden_layers
                && cache.spec_encoder_values().len() == num_hidden_layers,
            !disconnected && step > 0 ==> cache.spec_decoder_keys() == answers_log[step
                - 1].decoder_keys && cache.spec_decoder_values() == answers_log[step
                - 1].decoder_values && cache.spec_encoder_keys() == answers_log[0].encoder_keys
                && cache.spec_encoder_values() == answers_log[0].encoder_values,
        decreases max_len - step,
    {
        if abort.load(Ordering::Relaxed) {
            return (
                Err(ProcessError::Aborted),
                Ghost(seq.history()),
                Ghost(calls_log),
                Ghost(answers_log),
            );
        }
        // The staggered view, duplicated along the batch axis for the
        // conditional + unconditional halves: the only thing the model is
        // ever fed. The call log records it together with the flag and the
        // cache tensors handed over.
        let input_ids = next_model_input(&seq, pad_token_id);
        proof {
            assert(seq.history().take(step as int) =~= seq.history());
            calls_log = calls_log.push(
                DecoderCall {
                    input_ids: input_ids@,
                    use_cache_branch: use_cache_branch,
                    decoder_keys: cache.spec_decoder_keys(),
                    decoder_values: cache.spec_decoder_values(),
                    encoder_keys: cache.spec_encoder_keys(),
                    encoder_values: cache.spec_encoder_values(),
                },
            );
        }
        let out = match model.forward(&input_ids, &cache, use_cache_branch) {
            Ok(o) => o,
            Err(e) => {
                return (
                    Err(ProcessError::Session(e)),
                    Ghost(seq.history()),
                    Ghost(calls_log),
                    Ghost(answers_log),
                );
            },
        };
        let StepOutput {
            logits,
            decoder_keys: new_dk,
            decoder_values: new_dv,
            encoder_keys: new_ek,
            encoder_values: new_ev,
        } = out;
        proof {
            answers_log = answers_log.push(
                DecoderPresent {
                    decoder_keys: new_dk@,
                    decoder_values: new_dv@,
                    encoder_keys: new_ek@,
                    encoder_values: new_ev@,
                },
            );
        }
        if !logits.is_rectangular() {
            return (
                Err(ProcessError::Session(String::from_str("ragged score matrix"))),
                Ghost(seq.history()),
                Ghost(calls_log),
                Ghost(answers_log),
            );
        }
        if logits.num_rows() != 8 {
            return (
                Err(ProcessError::Session(String::from_str("unexpected batch size"))),
                Ghost(seq.history()),
                Ghost(calls_log),
                Ghost(answers_log),
            );
        }
        if !logits.check_bounded() {
            return (
                Err(ProcessError::Session(String::from_str("scores out of range"))),
                Ghost(seq.history()),
                Ghost(calls_log),
                Ghost(answers_log),
            );
        }
        let guided = logits.apply_free_guidance(GUIDANCE_SCALE);
        let mut tokens: Vec<i64> = Vec::new();
        let mut row_i: usize = 0;
        while row_i < 4
            invariant
                top_k >= 1,
                guided.view_rows().len() == 4,
                row_i <= 4,
                tokens@.len() == row_i,
                seq.wf(),
                seq.history().len() == step as int,
                step < max_len,
                sink.frames() == old(sink).frames() + de_delayed_frames(seq.history(), 4),
                calls_log.len() == step as int + 1,
                answers_log.len() == step as int + 1,
                forall|s: int|
                    0 <= s < step as int + 1 ==> {
                        let call = #[trigger] calls_log[s];
                        &&& call.input_ids == model_input(seq.history().take(s), pad_token_id)
                        &&& call.use_cache_branch == (s > 0)
                        &&& s > 0 ==> call.decoder_keys == answers_log[s - 1].decoder_keys
                            && call.decoder_values == answers_log[s - 1].decoder_values
                            && call.encoder_keys == answers_log[0].encoder_keys
                            && call.encoder_values == answers_log[0].encoder_values
                    },
                calls_log[0].decoder_keys.len() == num_hidden_layers,
                calls_log[0].decoder_values.len() == num_hidden_layers,
                calls_log[0].encoder_keys.len() == num_hidden_layers,
                calls_log[0].encoder_values.len() == num_hidden_layers,
            decreases 4 - row_i,
        {
            let row = guided.row(row_i);
            let w = model.weights(row);
            if w.len() == 0 || w.len() > 2147483647 {
                return (
                    Err(ProcessError::Session(String::from_str("bad weight row"))),
                    Ghost(seq.history()),
                    Ghost(calls_log),
                    Ghost(answers_log),
                );
            }
            let n = w.len();
            let mut has_pos = false;
            let mut j: usize = 0;
            while j < n
                invariant
                    n == w@.len(),
                    j <= n,
                    has_pos <==> exists|q: int| 0 <= q < j && w@[q] > 0,
                decreases n - j,
            {
                if w[j] > 0 {
                    has_pos = true;
                }
                j = j + 1;
            }
            if !has_pos {
                return (
                    Err(ProcessError::Session(String::from_str("all weights zero"))),
                    Ghost(seq.history()),
                    Ghost(calls_log),
                    Ghost(answers_log),
                );
            }
            let (idx, _weight) = sample_row(&w, top_k);
            tokens.push(idx as i64);
            row_i = row_i + 1;
        }
        let ghost h0 = seq.history();
        seq.push(tokens);
        proof {
            lemma_de_delayed_push(h0, seq.history());
            assert forall|s: int| 0 <= s <= step as int implies seq.history().take(s) =~= h0.take(
                s,
            ) by {}
        }
        match seq.last_de_delayed() {
            Some(frame) => {
                let ghost fv = frame@;
                let ok = sink.emit(frame);
                proof {
                    let de1 = de_delayed_frames(seq.history(), 4);
                    assert(fv =~= de1.last());
                    if ok {
                        assert(sink.frames() =~= old(sink).frames() + de1);
                    } else {
                        assert(de1.take(de1.len() - 1) =~= de_delayed_frames(h0, 4));
                        assert(sink.frames() =~= old(sink).frames() + emitted_frames(
                            seq.history(),
                            false,
                        ));
                    }
                }
                if !ok {
                    disconnected = true;
                }
            },
            None => {
                proof {
                    assert(sink.frames() =~= old(sink).frames() + de_delayed_frames(
                        seq.history(),
                        4,
                    ));
                }
            },
        }
        if !disconnected {
            cache.update_step(new_dk, new_dv, new_ek, new_ev, use_cache_branch);
            use_cache_branch = true;
        }
        step = step + 1;
    }
    (Ok(()), Ghost(seq.history()), Ghost(calls_log), Ghost(answers_log))
}

/// Pushing one frame extends the de-staggered view by at most one frame:
/// the one that just finished draining, if any.
proof fn lemma_de_delayed_push(h0: Seq<Seq<i64>>, h1: Seq<Seq<i64>>)
    requires
        h1.len() == h0.len() + 1,
        forall|k: int| 0 <= k < h0.len() ==> h1[k] == h0[k],
    ensures
        h1.len() < 4 ==> de_delayed_frames(h1, 4) == de_delayed_frames(h0, 4),
        h1.len() >= 4 ==> de_delayed_frames(h1, 4) == de_delayed_frames(h0, 4).push(
            de_delayed_frames(h1, 4).last(),
        ),
{
    if h1.len() < 4 {
        assert(de_delayed_frames(h1, 4) =~= de_delayed_frames(h0, 4));
    } else {
        assert forall|j: int|
            0 <= j < de_delayed_frames(h0, 4).len() implies de_delayed_frames(h1, 4)[j]
            == de_delayed_frames(h0, 4)[j] by {
            assert(de_delayed_frames(h1, 4)[j] =~= de_delayed_frames(h0, 4)[j]);
        }
        assert(de_delayed_frames(h1, 4) =~= de_delayed_frames(h0, 4).push(
            de_delayed_frames(h1, 4).last(),
        ));
    }
}

} // verus!
