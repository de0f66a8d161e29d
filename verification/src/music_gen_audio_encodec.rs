//! Audio-codec input preparation.
//!
//! The audio model consumes the *entire* finished token stream at once — it
//! is stateful across the sequence, so partial encoding is not possible.
//! The decoded frames arrive time-major (one frame of `n` codebook tokens
//! per step) and the model expects them channel-major: codebook `c`'s whole
//! stream, then codebook `c + 1`'s, and so on. The session call itself and
//! the float sample extraction happen outside the verified core.

use vstd::prelude::*;

verus! {

/// Flatten time-major frames into the channel-major layout the audio model
/// expects: entry `c * T + t` of the result is codebook `c`'s token at step
/// `t`.
pub fn frames_to_channel_major(frames: &Vec<Vec<i64>>, n: usize) -> (r: Vec<i64>)
    requires
        forall|k: int| 0 <= k < frames@.len() ==> (#[trigger] frames@[k])@.len() == n as int,
    ensures
        r@.len() == n as int * frames@.len(),
        forall|c: int, t: int|
            0 <= c < n as int && 0 <= t < frames@.len() ==> r@[c * frames@.len() + t]
                == frames@[t]@[c],
{
    let steps = frames.len();
    let mut r: Vec<i64> = Vec::new();
    let mut c: usize = 0;
    while c < n
        invariant
            forall|k: int|
                0 <= k < frames@.len() ==> (#[trigger] frames@[k])@.len() == n as int,
            steps == frames@.len(),
            c <= n,
            r@.len() == c as int * steps as int,
            forall|cc: int, tt: int|
                0 <= cc < c as int && 0 <= tt < steps as int ==> r@[cc * steps as int + tt]
                    == frames@[tt]@[cc],
        decreases n - c,
    {
        let mut t: usize = 0;
        while t < steps
            invariant
                forall|k: int|
                    0 <= k < frames@.len() ==> (#[trigger] frames@[k])@.len() == n as int,
                steps == frames@.len(),
                c < n,
                t <= steps,
                r@.len() == c as int * steps as int + t as int,
                forall|cc: int, tt: int|
                    0 <= cc < c as int && 0 <= tt < steps as int ==> r@[cc * steps as int + tt]
                        == frames@[tt]@[cc],
                forall|tt: int|
                    0 <= tt < t as int ==> r@[c as int * steps as int + tt]
                        == frames@[tt]@[c as int],
            decreases steps - t,
        {
            r.push(frames[t][c]);
            proof {
                assert forall|cc: int, tt: int|
                    0 <= cc < c as int && 0 <= tt < steps as int implies #[trigger] r@[cc
                    * steps as int + tt] == frames@[tt]@[cc] by {
                    assert(cc * steps as int + tt < c as int * steps as int) by (nonlinear_arith)
                        requires
                            0 <= cc,
                            cc < c as int,
                            0 <= tt,
                            tt < steps as int,
                    ;
                }
            }
            t = t + 1;
        }
        proof {
            assert((c as int + 1) * steps as int == c as int * steps as int + steps as int)
                by (nonlinear_arith);
        }
        c = c + 1;
    }
    r
}

} // verus!
