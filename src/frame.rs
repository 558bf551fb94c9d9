//! Interleaving of stereo samples into a device frame.
use vstd::prelude::*;

verus! {

/// Fills one frame of an interleaved output buffer: even channels get the
/// left sample, odd channels the right one.
pub fn write_frame<T: Copy>(frame: &mut [T], left: T, right: T)
    ensures
        final(frame)@.len() == old(frame)@.len(),
        forall|i: int| 0 <= i < final(frame)@.len() ==> #[trigger] final(frame)@[i] == if i % 2 == 0 { left } else { right },
{
    let n = frame.len();
    let mut i: usize = 0;
    while i < n
        invariant
            i <= n,
            n == frame@.len(),
            forall|j: int| 0 <= j < i ==> #[trigger] frame@[j] == if j % 2 == 0 { left } else { right },
        decreases n - i,
    {
        if i % 2 == 0 {
            frame[i] = left;
        } else {
            frame[i] = right;
        }
        i = i + 1;
    }
}

} // verus!
