//! Choosing the input device and what the HUD says when it goes away.
use vstd::prelude::*;

verus! {

/// The device to record from: the first whose name is `wanted`, or `None`
/// for the system default (nothing asked for, or no device of that name).
pub fn select_input_device(names: &Vec<String>, wanted: Option<&str>) -> (r: Option<usize>)
    ensures
        match r {
            Some(k) => wanted matches Some(w) && k < names.len() && names@[k as int]@ == w@
                && forall|j: int| 0 <= j < k ==> (#[trigger] names@[j])@ != w@,
            None => wanted matches Some(w) ==> forall|j: int| 0 <= j < names.len() ==> (#[trigger] names@[j])@ != w@,
        },
{
    let w = match wanted {
        Some(w) => w,
        None => return None,
    };
    let mut k: usize = 0;
    while k < names.len()
        invariant
            k <= names.len(),
            wanted == Some(w),
            forall|j: int| 0 <= j < k ==> (#[trigger] names@[j])@ != w@,
        decreases names.len() - k,
    {
        if crate::text::same_chars(names[k].as_str(), w) {
            return Some(k);
        }
        k = k + 1;
    }
    None
}

/// Shown while a lost input stream is being rebuilt.
pub const MIC_RECONNECTING: &'static str = "⚠ Mic disconnected — reconnecting…";

/// Shown once the stream is back.
pub const MIC_RECONNECTED: &'static str = "✓ Mic reconnected";

/// Shown when no input device could be opened.
pub const MIC_UNAVAILABLE: &'static str = "⚠ Mic unavailable — no audio being captured";

/// Samples of an interleaved capture buffer that form whole frames: a frame
/// is never split between two drains. `channels` of 0 counts as mono.
pub fn whole_frame_samples(len: usize, channels: usize) -> (r: usize)
    ensures
        channels == 0 ==> r == len,
        channels > 0 ==> r == len - len % channels,
        r <= len,
{
    let c = if channels == 0 {
        1
    } else {
        channels
    };
    let rem = len % c;
    assert(rem <= len) by (nonlinear_arith)
        requires
            rem == len % c,
            c > 0,
    ;
    len - rem
}

} // verus!
