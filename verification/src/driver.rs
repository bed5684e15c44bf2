//! The outer refresh loop's decisions: read the bank selector once at the
//! top of each frame, then scan the frame that bank names.
//!
//! The selector is re-read only between full frames, so a bank change issued
//! while a frame is being scanned defers to the next frame. That deferral is
//! deliberate: it is what keeps a frame free of tearing.

use vstd::prelude::*;
use crate::bank::BankSelector;
use crate::frame::Frame;
use crate::scan::{frame_writes, scan_frame, Action};

verus! {

/// Emits one full frame scan of the image the selector currently names.
/// This is the body of one outer-loop iteration: the bank is read exactly
/// once, at the top, and the whole scan is computed from that one read.
pub fn scan_active(frames: &Vec<Frame>, sel: &BankSelector) -> (acts: Vec<Action>)
    requires
        sel.wf(),
        frames.len() == 4,
        forall|b: int| 0 <= b < 4 ==> (#[trigger] frames[b]).wf(),
    ensures
        acts@ == frame_writes(frames[sel.bank()].pixels()),
{
    let bank = sel.read();
    scan_frame(&frames[bank as usize])
}

/// The pixel regions of a bank of stored frames, in bank order.
pub open spec fn pixel_regions(frames: Seq<Frame>) -> Seq<Seq<u8>> {
    frames.map(|i: int, f: Frame| f.pixels())
}

/// The writes of a whole driver session: one full frame scan per entry of
/// `banks`, where `banks[i]` is the selector value read at the top of scan
/// `i` and `frames[banks[i]]` is the pixel region it names.
pub open spec fn session_writes(frames: Seq<Seq<u8>>, banks: Seq<int>) -> Seq<Action>
    decreases banks.len(),
{
    if banks.len() == 0 {
        Seq::empty()
    } else {
        session_writes(frames, banks.drop_last()) + frame_writes(frames[banks.last()])
    }
}

/// Replays a finite stretch of the outer refresh loop: `banks[i]` is the
/// selector value read at the top of iteration `i`, and the result is the
/// concatenation of the frame scans those reads select.
pub fn scan_session(frames: &Vec<Frame>, banks: &Vec<u8>) -> (acts: Vec<Action>)
    requires
        frames.len() == 4,
        forall|b: int| 0 <= b < 4 ==> (#[trigger] frames[b]).wf(),
        forall|i: int| 0 <= i < banks.len() ==> banks[i] < 4,
    ensures
        acts@ == session_writes(pixel_regions(frames@), banks@.map(|i: int, b: u8| b as int)),
{
    let ghost regions = pixel_regions(frames@);
    let ghost hist = banks@.map(|i: int, b: u8| b as int);
    let mut acts: Vec<Action> = Vec::new();
    let mut i: usize = 0;
    while i < banks.len()
        invariant
            frames.len() == 4,
            forall|b: int| 0 <= b < 4 ==> (#[trigger] frames[b]).wf(),
            forall|k: int| 0 <= k < banks.len() ==> banks[k] < 4,
            regions == pixel_regions(frames@),
            hist == banks@.map(|k: int, b: u8| b as int),
            i <= banks.len(),
            acts@ == session_writes(regions, hist.take(i as int)),
        decreases banks.len() - i,
    {
        let b = banks[i];
        let mut f = scan_frame(&frames[b as usize]);
        acts.append(&mut f);
        proof {
            let upto = hist.take(i + 1);
            assert(upto.drop_last() =~= hist.take(i as int));
            assert(upto.last() == b as int);
            assert(regions[b as int] == frames@[b as int].pixels());
        }
        i += 1;
    }
    proof {
        assert(hist.take(banks.len() as int) =~= hist);
    }
    acts
}

/// A bank change lands only at a frame boundary: the writes of scan `i` are
/// exactly the scan of the bank read at its top, so a change issued mid-frame
/// touches neither the row being scanned nor any remaining row of that frame;
/// it is observed from the top of the next frame on.
pub proof fn lemma_bank_change_deferred(frames: Seq<Seq<u8>>, banks: Seq<int>, i: int)
    requires
        0 <= i < banks.len(),
    ensures
        session_writes(frames, banks).len() == 4240 * banks.len(),
        session_writes(frames, banks).subrange(4240 * i, 4240 * (i + 1)) == frame_writes(
            frames[banks[i]],
        ),
    decreases banks.len(),
{
    let s = session_writes(frames, banks);
    let pre = session_writes(frames, banks.drop_last());
    let last = frame_writes(frames[banks.last()]);
    lemma_session_writes_len(frames, banks);
    lemma_session_writes_len(frames, banks.drop_last());
    if i == banks.len() - 1 {
        assert(s.subrange(4240 * i, 4240 * (i + 1)) =~= last);
    } else {
        lemma_bank_change_deferred(frames, banks.drop_last(), i);
        assert(s.subrange(4240 * i, 4240 * (i + 1)) =~= pre.subrange(4240 * i, 4240 * (i + 1)));
    }
}

/// Each frame scan contributes the same fixed number of writes to a session.
proof fn lemma_session_writes_len(frames: Seq<Seq<u8>>, banks: Seq<int>)
    ensures
        session_writes(frames, banks).len() == 4240 * banks.len(),
    decreases banks.len(),
{
    if banks.len() > 0 {
        lemma_session_writes_len(frames, banks.drop_last());
    }
}

/// Two selector histories that agree on the value read at the top of scan
/// `i` emit identical writes for the whole of scan `i`, however they differ
/// before or after: a mid-frame change is invisible within the frame.
pub proof fn lemma_mid_frame_change_invisible(
    frames: Seq<Seq<u8>>,
    banks1: Seq<int>,
    banks2: Seq<int>,
    i: int,
)
    requires
        0 <= i < banks1.len(),
        0 <= i < banks2.len(),
        banks1[i] == banks2[i],
    ensures
        session_writes(frames, banks1).subrange(4240 * i, 4240 * (i + 1)) == session_writes(
            frames,
            banks2,
        ).subrange(4240 * i, 4240 * (i + 1)),
{
    lemma_bank_change_deferred(frames, banks1, i);
    lemma_bank_change_deferred(frames, banks2, i);
}

} // verus!
