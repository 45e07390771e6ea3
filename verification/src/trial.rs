//! The trial loop's computational side: the fixed size sequence, the
//! per-trial buffer contents, and the bookkeeping of a fixed-count loop of
//! timed trials. The caller performs each write and flush, times it, and
//! hands the measurement back as a plain duration.

use vstd::prelude::*;

use rand::Rng;

use crate::duration::TrialDuration;
use crate::stats::all_wf;

verus! {

/// The byte value of ASCII `'A'`, the base of every trial buffer's contents.
pub const ASCII_A: u8 = 0x41;

/// Number of timed trials run for each payload size.
pub const TRIAL_COUNT: u8 = 100;

/// The fixed sequence of payload sizes, in bytes, in run order.
pub open spec fn sizes_spec() -> Seq<usize> {
    seq![
        8usize,
        128usize,
        256usize,
        512usize,
        1024usize,
        2048usize,
        4096usize,
        8194usize,
        16384usize,
        32768usize,
    ]
}

/// The payload sizes tried on every run, in order.
pub fn trial_sizes() -> (v: Vec<usize>)
    ensures
        v@ == sizes_spec(),
{
    let mut v: Vec<usize> = Vec::new();
    v.push(8);
    v.push(128);
    v.push(256);
    v.push(512);
    v.push(1024);
    v.push(2048);
    v.push(4096);
    v.push(8194);
    v.push(16384);
    v.push(32768);
    proof {
        assert(v@ =~= sizes_spec());
    }
    v
}

/// The byte every position of a trial's buffer holds: `b'A'` masked by the
/// integer drawn for the trial.
pub open spec fn buffer_byte(r: u8) -> u8 {
    ASCII_A & r
}

/// The whole buffer holds the byte belonging to the drawn integer `r`.
pub open spec fn filled_with(buf: Seq<u8>, r: u8) -> bool {
    forall|j: int| 0 <= j < buf.len() ==> buf[j] == buffer_byte(r)
}

/// Relies on `rand::thread_rng` and `rand::Rng::gen_range`: a sample drawn
/// from the nonempty range `0..upper` lies in that range (`gen_range`
/// panics only on an empty range, which the precondition rules out).
#[verifier::external_body]
fn random_below(upper: u8) -> (r: u8)
    requires
        upper > 0,
    ensures
        r < upper,
{
    rand::thread_rng().gen_range(0..upper)
}

/// A buffer of `data_size` bytes, each one `b'A'` masked by `r`.
pub fn fill_buffer(data_size: usize, r: u8) -> (buf: Vec<u8>)
    ensures
        buf@.len() == data_size,
        filled_with(buf@, r),
{
    let b: u8 = ASCII_A & r;
    let mut buf: Vec<u8> = Vec::new();
    while buf.len() < data_size
        invariant
            buf@.len() <= data_size,
            b == buffer_byte(r),
            filled_with(buf@, r),
        decreases data_size - buf@.len(),
    {
        buf.push(b);
    }
    buf
}

/// The buffer written in one trial: `data_size` bytes, every byte `b'A'`
/// masked by a freshly drawn integer uniform in `[0, trial_index + 1)`. For
/// the first trial the draw can only be zero, so the buffer is all zero
/// bytes.
pub fn trial_buffer(data_size: usize, trial_index: u8) -> (buf: Vec<u8>)
    requires
        trial_index < u8::MAX,
    ensures
        buf@.len() == data_size,
        exists|r: u8| r <= trial_index && filled_with(buf@, r),
        trial_index == 0 ==> (forall|j: int| 0 <= j < buf@.len() ==> buf@[j] == 0),
{
    let r: u8 = random_below(trial_index + 1);
    let buf: Vec<u8> = fill_buffer(data_size, r);
    proof {
        assert(r <= trial_index && filled_with(buf@, r));
        if trial_index == 0 {
            assert(0x41u8 & 0u8 == 0u8) by (bit_vector);
        }
    }
    buf
}

/// Bookkeeping of one payload size's trial loop: the durations recorded so
/// far, in trial order. The loop is complete exactly when all
/// `TRIAL_COUNT` trials have been recorded.
pub struct TrialRecorder {
    durations: Vec<TrialDuration>,
    next_trial: u8,
}

impl TrialRecorder {
    /// The durations recorded so far, in trial order.
    pub closed spec fn durations_seq(self) -> Seq<TrialDuration> {
        self.durations@
    }

    /// How many trials have been recorded.
    pub closed spec fn trials_done(self) -> int {
        self.next_trial as int
    }

    /// One well-formed duration per completed trial, never more than the
    /// fixed trial count.
    pub open spec fn wf(self) -> bool {
        &&& self.durations_seq().len() == self.trials_done()
        &&& self.trials_done() <= TRIAL_COUNT as int
        &&& all_wf(self.durations_seq())
    }

    pub fn new() -> (t: Self)
        ensures
            t.wf(),
            t.trials_done() == 0,
            t.durations_seq() == Seq::<TrialDuration>::empty(),
    {
        TrialRecorder { durations: Vec::new(), next_trial: 0 }
    }

    /// The index of the next trial to run.
    pub fn next_index(&self) -> (i: u8)
        ensures
            i as int == self.trials_done(),
    {
        self.next_trial
    }

    /// Whether every trial of this size has been recorded.
    pub fn is_done(&self) -> (b: bool)
        ensures
            b <==> self.trials_done() == TRIAL_COUNT as int,
    {
        self.next_trial == TRIAL_COUNT
    }

    /// Appends one trial's measured duration.
    pub fn record(&mut self, d: TrialDuration)
        requires
            old(self).wf(),
            old(self).trials_done() < TRIAL_COUNT as int,
            d.wf(),
        ensures
            final(self).wf(),
            final(self).trials_done() == old(self).trials_done() + 1,
            final(self).durations_seq() == old(self).durations_seq().push(d),
    {
        self.durations.push(d);
        self.next_trial = self.next_trial + 1;
    }

    /// The completed list of measurements: exactly one duration per trial.
    pub fn into_durations(self) -> (v: Vec<TrialDuration>)
        requires
            self.wf(),
            self.trials_done() == TRIAL_COUNT as int,
        ensures
            v@ == self.durations_seq(),
            v@.len() == TRIAL_COUNT as int,
            all_wf(v@),
    {
        self.durations
    }
}

} // verus!
