//! Frame statistics: a ring of the most recent frame times, and a
//! report that falls due at most once per logging interval.

use vstd::prelude::*;

verus! {

/// Number of frame times kept in the ring.
pub const FRAME_WINDOW: usize = 32;

/// Milliseconds between two reports.
pub const LOG_INTERVAL: usize = 2000;

/// Sum of a sequence of frame times.
pub open spec fn seq_sum(s: Seq<usize>) -> int
    decreases s.len(),
{
    if s.len() == 0 {
        0
    } else {
        seq_sum(s.drop_last()) + s.last()
    }
}

/// The mathematical model of a `FrameStats`.
pub struct StatsModel {
    /// Frames recorded so far.
    pub frames: nat,
    /// A report falls due at the first frame whose timestamp exceeds this.
    pub next_log: nat,
    /// Timestamp of the latest frame (or of creation).
    pub last_frame: nat,
    /// The ring of frame times; slot `k % 32` holds the time of frame `k`.
    pub times: Seq<usize>,
    /// Timestamp at creation.
    pub start: nat,
}

impl StatsModel {
    /// Statistics started at `now`: no frames, an empty ring, the first report
    /// due after `now + 2000`.
    pub open spec fn fresh(now: nat) -> StatsModel {
        StatsModel {
            frames: 0,
            next_log: (now + LOG_INTERVAL) as nat,
            last_frame: now,
            times: Seq::new(FRAME_WINDOW as nat, |k: int| 0usize),
            start: now,
        }
    }

    /// The invariant every `FrameStats` keeps: the ring has 32 slots and the
    /// frame times in it add up to no more than the time elapsed since creation.
    pub open spec fn wf(self) -> bool {
        &&& self.times.len() == FRAME_WINDOW
        &&& self.start <= self.last_frame
        &&& seq_sum(self.times) <= self.last_frame - self.start
    }

    /// Whether a frame at `now` makes a report fall due.
    pub open spec fn report_due(self, now: nat) -> bool {
        now > self.next_log
    }

    /// The state after recording a frame at `now`.
    pub open spec fn after_frame(self, now: nat) -> StatsModel {
        StatsModel {
            frames: self.frames + 1,
            next_log: if self.report_due(now) {
                (now + LOG_INTERVAL) as nat
            } else {
                self.next_log
            },
            last_frame: now,
            times: self.times.update(
                (self.frames % (FRAME_WINDOW as nat)) as int,
                (now - self.last_frame) as usize,
            ),
            start: self.start,
        }
    }

    /// What recording a frame at `now` reports: the frame count and the sum of
    /// the ring, when a report is due.
    pub open spec fn report(self, now: nat) -> Option<(nat, int)> {
        if self.report_due(now) {
            let next = self.after_frame(now);
            Some((next.frames, seq_sum(next.times)))
        } else {
            None
        }
    }
}

/// The model after recording one frame at each timestamp of `nows`, in order.
pub open spec fn run(m: StatsModel, nows: Seq<nat>) -> StatsModel
    decreases nows.len(),
{
    if nows.len() == 0 {
        m
    } else {
        run(m, nows.drop_last()).after_frame(nows.last())
    }
}

/// Timestamps that `frame` accepts one after another from statistics started
/// at `t0`: none earlier than its predecessor, all within `usize`.
pub open spec fn timestamps_ok(t0: nat, nows: Seq<nat>) -> bool {
    &&& forall|i: int| 0 <= i < nows.len() ==> t0 <= #[trigger] nows[i] <= usize::MAX
    &&& forall|i: int, j: int| 0 <= i <= j < nows.len() ==> nows[i] <= nows[j]
}

/// The timestamp that precedes frame `i` of a run started at `t0`.
pub open spec fn previous_timestamp(t0: nat, nows: Seq<nat>, i: int) -> nat {
    if i == 0 {
        t0
    } else {
        nows[i - 1]
    }
}

/// The time of frame `i` of a run started at `t0`.
pub open spec fn frame_time(t0: nat, nows: Seq<nat>, i: int) -> int {
    nows[i] - previous_timestamp(t0, nows, i)
}

/// Law: in statistics started at `t0`, after frames at the timestamps `nows`,
/// slot `j % 32` of the ring holds the time of frame `j` for each of the last
/// 32 frames, and slots no frame has reached yet hold zero.
pub proof fn lemma_ring_holds_latest_frames(t0: nat, nows: Seq<nat>)
    requires
        timestamps_ok(t0, nows),
    ensures
        run(StatsModel::fresh(t0), nows).times.len() == FRAME_WINDOW,
        run(StatsModel::fresh(t0), nows).frames == nows.len(),
        forall|j: int|
            0 <= j < nows.len() && nows.len() - j <= FRAME_WINDOW ==> run(
                StatsModel::fresh(t0),
                nows,
            ).times[#[trigger] (j % 32)] == frame_time(t0, nows, j),
        forall|k: int|
            nows.len() <= k < FRAME_WINDOW ==> #[trigger] run(
                StatsModel::fresh(t0),
                nows,
            ).times[k] == 0,
    decreases nows.len(),
{
    let m = StatsModel::fresh(t0);
    let n = nows.len() as int;
    if n > 0 {
        let prev = nows.drop_last();
        assert(timestamps_ok(t0, prev));
        lemma_ring_holds_latest_frames(t0, prev);
        let old_run = run(m, prev);
        let new_run = run(m, nows);
        assert(new_run == old_run.after_frame(nows.last()));
        assert(old_run.last_frame == previous_timestamp(t0, nows, n - 1)) by {
            lemma_run_last_frame(t0, nows);
        }
        assert forall|j: int|
            0 <= j < n && n - j <= FRAME_WINDOW implies new_run.times[#[trigger] (j % 32)]
            == frame_time(t0, nows, j) by {
            if j < n - 1 {
                assert(j % 32 != (n - 1) % 32);
                assert(prev[j] == nows[j]);
                if j > 0 {
                    assert(prev[j - 1] == nows[j - 1]);
                }
                assert(frame_time(t0, prev, j) == frame_time(t0, nows, j));
            }
        }
    }
}

/// Law: in statistics started at `t0`, after at least one frame, the ring
/// adds up to the time spanned by the last 32 frames: from the timestamp
/// before the oldest of them (the start while there are at most 32) to the
/// latest one. This is the total that a report divides by 32.
pub proof fn lemma_ring_sum_spans_window(t0: nat, nows: Seq<nat>)
    requires
        timestamps_ok(t0, nows),
        nows.len() > 0,
    ensures
        seq_sum(run(StatsModel::fresh(t0), nows).times) == nows.last() - previous_timestamp(
            t0,
            nows,
            if nows.len() <= FRAME_WINDOW {
                0
            } else {
                nows.len() - FRAME_WINDOW
            },
        ),
    decreases nows.len(),
{
    let m = StatsModel::fresh(t0);
    let n = nows.len() as int;
    let prev = nows.drop_last();
    assert(timestamps_ok(t0, prev));
    lemma_ring_holds_latest_frames(t0, prev);
    lemma_run_last_frame(t0, nows);
    let old_run = run(m, prev);
    let slot = (n - 1) % 32;
    lemma_seq_sum_update(old_run.times, slot, (nows.last() - old_run.last_frame) as usize);
    if n == 1 {
        lemma_seq_sum_zeros(m.times);
        assert(old_run.times[0] == 0);
    } else {
        lemma_ring_sum_spans_window(t0, prev);
        if n - 1 < FRAME_WINDOW {
            assert(old_run.times[n - 1] == 0);
        } else {
            let j = n - 1 - FRAME_WINDOW;
            assert(j % 32 == slot);
            assert(old_run.times[j % 32] == frame_time(t0, prev, j));
            assert(prev[j] == nows[j]);
            if j > 0 {
                assert(prev[j - 1] == nows[j - 1]);
            }
        }
    }
}

/// Law: once a frame at `t` has reported, no frame at a timestamp up to
/// `t + 2000` reports again.
pub proof fn lemma_reports_spaced(m: StatsModel, t: nat, now: nat)
    requires
        m.report(t) is Some,
        now <= t + LOG_INTERVAL,
    ensures
        m.after_frame(t).report(now) is None,
{
}

/// Law: recording a frame counts it, stores its time since the previous
/// frame in slot `frames % 32`, and reports exactly when its timestamp is past
/// the scheduled log time, whatever the frame count; a report carries the new
/// frame count and the sum of the updated ring, and schedules the next one
/// 2000 later.
pub proof fn lemma_frame_records_and_reports(m: StatsModel, now: nat)
    ensures
        m.after_frame(now).frames == m.frames + 1,
        m.after_frame(now).last_frame == now,
        m.after_frame(now).start == m.start,
        now >= m.last_frame && now - m.last_frame <= usize::MAX ==> m.after_frame(now).times
            == m.times.update((m.frames % 32) as int, (now - m.last_frame) as usize),
        m.report(now) is Some <==> now > m.next_log,
        now > m.next_log ==> m.after_frame(now).next_log == now + LOG_INTERVAL,
        now <= m.next_log ==> m.after_frame(now).next_log == m.next_log,
        now > m.next_log ==> m.report(now) == Some(
            (m.frames + 1, seq_sum(m.after_frame(now).times)),
        ),
{
}

/// The latest timestamp of a run started at `t0` is the last of `nows`, and its
/// start stays `t0`.
pub proof fn lemma_run_last_frame(t0: nat, nows: Seq<nat>)
    ensures
        run(StatsModel::fresh(t0), nows).start == t0,
        nows.len() > 0 ==> run(StatsModel::fresh(t0), nows.drop_last()).last_frame
            == previous_timestamp(t0, nows, nows.len() - 1),
        run(StatsModel::fresh(t0), nows).last_frame == if nows.len() == 0 {
            t0
        } else {
            nows.last()
        },
    decreases nows.len(),
{
    if nows.len() > 0 {
        lemma_run_last_frame(t0, nows.drop_last());
        if nows.len() > 1 {
            assert(nows.drop_last().last() == nows[nows.len() - 2]);
        }
    }
}

/// Rolling frame-time statistics.
pub struct FrameStats {
    frames: usize,
    next_log_timestamp: usize,
    last_frame_timestamp: usize,
    frame_times: [usize; 32],
    start: Ghost<nat>,
}

impl View for FrameStats {
    type V = StatsModel;

    closed spec fn view(&self) -> StatsModel {
        StatsModel {
            frames: self.frames as nat,
            next_log: self.next_log_timestamp as nat,
            last_frame: self.last_frame_timestamp as nat,
            times: self.frame_times@,
            start: self.start@,
        }
    }
}

/// A sum of frame times never goes below zero, and a prefix never adds up to
/// more than the whole.
pub proof fn lemma_seq_sum_prefix(s: Seq<usize>, i: int)
    requires
        0 <= i <= s.len(),
    ensures
        0 <= seq_sum(s.take(i)) <= seq_sum(s),
    decreases s.len(),
{
    if s.len() == 0 {
        assert(s.take(i) =~= s);
    } else if i == s.len() {
        assert(s.take(i) =~= s);
        lemma_seq_sum_prefix(s.drop_last(), i - 1);
    } else {
        assert(s.take(i) =~= s.drop_last().take(i));
        lemma_seq_sum_prefix(s.drop_last(), i);
    }
}

/// Replacing one frame time changes the sum by the difference.
pub proof fn lemma_seq_sum_update(s: Seq<usize>, i: int, v: usize)
    requires
        0 <= i < s.len(),
    ensures
        seq_sum(s.update(i, v)) == seq_sum(s) - s[i] + v,
    decreases s.len(),
{
    if i == s.len() - 1 {
        assert(s.update(i, v).drop_last() =~= s.drop_last());
    } else {
        assert(s.update(i, v).drop_last() =~= s.drop_last().update(i, v));
        lemma_seq_sum_update(s.drop_last(), i, v);
    }
}

/// A ring of zeros sums to zero.
pub proof fn lemma_seq_sum_zeros(s: Seq<usize>)
    requires
        forall|k: int| 0 <= k < s.len() ==> s[k] == 0,
    ensures
        seq_sum(s) == 0,
    decreases s.len(),
{
    if s.len() > 0 {
        lemma_seq_sum_zeros(s.drop_last());
    }
}

impl FrameStats {
    /// Starts the statistics at timestamp `now` (in milliseconds); the first
    /// report falls due after `now + 2000`.
    pub fn new(now: usize) -> (stats: FrameStats)
        requires
            now + LOG_INTERVAL <= usize::MAX,
        ensures
            stats@ == StatsModel::fresh(now as nat),
            stats@.wf(),
            stats@.frames == 0,
            stats@.next_log == now + LOG_INTERVAL,
            stats@.last_frame == now,
            stats@.start == now,
            stats@.times.len() == FRAME_WINDOW,
            forall|k: int| 0 <= k < FRAME_WINDOW ==> stats@.times[k] == 0,
    {
        let stats = FrameStats {
            frames: 0,
            next_log_timestamp: now + LOG_INTERVAL,
            last_frame_timestamp: now,
            frame_times: [0usize; 32],
            start: Ghost(now as nat),
        };
        proof {
            lemma_seq_sum_zeros(stats.frame_times@);
            assert(stats.frame_times@ =~= Seq::new(FRAME_WINDOW as nat, |k: int| 0usize));
        }
        stats
    }

    /// Whether `frame(now)` may be called: timestamps do not go backwards, the
    /// frame counter has room, and a due report can schedule the next one.
    pub fn accepts_frame(&self, now: usize) -> (ok: bool)
        ensures
            ok <==> self.frame_preconditions(now),
    {
        now >= self.last_frame_timestamp && self.frames < usize::MAX && (now
            <= self.next_log_timestamp || now <= usize::MAX - LOG_INTERVAL)
    }

    /// The conditions under which recording a frame at `now` does not overflow.
    pub open spec fn frame_preconditions(&self, now: usize) -> bool {
        &&& now >= self@.last_frame
        &&& self@.frames < usize::MAX
        &&& now > self@.next_log ==> now + LOG_INTERVAL <= usize::MAX
    }

    /// Records a frame at timestamp `now`: its time since the previous frame
    /// goes into ring slot `frames % 32`. When `now` is past the scheduled log
    /// time, the next report is scheduled `2000` later and the frame count and
    /// the sum of the ring are returned.
    pub fn frame(&mut self, now: usize) -> (report: Option<(usize, usize)>)
        requires
            old(self)@.wf(),
            old(self).frame_preconditions(now),
        ensures
            final(self)@ == old(self)@.after_frame(now as nat),
            final(self)@.wf(),
            match report {
                Some((frames, sum)) => old(self)@.report(now as nat) == Some(
                    (frames as nat, sum as int),
                ),
                None => old(self)@.report(now as nat) is None,
            },
            final(self)@.frames == old(self)@.frames + 1,
            final(self)@.last_frame == now,
            final(self)@.start == old(self)@.start,
            final(self)@.times == old(self)@.times.update(
                (old(self)@.frames % 32) as int,
                (now - old(self)@.last_frame) as usize,
            ),
            report is Some <==> now > old(self)@.next_log,
            now > old(self)@.next_log ==> final(self)@.next_log == now + LOG_INTERVAL,
            now <= old(self)@.next_log ==> final(self)@.next_log == old(self)@.next_log,
            report matches Some((frames, sum)) ==> frames == old(self)@.frames + 1 && sum
                == seq_sum(final(self)@.times),
    {
        let ghost old_times = self.frame_times@;
        let frame_time = now - self.last_frame_timestamp;
        let frames = self.frames;
        let slot = frames & 31;
        assert(frames & 31 == frames % 32) by (bit_vector);
        proof {
            lemma_seq_sum_update(old_times, slot as int, frame_time);
        }
        self.frame_times[slot] = frame_time;
        self.frames = self.frames + 1;
        self.last_frame_timestamp = now;
        assert(self@.times =~= old_times.update(slot as int, frame_time));
        if now > self.next_log_timestamp {
            self.next_log_timestamp = now + LOG_INTERVAL;
            let sum = self.ring_sum();
            Some((self.frames, sum))
        } else {
            None
        }
    }

    /// The sum of the ring.
    fn ring_sum(&self) -> (sum: usize)
        requires
            self@.wf(),
        ensures
            sum == seq_sum(self@.times),
    {
        let mut sum: usize = 0;
        let mut i: usize = 0;
        while i < FRAME_WINDOW
            invariant
                self@.wf(),
                i <= FRAME_WINDOW,
                sum == seq_sum(self@.times.take(i as int)),
            decreases FRAME_WINDOW - i,
        {
            proof {
                assert(self@.times.take(i + 1).drop_last() =~= self@.times.take(i as int));
                lemma_seq_sum_prefix(self@.times, i + 1);
            }
            sum = sum + self.frame_times[i];
            i = i + 1;
        }
        assert(self@.times.take(FRAME_WINDOW as int) =~= self@.times);
        sum
    }
}

} // verus!
