use vstd::prelude::*;
use std::time::{Duration, Instant};

verus! {

pub const MEASURE_START: usize = 0;
pub const MEASURE_CSER: usize = 1;
pub const MEASURE_CSEND: usize = 2;
pub const MEASURE_SRECV: usize = 3;
pub const MEASURE_SDSER: usize = 4;
pub const MEASURE_RAW: usize = 5;
pub const MEASURE_SSER: usize = 6;
pub const MEASURE_SSEND: usize = 7;
pub const MEASURE_CRECV: usize = 8;
pub const MEASURE_CDSER: usize = 9;
pub const MEASURE_TOTAL: usize = 10;
/// The number of measurement points per round.
pub const MEASURE_MAX_NUM: usize = 11;
/// The number of rounds a timer records.
pub const ITER_NUM: usize = 10010;

#[verifier::external_type_specification]
#[verifier::external_body]
pub struct ExInstant(Instant);

/// Reads the monotonic clock (`Instant::now`); the reading depends on the
/// time, so nothing is stated of it.
#[verifier::external_body]
fn instant_now() -> (t: Instant) {
    Instant::now()
}

/// The time since `origin` (`Instant::elapsed`); it depends on the time,
/// so nothing is stated of it.
#[verifier::external_body]
fn elapsed_since(origin: &Instant) -> (d: Duration) {
    origin.elapsed()
}

/// The whole nanoseconds in `d` (`Duration::as_nanos`); `Duration` is
/// opaque here, so nothing is stated of the count.
#[verifier::external_body]
fn nanos_of(d: &Duration) -> (n: u128) {
    d.as_nanos()
}

/// The index of round `cnt`, point `id` in a table stored row by row.
pub open spec fn slot(cnt: int, id: int) -> int {
    cnt * MEASURE_MAX_NUM + id
}

/// Start and stop clock readings for each measurement point of each round.
pub struct Timer {
    start_time: Vec<u64>,
    stop_time: Vec<u64>,
    cnt: usize,
    output_file: Option<String>,
    origin: Instant,
    taken: Ghost<Seq<u64>>,
}

impl Timer {
    /// Both tables hold a reading for every point of every round.
    pub open spec fn wf(&self) -> bool {
        &&& self.starts().len() == ITER_NUM * MEASURE_MAX_NUM
        &&& self.stops().len() == ITER_NUM * MEASURE_MAX_NUM
    }

    /// The start readings, row by row.
    pub closed spec fn starts(&self) -> Seq<u64> {
        self.start_time@
    }

    /// The stop readings, row by row.
    pub closed spec fn stops(&self) -> Seq<u64> {
        self.stop_time@
    }

    /// The round being recorded.
    pub closed spec fn round(&self) -> nat {
        self.cnt as nat
    }

    /// Where the readings are written once all rounds are recorded.
    pub closed spec fn output(&self) -> Option<String> {
        self.output_file
    }

    /// Every reading recorded so far, start or stop, in the order recorded.
    pub closed spec fn readings(&self) -> Seq<u64> {
        self.taken@
    }

    fn zeroed(output_file: Option<String>) -> (t: Self)
        ensures
            t.wf(),
            t.round() == 0,
            t.output() == output_file,
            t.readings() == Seq::<u64>::empty(),
            forall|i: int| 0 <= i < ITER_NUM * MEASURE_MAX_NUM ==> t.starts()[i] == 0 && t.stops()[i] == 0,
    {
        let start_time = vec![0u64; ITER_NUM * MEASURE_MAX_NUM];
        let stop_time = vec![0u64; ITER_NUM * MEASURE_MAX_NUM];
        Timer { start_time, stop_time, cnt: 0, output_file, origin: instant_now(), taken: Ghost(Seq::empty()) }
    }

    /// A timer whose readings go to `file_name` once all rounds are recorded.
    pub fn new(file_name: String) -> (t: Self)
        ensures
            t.wf(),
            t.round() == 0,
            t.readings() == Seq::<u64>::empty(),
            t.output() == Some(file_name),
            forall|i: int| 0 <= i < ITER_NUM * MEASURE_MAX_NUM ==> t.starts()[i] == 0 && t.stops()[i] == 0,
    {
        Self::zeroed(Some(file_name))
    }

    /// A timer whose readings go nowhere.
    pub fn new_null() -> (t: Self)
        ensures
            t.wf(),
            t.round() == 0,
            t.readings() == Seq::<u64>::empty(),
            t.output() is None,
            forall|i: int| 0 <= i < ITER_NUM * MEASURE_MAX_NUM ==> t.starts()[i] == 0 && t.stops()[i] == 0,
    {
        Self::zeroed(None)
    }

    fn now(&self) -> (t: u64) {
        let d = elapsed_since(&self.origin);
        let n = nanos_of(&d);
        if n > u64::MAX as u128 {
            u64::MAX
        } else {
            n as u64
        }
    }

    /// Records the reading `now` as the start of point `id` in the current
    /// round.
    pub fn set_at(&mut self, id: usize, now: u64)
        requires
            old(self).wf(),
            old(self).round() < ITER_NUM,
            id < MEASURE_MAX_NUM,
        ensures
            final(self).wf(),
            final(self).starts() == old(self).starts().update(slot(old(self).round() as int, id as int), now),
            final(self).stops() == old(self).stops(),
            final(self).readings() == old(self).readings().push(now),
            final(self).round() == old(self).round(),
            final(self).output() == old(self).output(),
    {
        let i = self.cnt * MEASURE_MAX_NUM + id;
        self.start_time.set(i, now);
        self.taken = Ghost(self.taken@.push(now));
    }

    /// Records the reading `now` as the stop of point `id` in the current
    /// round.
    pub fn stop_at(&mut self, id: usize, now: u64)
        requires
            old(self).wf(),
            old(self).round() < ITER_NUM,
            id < MEASURE_MAX_NUM,
        ensures
            final(self).wf(),
            final(self).stops() == old(self).stops().update(slot(old(self).round() as int, id as int), now),
            final(self).starts() == old(self).starts(),
            final(self).readings() == old(self).readings().push(now),
            final(self).round() == old(self).round(),
            final(self).output() == old(self).output(),
    {
        let i = self.cnt * MEASURE_MAX_NUM + id;
        self.stop_time.set(i, now);
        self.taken = Ghost(self.taken@.push(now));
    }

    /// Reads the clock, records the reading as the start of point `id` in
    /// the current round, and logs it; what the clock reads is not known
    /// here.
    pub fn set(&mut self, id: usize)
        requires
            old(self).wf(),
            old(self).round() < ITER_NUM,
            id < MEASURE_MAX_NUM,
        ensures
            final(self).wf(),
            final(self).readings().len() == old(self).readings().len() + 1,
            final(self).readings().drop_last() == old(self).readings(),
            final(self).starts() == old(self).starts().update(
                slot(old(self).round() as int, id as int),
                final(self).readings().last(),
            ),
            final(self).stops() == old(self).stops(),
            final(self).round() == old(self).round(),
            final(self).output() == old(self).output(),
    {
        let t = self.now();
        self.set_at(id, t);
    }

    /// Reads the clock, records the reading as the stop of point `id` in
    /// the current round, and logs it; what the clock reads is not known
    /// here.
    pub fn stop(&mut self, id: usize)
        requires
            old(self).wf(),
            old(self).round() < ITER_NUM,
            id < MEASURE_MAX_NUM,
        ensures
            final(self).wf(),
            final(self).readings().len() == old(self).readings().len() + 1,
            final(self).readings().drop_last() == old(self).readings(),
            final(self).stops() == old(self).stops().update(
                slot(old(self).round() as int, id as int),
                final(self).readings().last(),
            ),
            final(self).starts() == old(self).starts(),
            final(self).round() == old(self).round(),
            final(self).output() == old(self).output(),
    {
        let t = self.now();
        self.stop_at(id, t);
    }

    /// The time from start to stop of point `id` in round `cnt`.
    pub fn get_time(&self, cnt: usize, id: usize) -> (d: u64)
        requires
            self.wf(),
            cnt < ITER_NUM,
            id < MEASURE_MAX_NUM,
            self.stops()[slot(cnt as int, id as int)] >= self.starts()[slot(cnt as int, id as int)],
        ensures
            d == self.stops()[slot(cnt as int, id as int)] - self.starts()[slot(cnt as int, id as int)],
    {
        let i = cnt * MEASURE_MAX_NUM + id;
        self.stop_time[i] - self.start_time[i]
    }

    /// Moves on to the next round; returns whether that was the last
    /// round, so that the readings are due to be written out.
    pub fn plus_cnt(&mut self) -> (full: bool)
        requires
            old(self).round() < usize::MAX,
        ensures
            final(self).round() == old(self).round() + 1,
            full == (final(self).round() == ITER_NUM),
            final(self).starts() == old(self).starts(),
            final(self).stops() == old(self).stops(),
            final(self).readings() == old(self).readings(),
            final(self).output() == old(self).output(),
            old(self).wf() ==> final(self).wf(),
    {
        self.cnt = self.cnt + 1;
        self.cnt == ITER_NUM
    }

    /// The start readings of round `i`.
    pub fn start_row(&self, i: usize) -> (row: Vec<u64>)
        requires
            self.wf(),
            i < ITER_NUM,
        ensures
            row@ == self.starts().subrange(slot(i as int, 0), slot(i as int, MEASURE_MAX_NUM as int)),
    {
        let base = i * MEASURE_MAX_NUM;
        let mut row: Vec<u64> = Vec::new();
        let mut j: usize = 0;
        while j < MEASURE_MAX_NUM
            invariant
                self.wf(),
                i < ITER_NUM,
                base == i * MEASURE_MAX_NUM,
                j <= MEASURE_MAX_NUM,
                row@ == self.starts().subrange(base as int, base + j),
            decreases MEASURE_MAX_NUM - j,
        {
            row.push(self.start_time[base + j]);
            j = j + 1;
            assert(row@ =~= self.starts().subrange(base as int, base + j));
        }
        row
    }

    /// The round being recorded.
    pub fn count(&self) -> (c: usize)
        ensures
            c == self.round(),
    {
        self.cnt
    }

    /// Where the readings go, if anywhere.
    pub fn output_file(&self) -> (f: Option<String>)
        ensures
            f == self.output(),
    {
        self.output_file.clone()
    }
}

} // verus!
