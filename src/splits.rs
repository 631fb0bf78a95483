//! Fixed-distance lap segmentation of activity telemetry.
//!
//! Distances are integers in one unit of the caller's choice (the lap
//! distance is given in the same unit); times are whole seconds.
use vstd::prelude::*;

use crate::text::{decimal, eq_ignore_case, push_decimal, str_equals, str_equals_ignore_case};

verus! {

/// Cumulative distance at each sample.
pub struct DistanceStream {
    pub data: Vec<u32>,
    pub original_size: usize,
}

/// Cumulative elapsed seconds at each sample.
pub struct TimeStream {
    pub data: Vec<i32>,
    pub original_size: usize,
}

/// Whether the athlete was moving at each sample.
pub struct MovingStream {
    pub data: Vec<bool>,
    pub original_size: usize,
}

/// The three parallel telemetry streams of one activity.
pub struct Streams {
    pub distance: DistanceStream,
    pub time: TimeStream,
    pub moving: MovingStream,
}

impl Streams {
    /// The number of samples that the streams report.
    pub open spec fn size(&self) -> int {
        self.distance.original_size as int
    }

    /// All three streams report the same size and hold that many samples.
    pub open spec fn consistent(&self) -> bool {
        &&& self.time.original_size == self.distance.original_size
        &&& self.moving.original_size == self.distance.original_size
        &&& self.distance.data@.len() == self.distance.original_size
        &&& self.time.data@.len() == self.distance.original_size
        &&& self.moving.data@.len() == self.distance.original_size
    }

    pub open spec fn dist(&self) -> Seq<u32> {
        self.distance.data@
    }

    pub open spec fn times(&self) -> Seq<i32> {
        self.time.data@
    }

    pub open spec fn moves(&self) -> Seq<bool> {
        self.moving.data@
    }
}

/// One lap summary: its name, the distance it covers and its moving time in seconds.
pub struct Lap {
    pub name: String,
    pub distance: i64,
    pub moving_time: i128,
}

/// A lap as (name, distance, moving time).
pub type LapView = (Seq<char>, int, int);

impl View for Lap {
    type V = LapView;

    open spec fn view(&self) -> LapView {
        (self.name@, self.distance as int, self.moving_time as int)
    }
}

/// Why a set of streams cannot be segmented.
#[derive(Debug, Clone, Copy, PartialEq, Eq, Structural)]
pub enum SegmentationError {
    /// The streams disagree on their size.
    CorruptStreams,
    /// The lap distance is not positive.
    InvalidLapDistance,
}

/// The name of lap number `k`.
pub open spec fn lap_name(k: int) -> Seq<char> {
    seq!['L', 'a', 'p', ' '] + decimal(k as nat)
}

/// Stopped seconds over samples `i..=b`, where `last` is the timestamp of the
/// latest moving sample seen so far (zero before any).
pub open spec fn stopped_time(t: Seq<i32>, m: Seq<bool>, i: int, b: int, last: int) -> int
    decreases b + 1 - i,
{
    if i > b {
        0
    } else if m[i] {
        stopped_time(t, m, i + 1, b, t[i] as int)
    } else {
        (t[i] - last) + stopped_time(t, m, i + 1, b, last)
    }
}

/// Moving seconds over samples `a..=b`: elapsed time less stopped time. The
/// latest moving timestamp starts at zero, not at `t[a]`, so a stop at the
/// start of the interval is counted from the time origin.
pub open spec fn moving_time(t: Seq<i32>, m: Seq<bool>, a: int, b: int) -> int {
    (t[b] - t[a]) - stopped_time(t, m, a, b, 0)
}

/// The laps, as (lap number, first sample, last sample), that a scan closes from
/// sample `cur` on, the open lap being number `k` and starting at `start`.
pub open spec fn intervals_from(d: Seq<u32>, lap: int, cur: int, start: int, k: int) -> Seq<
    (int, int, int),
>
    decreases d.len() - cur,
{
    if cur >= d.len() {
        if 10 * (d[d.len() - 1] - d[start]) >= lap {
            seq![(k, start, d.len() - 1)]
        } else {
            seq![]
        }
    } else if d[cur] > k * lap {
        seq![(k, start, cur)] + intervals_from(d, lap, cur + 1, cur, k + 1)
    } else {
        intervals_from(d, lap, cur + 1, start, k)
    }
}

/// The lap intervals of a distance stream: a lap closes at the first sample
/// whose distance exceeds the lap number times the lap distance, and a trailing
/// part of at least a tenth of a lap is kept as a last lap.
pub open spec fn lap_intervals(d: Seq<u32>, lap: int) -> Seq<(int, int, int)> {
    if d.len() == 0 {
        seq![]
    } else {
        intervals_from(d, lap, 0, 0, 1)
    }
}

/// The lap over one interval.
pub open spec fn lap_of(d: Seq<u32>, t: Seq<i32>, m: Seq<bool>, iv: (int, int, int)) -> LapView {
    (lap_name(iv.0), d[iv.2] - d[iv.1], moving_time(t, m, iv.1, iv.2))
}

pub open spec fn laps_over(d: Seq<u32>, t: Seq<i32>, m: Seq<bool>, ivs: Seq<(int, int, int)>) -> Seq<
    LapView,
> {
    ivs.map_values(|iv: (int, int, int)| lap_of(d, t, m, iv))
}

/// The laps of a set of streams for a lap distance.
pub open spec fn segment_spec(s: &Streams, lap: int) -> Seq<LapView> {
    laps_over(s.dist(), s.times(), s.moves(), lap_intervals(s.dist(), lap))
}

pub open spec fn lap_views(v: Seq<Lap>) -> Seq<LapView> {
    v.map_values(|l: Lap| l@)
}

/// Moving seconds over the samples `start..=end`.
pub fn calc_moving_time(start: usize, end: usize, streams: &Streams) -> (r: i128)
    requires
        streams.consistent(),
        start <= end < streams.size(),
    ensures
        r == moving_time(streams.times(), streams.moves(), start as int, end as int),
{
    let ghost t = streams.times();
    let ghost m = streams.moves();
    let mut last: i32 = 0;
    let mut stopped: i128 = 0;
    let elapsed: i128 = streams.time.data[end] as i128 - streams.time.data[start] as i128;
    let mut i: usize = start;
    while i <= end
        invariant
            streams.consistent(),
            t == streams.times(),
            m == streams.moves(),
            start <= i <= end + 1,
            end < streams.size(),
            -(i - start) * 0x1_0000_0000 <= stopped <= (i - start) * 0x1_0000_0000,
            stopped + stopped_time(t, m, i as int, end as int, last as int) == stopped_time(
                t,
                m,
                start as int,
                end as int,
                0,
            ),
        decreases end + 1 - i,
    {
        if streams.moving.data[i] {
            last = streams.time.data[i];
        } else {
            stopped = stopped + (streams.time.data[i] as i128 - last as i128);
        }
        i = i + 1;
    }
    elapsed - stopped
}

fn make_lap(streams: &Streams, k: u128, start: usize, end: usize) -> (r: Lap)
    requires
        streams.consistent(),
        start <= end < streams.size(),
    ensures
        r@ == lap_of(streams.dist(), streams.times(), streams.moves(), (k as int, start as int, end as int)),
{
    let mut name = String::from_str("Lap ");
    push_decimal(&mut name, k);
    proof {
        reveal_strlit("Lap ");
        assert(name@ =~= lap_name(k as int));
    }
    let distance: i64 = streams.distance.data[end] as i64 - streams.distance.data[start] as i64;
    Lap { name, distance, moving_time: calc_moving_time(start, end, streams) }
}

proof fn lemma_laps_over_cons(
    d: Seq<u32>,
    t: Seq<i32>,
    m: Seq<bool>,
    iv: (int, int, int),
    rest: Seq<(int, int, int)>,
)
    ensures
        laps_over(d, t, m, seq![iv] + rest) == seq![lap_of(d, t, m, iv)] + laps_over(d, t, m, rest),
{
    assert(laps_over(d, t, m, seq![iv] + rest) =~= seq![lap_of(d, t, m, iv)] + laps_over(d, t, m, rest));
}

/// Splits the streams into laps of `lap_distance`, in order of the samples.
pub fn segment(streams: &Streams, lap_distance: i64) -> (r: Result<Vec<Lap>, SegmentationError>)
    ensures
        !streams.consistent() <==> r == Err::<Vec<Lap>, SegmentationError>(SegmentationError::CorruptStreams),
        streams.consistent() && lap_distance <= 0 <==> r == Err::<Vec<Lap>, SegmentationError>(
            SegmentationError::InvalidLapDistance,
        ),
        streams.consistent() && lap_distance > 0 <==> r is Ok,
        r is Ok ==> lap_views(r->Ok_0@) == segment_spec(streams, lap_distance as int),
{
    let n = streams.distance.original_size;
    if streams.time.original_size != n || streams.moving.original_size != n
        || streams.distance.data.len() != n || streams.time.data.len() != n
        || streams.moving.data.len() != n {
        return Err(SegmentationError::CorruptStreams);
    }
    if lap_distance <= 0 {
        return Err(SegmentationError::InvalidLapDistance);
    }
    let mut laps: Vec<Lap> = Vec::new();
    if n == 0 {
        proof {
            assert(lap_views(laps@) =~= segment_spec(streams, lap_distance as int));
        }
        return Ok(laps);
    }
    let ghost d = streams.dist();
    let ghost t = streams.times();
    let ghost m = streams.moves();
    let ghost lap = lap_distance as int;
    let mut lap_cnt: u128 = 1;
    let mut start: usize = 0;
    let mut cur: usize = 0;
    proof {
        assert(lap_views(laps@) + laps_over(d, t, m, intervals_from(d, lap, 0, 0, 1)) =~= segment_spec(
            streams,
            lap,
        ));
    }
    while cur < n
        invariant
            streams.consistent(),
            n <= usize::MAX,
            n == streams.size(),
            n > 0,
            d == streams.dist(),
            t == streams.times(),
            m == streams.moves(),
            lap == lap_distance,
            lap > 0,
            start <= cur <= n,
            start < n,
            1 <= lap_cnt <= cur + 1,
            lap_views(laps@) + laps_over(d, t, m, intervals_from(d, lap, cur as int, start as int, lap_cnt as int))
                == segment_spec(streams, lap),
        decreases n - cur,
    {
        assert(0 <= (lap_cnt as int) * (lap_distance as int) < 0x1_0000_0000_0000_0000 * 0x8000_0000_0000_0000)
            by (nonlinear_arith)
            requires
                1 <= lap_cnt < 0x1_0000_0000_0000_0000,
                0 < lap_distance < 0x8000_0000_0000_0000,
        ;
        if streams.distance.data[cur] as i128 > lap_cnt as i128 * lap_distance as i128 {
            let new_lap = make_lap(streams, lap_cnt, start, cur);
            proof {
                lemma_laps_over_cons(
                    d,
                    t,
                    m,
                    (lap_cnt as int, start as int, cur as int),
                    intervals_from(d, lap, cur + 1, cur as int, lap_cnt + 1),
                );
                assert(lap_views(laps@.push(new_lap)) =~= lap_views(laps@).push(new_lap@));
            }
            laps.push(new_lap);
            start = cur;
            lap_cnt = lap_cnt + 1;
        }
        cur = cur + 1;
    }
    if 10 * (streams.distance.data[n - 1] as i64 - streams.distance.data[start] as i64) >= lap_distance {
        let new_lap = make_lap(streams, lap_cnt, start, n - 1);
        proof {
            assert(lap_views(laps@.push(new_lap)) =~= lap_views(laps@).push(new_lap@));
            assert(laps_over(d, t, m, intervals_from(d, lap, cur as int, start as int, lap_cnt as int))
                =~= seq![new_lap@]);
        }
        laps.push(new_lap);
    } else {
        proof {
            assert(laps_over(d, t, m, intervals_from(d, lap, cur as int, start as int, lap_cnt as int))
                =~= Seq::<LapView>::empty());
        }
    }
    proof {
        assert(lap_views(laps@) =~= segment_spec(streams, lap));
    }
    Ok(laps)
}

/// Centimetres in a mile, to the centimetre.
pub const CENTIMETRES_PER_MILE: i64 = 160934;

/// Centimetres in a kilometre.
pub const CENTIMETRES_PER_KILOMETRE: i64 = 100000;

/// The lap distance, in centimetres, of a lap size name.
pub open spec fn lap_size_distance(lap_size: Seq<char>) -> Option<int> {
    if lap_size == "MILE"@ {
        Some(CENTIMETRES_PER_MILE as int)
    } else if lap_size == "1K"@ {
        Some(CENTIMETRES_PER_KILOMETRE as int)
    } else {
        None
    }
}

/// The lap distance, in centimetres, of `"MILE"` or `"1K"`.
pub fn lap_distance(lap_size: &str) -> (r: Option<i64>)
    ensures
        match lap_size_distance(lap_size@) {
            Some(d) => r == Some(d as i64),
            None => r is None,
        },
{
    if str_equals(lap_size, "MILE") {
        Some(CENTIMETRES_PER_MILE)
    } else if str_equals(lap_size, "1K") {
        Some(CENTIMETRES_PER_KILOMETRE)
    } else {
        None
    }
}

/// The laps of streams whose distances are in centimetres, for the lap size
/// `"MILE"` or `"1K"`; `None` for another lap size or for corrupt streams.
pub fn get_splits(lap_size: &str, streams: &Streams) -> (r: Option<Vec<Lap>>)
    ensures
        r is Some <==> lap_size_distance(lap_size@) is Some && streams.consistent(),
        r is Some ==> lap_views(r->0@) == segment_spec(streams, lap_size_distance(lap_size@)->0),
{
    match lap_distance(lap_size) {
        Some(d) => match segment(streams, d) {
            Ok(laps) => Some(laps),
            Err(_) => None,
        },
        None => None,
    }
}

/// What the user asked for when prompted for a lap size.
#[derive(Debug, PartialEq, Eq)]
pub enum LapChoice {
    /// A supported lap size, by its canonical name (`"MILE"` or `"1K"`).
    Size(String),
    /// The user cancelled.
    Quit,
    /// Anything else.
    Unsupported,
}

/// Reads a (trimmed) answer to the lap-size prompt: `mile`, `1k` or `q`, in any
/// case of ASCII letters.
pub fn lap_choice(input: &str) -> (r: LapChoice)
    ensures
        eq_ignore_case(input@, "MILE"@) ==> (r matches LapChoice::Size(s) && s@ == "MILE"@),
        !eq_ignore_case(input@, "MILE"@) && eq_ignore_case(input@, "1K"@) ==> (r matches LapChoice::Size(
            s,
        ) && s@ == "1K"@),
        !eq_ignore_case(input@, "MILE"@) && !eq_ignore_case(input@, "1K"@) && eq_ignore_case(
            input@,
            "Q"@,
        ) ==> r is Quit,
        !eq_ignore_case(input@, "MILE"@) && !eq_ignore_case(input@, "1K"@) && !eq_ignore_case(
            input@,
            "Q"@,
        ) ==> r is Unsupported,
{
    if str_equals_ignore_case(input, "MILE") {
        LapChoice::Size(String::from_str("MILE"))
    } else if str_equals_ignore_case(input, "1K") {
        LapChoice::Size(String::from_str("1K"))
    } else if str_equals_ignore_case(input, "Q") {
        LapChoice::Quit
    } else {
        LapChoice::Unsupported
    }
}

/// The sum of the laps' distances.
pub open spec fn total_distance(v: Seq<LapView>) -> int
    decreases v.len(),
{
    if v.len() == 0 {
        0
    } else {
        v[0].1 + total_distance(v.drop_first())
    }
}

/// The sum of `t[i..=b]`.
pub open spec fn time_sum(t: Seq<i32>, i: int, b: int) -> int
    decreases b + 1 - i,
{
    if i > b {
        0
    } else {
        t[i] + time_sum(t, i + 1, b)
    }
}

pub open spec fn non_decreasing(d: Seq<u32>) -> bool {
    forall|i: int, j: int| 0 <= i <= j < d.len() ==> d[i] <= d[j]
}

proof fn lemma_total_distance_cons(x: LapView, rest: Seq<LapView>)
    ensures
        total_distance(seq![x] + rest) == x.1 + total_distance(rest),
{
    assert((seq![x] + rest).drop_first() =~= rest);
}

proof fn lemma_intervals_in_range(d: Seq<u32>, lap: int, cur: int, start: int, k: int)
    requires
        0 <= start <= cur,
        start < d.len(),
    ensures
        forall|j: int|
            0 <= j < intervals_from(d, lap, cur, start, k).len() ==> start <= (#[trigger] intervals_from(
                d,
                lap,
                cur,
                start,
                k,
            )[j]).1 <= intervals_from(d, lap, cur, start, k)[j].2 < d.len(),
    decreases d.len() - cur,
{
    let ivs = intervals_from(d, lap, cur, start, k);
    if cur >= d.len() {
        if 10 * (d[d.len() - 1] - d[start]) >= lap {
            assert(ivs =~= seq![(k, start, d.len() - 1)]);
        } else {
            assert(ivs =~= Seq::<(int, int, int)>::empty());
        }
    } else if d[cur] > k * lap {
        lemma_intervals_in_range(d, lap, cur + 1, cur, k + 1);
        let rest = intervals_from(d, lap, cur + 1, cur, k + 1);
        assert forall|j: int| 0 <= j < intervals_from(d, lap, cur, start, k).len() implies start
            <= (#[trigger] intervals_from(d, lap, cur, start, k)[j]).1 <= intervals_from(
            d,
            lap,
            cur,
            start,
            k,
        )[j].2 < d.len() by {
            assert(ivs == seq![(k, start, cur)] + rest);
            if j > 0 {
                assert(ivs[j] == rest[j - 1]);
            }
        }
    } else {
        lemma_intervals_in_range(d, lap, cur + 1, start, k);
        assert(ivs == intervals_from(d, lap, cur + 1, start, k));
    }
}

proof fn lemma_intervals_cover(
    d: Seq<u32>,
    t: Seq<i32>,
    m: Seq<bool>,
    lap: int,
    cur: int,
    start: int,
    k: int,
)
    requires
        0 <= start <= cur,
        start < d.len(),
        lap > 0,
    ensures
        ({
            let gap = (d[d.len() - 1] - d[start]) - total_distance(
                laps_over(d, t, m, intervals_from(d, lap, cur, start, k)),
            );
            &&& 10 * gap < lap
            &&& non_decreasing(d) ==> 0 <= gap
        }),
    decreases d.len() - cur,
{
    let ivs = intervals_from(d, lap, cur, start, k);
    if cur >= d.len() {
        if 10 * (d[d.len() - 1] - d[start]) >= lap {
            assert(laps_over(d, t, m, ivs) =~= seq![lap_of(d, t, m, ivs[0])]);
            lemma_total_distance_cons(lap_of(d, t, m, ivs[0]), seq![]);
        } else {
            assert(laps_over(d, t, m, ivs) =~= Seq::<LapView>::empty());
        }
    } else if d[cur] > k * lap {
        let rest = intervals_from(d, lap, cur + 1, cur, k + 1);
        lemma_intervals_cover(d, t, m, lap, cur + 1, cur, k + 1);
        lemma_laps_over_cons(d, t, m, (k, start, cur), rest);
        lemma_total_distance_cons(lap_of(d, t, m, (k, start, cur)), laps_over(d, t, m, rest));
    } else {
        lemma_intervals_cover(d, t, m, lap, cur + 1, start, k);
    }
}

/// The laps' distances add up to the distance that the streams cover, less at
/// most one dropped trailing part shorter than a tenth of a lap; when the
/// distances never decrease, the laps cover no more than the streams.
pub proof fn lemma_laps_cover_distance(s: &Streams, lap: int)
    requires
        s.consistent(),
        lap > 0,
        s.size() > 0,
    ensures
        ({
            let d = s.dist();
            let gap = (d[d.len() - 1] - d[0]) - total_distance(segment_spec(s, lap));
            &&& 10 * gap < lap
            &&& non_decreasing(d) ==> 0 <= gap
        }),
{
    lemma_intervals_cover(s.dist(), s.times(), s.moves(), lap, 0, 0, 1);
}

proof fn lemma_stopped_when_moving(t: Seq<i32>, m: Seq<bool>, i: int, b: int, last: int)
    requires
        forall|j: int| i <= j <= b ==> m[j],
    ensures
        stopped_time(t, m, i, b, last) == 0,
    decreases b + 1 - i,
{
    if i <= b {
        lemma_stopped_when_moving(t, m, i + 1, b, t[i] as int);
    }
}

proof fn lemma_stopped_when_still(t: Seq<i32>, m: Seq<bool>, i: int, b: int)
    requires
        forall|j: int| i <= j <= b ==> !m[j],
    ensures
        stopped_time(t, m, i, b, 0) == time_sum(t, i, b),
    decreases b + 1 - i,
{
    if i <= b {
        lemma_stopped_when_still(t, m, i + 1, b);
    }
}

/// When every sample is moving, each lap's moving time is exactly the time
/// elapsed over its samples.
pub proof fn lemma_all_moving_laps(s: &Streams, lap: int)
    requires
        s.consistent(),
        forall|i: int| 0 <= i < s.size() ==> s.moves()[i],
    ensures
        forall|j: int|
            0 <= j < lap_intervals(s.dist(), lap).len() ==> (#[trigger] segment_spec(s, lap)[j]).2
                == s.times()[lap_intervals(s.dist(), lap)[j].2] - s.times()[lap_intervals(
                s.dist(),
                lap,
            )[j].1],
{
    let ivs = lap_intervals(s.dist(), lap);
    if s.size() > 0 {
        lemma_intervals_in_range(s.dist(), lap, 0, 0, 1);
    }
    assert forall|j: int| 0 <= j < ivs.len() implies (#[trigger] segment_spec(s, lap)[j]).2
        == s.times()[ivs[j].2] - s.times()[ivs[j].1] by {
        lemma_stopped_when_moving(s.times(), s.moves(), ivs[j].1, ivs[j].2, 0);
    }
}

/// When no sample is moving, every stopped sample is counted from the time
/// origin: a lap over samples `a..=b` has moving time `(t[b] - t[a]) - (t[a] + ... + t[b])`.
pub proof fn lemma_all_stopped_laps(s: &Streams, lap: int)
    requires
        s.consistent(),
        forall|i: int| 0 <= i < s.size() ==> !s.moves()[i],
    ensures
        forall|j: int|
            0 <= j < lap_intervals(s.dist(), lap).len() ==> ({
                let iv = lap_intervals(s.dist(), lap)[j];
                (#[trigger] segment_spec(s, lap)[j]).2 == (s.times()[iv.2] - s.times()[iv.1])
                    - time_sum(s.times(), iv.1, iv.2)
            }),
{
    let ivs = lap_intervals(s.dist(), lap);
    if s.size() > 0 {
        lemma_intervals_in_range(s.dist(), lap, 0, 0, 1);
    }
    assert forall|j: int| 0 <= j < ivs.len() implies (#[trigger] segment_spec(s, lap)[j]).2 == (
    s.times()[ivs[j].2] - s.times()[ivs[j].1]) - time_sum(s.times(), ivs[j].1, ivs[j].2) by {
        lemma_stopped_when_still(s.times(), s.moves(), ivs[j].1, ivs[j].2);
    }
}

} // verus!
