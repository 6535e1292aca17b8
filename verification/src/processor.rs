//! The timing transform: rescaling a chart to a playback-speed multiplier.
//!
//! The multiplier is a "centirate": an integer with 100 standing for the
//! unmodified speed.  Scaling a chart to centirate `c` multiplies every
//! timestamp, duration and beat length by `100 / c` (integer division,
//! rounding toward zero), rewrites the audio reference so that distinct
//! multipliers never collide on the same name, and appends a human-readable
//! rate suffix to the display label.  No other field changes, and the source
//! chart itself is never mutated, so one chart can feed every multiplier.

use crate::chart::{
    Chart, DifficultyPoint, EffectPoint, HitObject, HitObjectKind, MAX_CHART_TIME, SamplePoint,
    TimingPoint, chart_time_ordered, chart_times_bounded, hold_duration, is_hold,
};
use crate::errors::BeatmapWorkerError;
use crate::numfmt::rate_label;
use vstd::prelude::*;

verus! {

/// A time rescaled to centirate `c`: multiplied by 100 and divided by `c`,
/// rounding toward zero.
pub open spec fn scale_time(t: int, c: int) -> int {
    100 * t / c
}

/// A hit-event rescaled to centirate `c`: start time and hold duration
/// scaled, the kind of event unchanged.
pub open spec fn scale_hit(h: HitObject, c: int) -> HitObject {
    HitObject {
        start_time: scale_time(h.start_time as int, c) as u64,
        kind: match h.kind {
            HitObjectKind::Circle => HitObjectKind::Circle,
            HitObjectKind::Hold { duration } => HitObjectKind::Hold {
                duration: scale_time(duration as int, c) as u64,
            },
        },
    }
}

/// A timing segment rescaled to centirate `c`.
pub open spec fn scale_timing_point(p: TimingPoint, c: int) -> TimingPoint {
    TimingPoint {
        time: scale_time(p.time as int, c) as u64,
        beat_len: scale_time(p.beat_len as int, c) as u64,
    }
}

/// An effect segment rescaled to centirate `c`.
pub open spec fn scale_effect_point(p: EffectPoint, c: int) -> EffectPoint {
    EffectPoint { time: scale_time(p.time as int, c) as u64 }
}

/// A difficulty segment rescaled to centirate `c`.
pub open spec fn scale_difficulty_point(p: DifficultyPoint, c: int) -> DifficultyPoint {
    DifficultyPoint { time: scale_time(p.time as int, c) as u64 }
}

/// A sample segment rescaled to centirate `c`.
pub open spec fn scale_sample_point(p: SamplePoint, c: int) -> SamplePoint {
    SamplePoint { time: scale_time(p.time as int, c) as u64 }
}

/// The index of the last '.' in `a`, or -1 if `a` holds none.
pub open spec fn last_dot(a: Seq<char>) -> int
    decreases a.len(),
{
    if a.len() == 0 {
        -1
    } else if a.last() == '.' {
        a.len() - 1
    } else {
        last_dot(a.drop_last())
    }
}

/// The audio reference rewritten for centirate `c`: "_r" and the rate label
/// inserted before the extension, or appended if there is no extension.
pub open spec fn rated_audio(a: Seq<char>, c: nat) -> Seq<char> {
    let suffix = seq!['_', 'r'] + rate_label(c);
    let di = last_dot(a);
    if di >= 0 {
        a.subrange(0, di) + suffix + a.subrange(di, a.len() as int)
    } else {
        a + suffix
    }
}

/// The display label with the human-readable rate suffix appended,
/// e.g. " 1.2x".
pub open spec fn rated_version(v: Seq<char>, c: nat) -> Seq<char> {
    v + seq![' '] + rate_label(c) + seq!['x']
}

/// What scaling a chart to centirate `c` produces: every time-indexed value
/// scaled, the audio reference and display label rewritten, everything else
/// unchanged.
pub open spec fn chart_scaled(m: Chart, c: nat, r: Chart) -> bool {
    &&& r.hit_objects@ == m.hit_objects@.map_values(|h: HitObject| scale_hit(h, c as int))
    &&& r.timing_points@ == m.timing_points@.map_values(
        |p: TimingPoint| scale_timing_point(p, c as int),
    )
    &&& r.effect_points@ == m.effect_points@.map_values(
        |p: EffectPoint| scale_effect_point(p, c as int),
    )
    &&& r.difficulty_points@ == m.difficulty_points@.map_values(
        |p: DifficultyPoint| scale_difficulty_point(p, c as int),
    )
    &&& r.sample_points@ == m.sample_points@.map_values(
        |p: SamplePoint| scale_sample_point(p, c as int),
    )
    &&& r.audio_file@ == rated_audio(m.audio_file@, c)
    &&& r.version@ == rated_version(m.version@, c)
    &&& r.mode == m.mode
    &&& r.key_count == m.key_count
}

/// Rescales a single time value.
fn scale_u64(t: u64, c: u32) -> (r: u64)
    requires
        c >= 1,
        t <= MAX_CHART_TIME,
    ensures
        r == scale_time(t as int, c as int),
{
    (t * 100) / (c as u64)
}

/// Rescales one hit-event.
fn scale_hit_exec(h: HitObject, c: u32) -> (r: HitObject)
    requires
        c >= 1,
        h.start_time <= MAX_CHART_TIME,
        hold_duration(h) <= MAX_CHART_TIME,
    ensures
        r == scale_hit(h, c as int),
{
    match h.kind {
        HitObjectKind::Circle => HitObject {
            start_time: scale_u64(h.start_time, c),
            kind: HitObjectKind::Circle,
        },
        HitObjectKind::Hold { duration } => HitObject {
            start_time: scale_u64(h.start_time, c),
            kind: HitObjectKind::Hold { duration: scale_u64(duration, c) },
        },
    }
}

/// If `a[k]` is a dot and no later character is, `k` is the last dot.
proof fn lemma_last_dot_at(a: Seq<char>, k: int)
    requires
        0 <= k < a.len(),
        a[k] == '.',
        forall|j: int| k < j < a.len() ==> a[j] != '.',
    ensures
        last_dot(a) == k,
    decreases a.len(),
{
    if k == a.len() - 1 {
    } else {
        assert(a.last() != '.');
        assert(forall|j: int| k < j < a.drop_last().len() ==> a.drop_last()[j] != '.');
        lemma_last_dot_at(a.drop_last(), k);
    }
}

/// If no character of `a` is a dot, there is no last dot.
proof fn lemma_last_dot_none(a: Seq<char>)
    requires
        forall|j: int| 0 <= j < a.len() ==> a[j] != '.',
    ensures
        last_dot(a) == -1,
    decreases a.len(),
{
    if a.len() > 0 {
        lemma_last_dot_none(a.drop_last());
    }
}

/// Applies the rate transforms on charts.
pub struct BeatmapProcessor;

impl BeatmapProcessor {
    /// Returns the chart rescaled to `centirate` (100 stands for the
    /// unmodified speed); a centirate of zero is rejected with a validation
    /// error.  The source chart is not touched.
    pub fn apply_rate(centirate: u32, map: &Chart) -> (r: Result<Chart, BeatmapWorkerError>)
        requires
            chart_times_bounded(*map),
        ensures
            centirate >= 1 ==> (r matches Ok(ch) && chart_scaled(*map, centirate as nat, ch)),
            centirate == 0 ==> (r matches Err(e) && e is ProcessingFailed),
    {
        if centirate == 0 {
            return Err(
                BeatmapWorkerError::ProcessingFailed(
                    String::from_str("centirate must be strictly positive"),
                ),
            );
        }
        let ghost c = centirate as int;

        let audio_file = Self::rated_audio_name(&map.audio_file, centirate);
        let version = Self::rated_version_label(&map.version, centirate);

        let mut hit_objects: Vec<HitObject> = Vec::new();
        let mut i: usize = 0;
        while i < map.hit_objects.len()
            invariant
                i <= map.hit_objects.len(),
                chart_times_bounded(*map),
                1 <= centirate,
                c == centirate as int,
                hit_objects@ =~= map.hit_objects@.take(i as int).map_values(
                    |h: HitObject| scale_hit(h, c),
                ),
            decreases map.hit_objects.len() - i,
        {
            let h = map.hit_objects[i];
            hit_objects.push(scale_hit_exec(h, centirate));
            proof {
                assert(hit_objects@ =~= map.hit_objects@.take(i + 1).map_values(
                    |h: HitObject| scale_hit(h, c),
                ));
            }
            i = i + 1;
        }

        let mut timing_points: Vec<TimingPoint> = Vec::new();
        let mut i: usize = 0;
        while i < map.timing_points.len()
            invariant
                i <= map.timing_points.len(),
                chart_times_bounded(*map),
                1 <= centirate,
                c == centirate as int,
                timing_points@ =~= map.timing_points@.take(i as int).map_values(
                    |p: TimingPoint| scale_timing_point(p, c),
                ),
            decreases map.timing_points.len() - i,
        {
            let p = map.timing_points[i];
            timing_points.push(
                TimingPoint {
                    time: scale_u64(p.time, centirate),
                    beat_len: scale_u64(p.beat_len, centirate),
                },
            );
            proof {
                assert(timing_points@ =~= map.timing_points@.take(i + 1).map_values(
                    |p: TimingPoint| scale_timing_point(p, c),
                ));
            }
            i = i + 1;
        }

        let mut effect_points: Vec<EffectPoint> = Vec::new();
        let mut i: usize = 0;
        while i < map.effect_points.len()
            invariant
                i <= map.effect_points.len(),
                chart_times_bounded(*map),
                1 <= centirate,
                c == centirate as int,
                effect_points@ =~= map.effect_points@.take(i as int).map_values(
                    |p: EffectPoint| scale_effect_point(p, c),
                ),
            decreases map.effect_points.len() - i,
        {
            let p = map.effect_points[i];
            effect_points.push(EffectPoint { time: scale_u64(p.time, centirate) });
            proof {
                assert(effect_points@ =~= map.effect_points@.take(i + 1).map_values(
                    |p: EffectPoint| scale_effect_point(p, c),
                ));
            }
            i = i + 1;
        }

        let mut difficulty_points: Vec<DifficultyPoint> = Vec::new();
        let mut i: usize = 0;
        while i < map.difficulty_points.len()
            invariant
                i <= map.difficulty_points.len(),
                chart_times_bounded(*map),
                1 <= centirate,
                c == centirate as int,
                difficulty_points@ =~= map.difficulty_points@.take(i as int).map_values(
                    |p: DifficultyPoint| scale_difficulty_point(p, c),
                ),
            decreases map.difficulty_points.len() - i,
        {
            let p = map.difficulty_points[i];
            difficulty_points.push(DifficultyPoint { time: scale_u64(p.time, centirate) });
            proof {
                assert(difficulty_points@ =~= map.difficulty_points@.take(i + 1).map_values(
                    |p: DifficultyPoint| scale_difficulty_point(p, c),
                ));
            }
            i = i + 1;
        }

        let mut sample_points: Vec<SamplePoint> = Vec::new();
        let mut i: usize = 0;
        while i < map.sample_points.len()
            invariant
                i <= map.sample_points.len(),
                chart_times_bounded(*map),
                1 <= centirate,
                c == centirate as int,
                sample_points@ =~= map.sample_points@.take(i as int).map_values(
                    |p: SamplePoint| scale_sample_point(p, c),
                ),
            decreases map.sample_points.len() - i,
        {
            let p = map.sample_points[i];
            sample_points.push(SamplePoint { time: scale_u64(p.time, centirate) });
            proof {
                assert(sample_points@ =~= map.sample_points@.take(i + 1).map_values(
                    |p: SamplePoint| scale_sample_point(p, c),
                ));
            }
            i = i + 1;
        }

        proof {
            assert(map.hit_objects@.take(map.hit_objects@.len() as int) =~= map.hit_objects@);
            assert(map.timing_points@.take(map.timing_points@.len() as int)
                =~= map.timing_points@);
            assert(map.effect_points@.take(map.effect_points@.len() as int)
                =~= map.effect_points@);
            assert(map.difficulty_points@.take(map.difficulty_points@.len() as int)
                =~= map.difficulty_points@);
            assert(map.sample_points@.take(map.sample_points@.len() as int)
                =~= map.sample_points@);
        }

        Ok(
            Chart {
                audio_file,
                version,
                mode: map.mode,
                key_count: map.key_count,
                hit_objects,
                timing_points,
                effect_points,
                difficulty_points,
                sample_points,
            },
        )
    }

    /// Rescales the chart in place.
    pub fn apply_rate_to_beatmap(centirate: u32, map: &mut Chart) -> (r: Result<
        (),
        BeatmapWorkerError,
    >)
        requires
            chart_times_bounded(*old(map)),
        ensures
            centirate >= 1 ==> (r is Ok && chart_scaled(*old(map), centirate as nat, *final(map))),
            centirate == 0 ==> (r is Err && *final(map) == *old(map)),
    {
        match Self::apply_rate(centirate, map) {
            Ok(scaled) => {
                *map = scaled;
                Ok(())
            },
            Err(e) => Err(e),
        }
    }

    /// The audio reference rewritten for the rate: "_r" and the rate label
    /// inserted before the last '.' of the name, or appended when the name
    /// has no '.'.
    fn rated_audio_name(audio: &String, centirate: u32) -> (r: String)
        ensures
            r@ == rated_audio(audio@, centirate as nat),
    {
        let a = audio.as_str();
        let n = a.unicode_len();
        let mut i: usize = n;
        let mut dot: usize = 0;
        let mut found = false;
        while i > 0 && !found
            invariant
                i <= n,
                n == a@.len(),
                found ==> (i < n && a@[i as int] == '.' && forall|j: int|
                    i < j < n ==> a@[j] != '.'),
                !found ==> forall|j: int| i <= j < n ==> a@[j] != '.',
                found ==> dot == i,
            decreases i + (if found { 0int } else { 1int }),
        {
            let ch = a.get_char(i - 1);
            if ch == '.' {
                found = true;
                dot = i - 1;
                i = i - 1;
            } else {
                i = i - 1;
            }
        }
        let mut s: String;
        if found {
            proof {
                lemma_last_dot_at(a@, dot as int);
            }
            let base = a.substring_char(0, dot);
            let ext = a.substring_char(dot, n);
            s = base.to_owned();
            s.append("_r");
            let label = crate::numfmt::format_rate(centirate);
            s.append(label.as_str());
            s.append(ext);
            proof {
                reveal_strlit("_r");
                assert(seq!['_', 'r'] =~= "_r"@);
                assert(s@ =~= rated_audio(audio@, centirate as nat));
            }
        } else {
            proof {
                lemma_last_dot_none(a@);
            }
            s = a.to_owned();
            s.append("_r");
            let label = crate::numfmt::format_rate(centirate);
            s.append(label.as_str());
            proof {
                reveal_strlit("_r");
                assert(seq!['_', 'r'] =~= "_r"@);
                assert(s@ =~= rated_audio(audio@, centirate as nat));
            }
        }
        s
    }

    /// The display label with the rate suffix appended, e.g. " 1.2x".
    fn rated_version_label(version: &String, centirate: u32) -> (r: String)
        ensures
            r@ == rated_version(version@, centirate as nat),
    {
        let mut s = version.clone();
        s.append(" ");
        let label = crate::numfmt::format_rate(centirate);
        s.append(label.as_str());
        s.append("x");
        proof {
            reveal_strlit(" ");
            reveal_strlit("x");
            assert(seq![' '] =~= " "@);
            assert(seq!['x'] =~= "x"@);
            assert(s@ =~= rated_version(version@, centirate as nat));
        }
        s
    }
}

/// Scaling preserves the event count and the kind of every event: only
/// timestamps and durations change.
pub proof fn lemma_scale_preserves_shape(m: Chart, c: nat, r: Chart)
    requires
        chart_scaled(m, c, r),
    ensures
        r.hit_objects@.len() == m.hit_objects@.len(),
        forall|i: int|
            0 <= i < m.hit_objects@.len() ==> is_hold(#[trigger] r.hit_objects@[i]) == is_hold(
                m.hit_objects@[i],
            ),
        r.timing_points@.len() == m.timing_points@.len(),
        r.effect_points@.len() == m.effect_points@.len(),
        r.difficulty_points@.len() == m.difficulty_points@.len(),
        r.sample_points@.len() == m.sample_points@.len(),
{
    assert forall|i: int| 0 <= i < m.hit_objects@.len() implies is_hold(
        #[trigger] r.hit_objects@[i],
    ) == is_hold(m.hit_objects@[i]) by {
        assert(r.hit_objects@[i] == scale_hit(m.hit_objects@[i], c as int));
    }
}

/// A scaled time is non-negative and at most a hundredfold of the source
/// time, so it stays within `u64`.
proof fn lemma_scale_time_bounds(t: int, c: int)
    requires
        0 <= t,
        c >= 1,
    ensures
        0 <= scale_time(t, c) <= 100 * t,
{
    vstd::arithmetic::div_mod::lemma_div_pos_is_pos(100 * t, c);
    vstd::arithmetic::div_mod::lemma_div_nonincreasing(100 * t, c);
}

/// Scaling is monotone in the time value.
proof fn lemma_scale_time_ordered(t1: int, t2: int, c: int)
    requires
        0 <= t1 <= t2,
        c >= 1,
    ensures
        scale_time(t1, c) <= scale_time(t2, c),
{
    vstd::arithmetic::div_mod::lemma_div_is_ordered(100 * t1, 100 * t2, c);
}

/// Scaling by a positive centirate preserves time order in every
/// substructure of the chart.
pub proof fn lemma_scale_preserves_order(m: Chart, c: nat, r: Chart)
    requires
        chart_scaled(m, c, r),
        chart_time_ordered(m),
        chart_times_bounded(m),
        c >= 1,
    ensures
        chart_time_ordered(r),
{
    let ci = c as int;
    assert forall|a: int, b: int|
        0 <= a <= b < r.hit_objects@.len() implies (#[trigger] r.hit_objects@[a]).start_time <= (
    #[trigger] r.hit_objects@[b]).start_time by {
        assert(r.hit_objects@[a] == scale_hit(m.hit_objects@[a], ci));
        assert(r.hit_objects@[b] == scale_hit(m.hit_objects@[b], ci));
        let t1 = m.hit_objects@[a].start_time as int;
        let t2 = m.hit_objects@[b].start_time as int;
        lemma_scale_time_bounds(t1, ci);
        lemma_scale_time_bounds(t2, ci);
        lemma_scale_time_ordered(t1, t2, ci);
    }
    assert forall|a: int, b: int|
        0 <= a <= b < r.timing_points@.len() implies (#[trigger] r.timing_points@[a]).time <= (
    #[trigger] r.timing_points@[b]).time by {
        assert(r.timing_points@[a] == scale_timing_point(m.timing_points@[a], ci));
        assert(r.timing_points@[b] == scale_timing_point(m.timing_points@[b], ci));
        let t1 = m.timing_points@[a].time as int;
        let t2 = m.timing_points@[b].time as int;
        lemma_scale_time_bounds(t1, ci);
        lemma_scale_time_bounds(t2, ci);
        lemma_scale_time_ordered(t1, t2, ci);
    }
    assert forall|a: int, b: int|
        0 <= a <= b < r.effect_points@.len() implies (#[trigger] r.effect_points@[a]).time <= (
    #[trigger] r.effect_points@[b]).time by {
        assert(r.effect_points@[a] == scale_effect_point(m.effect_points@[a], ci));
        assert(r.effect_points@[b] == scale_effect_point(m.effect_points@[b], ci));
        let t1 = m.effect_points@[a].time as int;
        let t2 = m.effect_points@[b].time as int;
        lemma_scale_time_bounds(t1, ci);
        lemma_scale_time_bounds(t2, ci);
        lemma_scale_time_ordered(t1, t2, ci);
    }
    assert forall|a: int, b: int|
        0 <= a <= b < r.difficulty_points@.len() implies (#[trigger] r.difficulty_points@[a]).time
        <= (#[trigger] r.difficulty_points@[b]).time by {
        assert(r.difficulty_points@[a] == scale_difficulty_point(m.difficulty_points@[a], ci));
        assert(r.difficulty_points@[b] == scale_difficulty_point(m.difficulty_points@[b], ci));
        let t1 = m.difficulty_points@[a].time as int;
        let t2 = m.difficulty_points@[b].time as int;
        lemma_scale_time_bounds(t1, ci);
        lemma_scale_time_bounds(t2, ci);
        lemma_scale_time_ordered(t1, t2, ci);
    }
    assert forall|a: int, b: int|
        0 <= a <= b < r.sample_points@.len() implies (#[trigger] r.sample_points@[a]).time <= (
    #[trigger] r.sample_points@[b]).time by {
        assert(r.sample_points@[a] == scale_sample_point(m.sample_points@[a], ci));
        assert(r.sample_points@[b] == scale_sample_point(m.sample_points@[b], ci));
        let t1 = m.sample_points@[a].time as int;
        let t2 = m.sample_points@[b].time as int;
        lemma_scale_time_bounds(t1, ci);
        lemma_scale_time_bounds(t2, ci);
        lemma_scale_time_ordered(t1, t2, ci);
    }
}

} // verus!
