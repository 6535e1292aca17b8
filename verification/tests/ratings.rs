use pendora::errors::BeatmapWorkerError;
use pendora::rating::{Proportion, Rates, RatesMaker, Rating, SkillVector, calculate_proportions,
    calculate_rate_data, create_all_ratings, create_etterna_rating, rates_from_skillset_scores,
    rating_new};

fn sample_vector() -> SkillVector {
    // sub-scores sum to the overall value (2800)
    SkillVector {
        overall: 2800,
        stream: 700,
        jumpstream: 560,
        handstream: 420,
        stamina: 350,
        jackspeed: 280,
        chordjack: 250,
        technical: 240,
    }
}

fn maker(sv: SkillVector, centirate: u32) -> RatesMaker {
    RatesMaker {
        skillset_scores: sv,
        osu_map: String::from("chart text"),
        centirate,
        drain_time: 180,
        total_time: 200,
        bpm: 150,
    }
}

#[test]
fn proportions_come_from_the_vector() {
    let m = maker(sample_vector(), 100);
    let p = calculate_proportions(&m).unwrap();
    assert_eq!(p.stream, 700);
    assert_eq!(p.technical, 240);
    assert_eq!(p.overall, 2800);
}

#[test]
fn degenerate_overall_is_an_error_not_a_breakdown() {
    let mut sv = sample_vector();
    sv.overall = 0;
    let m = maker(sv, 100);
    assert!(matches!(
        calculate_proportions(&m),
        Err(BeatmapWorkerError::MinacalcError(_))
    ));
    assert!(matches!(
        rates_from_skillset_scores(&m, String::from("h"), Some(5000), Some(21000)),
        Err(BeatmapWorkerError::MinacalcError(_))
    ));
}

#[test]
fn apportionment_is_exact_integer_arithmetic() {
    let p = Proportion {
        stream: 700,
        jumpstream: 560,
        handstream: 420,
        stamina: 350,
        jackspeed: 280,
        chordjack: 250,
        technical: 240,
        overall: 2800,
    };
    let r = rating_new(String::from("osu"), 5100, p);
    assert_eq!(r.rating, 5100);
    assert_eq!(r.rating_type, "osu");
    assert_eq!(r.mania_rating.stream, 5100u64 * 700 / 2800);
    assert_eq!(r.mania_rating.technical, 5100u64 * 240 / 2800);
}

#[test]
fn breakdown_sum_conserves_the_scalar_value() {
    // proportion conservation: with sub-scores summing to the overall value,
    // the breakdown of v sums back to v up to the rounding loss (< 7 units)
    let p = Proportion {
        stream: 701,
        jumpstream: 563,
        handstream: 419,
        stamina: 351,
        jackspeed: 283,
        chordjack: 247,
        technical: 236,
        overall: 2800,
    };
    let v: u64 = 5101;
    let r = rating_new(String::from("osu"), v as u32, p);
    let sum = r.mania_rating.stream + r.mania_rating.jumpstream + r.mania_rating.handstream
        + r.mania_rating.stamina + r.mania_rating.jackspeed + r.mania_rating.chordjack
        + r.mania_rating.technical;
    assert!(sum <= v);
    assert!(sum > v - 7);
}

#[test]
fn apportioning_the_overall_reproduces_the_vector() {
    // the proportions sum to one: apportioning the overall value itself
    // gives back the sub-scores exactly
    let sv = sample_vector();
    let m = maker(sv, 100);
    let p = calculate_proportions(&m).unwrap();
    let r = Rating::new(String::from("osu"), sv.overall, p);
    assert_eq!(r.mania_rating.stream, sv.stream as u64);
    assert_eq!(r.mania_rating.jumpstream, sv.jumpstream as u64);
    assert_eq!(r.mania_rating.handstream, sv.handstream as u64);
    assert_eq!(r.mania_rating.stamina, sv.stamina as u64);
    assert_eq!(r.mania_rating.jackspeed, sv.jackspeed as u64);
    assert_eq!(r.mania_rating.chordjack, sv.chordjack as u64);
    assert_eq!(r.mania_rating.technical, sv.technical as u64);
}

#[test]
fn rate_data_rescales_durations_and_tempo() {
    // drain 180s, total 200s, tempo 150 at 1.2x: 150s, 166s, 180
    let m = maker(sample_vector(), 120);
    let d = calculate_rate_data(&m);
    assert_eq!(d.centirate, 120);
    assert_eq!(d.drain_time, 150);
    assert_eq!(d.total_time, 166);
    assert_eq!(d.bpm, 180);
}

#[test]
fn etterna_rating_is_verbatim() {
    let m = maker(sample_vector(), 100);
    let r = create_etterna_rating(&m);
    assert_eq!(r.rating_type, "etterna");
    assert_eq!(r.rating, 2800);
    assert_eq!(r.mania_rating.stream, 700);
    assert_eq!(r.mania_rating.stamina, 350);
}

#[test]
fn all_three_sources_in_order() {
    let m = maker(sample_vector(), 100);
    let p = calculate_proportions(&m).unwrap();
    let rs = create_all_ratings(&m, p, Some(5000), Some(21000));
    assert_eq!(rs.len(), 3);
    assert_eq!(rs[0].rating_type, "etterna");
    assert_eq!(rs[1].rating_type, "sunnyxxy");
    assert_eq!(rs[2].rating_type, "osu");
    assert_eq!(rs[1].rating, 21000);
    assert_eq!(rs[2].rating, 5000);
}

#[test]
fn scalar_engine_failure_loses_only_its_rating() {
    let m = maker(sample_vector(), 100);
    let p = calculate_proportions(&m).unwrap();
    let rs = create_all_ratings(&m, p, None, Some(21000));
    assert_eq!(rs.len(), 2);
    assert_eq!(rs[0].rating_type, "etterna");
    assert_eq!(rs[1].rating_type, "sunnyxxy");
}

#[test]
fn full_variant_record() {
    let m = maker(sample_vector(), 120);
    let rates = Rates::from_skillset_scores(&m, String::from("cafebabe"), Some(5000), None)
        .unwrap();
    assert_eq!(rates.osu_hash.as_deref(), Some("cafebabe"));
    assert_eq!(rates.centirate, 120);
    assert_eq!(rates.drain_time, 150);
    assert_eq!(rates.total_time, 166);
    assert_eq!(rates.bpm, 180);
    assert_eq!(rates.rating.len(), 2);
    assert_eq!(rates.rating[0].rating_type, "etterna");
    assert_eq!(rates.rating[1].rating_type, "osu");
}
