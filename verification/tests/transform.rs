use pendora::chart::{Chart, DifficultyPoint, EffectPoint, HitObject, HitObjectKind, SamplePoint,
    TimingPoint};
use pendora::codec::encode_chart;
use pendora::hash::hash_md5;
use pendora::numfmt::{format_rate, u64_to_string};
use pendora::processor::BeatmapProcessor;
use pendora::utils::{FileManager, build_file_path};

fn sample_chart() -> Chart {
    Chart {
        audio_file: String::from("song.mp3"),
        version: String::from("Insane"),
        mode: 3,
        key_count: 4,
        hit_objects: vec![
            HitObject { start_time: 1000, kind: HitObjectKind::Circle },
            HitObject { start_time: 2000, kind: HitObjectKind::Hold { duration: 600 } },
            HitObject { start_time: 3000, kind: HitObjectKind::Circle },
        ],
        timing_points: vec![TimingPoint { time: 0, beat_len: 400 }],
        effect_points: vec![EffectPoint { time: 1200 }],
        difficulty_points: vec![DifficultyPoint { time: 1500 }],
        sample_points: vec![SamplePoint { time: 1800 }],
    }
}

#[test]
fn number_formatting() {
    assert_eq!(u64_to_string(0), "0");
    assert_eq!(u64_to_string(7), "7");
    assert_eq!(u64_to_string(1234567890), "1234567890");
}

#[test]
fn rate_labels_have_one_decimal_digit() {
    assert_eq!(format_rate(70), "0.7");
    assert_eq!(format_rate(100), "1.0");
    assert_eq!(format_rate(120), "1.2");
    assert_eq!(format_rate(200), "2.0");
}

#[test]
fn scale_preserves_count_and_kinds() {
    let chart = sample_chart();
    let scaled = BeatmapProcessor::apply_rate(120, &chart).unwrap();
    assert_eq!(scaled.hit_objects.len(), chart.hit_objects.len());
    for (a, b) in chart.hit_objects.iter().zip(scaled.hit_objects.iter()) {
        assert_eq!(
            matches!(a.kind, HitObjectKind::Hold { .. }),
            matches!(b.kind, HitObjectKind::Hold { .. })
        );
    }
    assert_eq!(scaled.timing_points.len(), chart.timing_points.len());
}

#[test]
fn scale_rescales_every_time_field() {
    let chart = sample_chart();
    let scaled = BeatmapProcessor::apply_rate(120, &chart).unwrap();
    // 100 / 120 of each time, rounding toward zero
    assert_eq!(scaled.hit_objects[0].start_time, 833);
    assert_eq!(scaled.hit_objects[1].start_time, 1666);
    match scaled.hit_objects[1].kind {
        HitObjectKind::Hold { duration } => assert_eq!(duration, 500),
        _ => panic!("expected a hold"),
    }
    assert_eq!(scaled.timing_points[0].beat_len, 333);
    assert_eq!(scaled.effect_points[0].time, 1000);
    assert_eq!(scaled.difficulty_points[0].time, 1250);
    assert_eq!(scaled.sample_points[0].time, 1500);
}

#[test]
fn scale_rewrites_audio_and_label() {
    let chart = sample_chart();
    let scaled = BeatmapProcessor::apply_rate(120, &chart).unwrap();
    assert_eq!(scaled.audio_file, "song_r1.2.mp3");
    assert_eq!(scaled.version, "Insane 1.2x");
}

#[test]
fn scale_audio_without_extension_appends_suffix() {
    let mut chart = sample_chart();
    chart.audio_file = String::from("audio");
    let scaled = BeatmapProcessor::apply_rate(80, &chart).unwrap();
    assert_eq!(scaled.audio_file, "audio_r0.8");
}

#[test]
fn scale_rejects_zero_centirate() {
    let chart = sample_chart();
    assert!(BeatmapProcessor::apply_rate(0, &chart).is_err());
}

#[test]
fn scale_in_place_matches_pure_scale() {
    let chart = sample_chart();
    let scaled = BeatmapProcessor::apply_rate(150, &chart).unwrap();
    let mut in_place = sample_chart();
    BeatmapProcessor::apply_rate_to_beatmap(150, &mut in_place).unwrap();
    assert_eq!(encode_chart(&scaled), encode_chart(&in_place));
}

#[test]
fn unit_rate_still_processed() {
    let chart = sample_chart();
    let scaled = BeatmapProcessor::apply_rate(100, &chart).unwrap();
    assert_eq!(scaled.hit_objects[0].start_time, 1000);
    assert_eq!(scaled.audio_file, "song_r1.0.mp3");
    assert_eq!(scaled.version, "Insane 1.0x");
}

#[test]
fn encoding_is_exact() {
    let chart = Chart {
        audio_file: String::from("a.mp3"),
        version: String::from("v"),
        mode: 3,
        key_count: 4,
        hit_objects: vec![
            HitObject { start_time: 1000, kind: HitObjectKind::Circle },
            HitObject { start_time: 1500, kind: HitObjectKind::Hold { duration: 250 } },
        ],
        timing_points: vec![TimingPoint { time: 500, beat_len: 300 }],
        effect_points: vec![],
        difficulty_points: vec![],
        sample_points: vec![],
    };
    let encoded = encode_chart(&chart);
    assert_eq!(
        encoded,
        "A:5:a.mp3\nV:1:v\nM:3\nK:4\nH:2\nt:1000\nh:1500:250\nT:1\n500:300\nE:0\nD:0\nS:0\n"
    );
}

#[test]
fn encoding_same_chart_twice_gives_identical_digest() {
    let c1 = sample_chart();
    let c2 = sample_chart();
    let h1 = hash_md5(&encode_chart(&c1)).unwrap();
    let h2 = hash_md5(&encode_chart(&c2)).unwrap();
    assert_eq!(h1, h2);
}

#[test]
fn changing_one_timestamp_changes_the_digest() {
    let c1 = sample_chart();
    let mut c2 = sample_chart();
    c2.hit_objects[1].start_time += 1;
    let e1 = encode_chart(&c1);
    let e2 = encode_chart(&c2);
    assert_ne!(e1, e2);
    let h1 = hash_md5(&e1).unwrap();
    let h2 = hash_md5(&e2).unwrap();
    assert_ne!(h1, h2);
}

#[test]
fn md5_of_known_texts() {
    assert_eq!(hash_md5("").unwrap(), "d41d8cd98f00b204e9800998ecf8427e");
    assert_eq!(hash_md5("abc").unwrap(), "900150983cd24fb0d6963f7d28e17f72");
}

#[test]
fn fetch_url_and_storage_path() {
    assert_eq!(build_file_path(123), "https://osu.ppy.sh/osu/123");
    assert_eq!(
        FileManager::compressed_file_path(42, "abcdef"),
        "public/beatmap/42/abcdef.br"
    );
}
