use pendora::chart::{Chart, HitObject, HitObjectKind, TimingPoint};
use pendora::compression::{CompressionManager, CompressionResult};
use pendora::config::Config;
use pendora::errors::{BeatmapWorkerError, ConfigError};
use pendora::pipeline::{RateBlob, ScalarEntry, SkillEntry, process_beatmap, process_single_rate,
    rate_menu};
use pendora::rating::{ManiaRating, Rates, Rating, SkillVector};
use pendora::records::{Beatmap, Beatmapset, beatmapset_from_beatmapset_extended,
    convert_beatmap_extended, convert_to_row_beatmapset, split_tags};
use pendora::store::{BeatmapRow, BeatmapsetRow, Store, insert_full_beatmapset};
use pendora::utils::{GameMode, RankStatus, count_long_notes, determine_main_pattern,
    is_allowed_beatmap, rank_status_to_string};
use pendora::worker::{PendingPhase, StepOutcome, advance_phase, phase_terminal_exec};

fn small_chart() -> Chart {
    Chart {
        audio_file: String::from("song.ogg"),
        version: String::from("4K Hard"),
        mode: 3,
        key_count: 4,
        hit_objects: vec![
            HitObject { start_time: 500, kind: HitObjectKind::Circle },
            HitObject { start_time: 900, kind: HitObjectKind::Hold { duration: 300 } },
        ],
        timing_points: vec![TimingPoint { time: 0, beat_len: 500 }],
        effect_points: vec![],
        difficulty_points: vec![],
        sample_points: vec![],
    }
}

fn vector(overall: u32) -> SkillVector {
    SkillVector {
        overall,
        stream: 700,
        jumpstream: 560,
        handstream: 420,
        stamina: 350,
        jackspeed: 280,
        chordjack: 250,
        technical: 240,
    }
}

fn full_skill_map() -> Vec<SkillEntry> {
    let mut entries = Vec::new();
    for c in [70u32, 80, 90, 100, 110, 120, 130, 140, 150, 160, 170, 180, 190, 200] {
        entries.push(SkillEntry {
            key: format!("{}.{}", c / 100, (c / 10) % 10),
            scores: vector(2800 + c),
        });
    }
    entries
}

fn empty_record() -> Beatmap {
    convert_beatmap_extended(
        77,
        String::from("4K Hard"),
        100,
        0,
        0,
        Some(250),
        4000,
        5000,
        8000,
        7000,
        3,
        RankStatus::Ranked,
    )
}

#[test]
fn menu_holds_fourteen_rates() {
    let menu = rate_menu();
    assert_eq!(menu.len(), 14);
    assert_eq!(menu[0], 70);
    assert_eq!(menu[13], 200);
}

#[test]
fn menu_completeness_one_variant_per_multiplier() {
    let chart = small_chart();
    let mut row = empty_record();
    let text = String::from("chart text");
    let blobs = process_beatmap(
        &mut row,
        &chart,
        &full_skill_map(),
        &vec![ScalarEntry { centirate: 100, value: 5000 }],
        &vec![],
        &text,
        180,
        200,
        150,
        77,
    );
    assert_eq!(blobs.len(), 14);
    assert_eq!(row.rates.len(), 14);
    let mut seen: Vec<u32> = row.rates.iter().map(|r| r.centirate).collect();
    assert_eq!(
        seen,
        vec![70, 80, 90, 100, 110, 120, 130, 140, 150, 160, 170, 180, 190, 200]
    );
    seen.dedup();
    assert_eq!(seen.len(), 14);
}

#[test]
fn missing_multiplier_is_skipped_alone() {
    let chart = small_chart();
    let mut row = empty_record();
    let text = String::from("chart text");
    let map: Vec<SkillEntry> = full_skill_map()
        .into_iter()
        .filter(|e| e.key != "1.3")
        .collect();
    let blobs = process_beatmap(&mut row, &chart, &map, &vec![], &vec![], &text, 180, 200, 150, 77);
    assert_eq!(blobs.len(), 13);
    assert_eq!(row.rates.len(), 13);
    assert!(row.rates.iter().all(|r| r.centirate != 130));
    assert!(row.rates.iter().any(|r| r.centirate == 140));
}

#[test]
fn degenerate_overall_skips_only_that_multiplier() {
    let chart = small_chart();
    let mut row = empty_record();
    let text = String::from("chart text");
    let mut map = full_skill_map();
    map[3].scores.overall = 0; // the entry keyed "1.0"
    let blobs = process_beatmap(&mut row, &chart, &map, &vec![], &vec![], &text, 180, 200, 150, 77);
    assert_eq!(blobs.len(), 13);
    assert!(row.rates.iter().all(|r| r.centirate != 100));
}

#[test]
fn variants_carry_hash_path_and_scaled_fields() {
    let chart = small_chart();
    let mut row = empty_record();
    let text = String::from("chart text");
    let blobs = process_beatmap(
        &mut row,
        &chart,
        &full_skill_map(),
        &vec![ScalarEntry { centirate: 120, value: 5000 }],
        &vec![ScalarEntry { centirate: 120, value: 21000 }],
        &text,
        180,
        200,
        150,
        77,
    );
    let i = row.rates.iter().position(|r| r.centirate == 120).unwrap();
    let rates = &row.rates[i];
    assert_eq!(rates.drain_time, 150);
    assert_eq!(rates.total_time, 166);
    assert_eq!(rates.bpm, 180);
    assert_eq!(rates.osu_hash.as_deref().unwrap().len(), 32);
    assert_eq!(rates.osu_hash.as_deref().unwrap(), blobs[i].hash.as_str());
    assert!(blobs[i].file_path.starts_with("public/beatmap/77/"));
    assert!(blobs[i].file_path.ends_with(".br"));
    assert_eq!(rates.rating.len(), 3);
    // the other multipliers have no scalar entries: vector source only
    let j = row.rates.iter().position(|r| r.centirate == 70).unwrap();
    assert_eq!(row.rates[j].rating.len(), 1);
}

#[test]
fn single_rate_artifacts_are_content_addressed() {
    let chart = small_chart();
    let b1: RateBlob = process_single_rate(120, &chart, 9).unwrap();
    let b2: RateBlob = process_single_rate(120, &chart, 9).unwrap();
    assert_eq!(b1.hash, b2.hash);
    assert_eq!(b1.file_path, format!("public/beatmap/9/{}.br", b1.hash));
    let b3 = process_single_rate(130, &chart, 9).unwrap();
    assert_ne!(b1.hash, b3.hash);
    assert!(process_single_rate(0, &chart, 9).is_err());
}

#[test]
fn compression_roundtrips() {
    let text = "some chart text, repeated enough to compress: la la la la la la";
    let cr: CompressionResult = CompressionManager::compress_string(text).unwrap();
    assert_eq!(cr.original_size, text.len());
    assert_eq!(cr.compressed_size, cr.compressed_data.len());
    let mut input: &[u8] = &cr.compressed_data;
    let mut out: Vec<u8> = Vec::new();
    brotli::BrotliDecompress(&mut input, &mut out).unwrap();
    assert_eq!(out, text.as_bytes());
}

#[test]
fn saved_bytes_counts_the_difference() {
    let cr = CompressionResult::from_parts(100, vec![1, 2, 3, 4]);
    assert_eq!(cr.compressed_size, 4);
    assert_eq!(cr.saved_bytes(), 96);
}

#[test]
fn upsert_same_external_id_twice_reuses_the_row() {
    let mut store = Store::new();
    let row = BeatmapsetRow {
        id: 0,
        osu_id: Some(555),
        artist: String::from("a"),
        artist_unicode: None,
        title: String::from("t"),
        title_unicode: None,
        creator: String::from("c"),
        source: None,
        tags: None,
        has_video: false,
        has_storyboard: false,
        is_explicit: false,
        is_featured: false,
        cover_url: None,
        preview_url: None,
        osu_file_url: None,
    };
    let id1 = store.upsert_beatmapset(row.clone());
    let id2 = store.upsert_beatmapset(row);
    assert_eq!(id1, id2);
    assert_eq!(store.beatmapsets.len(), 1);
}

#[test]
fn upsert_beatmap_is_idempotent_too() {
    let mut store = Store::new();
    let row = BeatmapRow {
        id: 0,
        osu_id: Some(42),
        beatmapset_id: Some(1),
        difficulty: String::from("d"),
        count_circles: 0,
        count_sliders: 0,
        count_spinners: 0,
        max_combo: 0,
        main_pattern: vec![],
        cs: 4000,
        ar: 0,
        od: 0,
        hp: 0,
        mode: 3,
        status: String::from("ranked"),
    };
    let id1 = store.upsert_beatmap(row.clone());
    let id2 = store.upsert_beatmap(row);
    assert_eq!(id1, id2);
    assert_eq!(store.beatmaps.len(), 1);
}

fn small_set() -> Beatmapset {
    let mut set = convert_to_row_beatmapset(
        900,
        String::from("Artist"),
        None,
        String::from("Title"),
        Some(String::from("TitleU")),
        String::from("Creator"),
        String::from("Source"),
        false,
        true,
        false,
        String::from("cover"),
        String::from("preview"),
    );
    set.tags = Some(String::from("stream  tech jack"));
    let mut map = empty_record();
    map.rates.push(Rates {
        osu_hash: Some(String::from("deadbeef")),
        centirate: 120,
        drain_time: 150,
        total_time: 166,
        bpm: 180,
        rating: vec![Rating {
            rates_id: None,
            rating: 2800,
            rating_type: String::from("etterna"),
            mania_rating: ManiaRating {
                stream: 700,
                jumpstream: 560,
                handstream: 420,
                stamina: 350,
                jackspeed: 280,
                chordjack: 250,
                technical: 240,
            },
        }],
    });
    set.beatmaps.push(map);
    set
}

#[test]
fn insert_full_set_writes_the_hierarchy() {
    let mut store = Store::new();
    let set = small_set();
    let set_id = insert_full_beatmapset(&mut store, &set).unwrap();
    assert_eq!(set_id, 1);
    assert_eq!(store.beatmapsets.len(), 1);
    assert_eq!(
        store.beatmapsets[0].tags.as_ref().unwrap(),
        &vec![String::from("stream"), String::from("tech"), String::from("jack")]
    );
    assert_eq!(store.beatmaps.len(), 1);
    assert_eq!(store.beatmaps[0].beatmapset_id, Some(1));
    assert_eq!(store.rates.len(), 1);
    assert_eq!(store.rates[0].beatmap_id, store.beatmaps[0].id);
    assert_eq!(store.rates[0].osu_hash, "deadbeef");
    assert_eq!(store.ratings.len(), 1);
    assert_eq!(store.ratings[0].rates_id, Some(store.rates[0].id));
    assert_eq!(store.ratings[0].rating_type, "etterna");
    assert_eq!(store.mania_ratings.len(), 1);
    assert_eq!(store.mania_ratings[0].rating_id, Some(store.ratings[0].id));
    assert_eq!(store.mania_ratings[0].stream, Some(700));
}

#[test]
fn reinserting_a_set_reuses_ids_but_appends_variants() {
    let mut store = Store::new();
    let set = small_set();
    let id1 = insert_full_beatmapset(&mut store, &set).unwrap();
    let id2 = insert_full_beatmapset(&mut store, &set).unwrap();
    assert_eq!(id1, id2);
    assert_eq!(store.beatmapsets.len(), 1);
    assert_eq!(store.beatmaps.len(), 1);
    // variants and ratings are never deduplicated
    assert_eq!(store.rates.len(), 2);
    assert_eq!(store.ratings.len(), 2);
    assert_eq!(store.mania_ratings.len(), 2);
}

#[test]
fn tag_lines_split_on_spaces() {
    assert_eq!(split_tags("a  b c"), vec!["a", "b", "c"]);
    assert_eq!(split_tags(""), Vec::<String>::new());
    assert_eq!(split_tags("   "), Vec::<String>::new());
    assert_eq!(split_tags("solo"), vec!["solo"]);
}

#[test]
fn converted_set_defaults() {
    let set = convert_to_row_beatmapset(
        900,
        String::from("Artist"),
        None,
        String::from("Title"),
        None,
        String::from("Creator"),
        String::from("Source"),
        true,
        false,
        false,
        String::from("cover"),
        String::from("preview"),
    );
    assert_eq!(set.osu_id, Some(900));
    assert_eq!(set.artist_unicode.as_deref(), Some("Unknown"));
    assert_eq!(set.title_unicode.as_deref(), Some("Unknown"));
    assert_eq!(set.osu_file_url.as_deref(), Some("Source"));
    assert!(!set.is_featured);
    assert!(set.tags.is_none());
    assert!(set.beatmaps.is_empty());
}

#[test]
fn converted_set_with_timestamp() {
    let set = beatmapset_from_beatmapset_extended(
        900,
        String::from("Artist"),
        Some(String::from("ArtistU")),
        String::from("Title"),
        None,
        String::from("Creator"),
        String::from("Source"),
        false,
        false,
        true,
        String::from("cover"),
        String::from("preview"),
        1700000000,
    );
    assert_eq!(set.osu_status_changed_at, Some(1700000000));
    assert_eq!(set.artist_unicode.as_deref(), Some("ArtistU"));
    assert!(set.is_explicit);
}

#[test]
fn converted_chart_record() {
    let record = empty_record();
    assert_eq!(record.osu_id, Some(77));
    assert_eq!(record.status, "ranked");
    assert_eq!(record.max_combo, 250);
    assert!(record.rates.is_empty());
    assert!(record.main_pattern.is_empty());
}

#[test]
fn admission_requires_four_key_mania() {
    assert!(is_allowed_beatmap(GameMode::Mania, 4));
    assert!(!is_allowed_beatmap(GameMode::Mania, 7));
    assert!(!is_allowed_beatmap(GameMode::Osu, 4));
}

#[test]
fn status_names() {
    assert_eq!(rank_status_to_string(&RankStatus::Ranked), "ranked");
    assert_eq!(rank_status_to_string(&RankStatus::Pending), "pending");
    assert_eq!(rank_status_to_string(&RankStatus::WIP), "wip");
    assert_eq!(rank_status_to_string(&RankStatus::Loved), "loved");
}

#[test]
fn long_notes_are_counted() {
    let chart = small_chart();
    assert_eq!(count_long_notes(&chart), 1);
}

#[test]
fn main_pattern_names_the_two_strongest_styles() {
    let sv = SkillVector {
        overall: 2800,
        stream: 100,
        jumpstream: 900,
        handstream: 900,
        stamina: 9999,
        jackspeed: 200,
        chordjack: 300,
        technical: 250,
    };
    // stamina never names a pattern; ties keep candidate order
    let chart = small_chart();
    let pattern = determine_main_pattern(&sv, &chart);
    assert_eq!(pattern, vec!["jumpstream", "handstream"]);
}

#[test]
fn main_pattern_tags_hold_heavy_charts() {
    let mut chart = small_chart();
    chart.hit_objects = vec![
        HitObject { start_time: 100, kind: HitObjectKind::Hold { duration: 50 } },
        HitObject { start_time: 200, kind: HitObjectKind::Hold { duration: 50 } },
        HitObject { start_time: 300, kind: HitObjectKind::Hold { duration: 50 } },
        HitObject { start_time: 400, kind: HitObjectKind::Hold { duration: 50 } },
        HitObject { start_time: 500, kind: HitObjectKind::Circle },
    ];
    let sv = vector(2800);
    // 4 of 5 events are holds: more than four fifths is needed for "LN"
    let pattern = determine_main_pattern(&sv, &chart);
    assert_eq!(pattern, vec!["Hybrid", "stream", "jumpstream"]);
    chart.hit_objects.push(HitObject {
        start_time: 600,
        kind: HitObjectKind::Hold { duration: 50 },
    });
    chart.hit_objects.push(HitObject {
        start_time: 700,
        kind: HitObjectKind::Hold { duration: 50 },
    });
    chart.hit_objects.push(HitObject {
        start_time: 800,
        kind: HitObjectKind::Hold { duration: 50 },
    });
    chart.hit_objects.push(HitObject {
        start_time: 900,
        kind: HitObjectKind::Hold { duration: 50 },
    });
    // 8 of 9 events are holds: above four fifths
    let pattern = determine_main_pattern(&sv, &chart);
    assert_eq!(pattern, vec!["LN", "stream", "jumpstream"]);
}

#[test]
fn error_categories() {
    assert_eq!(
        BeatmapWorkerError::ProcessingFailed(String::from("x")).category(),
        "processing failed"
    );
    assert_eq!(
        BeatmapWorkerError::MinacalcError(String::from("x")).category(),
        "rating data error"
    );
    assert_eq!(
        BeatmapWorkerError::DatabaseError(String::from("x")).category(),
        "database error"
    );
    assert_eq!(
        BeatmapWorkerError::InitializationFailed(String::from("x")).category(),
        "initialization failed"
    );
    assert_eq!(
        ConfigError::MissingVariable(String::from("X")).category(),
        "missing environment variable"
    );
    assert_eq!(
        ConfigError::EnvLoadError(String::from("X")).category(),
        "environment load error"
    );
}

#[test]
fn default_config() {
    let c = Config::default();
    assert_eq!(c.database_url, "sqlite:///pendora.db");
    assert_eq!(c.osu_client_id, "");
    let c2 = Config::with_defaults();
    assert_eq!(c2.discord_bot_token, "");
}

#[test]
fn pending_item_phases() {
    let mut phase = PendingPhase::Fetched;
    for _ in 0..4 {
        assert!(!phase_terminal_exec(phase));
        phase = advance_phase(phase, StepOutcome::Success);
    }
    assert_eq!(phase, PendingPhase::Persisted);
    assert!(phase_terminal_exec(phase));
    // a terminal state is never retried
    assert_eq!(advance_phase(phase, StepOutcome::Success), PendingPhase::Persisted);
    // a recoverable error abandons the item from any stage
    assert_eq!(
        advance_phase(PendingPhase::Parsed, StepOutcome::RecoverableError),
        PendingPhase::Skipped
    );
    // a persistence error during the final write fails the item
    assert_eq!(
        advance_phase(PendingPhase::Assembled, StepOutcome::PersistenceError),
        PendingPhase::Failed
    );
}

#[test]
fn duplicate_chart_in_one_set_is_not_written_twice() {
    let mut store = Store::new();
    let mut set = small_set();
    let copy = set.beatmaps[0].clone();
    set.beatmaps.push(copy);
    let set_id = insert_full_beatmapset(&mut store, &set).unwrap();
    assert_eq!(set_id, 1);
    // the second chart carries the same external id: one row, two variants
    assert_eq!(store.beatmaps.len(), 1);
    assert_eq!(store.rates.len(), 2);
    assert_eq!(store.rates[0].beatmap_id, store.beatmaps[0].id);
    assert_eq!(store.rates[1].beatmap_id, store.beatmaps[0].id);
    assert_eq!(store.ratings[0].rates_id, Some(store.rates[0].id));
    assert_eq!(store.ratings[1].rates_id, Some(store.rates[1].id));
}
