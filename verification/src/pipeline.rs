//! The variant pipeline: one fully-formed rate-variant per multiplier of
//! the fixed menu.
//!
//! For each menu multiplier the pipeline rescales the chart, encodes it,
//! derives the content hash and storage path, compresses the encoding, and
//! reconciles the rating sources into the variant's record.  The skill
//! vectors are computed once for the whole menu by the vector engine and
//! handed in keyed by rate label; a multiplier whose key is missing — or
//! whose skill vector carries an overall of zero — is skipped, and the other
//! multipliers are unaffected.  Writing the compressed blobs to disk is the
//! caller's part: the pipeline returns the bytes and the path for each
//! variant.

use crate::chart::{Chart, HitObject, chart_times_bounded};
use crate::codec::{encode_chart, hits_enc, num_line, text_block, timings_enc, effects_enc,
    difficulties_enc, samples_enc};
use crate::compression::{CompressionManager, CompressionResult, brotli_of};
use crate::errors::BeatmapWorkerError;
use crate::hash::{hash_md5, md5_hex_of};
use crate::numfmt::{dec_of, rate_label};
use crate::processor::{BeatmapProcessor, scale_hit, scale_timing_point, scale_effect_point,
    scale_difficulty_point, scale_sample_point, rated_audio, rated_version};
use crate::rating::{Rates, RatesMaker, SkillVector, proportion_of, rates_from_skillset_scores,
    ratings_expected, rates_maker_valid};
use crate::records::Beatmap;
use crate::utils::{FileManager, determine_main_pattern, hold_count, is_main_pattern};
use vstd::prelude::*;

verus! {

/// The canonical encoding of the chart as rescaled to centirate `c`,
/// written out over the source chart's views.
pub open spec fn scaled_encoding(m: Chart, c: nat) -> Seq<char> {
    text_block('A', rated_audio(m.audio_file@, c)) + text_block('V', rated_version(m.version@, c))
        + num_line('M', m.mode as nat) + num_line('K', m.key_count as nat) + num_line(
        'H',
        m.hit_objects@.len(),
    ) + hits_enc(m.hit_objects@.map_values(|h: HitObject| scale_hit(h, c as int))) + num_line(
        'T',
        m.timing_points@.len(),
    ) + timings_enc(
        m.timing_points@.map_values(|p: crate::chart::TimingPoint| scale_timing_point(p, c as int)),
    ) + num_line('E', m.effect_points@.len()) + effects_enc(
        m.effect_points@.map_values(|p: crate::chart::EffectPoint| scale_effect_point(p, c as int)),
    ) + num_line('D', m.difficulty_points@.len()) + difficulties_enc(
        m.difficulty_points@.map_values(
            |p: crate::chart::DifficultyPoint| scale_difficulty_point(p, c as int),
        ),
    ) + num_line('S', m.sample_points@.len()) + samples_enc(
        m.sample_points@.map_values(|p: crate::chart::SamplePoint| scale_sample_point(p, c as int)),
    )
}

/// The stored artifacts of one variant: the content hash of its canonical
/// encoding, the storage path derived from the chart id and the hash, and
/// the compressed encoding — absent when compression failed, which loses
/// only this variant's blob.
#[derive(Debug, Clone)]
pub struct RateBlob {
    pub hash: String,
    pub file_path: String,
    pub compressed: Option<CompressionResult>,
}

/// What the artifacts of one variant hold, relative to the source chart and
/// the multiplier.
pub open spec fn blob_ok(m: Chart, c: u32, beatmap_id: u32, blob: RateBlob) -> bool {
    &&& blob.hash@ == md5_hex_of(scaled_encoding(m, c as nat))
    &&& blob.hash@.len() == 32
    &&& blob.file_path@ == "public/beatmap/"@ + dec_of(beatmap_id as nat) + "/"@ + blob.hash@
        + ".br"@
    &&& (blob.compressed matches Some(cr) && cr.compressed_data@ == brotli_of(
        vstd::utf8::encode_utf8(scaled_encoding(m, c as nat)),
    ) && cr.original_size == vstd::utf8::encode_utf8(scaled_encoding(m, c as nat)).len()
        && cr.compressed_size == cr.compressed_data@.len())
}

/// Processes one multiplier's artifacts: rescales the chart, encodes it,
/// hashes and compresses the encoding, and derives the storage path.
pub fn process_single_rate(centirate: u32, maps: &Chart, beatmap_id: u32) -> (r: Result<
    RateBlob,
    BeatmapWorkerError,
>)
    requires
        chart_times_bounded(*maps),
    ensures
        centirate == 0 ==> r is Err,
        centirate >= 1 ==> (r matches Ok(blob) && blob_ok(*maps, centirate, beatmap_id, blob)),
{
    let processed_map = match BeatmapProcessor::apply_rate(centirate, maps) {
        Ok(p) => p,
        Err(e) => {
            return Err(e);
        },
    };
    let encoded = encode_chart(&processed_map);
    proof {
        assert(encoded@ == scaled_encoding(*maps, centirate as nat));
    }
    let hash = match hash_md5(encoded.as_str()) {
        Ok(h) => h,
        Err(e) => {
            return Err(BeatmapWorkerError::ProcessingFailed(e));
        },
    };
    let file_path = FileManager::compressed_file_path(beatmap_id, hash.as_str());
    let compressed = match CompressionManager::compress_string(encoded.as_str()) {
        Ok(cr) => Some(cr),
        Err(_) => None,
    };
    Ok(RateBlob { hash, file_path, compressed })
}

/// One entry of the skill-vector map: the rate label the vector engine
/// keyed its batch output by, and the skill vector for that rate.
#[derive(Debug, Clone)]
pub struct SkillEntry {
    pub key: String,
    pub scores: SkillVector,
}

/// One entry of a scalar engine's output map, keyed by centirate.  A menu
/// multiplier without an entry counts as a failure of that engine for that
/// variant alone.
#[derive(Debug, Clone, Copy, PartialEq, Eq, Structural)]
pub struct ScalarEntry {
    pub centirate: u32,
    pub value: u32,
}

/// The first skill vector whose key spells `key`.
pub open spec fn skill_lookup(entries: Seq<SkillEntry>, key: Seq<char>) -> Option<SkillVector>
    decreases entries.len(),
{
    if entries.len() == 0 {
        None
    } else if entries[0].key@ == key {
        Some(entries[0].scores)
    } else {
        skill_lookup(entries.drop_first(), key)
    }
}

/// The first scalar value recorded for `centirate`.
pub open spec fn scalar_lookup(entries: Seq<ScalarEntry>, centirate: u32) -> Option<u32>
    decreases entries.len(),
{
    if entries.len() == 0 {
        None
    } else if entries[0].centirate == centirate {
        Some(entries[0].value)
    } else {
        scalar_lookup(entries.drop_first(), centirate)
    }
}

proof fn lemma_skill_lookup_hit(entries: Seq<SkillEntry>, key: Seq<char>, i: int)
    requires
        0 <= i < entries.len(),
        entries[i].key@ == key,
        forall|j: int| 0 <= j < i ==> entries[j].key@ != key,
    ensures
        skill_lookup(entries, key) == Some(entries[i].scores),
    decreases i,
{
    if i > 0 {
        lemma_skill_lookup_hit(entries.drop_first(), key, i - 1);
    }
}

proof fn lemma_skill_lookup_miss(entries: Seq<SkillEntry>, key: Seq<char>)
    requires
        forall|j: int| 0 <= j < entries.len() ==> entries[j].key@ != key,
    ensures
        skill_lookup(entries, key) is None,
    decreases entries.len(),
{
    if entries.len() > 0 {
        lemma_skill_lookup_miss(entries.drop_first(), key);
    }
}

proof fn lemma_scalar_lookup_hit(entries: Seq<ScalarEntry>, centirate: u32, i: int)
    requires
        0 <= i < entries.len(),
        entries[i].centirate == centirate,
        forall|j: int| 0 <= j < i ==> entries[j].centirate != centirate,
    ensures
        scalar_lookup(entries, centirate) == Some(entries[i].value),
    decreases i,
{
    if i > 0 {
        lemma_scalar_lookup_hit(entries.drop_first(), centirate, i - 1);
    }
}

proof fn lemma_scalar_lookup_miss(entries: Seq<ScalarEntry>, centirate: u32)
    requires
        forall|j: int| 0 <= j < entries.len() ==> entries[j].centirate != centirate,
    ensures
        scalar_lookup(entries, centirate) is None,
    decreases entries.len(),
{
    if entries.len() > 0 {
        lemma_scalar_lookup_miss(entries.drop_first(), centirate);
    }
}

/// Looks a skill vector up by its rate label.
fn skill_lookup_exec(entries: &Vec<SkillEntry>, key: &String) -> (r: Option<SkillVector>)
    ensures
        r == skill_lookup(entries@, key@),
{
    let mut i: usize = 0;
    while i < entries.len()
        invariant
            i <= entries.len(),
            forall|j: int| 0 <= j < i ==> (#[trigger] entries@[j]).key@ != key@,
        decreases entries.len() - i,
    {
        if entries[i].key.eq(key) {
            proof {
                lemma_skill_lookup_hit(entries@, key@, i as int);
            }
            return Some(entries[i].scores);
        }
        i = i + 1;
    }
    proof {
        lemma_skill_lookup_miss(entries@, key@);
    }
    None
}

/// Looks a scalar engine value up by centirate.
fn scalar_lookup_exec(entries: &Vec<ScalarEntry>, centirate: u32) -> (r: Option<u32>)
    ensures
        r == scalar_lookup(entries@, centirate),
{
    let mut i: usize = 0;
    while i < entries.len()
        invariant
            i <= entries.len(),
            forall|j: int| 0 <= j < i ==> (#[trigger] entries@[j]).centirate != centirate,
        decreases entries.len() - i,
    {
        if entries[i].centirate == centirate {
            proof {
                lemma_scalar_lookup_hit(entries@, centirate, i as int);
            }
            return Some(entries[i].value);
        }
        i = i + 1;
    }
    proof {
        lemma_scalar_lookup_miss(entries@, centirate);
    }
    None
}

/// The fixed menu of multipliers, as centirates.
pub open spec fn menu_spec() -> Seq<u32> {
    seq![70u32, 80u32, 90u32, 100u32, 110u32, 120u32, 130u32, 140u32, 150u32, 160u32, 170u32,
        180u32, 190u32, 200u32]
}

/// Returns the fixed menu of multipliers.
pub fn rate_menu() -> (r: Vec<u32>)
    ensures
        r@ == menu_spec(),
{
    let mut v: Vec<u32> = Vec::new();
    v.push(70);
    v.push(80);
    v.push(90);
    v.push(100);
    v.push(110);
    v.push(120);
    v.push(130);
    v.push(140);
    v.push(150);
    v.push(160);
    v.push(170);
    v.push(180);
    v.push(190);
    v.push(200);
    proof {
        assert(v@ =~= menu_spec());
    }
    v
}

/// A menu multiplier is usable when the skill-vector map holds its rate
/// label and the vector's overall value is positive.
pub open spec fn usable(entries: Seq<SkillEntry>, c: u32) -> bool {
    skill_lookup(entries, rate_label(c as nat)) matches Some(sv) && sv.overall > 0
}

/// The usable multipliers of a menu, in menu order.
pub open spec fn produced_rates(menu: Seq<u32>, entries: Seq<SkillEntry>) -> Seq<u32>
    decreases menu.len(),
{
    if menu.len() == 0 {
        seq![]
    } else {
        let rest = produced_rates(menu.drop_first(), entries);
        if usable(entries, menu[0]) {
            seq![menu[0]] + rest
        } else {
            rest
        }
    }
}

proof fn lemma_produced_rates_concat(a: Seq<u32>, b: Seq<u32>, entries: Seq<SkillEntry>)
    ensures
        produced_rates(a + b, entries) == produced_rates(a, entries) + produced_rates(b, entries),
    decreases a.len(),
{
    if a.len() == 0 {
        assert(a + b =~= b);
        assert(produced_rates(a, entries) + produced_rates(b, entries) =~= produced_rates(
            b,
            entries,
        ));
    } else {
        assert((a + b).drop_first() =~= a.drop_first() + b);
        lemma_produced_rates_concat(a.drop_first(), b, entries);
        if usable(entries, a[0]) {
            assert(produced_rates(a, entries) + produced_rates(b, entries) =~= seq![a[0]]
                + produced_rates(a.drop_first(), entries) + produced_rates(b, entries));
            assert(produced_rates(a + b, entries) =~= seq![a[0]] + (produced_rates(
                a.drop_first(),
                entries,
            ) + produced_rates(b, entries)));
        }
    }
}

/// Menu completeness: when every menu multiplier is usable — its rate label
/// present in the skill-vector map with a positive overall — the pipeline's
/// produced multipliers are exactly the menu, in order, without duplicates.
pub proof fn lemma_menu_completeness(menu: Seq<u32>, entries: Seq<SkillEntry>)
    requires
        forall|i: int| 0 <= i < menu.len() ==> usable(entries, #[trigger] menu[i]),
    ensures
        produced_rates(menu, entries) == menu,
    decreases menu.len(),
{
    if menu.len() > 0 {
        assert(forall|i: int|
            0 <= i < menu.drop_first().len() ==> usable(
                entries,
                #[trigger] menu.drop_first()[i],
            ));
        lemma_menu_completeness(menu.drop_first(), entries);
        assert(produced_rates(menu, entries) =~= menu);
    }
}

/// What one produced variant holds: the looked-up skill vector's ratings,
/// the rescaled duration and tempo fields, and artifacts content-addressed
/// by the rescaled chart's encoding.
pub open spec fn variant_ok(
    m: Chart,
    entries: Seq<SkillEntry>,
    osu_ratings: Seq<ScalarEntry>,
    sunny_ratings: Seq<ScalarEntry>,
    drain_time: u32,
    total_time: u32,
    bpm: u32,
    beatmap_id: u32,
    c: u32,
    out: Rates,
    blob: RateBlob,
) -> bool {
    &&& usable(entries, c)
    &&& (skill_lookup(entries, rate_label(c as nat)) matches Some(sv) ==> {
        &&& out.centirate == c
        &&& out.drain_time == drain_time as int * 100 / c as int
        &&& out.total_time == total_time as int * 100 / c as int
        &&& out.bpm == bpm as int * c as int / 100
        &&& (out.osu_hash matches Some(h) && h@ == blob.hash@)
        &&& ratings_expected(
            out.rating@,
            sv,
            proportion_of(sv),
            scalar_lookup(osu_ratings, c),
            scalar_lookup(sunny_ratings, c),
        )
    })
    &&& blob_ok(m, c, beatmap_id, blob)
}

/// Runs the variant pipeline for one chart: one variant per usable menu
/// multiplier, folded into the chart record, with the artifacts returned
/// for storage.  A multiplier whose rate label is missing from the
/// skill-vector map, or whose skill vector has an overall of zero, is
/// skipped without affecting the rest.  The chart's main pattern is derived
/// from the unscaled rate's skill vector when that entry exists.
pub fn process_beatmap(
    beatmap_row: &mut Beatmap,
    parsed_beatmap: &Chart,
    skillset_scores: &Vec<SkillEntry>,
    osu_ratings: &Vec<ScalarEntry>,
    sunny_ratings: &Vec<ScalarEntry>,
    osu_map: &String,
    drain_time: u32,
    total_time: u32,
    bpm: u32,
    beatmap_id: u32,
) -> (r: Vec<RateBlob>)
    requires
        chart_times_bounded(*parsed_beatmap),
        drain_time <= 40000000,
        total_time <= 40000000,
        bpm <= 40000000,
    ensures
        final(beatmap_row).rates@.len() == old(beatmap_row).rates@.len() + r@.len(),
        final(beatmap_row).rates@.take(old(beatmap_row).rates@.len() as int) == old(
            beatmap_row,
        ).rates@,
        final(beatmap_row).rates@.skip(old(beatmap_row).rates@.len() as int).map_values(
            |x: Rates| x.centirate,
        ) == produced_rates(menu_spec(), skillset_scores@),
        forall|k: int|
            0 <= k < r@.len() ==> variant_ok(
                *parsed_beatmap,
                skillset_scores@,
                osu_ratings@,
                sunny_ratings@,
                drain_time,
                total_time,
                bpm,
                beatmap_id,
                produced_rates(menu_spec(), skillset_scores@)[k],
                #[trigger] final(beatmap_row).rates@[old(beatmap_row).rates@.len() + k],
                r@[k],
            ),
        (skill_lookup(skillset_scores@, rate_label(100)) matches Some(sv)
            ==> is_main_pattern(
            sv,
            hold_count(parsed_beatmap.hit_objects@),
            parsed_beatmap.hit_objects@.len(),
            final(beatmap_row).main_pattern@.map_values(|x: String| x@),
        )),
        (skill_lookup(skillset_scores@, rate_label(100)) is None ==> final(beatmap_row).main_pattern
            == old(beatmap_row).main_pattern),
        final(beatmap_row).osu_id == old(beatmap_row).osu_id,
        final(beatmap_row).beatmapset_id == old(beatmap_row).beatmapset_id,
        final(beatmap_row).difficulty == old(beatmap_row).difficulty,
        final(beatmap_row).status == old(beatmap_row).status,
        final(beatmap_row).count_circles == old(beatmap_row).count_circles,
        final(beatmap_row).count_sliders == old(beatmap_row).count_sliders,
        final(beatmap_row).count_spinners == old(beatmap_row).count_spinners,
        final(beatmap_row).max_combo == old(beatmap_row).max_combo,
        final(beatmap_row).cs == old(beatmap_row).cs,
        final(beatmap_row).ar == old(beatmap_row).ar,
        final(beatmap_row).od == old(beatmap_row).od,
        final(beatmap_row).hp == old(beatmap_row).hp,
        final(beatmap_row).mode == old(beatmap_row).mode,
{
    let base_key = crate::numfmt::format_rate(100);
    match skill_lookup_exec(skillset_scores, &base_key) {
        Some(sv100) => {
            beatmap_row.main_pattern = determine_main_pattern(&sv100, parsed_beatmap);
        },
        None => (),
    }

    let menu = rate_menu();
    let ghost menu_seq = menu@;
    let ghost old_rates = beatmap_row.rates@;
    let ghost row0 = *beatmap_row;
    let mut blobs: Vec<RateBlob> = Vec::new();
    let mut i: usize = 0;
    while i < menu.len()
        invariant
            i <= menu.len(),
            menu@ == menu_seq,
            menu_seq == menu_spec(),
            chart_times_bounded(*parsed_beatmap),
            drain_time <= 40000000,
            total_time <= 40000000,
            bpm <= 40000000,
            beatmap_row.rates@.len() == old_rates.len() + blobs@.len(),
            beatmap_row.rates@.take(old_rates.len() as int) == old_rates,
            beatmap_row.rates@.skip(old_rates.len() as int).map_values(|x: Rates| x.centirate)
                == produced_rates(menu_seq.take(i as int), skillset_scores@),
            forall|k: int|
                0 <= k < blobs@.len() ==> variant_ok(
                    *parsed_beatmap,
                    skillset_scores@,
                    osu_ratings@,
                    sunny_ratings@,
                    drain_time,
                    total_time,
                    bpm,
                    beatmap_id,
                    produced_rates(menu_seq.take(i as int), skillset_scores@)[k],
                    #[trigger] beatmap_row.rates@[old_rates.len() + k],
                    blobs@[k],
                ),
            beatmap_row.main_pattern == row0.main_pattern,
            beatmap_row.osu_id == row0.osu_id,
            beatmap_row.beatmapset_id == row0.beatmapset_id,
            beatmap_row.difficulty == row0.difficulty,
            beatmap_row.status == row0.status,
            beatmap_row.count_circles == row0.count_circles,
            beatmap_row.count_sliders == row0.count_sliders,
            beatmap_row.count_spinners == row0.count_spinners,
            beatmap_row.max_combo == row0.max_combo,
            beatmap_row.cs == row0.cs,
            beatmap_row.ar == row0.ar,
            beatmap_row.od == row0.od,
            beatmap_row.hp == row0.hp,
            beatmap_row.mode == row0.mode,
        decreases menu.len() - i,
    {
        let centirate = menu[i];
        let ghost step_menu = menu_seq.take(i as int);
        proof {
            assert(menu_seq.take(i + 1) =~= step_menu + seq![centirate]);
            lemma_produced_rates_concat(step_menu, seq![centirate], skillset_scores@);
            assert(seq![centirate].drop_first() =~= Seq::<u32>::empty());
        }
        let rate_string = crate::numfmt::format_rate(centirate);
        let scores = match skill_lookup_exec(skillset_scores, &rate_string) {
            Some(s) => s,
            None => {
                proof {
                    assert(!usable(skillset_scores@, centirate));
                    assert(produced_rates(Seq::<u32>::empty(), skillset_scores@) =~= Seq::<
                        u32,
                    >::empty());
                    assert(seq![centirate][0] == centirate);
                    assert(produced_rates(seq![centirate], skillset_scores@) =~= Seq::<
                        u32,
                    >::empty());
                    assert(produced_rates(menu_seq.take(i + 1), skillset_scores@)
                        =~= produced_rates(step_menu, skillset_scores@));
                }
                i = i + 1;
                continue ;
            },
        };
        if scores.overall == 0 {
            proof {
                assert(!usable(skillset_scores@, centirate));
                assert(produced_rates(Seq::<u32>::empty(), skillset_scores@) =~= Seq::<
                    u32,
                >::empty());
                assert(seq![centirate][0] == centirate);
                assert(produced_rates(seq![centirate], skillset_scores@) =~= Seq::<u32>::empty());
                assert(produced_rates(menu_seq.take(i + 1), skillset_scores@) =~= produced_rates(
                    step_menu,
                    skillset_scores@,
                ));
            }
            i = i + 1;
            continue ;
        }
        proof {
            assert(usable(skillset_scores@, centirate));
            assert(produced_rates(Seq::<u32>::empty(), skillset_scores@) =~= Seq::<u32>::empty());
            assert(seq![centirate][0] == centirate);
            assert(produced_rates(seq![centirate], skillset_scores@) =~= seq![centirate]);
        }

        let blob = match process_single_rate(centirate, parsed_beatmap, beatmap_id) {
            Ok(b) => b,
            Err(_) => {
                proof {
                    assert(false);
                }
                i = i + 1;
                continue ;
            },
        };

        let rates_maker = RatesMaker {
            skillset_scores: scores,
            osu_map: osu_map.clone(),
            centirate,
            drain_time,
            total_time,
            bpm,
        };
        let osu_stars = scalar_lookup_exec(osu_ratings, centirate);
        let sunny_value = scalar_lookup_exec(sunny_ratings, centirate);
        let hash_copy = blob.hash.clone();
        let rates = match rates_from_skillset_scores(
            &rates_maker,
            hash_copy,
            osu_stars,
            sunny_value,
        ) {
            Ok(rs) => rs,
            Err(_) => {
                proof {
                    assert(false);
                }
                i = i + 1;
                continue ;
            },
        };
        beatmap_row.rates.push(rates);
        blobs.push(blob);
        proof {
            assert(beatmap_row.rates@.take(old_rates.len() as int) =~= old_rates);
            assert(beatmap_row.rates@.skip(old_rates.len() as int).map_values(
                |x: Rates| x.centirate,
            ) =~= produced_rates(menu_seq.take(i + 1), skillset_scores@));
        }
        i = i + 1;
    }
    proof {
        assert(menu_seq.take(menu_seq.len() as int) =~= menu_seq);
    }
    blobs
}

} // verus!
