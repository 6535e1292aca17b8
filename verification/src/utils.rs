//! Small verified helpers: status names, the admission check, storage
//! paths, and the main-pattern derivation.

use crate::chart::{Chart, HitObject, is_hold};
use crate::numfmt::dec_of;
use crate::rating::SkillVector;
use vstd::prelude::*;

verus! {

/// The publication status of a chart.
#[derive(Debug, Clone, Copy, PartialEq, Eq, Structural)]
pub enum RankStatus {
    Pending,
    Ranked,
    Approved,
    Qualified,
    Loved,
    Graveyard,
    WIP,
}

/// The lowercase name of a publication status.
pub fn rank_status_to_string(status: &RankStatus) -> (r: String)
    ensures
        status is Pending ==> r@ == "pending"@,
        status is Ranked ==> r@ == "ranked"@,
        status is Approved ==> r@ == "approved"@,
        status is Qualified ==> r@ == "qualified"@,
        status is Loved ==> r@ == "loved"@,
        status is Graveyard ==> r@ == "graveyard"@,
        status is WIP ==> r@ == "wip"@,
{
    match status {
        RankStatus::Pending => String::from_str("pending"),
        RankStatus::Ranked => String::from_str("ranked"),
        RankStatus::Approved => String::from_str("approved"),
        RankStatus::Qualified => String::from_str("qualified"),
        RankStatus::Loved => String::from_str("loved"),
        RankStatus::Graveyard => String::from_str("graveyard"),
        RankStatus::WIP => String::from_str("wip"),
    }
}

/// The play mode of a chart.
#[derive(Debug, Clone, Copy, PartialEq, Eq, Structural)]
pub enum GameMode {
    Osu,
    Taiko,
    Catch,
    Mania,
}

/// Whether a chart is admitted for processing: only four-key mania charts
/// are.
pub fn is_allowed_beatmap(mode: GameMode, key_count: u32) -> (r: bool)
    ensures
        r == (mode is Mania && key_count == 4),
{
    mode == GameMode::Mania && key_count == 4
}

/// The URL a chart's raw text is fetched from.
pub fn build_file_path(beatmap_id: u32) -> (r: String)
    ensures
        r@ == "https://osu.ppy.sh/osu/"@ + dec_of(beatmap_id as nat),
{
    let mut s = String::from_str("https://osu.ppy.sh/osu/");
    let num = crate::numfmt::u64_to_string(beatmap_id as u64);
    s.append(num.as_str());
    s
}

/// Places compressed chart variants under a per-chart directory.
pub struct FileManager;

impl FileManager {
    /// The storage path of one compressed variant: the chart's directory,
    /// keyed by its external id, then the content digest with the
    /// compression format's extension.
    pub fn compressed_file_path(beatmap_id: u32, hash: &str) -> (r: String)
        ensures
            r@ == "public/beatmap/"@ + dec_of(beatmap_id as nat) + "/"@ + hash@ + ".br"@,
    {
        let mut s = String::from_str("public/beatmap/");
        let num = crate::numfmt::u64_to_string(beatmap_id as u64);
        s.append(num.as_str());
        s.append("/");
        s.append(hash);
        s.append(".br");
        s
    }
}

/// How many of the events are holds.
pub open spec fn hold_count(s: Seq<HitObject>) -> nat
    decreases s.len(),
{
    if s.len() == 0 {
        0
    } else {
        hold_count(s.drop_last()) + (if is_hold(s.last()) {
            1nat
        } else {
            0nat
        })
    }
}

/// Counts the hold events of a chart.
pub fn count_long_notes(beatmap: &Chart) -> (r: usize)
    ensures
        r == hold_count(beatmap.hit_objects@),
{
    let mut count: usize = 0;
    let mut i: usize = 0;
    while i < beatmap.hit_objects.len()
        invariant
            i <= beatmap.hit_objects.len(),
            count == hold_count(beatmap.hit_objects@.take(i as int)),
            count <= i,
        decreases beatmap.hit_objects.len() - i,
    {
        let held = match beatmap.hit_objects[i].kind {
            crate::chart::HitObjectKind::Hold { duration: _ } => true,
            crate::chart::HitObjectKind::Circle => false,
        };
        proof {
            assert(beatmap.hit_objects@.take(i + 1).drop_last() =~= beatmap.hit_objects@.take(
                i as int,
            ));
        }
        if held {
            count = count + 1;
        }
        i = i + 1;
    }
    proof {
        assert(beatmap.hit_objects@.take(beatmap.hit_objects@.len() as int)
            =~= beatmap.hit_objects@);
    }
    count
}

/// The six per-style scores the main pattern is chosen from, in candidate
/// order; stamina does not name a pattern.
pub open spec fn pattern_scores(sv: SkillVector) -> Seq<u32> {
    seq![sv.stream, sv.jumpstream, sv.handstream, sv.technical, sv.chordjack, sv.jackspeed]
}

/// The pattern names, parallel to `pattern_scores`.
pub open spec fn pattern_names() -> Seq<Seq<char>> {
    seq!["stream"@, "jumpstream"@, "handstream"@, "technical"@, "chordjack"@, "jackspeed"@]
}

/// The hold-share prefix of the main pattern: "LN" above four fifths of the
/// events, "Hybrid" above half, else nothing.
pub open spec fn ln_prefix(ln: nat, total: nat) -> Seq<Seq<char>> {
    if 5 * ln > 4 * total {
        seq!["LN"@]
    } else if 2 * ln > total {
        seq!["Hybrid"@]
    } else {
        seq![]
    }
}

/// `i` is the position of the first maximal score.
pub open spec fn is_first_max(s: Seq<u32>, i: int) -> bool {
    &&& 0 <= i < s.len()
    &&& forall|j: int| 0 <= j < s.len() ==> s[j] <= s[i]
    &&& forall|j: int| 0 <= j < i ==> s[j] < s[i]
}

/// `i` is the position of the first maximal score once position `skip` is
/// set aside.
pub open spec fn is_second_max(s: Seq<u32>, skip: int, i: int) -> bool {
    &&& 0 <= i < s.len()
    &&& i != skip
    &&& forall|j: int| 0 <= j < s.len() && j != skip ==> s[j] <= s[i]
    &&& forall|j: int| 0 <= j < i && j != skip ==> s[j] < s[i]
}

/// What the main pattern of a chart reads: the hold-share prefix, then the
/// names of the two highest per-style scores, ties resolved toward the
/// earlier candidate.
pub open spec fn is_main_pattern(sv: SkillVector, ln: nat, total: nat, r: Seq<Seq<char>>) -> bool {
    exists|i1: int, i2: int|
        {
            &&& is_first_max(pattern_scores(sv), i1)
            &&& #[trigger] is_second_max(pattern_scores(sv), i1, i2)
            &&& r == ln_prefix(ln, total) + seq![pattern_names()[i1], pattern_names()[i2]]
        }
}

/// Picks the name of one candidate position.
fn pattern_name_of(i: usize) -> (r: String)
    requires
        i < 6,
    ensures
        r@ == pattern_names()[i as int],
{
    if i == 0 {
        String::from_str("stream")
    } else if i == 1 {
        String::from_str("jumpstream")
    } else if i == 2 {
        String::from_str("handstream")
    } else if i == 3 {
        String::from_str("technical")
    } else if i == 4 {
        String::from_str("chordjack")
    } else {
        String::from_str("jackspeed")
    }
}

/// Derives a chart's main pattern from its skill vector and its events: a
/// hold-share tag when holds dominate, then the two strongest styles.
pub fn determine_main_pattern(skillset_scores: &SkillVector, beatmap: &Chart) -> (r: Vec<String>)
    ensures
        is_main_pattern(
            *skillset_scores,
            hold_count(beatmap.hit_objects@),
            beatmap.hit_objects@.len(),
            r@.map_values(|x: String| x@),
        ),
{
    let ln_count = count_long_notes(beatmap);
    let total_objects = beatmap.hit_objects.len();

    let mut parts: Vec<String> = Vec::new();
    if 5 * (ln_count as u128) > 4 * (total_objects as u128) {
        parts.push(String::from_str("LN"));
    } else if 2 * (ln_count as u128) > (total_objects as u128) {
        parts.push(String::from_str("Hybrid"));
    }

    let mut scores: Vec<u32> = Vec::new();
    scores.push(skillset_scores.stream);
    scores.push(skillset_scores.jumpstream);
    scores.push(skillset_scores.handstream);
    scores.push(skillset_scores.technical);
    scores.push(skillset_scores.chordjack);
    scores.push(skillset_scores.jackspeed);
    proof {
        assert(scores@ =~= pattern_scores(*skillset_scores));
    }

    let mut best: usize = 0;
    let mut k: usize = 1;
    while k < 6
        invariant
            scores@ == pattern_scores(*skillset_scores),
            scores@.len() == 6,
            1 <= k <= 6,
            best < k,
            forall|j: int| 0 <= j < k ==> scores@[j] <= scores@[best as int],
            forall|j: int| 0 <= j < best ==> scores@[j] < scores@[best as int],
        decreases 6 - k,
    {
        if scores[k] > scores[best] {
            best = k;
        }
        k = k + 1;
    }

    let mut second: usize = if best == 0 {
        1
    } else {
        0
    };
    let mut k: usize = second + 1;
    while k < 6
        invariant
            scores@ == pattern_scores(*skillset_scores),
            scores@.len() == 6,
            best < 6,
            second < 6,
            second != best,
            second <= k,
            1 <= k <= 6,
            forall|j: int| 0 <= j < k && j != best ==> scores@[j] <= scores@[second as int],
            forall|j: int| 0 <= j < second && j != best ==> scores@[j] < scores@[second as int],
        decreases 6 - k,
    {
        if k != best && scores[k] > scores[second] {
            second = k;
        }
        k = k + 1;
    }

    let ghost i1 = best as int;
    let ghost i2 = second as int;
    parts.push(pattern_name_of(best));
    parts.push(pattern_name_of(second));
    proof {
        assert(is_first_max(pattern_scores(*skillset_scores), i1));
        assert(is_second_max(pattern_scores(*skillset_scores), i1, i2));
        assert(parts@.map_values(|x: String| x@) =~= ln_prefix(
            hold_count(beatmap.hit_objects@),
            beatmap.hit_objects@.len() as nat,
        ) + seq![pattern_names()[i1], pattern_names()[i2]]);
    }
    parts
}

} // verus!
