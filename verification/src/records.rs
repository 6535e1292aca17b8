//! Denormalized record aggregates mirroring the persisted rows, built
//! bottom-up: variants into the chart record, chart records into the set
//! record.
//!
//! The converters take the descriptive fields as plain values; reading them
//! out of the remote API's response types happens outside the library.
//! Difficulty settings that the source carries as real numbers arrive as
//! fixed-point integers in a unit of the caller's choice.

use crate::rating::Rates;
use crate::utils::{RankStatus, rank_status_to_string};
use vstd::prelude::*;

verus! {

/// The record of one chart, with its rate-variants.
#[derive(Debug, Clone)]
pub struct Beatmap {
    pub osu_id: Option<i32>,
    pub beatmapset_id: Option<i32>,
    pub difficulty: String,
    pub count_circles: i32,
    pub count_sliders: i32,
    pub count_spinners: i32,
    pub max_combo: i32,
    pub cs: u32,
    pub ar: u32,
    pub od: u32,
    pub hp: u32,
    pub mode: i32,
    pub status: String,
    pub main_pattern: Vec<String>,
    pub rates: Vec<Rates>,
}

/// The record of one chart set, with its charts.
#[derive(Debug, Clone)]
pub struct Beatmapset {
    pub osu_id: Option<i32>,
    pub artist: String,
    pub artist_unicode: Option<String>,
    pub title: String,
    pub title_unicode: Option<String>,
    pub creator: String,
    pub source: Option<String>,
    pub tags: Option<String>,
    pub has_video: bool,
    pub has_storyboard: bool,
    pub is_explicit: bool,
    pub is_featured: bool,
    pub cover_url: Option<String>,
    pub preview_url: Option<String>,
    pub osu_file_url: Option<String>,
    pub osu_status_changed_at: Option<i64>,
    pub beatmaps: Vec<Beatmap>,
}

/// Builds a chart record from the fetched chart's descriptive fields.  The
/// record starts with no parent, no pattern and no variants; the status is
/// spelled out, and a missing combo reads zero.
pub fn convert_beatmap_extended(
    map_id: u32,
    version: String,
    count_circles: u32,
    count_sliders: u32,
    count_spinners: u32,
    max_combo: Option<u32>,
    cs: u32,
    ar: u32,
    od: u32,
    hp: u32,
    mode: i32,
    status: RankStatus,
) -> (r: Beatmap)
    requires
        map_id <= 0x7FFFFFFF,
        count_circles <= 0x7FFFFFFF,
        count_sliders <= 0x7FFFFFFF,
        count_spinners <= 0x7FFFFFFF,
        max_combo matches Some(m) ==> m <= 0x7FFFFFFF,
    ensures
        r.osu_id matches Some(id) && id == map_id,
        r.beatmapset_id is None,
        r.difficulty@ == version@,
        r.count_circles == count_circles,
        r.count_sliders == count_sliders,
        r.count_spinners == count_spinners,
        max_combo matches Some(m) ==> r.max_combo == m,
        max_combo is None ==> r.max_combo == 0,
        r.cs == cs && r.ar == ar && r.od == od && r.hp == hp,
        r.mode == mode,
        status is Ranked ==> r.status@ == "ranked"@,
        status is Pending ==> r.status@ == "pending"@,
        status is Approved ==> r.status@ == "approved"@,
        status is Qualified ==> r.status@ == "qualified"@,
        status is Loved ==> r.status@ == "loved"@,
        status is Graveyard ==> r.status@ == "graveyard"@,
        status is WIP ==> r.status@ == "wip"@,
        r.main_pattern@.len() == 0,
        r.rates@.len() == 0,
{
    Beatmap {
        osu_id: Some(map_id as i32),
        beatmapset_id: None,
        difficulty: version,
        count_circles: count_circles as i32,
        count_sliders: count_sliders as i32,
        count_spinners: count_spinners as i32,
        max_combo: match max_combo {
            Some(m) => m as i32,
            None => 0,
        },
        cs,
        ar,
        od,
        hp,
        mode,
        status: rank_status_to_string(&status),
        main_pattern: Vec::new(),
        rates: Vec::new(),
    }
}

/// What a freshly converted set record holds: the descriptive fields, with
/// missing unicode names reading "Unknown", no tags, not featured, the
/// source doubling as the file reference, and no charts yet.
pub open spec fn beatmapset_converted(
    r: Beatmapset,
    mapset_id: u32,
    artist: Seq<char>,
    artist_unicode: Option<String>,
    title: Seq<char>,
    title_unicode: Option<String>,
    creator: Seq<char>,
    source: Seq<char>,
    video: bool,
    storyboard: bool,
    nsfw: bool,
    cover: Seq<char>,
    preview: Seq<char>,
) -> bool {
    &&& r.osu_id matches Some(id) && id == mapset_id
    &&& r.artist@ == artist
    &&& (artist_unicode matches Some(u) ==> (r.artist_unicode matches Some(x) && x@ == u@))
    &&& (artist_unicode is None ==> (r.artist_unicode matches Some(x) && x@ == "Unknown"@))
    &&& r.title@ == title
    &&& (title_unicode matches Some(u) ==> (r.title_unicode matches Some(x) && x@ == u@))
    &&& (title_unicode is None ==> (r.title_unicode matches Some(x) && x@ == "Unknown"@))
    &&& r.creator@ == creator
    &&& r.source matches Some(s) && s@ == source
    &&& r.tags is None
    &&& r.has_video == video
    &&& r.has_storyboard == storyboard
    &&& r.is_explicit == nsfw
    &&& r.is_featured == false
    &&& r.cover_url matches Some(c) && c@ == cover
    &&& r.preview_url matches Some(p) && p@ == preview
    &&& r.osu_file_url matches Some(f) && f@ == source
    &&& r.beatmaps@.len() == 0
}

/// Builds a set record from the fetched set's descriptive fields.
pub fn convert_to_row_beatmapset(
    mapset_id: u32,
    artist: String,
    artist_unicode: Option<String>,
    title: String,
    title_unicode: Option<String>,
    creator: String,
    source: String,
    video: bool,
    storyboard: bool,
    nsfw: bool,
    cover: String,
    preview: String,
) -> (r: Beatmapset)
    requires
        mapset_id <= 0x7FFFFFFF,
    ensures
        beatmapset_converted(
            r,
            mapset_id,
            artist@,
            artist_unicode,
            title@,
            title_unicode,
            creator@,
            source@,
            video,
            storyboard,
            nsfw,
            cover@,
            preview@,
        ),
        r.osu_status_changed_at is None,
{
    let source_copy = source.clone();
    Beatmapset {
        osu_id: Some(mapset_id as i32),
        artist,
        artist_unicode: match artist_unicode {
            Some(u) => Some(u),
            None => Some(String::from_str("Unknown")),
        },
        title,
        title_unicode: match title_unicode {
            Some(u) => Some(u),
            None => Some(String::from_str("Unknown")),
        },
        creator,
        source: Some(source),
        tags: None,
        has_video: video,
        has_storyboard: storyboard,
        is_explicit: nsfw,
        is_featured: false,
        cover_url: Some(cover),
        preview_url: Some(preview),
        osu_file_url: Some(source_copy),
        osu_status_changed_at: None,
        beatmaps: Vec::new(),
    }
}

/// Builds a set record from the fetched set's descriptive fields, stamped
/// with the time its publication status last changed.
pub fn beatmapset_from_beatmapset_extended(
    mapset_id: u32,
    artist: String,
    artist_unicode: Option<String>,
    title: String,
    title_unicode: Option<String>,
    creator: String,
    source: String,
    video: bool,
    storyboard: bool,
    nsfw: bool,
    cover: String,
    preview: String,
    last_updated_epoch: i64,
) -> (r: Beatmapset)
    requires
        mapset_id <= 0x7FFFFFFF,
    ensures
        beatmapset_converted(
            r,
            mapset_id,
            artist@,
            artist_unicode,
            title@,
            title_unicode,
            creator@,
            source@,
            video,
            storyboard,
            nsfw,
            cover@,
            preview@,
        ),
        r.osu_status_changed_at matches Some(t) && t == last_updated_epoch,
{
    let mut r = convert_to_row_beatmapset(
        mapset_id,
        artist,
        artist_unicode,
        title,
        title_unicode,
        creator,
        source,
        video,
        storyboard,
        nsfw,
        cover,
        preview,
    );
    r.osu_status_changed_at = Some(last_updated_epoch);
    r
}

/// Folds one completed variant into the owning chart record.
pub fn attach_rates(beatmap: &mut Beatmap, rates: Rates)
    ensures
        final(beatmap).rates@ == old(beatmap).rates@.push(rates),
        final(beatmap).osu_id == old(beatmap).osu_id,
        final(beatmap).beatmapset_id == old(beatmap).beatmapset_id,
        final(beatmap).difficulty == old(beatmap).difficulty,
        final(beatmap).count_circles == old(beatmap).count_circles,
        final(beatmap).count_sliders == old(beatmap).count_sliders,
        final(beatmap).count_spinners == old(beatmap).count_spinners,
        final(beatmap).max_combo == old(beatmap).max_combo,
        final(beatmap).cs == old(beatmap).cs,
        final(beatmap).ar == old(beatmap).ar,
        final(beatmap).od == old(beatmap).od,
        final(beatmap).hp == old(beatmap).hp,
        final(beatmap).mode == old(beatmap).mode,
        final(beatmap).status == old(beatmap).status,
        final(beatmap).main_pattern == old(beatmap).main_pattern,
{
    beatmap.rates.push(rates);
}

/// Folds one completed chart record into the owning set record.
pub fn attach_beatmap(beatmapset: &mut Beatmapset, beatmap: Beatmap)
    ensures
        final(beatmapset).beatmaps@ == old(beatmapset).beatmaps@.push(beatmap),
        final(beatmapset).osu_id == old(beatmapset).osu_id,
        final(beatmapset).artist == old(beatmapset).artist,
        final(beatmapset).artist_unicode == old(beatmapset).artist_unicode,
        final(beatmapset).title == old(beatmapset).title,
        final(beatmapset).title_unicode == old(beatmapset).title_unicode,
        final(beatmapset).creator == old(beatmapset).creator,
        final(beatmapset).source == old(beatmapset).source,
        final(beatmapset).tags == old(beatmapset).tags,
        final(beatmapset).has_video == old(beatmapset).has_video,
        final(beatmapset).has_storyboard == old(beatmapset).has_storyboard,
        final(beatmapset).is_explicit == old(beatmapset).is_explicit,
        final(beatmapset).is_featured == old(beatmapset).is_featured,
        final(beatmapset).cover_url == old(beatmapset).cover_url,
        final(beatmapset).preview_url == old(beatmapset).preview_url,
        final(beatmapset).osu_file_url == old(beatmapset).osu_file_url,
        final(beatmapset).osu_status_changed_at == old(beatmapset).osu_status_changed_at,
{
    beatmapset.beatmaps.push(beatmap);
}

/// The words of `s` between `start` and the end, split on spaces, empty
/// words dropped; the word under construction began at `start`.
pub open spec fn split_from(s: Seq<char>, i: int, start: int) -> Seq<Seq<char>>
    recommends
        0 <= start <= i <= s.len(),
    decreases s.len() - i,
{
    if i >= s.len() {
        if i > start {
            seq![s.subrange(start, i)]
        } else {
            seq![]
        }
    } else if s[i] == ' ' {
        (if i > start {
            seq![s.subrange(start, i)]
        } else {
            seq![]
        }) + split_from(s, i + 1, i + 1)
    } else {
        split_from(s, i + 1, start)
    }
}

/// The words of `s`, split on spaces, empty words dropped.
pub open spec fn split_spaces(s: Seq<char>) -> Seq<Seq<char>> {
    split_from(s, 0, 0)
}

/// Splits a tag line into its words: space-separated, empty words dropped.
pub fn split_tags(tags: &str) -> (r: Vec<String>)
    ensures
        r@.map_values(|w: String| w@) == split_spaces(tags@),
{
    let n = tags.unicode_len();
    let mut words: Vec<String> = Vec::new();
    let mut start: usize = 0;
    let mut i: usize = 0;
    while i < n
        invariant
            0 <= start <= i <= n,
            n == tags@.len(),
            split_spaces(tags@) == words@.map_values(|w: String| w@) + split_from(
                tags@,
                i as int,
                start as int,
            ),
        decreases n - i,
    {
        let c = tags.get_char(i);
        if c == ' ' {
            if i > start {
                let word = tags.substring_char(start, i).to_owned();
                words.push(word);
                proof {
                    assert(words@.map_values(|w: String| w@) =~= words@.drop_last().map_values(
                        |w: String| w@,
                    ).push(tags@.subrange(start as int, i as int)));
                }
            }
            start = i + 1;
        }
        i = i + 1;
    }
    if n > start {
        let word = tags.substring_char(start, n).to_owned();
        words.push(word);
        proof {
            assert(words@.map_values(|w: String| w@) =~= words@.drop_last().map_values(
                |w: String| w@,
            ).push(tags@.subrange(start as int, n as int)));
        }
    }
    proof {
        assert(words@.map_values(|w: String| w@) =~= split_spaces(tags@));
    }
    words
}

} // verus!
