//! The persistence model: row types mirroring the relational tables and an
//! in-memory store with the writer's upsert policy.
//!
//! Sets and charts are upserted by external id — a row whose external id is
//! already present is reused, never duplicated — while variants, ratings and
//! per-style sub-ratings are always freshly inserted.  Internal ids are
//! assigned in insertion order, starting at one per table.  The unverified
//! caller mirrors these operations onto the real database in the same
//! dependency order.

use crate::errors::BeatmapWorkerError;
use crate::rating::{ManiaRating, Rates, Rating};
use crate::records::{Beatmap, Beatmapset, split_spaces, split_tags};
use vstd::prelude::*;

verus! {

/// A persisted chart-set row.
#[derive(Debug, Clone)]
pub struct BeatmapsetRow {
    pub id: u32,
    pub osu_id: Option<i32>,
    pub artist: String,
    pub artist_unicode: Option<String>,
    pub title: String,
    pub title_unicode: Option<String>,
    pub creator: String,
    pub source: Option<String>,
    pub tags: Option<Vec<String>>,
    pub has_video: bool,
    pub has_storyboard: bool,
    pub is_explicit: bool,
    pub is_featured: bool,
    pub cover_url: Option<String>,
    pub preview_url: Option<String>,
    pub osu_file_url: Option<String>,
}

/// A persisted chart row.
#[derive(Debug, Clone)]
pub struct BeatmapRow {
    pub id: u32,
    pub osu_id: Option<i32>,
    pub beatmapset_id: Option<u32>,
    pub difficulty: String,
    pub count_circles: i32,
    pub count_sliders: i32,
    pub count_spinners: i32,
    pub max_combo: i32,
    pub main_pattern: Vec<String>,
    pub cs: u32,
    pub ar: u32,
    pub od: u32,
    pub hp: u32,
    pub mode: i32,
    pub status: String,
}

/// A persisted rate-variant row.
#[derive(Debug, Clone)]
pub struct RatesRow {
    pub id: u32,
    pub beatmap_id: u32,
    pub osu_hash: String,
    pub centirate: u32,
    pub drain_time: u32,
    pub total_time: u32,
    pub bpm: u32,
}

/// A persisted rating row.
#[derive(Debug, Clone)]
pub struct BeatmapRatingRow {
    pub id: u32,
    pub rates_id: Option<u32>,
    pub rating: u32,
    pub rating_type: String,
}

/// A persisted per-style sub-rating row.
#[derive(Debug, Clone, Copy, PartialEq, Eq, Structural)]
pub struct BeatmapManiaRatingRow {
    pub id: u32,
    pub rating_id: Option<u32>,
    pub stream: Option<u64>,
    pub jumpstream: Option<u64>,
    pub handstream: Option<u64>,
    pub stamina: Option<u64>,
    pub jackspeed: Option<u64>,
    pub chordjack: Option<u64>,
    pub technical: Option<u64>,
}

/// The in-memory persistence store, one vector per table.
#[derive(Debug, Clone)]
pub struct Store {
    pub beatmapsets: Vec<BeatmapsetRow>,
    pub beatmaps: Vec<BeatmapRow>,
    pub rates: Vec<RatesRow>,
    pub ratings: Vec<BeatmapRatingRow>,
    pub mania_ratings: Vec<BeatmapManiaRatingRow>,
}

/// The id of the first set row carrying this external id.
pub open spec fn find_set(rows: Seq<BeatmapsetRow>, osu_id: i32) -> Option<u32>
    decreases rows.len(),
{
    if rows.len() == 0 {
        None
    } else if rows[0].osu_id == Some(osu_id) {
        Some(rows[0].id)
    } else {
        find_set(rows.drop_first(), osu_id)
    }
}

/// The id of the first chart row carrying this external id.
pub open spec fn find_map(rows: Seq<BeatmapRow>, osu_id: i32) -> Option<u32>
    decreases rows.len(),
{
    if rows.len() == 0 {
        None
    } else if rows[0].osu_id == Some(osu_id) {
        Some(rows[0].id)
    } else {
        find_map(rows.drop_first(), osu_id)
    }
}

/// What upserting a set row does: reuse the id of an existing row with the
/// same external id, else append the row under the next id.
pub open spec fn upsert_set_spec(rows: Seq<BeatmapsetRow>, row: BeatmapsetRow) -> (
    Seq<BeatmapsetRow>,
    u32,
) {
    let fresh = (rows.len() + 1) as u32;
    match row.osu_id {
        Some(o) => match find_set(rows, o) {
            Some(id) => (rows, id),
            None => (rows.push(BeatmapsetRow { id: fresh, ..row }), fresh),
        },
        None => (rows.push(BeatmapsetRow { id: fresh, ..row }), fresh),
    }
}

/// What upserting a chart row does: reuse the id of an existing row with
/// the same external id, else append the row under the next id.
pub open spec fn upsert_map_spec(rows: Seq<BeatmapRow>, row: BeatmapRow) -> (Seq<BeatmapRow>, u32) {
    let fresh = (rows.len() + 1) as u32;
    match row.osu_id {
        Some(o) => match find_map(rows, o) {
            Some(id) => (rows, id),
            None => (rows.push(BeatmapRow { id: fresh, ..row }), fresh),
        },
        None => (rows.push(BeatmapRow { id: fresh, ..row }), fresh),
    }
}

proof fn lemma_find_set_hit(rows: Seq<BeatmapsetRow>, osu_id: i32, i: int)
    requires
        0 <= i < rows.len(),
        rows[i].osu_id == Some(osu_id),
        forall|j: int| 0 <= j < i ==> rows[j].osu_id != Some(osu_id),
    ensures
        find_set(rows, osu_id) == Some(rows[i].id),
    decreases i,
{
    if i > 0 {
        lemma_find_set_hit(rows.drop_first(), osu_id, i - 1);
    }
}

proof fn lemma_find_set_miss(rows: Seq<BeatmapsetRow>, osu_id: i32)
    requires
        forall|j: int| 0 <= j < rows.len() ==> rows[j].osu_id != Some(osu_id),
    ensures
        find_set(rows, osu_id) is None,
    decreases rows.len(),
{
    if rows.len() > 0 {
        lemma_find_set_miss(rows.drop_first(), osu_id);
    }
}

proof fn lemma_find_map_hit(rows: Seq<BeatmapRow>, osu_id: i32, i: int)
    requires
        0 <= i < rows.len(),
        rows[i].osu_id == Some(osu_id),
        forall|j: int| 0 <= j < i ==> rows[j].osu_id != Some(osu_id),
    ensures
        find_map(rows, osu_id) == Some(rows[i].id),
    decreases i,
{
    if i > 0 {
        lemma_find_map_hit(rows.drop_first(), osu_id, i - 1);
    }
}

proof fn lemma_find_map_miss(rows: Seq<BeatmapRow>, osu_id: i32)
    requires
        forall|j: int| 0 <= j < rows.len() ==> rows[j].osu_id != Some(osu_id),
    ensures
        find_map(rows, osu_id) is None,
    decreases rows.len(),
{
    if rows.len() > 0 {
        lemma_find_map_miss(rows.drop_first(), osu_id);
    }
}

/// A freshly appended set row is found under its external id.
proof fn lemma_find_set_push(rows: Seq<BeatmapsetRow>, x: BeatmapsetRow, osu_id: i32)
    requires
        find_set(rows, osu_id) is None,
    ensures
        find_set(rows.push(x), osu_id) == (if x.osu_id == Some(osu_id) {
            Some(x.id)
        } else {
            None::<u32>
        }),
    decreases rows.len(),
{
    if rows.len() == 0 {
        assert(rows.push(x)[0] == x);
        assert(rows.push(x).drop_first() =~= Seq::<BeatmapsetRow>::empty());
        assert(find_set(Seq::<BeatmapsetRow>::empty(), osu_id) is None);
    } else {
        assert(rows[0].osu_id != Some(osu_id));
        assert(rows.push(x)[0] == rows[0]);
        assert(rows.push(x).drop_first() =~= rows.drop_first().push(x));
        lemma_find_set_push(rows.drop_first(), x, osu_id);
    }
}

impl Store {
    /// An empty store.
    pub fn new() -> (r: Store)
        ensures
            r.beatmapsets@.len() == 0,
            r.beatmaps@.len() == 0,
            r.rates@.len() == 0,
            r.ratings@.len() == 0,
            r.mania_ratings@.len() == 0,
    {
        Store {
            beatmapsets: Vec::new(),
            beatmaps: Vec::new(),
            rates: Vec::new(),
            ratings: Vec::new(),
            mania_ratings: Vec::new(),
        }
    }

    /// Upserts a set row: an existing row with the same external id keeps
    /// its id and nothing changes; otherwise the row is appended under the
    /// next id.  Only the set table is touched.
    pub fn upsert_beatmapset(&mut self, row: BeatmapsetRow) -> (r: u32)
        requires
            old(self).beatmapsets@.len() < 0xFFFFFFFE,
        ensures
            (final(self).beatmapsets@, r) == upsert_set_spec(old(self).beatmapsets@, row),
            final(self).beatmaps == old(self).beatmaps,
            final(self).rates == old(self).rates,
            final(self).ratings == old(self).ratings,
            final(self).mania_ratings == old(self).mania_ratings,
    {
        match row.osu_id {
            Some(o) => {
                let mut i: usize = 0;
                while i < self.beatmapsets.len()
                    invariant
                        *self == *old(self),
                        row.osu_id == Some(o),
                        i <= self.beatmapsets.len(),
                        forall|j: int|
                            0 <= j < i ==> (#[trigger] self.beatmapsets@[j]).osu_id != Some(o),
                    decreases self.beatmapsets.len() - i,
                {
                    let matches_id = match self.beatmapsets[i].osu_id {
                        Some(x) => x == o,
                        None => false,
                    };
                    if matches_id {
                        proof {
                            lemma_find_set_hit(self.beatmapsets@, o, i as int);
                        }
                        return self.beatmapsets[i].id;
                    }
                    i = i + 1;
                }
                proof {
                    lemma_find_set_miss(self.beatmapsets@, o);
                }
                let fresh = self.beatmapsets.len() as u32 + 1;
                let mut inserted = row;
                inserted.id = fresh;
                proof {
                    assert(inserted == (BeatmapsetRow { id: fresh, ..row }));
                }
                self.beatmapsets.push(inserted);
                fresh
            },
            None => {
                let fresh = self.beatmapsets.len() as u32 + 1;
                let mut inserted = row;
                inserted.id = fresh;
                proof {
                    assert(inserted == (BeatmapsetRow { id: fresh, ..row }));
                }
                self.beatmapsets.push(inserted);
                fresh
            },
        }
    }

    /// Upserts a chart row, as [`Store::upsert_beatmapset`] does for sets.
    pub fn upsert_beatmap(&mut self, row: BeatmapRow) -> (r: u32)
        requires
            old(self).beatmaps@.len() < 0xFFFFFFFE,
        ensures
            (final(self).beatmaps@, r) == upsert_map_spec(old(self).beatmaps@, row),
            final(self).beatmapsets == old(self).beatmapsets,
            final(self).rates == old(self).rates,
            final(self).ratings == old(self).ratings,
            final(self).mania_ratings == old(self).mania_ratings,
    {
        match row.osu_id {
            Some(o) => {
                let mut i: usize = 0;
                while i < self.beatmaps.len()
                    invariant
                        *self == *old(self),
                        row.osu_id == Some(o),
                        i <= self.beatmaps.len(),
                        forall|j: int|
                            0 <= j < i ==> (#[trigger] self.beatmaps@[j]).osu_id != Some(o),
                    decreases self.beatmaps.len() - i,
                {
                    let matches_id = match self.beatmaps[i].osu_id {
                        Some(x) => x == o,
                        None => false,
                    };
                    if matches_id {
                        proof {
                            lemma_find_map_hit(self.beatmaps@, o, i as int);
                        }
                        return self.beatmaps[i].id;
                    }
                    i = i + 1;
                }
                proof {
                    lemma_find_map_miss(self.beatmaps@, o);
                }
                let fresh = self.beatmaps.len() as u32 + 1;
                let mut inserted = row;
                inserted.id = fresh;
                proof {
                    assert(inserted == (BeatmapRow { id: fresh, ..row }));
                }
                self.beatmaps.push(inserted);
                fresh
            },
            None => {
                let fresh = self.beatmaps.len() as u32 + 1;
                let mut inserted = row;
                inserted.id = fresh;
                proof {
                    assert(inserted == (BeatmapRow { id: fresh, ..row }));
                }
                self.beatmaps.push(inserted);
                fresh
            },
        }
    }

    /// Appends a rate-variant row under the next id.
    pub fn insert_rates(&mut self, row: RatesRow) -> (r: u32)
        requires
            old(self).rates@.len() < 0xFFFFFFFE,
        ensures
            r == old(self).rates@.len() + 1,
            final(self).rates@ == old(self).rates@.push(RatesRow { id: r, ..row }),
            final(self).beatmapsets == old(self).beatmapsets,
            final(self).beatmaps == old(self).beatmaps,
            final(self).ratings == old(self).ratings,
            final(self).mania_ratings == old(self).mania_ratings,
    {
        let fresh = self.rates.len() as u32 + 1;
        let mut inserted = row;
        inserted.id = fresh;
        proof {
            assert(inserted == (RatesRow { id: fresh, ..row }));
        }
        self.rates.push(inserted);
        fresh
    }

    /// Appends a rating row under the next id.
    pub fn insert_rating(&mut self, row: BeatmapRatingRow) -> (r: u32)
        requires
            old(self).ratings@.len() < 0xFFFFFFFE,
        ensures
            r == old(self).ratings@.len() + 1,
            final(self).ratings@ == old(self).ratings@.push(BeatmapRatingRow { id: r, ..row }),
            final(self).beatmapsets == old(self).beatmapsets,
            final(self).beatmaps == old(self).beatmaps,
            final(self).rates == old(self).rates,
            final(self).mania_ratings == old(self).mania_ratings,
    {
        let fresh = self.ratings.len() as u32 + 1;
        let mut inserted = row;
        inserted.id = fresh;
        proof {
            assert(inserted == (BeatmapRatingRow { id: fresh, ..row }));
        }
        self.ratings.push(inserted);
        fresh
    }

    /// Appends a per-style sub-rating row under the next id.
    pub fn insert_mania_rating(&mut self, row: BeatmapManiaRatingRow) -> (r: u32)
        requires
            old(self).mania_ratings@.len() < 0xFFFFFFFE,
        ensures
            r == old(self).mania_ratings@.len() + 1,
            final(self).mania_ratings@ == old(self).mania_ratings@.push(
                BeatmapManiaRatingRow { id: r, ..row },
            ),
            final(self).beatmapsets == old(self).beatmapsets,
            final(self).beatmaps == old(self).beatmaps,
            final(self).rates == old(self).rates,
            final(self).ratings == old(self).ratings,
    {
        let fresh = self.mania_ratings.len() as u32 + 1;
        let mut inserted = row;
        inserted.id = fresh;
        proof {
            assert(inserted == (BeatmapManiaRatingRow { id: fresh, ..row }));
        }
        self.mania_ratings.push(inserted);
        fresh
    }
}

/// Idempotent set upsert: upserting a second row with the same external id
/// returns the id the first upsert gave and leaves the table unchanged — no
/// duplicate row is created.
pub proof fn lemma_upsert_set_idempotent(
    rows: Seq<BeatmapsetRow>,
    r1: BeatmapsetRow,
    r2: BeatmapsetRow,
)
    requires
        r1.osu_id is Some,
        r2.osu_id == r1.osu_id,
    ensures
        ({
            let (rows1, id1) = upsert_set_spec(rows, r1);
            let (rows2, id2) = upsert_set_spec(rows1, r2);
            id2 == id1 && rows2 == rows1
        }),
{
    let o = r1.osu_id->0;
    let (rows1, id1) = upsert_set_spec(rows, r1);
    match find_set(rows, o) {
        Some(id) => {},
        None => {
            let fresh = (rows.len() + 1) as u32;
            let appended = BeatmapsetRow { id: fresh, ..r1 };
            lemma_find_set_push(rows, appended, o);
            assert(find_set(rows1, o) == Some(fresh));
        },
    }
}

/// A freshly appended chart row is found under its external id.
proof fn lemma_find_map_push(rows: Seq<BeatmapRow>, x: BeatmapRow, osu_id: i32)
    requires
        find_map(rows, osu_id) is None,
    ensures
        find_map(rows.push(x), osu_id) == (if x.osu_id == Some(osu_id) {
            Some(x.id)
        } else {
            None::<u32>
        }),
    decreases rows.len(),
{
    if rows.len() == 0 {
        assert(rows.push(x)[0] == x);
        assert(rows.push(x).drop_first() =~= Seq::<BeatmapRow>::empty());
        assert(find_map(Seq::<BeatmapRow>::empty(), osu_id) is None);
    } else {
        assert(rows[0].osu_id != Some(osu_id));
        assert(rows.push(x)[0] == rows[0]);
        assert(rows.push(x).drop_first() =~= rows.drop_first().push(x));
        lemma_find_map_push(rows.drop_first(), x, osu_id);
    }
}

/// The (internal id, external id) keys of a chart table.
pub open spec fn map_keys(rows: Seq<BeatmapRow>) -> Seq<(u32, Option<i32>)> {
    rows.map_values(|r: BeatmapRow| (r.id, r.osu_id))
}

/// The id of the first key carrying this external id.
pub open spec fn find_key(keys: Seq<(u32, Option<i32>)>, osu_id: i32) -> Option<u32>
    decreases keys.len(),
{
    if keys.len() == 0 {
        None
    } else if keys[0].1 == Some(osu_id) {
        Some(keys[0].0)
    } else {
        find_key(keys.drop_first(), osu_id)
    }
}

/// Searching a chart table reads only its keys.
proof fn lemma_find_map_keys(rows: Seq<BeatmapRow>, osu_id: i32)
    ensures
        find_map(rows, osu_id) == find_key(map_keys(rows), osu_id),
    decreases rows.len(),
{
    if rows.len() > 0 {
        assert(map_keys(rows)[0] == (rows[0].id, rows[0].osu_id));
        assert(map_keys(rows).drop_first() =~= map_keys(rows.drop_first()));
        lemma_find_map_keys(rows.drop_first(), osu_id);
    }
}

/// Appending a row appends its key.
proof fn lemma_map_keys_push(rows: Seq<BeatmapRow>, x: BeatmapRow)
    ensures
        map_keys(rows.push(x)) == map_keys(rows).push((x.id, x.osu_id)),
{
    assert(map_keys(rows.push(x)) =~= map_keys(rows).push((x.id, x.osu_id)));
}

/// What upserting every chart of a set does to the chart table, key by key:
/// the final keys, the internal id each chart's variant rows hang from, and
/// for each appended row the index of the chart that produced it.
pub open spec fn upsert_keys_fold(keys: Seq<(u32, Option<i32>)>, bs: Seq<Beatmap>) -> (
    Seq<(u32, Option<i32>)>,
    Seq<u32>,
    Seq<int>,
)
    decreases bs.len(),
{
    if bs.len() == 0 {
        (keys, Seq::<u32>::empty(), Seq::<int>::empty())
    } else {
        let prev = upsert_keys_fold(keys, bs.drop_last());
        let b = bs.last();
        let fresh = (prev.0.len() + 1) as u32;
        match b.osu_id {
            Some(o) => match find_key(prev.0, o) {
                Some(id) => (prev.0, prev.1.push(id), prev.2),
                None => (prev.0.push((fresh, b.osu_id)), prev.1.push(fresh), prev.2.push(
                    bs.len() - 1,
                )),
            },
            None => (prev.0.push((fresh, b.osu_id)), prev.1.push(fresh), prev.2.push(
                bs.len() - 1,
            )),
        }
    }
}

/// What the whole insertion does to the chart table of a store, key by key.
pub open spec fn chart_table_plan(s0: Store, dto: Beatmapset) -> (
    Seq<(u32, Option<i32>)>,
    Seq<u32>,
    Seq<int>,
) {
    upsert_keys_fold(map_keys(s0.beatmaps@), dto.beatmaps@)
}

/// One parent chart id per variant row, in insertion order: every variant
/// of the j-th chart hangs from the j-th upserted id.
pub open spec fn flat_rate_parents(bs: Seq<Beatmap>, ids: Seq<u32>) -> Seq<u32>
    recommends
        ids.len() == bs.len(),
    decreases bs.len(),
{
    if bs.len() == 0 {
        Seq::<u32>::empty()
    } else {
        flat_rate_parents(bs.drop_last(), ids.drop_last()) + Seq::new(
            bs.last().rates@.len(),
            |i: int| ids.last(),
        )
    }
}

/// For each rating row of a variant list, the flat index of its variant
/// among all variants inserted so far, starting at `base`.
pub open spec fn rates_rating_parents(rs: Seq<Rates>, base: int) -> Seq<int>
    decreases rs.len(),
{
    if rs.len() == 0 {
        Seq::<int>::empty()
    } else {
        rates_rating_parents(rs.drop_last(), base) + Seq::new(
            rs.last().rating@.len(),
            |i: int| base + rs.len() - 1,
        )
    }
}

/// For each rating row of a set's charts, the flat index of its variant.
pub open spec fn flat_rating_parents(bs: Seq<Beatmap>) -> Seq<int>
    decreases bs.len(),
{
    if bs.len() == 0 {
        Seq::<int>::empty()
    } else {
        flat_rating_parents(bs.drop_last()) + rates_rating_parents(
            bs.last().rates@,
            flat_rates(bs.drop_last()).len() as int,
        )
    }
}

proof fn lemma_flat_rate_parents_len(bs: Seq<Beatmap>, ids: Seq<u32>)
    ensures
        flat_rate_parents(bs, ids).len() == flat_rates(bs).len(),
    decreases bs.len(),
{
    if bs.len() > 0 {
        lemma_flat_rate_parents_len(bs.drop_last(), ids.drop_last());
    }
}

proof fn lemma_rates_rating_parents_len(rs: Seq<Rates>, base: int)
    ensures
        rates_rating_parents(rs, base).len() == ratings_of_rates(rs).len(),
    decreases rs.len(),
{
    if rs.len() > 0 {
        lemma_rates_rating_parents_len(rs.drop_last(), base);
    }
}

proof fn lemma_flat_rating_parents_len(bs: Seq<Beatmap>)
    ensures
        flat_rating_parents(bs).len() == flat_ratings(bs).len(),
    decreases bs.len(),
{
    if bs.len() > 0 {
        lemma_flat_rating_parents_len(bs.drop_last());
        lemma_rates_rating_parents_len(bs.last().rates@, flat_rates(bs.drop_last()).len() as int);
    }
}

/// A persisted chart row carries the chart record's fields and hangs from
/// the set's id.
pub open spec fn chart_row_matches(row: BeatmapRow, b: Beatmap, set_id: u32) -> bool {
    &&& row.osu_id == b.osu_id
    &&& row.beatmapset_id == Some(set_id)
    &&& row.difficulty@ == b.difficulty@
    &&& row.count_circles == b.count_circles
    &&& row.count_sliders == b.count_sliders
    &&& row.count_spinners == b.count_spinners
    &&& row.max_combo == b.max_combo
    &&& row.main_pattern@.map_values(|x: String| x@) == b.main_pattern@.map_values(
        |x: String| x@,
    )
    &&& row.cs == b.cs
    &&& row.ar == b.ar
    &&& row.od == b.od
    &&& row.hp == b.hp
    &&& row.mode == b.mode
    &&& row.status@ == b.status@
}

/// A row already found under an external id stays found when the table
/// only grows.
proof fn lemma_find_map_some_push(rows: Seq<BeatmapRow>, x: BeatmapRow, osu_id: i32)
    requires
        find_map(rows, osu_id) is Some,
    ensures
        find_map(rows.push(x), osu_id) == find_map(rows, osu_id),
    decreases rows.len(),
{
    if rows.len() > 0 {
        assert(rows.push(x)[0] == rows[0]);
        if rows[0].osu_id == Some(osu_id) {
        } else {
            assert(rows.push(x).drop_first() =~= rows.drop_first().push(x));
            lemma_find_map_some_push(rows.drop_first(), x, osu_id);
        }
    }
}

/// Idempotent chart upsert: upserting a second row with the same external
/// id returns the id the first upsert gave and leaves the table unchanged —
/// no duplicate row is created.
pub proof fn lemma_upsert_map_idempotent(rows: Seq<BeatmapRow>, r1: BeatmapRow, r2: BeatmapRow)
    requires
        r1.osu_id is Some,
        r2.osu_id == r1.osu_id,
    ensures
        ({
            let (rows1, id1) = upsert_map_spec(rows, r1);
            let (rows2, id2) = upsert_map_spec(rows1, r2);
            id2 == id1 && rows2 == rows1
        }),
{
    let o = r1.osu_id->0;
    let (rows1, id1) = upsert_map_spec(rows, r1);
    match find_map(rows, o) {
        Some(id) => {},
        None => {
            let fresh = (rows.len() + 1) as u32;
            let appended = BeatmapRow { id: fresh, ..r1 };
            lemma_find_map_push(rows, appended, o);
            assert(find_map(rows1, o) == Some(fresh));
        },
    }
}

/// The variant rows of a list of chart records, in order.
pub open spec fn flat_rates(bs: Seq<Beatmap>) -> Seq<Rates>
    decreases bs.len(),
{
    if bs.len() == 0 {
        Seq::empty()
    } else {
        flat_rates(bs.drop_last()) + bs.last().rates@
    }
}

/// The rating rows of a list of variants, in order.
pub open spec fn ratings_of_rates(rs: Seq<Rates>) -> Seq<Rating>
    decreases rs.len(),
{
    if rs.len() == 0 {
        Seq::empty()
    } else {
        ratings_of_rates(rs.drop_last()) + rs.last().rating@
    }
}

/// The rating rows of a list of chart records, in order.
pub open spec fn flat_ratings(bs: Seq<Beatmap>) -> Seq<Rating>
    decreases bs.len(),
{
    if bs.len() == 0 {
        Seq::empty()
    } else {
        flat_ratings(bs.drop_last()) + ratings_of_rates(bs.last().rates@)
    }
}

/// A persisted variant row carries the variant's fields; a missing content
/// hash is stored as the empty text.
pub open spec fn rates_row_matches(row: RatesRow, s: Rates) -> bool {
    &&& row.osu_hash@ == (match s.osu_hash {
        Some(h) => h@,
        None => Seq::<char>::empty(),
    })
    &&& row.centirate == s.centirate
    &&& row.drain_time == s.drain_time
    &&& row.total_time == s.total_time
    &&& row.bpm == s.bpm
}

/// A persisted rating row carries the rating's value and source identifier.
pub open spec fn rating_row_matches(row: BeatmapRatingRow, s: Rating) -> bool {
    &&& row.rating == s.rating
    &&& row.rating_type@ == s.rating_type@
}

/// A persisted sub-rating row carries the breakdown, style by style.
pub open spec fn mania_row_matches(row: BeatmapManiaRatingRow, m: ManiaRating) -> bool {
    &&& row.stream == Some(m.stream)
    &&& row.jumpstream == Some(m.jumpstream)
    &&& row.handstream == Some(m.handstream)
    &&& row.stamina == Some(m.stamina)
    &&& row.jackspeed == Some(m.jackspeed)
    &&& row.chordjack == Some(m.chordjack)
    &&& row.technical == Some(m.technical)
}

/// Room for everything a set record inserts.
pub open spec fn store_has_room(s: Store, dto: Beatmapset) -> bool {
    &&& s.beatmapsets@.len() < 0xFFFFFFFE
    &&& s.beatmaps@.len() + dto.beatmaps@.len() < 0xFFFFFFFE
    &&& s.rates@.len() + flat_rates(dto.beatmaps@).len() < 0xFFFFFFFE
    &&& s.ratings@.len() + flat_ratings(dto.beatmaps@).len() < 0xFFFFFFFE
    &&& s.mania_ratings@.len() + flat_ratings(dto.beatmaps@).len() < 0xFFFFFFFE
}

/// What the set-level upsert of the whole insertion did.
pub open spec fn set_upsert_done(s0: Store, s1: Store, dto: Beatmapset, set_id: u32) -> bool {
    match dto.osu_id {
        Some(o) => match find_set(s0.beatmapsets@, o) {
            Some(id) => set_id == id && s1.beatmapsets@ == s0.beatmapsets@,
            None => {
                &&& set_id == s0.beatmapsets@.len() + 1
                &&& s1.beatmapsets@.len() == s0.beatmapsets@.len() + 1
                &&& s1.beatmapsets@.take(s0.beatmapsets@.len() as int) == s0.beatmapsets@
                &&& set_row_matches(s1.beatmapsets@.last(), dto, set_id)
            },
        },
        None => {
            &&& set_id == s0.beatmapsets@.len() + 1
            &&& s1.beatmapsets@.len() == s0.beatmapsets@.len() + 1
            &&& s1.beatmapsets@.take(s0.beatmapsets@.len() as int) == s0.beatmapsets@
            &&& set_row_matches(s1.beatmapsets@.last(), dto, set_id)
        },
    }
}

/// A persisted set row carries the set record's fields, the tag line split
/// into words.
pub open spec fn set_row_matches(row: BeatmapsetRow, dto: Beatmapset, id: u32) -> bool {
    &&& row.id == id
    &&& row.osu_id == dto.osu_id
    &&& row.artist@ == dto.artist@
    &&& row.title@ == dto.title@
    &&& row.creator@ == dto.creator@
    &&& row.has_video == dto.has_video
    &&& row.has_storyboard == dto.has_storyboard
    &&& row.is_explicit == dto.is_explicit
    &&& row.is_featured == dto.is_featured
    &&& (match dto.tags {
        Some(t) => row.tags matches Some(ws) && ws@.map_values(|w: String| w@) == split_spaces(t@),
        None => row.tags is None,
    })
}

proof fn lemma_flat_rates_len_mono(bs: Seq<Beatmap>, j: int)
    requires
        0 <= j < bs.len(),
    ensures
        flat_rates(bs.take(j)).len() + bs[j].rates@.len() <= flat_rates(bs).len(),
    decreases bs.len(),
{
    if j == bs.len() - 1 {
        assert(bs.drop_last() =~= bs.take(j));
    } else {
        assert(bs.drop_last().take(j) =~= bs.take(j));
        lemma_flat_rates_len_mono(bs.drop_last(), j);
    }
}

proof fn lemma_flat_ratings_len_mono(bs: Seq<Beatmap>, j: int)
    requires
        0 <= j < bs.len(),
    ensures
        flat_ratings(bs.take(j)).len() + ratings_of_rates(bs[j].rates@).len() <= flat_ratings(
            bs,
        ).len(),
    decreases bs.len(),
{
    if j == bs.len() - 1 {
        assert(bs.drop_last() =~= bs.take(j));
    } else {
        assert(bs.drop_last().take(j) =~= bs.take(j));
        lemma_flat_ratings_len_mono(bs.drop_last(), j);
    }
}

proof fn lemma_ratings_of_rates_len_mono(rs: Seq<Rates>, i: int)
    requires
        0 <= i < rs.len(),
    ensures
        ratings_of_rates(rs.take(i)).len() + rs[i].rating@.len() <= ratings_of_rates(rs).len(),
    decreases rs.len(),
{
    if i == rs.len() - 1 {
        assert(rs.drop_last() =~= rs.take(i));
    } else {
        assert(rs.drop_last().take(i) =~= rs.take(i));
        lemma_ratings_of_rates_len_mono(rs.drop_last(), i);
    }
}

/// Inserts a full set record: the set upserted, each chart upserted with
/// the set's id as parent, then every variant, rating and per-style
/// sub-rating row appended in dependency order, ids assigned in sequence.
pub fn insert_full_beatmapset(store: &mut Store, dto: &Beatmapset) -> (r: Result<
    u32,
    BeatmapWorkerError,
>)
    requires
        store_has_room(*old(store), *dto),
    ensures
        r matches Ok(set_id) ==> set_upsert_done(*old(store), *final(store), *dto, set_id),
        r is Ok,
        final(store).beatmaps@.take(old(store).beatmaps@.len() as int) == old(store).beatmaps@,
        forall|j: int|
            0 <= j < dto.beatmaps@.len() ==> ((#[trigger] dto.beatmaps@[j]).osu_id matches Some(o)
                ==> find_map(final(store).beatmaps@, o) is Some),
        final(store).rates@.len() == old(store).rates@.len() + flat_rates(dto.beatmaps@).len(),
        final(store).rates@.take(old(store).rates@.len() as int) == old(store).rates@,
        forall|k: int|
            0 <= k < flat_rates(dto.beatmaps@).len() ==> rates_row_matches(
                #[trigger] final(store).rates@[old(store).rates@.len() + k],
                flat_rates(dto.beatmaps@)[k],
            ),
        final(store).ratings@.len() == old(store).ratings@.len() + flat_ratings(
            dto.beatmaps@,
        ).len(),
        final(store).ratings@.take(old(store).ratings@.len() as int) == old(store).ratings@,
        forall|m: int|
            0 <= m < flat_ratings(dto.beatmaps@).len() ==> rating_row_matches(
                #[trigger] final(store).ratings@[old(store).ratings@.len() + m],
                flat_ratings(dto.beatmaps@)[m],
            ),
        final(store).mania_ratings@.len() == old(store).mania_ratings@.len() + flat_ratings(
            dto.beatmaps@,
        ).len(),
        final(store).mania_ratings@.take(old(store).mania_ratings@.len() as int) == old(
            store,
        ).mania_ratings@,
        forall|m: int|
            0 <= m < flat_ratings(dto.beatmaps@).len() ==> {
                let row = #[trigger] final(store).mania_ratings@[old(
                    store,
                ).mania_ratings@.len() + m];
                mania_row_matches(row, flat_ratings(dto.beatmaps@)[m].mania_rating)
                    && row.rating_id == Some((old(store).ratings@.len() + m + 1) as u32)
            },
        map_keys(final(store).beatmaps@) == chart_table_plan(*old(store), *dto).0,
        final(store).beatmaps@.len() == old(store).beatmaps@.len() + chart_table_plan(
            *old(store),
            *dto,
        ).2.len(),
        r matches Ok(set_id) ==> forall|p: int|
            0 <= p < chart_table_plan(*old(store), *dto).2.len() ==> chart_row_matches(
                #[trigger] final(store).beatmaps@[old(store).beatmaps@.len() + p],
                dto.beatmaps@[chart_table_plan(*old(store), *dto).2[p]],
                set_id,
            ),
        forall|k: int|
            0 <= k < flat_rates(dto.beatmaps@).len() ==> (#[trigger] final(store).rates@[old(
                store,
            ).rates@.len() + k]).beatmap_id == flat_rate_parents(
                dto.beatmaps@,
                chart_table_plan(*old(store), *dto).1,
            )[k],
        forall|m: int|
            0 <= m < flat_ratings(dto.beatmaps@).len() ==> (#[trigger] final(store).ratings@[old(
                store,
            ).ratings@.len() + m]).rates_id == Some(
                (old(store).rates@.len() + flat_rating_parents(dto.beatmaps@)[m] + 1) as u32,
            ),
{
    let tags: Option<Vec<String>> = match &dto.tags {
        Some(t) => Some(split_tags(t.as_str())),
        None => None,
    };
    let beatmapset_row = BeatmapsetRow {
        id: 0,
        osu_id: dto.osu_id,
        artist: dto.artist.clone(),
        artist_unicode: clone_opt_string(&dto.artist_unicode),
        title: dto.title.clone(),
        title_unicode: clone_opt_string(&dto.title_unicode),
        creator: dto.creator.clone(),
        source: clone_opt_string(&dto.source),
        tags,
        has_video: dto.has_video,
        has_storyboard: dto.has_storyboard,
        is_explicit: dto.is_explicit,
        is_featured: dto.is_featured,
        cover_url: clone_opt_string(&dto.cover_url),
        preview_url: clone_opt_string(&dto.preview_url),
        osu_file_url: clone_opt_string(&dto.osu_file_url),
    };
    let ghost set_row_snapshot = beatmapset_row;
    let ghost sets_before = store.beatmapsets@;
    let beatmapset_id = store.upsert_beatmapset(beatmapset_row);

    let ghost s0 = *old(store);
    let ghost bs = dto.beatmaps@;
    proof {
        let fresh = (sets_before.len() + 1) as u32;
        let appended = BeatmapsetRow { id: fresh, ..set_row_snapshot };
        match dto.osu_id {
            Some(o) => {
                match find_set(sets_before, o) {
                    Some(id) => {
                        assert(store.beatmapsets@ == sets_before);
                    },
                    None => {
                        assert(store.beatmapsets@ == sets_before.push(appended));
                        assert(store.beatmapsets@.take(sets_before.len() as int) =~= sets_before);
                        assert(store.beatmapsets@.last() == appended);
                        assert(set_row_matches(appended, *dto, beatmapset_id));
                    },
                }
            },
            None => {
                assert(store.beatmapsets@ == sets_before.push(appended));
                assert(store.beatmapsets@.take(sets_before.len() as int) =~= sets_before);
                assert(store.beatmapsets@.last() == appended);
                assert(set_row_matches(appended, *dto, beatmapset_id));
            },
        }
        assert(set_upsert_done(s0, *store, *dto, beatmapset_id));
        assert(bs.take(0) =~= Seq::<Beatmap>::empty());
        assert(flat_rates(Seq::<Beatmap>::empty()) =~= Seq::<Rates>::empty());
        assert(flat_ratings(Seq::<Beatmap>::empty()) =~= Seq::<Rating>::empty());
        assert(store.beatmaps@.take(s0.beatmaps@.len() as int) =~= s0.beatmaps@);
        assert(store.rates@.take(s0.rates@.len() as int) =~= s0.rates@);
        assert(store.ratings@.take(s0.ratings@.len() as int) =~= s0.ratings@);
        assert(store.mania_ratings@.take(s0.mania_ratings@.len() as int) =~= s0.mania_ratings@);
        assert(upsert_keys_fold(map_keys(s0.beatmaps@), Seq::<Beatmap>::empty()) == (
            map_keys(s0.beatmaps@),
            Seq::<u32>::empty(),
            Seq::<int>::empty(),
        ));
        assert(flat_rate_parents(Seq::<Beatmap>::empty(), Seq::<u32>::empty()) =~= Seq::<
            u32,
        >::empty());
        assert(flat_rating_parents(Seq::<Beatmap>::empty()) =~= Seq::<int>::empty());
    }
    let mut bi: usize = 0;
    while bi < dto.beatmaps.len()
        invariant
            bi <= dto.beatmaps.len(),
            bs == dto.beatmaps@,
            store_has_room(s0, *dto),
            set_upsert_done(s0, *store, *dto, beatmapset_id),
            store.beatmaps@.len() <= s0.beatmaps@.len() + bi,
            s0.beatmaps@.len() <= store.beatmaps@.len(),
            forall|j: int|
                0 <= j < bi ==> ((#[trigger] bs[j]).osu_id matches Some(o) ==> find_map(
                    store.beatmaps@,
                    o,
                ) is Some),
            map_keys(store.beatmaps@) == upsert_keys_fold(
                map_keys(s0.beatmaps@),
                bs.take(bi as int),
            ).0,
            upsert_keys_fold(map_keys(s0.beatmaps@), bs.take(bi as int)).1.len() == bi,
            store.beatmaps@.len() == s0.beatmaps@.len() + upsert_keys_fold(
                map_keys(s0.beatmaps@),
                bs.take(bi as int),
            ).2.len(),
            forall|p: int|
                0 <= p < upsert_keys_fold(map_keys(s0.beatmaps@), bs.take(bi as int)).2.len()
                    ==> 0 <= #[trigger] upsert_keys_fold(
                    map_keys(s0.beatmaps@),
                    bs.take(bi as int),
                ).2[p] < bi,
            forall|p: int|
                0 <= p < upsert_keys_fold(map_keys(s0.beatmaps@), bs.take(bi as int)).2.len()
                    ==> chart_row_matches(
                    #[trigger] store.beatmaps@[s0.beatmaps@.len() + p],
                    bs[upsert_keys_fold(map_keys(s0.beatmaps@), bs.take(bi as int)).2[p]],
                    beatmapset_id,
                ),
            forall|k: int|
                0 <= k < flat_rates(bs.take(bi as int)).len() ==> (
                #[trigger] store.rates@[s0.rates@.len() + k]).beatmap_id == flat_rate_parents(
                    bs.take(bi as int),
                    upsert_keys_fold(map_keys(s0.beatmaps@), bs.take(bi as int)).1,
                )[k],
            forall|m: int|
                0 <= m < flat_ratings(bs.take(bi as int)).len() ==> (
                #[trigger] store.ratings@[s0.ratings@.len() + m]).rates_id == Some(
                    (s0.rates@.len() + flat_rating_parents(bs.take(bi as int))[m] + 1) as u32,
                ),
            store.beatmaps@.take(s0.beatmaps@.len() as int) == s0.beatmaps@,
            store.rates@.len() == s0.rates@.len() + flat_rates(bs.take(bi as int)).len(),
            store.rates@.take(s0.rates@.len() as int) == s0.rates@,
            forall|k: int|
                0 <= k < flat_rates(bs.take(bi as int)).len() ==> rates_row_matches(
                    #[trigger] store.rates@[s0.rates@.len() + k],
                    flat_rates(bs.take(bi as int))[k],
                ),
            store.ratings@.len() == s0.ratings@.len() + flat_ratings(bs.take(bi as int)).len(),
            store.ratings@.take(s0.ratings@.len() as int) == s0.ratings@,
            forall|m: int|
                0 <= m < flat_ratings(bs.take(bi as int)).len() ==> rating_row_matches(
                    #[trigger] store.ratings@[s0.ratings@.len() + m],
                    flat_ratings(bs.take(bi as int))[m],
                ),
            store.mania_ratings@.len() == s0.mania_ratings@.len() + flat_ratings(
                bs.take(bi as int),
            ).len(),
            store.mania_ratings@.take(s0.mania_ratings@.len() as int) == s0.mania_ratings@,
            forall|m: int|
                0 <= m < flat_ratings(bs.take(bi as int)).len() ==> {
                    let row = #[trigger] store.mania_ratings@[s0.mania_ratings@.len() + m];
                    mania_row_matches(row, flat_ratings(bs.take(bi as int))[m].mania_rating)
                        && row.rating_id == Some((s0.ratings@.len() + m + 1) as u32)
                },
        decreases dto.beatmaps.len() - bi,
    {
        let dto_b = &dto.beatmaps[bi];
        let beatmap_row = BeatmapRow {
            id: 0,
            osu_id: dto_b.osu_id,
            beatmapset_id: Some(beatmapset_id),
            difficulty: dto_b.difficulty.clone(),
            count_circles: dto_b.count_circles,
            count_sliders: dto_b.count_sliders,
            count_spinners: dto_b.count_spinners,
            max_combo: dto_b.max_combo,
            main_pattern: clone_string_vec(&dto_b.main_pattern),
            cs: dto_b.cs,
            ar: dto_b.ar,
            od: dto_b.od,
            hp: dto_b.hp,
            mode: dto_b.mode,
            status: dto_b.status.clone(),
        };
        proof {
            lemma_flat_rates_len_mono(bs, bi as int);
            lemma_flat_ratings_len_mono(bs, bi as int);
        }
        let ghost map_row_snapshot = beatmap_row;
        let ghost maps_before = store.beatmaps@;
        let beatmap_id = store.upsert_beatmap(beatmap_row);
        proof {
            let fresh = (maps_before.len() + 1) as u32;
            let appended = BeatmapRow { id: fresh, ..map_row_snapshot };
            match map_row_snapshot.osu_id {
                Some(o) => {
                    match find_map(maps_before, o) {
                        Some(id) => {
                            assert(store.beatmaps@ == maps_before);
                        },
                        None => {
                            assert(store.beatmaps@ == maps_before.push(appended));
                            assert(store.beatmaps@.take(maps_before.len() as int)
                                =~= maps_before);
                        },
                    }
                },
                None => {
                    assert(store.beatmaps@ == maps_before.push(appended));
                    assert(store.beatmaps@.take(maps_before.len() as int) =~= maps_before);
                },
            }
            assert(store.beatmaps@.take(maps_before.len() as int) == maps_before);
            match map_row_snapshot.osu_id {
                Some(o) => {
                    match find_map(maps_before, o) {
                        Some(id) => {},
                        None => {
                            lemma_find_map_push(
                                maps_before,
                                BeatmapRow { id: fresh, ..map_row_snapshot },
                                o,
                            );
                        },
                    }
                    assert(find_map(store.beatmaps@, o) is Some);
                },
                None => {},
            }
            assert forall|j: int|
                0 <= j < bi implies ((#[trigger] bs[j]).osu_id matches Some(o) ==> find_map(
                store.beatmaps@,
                o,
            ) is Some) by {
                if bs[j].osu_id is Some {
                    let o = bs[j].osu_id->0;
                    if find_map(maps_before, o) is Some {
                        match map_row_snapshot.osu_id {
                            Some(o2) => {
                                if find_map(maps_before, o2) is None {
                                    lemma_find_map_some_push(
                                        maps_before,
                                        BeatmapRow { id: fresh, ..map_row_snapshot },
                                        o,
                                    );
                                }
                            },
                            None => {
                                lemma_find_map_some_push(
                                    maps_before,
                                    BeatmapRow { id: fresh, ..map_row_snapshot },
                                    o,
                                );
                            },
                        }
                    }
                }
            }
            assert forall|j: int|
                0 <= j < s0.beatmaps@.len() implies store.beatmaps@.take(
                s0.beatmaps@.len() as int,
            )[j] == s0.beatmaps@[j] by {
                assert(store.beatmaps@.take(s0.beatmaps@.len() as int)[j] == store.beatmaps@[j]);
                assert(store.beatmaps@.take(maps_before.len() as int)[j] == store.beatmaps@[j]);
                assert(maps_before.take(s0.beatmaps@.len() as int)[j] == maps_before[j]);
            }
            assert(store.beatmaps@.take(s0.beatmaps@.len() as int) =~= s0.beatmaps@);

            // the chart upsert, step by step at the key level
            let k0 = map_keys(s0.beatmaps@);
            let prev = upsert_keys_fold(k0, bs.take(bi as int));
            assert(bs.take(bi + 1).drop_last() =~= bs.take(bi as int));
            assert(bs.take(bi + 1).last() == bs[bi as int]);
            assert(map_keys(maps_before) == prev.0);
            assert(prev.0.len() == maps_before.len());
            assert(map_row_snapshot.osu_id == bs[bi as int].osu_id);
            assert(chart_row_matches(appended, bs[bi as int], beatmapset_id));
            match map_row_snapshot.osu_id {
                Some(o) => {
                    lemma_find_map_keys(maps_before, o);
                    match find_map(maps_before, o) {
                        Some(id) => {
                            assert(beatmap_id == id);
                            assert(upsert_keys_fold(k0, bs.take(bi + 1)) == (
                                prev.0,
                                prev.1.push(beatmap_id),
                                prev.2,
                            ));
                            assert(map_keys(store.beatmaps@) == upsert_keys_fold(
                                k0,
                                bs.take(bi + 1),
                            ).0);
                        },
                        None => {
                            lemma_map_keys_push(maps_before, appended);
                            assert(beatmap_id == fresh);
                            assert(upsert_keys_fold(k0, bs.take(bi + 1)) == (
                                prev.0.push(((prev.0.len() + 1) as u32, bs[bi as int].osu_id)),
                                prev.1.push(beatmap_id),
                                prev.2.push(bi as int),
                            ));
                            assert(map_keys(store.beatmaps@) =~= upsert_keys_fold(
                                k0,
                                bs.take(bi + 1),
                            ).0);
                            assert(store.beatmaps@[s0.beatmaps@.len() + prev.2.len() as int]
                                == appended);
                        },
                    }
                },
                None => {
                    lemma_map_keys_push(maps_before, appended);
                    assert(beatmap_id == fresh);
                    assert(upsert_keys_fold(k0, bs.take(bi + 1)) == (
                        prev.0.push(((prev.0.len() + 1) as u32, bs[bi as int].osu_id)),
                        prev.1.push(beatmap_id),
                        prev.2.push(bi as int),
                    ));
                    assert(map_keys(store.beatmaps@) =~= upsert_keys_fold(
                        k0,
                        bs.take(bi + 1),
                    ).0);
                    assert(store.beatmaps@[s0.beatmaps@.len() + prev.2.len() as int] == appended);
                },
            }
            let plan1 = upsert_keys_fold(k0, bs.take(bi + 1));
            assert(plan1.1.len() == bi + 1);
            assert(plan1.1.last() == beatmap_id);
            assert(store.beatmaps@.len() == s0.beatmaps@.len() + plan1.2.len());
            assert forall|p: int|
                0 <= p < plan1.2.len() implies (0 <= plan1.2[p] < bi + 1 && chart_row_matches(
                #[trigger] store.beatmaps@[s0.beatmaps@.len() + p],
                bs[plan1.2[p]],
                beatmapset_id,
            )) by {
                if p < prev.2.len() {
                    assert(plan1.2[p] == prev.2[p]);
                    assert(store.beatmaps@[s0.beatmaps@.len() + p] == maps_before[
                        s0.beatmaps@.len() + p]);
                } else {
                    assert(plan1.2[p] == bi as int);
                }
            }
        }

        let ghost rates_seq = dto_b.rates@;
        let ghost flat_base = flat_rates(bs.take(bi as int)).len() as int;
        let ghost rates_base = store.rates@.len();
        let ghost ratings_base = store.ratings@.len();
        let ghost mania_base = store.mania_ratings@.len();
        let ghost store_at_b = *store;
        proof {
            assert(rates_seq.take(0) =~= Seq::<Rates>::empty());
            assert(ratings_of_rates(Seq::<Rates>::empty()) =~= Seq::<Rating>::empty());
            assert(rates_rating_parents(Seq::<Rates>::empty(), flat_base) =~= Seq::<
                int,
            >::empty());
            assert(store.rates@.take(rates_base as int) =~= store_at_b.rates@);
            assert(store.ratings@.take(ratings_base as int) =~= store_at_b.ratings@);
            assert(store.mania_ratings@.take(mania_base as int) =~= store_at_b.mania_ratings@);
        }
        let mut ri: usize = 0;
        while ri < dto_b.rates.len()
            invariant
                ri <= dto_b.rates.len(),
                rates_seq == dto_b.rates@,
                store.beatmapsets@ == store_at_b.beatmapsets@,
                store.beatmaps@ == store_at_b.beatmaps@,
                store.rates@.len() == rates_base + ri,
                rates_base == store_at_b.rates@.len(),
                rates_base == s0.rates@.len() + flat_base,
                ratings_base == s0.ratings@.len() + flat_ratings(bs.take(bi as int)).len(),
                flat_base == flat_rates(bs.take(bi as int)).len(),
                forall|k: int|
                    0 <= k < ri ==> (#[trigger] store.rates@[rates_base + k]).beatmap_id
                        == beatmap_id,
                forall|m: int|
                    0 <= m < ratings_of_rates(rates_seq.take(ri as int)).len() ==> (
                    #[trigger] store.ratings@[ratings_base + m]).rates_id == Some(
                        (s0.rates@.len() + rates_rating_parents(
                            rates_seq.take(ri as int),
                            flat_base,
                        )[m] + 1) as u32,
                    ),
                ratings_base == store_at_b.ratings@.len(),
                mania_base == store_at_b.mania_ratings@.len(),
                store.rates@.len() + (dto_b.rates@.len() - ri) < 0xFFFFFFFE,
                store.ratings@.len() + (ratings_of_rates(rates_seq).len() - ratings_of_rates(
                    rates_seq.take(ri as int),
                ).len()) < 0xFFFFFFFE,
                store.mania_ratings@.len() + (ratings_of_rates(rates_seq).len()
                    - ratings_of_rates(rates_seq.take(ri as int)).len()) < 0xFFFFFFFE,
                store.rates@.take(rates_base as int) == store_at_b.rates@,
                forall|k: int|
                    0 <= k < ri ==> rates_row_matches(
                        #[trigger] store.rates@[rates_base + k],
                        rates_seq[k],
                    ),
                store.ratings@.len() == ratings_base + ratings_of_rates(
                    rates_seq.take(ri as int),
                ).len(),
                store.ratings@.take(ratings_base as int) == store_at_b.ratings@,
                forall|m: int|
                    0 <= m < ratings_of_rates(rates_seq.take(ri as int)).len()
                        ==> rating_row_matches(
                        #[trigger] store.ratings@[ratings_base + m],
                        ratings_of_rates(rates_seq.take(ri as int))[m],
                    ),
                store.mania_ratings@.len() == mania_base + ratings_of_rates(
                    rates_seq.take(ri as int),
                ).len(),
                store.mania_ratings@.take(mania_base as int) == store_at_b.mania_ratings@,
                forall|m: int|
                    0 <= m < ratings_of_rates(rates_seq.take(ri as int)).len() ==> {
                        let row = #[trigger] store.mania_ratings@[mania_base + m];
                        mania_row_matches(
                            row,
                            ratings_of_rates(rates_seq.take(ri as int))[m].mania_rating,
                        ) && row.rating_id == Some((ratings_base + m + 1) as u32)
                    },
            decreases dto_b.rates.len() - ri,
        {
            let dto_r = &dto_b.rates[ri];
            let osu_hash = match &dto_r.osu_hash {
                Some(h) => h.clone(),
                None => String::new(),
            };
            let rates_row = RatesRow {
                id: 0,
                beatmap_id,
                osu_hash,
                centirate: dto_r.centirate,
                drain_time: dto_r.drain_time,
                total_time: dto_r.total_time,
                bpm: dto_r.bpm,
            };
            let rates_id = store.insert_rates(rates_row);
            proof {
                assert(store.rates@.take(rates_base as int) =~= store_at_b.rates@);
            }

            let ghost ratings_list = dto_r.rating@;
            let ghost inner_ratings_base = store.ratings@.len();
            let ghost inner_mania_base = store.mania_ratings@.len();
            let ghost store_at_r = *store;
            proof {
                lemma_ratings_of_rates_len_mono(rates_seq, ri as int);
                assert(store.ratings@.take(inner_ratings_base as int) =~= store_at_r.ratings@);
                assert(store.mania_ratings@.take(inner_mania_base as int)
                    =~= store_at_r.mania_ratings@);
            }
            let mut gi: usize = 0;
            while gi < dto_r.rating.len()
                invariant
                    gi <= dto_r.rating.len(),
                    ratings_list == dto_r.rating@,
                    store.beatmapsets@ == store_at_r.beatmapsets@,
                    store.beatmaps@ == store_at_r.beatmaps@,
                    store.rates@ == store_at_r.rates@,
                    inner_ratings_base == store_at_r.ratings@.len(),
                    inner_mania_base == store_at_r.mania_ratings@.len(),
                    store.ratings@.len() == inner_ratings_base + gi,
                    store.mania_ratings@.len() == inner_mania_base + gi,
                    store.ratings@.len() + (ratings_list.len() - gi) < 0xFFFFFFFE,
                    store.mania_ratings@.len() + (ratings_list.len() - gi) < 0xFFFFFFFE,
                    store.ratings@.take(inner_ratings_base as int) == store_at_r.ratings@,
                    store.mania_ratings@.take(inner_mania_base as int)
                        == store_at_r.mania_ratings@,
                    forall|m: int|
                        0 <= m < gi ==> rating_row_matches(
                            #[trigger] store.ratings@[inner_ratings_base + m],
                            ratings_list[m],
                        ),
                    forall|m: int|
                        0 <= m < gi ==> (#[trigger] store.ratings@[inner_ratings_base
                            + m]).rates_id == Some(rates_id),
                    forall|m: int|
                        0 <= m < gi ==> {
                            let row = #[trigger] store.mania_ratings@[inner_mania_base + m];
                            mania_row_matches(row, ratings_list[m].mania_rating) && row.rating_id
                                == Some((inner_ratings_base + m + 1) as u32)
                        },
                decreases dto_r.rating.len() - gi,
            {
                let dto_rating = &dto_r.rating[gi];
                let rating_row = BeatmapRatingRow {
                    id: 0,
                    rates_id: Some(rates_id),
                    rating: dto_rating.rating,
                    rating_type: dto_rating.rating_type.clone(),
                };
                let rating_id = store.insert_rating(rating_row);
                let mania_row = BeatmapManiaRatingRow {
                    id: 0,
                    rating_id: Some(rating_id),
                    stream: Some(dto_rating.mania_rating.stream),
                    jumpstream: Some(dto_rating.mania_rating.jumpstream),
                    handstream: Some(dto_rating.mania_rating.handstream),
                    stamina: Some(dto_rating.mania_rating.stamina),
                    jackspeed: Some(dto_rating.mania_rating.jackspeed),
                    chordjack: Some(dto_rating.mania_rating.chordjack),
                    technical: Some(dto_rating.mania_rating.technical),
                };
                let _ = store.insert_mania_rating(mania_row);
                proof {
                    assert(store.ratings@.take(inner_ratings_base as int)
                        =~= store_at_r.ratings@);
                    assert(store.mania_ratings@.take(inner_mania_base as int)
                        =~= store_at_r.mania_ratings@);
                }
                gi = gi + 1;
            }
            proof {
                assert(rates_seq.take(ri + 1).drop_last() =~= rates_seq.take(ri as int));
                assert(rates_seq.take(ri + 1).last() == rates_seq[ri as int]);
                assert(ratings_of_rates(rates_seq.take(ri + 1)) == ratings_of_rates(
                    rates_seq.take(ri as int),
                ) + ratings_list);
                assert(store.ratings@.take(ratings_base as int) =~= store_at_b.ratings@);
                assert(store.mania_ratings@.take(mania_base as int)
                    =~= store_at_b.mania_ratings@);
                let old_count = ratings_of_rates(rates_seq.take(ri as int)).len() as int;
                let new_count = ratings_of_rates(rates_seq.take(ri + 1)).len() as int;
                lemma_rates_rating_parents_len(rates_seq.take(ri as int), flat_base);
                lemma_rates_rating_parents_len(rates_seq.take(ri + 1), flat_base);
                assert(rates_rating_parents(rates_seq.take(ri + 1), flat_base)
                    == rates_rating_parents(rates_seq.take(ri as int), flat_base) + Seq::new(
                    ratings_list.len(),
                    |i: int| flat_base + ri,
                )) by {
                    assert(rates_seq.take(ri + 1).len() == ri + 1);
                    assert(rates_seq.take(ri + 1).last().rating@ == ratings_list);
                    assert(rates_rating_parents(rates_seq.take(ri + 1), flat_base)
                        =~= rates_rating_parents(rates_seq.take(ri as int), flat_base)
                        + Seq::new(ratings_list.len(), |i: int| flat_base + ri));
                }
                assert forall|m: int|
                    0 <= m < new_count implies (#[trigger] store.ratings@[ratings_base
                        + m]).rates_id == Some(
                    (s0.rates@.len() + rates_rating_parents(rates_seq.take(ri + 1), flat_base)[m]
                        + 1) as u32,
                ) by {
                    if m < old_count {
                        assert(store.ratings@.take(inner_ratings_base as int)[ratings_base + m]
                            == store.ratings@[ratings_base + m]);
                        assert(store_at_r.ratings@[ratings_base + m] == store.ratings@[ratings_base
                            + m]);
                        assert((rates_rating_parents(rates_seq.take(ri as int), flat_base)
                            + Seq::new(ratings_list.len(), |i: int| flat_base + ri))[m]
                            == rates_rating_parents(rates_seq.take(ri as int), flat_base)[m]);
                        assert(rates_rating_parents(rates_seq.take(ri + 1), flat_base)[m]
                            == rates_rating_parents(rates_seq.take(ri as int), flat_base)[m]);
                    } else {
                        let m2 = m - old_count;
                        assert(store.ratings@[inner_ratings_base + m2].rates_id == Some(rates_id));
                        assert((rates_rating_parents(rates_seq.take(ri as int), flat_base)
                            + Seq::new(ratings_list.len(), |i: int| flat_base + ri))[m]
                            == flat_base + ri);
                        assert(rates_rating_parents(rates_seq.take(ri + 1), flat_base)[m]
                            == flat_base + ri);
                        assert(rates_id == rates_base + ri + 1);
                        assert((s0.rates@.len() + (flat_base + ri) + 1) as u32 == rates_id);
                    }
                }
                assert forall|m: int|
                    0 <= m < new_count implies rating_row_matches(
                    #[trigger] store.ratings@[ratings_base + m],
                    ratings_of_rates(rates_seq.take(ri + 1))[m],
                ) by {
                    if m < old_count {
                        assert(store.ratings@.take(inner_ratings_base as int)[ratings_base + m]
                            == store.ratings@[ratings_base + m]);
                        assert(store_at_r.ratings@[ratings_base + m] == store.ratings@[ratings_base
                            + m]);
                        assert(ratings_of_rates(rates_seq.take(ri + 1))[m] == ratings_of_rates(
                            rates_seq.take(ri as int),
                        )[m]);
                    } else {
                        let m2 = m - old_count;
                        assert(rating_row_matches(
                            store.ratings@[inner_ratings_base + m2],
                            ratings_list[m2],
                        ));
                        assert(ratings_of_rates(rates_seq.take(ri + 1))[m] == ratings_list[m2]);
                    }
                }
                assert forall|m: int|
                    0 <= m < new_count implies (mania_row_matches(
                    #[trigger] store.mania_ratings@[mania_base + m],
                    ratings_of_rates(rates_seq.take(ri + 1))[m].mania_rating,
                ) && store.mania_ratings@[mania_base + m].rating_id == Some(
                    (ratings_base + m + 1) as u32,
                )) by {
                    if m < old_count {
                        assert(store.mania_ratings@.take(inner_mania_base as int)[mania_base + m]
                            == store.mania_ratings@[mania_base + m]);
                        assert(store_at_r.mania_ratings@[mania_base + m]
                            == store.mania_ratings@[mania_base + m]);
                        assert(ratings_of_rates(rates_seq.take(ri + 1))[m] == ratings_of_rates(
                            rates_seq.take(ri as int),
                        )[m]);
                    } else {
                        let m2 = m - old_count;
                        assert(mania_row_matches(
                            store.mania_ratings@[inner_mania_base + m2],
                            ratings_list[m2].mania_rating,
                        ));
                        assert(store.mania_ratings@[inner_mania_base + m2].rating_id == Some(
                            (inner_ratings_base + m2 + 1) as u32,
                        ));
                        assert(ratings_of_rates(rates_seq.take(ri + 1))[m] == ratings_list[m2]);
                    }
                }
            }
            ri = ri + 1;
        }
        proof {
            assert(rates_seq.take(rates_seq.len() as int) =~= rates_seq);
            assert(bs.take(bi + 1).drop_last() =~= bs.take(bi as int));
            assert(bs.take(bi + 1).last() == bs[bi as int]);
            assert(flat_rates(bs.take(bi + 1)) == flat_rates(bs.take(bi as int)) + rates_seq);
            assert(flat_ratings(bs.take(bi + 1)) == flat_ratings(bs.take(bi as int))
                + ratings_of_rates(rates_seq));
            assert(store.rates@.take(s0.rates@.len() as int) =~= s0.rates@);
            assert(store.ratings@.take(s0.ratings@.len() as int) =~= s0.ratings@);
            assert(store.mania_ratings@.take(s0.mania_ratings@.len() as int)
                =~= s0.mania_ratings@);
            assert(store.beatmaps@.take(s0.beatmaps@.len() as int) =~= s0.beatmaps@);
            assert(store.beatmaps@ == store_at_b.beatmaps@);
            let k0 = map_keys(s0.beatmaps@);
            let prev = upsert_keys_fold(k0, bs.take(bi as int));
            let plan1 = upsert_keys_fold(k0, bs.take(bi + 1));
            assert forall|p: int|
                0 <= p < plan1.2.len() implies (0 <= plan1.2[p] < bi + 1 && chart_row_matches(
                #[trigger] store.beatmaps@[s0.beatmaps@.len() + p],
                bs[plan1.2[p]],
                beatmapset_id,
            )) by {
                assert(store.beatmaps@[s0.beatmaps@.len() + p] == store_at_b.beatmaps@[
                    s0.beatmaps@.len() + p]);
            }
            assert(plan1.1.drop_last() =~= prev.1);
            assert(flat_rate_parents(bs.take(bi + 1), plan1.1) == flat_rate_parents(
                bs.take(bi as int),
                prev.1,
            ) + Seq::new(rates_seq.len(), |i: int| beatmap_id)) by {
                assert(bs.take(bi + 1).drop_last() =~= bs.take(bi as int));
                assert(bs.take(bi + 1).last() == bs[bi as int]);
                assert(plan1.1.last() == beatmap_id);
                assert(flat_rate_parents(bs.take(bi + 1), plan1.1) =~= flat_rate_parents(
                    bs.take(bi as int),
                    prev.1,
                ) + Seq::new(rates_seq.len(), |i: int| beatmap_id));
            }
            assert(flat_rating_parents(bs.take(bi + 1)) == flat_rating_parents(bs.take(bi as int))
                + rates_rating_parents(rates_seq, flat_base)) by {
                assert(bs.take(bi + 1).drop_last() =~= bs.take(bi as int));
                assert(bs.take(bi + 1).last() == bs[bi as int]);
                assert(flat_rates(bs.take(bi as int)).len() as int == flat_base);
            }
            assert(rates_rating_parents(rates_seq.take(rates_seq.len() as int), flat_base)
                == rates_rating_parents(rates_seq, flat_base));
            lemma_flat_rate_parents_len(bs.take(bi as int), prev.1);
            lemma_flat_rate_parents_len(bs.take(bi + 1), plan1.1);
            lemma_flat_rating_parents_len(bs.take(bi as int));
            lemma_flat_rating_parents_len(bs.take(bi + 1));
            lemma_rates_rating_parents_len(rates_seq, flat_base);
            let old_r = flat_rates(bs.take(bi as int)).len() as int;
            assert forall|k: int|
                0 <= k < flat_rates(bs.take(bi + 1)).len() implies (rates_row_matches(
                #[trigger] store.rates@[s0.rates@.len() + k],
                flat_rates(bs.take(bi + 1))[k],
            ) && store.rates@[s0.rates@.len() + k].beatmap_id == flat_rate_parents(
                bs.take(bi + 1),
                plan1.1,
            )[k]) by {
                if k < old_r {
                    assert(store.rates@.take(rates_base as int)[s0.rates@.len() + k]
                        == store.rates@[s0.rates@.len() + k]);
                    assert(store_at_b.rates@[s0.rates@.len() + k] == store.rates@[s0.rates@.len()
                        + k]);
                    assert(flat_rates(bs.take(bi + 1))[k] == flat_rates(bs.take(bi as int))[k]);
                    assert((flat_rate_parents(bs.take(bi as int), prev.1) + Seq::new(
                        rates_seq.len(),
                        |i: int| beatmap_id,
                    ))[k] == flat_rate_parents(bs.take(bi as int), prev.1)[k]);
                    assert(flat_rate_parents(bs.take(bi + 1), plan1.1)[k] == flat_rate_parents(
                        bs.take(bi as int),
                        prev.1,
                    )[k]);
                } else {
                    let k2 = k - old_r;
                    assert(rates_row_matches(store.rates@[rates_base + k2], rates_seq[k2]));
                    assert(store.rates@[rates_base + k2].beatmap_id == beatmap_id);
                    assert(flat_rates(bs.take(bi + 1))[k] == rates_seq[k2]);
                    assert((flat_rate_parents(bs.take(bi as int), prev.1) + Seq::new(
                        rates_seq.len(),
                        |i: int| beatmap_id,
                    ))[k] == beatmap_id);
                    assert(flat_rate_parents(bs.take(bi + 1), plan1.1)[k] == beatmap_id);
                }
            }
            let old_g = flat_ratings(bs.take(bi as int)).len() as int;
            assert(ratings_of_rates(rates_seq.take(rates_seq.len() as int)) == ratings_of_rates(
                rates_seq,
            ));
            assert forall|m: int|
                0 <= m < flat_ratings(bs.take(bi + 1)).len() implies (rating_row_matches(
                #[trigger] store.ratings@[s0.ratings@.len() + m],
                flat_ratings(bs.take(bi + 1))[m],
            ) && store.ratings@[s0.ratings@.len() + m].rates_id == Some(
                (s0.rates@.len() + flat_rating_parents(bs.take(bi + 1))[m] + 1) as u32,
            )) by {
                if m < old_g {
                    assert(store.ratings@.take(ratings_base as int)[s0.ratings@.len() + m]
                        == store.ratings@[s0.ratings@.len() + m]);
                    assert(store_at_b.ratings@[s0.ratings@.len() + m]
                        == store.ratings@[s0.ratings@.len() + m]);
                    assert(flat_ratings(bs.take(bi + 1))[m] == flat_ratings(
                        bs.take(bi as int),
                    )[m]);
                    assert((flat_rating_parents(bs.take(bi as int)) + rates_rating_parents(
                        rates_seq,
                        flat_base,
                    ))[m] == flat_rating_parents(bs.take(bi as int))[m]);
                    assert(flat_rating_parents(bs.take(bi + 1))[m] == flat_rating_parents(
                        bs.take(bi as int),
                    )[m]);
                } else {
                    let m2 = m - old_g;
                    assert(rating_row_matches(
                        store.ratings@[ratings_base + m2],
                        ratings_of_rates(rates_seq)[m2],
                    ));
                    assert(store.ratings@[ratings_base + m2].rates_id == Some(
                        (s0.rates@.len() + rates_rating_parents(rates_seq, flat_base)[m2]
                            + 1) as u32,
                    ));
                    assert(flat_ratings(bs.take(bi + 1))[m] == ratings_of_rates(rates_seq)[m2]);
                    assert((flat_rating_parents(bs.take(bi as int)) + rates_rating_parents(
                        rates_seq,
                        flat_base,
                    ))[m] == rates_rating_parents(rates_seq, flat_base)[m2]);
                    assert(flat_rating_parents(bs.take(bi + 1))[m] == rates_rating_parents(
                        rates_seq,
                        flat_base,
                    )[m2]);
                }
            }
            assert forall|m: int|
                0 <= m < flat_ratings(bs.take(bi + 1)).len() implies (mania_row_matches(
                #[trigger] store.mania_ratings@[s0.mania_ratings@.len() + m],
                flat_ratings(bs.take(bi + 1))[m].mania_rating,
            ) && store.mania_ratings@[s0.mania_ratings@.len() + m].rating_id == Some(
                (s0.ratings@.len() + m + 1) as u32,
            )) by {
                if m < old_g {
                    assert(store.mania_ratings@.take(mania_base as int)[s0.mania_ratings@.len()
                        + m] == store.mania_ratings@[s0.mania_ratings@.len() + m]);
                    assert(store_at_b.mania_ratings@[s0.mania_ratings@.len() + m]
                        == store.mania_ratings@[s0.mania_ratings@.len() + m]);
                    assert(flat_ratings(bs.take(bi + 1))[m] == flat_ratings(
                        bs.take(bi as int),
                    )[m]);
                } else {
                    let m2 = m - old_g;
                    assert(mania_row_matches(
                        store.mania_ratings@[mania_base + m2],
                        ratings_of_rates(rates_seq)[m2].mania_rating,
                    ));
                    assert(store.mania_ratings@[mania_base + m2].rating_id == Some(
                        (ratings_base + m2 + 1) as u32,
                    ));
                    assert(flat_ratings(bs.take(bi + 1))[m] == ratings_of_rates(rates_seq)[m2]);
                }
            }
        }
        bi = bi + 1;
    }
    proof {
        assert(bs.take(bs.len() as int) =~= bs);
    }
    Ok(beatmapset_id)
}

/// Clones a list of texts, keeping the exact contents.
fn clone_string_vec(v: &Vec<String>) -> (r: Vec<String>)
    ensures
        r@ == v@,
{
    let mut out: Vec<String> = Vec::new();
    let mut i: usize = 0;
    while i < v.len()
        invariant
            i <= v.len(),
            out@ =~= v@.take(i as int),
        decreases v.len() - i,
    {
        out.push(v[i].clone());
        proof {
            assert(out@ =~= v@.take(i + 1));
        }
        i = i + 1;
    }
    proof {
        assert(v@.take(v@.len() as int) =~= v@);
    }
    out
}

/// Clones an optional text.
fn clone_opt_string(s: &Option<String>) -> (r: Option<String>)
    ensures
        (s matches Some(x) ==> (r matches Some(y) && y@ == x@)),
        (s is None ==> r is None),
{
    match s {
        Some(x) => Some(x.clone()),
        None => None,
    }
}

} // verus!
