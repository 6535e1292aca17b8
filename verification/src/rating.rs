//! Reconciling rating-source outputs into per-style rating records.
//!
//! One chart variant is rated by three independent sources: the vector
//! source, whose named per-style sub-scores stand verbatim, and two scalar
//! sources, whose single value is apportioned over the styles in the
//! proportions the vector source's sub-scores bear to its overall value.
//! The scalar engines themselves run outside the library; their results are
//! handed in as plain values, already reflecting the playback rate.
//!
//! Scores are fixed-point integers: the caller picks the unit (thousandths
//! in practice) and every contract states the exact integer arithmetic
//! performed.  Apportioning the scalar `v` to style `s` yields
//! `v * s / overall`, rounding toward zero.

use crate::errors::BeatmapWorkerError;
use vstd::arithmetic::div_mod::{
    lemma_div_nonincreasing, lemma_div_pos_is_pos, lemma_fundamental_div_mod,
    lemma_mod_division_less_than_divisor,
};
use vstd::prelude::*;

verus! {

/// The named per-style sub-scores of one chart variant, with the aggregate
/// overall value, as the vector rating source reports them.
#[derive(Debug, Clone, Copy, PartialEq, Eq, Structural)]
pub struct SkillVector {
    pub overall: u32,
    pub stream: u32,
    pub jumpstream: u32,
    pub handstream: u32,
    pub stamina: u32,
    pub jackspeed: u32,
    pub chordjack: u32,
    pub technical: u32,
}

/// The per-style proportions derived from a skill vector, kept exactly: the
/// seven sub-scores as numerators over the overall value as denominator.
#[derive(Debug, Clone, Copy, PartialEq, Eq, Structural)]
pub struct Proportion {
    pub stream: u32,
    pub jumpstream: u32,
    pub handstream: u32,
    pub stamina: u32,
    pub jackspeed: u32,
    pub chordjack: u32,
    pub technical: u32,
    pub overall: u32,
}

/// A per-style breakdown of one rating source's value.
#[derive(Debug, Clone, Copy, PartialEq, Eq, Structural)]
pub struct ManiaRating {
    pub stream: u64,
    pub jumpstream: u64,
    pub handstream: u64,
    pub stamina: u64,
    pub jackspeed: u64,
    pub chordjack: u64,
    pub technical: u64,
}

/// One rating source's result for one chart variant: the source identifier,
/// the overall value, and the per-style breakdown.
#[derive(Debug, Clone)]
pub struct Rating {
    pub rates_id: Option<i32>,
    pub rating: u32,
    pub rating_type: String,
    pub mania_rating: ManiaRating,
}

/// One fully-rated chart variant: the multiplier, the rescaled duration and
/// tempo fields, the content hash of the encoded variant, and the ratings.
#[derive(Debug, Clone)]
pub struct Rates {
    pub osu_hash: Option<String>,
    pub centirate: u32,
    pub drain_time: u32,
    pub total_time: u32,
    pub bpm: u32,
    pub rating: Vec<Rating>,
}

/// Everything one variant's rating needs: the skill vector looked up for
/// the multiplier, the canonical chart text the scalar engines consume, the
/// multiplier, and the unscaled duration and tempo fields.
#[derive(Debug, Clone)]
pub struct RatesMaker {
    pub skillset_scores: SkillVector,
    pub osu_map: String,
    pub centirate: u32,
    pub drain_time: u32,
    pub total_time: u32,
    pub bpm: u32,
}

/// The sum of the seven numerators of a proportion.
pub open spec fn prop_sub_sum(p: Proportion) -> int {
    p.stream + p.jumpstream + p.handstream + p.stamina + p.jackspeed + p.chordjack + p.technical
}

/// The sum of the seven styles of a breakdown.
pub open spec fn mania_sum(m: ManiaRating) -> int {
    m.stream + m.jumpstream + m.handstream + m.stamina + m.jackspeed + m.chordjack + m.technical
}

/// The share of value `v` that numerator `num` over denominator `den`
/// apportions: `v * num / den`, rounding toward zero.
pub open spec fn apportion(v: int, num: int, den: int) -> int {
    v * num / den
}

/// The breakdown of value `v` under proportion `p`.
pub open spec fn mania_of(v: u32, p: Proportion) -> ManiaRating {
    ManiaRating {
        stream: apportion(v as int, p.stream as int, p.overall as int) as u64,
        jumpstream: apportion(v as int, p.jumpstream as int, p.overall as int) as u64,
        handstream: apportion(v as int, p.handstream as int, p.overall as int) as u64,
        stamina: apportion(v as int, p.stamina as int, p.overall as int) as u64,
        jackspeed: apportion(v as int, p.jackspeed as int, p.overall as int) as u64,
        chordjack: apportion(v as int, p.chordjack as int, p.overall as int) as u64,
        technical: apportion(v as int, p.technical as int, p.overall as int) as u64,
    }
}

/// The proportions a skill vector induces: its sub-scores over its overall
/// value.
pub open spec fn proportion_of(sv: SkillVector) -> Proportion {
    Proportion {
        stream: sv.stream,
        jumpstream: sv.jumpstream,
        handstream: sv.handstream,
        stamina: sv.stamina,
        jackspeed: sv.jackspeed,
        chordjack: sv.chordjack,
        technical: sv.technical,
        overall: sv.overall,
    }
}

/// What a scalar-source rating holds: no row id yet, the source identifier,
/// the scalar value, and the value's breakdown under the proportions.
pub open spec fn is_scalar_rating(r: Rating, ty: Seq<char>, v: u32, p: Proportion) -> bool {
    &&& r.rates_id is None
    &&& r.rating == v
    &&& r.rating_type@ == ty
    &&& r.mania_rating == mania_of(v, p)
}

/// What the vector-source rating holds: the skill vector's overall value
/// and its sub-scores verbatim.
pub open spec fn is_etterna_rating(r: Rating, sv: SkillVector) -> bool {
    &&& r.rates_id is None
    &&& r.rating == sv.overall
    &&& r.rating_type@ == "etterna"@
    &&& r.mania_rating == ManiaRating {
        stream: sv.stream as u64,
        jumpstream: sv.jumpstream as u64,
        handstream: sv.handstream as u64,
        stamina: sv.stamina as u64,
        jackspeed: sv.jackspeed as u64,
        chordjack: sv.chordjack as u64,
        technical: sv.technical as u64,
    }
}

/// Bounds under which the rescaled duration and tempo fields stay within
/// `u32`: durations and tempo at most 40,000,000 fixed-point units and the
/// centirate between 1 and 10,000 (a hundredfold speed-up).
pub open spec fn rates_maker_valid(m: RatesMaker) -> bool {
    &&& 1 <= m.centirate <= 10000
    &&& m.drain_time <= 40000000
    &&& m.total_time <= 40000000
    &&& m.bpm <= 40000000
}

/// Apportions one style's share of `v`.
fn apportion_exec(v: u32, num: u32, den: u32) -> (r: u64)
    requires
        den >= 1,
    ensures
        r == apportion(v as int, num as int, den as int),
{
    proof {
        vstd::arithmetic::mul::lemma_mul_upper_bound(v as int, 0xFFFFFFFF, num as int, 0xFFFFFFFF);
    }
    ((v as u64) * (num as u64)) / (den as u64)
}

/// Builds a rating: the given source identifier and value, the breakdown
/// apportioned from the value under the proportions, no row id yet.
pub fn rating_new(rating_type: String, rating: u32, proportion: Proportion) -> (r: Rating)
    requires
        proportion.overall >= 1,
    ensures
        is_scalar_rating(r, rating_type@, rating, proportion),
{
    Rating {
        rates_id: None,
        rating,
        rating_type,
        mania_rating: ManiaRating {
            stream: apportion_exec(rating, proportion.stream, proportion.overall),
            jumpstream: apportion_exec(rating, proportion.jumpstream, proportion.overall),
            handstream: apportion_exec(rating, proportion.handstream, proportion.overall),
            stamina: apportion_exec(rating, proportion.stamina, proportion.overall),
            jackspeed: apportion_exec(rating, proportion.jackspeed, proportion.overall),
            chordjack: apportion_exec(rating, proportion.chordjack, proportion.overall),
            technical: apportion_exec(rating, proportion.technical, proportion.overall),
        },
    }
}

impl Rating {
    /// Builds a rating from a source identifier, a scalar value and the
    /// proportions to apportion it by.
    pub fn new(rating_type: String, rating: u32, proportion: Proportion) -> (r: Rating)
        requires
            proportion.overall >= 1,
        ensures
            is_scalar_rating(r, rating_type@, rating, proportion),
    {
        rating_new(rating_type, rating, proportion)
    }
}

/// Derives the per-style proportions of a skill vector.  An overall value
/// of zero leaves the proportions undefined and is rejected.
pub fn calculate_proportions(make_rates: &RatesMaker) -> (r: Result<
    Proportion,
    BeatmapWorkerError,
>)
    ensures
        make_rates.skillset_scores.overall == 0 <==> r is Err,
        r matches Err(e) ==> e is MinacalcError,
        r matches Ok(p) ==> p == proportion_of(make_rates.skillset_scores),
{
    let sv = &make_rates.skillset_scores;
    if sv.overall == 0 {
        return Err(
            BeatmapWorkerError::MinacalcError(
                String::from_str("skill vector overall is zero; proportions are undefined"),
            ),
        );
    }
    Ok(
        Proportion {
            stream: sv.stream,
            jumpstream: sv.jumpstream,
            handstream: sv.handstream,
            stamina: sv.stamina,
            jackspeed: sv.jackspeed,
            chordjack: sv.chordjack,
            technical: sv.technical,
            overall: sv.overall,
        },
    )
}

/// The duration and tempo fields of one variant, rescaled.
#[derive(Debug, Clone, Copy, PartialEq, Eq, Structural)]
pub struct RateData {
    pub centirate: u32,
    pub drain_time: u32,
    pub total_time: u32,
    pub bpm: u32,
}

/// Rescales the duration and tempo fields to the multiplier: durations are
/// divided by the rate (multiplied by `100 / centirate`), the tempo is
/// multiplied by it (`centirate / 100`), each rounding toward zero.
pub fn calculate_rate_data(make_rates: &RatesMaker) -> (r: RateData)
    requires
        rates_maker_valid(*make_rates),
    ensures
        r.centirate == make_rates.centirate,
        r.drain_time == make_rates.drain_time as int * 100 / make_rates.centirate as int,
        r.total_time == make_rates.total_time as int * 100 / make_rates.centirate as int,
        r.bpm == make_rates.bpm as int * make_rates.centirate as int / 100,
{
    let c = make_rates.centirate as u64;
    proof {
        vstd::arithmetic::mul::lemma_mul_upper_bound(
            make_rates.bpm as int,
            40000000,
            c as int,
            10000,
        );
    }
    let drain: u64 = (make_rates.drain_time as u64 * 100) / c;
    let total: u64 = (make_rates.total_time as u64 * 100) / c;
    let bpm: u64 = (make_rates.bpm as u64 * c) / 100;
    proof {
        lemma_div_pos_is_pos(make_rates.drain_time as int * 100, c as int);
        lemma_div_nonincreasing(make_rates.drain_time as int * 100, c as int);
        lemma_div_pos_is_pos(make_rates.total_time as int * 100, c as int);
        lemma_div_nonincreasing(make_rates.total_time as int * 100, c as int);
        lemma_div_pos_is_pos(make_rates.bpm as int * c as int, 100);
        vstd::arithmetic::div_mod::lemma_div_is_ordered(
            make_rates.bpm as int * c as int,
            400000000000,
            100,
        );
    }
    RateData {
        centirate: make_rates.centirate,
        drain_time: drain as u32,
        total_time: total as u32,
        bpm: bpm as u32,
    }
}

/// Builds the vector-source rating: overall value and sub-scores verbatim.
pub fn create_etterna_rating(make_rates: &RatesMaker) -> (r: Rating)
    ensures
        is_etterna_rating(r, make_rates.skillset_scores),
{
    let sv = &make_rates.skillset_scores;
    Rating {
        rates_id: None,
        rating: sv.overall,
        rating_type: String::from_str("etterna"),
        mania_rating: ManiaRating {
            stream: sv.stream as u64,
            jumpstream: sv.jumpstream as u64,
            handstream: sv.handstream as u64,
            stamina: sv.stamina as u64,
            jackspeed: sv.jackspeed as u64,
            chordjack: sv.chordjack as u64,
            technical: sv.technical as u64,
        },
    }
}

/// Builds the first scalar-source rating from the engine's value.
pub fn create_osu_rating(stars: u32, proportions: Proportion) -> (r: Rating)
    requires
        proportions.overall >= 1,
    ensures
        is_scalar_rating(r, "osu"@, stars, proportions),
{
    rating_new(String::from_str("osu"), stars, proportions)
}

/// Builds the second scalar-source rating from the engine's value.
pub fn create_sunny_rating(sunny_rating_value: u32, proportions: Proportion) -> (r: Rating)
    requires
        proportions.overall >= 1,
    ensures
        is_scalar_rating(r, "sunnyxxy"@, sunny_rating_value, proportions),
{
    rating_new(String::from_str("sunnyxxy"), sunny_rating_value, proportions)
}

/// What the rating list of one variant holds, given which scalar engines
/// answered: the vector-source rating first, then the second scalar source
/// if it answered, then the first, each apportioned by the proportions.
pub open spec fn ratings_expected(
    r: Seq<Rating>,
    sv: SkillVector,
    p: Proportion,
    osu_stars: Option<u32>,
    sunny_rating: Option<u32>,
) -> bool {
    &&& r.len() == 1 + (if sunny_rating is Some {
        1int
    } else {
        0int
    }) + (if osu_stars is Some {
        1int
    } else {
        0int
    })
    &&& is_etterna_rating(r[0], sv)
    &&& (sunny_rating matches Some(v) ==> is_scalar_rating(r[1], "sunnyxxy"@, v, p))
    &&& (osu_stars matches Some(v) ==> (if sunny_rating is Some {
        is_scalar_rating(r[2], "osu"@, v, p)
    } else {
        is_scalar_rating(r[1], "osu"@, v, p)
    }))
}

/// Builds the ratings of one variant: the vector source's own rating, then
/// one rating per scalar engine that answered.  An engine that failed loses
/// only its own rating.
pub fn create_all_ratings(
    make_rates: &RatesMaker,
    proportions: Proportion,
    osu_stars: Option<u32>,
    sunny_rating: Option<u32>,
) -> (r: Vec<Rating>)
    requires
        proportions.overall >= 1,
    ensures
        ratings_expected(r@, make_rates.skillset_scores, proportions, osu_stars, sunny_rating),
{
    let mut out: Vec<Rating> = Vec::new();
    out.push(create_etterna_rating(make_rates));
    match sunny_rating {
        Some(v) => out.push(create_sunny_rating(v, proportions)),
        None => (),
    }
    match osu_stars {
        Some(v) => out.push(create_osu_rating(v, proportions)),
        None => (),
    }
    out
}

/// Builds the full rating record of one variant: rescaled duration and
/// tempo fields, the content hash, and the ratings of every source that
/// answered.  A skill vector with overall zero fails the variant, since no
/// proportions can be derived from it.
pub fn rates_from_skillset_scores(
    make_rates: &RatesMaker,
    hash: String,
    osu_stars: Option<u32>,
    sunny_rating: Option<u32>,
) -> (r: Result<Rates, BeatmapWorkerError>)
    requires
        rates_maker_valid(*make_rates),
    ensures
        make_rates.skillset_scores.overall == 0 <==> r is Err,
        r matches Err(e) ==> e is MinacalcError,
        r matches Ok(rates) ==> {
            &&& rates.osu_hash matches Some(h) && h@ == hash@
            &&& rates.centirate == make_rates.centirate
            &&& rates.drain_time == make_rates.drain_time as int * 100 / make_rates.centirate as int
            &&& rates.total_time == make_rates.total_time as int * 100 / make_rates.centirate as int
            &&& rates.bpm == make_rates.bpm as int * make_rates.centirate as int / 100
            &&& ratings_expected(
                rates.rating@,
                make_rates.skillset_scores,
                proportion_of(make_rates.skillset_scores),
                osu_stars,
                sunny_rating,
            )
        },
{
    let rate_data = calculate_rate_data(make_rates);
    let proportions = match calculate_proportions(make_rates) {
        Ok(p) => p,
        Err(e) => {
            return Err(e);
        },
    };
    let ratings = create_all_ratings(make_rates, proportions, osu_stars, sunny_rating);
    Ok(
        Rates {
            osu_hash: Some(hash),
            centirate: rate_data.centirate,
            drain_time: rate_data.drain_time,
            total_time: rate_data.total_time,
            bpm: rate_data.bpm,
            rating: ratings,
        },
    )
}

impl Rates {
    /// Builds the full rating record of one variant; see
    /// [`rates_from_skillset_scores`].
    pub fn from_skillset_scores(
        make_rates: &RatesMaker,
        hash: String,
        osu_stars: Option<u32>,
        sunny_rating: Option<u32>,
    ) -> (r: Result<Rates, BeatmapWorkerError>)
        requires
            rates_maker_valid(*make_rates),
        ensures
            make_rates.skillset_scores.overall == 0 <==> r is Err,
            r matches Err(e) ==> e is MinacalcError,
            r matches Ok(rates) ==> {
                &&& rates.osu_hash matches Some(h) && h@ == hash@
                &&& rates.centirate == make_rates.centirate
                &&& rates.drain_time == make_rates.drain_time as int * 100
                    / make_rates.centirate as int
                &&& rates.total_time == make_rates.total_time as int * 100
                    / make_rates.centirate as int
                &&& rates.bpm == make_rates.bpm as int * make_rates.centirate as int / 100
                &&& ratings_expected(
                    rates.rating@,
                    make_rates.skillset_scores,
                    proportion_of(make_rates.skillset_scores),
                    osu_stars,
                    sunny_rating,
                )
            },
    {
        rates_from_skillset_scores(make_rates, hash, osu_stars, sunny_rating)
    }
}

/// Proportion conservation: when the sub-scores sum to the overall value,
/// apportioning any scalar `v` over them returns, summed, `v` itself up to
/// the rounding loss of the seven divisions: the breakdown sums into
/// `(v - 7, v]`.
pub proof fn lemma_apportion_conserves(v: u32, p: Proportion)
    requires
        p.overall >= 1,
        prop_sub_sum(p) == p.overall as int,
    ensures
        mania_sum(mania_of(v, p)) <= v,
        v - 7 < mania_sum(mania_of(v, p)),
{
    let o = p.overall as int;
    let vi = v as int;
    let x1 = vi * p.stream as int;
    let x2 = vi * p.jumpstream as int;
    let x3 = vi * p.handstream as int;
    let x4 = vi * p.stamina as int;
    let x5 = vi * p.jackspeed as int;
    let x6 = vi * p.chordjack as int;
    let x7 = vi * p.technical as int;
    lemma_apportion_term_bounds(vi, p.stream as int, o);
    lemma_apportion_term_bounds(vi, p.jumpstream as int, o);
    lemma_apportion_term_bounds(vi, p.handstream as int, o);
    lemma_apportion_term_bounds(vi, p.stamina as int, o);
    lemma_apportion_term_bounds(vi, p.jackspeed as int, o);
    lemma_apportion_term_bounds(vi, p.chordjack as int, o);
    lemma_apportion_term_bounds(vi, p.technical as int, o);
    let s = x1 / o + x2 / o + x3 / o + x4 / o + x5 / o + x6 / o + x7 / o;
    assert(mania_sum(mania_of(v, p)) == s);
    assert(x1 + x2 + x3 + x4 + x5 + x6 + x7 == vi * o) by (nonlinear_arith)
        requires
            x1 == vi * p.stream as int,
            x2 == vi * p.jumpstream as int,
            x3 == vi * p.handstream as int,
            x4 == vi * p.stamina as int,
            x5 == vi * p.jackspeed as int,
            x6 == vi * p.chordjack as int,
            x7 == vi * p.technical as int,
            p.stream as int + p.jumpstream as int + p.handstream as int + p.stamina as int
                + p.jackspeed as int + p.chordjack as int + p.technical as int == o,
    ;
    assert(o * s == o * (x1 / o) + o * (x2 / o) + o * (x3 / o) + o * (x4 / o) + o * (x5 / o) + o * (
    x6 / o) + o * (x7 / o)) by (nonlinear_arith)
        requires
            s == x1 / o + x2 / o + x3 / o + x4 / o + x5 / o + x6 / o + x7 / o,
    ;
    assert(o * s <= vi * o);
    assert(o * s > vi * o - 7 * o);
    assert(s <= vi) by (nonlinear_arith)
        requires
            o >= 1,
            o * s <= vi * o,
    ;
    assert(s > vi - 7) by (nonlinear_arith)
        requires
            o >= 1,
            o * s > vi * o - 7 * o,
    ;
}

/// One apportioned term `x / o` multiplied back by `o` lands in
/// `(x - o, x]`, and the term itself is non-negative and at most `x`,
/// which stays below two to the sixty-fourth for 32-bit factors.
proof fn lemma_apportion_term_bounds(v: int, n: int, o: int)
    requires
        0 <= v <= 0xFFFFFFFF,
        0 <= n <= 0xFFFFFFFF,
        o >= 1,
    ensures
        0 <= (v * n) / o,
        (v * n) / o <= v * n,
        v * n <= 0xFFFFFFFF * 0xFFFFFFFF,
        o * ((v * n) / o) <= v * n,
        o * ((v * n) / o) > v * n - o,
{
    assert(v * n >= 0) by (nonlinear_arith)
        requires
            v >= 0,
            n >= 0,
    ;
    vstd::arithmetic::mul::lemma_mul_upper_bound(v, 0xFFFFFFFF, n, 0xFFFFFFFF);
    let x = v * n;
    lemma_div_pos_is_pos(x, o);
    lemma_div_nonincreasing(x, o);
    lemma_fundamental_div_mod(x, o);
    lemma_mod_division_less_than_divisor(x, o);
}

/// Apportioning the overall value itself reproduces the sub-scores exactly:
/// in that sense the proportions sum to one.
pub proof fn lemma_apportion_identity(p: Proportion)
    requires
        p.overall >= 1,
    ensures
        mania_of(p.overall, p) == (ManiaRating {
            stream: p.stream as u64,
            jumpstream: p.jumpstream as u64,
            handstream: p.handstream as u64,
            stamina: p.stamina as u64,
            jackspeed: p.jackspeed as u64,
            chordjack: p.chordjack as u64,
            technical: p.technical as u64,
        }),
{
    let o = p.overall as int;
    lemma_apportion_identity_term(p.stream as int, o);
    lemma_apportion_identity_term(p.jumpstream as int, o);
    lemma_apportion_identity_term(p.handstream as int, o);
    lemma_apportion_identity_term(p.stamina as int, o);
    lemma_apportion_identity_term(p.jackspeed as int, o);
    lemma_apportion_identity_term(p.chordjack as int, o);
    lemma_apportion_identity_term(p.technical as int, o);
}

/// `o * n / o == n` for a positive denominator.
proof fn lemma_apportion_identity_term(n: int, o: int)
    requires
        n >= 0,
        o >= 1,
    ensures
        (o * n) / o == n,
{
    vstd::arithmetic::div_mod::lemma_div_multiples_vanish(n, o);
}

} // verus!
