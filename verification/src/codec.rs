//! The canonical textual encoding of a chart.
//!
//! The content digest of a variant is computed over this encoding, so the
//! encoding must be deterministic in the chart's logical content, and
//! distinct contents should not collide.  Every field is framed: free text
//! is length-prefixed, numbers are decimal numerals closed by a non-digit,
//! and each list is preceded by its length, so two charts that differ in a
//! single timestamp encode to different texts (proved below for the
//! hit-events).

use crate::chart::{Chart, DifficultyPoint, EffectPoint, HitObject, HitObjectKind, SamplePoint,
    TimingPoint};
use crate::numfmt::{dec_of, lemma_dec_of_framed, u64_to_string};
use vstd::prelude::*;

verus! {

/// A tagged number line: `tag ':' numeral '\n'`.
pub open spec fn num_line(tag: char, n: nat) -> Seq<char> {
    seq![tag, ':'] + dec_of(n) + seq!['\n']
}

/// A tagged, length-prefixed text block: `tag ':' length ':' text '\n'`.
pub open spec fn text_block(tag: char, s: Seq<char>) -> Seq<char> {
    seq![tag, ':'] + dec_of(s.len()) + seq![':'] + s + seq!['\n']
}

/// One hit-event line: a tap reads `t ':' time '\n'`, a hold reads
/// `h ':' time ':' duration '\n'`.
pub open spec fn hit_enc(h: HitObject) -> Seq<char> {
    match h.kind {
        HitObjectKind::Circle => seq!['t', ':'] + dec_of(h.start_time as nat) + seq!['\n'],
        HitObjectKind::Hold { duration } => seq!['h', ':'] + dec_of(h.start_time as nat)
            + seq![':'] + dec_of(duration as nat) + seq!['\n'],
    }
}

/// The hit-event lines of a chart, in order.
pub open spec fn hits_enc(s: Seq<HitObject>) -> Seq<char>
    decreases s.len(),
{
    if s.len() == 0 {
        Seq::empty()
    } else {
        hits_enc(s.drop_last()) + hit_enc(s.last())
    }
}

/// One timing-segment line: `time ':' beat length '\n'`.
pub open spec fn timing_enc(p: TimingPoint) -> Seq<char> {
    dec_of(p.time as nat) + seq![':'] + dec_of(p.beat_len as nat) + seq!['\n']
}

/// The timing-segment lines of a chart, in order.
pub open spec fn timings_enc(s: Seq<TimingPoint>) -> Seq<char>
    decreases s.len(),
{
    if s.len() == 0 {
        Seq::empty()
    } else {
        timings_enc(s.drop_last()) + timing_enc(s.last())
    }
}

/// One time line: `time '\n'`.
pub open spec fn time_line(t: u64) -> Seq<char> {
    dec_of(t as nat) + seq!['\n']
}

/// The effect-segment lines of a chart, in order.
pub open spec fn effects_enc(s: Seq<EffectPoint>) -> Seq<char>
    decreases s.len(),
{
    if s.len() == 0 {
        Seq::empty()
    } else {
        effects_enc(s.drop_last()) + time_line(s.last().time)
    }
}

/// The difficulty-segment lines of a chart, in order.
pub open spec fn difficulties_enc(s: Seq<DifficultyPoint>) -> Seq<char>
    decreases s.len(),
{
    if s.len() == 0 {
        Seq::empty()
    } else {
        difficulties_enc(s.drop_last()) + time_line(s.last().time)
    }
}

/// The sample-segment lines of a chart, in order.
pub open spec fn samples_enc(s: Seq<SamplePoint>) -> Seq<char>
    decreases s.len(),
{
    if s.len() == 0 {
        Seq::empty()
    } else {
        samples_enc(s.drop_last()) + time_line(s.last().time)
    }
}

/// The canonical encoding of a chart: audio and label as length-prefixed
/// text, the mode and key count, then each list behind its length.
pub open spec fn encode_spec(c: Chart) -> Seq<char> {
    text_block('A', c.audio_file@) + text_block('V', c.version@) + num_line('M', c.mode as nat)
        + num_line('K', c.key_count as nat) + num_line('H', c.hit_objects@.len()) + hits_enc(
        c.hit_objects@,
    ) + num_line('T', c.timing_points@.len()) + timings_enc(c.timing_points@) + num_line(
        'E',
        c.effect_points@.len(),
    ) + effects_enc(c.effect_points@) + num_line('D', c.difficulty_points@.len())
        + difficulties_enc(c.difficulty_points@) + num_line('S', c.sample_points@.len())
        + samples_enc(c.sample_points@)
}

/// Appends `':' numeral '\n'` for one number.
fn append_num_nl(s: &mut String, n: u64)
    ensures
        final(s)@ == old(s)@ + seq![':'] + dec_of(n as nat) + seq!['\n'],
{
    proof {
        reveal_strlit(":");
        reveal_strlit("\n");
        assert(":"@ =~= seq![':']);
        assert("\n"@ =~= seq!['\n']);
    }
    s.append(":");
    let num = u64_to_string(n);
    s.append(num.as_str());
    s.append("\n");
}

/// Appends one tagged number line.
fn append_num_line(s: &mut String, tag: &str, n: u64)
    requires
        tag@.len() == 1,
    ensures
        final(s)@ == old(s)@ + num_line(tag@[0], n as nat),
{
    s.append(tag);
    proof {
        reveal_strlit(":");
        reveal_strlit("\n");
        assert(":"@ =~= seq![':']);
        assert("\n"@ =~= seq!['\n']);
    }
    s.append(":");
    let num = u64_to_string(n);
    s.append(num.as_str());
    s.append("\n");
    proof {
        assert(tag@ =~= seq![tag@[0]]);
        assert(final(s)@ =~= old(s)@ + num_line(tag@[0], n as nat));
    }
}

/// Appends one tagged, length-prefixed text block.
fn append_text_block(s: &mut String, tag: &str, text: &String)
    requires
        tag@.len() == 1,
    ensures
        final(s)@ == old(s)@ + text_block(tag@[0], text@),
{
    s.append(tag);
    proof {
        reveal_strlit(":");
        reveal_strlit("\n");
        assert(":"@ =~= seq![':']);
        assert("\n"@ =~= seq!['\n']);
    }
    s.append(":");
    let len = text.as_str().unicode_len();
    let num = u64_to_string(len as u64);
    s.append(num.as_str());
    s.append(":");
    s.append(text.as_str());
    s.append("\n");
    proof {
        assert(tag@ =~= seq![tag@[0]]);
        assert(final(s)@ =~= old(s)@ + text_block(tag@[0], text@));
    }
}

/// Encodes a chart to its canonical text.
pub fn encode_chart(c: &Chart) -> (r: String)
    ensures
        r@ == encode_spec(*c),
{
    let mut s = String::new();
    proof {
        reveal_strlit("A");
        reveal_strlit("V");
    }
    append_text_block(&mut s, "A", &c.audio_file);
    append_text_block(&mut s, "V", &c.version);
    proof {
        reveal_strlit("M");
        reveal_strlit("K");
        reveal_strlit("H");
        reveal_strlit("T");
        reveal_strlit("E");
        reveal_strlit("D");
        reveal_strlit("S");
        reveal_strlit("t");
        reveal_strlit("h");
    }
    append_num_line(&mut s, "M", c.mode as u64);
    append_num_line(&mut s, "K", c.key_count as u64);

    append_num_line(&mut s, "H", c.hit_objects.len() as u64);
    let ghost hits_base = s@;
    let mut i: usize = 0;
    while i < c.hit_objects.len()
        invariant
            i <= c.hit_objects.len(),
            s@ =~= hits_base + hits_enc(c.hit_objects@.take(i as int)),
        decreases c.hit_objects.len() - i,
    {
        let h = &c.hit_objects[i];
        proof {
            reveal_strlit("t");
            reveal_strlit("h");
        }
        match h.kind {
            HitObjectKind::Circle => {
                s.append("t");
                append_num_nl(&mut s, h.start_time);
                proof {
                    assert("t"@ =~= seq!['t']);
                }
            },
            HitObjectKind::Hold { duration } => {
                s.append("h");
                proof {
                    reveal_strlit(":");
                    assert(":"@ =~= seq![':']);
                    assert("h"@ =~= seq!['h']);
                }
                s.append(":");
                let num = u64_to_string(h.start_time);
                s.append(num.as_str());
                append_num_nl(&mut s, duration);
            },
        }
        proof {
            assert(c.hit_objects@.take(i + 1).drop_last() =~= c.hit_objects@.take(i as int));
            assert(c.hit_objects@.take(i + 1).last() == c.hit_objects@[i as int]);
            assert(s@ =~= hits_base + hits_enc(c.hit_objects@.take(i + 1)));
        }
        i = i + 1;
    }
    proof {
        assert(c.hit_objects@.take(c.hit_objects@.len() as int) =~= c.hit_objects@);
    }

    append_num_line(&mut s, "T", c.timing_points.len() as u64);
    let ghost timings_base = s@;
    let mut i: usize = 0;
    while i < c.timing_points.len()
        invariant
            i <= c.timing_points.len(),
            s@ =~= timings_base + timings_enc(c.timing_points@.take(i as int)),
        decreases c.timing_points.len() - i,
    {
        let p = &c.timing_points[i];
        let num = u64_to_string(p.time);
        s.append(num.as_str());
        append_num_nl(&mut s, p.beat_len);
        proof {
            assert(c.timing_points@.take(i + 1).drop_last() =~= c.timing_points@.take(i as int));
            assert(c.timing_points@.take(i + 1).last() == c.timing_points@[i as int]);
            assert(s@ =~= timings_base + timings_enc(c.timing_points@.take(i + 1)));
        }
        i = i + 1;
    }
    proof {
        assert(c.timing_points@.take(c.timing_points@.len() as int) =~= c.timing_points@);
    }

    append_num_line(&mut s, "E", c.effect_points.len() as u64);
    let ghost effects_base = s@;
    let mut i: usize = 0;
    while i < c.effect_points.len()
        invariant
            i <= c.effect_points.len(),
            s@ =~= effects_base + effects_enc(c.effect_points@.take(i as int)),
        decreases c.effect_points.len() - i,
    {
        let num = u64_to_string(c.effect_points[i].time);
        s.append(num.as_str());
        proof {
            reveal_strlit("\n");
            assert("\n"@ =~= seq!['\n']);
        }
        s.append("\n");
        proof {
            assert(c.effect_points@.take(i + 1).drop_last() =~= c.effect_points@.take(i as int));
            assert(c.effect_points@.take(i + 1).last() == c.effect_points@[i as int]);
            assert(s@ =~= effects_base + effects_enc(c.effect_points@.take(i + 1)));
        }
        i = i + 1;
    }
    proof {
        assert(c.effect_points@.take(c.effect_points@.len() as int) =~= c.effect_points@);
    }

    append_num_line(&mut s, "D", c.difficulty_points.len() as u64);
    let ghost difficulties_base = s@;
    let mut i: usize = 0;
    while i < c.difficulty_points.len()
        invariant
            i <= c.difficulty_points.len(),
            s@ =~= difficulties_base + difficulties_enc(c.difficulty_points@.take(i as int)),
        decreases c.difficulty_points.len() - i,
    {
        let num = u64_to_string(c.difficulty_points[i].time);
        s.append(num.as_str());
        proof {
            reveal_strlit("\n");
            assert("\n"@ =~= seq!['\n']);
        }
        s.append("\n");
        proof {
            assert(c.difficulty_points@.take(i + 1).drop_last() =~= c.difficulty_points@.take(
                i as int,
            ));
            assert(c.difficulty_points@.take(i + 1).last() == c.difficulty_points@[i as int]);
            assert(s@ =~= difficulties_base + difficulties_enc(c.difficulty_points@.take(i + 1)));
        }
        i = i + 1;
    }
    proof {
        assert(c.difficulty_points@.take(c.difficulty_points@.len() as int)
            =~= c.difficulty_points@);
    }

    append_num_line(&mut s, "S", c.sample_points.len() as u64);
    let ghost samples_base = s@;
    let mut i: usize = 0;
    while i < c.sample_points.len()
        invariant
            i <= c.sample_points.len(),
            s@ =~= samples_base + samples_enc(c.sample_points@.take(i as int)),
        decreases c.sample_points.len() - i,
    {
        let num = u64_to_string(c.sample_points[i].time);
        s.append(num.as_str());
        proof {
            reveal_strlit("\n");
            assert("\n"@ =~= seq!['\n']);
        }
        s.append("\n");
        proof {
            assert(c.sample_points@.take(i + 1).drop_last() =~= c.sample_points@.take(i as int));
            assert(c.sample_points@.take(i + 1).last() == c.sample_points@[i as int]);
            assert(s@ =~= samples_base + samples_enc(c.sample_points@.take(i + 1)));
        }
        i = i + 1;
    }
    proof {
        assert(c.sample_points@.take(c.sample_points@.len() as int) =~= c.sample_points@);
        assert(s@ =~= encode_spec(*c));
    }
    s
}

/// Two charts of the same logical content — equal field views, whatever
/// `String` allocations carry them — encode to the same text, so they hash
/// to the same content digest.
pub proof fn lemma_encode_deterministic(c1: Chart, c2: Chart)
    requires
        c1.audio_file@ == c2.audio_file@,
        c1.version@ == c2.version@,
        c1.mode == c2.mode,
        c1.key_count == c2.key_count,
        c1.hit_objects@ == c2.hit_objects@,
        c1.timing_points@ == c2.timing_points@,
        c1.effect_points@ == c2.effect_points@,
        c1.difficulty_points@ == c2.difficulty_points@,
        c1.sample_points@ == c2.sample_points@,
    ensures
        encode_spec(c1) == encode_spec(c2),
{
}

/// Removing the same prefix keeps sequences distinguishable.
proof fn lemma_concat_left_cancel(p: Seq<char>, a: Seq<char>, b: Seq<char>)
    requires
        p + a == p + b,
    ensures
        a == b,
{
    assert((p + a).len() == p.len() + a.len());
    assert((p + b).len() == p.len() + b.len());
    assert(a.len() == b.len());
    assert forall|i: int| 0 <= i < a.len() implies a[i] == b[i] by {
        assert((p + a)[p.len() + i] == a[i]);
        assert((p + b)[p.len() + i] == b[i]);
    }
    assert(a =~= b);
}

/// The hit-event lines of a concatenation are the concatenation of the
/// lines.
proof fn lemma_hits_enc_concat(a: Seq<HitObject>, b: Seq<HitObject>)
    ensures
        hits_enc(a + b) == hits_enc(a) + hits_enc(b),
    decreases b.len(),
{
    if b.len() == 0 {
        assert(a + b =~= a);
        assert(hits_enc(a) + hits_enc(b) =~= hits_enc(a));
    } else {
        lemma_hits_enc_concat(a, b.drop_last());
        assert((a + b).drop_last() =~= a + b.drop_last());
        assert((a + b).last() == b.last());
        assert(hits_enc(a + b) == hits_enc(a + b.drop_last()) + hit_enc(b.last()));
        assert(hits_enc(a) + hits_enc(b) =~= hits_enc(a) + hits_enc(b.drop_last()) + hit_enc(
            b.last(),
        ));
    }
}

/// The hit-event lines split around any one position.
proof fn lemma_hits_enc_split(s: Seq<HitObject>, i: int)
    requires
        0 <= i < s.len(),
    ensures
        hits_enc(s) == hits_enc(s.take(i)) + hit_enc(s[i]) + hits_enc(s.skip(i + 1)),
{
    let mid = seq![s[i]];
    assert(s =~= s.take(i) + mid + s.skip(i + 1));
    lemma_hits_enc_concat(s.take(i) + mid, s.skip(i + 1));
    lemma_hits_enc_concat(s.take(i), mid);
    assert(hits_enc(mid) =~= hit_enc(s[i])) by {
        assert(mid.drop_last() =~= Seq::<HitObject>::empty());
        assert(hits_enc(mid.drop_last()) + hit_enc(mid.last()) =~= hit_enc(s[i]));
    }
}

/// Two hit-events of the same kind and duration but different start times
/// encode to different lines even with equal text appended: the start-time
/// numeral is closed by a non-digit.
proof fn lemma_hit_enc_time_sensitive(h1: HitObject, h2: HitObject, t: Seq<char>)
    requires
        h1.kind == h2.kind,
        h1.start_time != h2.start_time,
    ensures
        hit_enc(h1) + t != hit_enc(h2) + t,
{
    if hit_enc(h1) + t == hit_enc(h2) + t {
        match h1.kind {
            HitObjectKind::Circle => {
                let x1 = dec_of(h1.start_time as nat) + (seq!['\n'] + t);
                let x2 = dec_of(h2.start_time as nat) + (seq!['\n'] + t);
                assert(hit_enc(h1) + t =~= seq!['t', ':'] + x1);
                assert(hit_enc(h2) + t =~= seq!['t', ':'] + x2);
                lemma_concat_left_cancel(seq!['t', ':'], x1, x2);
                lemma_dec_of_framed(
                    h1.start_time as nat,
                    h2.start_time as nat,
                    seq!['\n'] + t,
                    seq!['\n'] + t,
                );
            },
            HitObjectKind::Hold { duration } => {
                let tail = seq![':'] + dec_of(duration as nat) + seq!['\n'] + t;
                let x1 = dec_of(h1.start_time as nat) + tail;
                let x2 = dec_of(h2.start_time as nat) + tail;
                assert(hit_enc(h1) + t =~= seq!['h', ':'] + x1);
                assert(hit_enc(h2) + t =~= seq!['h', ':'] + x2);
                lemma_concat_left_cancel(seq!['h', ':'], x1, x2);
                assert(tail[0] == ':');
                lemma_dec_of_framed(h1.start_time as nat, h2.start_time as nat, tail, tail);
            },
        }
        assert(false);
    }
}

/// Content-address sensitivity: two charts equal in everything but the
/// start time of one hit-event encode to different canonical texts.
#[verifier::rlimit(60)]
pub proof fn lemma_encode_timestamp_sensitive(c1: Chart, c2: Chart, i: int)
    requires
        c1.audio_file@ == c2.audio_file@,
        c1.version@ == c2.version@,
        c1.mode == c2.mode,
        c1.key_count == c2.key_count,
        c1.timing_points@ == c2.timing_points@,
        c1.effect_points@ == c2.effect_points@,
        c1.difficulty_points@ == c2.difficulty_points@,
        c1.sample_points@ == c2.sample_points@,
        c1.hit_objects@.len() == c2.hit_objects@.len(),
        0 <= i < c1.hit_objects@.len(),
        forall|j: int|
            0 <= j < c1.hit_objects@.len() && j != i ==> c1.hit_objects@[j]
                == c2.hit_objects@[j],
        c1.hit_objects@[i].kind == c2.hit_objects@[i].kind,
        c1.hit_objects@[i].start_time != c2.hit_objects@[i].start_time,
    ensures
        encode_spec(c1) != encode_spec(c2),
{
    let s1 = c1.hit_objects@;
    let s2 = c2.hit_objects@;
    let prefix = text_block('A', c1.audio_file@) + text_block('V', c1.version@) + num_line(
        'M',
        c1.mode as nat,
    ) + num_line('K', c1.key_count as nat) + num_line('H', s1.len());
    let suffix = num_line('T', c1.timing_points@.len()) + timings_enc(c1.timing_points@)
        + num_line('E', c1.effect_points@.len()) + effects_enc(c1.effect_points@) + num_line(
        'D',
        c1.difficulty_points@.len(),
    ) + difficulties_enc(c1.difficulty_points@) + num_line('S', c1.sample_points@.len())
        + samples_enc(c1.sample_points@);
    assert(encode_spec(c1) =~= prefix + (hits_enc(s1) + suffix));
    assert(encode_spec(c2) =~= prefix + (hits_enc(s2) + suffix));
    if encode_spec(c1) == encode_spec(c2) {
        lemma_concat_left_cancel(prefix, hits_enc(s1) + suffix, hits_enc(s2) + suffix);
        lemma_hits_enc_split(s1, i);
        lemma_hits_enc_split(s2, i);
        assert(s1.take(i) =~= s2.take(i));
        assert(s1.skip(i + 1) =~= s2.skip(i + 1));
        let head = hits_enc(s1.take(i));
        let tail = hits_enc(s1.skip(i + 1)) + suffix;
        assert(hits_enc(s1) + suffix =~= head + (hit_enc(s1[i]) + tail));
        assert(hits_enc(s2) + suffix =~= head + (hit_enc(s2[i]) + tail));
        lemma_concat_left_cancel(head, hit_enc(s1[i]) + tail, hit_enc(s2[i]) + tail);
        lemma_hit_enc_time_sensitive(s1[i], s2[i], tail);
        assert(false);
    }
}

} // verus!
