//! Sanitizing a name that is already sanitized changes nothing, except for
//! names that come out starting with `_` or `-` (such as the result `__a` of
//! the unrestricted title `-_a`), which a second pass shortens.

use vstd::prelude::*;
use crate::sanitize::{
    accent_fold, clean_text, dedup_marks, drop_dash_underscore, expand, flatten, fullwidth,
    is_ascii_seq, is_dropped_control, is_reserved, is_restricted_punct,
    lead_dash_to_underscore, mark_timestamps, nfkc_of, or_underscore, piece_char, pieces_of,
    repeats_mark, sanitized, squeeze, strip_dots, strip_ends, strippable, strippable_pred, texts,
    trim_char, Piece,
};
use crate::category::{category_of, removed_category};
use crate::text::{equals_char, lead_run, lemma_lead_run_props, lemma_tail_run_props, tail_run};

verus! {

/// A character that the replacement table keeps as it is.
pub open spec fn stable(c: char, r: bool) -> bool {
    pieces_of(c, r) == seq![(false, c)]
}

pub open spec fn all_stable(s: Seq<char>, r: bool) -> bool {
    forall|i: int| 0 <= i < s.len() ==> stable(#[trigger] s[i], r)
}

pub open spec fn pieces_stable(p: Seq<Piece>, r: bool) -> bool {
    forall|i: int| 0 <= i < p.len() ==> stable(piece_char(#[trigger] p[i]), r)
}

/// No two underscores in a row.
pub open spec fn no_double_underscore(s: Seq<char>) -> bool {
    forall|i: int| 0 <= i < s.len() - 1 ==> !(#[trigger] s[i] == '_' && s[i + 1] == '_')
}

pub open spec fn is_separator(c: char) -> bool {
    c == ' ' || c == '_' || c == '-'
}

proof fn lemma_texts(s: Seq<char>)
    ensures
        texts(s).len() == s.len(),
        forall|k: int| 0 <= k < s.len() ==> #[trigger] texts(s)[k] == (false, s[k]),
    decreases s.len(),
{
    if s.len() > 0 {
        lemma_texts(s.drop_last());
        assert forall|k: int| 0 <= k < s.len() implies #[trigger] texts(s)[k] == (false, s[k]) by {
            if k < s.len() - 1 {
                assert(texts(s)[k] == texts(s.drop_last())[k]);
            }
        }
    }
}

proof fn lemma_letter_stable(c: char, r: bool)
    requires
        ('a' <= c && c <= 'z') || ('A' <= c && c <= 'Z'),
    ensures
        stable(c, r),
{
    assert(accent_fold(c).len() == 0);
}

proof fn lemma_pieces_stable(c: char, r: bool)
    ensures
        pieces_stable(pieces_of(c, r), r),
{
    let p = pieces_of(c, r);
    if r && accent_fold(c).len() > 0 {
        let f = accent_fold(c);
        lemma_texts(f);
        assert forall|i: int| 0 <= i < p.len() implies stable(piece_char(#[trigger] p[i]), r) by {
            assert(p[i] == (false, f[i]));
            lemma_letter_stable(f[i], r);
        }
    } else if !r && c == '\n' {
        assert(stable(' ', r));
    } else if !r && fullwidth(c) is Some {
        let w = fullwidth(c)->0;
        assert(accent_fold(w).len() == 0);
        assert(stable(w, r));
    } else if c == '?' || is_dropped_control(c) {
    } else if c == '"' {
        if !r {
            assert(stable('\'', r));
        }
    } else if c == ':' {
        assert(accent_fold('_').len() == 0);
        assert(accent_fold('-').len() == 0);
        assert(accent_fold(' ').len() == 0);
        assert(stable('_', r));
        assert(stable('-', r));
        if !r {
            assert(stable(' ', r));
        }
    } else if is_reserved(c) || (r && (is_restricted_punct(c) || c == ' ')) {
        assert(accent_fold('_').len() == 0);
        assert(stable('_', r));
    } else if r && (c as u32) > 0x7f && removed_category(category_of(c)) {
    } else if r && (c as u32) > 0x7f {
        assert(accent_fold('_').len() == 0);
        assert(stable('_', r));
    } else {
    }
}

/// Characters kept by the restricted table are 7-bit ASCII.
proof fn lemma_stable_ascii(c: char)
    requires
        stable(c, true),
    ensures
        (c as u32) < 0x80,
{
    let p = pieces_of(c, true);
    assert(p.len() == 1 && p[0] == (false, c));
    if (c as u32) >= 0x80 {
        if accent_fold(c).len() > 0 {
            lemma_texts(accent_fold(c));
            assert(p[0] == (false, accent_fold(c)[0]));
            assert((accent_fold(c)[0] as u32) < 0x80);
        } else if removed_category(category_of(c)) {
            assert(p =~= Seq::<Piece>::empty());
        } else {
            assert(p =~= seq![(true, '_')]);
        }
    }
}

proof fn lemma_underscore_stable(r: bool)
    ensures
        stable('_', r),
        stable('-', r),
{
    assert(accent_fold('_').len() == 0);
    assert(accent_fold('-').len() == 0);
}

proof fn lemma_stable_not_colon(c: char, r: bool)
    requires
        stable(c, r),
    ensures
        c != ':',
{
    if c == ':' {
        assert(accent_fold(':').len() == 0);
        if r {
            assert(pieces_of(c, r).len() == 2);
        } else {
            assert(pieces_of(c, r)[0] == (false, '\u{ff1a}'));
        }
    }
}

proof fn lemma_subrange_stable(s: Seq<char>, a: int, b: int, r: bool)
    requires
        all_stable(s, r),
        0 <= a <= b <= s.len(),
    ensures
        all_stable(s.subrange(a, b), r),
{
    let t = s.subrange(a, b);
    assert forall|i: int| 0 <= i < t.len() implies stable(#[trigger] t[i], r) by {
        assert(t[i] == s[a + i]);
    }
}

proof fn lemma_subrange_no_double(s: Seq<char>, a: int, b: int)
    requires
        no_double_underscore(s),
        0 <= a <= b <= s.len(),
    ensures
        no_double_underscore(s.subrange(a, b)),
{
    let t = s.subrange(a, b);
    assert forall|i: int| 0 <= i < t.len() - 1 implies !(#[trigger] t[i] == '_' && t[i + 1] == '_') by {
        assert(t[i] == s[a + i]);
        assert(t[i + 1] == s[a + i + 1]);
    }
}

proof fn lemma_expand_stable(s: Seq<char>, r: bool)
    ensures
        pieces_stable(expand(s, r), r),
    decreases s.len(),
{
    if s.len() > 0 {
        lemma_expand_stable(s.drop_last(), r);
        lemma_pieces_stable(s.last(), r);
        let a = expand(s.drop_last(), r);
        let b = pieces_of(s.last(), r);
        let e = expand(s, r);
        assert(e == a + b);
        assert forall|i: int| 0 <= i < e.len() implies stable(piece_char(#[trigger] e[i]), r) by {
            if i < a.len() {
                assert(e[i] == a[i]);
            } else {
                assert(e[i] == b[i - a.len()]);
            }
        }
    }
}

proof fn lemma_dedup_stable(p: Seq<Piece>, r: bool)
    requires
        pieces_stable(p, r),
    ensures
        pieces_stable(dedup_marks(p), r),
    decreases p.len(),
{
    if p.len() > 0 {
        let q = p.drop_last();
        assert forall|i: int| 0 <= i < q.len() implies stable(piece_char(#[trigger] q[i]), r) by {
            assert(q[i] == p[i]);
        }
        lemma_dedup_stable(q, r);
        if !repeats_mark(p, p.len() - 1) {
            let d = dedup_marks(q);
            let e = d.push(p.last());
            assert forall|i: int| 0 <= i < e.len() implies stable(piece_char(#[trigger] e[i]), r) by {
                if i < d.len() {
                    assert(e[i] == d[i]);
                } else {
                    assert(e[i] == p[p.len() - 1]);
                }
            }
        }
    }
}

proof fn lemma_squeeze_stable(s: Seq<char>, r: bool)
    requires
        all_stable(s, r),
    ensures
        all_stable(squeeze(s), r),
    decreases s.len(),
{
    if s.len() > 0 {
        let q = s.drop_last();
        lemma_subrange_stable(s, 0, s.len() - 1, r);
        assert(q =~= s.subrange(0, s.len() - 1));
        lemma_squeeze_stable(q, r);
        if !(s.len() >= 2 && s.last() == '_' && s[s.len() - 2] == '_') {
            let d = squeeze(q);
            let e = d.push(s.last());
            assert forall|i: int| 0 <= i < e.len() implies stable(#[trigger] e[i], r) by {
                if i < d.len() {
                    assert(e[i] == d[i]);
                } else {
                    assert(e[i] == s[s.len() - 1]);
                }
            }
        }
    }
}

proof fn lemma_squeeze_last(s: Seq<char>)
    requires
        s.len() > 0,
    ensures
        squeeze(s).len() > 0,
        squeeze(s).last() == s.last(),
    decreases s.len(),
{
    if s.len() >= 2 && s.last() == '_' && s[s.len() - 2] == '_' {
        lemma_squeeze_last(s.drop_last());
    }
}

proof fn lemma_squeeze_empty(s: Seq<char>)
    requires
        squeeze(s).len() == 0,
    ensures
        s.len() == 0,
{
    if s.len() > 0 {
        lemma_squeeze_last(s);
    }
}

proof fn lemma_squeeze_no_double(s: Seq<char>)
    ensures
        no_double_underscore(squeeze(s)),
    decreases s.len(),
{
    if s.len() > 0 {
        let q = s.drop_last();
        lemma_squeeze_no_double(q);
        if !(s.len() >= 2 && s.last() == '_' && s[s.len() - 2] == '_') {
            let d = squeeze(q);
            let e = d.push(s.last());
            if s.len() >= 2 {
                lemma_squeeze_last(q);
            }
            assert forall|i: int| 0 <= i < e.len() - 1 implies !(#[trigger] e[i] == '_' && e[i + 1] == '_') by {
                assert(e[i] == d[i]);
                if i < d.len() - 1 {
                    assert(e[i + 1] == d[i + 1]);
                } else {
                    assert(d[i] == q.last());
                    assert(q.last() == s[s.len() - 2]);
                }
            }
        }
    }
}

proof fn lemma_squeeze_identity(s: Seq<char>)
    requires
        no_double_underscore(s),
    ensures
        squeeze(s) == s,
    decreases s.len(),
{
    if s.len() > 0 {
        let q = s.drop_last();
        lemma_subrange_no_double(s, 0, s.len() - 1);
        assert(q =~= s.subrange(0, s.len() - 1));
        lemma_squeeze_identity(q);
        if s.len() >= 2 {
            assert(!(s[s.len() - 2] == '_' && s[s.len() - 1] == '_'));
        }
        assert(squeeze(s) =~= s);
    }
}

proof fn lemma_expand_texts(o: Seq<char>, r: bool)
    requires
        all_stable(o, r),
    ensures
        expand(o, r) == texts(o),
    decreases o.len(),
{
    if o.len() > 0 {
        lemma_subrange_stable(o, 0, o.len() - 1, r);
        assert(o.drop_last() =~= o.subrange(0, o.len() - 1));
        lemma_expand_texts(o.drop_last(), r);
        assert(stable(o[o.len() - 1], r));
        assert(expand(o, r) =~= texts(o));
    }
}

proof fn lemma_dedup_texts(o: Seq<char>)
    ensures
        dedup_marks(texts(o)) == texts(o),
    decreases o.len(),
{
    if o.len() > 0 {
        lemma_dedup_texts(o.drop_last());
        let p = texts(o);
        assert(p.drop_last() =~= texts(o.drop_last()));
        assert(!repeats_mark(p, p.len() - 1));
        assert(dedup_marks(p) =~= p);
    }
}

/// The second pass of a stable name with no separator at its end, no
/// leading `_`, `-` or `.`, and no doubled underscore changes nothing.
proof fn lemma_second_pass(o: Seq<char>, r: bool)
    requires
        all_stable(o, r),
        o.len() > 0,
        o[0] != '_' && o[0] != '-' && o[0] != '.',
        !is_separator(o.last()),
        no_double_underscore(o),
    ensures
        clean_text(o, r) == o,
{
    assert forall|i: int| 0 <= i < o.len() implies #[trigger] o[i] != ':' by {
        lemma_stable_not_colon(o[i], r);
    }
    assert(mark_timestamps(o) =~= o);
    lemma_expand_texts(o, r);
    lemma_dedup_texts(o);
    lemma_texts(o);
    let p = texts(o);
    assert(!p[0].0);
    assert(p.last() == (false, o.last()));
    assert(tail_run(p, strippable_pred()) == 0);
    assert(strip_ends(p) =~= p);
    assert(flatten(p) =~= o);
    lemma_squeeze_identity(o);
    assert(lead_run(o, equals_char('_')) == 0);
    assert(o.subrange(0, o.len() as int) =~= o);
    assert(tail_run(o, equals_char('_')) == 0);
    assert(trim_char(o, '_') == o);
    assert(drop_dash_underscore(o, r) == o);
    assert(lead_dash_to_underscore(o) == o);
    assert(lead_run(o, equals_char('.')) == 0);
    assert(strip_dots(o) == o);
}

proof fn lemma_underscore_fixed(r: bool)
    ensures
        clean_text(seq!['_'], r) == seq!['_'],
{
    let o = seq!['_'];
    lemma_underscore_stable(r);
    assert(all_stable(o, r));
    assert(mark_timestamps(o) =~= o);
    lemma_expand_texts(o, r);
    lemma_dedup_texts(o);
    lemma_texts(o);
    let p = texts(o);
    assert(p.drop_last().len() == 0);
    assert(tail_run(p.drop_last(), strippable_pred()) == 0);
    assert(tail_run(p, strippable_pred()) == 1);
    assert(strip_ends(p).len() == 0);
    let e = Seq::<char>::empty();
    assert(flatten(strip_ends(p)) =~= e);
    assert(squeeze(e) == e);
    assert(lead_run(e, equals_char('_')) == 0);
    assert(trim_char(e, '_') =~= e);
    assert(lead_run(e, equals_char('.')) == 0);
    assert(strip_dots(e) =~= e);
}

/// What every cleaned name looks like: made of characters the table keeps,
/// and either `_` or a name that neither starts with `.` nor ends with a
/// separator, with no doubled underscore unless it starts with `_`.
proof fn lemma_clean_shape(y: Seq<char>, r: bool)
    ensures
        ({
            let o = clean_text(y, r);
            &&& all_stable(o, r)
            &&& o.len() > 0
            &&& o =~= seq!['_'] || (o[0] != '.' && !is_separator(o.last()) && (o[0] != '_'
                ==> no_double_underscore(o)))
        }),
{
    let stamped = mark_timestamps(y);
    let expanded = expand(stamped, r);
    let merged = dedup_marks(expanded);
    let stripped = strip_ends(merged);
    let flat = flatten(stripped);
    let squeezed = squeeze(flat);
    let t = trim_char(squeezed, '_');
    let u1 = drop_dash_underscore(t, r);
    let u2 = lead_dash_to_underscore(u1);
    let v = strip_dots(u2);
    let o = or_underscore(v);
    assert(o == clean_text(y, r));
    lemma_underscore_stable(r);

    // every character is one the table keeps
    lemma_expand_stable(stamped, r);
    lemma_dedup_stable(expanded, r);
    let sp = strippable_pred();
    let q = if merged.len() > 0 && merged[0].0 {
        merged.subrange(lead_run(merged, sp) as int, merged.len() as int)
    } else {
        merged
    };
    lemma_lead_run_props(merged, sp);
    lemma_tail_run_props(q, sp);
    assert(stripped == q.subrange(0, q.len() - tail_run(q, sp)));
    assert forall|i: int| 0 <= i < flat.len() implies stable(#[trigger] flat[i], r) by {
        if merged.len() > 0 && merged[0].0 {
            assert(stripped[i] == merged[lead_run(merged, sp) + i]);
        } else {
            assert(stripped[i] == merged[i]);
        }
    }
    lemma_squeeze_stable(flat, r);
    let eu = equals_char('_');
    let a = lead_run(squeezed, eu);
    lemma_lead_run_props(squeezed, eu);
    let t1 = squeezed.subrange(a as int, squeezed.len() as int);
    lemma_tail_run_props(t1, eu);
    assert(t == t1.subrange(0, t1.len() - tail_run(t1, eu)));
    lemma_subrange_stable(squeezed, a as int, squeezed.len() as int, r);
    lemma_subrange_stable(t1, 0, t1.len() - tail_run(t1, eu), r);
    if r && t.len() >= 2 && t[0] == '-' && t[1] == '_' {
        lemma_subrange_stable(t, 2, t.len() as int, r);
    }
    assert(all_stable(u1, r));
    assert(all_stable(u2, r)) by {
        assert forall|i: int| 0 <= i < u2.len() implies stable(#[trigger] u2[i], r) by {
            if u1.len() > 0 && u1[0] == '-' && i == 0 {
                assert(u2[0] == '_');
            } else {
                assert(u2[i] == u1[i]);
            }
        }
    }
    let ed = equals_char('.');
    let d = lead_run(u2, ed);
    lemma_lead_run_props(u2, ed);
    lemma_subrange_stable(u2, d as int, u2.len() as int, r);
    if v.len() == 0 {
        assert(o =~= seq!['_']);
        assert(all_stable(o, r));
        return;
    }
    assert(o == v);

    // the last character is not a separator
    if stripped.len() == 0 {
        assert(flat.len() == 0);
        assert(squeezed =~= Seq::<char>::empty());
        assert(t.len() == 0);
        assert(u1.len() == 0);
        assert(u2.len() == 0);
        assert(false);
    }
    assert(!strippable(stripped.last())) by {
        assert(stripped.last() == q[q.len() - tail_run(q, sp) - 1]);
    }
    assert(flat.last() == stripped.last().1);
    lemma_squeeze_last(flat);
    assert(squeezed.last() != '_');
    assert(a < squeezed.len()) by {
        if a == squeezed.len() {
            assert((eu)(squeezed[squeezed.len() - 1]));
        }
    }
    assert(t1.last() == squeezed.last());
    assert(tail_run(t1, eu) == 0);
    assert(t =~= t1);
    assert(t.len() > 0 && !is_separator(t.last()) && t[0] != '_');
    if r && t.len() >= 2 && t[0] == '-' && t[1] == '_' {
        assert(t.len() >= 3);
    }
    assert(u1.len() > 0 && u1.last() == t.last());
    if u1[0] == '-' {
        assert(u1.len() >= 2);
    }
    assert(u2.len() == u1.len() && u2.last() == u1.last());
    assert(v.last() == u2.last());
    assert(v[0] == u2[d as int]);
    assert(v[0] != '.');

    // no doubled underscore, unless the name starts with `_`
    if v[0] != '_' {
        lemma_squeeze_no_double(flat);
        lemma_subrange_no_double(squeezed, a as int, squeezed.len() as int);
        assert(no_double_underscore(t));
        if r && t.len() >= 2 && t[0] == '-' && t[1] == '_' {
            lemma_subrange_no_double(t, 2, t.len() as int);
        }
        assert(no_double_underscore(u1));
        if u1[0] == '-' {
            assert(u2[0] == '_');
            assert(d == 0);
            assert(v[0] == '_');
        }
        assert(u2 == u1);
        lemma_subrange_no_double(u2, d as int, u2.len() as int);
    }
}

/// Sanitizing is idempotent: a second pass over a sanitized name gives the
/// same name, in both modes, for every title whose name is `_` or does not
/// start with `_` or `-`. (A name that does, such as `__a` from the
/// unrestricted title `-_a`, loses those characters in a second pass.)
pub proof fn lemma_sanitize_idempotent(x: Seq<char>, r: bool)
    requires
        sanitized(x, r) == seq!['_'] || (sanitized(x, r)[0] != '_' && sanitized(x, r)[0] != '-'),
    ensures
        sanitized(sanitized(x, r), r) == sanitized(x, r),
{
    let y = if r {
        nfkc_of(x)
    } else {
        x
    };
    let o = clean_text(y, r);
    assert(sanitized(x, r) == o);
    lemma_clean_shape(y, r);
    if r {
        assert forall|i: int| 0 <= i < o.len() implies (#[trigger] o[i] as u32) < 0x80 by {
            lemma_stable_ascii(o[i]);
        }
        assert(is_ascii_seq(o));
        assert(nfkc_of(o) == o);
    }
    assert(sanitized(o, r) == clean_text(o, r));
    if o =~= seq!['_'] {
        lemma_underscore_fixed(r);
    } else {
        lemma_second_pass(o, r);
    }
}

} // verus!
