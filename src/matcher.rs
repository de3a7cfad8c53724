//! Turning raw user input (bare identifiers, share links, clip links) into
//! canonical video identifiers.

use vstd::prelude::*;
use crate::error::Error;
use crate::platform::{id_patterns, patterns_for, str_views, VideoType};
use crate::text::{chars_of, string_of};

verus! {

/// The first capture group of the leftmost match of `pattern` in `text`,
/// if the pattern compiles and matches and the group took part in the match.
pub uninterp spec fn pattern_group(pattern: Seq<char>, text: Seq<char>) -> Option<Seq<char>>;

/// The text with leading and trailing Unicode white space removed.
pub uninterp spec fn trimmed(s: Seq<char>) -> Seq<char>;

/// Relies on fancy_regex: `Regex::new(pattern)`, then `Regex::captures(text)`,
/// then group 1 of the captures. Failures to compile or to match give `None`.
#[verifier::external_body]
fn first_group(pattern: &str, text: &str) -> (r: Option<String>)
    ensures
        match r {
            Some(g) => pattern_group(pattern@, text@) == Some(g@),
            None => pattern_group(pattern@, text@) is None,
        },
{
    let re = fancy_regex::Regex::new(pattern).ok()?;
    let caps = re.captures(text).ok()??;
    caps.get(1).map(|m| m.as_str().to_string())
}

/// Relies on `str::trim`: white space (as Unicode defines it) removed from both ends.
#[verifier::external_body]
fn trim_str(s: &str) -> (r: String)
    ensures
        r@ == trimmed(s@),
{
    s.trim().to_string()
}

/// The identifier captured by the first of `ps` that matches `text`.
pub open spec fn first_match(ps: Seq<Seq<char>>, text: Seq<char>) -> Option<Seq<char>>
    decreases ps.len(),
{
    if ps.len() == 0 {
        None
    } else if pattern_group(ps[0], text) is Some {
        pattern_group(ps[0], text)
    } else {
        first_match(ps.drop_first(), text)
    }
}

/// Tries `patterns` in order on `text` and returns the identifier that the
/// first matching one captures, or `NoRegexMatch` when none matches.
pub fn regex_helper(text: &str, patterns: &Vec<&str>) -> (r: Result<String, Error>)
    ensures
        match r {
            Ok(id) => first_match(str_views(patterns@), text@) == Some(id@),
            Err(e) => first_match(str_views(patterns@), text@) is None && e == Error::NoRegexMatch,
        },
{
    let ghost ps = str_views(patterns@);
    let mut i: usize = 0;
    proof {
        assert(ps.subrange(0, ps.len() as int) =~= ps);
    }
    while i < patterns.len()
        invariant
            0 <= i <= patterns.len(),
            ps == str_views(patterns@),
            first_match(ps, text@) == first_match(ps.subrange(i as int, ps.len() as int), text@),
        decreases patterns.len() - i,
    {
        let found = first_group(patterns[i], text);
        proof {
            let rest = ps.subrange(i as int, ps.len() as int);
            assert(rest[0] == patterns@[i as int]@);
            assert(rest.drop_first() =~= ps.subrange(i + 1, ps.len() as int));
        }
        if let Some(id) = found {
            return Ok(id);
        }
        i = i + 1;
    }
    proof {
        assert(ps.subrange(i as int, ps.len() as int).len() == 0);
    }
    Err(Error::NoRegexMatch)
}

/// The pieces of `s` between commas: `"a,b"` gives `["a", "b"]`, `""` gives `[""]`.
pub open spec fn split_commas(s: Seq<char>) -> Seq<Seq<char>>
    decreases s.len(),
{
    if s.len() == 0 {
        seq![seq![]]
    } else {
        let p = split_commas(s.drop_last());
        if s.last() == ',' {
            p.push(seq![])
        } else {
            p.update(p.len() - 1, p.last().push(s.last()))
        }
    }
}

pub proof fn lemma_split_commas_len(s: Seq<char>)
    ensures
        split_commas(s).len() >= 1,
    decreases s.len(),
{
    if s.len() > 0 {
        lemma_split_commas_len(s.drop_last());
    }
}

pub open spec fn string_views(v: Seq<String>) -> Seq<Seq<char>> {
    v.map_values(|s: String| s@)
}

/// The comma-separated tokens of the input, each trimmed.
pub open spec fn input_tokens(s: Seq<char>) -> Seq<Seq<char>> {
    split_commas(s).map_values(|t: Seq<char>| trimmed(t))
}

/// Splits the input on commas and trims every token.
pub fn split_videos(data: &str) -> (r: Vec<String>)
    ensures
        string_views(r@) == input_tokens(data@),
{
    let cs = chars_of(data);
    let mut parts: Vec<Vec<char>> = Vec::new();
    let mut cur: Vec<char> = Vec::new();
    let mut i: usize = 0;
    proof {
        assert(cs@.subrange(0, 0).len() == 0);
        assert(parts@.map_values(|v: Vec<char>| v@).push(cur@) =~= split_commas(cs@.subrange(0, 0)));
    }
    while i < cs.len()
        invariant
            0 <= i <= cs.len(),
            cs@ == data@,
            parts@.map_values(|v: Vec<char>| v@).push(cur@) == split_commas(cs@.subrange(0, i as int)),
        decreases cs.len() - i,
    {
        let c = cs[i];
        let ghost before = split_commas(cs@.subrange(0, i as int));
        proof {
            lemma_split_commas_len(cs@.subrange(0, i as int));
        }
        if c == ',' {
            let done = cur;
            parts.push(done);
            cur = Vec::new();
        } else {
            cur.push(c);
        }
        i = i + 1;
        proof {
            let q = cs@.subrange(0, i as int);
            assert(q.drop_last() =~= cs@.subrange(0, i - 1));
            assert(q.last() == c);
            assert(parts@.map_values(|v: Vec<char>| v@).push(cur@) =~= split_commas(q));
        }
    }
    proof {
        assert(cs@.subrange(0, cs.len() as int) =~= cs@);
    }
    parts.push(cur);
    let mut r: Vec<String> = Vec::new();
    let mut j: usize = 0;
    while j < parts.len()
        invariant
            0 <= j <= parts.len(),
            parts@.map_values(|v: Vec<char>| v@) == split_commas(data@),
            r.len() == j,
            forall|k: int| 0 <= k < j ==> #[trigger] r@[k]@ == trimmed(parts@[k]@),
        decreases parts.len() - j,
    {
        let s = string_of(&parts[j]);
        let t = trim_str(s.as_str());
        r.push(t);
        j = j + 1;
    }
    proof {
        assert forall|k: int| 0 <= k < r.len() implies string_views(r@)[k] == input_tokens(data@)[k] by {
            assert(split_commas(data@)[k] == parts@[k]@);
        }
        assert(string_views(r@) =~= input_tokens(data@));
    }
    r
}

/// The identifiers found in the tokens, in order; tokens that no pattern
/// matches are left out.
pub open spec fn matched_ids(tokens: Seq<Seq<char>>, ps: Seq<Seq<char>>) -> Seq<Seq<char>>
    decreases tokens.len(),
{
    if tokens.len() == 0 {
        seq![]
    } else {
        let rest = matched_ids(tokens.drop_last(), ps);
        match first_match(ps, tokens.last()) {
            Some(id) => rest.push(id),
            None => rest,
        }
    }
}

/// The canonical identifiers named by a comma-separated input, for a kind of video.
pub fn ids_from_input(data: &str, platform: VideoType) -> (r: Vec<String>)
    ensures
        string_views(r@) == matched_ids(input_tokens(data@), id_patterns(platform)),
{
    let tokens = split_videos(data);
    let patterns = patterns_for(platform);
    let ghost ts = input_tokens(data@);
    let ghost ps = id_patterns(platform);
    let mut r: Vec<String> = Vec::new();
    let mut i: usize = 0;
    proof {
        assert(ts.subrange(0, 0).len() == 0);
        assert(string_views(r@) =~= seq![]);
    }
    while i < tokens.len()
        invariant
            0 <= i <= tokens.len(),
            string_views(tokens@) == ts,
            str_views(patterns@) == ps,
            string_views(r@) == matched_ids(ts.subrange(0, i as int), ps),
        decreases tokens.len() - i,
    {
        let found = regex_helper(tokens[i].as_str(), &patterns);
        proof {
            assert(ts[i as int] == tokens@[i as int]@);
        }
        let ghost old_r = r@;
        if let Ok(id) = found {
            r.push(id);
        }
        i = i + 1;
        proof {
            let q = ts.subrange(0, i as int);
            assert(q.drop_last() =~= ts.subrange(0, i - 1));
            assert(q.last() == ts[i - 1]);
            assert(string_views(r@) =~= matched_ids(q, ps));
        }
    }
    proof {
        assert(ts.subrange(0, tokens.len() as int) =~= ts);
    }
    r
}

/// Whether a channel token is a numeric channel identifier.
pub fn channel_regex(channel: &str) -> (r: bool)
    ensures
        r == (pattern_group("^([0-9]+)$"@, channel@) is Some),
{
    first_group("^([0-9]+)$", channel).is_some()
}

/// An input in which no token matches any pattern yields no identifier at all.
pub proof fn lemma_unmatched_tokens_give_no_ids(tokens: Seq<Seq<char>>, ps: Seq<Seq<char>>)
    requires
        forall|i: int| 0 <= i < tokens.len() ==> first_match(ps, #[trigger] tokens[i]) is None,
    ensures
        matched_ids(tokens, ps) == Seq::<Seq<char>>::empty(),
    decreases tokens.len(),
{
    if tokens.len() > 0 {
        let t = tokens.drop_last();
        assert forall|i: int| 0 <= i < t.len() implies first_match(ps, #[trigger] t[i]) is None by {
            assert(t[i] == tokens[i]);
        }
        lemma_unmatched_tokens_give_no_ids(t, ps);
        assert(first_match(ps, tokens[tokens.len() - 1]) is None);
    }
}

} // verus!
