//! Turning a video title into a name that is safe to use as a file name.
//!
//! The cleaning runs in steps: optional NFKC normalization, timestamps,
//! a per-character replacement table, merging and trimming of separator
//! placeholders, underscore collapsing, and a few fixes at the start.

use vstd::prelude::*;
use crate::category::{category_of, general_category, is_cm, removed_category, Category};
use crate::text::{
    chars_of, copy_range, equals_char, lead_run, lemma_lead_run, lemma_tail_run, string_of, tail_run,
};

verus! {

/// An element of a title while it is being cleaned: `(false, c)` is a
/// character kept as it is, `(true, c)` a placeholder for the separator `c`
/// that may still be merged with its neighbours or trimmed from the ends.
pub type Piece = (bool, char);

/// The NFKC normal form of a text that is not all 7-bit ASCII.
pub uninterp spec fn nfkc_form(s: Seq<char>) -> Seq<char>;

pub open spec fn is_ascii_seq(s: Seq<char>) -> bool {
    forall|i: int| 0 <= i < s.len() ==> (s[i] as u32) < 0x80
}

/// The NFKC normal form of a text; 7-bit ASCII text is its own normal form.
pub open spec fn nfkc_of(s: Seq<char>) -> Seq<char> {
    if is_ascii_seq(s) {
        s
    } else {
        nfkc_form(s)
    }
}

/// Relies on unicode_normalization's `nfkc` (compatibility decomposition, then
/// canonical composition). Empty text stays empty; 7-bit ASCII never decomposes
/// and no two ASCII characters compose, so ASCII text comes back unchanged.
#[verifier::external_body]
fn normalize_nfkc(s: &str) -> (r: String)
    ensures
        r@ == (if is_ascii_seq(s@) {
            s@
        } else {
            nfkc_form(s@)
        }),
{
    unicode_normalization::UnicodeNormalization::nfkc(s).collect()
}

pub open spec fn is_digit(c: char) -> bool {
    0x30 <= (c as u32) <= 0x39
}

/// A colon between two digits, i.e. inside a run of colon-separated digit groups.
pub open spec fn joins_digits(s: Seq<char>, i: int) -> bool {
    &&& s[i] == ':'
    &&& 0 < i
    &&& i + 1 < s.len()
    &&& is_digit(s[i - 1])
    &&& is_digit(s[i + 1])
}

/// Timestamps such as `12:34:56` get underscores in place of their colons.
pub open spec fn mark_timestamps(s: Seq<char>) -> Seq<char> {
    Seq::new(s.len(), |i: int| if joins_digits(s, i) { '_' } else { s[i] })
}

/// The ASCII spelling of the Latin-1 (and a few Latin Extended-A) accented letters;
/// empty for every other character.
pub open spec fn accent_fold(c: char) -> Seq<char> {
    let u = c as u32;
    if 0xc0 <= u <= 0xc5 { seq!['A'] }
    else if u == 0xc6 { seq!['A', 'E'] }
    else if u == 0xc7 { seq!['C'] }
    else if 0xc8 <= u <= 0xcb { seq!['E'] }
    else if 0xcc <= u <= 0xcf { seq!['I'] }
    else if u == 0xd0 { seq!['D'] }
    else if u == 0xd1 { seq!['N'] }
    else if (0xd2 <= u <= 0xd6) || u == 0xd8 || u == 0x150 { seq!['O'] }
    else if u == 0x152 { seq!['O', 'E'] }
    else if (0xd9 <= u <= 0xdc) || u == 0x170 { seq!['U'] }
    else if u == 0xdd { seq!['Y'] }
    else if u == 0xde { seq!['T', 'H'] }
    else if u == 0xdf { seq!['s', 's'] }
    else if 0xe0 <= u <= 0xe5 { seq!['a'] }
    else if u == 0xe6 { seq!['a', 'e'] }
    else if u == 0xe7 { seq!['c'] }
    else if 0xe8 <= u <= 0xeb { seq!['e'] }
    else if 0xec <= u <= 0xef { seq!['i'] }
    else if u == 0xf0 { seq!['d'] }
    else if u == 0xf1 { seq!['n'] }
    else if (0xf2 <= u <= 0xf6) || u == 0xf8 || u == 0x151 { seq!['o'] }
    else if u == 0x153 { seq!['o', 'e'] }
    else if (0xf9 <= u <= 0xfc) || u == 0x171 { seq!['u'] }
    else if u == 0xfd || u == 0xff { seq!['y'] }
    else if u == 0xfe { seq!['t', 'h'] }
    else { seq![] }
}

fn accent_fold_exec(c: char) -> (r: Vec<char>)
    ensures
        r@ == accent_fold(c),
{
    let u = c as u32;
    if 0xc0 <= u && u <= 0xc5 { vec!['A'] }
    else if u == 0xc6 { vec!['A', 'E'] }
    else if u == 0xc7 { vec!['C'] }
    else if 0xc8 <= u && u <= 0xcb { vec!['E'] }
    else if 0xcc <= u && u <= 0xcf { vec!['I'] }
    else if u == 0xd0 { vec!['D'] }
    else if u == 0xd1 { vec!['N'] }
    else if (0xd2 <= u && u <= 0xd6) || u == 0xd8 || u == 0x150 { vec!['O'] }
    else if u == 0x152 { vec!['O', 'E'] }
    else if (0xd9 <= u && u <= 0xdc) || u == 0x170 { vec!['U'] }
    else if u == 0xdd { vec!['Y'] }
    else if u == 0xde { vec!['T', 'H'] }
    else if u == 0xdf { vec!['s', 's'] }
    else if 0xe0 <= u && u <= 0xe5 { vec!['a'] }
    else if u == 0xe6 { vec!['a', 'e'] }
    else if u == 0xe7 { vec!['c'] }
    else if 0xe8 <= u && u <= 0xeb { vec!['e'] }
    else if 0xec <= u && u <= 0xef { vec!['i'] }
    else if u == 0xf0 { vec!['d'] }
    else if u == 0xf1 { vec!['n'] }
    else if (0xf2 <= u && u <= 0xf6) || u == 0xf8 || u == 0x151 { vec!['o'] }
    else if u == 0x153 { vec!['o', 'e'] }
    else if (0xf9 <= u && u <= 0xfc) || u == 0x171 { vec!['u'] }
    else if u == 0xfd || u == 0xff { vec!['y'] }
    else if u == 0xfe { vec!['t', 'h'] }
    else { vec![] }
}

/// The look-alike that stands for a character that file systems reserve,
/// in unrestricted names.
pub open spec fn fullwidth(c: char) -> Option<char> {
    if c == '"' { Some('\u{ff02}') }
    else if c == '*' { Some('\u{ff0a}') }
    else if c == ':' { Some('\u{ff1a}') }
    else if c == '<' { Some('\u{ff1c}') }
    else if c == '>' { Some('\u{ff1e}') }
    else if c == '?' { Some('\u{ff1f}') }
    else if c == '|' { Some('\u{ff5c}') }
    else if c == '/' { Some('\u{29f8}') }
    else if c == '\\' { Some('\u{29f9}') }
    else { None }
}

fn fullwidth_exec(c: char) -> (r: Option<char>)
    ensures
        r == fullwidth(c),
{
    if c == '"' { Some('\u{ff02}') }
    else if c == '*' { Some('\u{ff0a}') }
    else if c == ':' { Some('\u{ff1a}') }
    else if c == '<' { Some('\u{ff1c}') }
    else if c == '>' { Some('\u{ff1e}') }
    else if c == '?' { Some('\u{ff1f}') }
    else if c == '|' { Some('\u{ff5c}') }
    else if c == '/' { Some('\u{29f8}') }
    else if c == '\\' { Some('\u{29f9}') }
    else { None }
}

/// Path separators and the other characters that shells or file systems reserve.
pub open spec fn is_reserved(c: char) -> bool {
    c == '\\' || c == '/' || c == '|' || c == '*' || c == '<' || c == '>'
}

/// Punctuation that restricted names turn into separators.
pub open spec fn is_restricted_punct(c: char) -> bool {
    c == '!' || c == '&' || c == '\'' || c == '(' || c == ')' || c == '[' || c == ']'
        || c == '{' || c == '}' || c == ';' || c == '1' || c == '^' || c == ',' || c == '#'
}

pub open spec fn is_dropped_control(c: char) -> bool {
    (c as u32) <= 0x1f || (c as u32) == 0x7f
}

/// Characters kept as they are.
pub open spec fn texts(s: Seq<char>) -> Seq<Piece>
    decreases s.len(),
{
    if s.len() == 0 {
        seq![]
    } else {
        texts(s.drop_last()).push((false, s.last()))
    }
}

/// The replacement table: what one character of a title becomes. Restricted
/// names fold accented letters, turn punctuation, spaces and every other
/// non-ASCII character into separators, and drop non-ASCII characters of the
/// control, format, private-use, surrogate and mark categories; unrestricted
/// names keep Unicode, swap reserved characters (`?` among them) for
/// look-alikes and turn a newline into a space. Restricted names drop `?`;
/// both drop the other C0 control characters and DEL.
pub open spec fn pieces_with(c: char, r: bool, cat: Category) -> Seq<Piece> {
    if r && accent_fold(c).len() > 0 {
        texts(accent_fold(c))
    } else if !r && c == '\n' {
        seq![(true, ' ')]
    } else if !r && fullwidth(c) is Some {
        seq![(false, fullwidth(c)->0)]
    } else if c == '?' || is_dropped_control(c) {
        seq![]
    } else if c == '"' {
        if r { seq![] } else { seq![(false, '\'')] }
    } else if c == ':' {
        if r { seq![(true, '_'), (true, '-')] } else { seq![(true, ' '), (true, '-')] }
    } else if is_reserved(c) {
        seq![(true, '_')]
    } else if r && (is_restricted_punct(c) || c == ' ') {
        seq![(true, '_')]
    } else if r && (c as u32) > 0x7f && removed_category(cat) {
        seq![]
    } else if r && (c as u32) > 0x7f {
        seq![(true, '_')]
    } else {
        seq![(false, c)]
    }
}

/// The replacement table applied with the character's own general category.
pub open spec fn pieces_of(c: char, r: bool) -> Seq<Piece> {
    pieces_with(c, r, category_of(c))
}

fn push_pieces(out: &mut Vec<Piece>, c: char, r: bool)
    ensures
        final(out)@ == old(out)@ + pieces_of(c, r),
{
    push_pieces_with(out, c, r, general_category(c));
}

fn push_pieces_with(out: &mut Vec<Piece>, c: char, r: bool, cat: Category)
    ensures
        final(out)@ == old(out)@ + pieces_with(c, r, cat),
{
    let u = c as u32;
    let fold = if r { accent_fold_exec(c) } else { Vec::new() };
    if r && fold.len() > 0 {
        let mut i: usize = 0;
        proof {
            assert(texts(fold@.subrange(0, 0)) =~= seq![]);
            assert(old(out)@ + texts(fold@.subrange(0, 0)) =~= old(out)@);
        }
        while i < fold.len()
            invariant
                0 <= i <= fold.len(),
                fold@ == accent_fold(c),
                out@ == old(out)@ + texts(fold@.subrange(0, i as int)),
            decreases fold.len() - i,
        {
            out.push((false, fold[i]));
            i = i + 1;
            proof {
                assert(fold@.subrange(0, i as int).drop_last() =~= fold@.subrange(0, i - 1));
            }
        }
        proof {
            assert(fold@.subrange(0, fold.len() as int) =~= fold@);
        }
        return;
    }
    let wide = fullwidth_exec(c);
    if !r && c == '\n' {
        out.push((true, ' '));
    } else if !r && wide.is_some() {
        out.push((false, wide.unwrap()));
    } else if c == '?' || u <= 0x1f || u == 0x7f {
    } else if c == '"' {
        if !r {
            out.push((false, '\''));
        }
    } else if c == ':' {
        if r {
            out.push((true, '_'));
        } else {
            out.push((true, ' '));
        }
        out.push((true, '-'));
    } else if c == '\\' || c == '/' || c == '|' || c == '*' || c == '<' || c == '>' {
        out.push((true, '_'));
    } else if r && (c == '!' || c == '&' || c == '\'' || c == '(' || c == ')' || c == '['
        || c == ']' || c == '{' || c == '}' || c == ';' || c == '1' || c == '^' || c == ','
        || c == '#' || c == ' ') {
        out.push((true, '_'));
    } else if r && u > 0x7f {
        if !is_cm(cat) {
            out.push((true, '_'));
        }
    } else {
        out.push((false, c));
    }
    proof {
        assert(out@ =~= old(out)@ + pieces_with(c, r, cat));
    }
}

/// What one character of a title of general category `cat` becomes under the
/// replacement table.
pub fn replace_with_category(character: char, restrict: bool, cat: Category) -> (r: Vec<Piece>)
    ensures
        r@ == pieces_with(character, restrict, cat),
{
    let mut out: Vec<Piece> = Vec::new();
    push_pieces_with(&mut out, character, restrict, cat);
    proof {
        assert(out@ =~= pieces_with(character, restrict, cat));
    }
    out
}

/// What one character of a title becomes under the replacement table.
pub fn replace_insane(character: char, restrict: bool) -> (r: Vec<Piece>)
    ensures
        r@ == pieces_of(character, restrict),
{
    let mut out: Vec<Piece> = Vec::new();
    push_pieces(&mut out, character, restrict);
    proof {
        assert(out@ =~= pieces_of(character, restrict));
    }
    out
}

fn is_digit_exec(c: char) -> (r: bool)
    ensures
        r == is_digit(c),
{
    let u = c as u32;
    0x30 <= u && u <= 0x39
}

fn mark_timestamps_exec(s: &Vec<char>) -> (out: Vec<char>)
    ensures
        out@ == mark_timestamps(s@),
{
    let n = s.len();
    let mut out: Vec<char> = Vec::new();
    let mut i: usize = 0;
    while i < n
        invariant
            n == s.len(),
            0 <= i <= n,
            out.len() == i,
            forall|j: int| 0 <= j < i ==> out@[j] == (if joins_digits(s@, j) { '_' } else { s@[j] }),
        decreases n - i,
    {
        let c = s[i];
        let joined = c == ':' && i > 0 && i + 1 < n && is_digit_exec(s[i - 1]) && is_digit_exec(
            s[i + 1],
        );
        if joined {
            out.push('_');
        } else {
            out.push(c);
        }
        i = i + 1;
    }
    proof {
        assert(out@ =~= mark_timestamps(s@));
    }
    out
}

/// The replacement table applied to every character, in order.
pub open spec fn expand(s: Seq<char>, r: bool) -> Seq<Piece>
    decreases s.len(),
{
    if s.len() == 0 {
        seq![]
    } else {
        expand(s.drop_last(), r) + pieces_of(s.last(), r)
    }
}

fn expand_exec(s: &Vec<char>, r: bool) -> (out: Vec<Piece>)
    ensures
        out@ == expand(s@, r),
{
    let mut out: Vec<Piece> = Vec::new();
    let mut i: usize = 0;
    proof {
        assert(s@.subrange(0, 0).len() == 0);
    }
    while i < s.len()
        invariant
            0 <= i <= s.len(),
            out@ == expand(s@.subrange(0, i as int), r),
        decreases s.len() - i,
    {
        push_pieces(&mut out, s[i], r);
        i = i + 1;
        proof {
            assert(s@.subrange(0, i as int).drop_last() =~= s@.subrange(0, i - 1));
        }
    }
    proof {
        assert(s@.subrange(0, s.len() as int) =~= s@);
    }
    out
}

/// A placeholder equal to the one before it.
pub open spec fn repeats_mark(p: Seq<Piece>, i: int) -> bool {
    p[i].0 && 0 < i && p[i - 1] == p[i]
}

/// Runs of identical placeholders merged into one.
pub open spec fn dedup_marks(p: Seq<Piece>) -> Seq<Piece>
    decreases p.len(),
{
    if p.len() == 0 {
        seq![]
    } else if repeats_mark(p, p.len() - 1) {
        dedup_marks(p.drop_last())
    } else {
        dedup_marks(p.drop_last()).push(p.last())
    }
}

fn dedup_exec(p: &Vec<Piece>) -> (out: Vec<Piece>)
    ensures
        out@ == dedup_marks(p@),
{
    let mut out: Vec<Piece> = Vec::new();
    let mut i: usize = 0;
    proof {
        assert(p@.subrange(0, 0).len() == 0);
    }
    while i < p.len()
        invariant
            0 <= i <= p.len(),
            out@ == dedup_marks(p@.subrange(0, i as int)),
        decreases p.len() - i,
    {
        let x = p[i];
        let repeated = x.0 && i > 0 && p[i - 1].0 == x.0 && p[i - 1].1 == x.1;
        if !repeated {
            out.push(x);
        }
        i = i + 1;
        proof {
            let q = p@.subrange(0, i as int);
            assert(q.drop_last() =~= p@.subrange(0, i - 1));
            assert(q.last() == p@[i - 1]);
            if i >= 2 {
                assert(q[i - 2] == p@[i - 2]);
            }
            assert(repeated == repeats_mark(q, q.len() - 1));
        }
    }
    proof {
        assert(p@.subrange(0, p.len() as int) =~= p@);
    }
    out
}

/// Placeholders and the literal separators ` `, `_` and `-`.
pub open spec fn strippable(x: Piece) -> bool {
    x.0 || x.1 == ' ' || x.1 == '_' || x.1 == '-'
}

pub open spec fn strippable_pred() -> spec_fn(Piece) -> bool {
    |x: Piece| strippable(x)
}

fn strippable_exec(x: Piece) -> (r: bool)
    ensures
        r == strippable(x),
{
    x.0 || x.1 == ' ' || x.1 == '_' || x.1 == '-'
}

/// A leading run of separators that starts with a placeholder, and any
/// trailing run of separators, removed.
pub open spec fn strip_ends(p: Seq<Piece>) -> Seq<Piece> {
    let q = if p.len() > 0 && p[0].0 {
        p.subrange(lead_run(p, strippable_pred()) as int, p.len() as int)
    } else {
        p
    };
    q.subrange(0, q.len() - tail_run(q, strippable_pred()))
}

fn strip_exec(p: &Vec<Piece>) -> (out: Vec<Piece>)
    ensures
        out@ == strip_ends(p@),
{
    let n = p.len();
    let mut a: usize = 0;
    let lead_mark = n > 0 && p[0].0;
    if lead_mark {
        while a < n && strippable_exec(p[a])
            invariant
                n == p.len(),
                0 <= a <= n,
                forall|j: int| 0 <= j < a ==> strippable(#[trigger] p@[j]),
            decreases n - a,
        {
            a = a + 1;
        }
        proof {
            lemma_lead_run(p@, strippable_pred(), a as int);
        }
    }
    let ghost q = if lead_mark {
        p@.subrange(a as int, n as int)
    } else {
        p@
    };
    proof {
        if !lead_mark {
            assert(q =~= p@.subrange(a as int, n as int));
        }
    }
    let mut b: usize = n;
    while b > a && strippable_exec(p[b - 1])
        invariant
            n == p.len(),
            0 <= a <= b <= n,
            q == p@.subrange(a as int, n as int),
            forall|j: int| b <= j < n ==> strippable(#[trigger] p@[j]),
        decreases b,
    {
        b = b - 1;
    }
    proof {
        assert forall|j: int| q.len() - (n - b) <= j < q.len() implies (strippable_pred())(
            #[trigger] q[j],
        ) by {
            assert(q[j] == p@[a + j]);
        }
        if b > a {
            assert(q[q.len() - (n - b) - 1] == p@[b - 1]);
        }
        lemma_tail_run(q, strippable_pred(), (n - b) as int);
        assert(q.subrange(0, q.len() - (n - b)) =~= p@.subrange(a as int, b as int));
    }
    copy_range(p, a, b)
}

pub open spec fn piece_char(x: Piece) -> char {
    x.1
}

/// Placeholders replaced by the separator they stand for.
pub open spec fn flatten(p: Seq<Piece>) -> Seq<char> {
    p.map_values(|x: Piece| piece_char(x))
}

/// Runs of underscores collapsed into one.
pub open spec fn squeeze(s: Seq<char>) -> Seq<char>
    decreases s.len(),
{
    if s.len() == 0 {
        seq![]
    } else if s.len() >= 2 && s.last() == '_' && s[s.len() - 2] == '_' {
        squeeze(s.drop_last())
    } else {
        squeeze(s.drop_last()).push(s.last())
    }
}

fn flatten_exec(p: &Vec<Piece>) -> (out: Vec<char>)
    ensures
        out@ == flatten(p@),
{
    let mut out: Vec<char> = Vec::new();
    let mut i: usize = 0;
    while i < p.len()
        invariant
            0 <= i <= p.len(),
            out.len() == i,
            forall|j: int| 0 <= j < i ==> out@[j] == piece_char(p@[j]),
        decreases p.len() - i,
    {
        out.push(p[i].1);
        i = i + 1;
    }
    proof {
        assert(out@ =~= flatten(p@));
    }
    out
}

fn squeeze_exec(s: &Vec<char>) -> (out: Vec<char>)
    ensures
        out@ == squeeze(s@),
{
    let mut out: Vec<char> = Vec::new();
    let mut i: usize = 0;
    proof {
        assert(s@.subrange(0, 0).len() == 0);
    }
    while i < s.len()
        invariant
            0 <= i <= s.len(),
            out@ == squeeze(s@.subrange(0, i as int)),
        decreases s.len() - i,
    {
        let c = s[i];
        if !(c == '_' && i > 0 && s[i - 1] == '_') {
            out.push(c);
        }
        i = i + 1;
        proof {
            let q = s@.subrange(0, i as int);
            assert(q.drop_last() =~= s@.subrange(0, i - 1));
            assert(q.last() == s@[i - 1]);
            if i >= 2 {
                assert(q[i - 2] == s@[i - 2]);
            }
        }
    }
    proof {
        assert(s@.subrange(0, s.len() as int) =~= s@);
    }
    out
}

/// `c` trimmed from both ends.
pub open spec fn trim_char(s: Seq<char>, c: char) -> Seq<char> {
    let t = s.subrange(lead_run(s, equals_char(c)) as int, s.len() as int);
    t.subrange(0, t.len() - tail_run(t, equals_char(c)))
}

fn lead_count_exec(s: &Vec<char>, c: char) -> (k: usize)
    ensures
        k == lead_run(s@, equals_char(c)),
        k <= s.len(),
{
    let mut k: usize = 0;
    while k < s.len() && s[k] == c
        invariant
            0 <= k <= s.len(),
            forall|j: int| 0 <= j < k ==> (equals_char(c))(#[trigger] s@[j]),
        decreases s.len() - k,
    {
        k = k + 1;
    }
    proof {
        lemma_lead_run(s@, equals_char(c), k as int);
    }
    k
}

fn trim_char_exec(s: &Vec<char>, c: char) -> (out: Vec<char>)
    ensures
        out@ == trim_char(s@, c),
{
    let n = s.len();
    let a = lead_count_exec(s, c);
    let ghost t = s@.subrange(a as int, n as int);
    let mut b: usize = n;
    while b > a && s[b - 1] == c
        invariant
            n == s.len(),
            0 <= a <= b <= n,
            forall|j: int| b <= j < n ==> #[trigger] s@[j] == c,
        decreases b,
    {
        b = b - 1;
    }
    proof {
        assert forall|j: int| t.len() - (n - b) <= j < t.len() implies (equals_char(c))(
            #[trigger] t[j],
        ) by {
            assert(t[j] == s@[a + j]);
        }
        if b > a {
            assert(t[t.len() - (n - b) - 1] == s@[b - 1]);
        }
        lemma_tail_run(t, equals_char(c), (n - b) as int);
        assert(t.subrange(0, t.len() - (n - b)) =~= s@.subrange(a as int, b as int));
    }
    copy_range(s, a, b)
}

/// A restricted name that starts with `-_` loses those two characters.
pub open spec fn drop_dash_underscore(s: Seq<char>, r: bool) -> Seq<char> {
    if r && s.len() >= 2 && s[0] == '-' && s[1] == '_' {
        s.subrange(2, s.len() as int)
    } else {
        s
    }
}

/// A leading `-` becomes `_`.
pub open spec fn lead_dash_to_underscore(s: Seq<char>) -> Seq<char> {
    if s.len() > 0 && s[0] == '-' {
        s.update(0, '_')
    } else {
        s
    }
}

/// Leading dots removed, so that the name is not hidden.
pub open spec fn strip_dots(s: Seq<char>) -> Seq<char> {
    s.subrange(lead_run(s, equals_char('.')) as int, s.len() as int)
}

pub open spec fn or_underscore(s: Seq<char>) -> Seq<char> {
    if s.len() == 0 {
        seq!['_']
    } else {
        s
    }
}

/// Every step after normalization, on the characters of a title.
pub open spec fn clean_text(s: Seq<char>, r: bool) -> Seq<char> {
    let pieces = strip_ends(dedup_marks(expand(mark_timestamps(s), r)));
    let joined = trim_char(squeeze(flatten(pieces)), '_');
    or_underscore(strip_dots(lead_dash_to_underscore(drop_dash_underscore(joined, r))))
}

/// The file-system-safe form of a title; restricted names are NFKC-normalized first.
pub open spec fn sanitized(s: Seq<char>, r: bool) -> Seq<char> {
    if r {
        clean_text(nfkc_of(s), r)
    } else {
        clean_text(s, r)
    }
}

fn fix_start(s: Vec<char>, r: bool) -> (out: Vec<char>)
    ensures
        out@ == or_underscore(strip_dots(lead_dash_to_underscore(drop_dash_underscore(s@, r)))),
{
    let mut v = if r && s.len() >= 2 && s[0] == '-' && s[1] == '_' {
        copy_range(&s, 2, s.len())
    } else {
        s
    };
    if v.len() > 0 && v[0] == '-' {
        v.set(0, '_');
    }
    let k = lead_count_exec(&v, '.');
    let w = copy_range(&v, k, v.len());
    if w.len() == 0 {
        vec!['_']
    } else {
        w
    }
}

/// Cleans a title that restricted mode has already NFKC-normalized (or any
/// title in unrestricted mode): timestamps, the replacement table, merging and
/// trimming of separators, underscore collapsing, and the fixes at the start.
pub fn sanitize_normalized(text: &str, restricted: bool) -> (r: String)
    ensures
        r@ == clean_text(text@, restricted),
{
    let chars = chars_of(text);
    let stamped = mark_timestamps_exec(&chars);
    let pieces = expand_exec(&stamped, restricted);
    let merged = dedup_exec(&pieces);
    let stripped = strip_exec(&merged);
    let flat = flatten_exec(&stripped);
    let squeezed = squeeze_exec(&flat);
    let trimmed = trim_char_exec(&squeezed, '_');
    let fixed = fix_start(trimmed, restricted);
    string_of(&fixed)
}

/// Turns a title into a file name. Restricted names are ASCII only and safe
/// on every common file system; unrestricted names keep Unicode and only
/// replace reserved characters with look-alikes.
pub fn sanitize(data: String, restricted: bool) -> (r: String)
    ensures
        r@ == sanitized(data@, restricted),
{
    if restricted {
        let normalized = normalize_nfkc(data.as_str());
        sanitize_normalized(normalized.as_str(), true)
    } else {
        sanitize_normalized(data.as_str(), false)
    }
}

} // verus!
