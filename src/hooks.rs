//! The commands a user may run after each stage, built from a template and
//! the video's variables.

use vstd::prelude::*;
use crate::matcher::string_views;
use crate::pipeline::{video_title, video_title_of};
use crate::platform::{chat_ext, chat_ext_of, VideoType};

verus! {

/// Characters a POSIX shell reads literally.
pub open spec fn shell_plain(c: char) -> bool {
    ('a' <= c && c <= 'z') || ('A' <= c && c <= 'Z') || ('0' <= c && c <= '9') || c == '-'
        || c == '_' || c == '=' || c == '/' || c == ',' || c == '.' || c == '+'
}

/// The body of a single-quoted word: `'` and `!` are closed out and escaped.
pub open spec fn quote_body(s: Seq<char>) -> Seq<char>
    decreases s.len(),
{
    if s.len() == 0 {
        seq![]
    } else {
        let c = s.last();
        quote_body(s.drop_last()) + if c == '\'' || c == '!' {
            seq!['\'', '\\', c, '\'']
        } else {
            seq![c]
        }
    }
}

/// A word a POSIX shell reads back as `s`: `s` itself when it is non-empty and
/// plain, else `s` in single quotes.
pub open spec fn shell_quoted(s: Seq<char>) -> Seq<char> {
    if s.len() > 0 && forall|i: int| 0 <= i < s.len() ==> shell_plain(#[trigger] s[i]) {
        s
    } else {
        seq!['\''] + quote_body(s) + seq!['\'']
    }
}

/// Relies on `shell_escape::unix::escape`, which returns a non-empty string of
/// whitelisted characters unchanged and otherwise wraps it in single quotes,
/// writing `'` and `!` as `'\'` / `'\!` followed by `'`.
#[verifier::external_body]
fn shell_escape_str(s: &str) -> (r: String)
    ensures
        r@ == shell_quoted(s@),
{
    shell_escape::unix::escape(std::borrow::Cow::Borrowed(s)).into_owned()
}

/// The command a template gives with `{name}` fields filled from `vars`, or
/// `None` when the template is malformed or names an unknown field.
pub uninterp spec fn formatted(template: Seq<char>, vars: Seq<(Seq<char>, Seq<char>)>) -> Option<Seq<char>>;

pub open spec fn pair_views(v: Seq<(String, String)>) -> Seq<(Seq<char>, Seq<char>)> {
    v.map_values(|p: (String, String)| (p.0@, p.1@))
}

/// Relies on `strfmt::strfmt`, with the variables gathered into a `HashMap`.
#[verifier::external_body]
fn strfmt_vars(template: &str, vars: &Vec<(String, String)>) -> (r: Option<String>)
    ensures
        match r {
            Some(s) => formatted(template@, pair_views(vars@)) == Some(s@),
            None => formatted(template@, pair_views(vars@)) is None,
        },
{
    let map: std::collections::HashMap<String, String> = vars.iter().cloned().collect();
    strfmt::strfmt(template, &map).ok()
}

/// The variables a hook template can use: the video identifier, the chat
/// file extension, and the shell-quoted video file name.
pub open spec fn hook_vars_of(p: VideoType, title: Seq<char>, id: Seq<char>) -> Seq<(Seq<char>, Seq<char>)> {
    seq![
        ("id"@, id),
        ("chat_ext"@, chat_ext_of(p)),
        ("video_title"@, shell_quoted(video_title_of(p, title, id))),
    ]
}

pub fn hook_vars(p: VideoType, title: &str, id: &str) -> (r: Vec<(String, String)>)
    ensures
        pair_views(r@) == hook_vars_of(p, title@, id@),
{
    let name = video_title(p, title, id);
    let quoted = shell_escape_str(name.as_str());
    let r = vec![
        ("id".to_owned(), id.to_owned()),
        ("chat_ext".to_owned(), chat_ext(p).to_owned()),
        ("video_title".to_owned(), quoted),
    ];
    proof {
        assert(pair_views(r@) =~= hook_vars_of(p, title@, id@));
    }
    r
}

/// The shell command (for `bash -c`) of a hook template after a stage of a video.
pub fn hook_command(template: &str, p: VideoType, title: &str, id: &str) -> (r: Option<String>)
    ensures
        match r {
            Some(s) => formatted(template@, hook_vars_of(p, title@, id@)) == Some(s@),
            None => formatted(template@, hook_vars_of(p, title@, id@)) is None,
        },
{
    let vars = hook_vars(p, title, id);
    strfmt_vars(template, &vars)
}

} // verus!
