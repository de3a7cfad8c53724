//! Walking a channel's listing page by page, by cursor, and (for clips)
//! window by window in time.

use vstd::prelude::*;
use crate::error::Error;
use crate::matcher::{pattern_group, regex_helper};
use crate::text::{push_str_chars, string_of};

verus! {

/// The cursor of the next request, given the cursor of the request just made
/// and the one the response returned; `None` ends the listing. A missing
/// cursor, or one that did not change, ends it.
pub open spec fn next_cursor(after: Seq<char>, returned: Option<Seq<char>>) -> Option<Seq<char>> {
    match returned {
        Some(c) => if c != after { Some(c) } else { None },
        None => None,
    }
}

pub open spec fn opt_view(o: Option<String>) -> Option<Seq<char>> {
    match o {
        Some(s) => Some(s@),
        None => None,
    }
}

/// The state of one paginated listing: the cursor to send, whether the
/// listing has ended, and the items gathered so far, in page order.
pub struct Paginator<T> {
    pub after: String,
    pub finished: bool,
    pub items: Vec<T>,
}

impl<T> Paginator<T> {
    pub fn new() -> (r: Self)
        ensures
            r.after@ == Seq::<char>::empty(),
            !r.finished,
            r.items@ == Seq::<T>::empty(),
    {
        Paginator { after: String::new(), finished: false, items: Vec::new() }
    }

    /// Takes in one page: its items are appended, and the returned cursor
    /// decides whether another page is requested. Returns whether it is.
    pub fn advance(&mut self, page: Vec<T>, cursor: Option<String>) -> (more: bool)
        ensures
            final(self).items@ == old(self).items@ + page@,
            more == (next_cursor(old(self).after@, opt_view(cursor)) is Some),
            more ==> final(self).after@ == next_cursor(old(self).after@, opt_view(cursor))->0,
            !more ==> final(self).after@ == old(self).after@,
            final(self).finished == !more,
    {
        let mut page = page;
        self.items.append(&mut page);
        match cursor {
            Some(c) => {
                if c != self.after {
                    self.after = c;
                    self.finished = false;
                    true
                } else {
                    self.finished = true;
                    false
                }
            },
            None => {
                self.finished = true;
                false
            },
        }
    }
}

impl<T> Paginator<T> {
    /// A page that could not be fetched or read ends the listing softly: the
    /// items gathered so far are kept and no further page is requested.
    pub fn unreadable(&mut self)
        ensures
            final(self).items@ == old(self).items@,
            final(self).after@ == old(self).after@,
            final(self).finished,
    {
        self.finished = true;
    }
}

/// Stability guard: a response that hands back the cursor it was requested
/// with ends the listing, so a misbehaving API cannot make it loop for ever;
/// a response without a cursor ends it too.
pub proof fn lemma_repeated_cursor_ends(after: Seq<char>)
    ensures
        next_cursor(after, Some(after)) is None,
        next_cursor(after, None) is None,
{
}

/// The cursor sent with each request of a listing whose responses carry the
/// cursors `returned`, as long as the listing goes on.
pub open spec fn cursor_walk(after: Seq<char>, returned: Seq<Option<Seq<char>>>) -> nat
    decreases returned.len(),
{
    if returned.len() == 0 {
        0
    } else {
        match next_cursor(after, returned[0]) {
            Some(c) => 1 + cursor_walk(c, returned.drop_first()),
            None => 1,
        }
    }
}

/// The cursor sent with request `k` of that listing, if it gets that far.
pub open spec fn cursor_sent(after: Seq<char>, returned: Seq<Option<Seq<char>>>, k: nat) -> Option<Seq<char>>
    decreases k,
{
    if k == 0 {
        Some(after)
    } else if returned.len() == 0 {
        None
    } else {
        match next_cursor(after, returned[0]) {
            Some(c) => cursor_sent(c, returned.drop_first(), (k - 1) as nat),
            None => None,
        }
    }
}

/// Termination under a misbehaving API: if the response to request `k`
/// hands back the very cursor that request was sent with, the listing makes
/// exactly `k + 1` requests, however many more responses would follow.
pub proof fn lemma_walk_stops_at_repeat(after: Seq<char>, returned: Seq<Option<Seq<char>>>, k: nat)
    requires
        k < returned.len(),
        cursor_sent(after, returned, k) is Some,
        returned[k as int] == cursor_sent(after, returned, k),
    ensures
        cursor_walk(after, returned) == k + 1,
    decreases k,
{
    if k > 0 {
        let c = next_cursor(after, returned[0])->0;
        let rest = returned.drop_first();
        assert(rest[k - 1] == returned[k as int]);
        lemma_walk_stops_at_repeat(c, rest, (k - 1) as nat);
    }
}

/// Relies on chrono: `DateTime::<Utc>::from_timestamp(secs, 0)` and
/// `to_rfc3339_opts(SecondsFormat::Secs, true)`; `None` for a time chrono
/// cannot represent.
#[verifier::external_body]
fn rfc3339(secs: i64) -> (r: Option<String>)
    ensures
        opt_view(r) == rfc3339_of(secs as int),
{
    chrono::DateTime::<chrono::Utc>::from_timestamp(secs, 0)
        .map(|t| t.to_rfc3339_opts(chrono::SecondsFormat::Secs, true))
}

/// The RFC 3339 form (whole seconds, `Z` for UTC) of a time in seconds since
/// the Unix epoch, if it can be represented.
pub uninterp spec fn rfc3339_of(secs: int) -> Option<Seq<char>>;

/// The time windows of a clip listing: `[start, start + interval)` from
/// `now - range`, advancing by `interval` until the start passes `now`.
/// The first window is always listed.
pub struct ClipWindows {
    pub start: i64,
    pub now: i64,
    pub interval: i64,
    pub done: bool,
}

impl ClipWindows {
    pub fn new(now: i64, range: i64, interval: i64) -> (r: Self)
        requires
            range >= 0,
            interval >= 0,
        ensures
            r.now == now,
            r.interval == interval,
            now - range >= i64::MIN ==> r.start == now - range,
            now - range < i64::MIN ==> r.start == i64::MIN,
            !r.done,
    {
        let start = if now >= i64::MIN + range {
            now - range
        } else {
            i64::MIN
        };
        ClipWindows { start, now, interval, done: false }
    }

    /// The end of the current window, saturated at the largest time.
    pub fn end(&self) -> (r: i64)
        requires
            self.interval >= 0,
        ensures
            self.start + self.interval <= i64::MAX ==> r == self.start + self.interval,
            self.start + self.interval > i64::MAX ==> r == i64::MAX,
    {
        if self.start > i64::MAX - self.interval {
            i64::MAX
        } else {
            self.start + self.interval
        }
    }

    /// Moves to the next window; the walk is done once its start is past `now`.
    pub fn advance(&mut self)
        requires
            old(self).interval >= 0,
        ensures
            final(self).now == old(self).now,
            final(self).interval == old(self).interval,
            old(self).start + old(self).interval <= i64::MAX ==> final(self).start == old(self).start
                + old(self).interval && final(self).done == (final(self).start > final(self).now),
            old(self).start + old(self).interval > i64::MAX ==> final(self).done,
    {
        if self.start > i64::MAX - self.interval {
            self.done = true;
        } else {
            self.start = self.start + self.interval;
            self.done = self.start > self.now;
        }
    }
}

/// How many windows a clip listing walks: from a first start `start` not
/// after `now`, with a positive `interval`, the windows `k = 0 ..= w` start at
/// `start + k * interval`, all at or before `now`, and the next start is past
/// `now`, where `w = (now - start) / interval`.
pub proof fn lemma_clip_window_count(start: int, now: int, interval: int)
    requires
        interval > 0,
        start <= now,
    ensures
        ({
            let w = (now - start) / interval;
            &&& w >= 0
            &&& forall|k: int| 0 <= k <= w ==> #[trigger] (start + k * interval) <= now
            &&& start + (w + 1) * interval > now
        }),
{
    let d = now - start;
    let w = d / interval;
    vstd::arithmetic::div_mod::lemma_fundamental_div_mod(d, interval);
    assert(d == interval * w + d % interval);
    assert(0 <= d % interval < interval);
    assert(w >= 0) by (nonlinear_arith)
        requires d >= 0, interval > 0, d == interval * w + d % interval, d % interval < interval;
    assert forall|k: int| 0 <= k <= w implies #[trigger] (start + k * interval) <= now by {
        assert(k * interval <= w * interval) by (nonlinear_arith)
            requires k <= w, interval > 0;
    }
    assert((w + 1) * interval == interval * w + interval) by (nonlinear_arith);
}

/// The request for one page of a channel's clips within a time window.
pub open spec fn clip_page_url(id: Seq<char>, after: Seq<char>, start: Seq<char>, end: Seq<char>) -> Seq<char> {
    "https://api.twitch.tv/helix/clips?first=100&broadcaster_id="@ + id + "&after="@ + after
        + "&started_at="@ + start + "&ended_at="@ + end
}

pub fn clip_page_request(id: &str, after: &str, start: i64, end: i64) -> (r: Option<String>)
    ensures
        match r {
            Some(u) => rfc3339_of(start as int) is Some && rfc3339_of(end as int) is Some
                && u@ == clip_page_url(id@, after@, rfc3339_of(start as int)->0, rfc3339_of(end as int)->0),
            None => rfc3339_of(start as int) is None || rfc3339_of(end as int) is None,
        },
{
    let s = rfc3339(start);
    let e = rfc3339(end);
    match (s, e) {
        (Some(s), Some(e)) => {
            let mut out: Vec<char> = Vec::new();
            push_str_chars(&mut out, "https://api.twitch.tv/helix/clips?first=100&broadcaster_id=");
            push_str_chars(&mut out, id);
            push_str_chars(&mut out, "&after=");
            push_str_chars(&mut out, after);
            push_str_chars(&mut out, "&started_at=");
            push_str_chars(&mut out, s.as_str());
            push_str_chars(&mut out, "&ended_at=");
            push_str_chars(&mut out, e.as_str());
            proof {
                assert(out@ =~= clip_page_url(id@, after@, s@, e@));
            }
            Some(string_of(&out))
        },
        _ => None,
    }
}

/// The request for one page of a Twitch channel's videos of one type.
pub open spec fn video_page_url(id: Seq<char>, kind: Seq<char>, after: Seq<char>) -> Seq<char> {
    "https://api.twitch.tv/helix/videos?user_id="@ + id + "&type="@ + kind + "&first=100&after="@ + after
}

pub fn video_page_request(id: &str, kind: &str, after: &str) -> (r: String)
    ensures
        r@ == video_page_url(id@, kind@, after@),
{
    let mut out: Vec<char> = Vec::new();
    push_str_chars(&mut out, "https://api.twitch.tv/helix/videos?user_id=");
    push_str_chars(&mut out, id);
    push_str_chars(&mut out, "&type=");
    push_str_chars(&mut out, kind);
    push_str_chars(&mut out, "&first=100&after=");
    push_str_chars(&mut out, after);
    proof {
        assert(out@ =~= video_page_url(id@, kind@, after@));
    }
    string_of(&out)
}

/// The request for one page of a YouTube upload playlist.
pub open spec fn playlist_page_url(playlist: Seq<char>, key: Seq<char>, after: Seq<char>) -> Seq<char> {
    "https://youtube.googleapis.com/youtube/v3/playlistItems?part=snippet&maxResults=50&playlistId="@
        + playlist + "&key="@ + key + "&pageToken="@ + after
}

pub fn playlist_page_request(playlist: &str, key: &str, after: &str) -> (r: String)
    ensures
        r@ == playlist_page_url(playlist@, key@, after@),
{
    let mut out: Vec<char> = Vec::new();
    push_str_chars(
        &mut out,
        "https://youtube.googleapis.com/youtube/v3/playlistItems?part=snippet&maxResults=50&playlistId=",
    );
    push_str_chars(&mut out, playlist);
    push_str_chars(&mut out, "&key=");
    push_str_chars(&mut out, key);
    push_str_chars(&mut out, "&pageToken=");
    push_str_chars(&mut out, after);
    proof {
        assert(out@ =~= playlist_page_url(playlist@, key@, after@));
    }
    string_of(&out)
}

/// A resolved channel: its login name and numeric identifier.
#[derive(Clone, Debug)]
pub struct ChannelData {
    pub username: String,
    pub id: String,
}

/// The pattern that picks the channel name out of a Twitch channel token or link.
pub open spec fn twitch_channel_pattern() -> Seq<char> {
    "^(?:https?://)?(?:www.)?(?:twitch.tv/)?(?:[^/]+/)?([^?/\\& *+]+)"@
}

pub open spec fn user_url(query: Seq<char>, name: Seq<char>) -> Seq<char> {
    "https://api.twitch.tv/helix/users?"@ + query + "="@ + name
}

fn user_request(query: &str, name: &str) -> (r: String)
    ensures
        r@ == user_url(query@, name@),
{
    let mut out: Vec<char> = Vec::new();
    push_str_chars(&mut out, "https://api.twitch.tv/helix/users?");
    push_str_chars(&mut out, query);
    push_str_chars(&mut out, "=");
    push_str_chars(&mut out, name);
    proof {
        assert(out@ =~= user_url(query@, name@));
    }
    string_of(&out)
}

/// The user lookups to try for a Twitch channel token, in order: by numeric
/// identifier first when the name is all digits, then by login name.
pub fn channel_lookups(channel: &str) -> (r: Result<Vec<String>, Error>)
    ensures
        match crate::matcher::first_match(seq![twitch_channel_pattern()], channel@) {
            Some(name) => r is Ok && (if pattern_group("^([0-9]+)$"@, name) is Some {
                crate::matcher::string_views(r->Ok_0@) == seq![user_url("id"@, name), user_url("login"@, name)]
            } else {
                crate::matcher::string_views(r->Ok_0@) == seq![user_url("login"@, name)]
            }),
            None => r is Err && r->Err_0 == Error::NoRegexMatch,
        },
{
    let patterns = vec!["^(?:https?://)?(?:www.)?(?:twitch.tv/)?(?:[^/]+/)?([^?/\\& *+]+)"];
    proof {
        assert(crate::platform::str_views(patterns@) =~= seq![twitch_channel_pattern()]);
    }
    let name = match regex_helper(channel, &patterns) {
        Ok(name) => name,
        Err(e) => return Err(e),
    };
    let mut r: Vec<String> = Vec::new();
    if crate::matcher::channel_regex(name.as_str()) {
        r.push(user_request("id", name.as_str()));
    }
    r.push(user_request("login", name.as_str()));
    proof {
        if pattern_group("^([0-9]+)$"@, name@) is Some {
            assert(crate::matcher::string_views(r@) =~= seq![user_url("id"@, name@), user_url("login"@, name@)]);
        } else {
            assert(crate::matcher::string_views(r@) =~= seq![user_url("login"@, name@)]);
        }
    }
    Ok(r)
}

/// The channel a user lookup found: exactly one user is a match; none, or
/// (inconsistently) several, is `NoMatches`.
pub fn channel_from_users(users: Vec<ChannelData>) -> (r: Result<ChannelData, Error>)
    ensures
        users.len() == 1 <==> r is Ok,
        r is Ok ==> r->Ok_0 == users@[0],
        r is Err ==> r->Err_0 == Error::NoMatches,
{
    if users.len() == 1 {
        let mut users = users;
        let u = users.pop().unwrap();
        Ok(u)
    } else {
        Err(Error::NoMatches)
    }
}

} // verus!
