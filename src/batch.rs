//! Resolving canonical identifiers to metadata in bounded batches, one
//! request per batch.

use vstd::prelude::*;
use crate::error::Error;
use crate::matcher::{
    first_match, ids_from_input, input_tokens, lemma_unmatched_tokens_give_no_ids, matched_ids,
    string_views,
};
use crate::platform::{id_patterns, VideoType};
use crate::text::{push_str_chars, string_of};

verus! {

/// How many batches of at most `m` identifiers `n` identifiers need.
pub open spec fn batch_count(n: int, m: int) -> int {
    (n + m - 1) / m
}

/// Where batch `k` ends (exclusive); it starts at `k * m`.
pub open spec fn batch_end(n: int, m: int, k: int) -> int {
    if (k + 1) * m < n {
        (k + 1) * m
    } else {
        n
    }
}

pub open spec fn batch_size(n: int, m: int, k: int) -> int {
    batch_end(n, m, k) - k * m
}

proof fn lemma_count_from_bounds(n: int, m: int, k: int)
    requires
        m > 0,
        k > 0,
        (k - 1) * m < n <= k * m,
    ensures
        batch_count(n, m) == k,
{
    let km = k * m;
    assert((k - 1) * m == km - m) by (nonlinear_arith)
        requires km == k * m;
    assert(n + m - 1 >= km);
    assert(n + m - 1 - km < m);
    vstd::arithmetic::div_mod::lemma_fundamental_div_mod_converse(n + m - 1, m, k, n + m - 1 - km);
}

/// The `[start, end)` index ranges of the batches: consecutive, each holding
/// `max` identifiers but the last, which holds the rest.
pub fn split_batches(n: usize, max: usize) -> (r: Vec<(usize, usize)>)
    requires
        max > 0,
    ensures
        r.len() == batch_count(n as int, max as int),
        forall|k: int|
            0 <= k < r.len() ==> #[trigger] r@[k].0 == k * max && r@[k].1 == batch_end(
                n as int,
                max as int,
                k,
            ),
{
    let mut r: Vec<(usize, usize)> = Vec::new();
    let mut lo: usize = 0;
    proof {
        assert(r.len() * max == 0) by (nonlinear_arith)
            requires r.len() == 0;
    }
    while lo < n
        invariant
            max > 0,
            lo <= n,
            lo < n ==> lo == r.len() * max,
            lo == n ==> ((r.len() == 0 && n == 0) || (r.len() > 0 && (r.len() - 1) * max < n
                && n <= r.len() * max)),
            forall|k: int|
                0 <= k < r.len() ==> #[trigger] r@[k].0 == k * max && r@[k].1 == batch_end(
                    n as int,
                    max as int,
                    k,
                ),
        decreases n - lo,
    {
        let k = r.len();
        let hi = if n - lo > max {
            lo + max
        } else {
            n
        };
        proof {
            assert((k + 1) * max == k * max + max) by (nonlinear_arith);
        }
        r.push((lo, hi));
        proof {
            assert(r@[k as int] == (lo, hi));
        }
        lo = hi;
    }
    proof {
        if n == 0 {
            vstd::arithmetic::div_mod::lemma_fundamental_div_mod_converse(
                max - 1,
                max as int,
                0,
                max - 1,
            );
            assert(batch_count(0, max as int) == 0);
        } else {
            lemma_count_from_bounds(n as int, max as int, r.len() as int);
        }
    }
    r
}

/// Batching laws: `n` identifiers in batches of at most `m` take
/// `ceil(n / m)` requests; every batch holds between one and `m` identifiers,
/// and the last one holds `n mod m`, or `m` when `m` divides `n`.
pub proof fn lemma_batch_sizes(n: int, m: int)
    requires
        n > 0,
        m > 0,
    ensures
        batch_count(n, m) * m >= n,
        (batch_count(n, m) - 1) * m < n,
        forall|k: int| 0 <= k < batch_count(n, m) ==> 0 < #[trigger] batch_size(n, m, k) <= m,
        batch_size(n, m, batch_count(n, m) - 1) == (if n % m == 0 { m } else { n % m }),
{
    let c = batch_count(n, m);
    let q = n / m;
    let rem = n % m;
    vstd::arithmetic::div_mod::lemma_fundamental_div_mod(n, m);
    assert(n == m * q + rem);
    assert(0 <= rem < m);
    if rem == 0 {
        assert(q * m == m * q) by (nonlinear_arith);
        vstd::arithmetic::div_mod::lemma_fundamental_div_mod_converse(n + m - 1, m, q, m - 1);
        assert(c == q);
    } else {
        assert((q + 1) * m == m * q + m) by (nonlinear_arith);
        vstd::arithmetic::div_mod::lemma_fundamental_div_mod_converse(n + m - 1, m, q + 1, rem - 1);
        assert(c == q + 1);
    }
    assert(c * m >= n) by (nonlinear_arith)
        requires n == m * q + rem, 0 <= rem < m, rem == 0 ==> c == q, rem != 0 ==> c == q + 1;
    assert((c - 1) * m < n) by (nonlinear_arith)
        requires n == m * q + rem, 0 <= rem < m, rem == 0 ==> c == q, rem != 0 ==> c == q + 1, m > 0, n > 0;
    assert forall|k: int| 0 <= k < c implies 0 < #[trigger] batch_size(n, m, k) <= m by {
        assert((k + 1) * m == k * m + m) by (nonlinear_arith);
        assert(k * m <= (c - 1) * m) by (nonlinear_arith)
            requires k <= c - 1, m > 0;
    }
    assert(c * m == (c - 1) * m + m) by (nonlinear_arith);
    if rem == 0 {
        assert((c - 1) * m + m == n) by (nonlinear_arith)
            requires n == m * q + rem, rem == 0, c == q;
    } else {
        assert(n - (c - 1) * m == rem) by (nonlinear_arith)
            requires n == m * q + rem, c == q + 1;
    }
}

/// The identifiers joined with `sep` between them.
pub open spec fn join_with(ids: Seq<Seq<char>>, sep: Seq<char>) -> Seq<char>
    decreases ids.len(),
{
    if ids.len() == 0 {
        seq![]
    } else if ids.len() == 1 {
        ids[0]
    } else {
        join_with(ids.drop_last(), sep) + sep + ids.last()
    }
}

fn join_range(ids: &Vec<String>, lo: usize, hi: usize, sep: &str, out: &mut Vec<char>)
    requires
        lo <= hi <= ids.len(),
    ensures
        final(out)@ == old(out)@ + join_with(string_views(ids@).subrange(lo as int, hi as int), sep@),
{
    let ghost all = string_views(ids@);
    let ghost start = old(out)@;
    let mut i: usize = lo;
    proof {
        assert(all.subrange(lo as int, lo as int).len() == 0);
        assert(out@ =~= start + join_with(all.subrange(lo as int, lo as int), sep@));
    }
    while i < hi
        invariant
            lo <= i <= hi <= ids.len(),
            all == string_views(ids@),
            out@ == start + join_with(all.subrange(lo as int, i as int), sep@),
        decreases hi - i,
    {
        if i > lo {
            push_str_chars(out, sep);
        }
        push_str_chars(out, ids[i].as_str());
        i = i + 1;
        proof {
            let q = all.subrange(lo as int, i as int);
            assert(q.drop_last() =~= all.subrange(lo as int, i - 1));
            assert(q.last() == ids@[i - 1]@);
            if i - 1 == lo {
                assert(q.len() == 1);
            }
            assert(out@ =~= start + join_with(q, sep@));
        }
    }
}

/// The largest batch the metadata API of a kind of video accepts.
pub open spec fn max_batch_of(p: VideoType) -> int {
    match p {
        VideoType::YouTube => 50,
        _ => 100,
    }
}

pub fn max_batch(p: VideoType) -> (r: usize)
    ensures
        r == max_batch_of(p),
{
    match p {
        VideoType::YouTube => 50,
        _ => 100,
    }
}

/// The metadata request for one batch of identifiers.
pub open spec fn batch_url(p: VideoType, ids: Seq<Seq<char>>, key: Seq<char>) -> Seq<char> {
    match p {
        VideoType::YouTube => "https://youtube.googleapis.com/youtube/v3/videos?part=snippet%2CcontentDetails%2Cstatistics&id="@
            + join_with(ids, "%2C"@) + "&maxResults=50&key="@ + key,
        VideoType::Clip => "https://api.twitch.tv/helix/clips/?id="@ + join_with(ids, "&id="@),
        _ => "https://api.twitch.tv/helix/videos/?id="@ + join_with(ids, "&id="@),
    }
}

/// Drains identifiers batch by batch: each call of `next_request` hands out the
/// request for the next batch, and `accept` adds what a response held.
pub struct BatchResolver<T> {
    pub ids: Vec<String>,
    pub bounds: Vec<(usize, usize)>,
    pub next: usize,
    pub platform: VideoType,
    pub key: String,
    pub items: Vec<T>,
}

impl<T> BatchResolver<T> {
    pub open spec fn well_formed(&self) -> bool {
        &&& self.bounds.len() == batch_count(self.ids.len() as int, max_batch_of(self.platform))
        &&& forall|k: int|
            0 <= k < self.bounds.len() ==> #[trigger] self.bounds@[k].0 == k * max_batch_of(
                self.platform,
            ) && self.bounds@[k].1 == batch_end(
                self.ids.len() as int,
                max_batch_of(self.platform),
                k,
            )
        &&& self.next <= self.bounds.len()
    }

    /// The identifiers of batch `k`.
    pub open spec fn batch(&self, k: int) -> Seq<Seq<char>> {
        string_views(self.ids@).subrange(self.bounds@[k].0 as int, self.bounds@[k].1 as int)
    }

    /// A resolver for `ids`; `key` is the API key sent with YouTube requests.
    pub fn new(ids: Vec<String>, platform: VideoType, key: String) -> (r: Self)
        ensures
            r.well_formed(),
            r.ids@ == ids@,
            r.next == 0,
            r.platform == platform,
            r.key@ == key@,
            r.items@ == Seq::<T>::empty(),
    {
        let max = max_batch(platform);
        let bounds = split_batches(ids.len(), max);
        BatchResolver { ids, bounds, next: 0, platform, key, items: Vec::new() }
    }

    /// The request for the next batch, or `None` once every batch has been handed out.
    pub fn next_request(&mut self) -> (r: Option<String>)
        requires
            old(self).well_formed(),
        ensures
            final(self).well_formed(),
            final(self).ids == old(self).ids,
            final(self).bounds == old(self).bounds,
            final(self).platform == old(self).platform,
            final(self).key == old(self).key,
            final(self).items == old(self).items,
            old(self).next < old(self).bounds.len() ==> final(self).next == old(self).next + 1
                && r is Some && r->0@ == batch_url(
                old(self).platform,
                old(self).batch(old(self).next as int),
                old(self).key@,
            ),
            old(self).next >= old(self).bounds.len() ==> final(self).next == old(self).next
                && r is None,
    {
        if self.next >= self.bounds.len() {
            return None;
        }
        let (lo, hi) = self.bounds[self.next];
        proof {
            let k = self.next as int;
            let m = max_batch_of(self.platform);
            let n = self.ids.len() as int;
            assert(self.bounds@[k].0 == k * m);
            assert(k <= batch_count(n, m) - 1);
            assert(k * m <= (batch_count(n, m) - 1) * m) by (nonlinear_arith)
                requires k <= batch_count(n, m) - 1, m > 0;
            assert((batch_count(n, m) - 1) * m < n || n == 0) by {
                if n > 0 {
                    lemma_batch_sizes(n, m);
                }
            }
            assert(lo <= hi);
        }
        let mut out: Vec<char> = Vec::new();
        match self.platform {
            VideoType::YouTube => {
                push_str_chars(
                    &mut out,
                    "https://youtube.googleapis.com/youtube/v3/videos?part=snippet%2CcontentDetails%2Cstatistics&id=",
                );
                join_range(&self.ids, lo, hi, "%2C", &mut out);
                push_str_chars(&mut out, "&maxResults=50&key=");
                push_str_chars(&mut out, self.key.as_str());
            },
            VideoType::Clip => {
                push_str_chars(&mut out, "https://api.twitch.tv/helix/clips/?id=");
                join_range(&self.ids, lo, hi, "&id=", &mut out);
            },
            _ => {
                push_str_chars(&mut out, "https://api.twitch.tv/helix/videos/?id=");
                join_range(&self.ids, lo, hi, "&id=", &mut out);
            },
        }
        self.next = self.next + 1;
        proof {
            assert(self.bounds == old(self).bounds);
            assert(self.ids == old(self).ids);
            assert(self.platform == old(self).platform);
            assert(out@ =~= batch_url(
                self.platform,
                old(self).batch(old(self).next as int),
                self.key@,
            ));
        }
        Some(string_of(&out))
    }

    /// Adds the items of a response; a response that could not be read adds nothing.
    pub fn accept(&mut self, page: Option<Vec<T>>)
        ensures
            final(self).ids == old(self).ids,
            final(self).bounds == old(self).bounds,
            final(self).next == old(self).next,
            final(self).platform == old(self).platform,
            final(self).key == old(self).key,
            final(self).items@ == match page {
                Some(v) => old(self).items@ + v@,
                None => old(self).items@,
            },
    {
        if let Some(mut v) = page {
            self.items.append(&mut v);
        }
    }
}

/// Direct identifiers that resolved to nothing are reported as `NoMatches`.
pub fn matches_or_error<T>(info: Vec<T>) -> (r: Result<Vec<T>, Error>)
    ensures
        info.len() == 0 <==> r is Err,
        r is Err ==> r->Err_0 == Error::NoMatches,
        r is Ok ==> r->Ok_0@ == info@,
{
    if info.len() == 0 {
        Err(Error::NoMatches)
    } else {
        Ok(info)
    }
}

/// The resolver for a comma-separated list of identifiers and links: the
/// canonical identifiers it names, in order, ready to be batched.
pub fn direct_resolver<T>(data: &str, platform: VideoType, key: String) -> (r: BatchResolver<T>)
    ensures
        r.well_formed(),
        string_views(r.ids@) == matched_ids(input_tokens(data@), id_patterns(platform)),
        r.next == 0,
        r.platform == platform,
        r.key@ == key@,
        r.items@ == Seq::<T>::empty(),
{
    let ids = ids_from_input(data, platform);
    BatchResolver::new(ids, platform, key)
}

/// Input that no pattern recognizes resolves to no identifier, so the resolver
/// has no batch and makes no request, and the run reports `NoMatches`.
pub proof fn lemma_unmatched_input_makes_no_request(data: Seq<char>, platform: VideoType)
    requires
        forall|i: int|
            0 <= i < input_tokens(data).len() ==> first_match(
                id_patterns(platform),
                #[trigger] input_tokens(data)[i],
            ) is None,
    ensures
        matched_ids(input_tokens(data), id_patterns(platform)).len() == 0,
        batch_count(0, max_batch_of(platform)) == 0,
{
    lemma_unmatched_tokens_give_no_ids(input_tokens(data), id_patterns(platform));
    let m = max_batch_of(platform);
    vstd::arithmetic::div_mod::lemma_fundamental_div_mod_converse(m - 1, m, 0, m - 1);
}

/// Batching laws for a resolver of any platform: with `n > 0` identifiers and
/// the platform's limit `m` (100 for Twitch, 50 for YouTube), the resolver
/// hands out `ceil(n / m)` requests; request `k` carries identifiers
/// `k * m` up to `min((k + 1) * m, n)`, between one and `m` of them; and the
/// last carries `n mod m`, or `m` when `m` divides `n`.
pub proof fn lemma_resolver_batches<T>(r: BatchResolver<T>)
    requires
        r.well_formed(),
        r.ids.len() > 0,
    ensures
        ({
            let n = r.ids.len() as int;
            let m = max_batch_of(r.platform);
            &&& r.bounds.len() == batch_count(n, m)
            &&& forall|k: int|
                0 <= k < r.bounds.len() ==> #[trigger] r.bounds@[k].0 == k * m && r.bounds@[k].1
                    == batch_end(n, m, k) && 0 < r.bounds@[k].1 - r.bounds@[k].0 <= m
            &&& r.bounds@[r.bounds.len() - 1].1 - r.bounds@[r.bounds.len() - 1].0 == (if n % m
                == 0 {
                m
            } else {
                n % m
            })
        }),
{
    let n = r.ids.len() as int;
    let m = max_batch_of(r.platform);
    lemma_batch_sizes(n, m);
    assert forall|k: int| 0 <= k < r.bounds.len() implies #[trigger] r.bounds@[k].0 == k * m
        && r.bounds@[k].1 == batch_end(n, m, k) && 0 < r.bounds@[k].1 - r.bounds@[k].0 <= m by {
        assert(0 < batch_size(n, m, k) <= m);
    }
    let last = r.bounds.len() - 1;
    assert(0 < batch_size(n, m, last));
}

} // verus!
