//! The computing half of the catalogue and stream lookups: what is asked of
//! the Discogs search service and how its releases become tracks, and what
//! is asked of yt-dlp and how its output becomes a watch URL.
use vstd::prelude::*;

use crate::decimal::{decimal, decimal_string, parse_u16, parse_u16_exec};
use crate::models::{copy_opt, opt_view, Track};
use crate::text::{
    chars_of, find, find_exec, is_white_space, law_trim_idempotent, lemma_find_first_occurrence,
    lemma_strip_back_kept, lemma_strip_back_prefix, lemma_strip_front_kept, lemma_strip_front_suffix, occurs_at, strip_front, push_chars, push_str, string_of, string_of_all, strip_both_bounds,
    trim, Strip,
};

verus! {

/// The address of the Discogs database search.
pub const DISCOGS_SEARCH_URL: &'static str = "https://api.discogs.com/database/search";

/// The `User-Agent` that the search requests carry.
pub const USER_AGENT: &'static str = "harp-rs/0.1 +https://github.com/divpreeet";

/// The program that looks up stream URLs.
pub const YTDLP_PROGRAM: &'static str = "yt-dlp";

/// A release as the Discogs search lists it.
#[derive(Debug, Clone)]
pub struct DiscogsRelease {
    pub title: String,
    pub year: Option<String>,
    pub cover_image: Option<String>,
    pub thumb: Option<String>,
    pub id: Option<u32>,
    pub resource_url: Option<String>,
}

/// The two halves of a release title `artist - title`, each trimmed; where the
/// title holds no ` - `, the artist is `unknown artist` and the whole title,
/// trimmed, is the title.
pub open spec fn split_artist_parts(s: Seq<char>) -> (Seq<char>, Seq<char>) {
    match find(s, " - "@) {
        Some(i) => (trim(s.take(i)), trim(s.skip(i + 3))),
        None => ("unknown artist"@, trim(s)),
    }
}

/// Splits a release title at its first ` - ` into artist and title.
pub fn split_artist(s: &str) -> (r: (String, String))
    ensures
        (r.0@, r.1@) == split_artist_parts(s@),
{
    let v = chars_of(s);
    let sep = chars_of(" - ");
    assert(sep@.len() == 3) by {
        reveal_strlit(" - ");
    }
    match find_exec(&v, &sep) {
        Some(i) => {
            assert(occurs_at(v@, sep@, i as int));
            assert(i + 3 <= v@.len());
            let n = v.len();
            let (a, b) = strip_both_bounds(&v, 0, i, Strip::WhiteSpace);
            let (c, d) = strip_both_bounds(&v, i + 3, n, Strip::WhiteSpace);
            assert(s@.take(i as int) =~= v@.subrange(0, i as int));
            assert(s@.skip(i + 3) =~= v@.subrange(i + 3, v@.len() as int));
            (string_of(&v, a, b), string_of(&v, c, d))
        },
        None => {
            let mut artist = String::new();
            push_str(&mut artist, "unknown artist");
            let (c, d) = strip_both_bounds(&v, 0, v.len(), Strip::WhiteSpace);
            assert(s@ =~= v@.subrange(0, v@.len() as int));
            (artist, string_of(&v, c, d))
        },
    }
}

/// The year of a release, where its text is a `u16` numeral.
pub open spec fn release_year(year: Option<String>) -> Option<u16> {
    match year {
        Some(y) => parse_u16(y@),
        None => None,
    }
}

/// The identifier of the track made from a release: its resource URL, else
/// its numeric id in decimal, else the two halves of its title joined by `-`.
pub open spec fn release_track_id(item: DiscogsRelease) -> Seq<char> {
    let (first, second) = split_artist_parts(item.title@);
    match item.resource_url {
        Some(u) => u@,
        None => match item.id {
            Some(i) => decimal(i as nat),
            None => first + "-"@ + second,
        },
    }
}

/// The track that a release becomes. The first half of the release title
/// (the artist part) becomes the track's title and the second half its
/// artist; the artwork is the cover image, else the thumbnail.
pub open spec fn is_release_track(item: DiscogsRelease, t: Track) -> bool {
    let (first, second) = split_artist_parts(item.title@);
    &&& t.id@ == release_track_id(item)
    &&& t.title@ == first
    &&& opt_view(t.artist) == Some(second)
    &&& t.album is None
    &&& t.year == release_year(item.year)
    &&& t.artwork == (if item.cover_image is Some {
        item.cover_image
    } else {
        item.thumb
    })
}

/// Makes the track for one release of a search.
pub fn release_to_track(item: &DiscogsRelease) -> (t: Track)
    ensures
        is_release_track(*item, t),
{
    let (first, second) = split_artist(&item.title);
    let id = match &item.resource_url {
        Some(u) => u.clone(),
        None => match item.id {
            Some(i) => decimal_string(i as u64),
            None => {
                let mut s = first.clone();
                push_str(&mut s, "-");
                let w = chars_of(second.as_str());
                push_chars(&mut s, &w, 0, w.len());
                assert(w@.subrange(0, w@.len() as int) =~= second@);
                s
            },
        },
    };
    let year = match &item.year {
        Some(y) => parse_u16_exec(y.as_str()),
        None => None,
    };
    let artwork = if item.cover_image.is_some() {
        copy_opt(&item.cover_image)
    } else {
        copy_opt(&item.thumb)
    };
    Track { id, title: first, artist: Some(second), album: None, year, artwork }
}

/// Makes the tracks for the releases of a search, in order.
pub fn tracks_from_releases(items: &Vec<DiscogsRelease>) -> (ts: Vec<Track>)
    ensures
        ts@.len() == items@.len(),
        forall|i: int| 0 <= i < items@.len() ==> is_release_track(items@[i], #[trigger] ts@[i]),
{
    let mut ts: Vec<Track> = Vec::new();
    let mut i: usize = 0;
    while i < items.len()
        invariant
            0 <= i <= items@.len(),
            ts@.len() == i,
            forall|k: int| 0 <= k < i ==> is_release_track(items@[k], #[trigger] ts@[k]),
        decreases items@.len() - i,
    {
        let t = release_to_track(&items[i]);
        ts.push(t);
        i += 1;
    }
    ts
}

/// What a search is made with: `None` where the query is blank, so that no
/// request is sent and the result is empty; otherwise the trimmed query.
pub open spec fn search_text(query: Seq<char>) -> Option<Seq<char>> {
    if trim(query).len() == 0 {
        None
    } else {
        Some(trim(query))
    }
}

/// The text that a search sends for `query`, `None` for a blank query.
pub fn search_query(query: &str) -> (r: Option<String>)
    ensures
        opt_view(r) == search_text(query@),
{
    let v = chars_of(query);
    let (a, b) = strip_both_bounds(&v, 0, v.len(), Strip::WhiteSpace);
    assert(query@ =~= v@.subrange(0, v@.len() as int));
    if a == b {
        None
    } else {
        Some(string_of(&v, a, b))
    }
}

/// The query parameters of a release search for `q`: the text, releases only,
/// ten results per page.
pub fn search_params(q: &str) -> (ps: Vec<(String, String)>)
    ensures
        ps@.len() == 3,
        ps@[0].0@ == "q"@ && ps@[0].1@ == q@,
        ps@[1].0@ == "type"@ && ps@[1].1@ == "release"@,
        ps@[2].0@ == "per_page"@ && ps@[2].1@ == "10"@,
{
    let mut ps: Vec<(String, String)> = Vec::new();
    ps.push((literal("q"), literal(q)));
    ps.push((literal("type"), literal("release")));
    ps.push((literal("per_page"), literal("10")));
    ps
}

/// An owned copy of a string slice.
pub fn literal(s: &str) -> (r: String)
    ensures
        r@ == s@,
{
    let mut r = String::new();
    push_str(&mut r, s);
    assert(r@ =~= s@);
    r
}

/// The yt-dlp query for the best match of a track: `ytsearch1:` followed by
/// `artist - title topic`.
pub fn youtube_search_query(artist: &str, title: &str) -> (q: String)
    ensures
        q@ == "ytsearch1:"@ + artist@ + " - "@ + title@ + " topic"@,
{
    let mut q = String::new();
    push_str(&mut q, "ytsearch1:");
    push_str(&mut q, artist);
    push_str(&mut q, " - ");
    push_str(&mut q, title);
    push_str(&mut q, " topic");
    q
}

/// The first line of `s` as `str::lines` yields it: up to the first line
/// feed, without a carriage return just before that line feed; `None` for
/// the empty text.
pub open spec fn first_line(s: Seq<char>) -> Option<Seq<char>> {
    if s.len() == 0 {
        None
    } else {
        match find(s, "\n"@) {
            None => Some(s),
            Some(i) => if i > 0 && s[i - 1] == '\r' {
                Some(s.take(i - 1))
            } else {
                Some(s.take(i))
            },
        }
    }
}

/// The watch URL for the video id that yt-dlp prints first.
pub open spec fn watch_url_of(output: Seq<char>) -> Seq<char> {
    let line = match first_line(output) {
        Some(l) => l,
        None => Seq::empty(),
    };
    "https://www.youtube.com/watch?v="@ + trim(line)
}

/// The watch URL for the first line of yt-dlp's output.
pub fn watch_url(output: &str) -> (u: String)
    ensures
        u@ == watch_url_of(output@),
{
    let v = chars_of(output);
    let nl = chars_of("\n");
    let mut end: usize = 0;
    if v.len() > 0 {
        assert(nl@.len() == 1) by {
            reveal_strlit("\n");
        }
        end = match find_exec(&v, &nl) {
            None => v.len(),
            Some(i) => if i > 0 && v[i - 1] == '\r' {
                i - 1
            } else {
                i
            },
        };
    }
    let (a, b) = strip_both_bounds(&v, 0, end, Strip::WhiteSpace);
    proof {
        if v@.len() == 0 {
            assert(v@.subrange(0, 0) =~= Seq::<char>::empty());
        } else {
            match find(v@, nl@) {
                None => assert(v@.subrange(0, end as int) =~= v@),
                Some(i) => {
                    if i > 0 && v@[i - 1] == '\r' {
                        assert(v@.subrange(0, end as int) =~= v@.take(i - 1));
                    } else {
                        assert(v@.subrange(0, end as int) =~= v@.take(i));
                    }
                },
            }
        }
    }
    let mut u = String::new();
    push_str(&mut u, "https://www.youtube.com/watch?v=");
    push_chars(&mut u, &v, a, b);
    u
}

/// The text of bytes that may not be UTF-8, as `String::from_utf8_lossy`
/// decodes them.
pub uninterp spec fn utf8_lossy(bytes: Seq<u8>) -> Seq<char>;

/// Decodes process output as `String::from_utf8_lossy` does: valid UTF-8 as
/// it is, each invalid sequence as U+FFFD. The contract names the result and
/// states it for valid UTF-8 only.
#[verifier::external_body]
fn lossy_text(bytes: &[u8]) -> (s: String)
    ensures
        s@ == utf8_lossy(bytes@),
        vstd::utf8::valid_utf8(bytes@) ==> s@ == vstd::utf8::decode_utf8(bytes@),
{
    String::from_utf8_lossy(bytes).into_owned()
}

/// Why a stream lookup failed.
#[derive(Debug, Clone, PartialEq, Eq)]
pub enum LookupError {
    /// yt-dlp exited with a failure; the text is the error message.
    YtdlpFailed(String),
}

/// What a yt-dlp run that printed `stdout` and `stderr` gives: where it
/// failed, the message `ytdlp failed to extract url ` followed by its
/// error output; otherwise the watch URL of the first line of its output.
pub open spec fn lookup_result(success: bool, stdout: Seq<u8>, stderr: Seq<u8>) -> Result<
    Seq<char>,
    Seq<char>,
> {
    if success {
        Ok(watch_url_of(utf8_lossy(stdout)))
    } else {
        Err("ytdlp failed to extract url "@ + utf8_lossy(stderr))
    }
}

/// The watch URL, or the error, that a finished yt-dlp run gives.
pub fn url_from_ytdlp(success: bool, stdout: &[u8], stderr: &[u8]) -> (r: Result<String, LookupError>)
    ensures
        match r {
            Ok(u) => lookup_result(success, stdout@, stderr@) == Ok::<Seq<char>, Seq<char>>(u@),
            Err(LookupError::YtdlpFailed(m)) => lookup_result(success, stdout@, stderr@) == Err::<
                Seq<char>,
                Seq<char>,
            >(m@),
        },
{
    if !success {
        let mut m = String::new();
        push_str(&mut m, "ytdlp failed to extract url ");
        let e = lossy_text(stderr);
        let w = chars_of(e.as_str());
        push_chars(&mut m, &w, 0, w.len());
        assert(w@.subrange(0, w@.len() as int) =~= e@);
        return Err(LookupError::YtdlpFailed(m));
    }
    let out = lossy_text(stdout);
    Ok(watch_url(out.as_str()))
}

/// A trimmed text has a kept front and back.
proof fn lemma_trimmed_ends(s: Seq<char>)
    requires
        trim(s) == s,
    ensures
        s.len() > 0 ==> !is_white_space(s[0]) && !is_white_space(s.last()),
{
    let k = Strip::WhiteSpace;
    lemma_strip_front_kept(s, k);
    lemma_strip_back_kept(strip_front(s, k), k);
}

/// Splitting the title `artist - title` gives the artist and the title back,
/// for every trimmed artist that holds no ` - ` and does not end in ` -`, and
/// every trimmed title.
pub proof fn law_split_artist_of_joined(a: Seq<char>, t: Seq<char>)
    requires
        trim(a) == a,
        trim(t) == t,
        find(a, " - "@) is None,
        !(a.len() >= 2 && a[a.len() - 2] == ' ' && a[a.len() - 1] == '-'),
    ensures
        split_artist_parts(a + " - "@ + t) == (a, t),
{
    reveal_strlit(" - ");
    let sep = " - "@;
    let s = a + sep + t;
    let n = a.len() as int;
    lemma_trimmed_ends(a);
    assert(s.subrange(n, n + 3) =~= sep);
    assert forall|j: int| 0 <= j < n implies !occurs_at(s, sep, j) by {
        if occurs_at(s, sep, j) {
            if j + 3 <= n {
                assert(a.subrange(j, j + 3) =~= s.subrange(j, j + 3));
                assert(occurs_at(a, sep, j));
            } else if j == n - 1 {
                assert(s.subrange(j, j + 3)[0] == a.last());
                assert(is_white_space(' '));
            } else {
                assert(j == n - 2);
                assert(s.subrange(j, j + 3)[0] == a[n - 2]);
                assert(s.subrange(j, j + 3)[1] == a[n - 1]);
            }
        }
    }
    lemma_find_first_occurrence(s, sep, n);
    assert(s.take(n) =~= a);
    assert(s.skip(n + 3) =~= t);
}

/// Searching for an already trimmed query searches for the same text: the
/// player trims the query it hands on, and the search trims it again to no
/// effect.
pub proof fn law_search_text_of_trimmed(q: Seq<char>)
    ensures
        search_text(trim(q)) == search_text(q),
{
    law_trim_idempotent(q);
}

/// The watch URL of output that begins with a trimmed video id on a line of
/// its own is the URL of that id.
pub proof fn law_watch_url_of_printed_id(id: Seq<char>, rest: Seq<char>)
    requires
        trim(id) == id,
        !id.contains('\n'),
    ensures
        watch_url_of(id + "\n"@ + rest) == "https://www.youtube.com/watch?v="@ + id,
{
    reveal_strlit("\n");
    let nl = "\n"@;
    let s = id + nl + rest;
    let n = id.len() as int;
    lemma_trimmed_ends(id);
    assert(s.subrange(n, n + 1) =~= nl);
    assert forall|j: int| 0 <= j < n implies !occurs_at(s, nl, j) by {
        if occurs_at(s, nl, j) {
            assert(s.subrange(j, j + 1)[0] == id[j]);
        }
    }
    lemma_find_first_occurrence(s, nl, n);
    assert(s.take(n) =~= id);
    if n > 0 {
        assert(s[n - 1] == id.last());
        assert(is_white_space('\r'));
    }
}

/// A release titled `artist - title` becomes a track whose title is the
/// artist half and whose artist is the title half, for the titles that
/// `law_split_artist_of_joined` splits back.
pub proof fn law_release_track_of_joined_title(item: DiscogsRelease, t: Track, a: Seq<char>, b: Seq<char>)
    requires
        is_release_track(item, t),
        item.title@ == a + " - "@ + b,
        trim(a) == a,
        trim(b) == b,
        find(a, " - "@) is None,
        !(a.len() >= 2 && a[a.len() - 2] == ' ' && a[a.len() - 1] == '-'),
    ensures
        t.title@ == a,
        opt_view(t.artist) == Some(b),
{
    law_split_artist_of_joined(a, b);
}

/// A search is for exactly the query without its outer white space: nothing
/// where the query is all white space; otherwise the stretch of the query
/// that begins and ends with a character that is not white space and has
/// only white space before and after it.
pub proof fn law_search_text_is_query_without_outer_space(q: Seq<char>)
    ensures
        search_text(q) is None <==> forall|i: int| 0 <= i < q.len() ==> is_white_space(#[trigger] q[i]),
        search_text(q) matches Some(t) ==> exists|i: int, j: int|
            {
                &&& 0 <= i < j <= q.len()
                &&& t == #[trigger] q.subrange(i, j)
                &&& forall|k: int| 0 <= k < i ==> is_white_space(#[trigger] q[k])
                &&& forall|k: int| j <= k < q.len() ==> is_white_space(#[trigger] q[k])
                &&& !is_white_space(t[0])
                &&& !is_white_space(t.last())
            },
{
    let ws = Strip::WhiteSpace;
    let k = lemma_strip_front_suffix(q, ws);
    let u = q.subrange(k, q.len() as int);
    let j = lemma_strip_back_prefix(u, ws);
    lemma_strip_front_kept(q, ws);
    lemma_strip_back_kept(u, ws);
    let t = trim(q);
    assert(t == u.subrange(0, j));
    assert(t =~= q.subrange(k, k + j));
    assert forall|m: int| k + j <= m < q.len() implies is_white_space(#[trigger] q[m]) by {
        assert(q[m] == u[m - k]);
    }
    if t.len() == 0 {
        assert forall|m: int| 0 <= m < q.len() implies is_white_space(#[trigger] q[m]) by {
            if m >= k {
                assert(q[m] == u[m - k]);
            }
        }
    } else {
        assert(t[0] == q[k]);
        assert(!(forall|m: int| 0 <= m < q.len() ==> is_white_space(#[trigger] q[m])));
        assert(0 <= k < k + j <= q.len());
    }
}

} // verus!
