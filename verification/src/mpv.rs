//! The JSON IPC protocol spoken with the mpv player: the commands sent to it
//! and the reading of the values in its replies.
use vstd::prelude::*;

use crate::decimal::{push_signed_decimal, signed_decimal};
use crate::text::{
    chars_of, find, find_exec, is_white_space, lemma_find_first_occurrence,
    lemma_strip_back_of_kept, lemma_strip_front_of_kept, occurs_at, push_str, starts_with, starts_with_at, string_of, strip_both,
    strip_back, strip_both_bounds, strip_front, strip_front_index, trim, trim_start, Strip,
};

verus! {

/// Whether `c` ends the value of a field in an mpv reply.
pub open spec fn is_value_end(c: char) -> bool {
    c == ',' || c == '}' || c == '\n'
}

/// The length of the longest prefix of `s` that holds no value end.
pub open spec fn value_len(s: Seq<char>) -> nat
    decreases s.len(),
{
    if s.len() == 0 || is_value_end(s[0]) {
        0
    } else {
        1 + value_len(s.drop_first())
    }
}

/// The value of the `data` field of an mpv reply, as the player reads it:
/// what follows the first `"data":`, without leading white space; `None`
/// for `null`; `true` and `false` as they are; otherwise the text up to the
/// first `,`, `}` or line feed, trimmed of white space and then of double
/// quotes, `None` where that leaves nothing.
pub open spec fn mpv_data_value(response: Seq<char>) -> Option<Seq<char>> {
    match find(response, "\"data\":"@) {
        None => None,
        Some(i) => {
            let s = trim_start(response.skip(i + "\"data\":"@.len()));
            if starts_with(s, "null"@) {
                None
            } else if starts_with(s, "true"@) {
                Some("true"@)
            } else if starts_with(s, "false"@) {
                Some("false"@)
            } else {
                let v = strip_both(trim(s.take(value_len(s) as int)), Strip::Quote);
                if v.len() == 0 {
                    None
                } else {
                    Some(v)
                }
            }
        },
    }
}

/// The index of the first value end in `v[lo..]`, or the length of `v`.
fn value_end_index(v: &Vec<char>, lo: usize) -> (e: usize)
    requires
        lo <= v@.len(),
    ensures
        lo <= e <= v@.len(),
        e - lo == value_len(v@.subrange(lo as int, v@.len() as int)),
{
    let mut e = lo;
    while e < v.len() && !(v[e] == ',' || v[e] == '}' || v[e] == '\n')
        invariant
            lo <= e <= v@.len(),
            value_len(v@.subrange(lo as int, v@.len() as int)) == (e - lo) + value_len(
                v@.subrange(e as int, v@.len() as int),
            ),
        decreases v@.len() - e,
    {
        assert(v@.subrange(e as int, v@.len() as int).drop_first() =~= v@.subrange(
            e + 1,
            v@.len() as int,
        ));
        e += 1;
    }
    e
}

/// Reads the value of the `data` field of an mpv reply.
pub fn extract_mpv_data_value(response: &str) -> (r: Option<String>)
    ensures
        r matches Some(s) ==> mpv_data_value(response@) == Some(s@),
        r is None ==> mpv_data_value(response@) is None,
{
    let v = chars_of(response);
    let key = chars_of("\"data\":");
    let found = find_exec(&v, &key);
    let at = match found {
        None => {
            return None;
        },
        Some(at) => at,
    };
    let n = v.len();
    let lo = at + key.len();
    let start = strip_front_index(&v, lo, n, Strip::WhiteSpace);
    let ghost s = trim_start(response@.skip(at + "\"data\":"@.len()));
    assert(response@.skip(at + "\"data\":"@.len()) =~= v@.subrange(lo as int, n as int));
    assert(s == v@.subrange(start as int, n as int));
    if starts_with_at(&v, start, &chars_of("null")) {
        return None;
    }
    if starts_with_at(&v, start, &chars_of("true")) {
        let mut t = String::new();
        push_str(&mut t, "true");
        assert(t@ =~= "true"@);
        return Some(t);
    }
    if starts_with_at(&v, start, &chars_of("false")) {
        let mut t = String::new();
        push_str(&mut t, "false");
        assert(t@ =~= "false"@);
        return Some(t);
    }
    let end = value_end_index(&v, start);
    assert(s.take(value_len(s) as int) =~= v@.subrange(start as int, end as int));
    let (a, b) = strip_both_bounds(&v, start, end, Strip::WhiteSpace);
    let (c, d) = strip_both_bounds(&v, a, b, Strip::Quote);
    if c == d {
        assert(v@.subrange(c as int, d as int).len() == 0);
        None
    } else {
        Some(string_of(&v, c, d))
    }
}

/// What an mpv reply value reads as a flag: `true` and `false` are flags,
/// anything else is not.
pub open spec fn mpv_flag(value: Seq<char>) -> Option<bool> {
    if value == "true"@ {
        Some(true)
    } else if value == "false"@ {
        Some(false)
    } else {
        None
    }
}

/// Whether two character sequences are equal.
fn chars_equal(a: &Vec<char>, b: &Vec<char>) -> (r: bool)
    ensures
        r == (a@ == b@),
{
    if a.len() != b.len() {
        return false;
    }
    let mut i: usize = 0;
    while i < a.len()
        invariant
            a@.len() == b@.len(),
            0 <= i <= a@.len(),
            forall|k: int| 0 <= k < i ==> a@[k] == b@[k],
        decreases a@.len() - i,
    {
        if a[i] != b[i] {
            return false;
        }
        i += 1;
    }
    assert(a@ =~= b@);
    true
}

/// Reads a reply value as a flag (`true` or `false`).
pub fn mpv_bool_value(value: &str) -> (r: Option<bool>)
    ensures
        r == mpv_flag(value@),
{
    let v = chars_of(value);
    if chars_equal(&v, &chars_of("true")) {
        Some(true)
    } else if chars_equal(&v, &chars_of("false")) {
        Some(false)
    } else {
        None
    }
}

/// The command that asks mpv for the value of `property`.
pub fn get_property_command(property: &str) -> (c: String)
    ensures
        c@ == "{\"command\":[\"get_property\",\""@ + property@ + "\"]}"@,
{
    let mut c = String::new();
    push_str(&mut c, "{\"command\":[\"get_property\",\"");
    push_str(&mut c, property);
    push_str(&mut c, "\"]}");
    c
}

/// The command that pauses mpv or resumes playback.
pub fn cycle_pause_command() -> (c: String)
    ensures
        c@ == "{\"command\":[\"cycle\",\"pause\"]}"@,
{
    let mut c = String::new();
    push_str(&mut c, "{\"command\":[\"cycle\",\"pause\"]}");
    assert(c@ =~= "{\"command\":[\"cycle\",\"pause\"]}"@);
    c
}

/// The command that moves playback by `offset` seconds.
pub fn seek_command(offset: i64) -> (c: String)
    ensures
        c@ == "{\"command\":[\"seek\","@ + signed_decimal(offset as int) + ",\"relative\"]}"@,
{
    let mut c = String::new();
    push_str(&mut c, "{\"command\":[\"seek\",");
    push_signed_decimal(&mut c, offset);
    push_str(&mut c, ",\"relative\"]}");
    c
}

/// The arguments with which mpv is started to play `url` without video,
/// listening for commands on `socket_path`.
pub fn mpv_load_args(socket_path: &str, url: &str) -> (args: Vec<String>)
    ensures
        args@.len() == 3,
        args@[0]@ == "--no-video"@,
        args@[1]@ == "--input-ipc-server="@ + socket_path@,
        args@[2]@ == url@,
{
    let mut a = String::new();
    push_str(&mut a, "--no-video");
    assert(a@ =~= "--no-video"@);
    let mut b = String::new();
    push_str(&mut b, "--input-ipc-server=");
    push_str(&mut b, socket_path);
    let mut u = String::new();
    push_str(&mut u, url);
    assert(u@ =~= url@);
    let mut args: Vec<String> = Vec::new();
    args.push(a);
    args.push(b);
    args.push(u);
    args
}

/// The value stretches to the first value end.
proof fn lemma_value_len_of_value(v: Seq<char>, r: Seq<char>)
    requires
        forall|i: int| 0 <= i < v.len() ==> !is_value_end(#[trigger] v[i]),
        r.len() > 0,
        is_value_end(r[0]),
    ensures
        value_len(v + r) == v.len(),
    decreases v.len(),
{
    if v.len() == 0 {
        assert(v + r =~= r);
    } else {
        assert((v + r)[0] == v[0]);
        assert((v + r).drop_first() =~= v.drop_first() + r);
        assert forall|i: int| 0 <= i < v.drop_first().len() implies !is_value_end(
            #[trigger] v.drop_first()[i],
        ) by {
            assert(v.drop_first()[i] == v[i + 1]);
        }
        lemma_value_len_of_value(v.drop_first(), r);
    }
}

/// The reply key `"data":` is found right after the opening brace.
proof fn lemma_find_data_key(rest: Seq<char>)
    ensures
        find("{"@ + "\"data\":"@ + rest, "\"data\":"@) == Some(1int),
{
    reveal_strlit("{");
    reveal_strlit("\"data\":");
    let key = "\"data\":"@;
    let s = "{"@ + key + rest;
    assert(s.subrange(1, 8) =~= key);
    assert(!occurs_at(s, key, 0)) by {
        if occurs_at(s, key, 0) {
            assert(s.subrange(0, 7)[0] == s[0]);
        }
    }
    lemma_find_first_occurrence(s, key, 1);
}

/// A reply that gives a plain value as its data, followed by the rest of the
/// reply, is read as that value: a value with no `,`, `}` or line feed in
/// it, that neither begins nor ends with white space or a double quote, and
/// that with the rest of the reply does not begin with `null`, `true` or
/// `false`.
pub proof fn law_reply_value_read_back(v: Seq<char>, rest: Seq<char>)
    requires
        v.len() > 0,
        forall|i: int| 0 <= i < v.len() ==> !is_value_end(#[trigger] v[i]),
        !is_white_space(v[0]) && !is_white_space(v.last()),
        v[0] != '"' && v.last() != '"',
        rest.len() > 0 && is_value_end(rest[0]),
        !starts_with(v + rest, "null"@),
        !starts_with(v + rest, "true"@),
        !starts_with(v + rest, "false"@),
    ensures
        mpv_data_value("{"@ + "\"data\":"@ + v + rest) == Some(v),
{
    reveal_strlit("{");
    reveal_strlit("\"data\":");
    let key = "\"data\":"@;
    let s = "{"@ + key + v + rest;
    assert("{"@ + key + v + rest =~= "{"@ + key + (v + rest));
    lemma_find_data_key(v + rest);
    assert(s.skip(8) =~= v + rest);
    assert((v + rest)[0] == v[0]);
    lemma_strip_front_of_kept(v + rest, Strip::WhiteSpace);
    lemma_value_len_of_value(v, rest);
    assert((v + rest).take(v.len() as int) =~= v);
    lemma_strip_front_of_kept(v, Strip::WhiteSpace);
    lemma_strip_back_of_kept(v, Strip::WhiteSpace);
    lemma_strip_front_of_kept(v, Strip::Quote);
    lemma_strip_back_of_kept(v, Strip::Quote);
}

/// A text that begins with a double quote is left alone by `trim_start` and
/// begins with none of the words `null`, `true` and `false`.
proof fn lemma_quote_start(v: Seq<char>)
    requires
        v.len() > 0,
        v[0] == '"',
    ensures
        trim_start(v) == v,
        !starts_with(v, "null"@),
        !starts_with(v, "true"@),
        !starts_with(v, "false"@),
{
    reveal_strlit("null");
    reveal_strlit("true");
    reveal_strlit("false");
    assert(!is_white_space('"'));
    lemma_strip_front_of_kept(v, Strip::WhiteSpace);
    assert(!starts_with(v, "null"@)) by {
        if starts_with(v, "null"@) {
            assert(v.take(4)[0] == v[0]);
        }
    }
    assert(!starts_with(v, "true"@)) by {
        if starts_with(v, "true"@) {
            assert(v.take(4)[0] == v[0]);
        }
    }
    assert(!starts_with(v, "false"@)) by {
        if starts_with(v, "false"@) {
            assert(v.take(5)[0] == v[0]);
        }
    }
}

/// Trimming a quoted text and then stripping its quotes leaves the text, for
/// a non-empty text with no double quote in it.
proof fn lemma_quoted_text_stripped(w: Seq<char>)
    requires
        w.len() > 0,
        forall|i: int| 0 <= i < w.len() ==> #[trigger] w[i] != '"',
    ensures
        strip_both(trim(seq!['"'] + w + seq!['"']), Strip::Quote) == w,
{
    let q = seq!['"'] + w + seq!['"'];
    assert(q[0] == '"' && q.last() == '"');
    assert(!is_white_space('"'));
    lemma_strip_front_of_kept(q, Strip::WhiteSpace);
    lemma_strip_back_of_kept(q, Strip::WhiteSpace);
    let inner = w + seq!['"'];
    assert(q.drop_first() =~= inner);
    assert(inner[0] == w[0]);
    lemma_strip_front_of_kept(inner, Strip::Quote);
    assert(strip_front(q, Strip::Quote) == inner);
    assert(inner.drop_last() =~= w);
    assert(w.last() == w[w.len() - 1]);
    lemma_strip_back_of_kept(w, Strip::Quote);
    assert(strip_back(inner, Strip::Quote) == w);
}

/// A reply that gives a quoted text as its data, followed by the rest of the
/// reply, is read as that text without its quotes: any non-empty text with
/// no double quote, `,`, `}` or line feed in it.
pub proof fn law_reply_quoted_text_read_back(w: Seq<char>, rest: Seq<char>)
    requires
        w.len() > 0,
        forall|i: int| 0 <= i < w.len() ==> !is_value_end(#[trigger] w[i]) && w[i] != '"',
        rest.len() > 0 && is_value_end(rest[0]),
    ensures
        mpv_data_value("{"@ + "\"data\":"@ + "\""@ + w + "\""@ + rest) == Some(w),
{
    reveal_strlit("{");
    reveal_strlit("\"data\":");
    reveal_strlit("\"");
    let key = "\"data\":"@;
    let q = seq!['"'] + w + seq!['"'];
    assert("\""@ + w + "\""@ =~= q);
    let v = q + rest;
    let s = "{"@ + key + "\""@ + w + "\""@ + rest;
    assert(s =~= "{"@ + key + v);
    lemma_find_data_key(v);
    assert(s.skip(8) =~= v);
    assert(v[0] == '"');
    lemma_quote_start(v);
    assert forall|i: int| 0 <= i < q.len() implies !is_value_end(#[trigger] q[i]) by {
        if 0 < i < q.len() - 1 {
            assert(q[i] == w[i - 1]);
        }
    }
    lemma_value_len_of_value(q, rest);
    assert(v.take(q.len() as int) =~= q);
    lemma_quoted_text_stripped(w);
}

/// A reply whose data is `null` has no value.
pub proof fn law_reply_null_has_no_value(rest: Seq<char>)
    ensures
        mpv_data_value("{"@ + "\"data\":"@ + "null"@ + rest) is None,
{
    reveal_strlit("{");
    reveal_strlit("\"data\":");
    reveal_strlit("null");
    let key = "\"data\":"@;
    let s = "{"@ + key + "null"@ + rest;
    assert(s =~= "{"@ + key + ("null"@ + rest));
    lemma_find_data_key("null"@ + rest);
    assert(s.skip(8) =~= "null"@ + rest);
    lemma_strip_front_of_kept("null"@ + rest, Strip::WhiteSpace);
    assert(("null"@ + rest).take(4) =~= "null"@);
}

/// A reply whose data is `true` is read as `true`.
proof fn lemma_reply_true(rest: Seq<char>)
    ensures
        mpv_data_value("{"@ + "\"data\":"@ + "true"@ + rest) == Some("true"@),
{
    reveal_strlit("{");
    reveal_strlit("\"data\":");
    reveal_strlit("null");
    reveal_strlit("true");
    let key = "\"data\":"@;
    let w = "true"@ + rest;
    let s = "{"@ + key + "true"@ + rest;
    assert(s =~= "{"@ + key + w);
    lemma_find_data_key(w);
    assert(s.skip(8) =~= w);
    lemma_strip_front_of_kept(w, Strip::WhiteSpace);
    assert(!starts_with(w, "null"@)) by {
        if starts_with(w, "null"@) {
            assert(w.take(4)[0] == w[0]);
        }
    }
    assert(w.take(4) =~= "true"@);
}

/// A reply whose data is `false` is read as `false`.
proof fn lemma_reply_false(rest: Seq<char>)
    ensures
        mpv_data_value("{"@ + "\"data\":"@ + "false"@ + rest) == Some("false"@),
{
    reveal_strlit("{");
    reveal_strlit("\"data\":");
    reveal_strlit("null");
    reveal_strlit("true");
    reveal_strlit("false");
    let key = "\"data\":"@;
    let w = "false"@ + rest;
    let s = "{"@ + key + "false"@ + rest;
    assert(s =~= "{"@ + key + w);
    lemma_find_data_key(w);
    assert(s.skip(8) =~= w);
    lemma_strip_front_of_kept(w, Strip::WhiteSpace);
    assert(!starts_with(w, "null"@)) by {
        if starts_with(w, "null"@) {
            assert(w.take(4)[0] == w[0]);
        }
    }
    assert(!starts_with(w, "true"@)) by {
        if starts_with(w, "true"@) {
            assert(w.take(4)[0] == w[0]);
        }
    }
    assert(w.take(5) =~= "false"@);
}

/// A reply whose data is a flag is read as that flag.
pub proof fn law_reply_flag_read_back(b: bool, rest: Seq<char>)
    ensures
        mpv_data_value("{"@ + "\"data\":"@ + (if b {
            "true"@
        } else {
            "false"@
        }) + rest) matches Some(v) && mpv_flag(v) == Some(b),
{
    reveal_strlit("true");
    reveal_strlit("false");
    assert("true"@ != "false"@) by {
        assert("true"@.len() != "false"@.len());
    }
    if b {
        lemma_reply_true(rest);
    } else {
        lemma_reply_false(rest);
    }
}

} // verus!
