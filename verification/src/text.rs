//! Character-level text handling: the string operations that the parsers of
//! this crate rely on, each stated over the character sequence of a string.
use vstd::prelude::*;

verus! {

/// The code points that carry the Unicode `White_Space` property, which is
/// what `char::is_whitespace` tests for.
pub open spec fn is_white_space(c: char) -> bool {
    let u = c as u32;
    ||| 0x09 <= u <= 0x0d
    ||| u == 0x20
    ||| u == 0x85
    ||| u == 0xa0
    ||| u == 0x1680
    ||| 0x2000 <= u <= 0x200a
    ||| u == 0x2028
    ||| u == 0x2029
    ||| u == 0x202f
    ||| u == 0x205f
    ||| u == 0x3000
}

/// Tells whether `c` is a white-space character.
pub fn white_space(c: char) -> (b: bool)
    ensures
        b == is_white_space(c),
{
    let u = c as u32;
    (0x09 <= u && u <= 0x0d) || u == 0x20 || u == 0x85 || u == 0xa0 || u == 0x1680 || (0x2000
        <= u && u <= 0x200a) || u == 0x2028 || u == 0x2029 || u == 0x202f || u == 0x205f || u
        == 0x3000
}

/// The kinds of characters that the trimming operations strip.
#[derive(Clone, Copy, PartialEq, Eq, Debug)]
pub enum Strip {
    /// White space, as `str::trim` strips it.
    WhiteSpace,
    /// Double quotes, as `str::trim_matches('"')` strips them.
    Quote,
}

/// Whether `kind` strips the character `c`.
pub open spec fn strips(kind: Strip, c: char) -> bool {
    match kind {
        Strip::WhiteSpace => is_white_space(c),
        Strip::Quote => c == '"',
    }
}

/// `s` without the characters that `kind` strips at its front.
pub open spec fn strip_front(s: Seq<char>, kind: Strip) -> Seq<char>
    decreases s.len(),
{
    if s.len() > 0 && strips(kind, s[0]) {
        strip_front(s.drop_first(), kind)
    } else {
        s
    }
}

/// `s` without the characters that `kind` strips at its back.
pub open spec fn strip_back(s: Seq<char>, kind: Strip) -> Seq<char>
    decreases s.len(),
{
    if s.len() > 0 && strips(kind, s.last()) {
        strip_back(s.drop_last(), kind)
    } else {
        s
    }
}

/// `s` without the characters that `kind` strips at either end.
pub open spec fn strip_both(s: Seq<char>, kind: Strip) -> Seq<char> {
    strip_back(strip_front(s, kind), kind)
}

/// What `str::trim_start` leaves of `s`.
pub open spec fn trim_start(s: Seq<char>) -> Seq<char> {
    strip_front(s, Strip::WhiteSpace)
}

/// What `str::trim` leaves of `s`.
pub open spec fn trim(s: Seq<char>) -> Seq<char> {
    strip_both(s, Strip::WhiteSpace)
}

/// Whether `s` begins with `p`.
pub open spec fn starts_with(s: Seq<char>, p: Seq<char>) -> bool {
    p.len() <= s.len() && s.take(p.len() as int) == p
}

/// Whether `p` occurs in `s` at position `i`.
pub open spec fn occurs_at(s: Seq<char>, p: Seq<char>, i: int) -> bool {
    0 <= i && i + p.len() <= s.len() && s.subrange(i, i + p.len()) == p
}

/// The position of the first occurrence of `p` in `s`, as `str::find` gives it
/// (counted in characters).
pub open spec fn find(s: Seq<char>, p: Seq<char>) -> Option<int> {
    if exists|i: int| occurs_at(s, p, i) {
        Some(choose|i: int| occurs_at(s, p, i) && forall|j: int| 0 <= j < i ==> !occurs_at(s, p, j))
    } else {
        None
    }
}

/// Whether `i` is the first position at which `p` occurs in `s`.
pub open spec fn first_occurrence(s: Seq<char>, p: Seq<char>, i: int) -> bool {
    occurs_at(s, p, i) && forall|j: int| 0 <= j < i ==> !occurs_at(s, p, j)
}

/// A first occurrence is the one that `find` reports.
pub proof fn lemma_find_first_occurrence(s: Seq<char>, p: Seq<char>, i: int)
    requires
        first_occurrence(s, p, i),
    ensures
        find(s, p) == Some(i),
{
    let k = choose|k: int| occurs_at(s, p, k) && forall|j: int| 0 <= j < k ==> !occurs_at(s, p, j);
    assert(occurs_at(s, p, k) && forall|j: int| 0 <= j < k ==> !occurs_at(s, p, j));
    if k < i {
        assert(!occurs_at(s, p, k));
    }
    if i < k {
        assert(!occurs_at(s, p, i));
    }
}

/// Where `p` occurs in `s`, it has a first occurrence.
proof fn lemma_first_occurrence_exists(s: Seq<char>, p: Seq<char>, k: int)
    requires
        occurs_at(s, p, k),
    ensures
        exists|i: int| first_occurrence(s, p, i),
    decreases k,
{
    if exists|j: int| 0 <= j < k && occurs_at(s, p, j) {
        let j = choose|j: int| 0 <= j < k && occurs_at(s, p, j);
        lemma_first_occurrence_exists(s, p, j);
    } else {
        assert(first_occurrence(s, p, k));
    }
}

/// `find` reports the first occurrence of `p` in `s`, and reports none
/// exactly where `p` does not occur in `s`.
pub proof fn lemma_find(s: Seq<char>, p: Seq<char>)
    ensures
        find(s, p) matches Some(i) ==> first_occurrence(s, p, i),
        find(s, p) is None <==> forall|i: int| !occurs_at(s, p, i),
{
    if exists|k: int| occurs_at(s, p, k) {
        let k = choose|k: int| occurs_at(s, p, k);
        lemma_first_occurrence_exists(s, p, k);
        let i = choose|i: int| first_occurrence(s, p, i);
        lemma_find_first_occurrence(s, p, i);
    }
}

/// The characters of a string slice, in order.
pub fn chars_of(s: &str) -> (v: Vec<char>)
    ensures
        v@ == s@,
{
    let mut v: Vec<char> = Vec::new();
    for c in it: s.chars()
        invariant
            it.seq() == s@,
            v@ == it.seq().take(it.index()),
    {
        v.push(c);
    }
    v
}

/// Appends one character to a string (`String::push`).
#[verifier::external_body]
pub(crate) fn push_char(s: &mut String, c: char)
    ensures
        final(s)@ == old(s)@.push(c),
{
    s.push(c);
}

/// Appends the characters `v[lo..hi]` to `s`.
pub fn push_chars(s: &mut String, v: &Vec<char>, lo: usize, hi: usize)
    requires
        lo <= hi <= v@.len(),
    ensures
        final(s)@ == old(s)@ + v@.subrange(lo as int, hi as int),
{
    let mut i = lo;
    while i < hi
        invariant
            lo <= i <= hi <= v@.len(),
            s@ == old(s)@ + v@.subrange(lo as int, i as int),
        decreases hi - i,
    {
        push_char(s, v[i]);
        i += 1;
        assert(v@.subrange(lo as int, i as int) =~= v@.subrange(lo as int, i - 1).push(v@[i - 1]));
    }
}

/// A string made of the characters `v[lo..hi]`.
pub fn string_of(v: &Vec<char>, lo: usize, hi: usize) -> (s: String)
    requires
        lo <= hi <= v@.len(),
    ensures
        s@ == v@.subrange(lo as int, hi as int),
{
    let mut s = String::new();
    push_chars(&mut s, v, lo, hi);
    s
}

/// A string made of all the characters of `v`.
pub fn string_of_all(v: &Vec<char>) -> (s: String)
    ensures
        s@ == v@,
{
    let s = string_of(v, 0, v.len());
    assert(v@.subrange(0, v@.len() as int) =~= v@);
    s
}

/// Appends the characters of a string slice to `s`.
pub fn push_str(s: &mut String, t: &str)
    ensures
        final(s)@ == old(s)@ + t@,
{
    let v = chars_of(t);
    push_chars(s, &v, 0, v.len());
    assert(v@.subrange(0, v@.len() as int) =~= t@);
}

/// Whether `kind` strips `c`.
pub fn strips_char(kind: Strip, c: char) -> (b: bool)
    ensures
        b == strips(kind, c),
{
    match kind {
        Strip::WhiteSpace => white_space(c),
        Strip::Quote => c == '"',
    }
}

/// The index at which `strip_front` lets `v[lo..hi]` begin.
pub fn strip_front_index(v: &Vec<char>, lo: usize, hi: usize, kind: Strip) -> (i: usize)
    requires
        lo <= hi <= v@.len(),
    ensures
        lo <= i <= hi,
        v@.subrange(i as int, hi as int) == strip_front(v@.subrange(lo as int, hi as int), kind),
{
    let mut i = lo;
    while i < hi && strips_char(kind, v[i])
        invariant
            lo <= i <= hi <= v@.len(),
            strip_front(v@.subrange(lo as int, hi as int), kind) == strip_front(
                v@.subrange(i as int, hi as int),
                kind,
            ),
        decreases hi - i,
    {
        assert(v@.subrange(i as int, hi as int).drop_first() =~= v@.subrange(i + 1, hi as int));
        i += 1;
    }
    i
}

/// The index at which `strip_back` lets `v[lo..hi]` end.
pub fn strip_back_index(v: &Vec<char>, lo: usize, hi: usize, kind: Strip) -> (j: usize)
    requires
        lo <= hi <= v@.len(),
    ensures
        lo <= j <= hi,
        v@.subrange(lo as int, j as int) == strip_back(v@.subrange(lo as int, hi as int), kind),
{
    let mut j = hi;
    while j > lo && strips_char(kind, v[j - 1])
        invariant
            lo <= j <= hi <= v@.len(),
            strip_back(v@.subrange(lo as int, hi as int), kind) == strip_back(
                v@.subrange(lo as int, j as int),
                kind,
            ),
        decreases j - lo,
    {
        assert(v@.subrange(lo as int, j as int).drop_last() =~= v@.subrange(lo as int, j - 1));
        j -= 1;
    }
    j
}

/// The bounds of what `strip_both` leaves of `v[lo..hi]`.
pub fn strip_both_bounds(v: &Vec<char>, lo: usize, hi: usize, kind: Strip) -> (r: (usize, usize))
    requires
        lo <= hi <= v@.len(),
    ensures
        lo <= r.0 <= r.1 <= hi,
        v@.subrange(r.0 as int, r.1 as int) == strip_both(v@.subrange(lo as int, hi as int), kind),
{
    let i = strip_front_index(v, lo, hi, kind);
    let j = strip_back_index(v, i, hi, kind);
    (i, j)
}

/// Whether `p` occurs in `v` at position `i`.
pub fn occurs_at_exec(v: &Vec<char>, p: &Vec<char>, i: usize) -> (b: bool)
    ensures
        b == occurs_at(v@, p@, i as int),
{
    if i > v.len() || p.len() > v.len() - i {
        return false;
    }
    let vlen = v.len();
    let mut k: usize = 0;
    while k < p.len()
        invariant
            vlen == v@.len(),
            i + p@.len() <= v@.len(),
            0 <= k <= p@.len(),
            forall|m: int| 0 <= m < k ==> v@[i + m] == p@[m],
        decreases p@.len() - k,
    {
        assert(i + k < v@.len());
        if v[i + k] != p[k] {
            assert(v@.subrange(i as int, i + p@.len())[k as int] != p@[k as int]);
            return false;
        }
        k += 1;
    }
    assert(v@.subrange(i as int, i + p@.len()) =~= p@);
    true
}

/// The position of the first occurrence of `p` in `v` (`str::find`).
pub fn find_exec(v: &Vec<char>, p: &Vec<char>) -> (r: Option<usize>)
    ensures
        r matches Some(i) ==> find(v@, p@) == Some(i as int) && first_occurrence(v@, p@, i as int),
        r is None ==> find(v@, p@) is None,
{
    let mut i: usize = 0;
    loop
        invariant
            i <= v@.len(),
            forall|j: int| 0 <= j < i ==> !occurs_at(v@, p@, j),
        decreases v@.len() - i,
    {
        if occurs_at_exec(v, p, i) {
            proof {
                lemma_find_first_occurrence(v@, p@, i as int);
            }
            return Some(i);
        }
        if i == v.len() {
            assert forall|j: int| !occurs_at(v@, p@, j) by {
                if 0 <= j && j > i {
                    assert(j + p@.len() > v@.len());
                }
            }
            return None;
        }
        i += 1;
    }
}

/// Whether `v[lo..]` begins with `p`.
pub fn starts_with_at(v: &Vec<char>, lo: usize, p: &Vec<char>) -> (b: bool)
    requires
        lo <= v@.len(),
    ensures
        b == starts_with(v@.subrange(lo as int, v@.len() as int), p@),
{
    let b = occurs_at_exec(v, p, lo);
    proof {
        let s = v@.subrange(lo as int, v@.len() as int);
        if p@.len() <= s.len() {
            assert(s.take(p@.len() as int) =~= v@.subrange(lo as int, lo + p@.len()));
        }
    }
    b
}

/// Whether `s` is empty or begins with a character that `kind` keeps.
pub open spec fn front_kept(s: Seq<char>, kind: Strip) -> bool {
    s.len() == 0 || !strips(kind, s[0])
}

/// Whether `s` is empty or ends with a character that `kind` keeps.
pub open spec fn back_kept(s: Seq<char>, kind: Strip) -> bool {
    s.len() == 0 || !strips(kind, s.last())
}

/// Stripping the front leaves a front that is kept.
pub proof fn lemma_strip_front_kept(s: Seq<char>, kind: Strip)
    ensures
        front_kept(strip_front(s, kind), kind),
        strip_front(s, kind).len() <= s.len(),
    decreases s.len(),
{
    if s.len() > 0 && strips(kind, s[0]) {
        lemma_strip_front_kept(s.drop_first(), kind);
    }
}

/// Stripping the back leaves a back that is kept, and keeps a kept front.
pub proof fn lemma_strip_back_kept(s: Seq<char>, kind: Strip)
    ensures
        back_kept(strip_back(s, kind), kind),
        front_kept(s, kind) ==> front_kept(strip_back(s, kind), kind),
        strip_back(s, kind).len() <= s.len(),
        strip_back(s, kind).len() > 0 ==> strip_back(s, kind)[0] == s[0],
    decreases s.len(),
{
    if s.len() > 0 && strips(kind, s.last()) {
        lemma_strip_back_kept(s.drop_last(), kind);
    }
}

/// Stripping the front of a kept front changes nothing.
pub proof fn lemma_strip_front_of_kept(s: Seq<char>, kind: Strip)
    requires
        front_kept(s, kind),
    ensures
        strip_front(s, kind) == s,
{
}

/// Stripping the back of a kept back changes nothing.
pub proof fn lemma_strip_back_of_kept(s: Seq<char>, kind: Strip)
    requires
        back_kept(s, kind),
    ensures
        strip_back(s, kind) == s,
{
}

/// What `strip_front` leaves is a suffix of `s`, and all that it removes is
/// stripped characters.
pub proof fn lemma_strip_front_suffix(s: Seq<char>, kind: Strip) -> (k: int)
    ensures
        0 <= k <= s.len(),
        strip_front(s, kind) == s.subrange(k, s.len() as int),
        forall|i: int| 0 <= i < k ==> strips(kind, #[trigger] s[i]),
    decreases s.len(),
{
    if s.len() > 0 && strips(kind, s[0]) {
        let k2 = lemma_strip_front_suffix(s.drop_first(), kind);
        assert(s.drop_first().subrange(k2, s.drop_first().len() as int) =~= s.subrange(
            k2 + 1,
            s.len() as int,
        ));
        assert forall|i: int| 0 <= i < k2 + 1 implies strips(kind, #[trigger] s[i]) by {
            if i > 0 {
                assert(s[i] == s.drop_first()[i - 1]);
            }
        }
        k2 + 1
    } else {
        assert(s.subrange(0, s.len() as int) =~= s);
        0
    }
}

/// What `strip_back` leaves is a prefix of `s`, and all that it removes is
/// stripped characters.
pub proof fn lemma_strip_back_prefix(s: Seq<char>, kind: Strip) -> (j: int)
    ensures
        0 <= j <= s.len(),
        strip_back(s, kind) == s.subrange(0, j),
        forall|i: int| j <= i < s.len() ==> strips(kind, #[trigger] s[i]),
    decreases s.len(),
{
    if s.len() > 0 && strips(kind, s.last()) {
        let j2 = lemma_strip_back_prefix(s.drop_last(), kind);
        assert(s.drop_last().subrange(0, j2) =~= s.subrange(0, j2));
        assert forall|i: int| j2 <= i < s.len() implies strips(kind, #[trigger] s[i]) by {
            if i < s.len() - 1 {
                assert(s[i] == s.drop_last()[i]);
            }
        }
        j2
    } else {
        assert(s.subrange(0, s.len() as int) =~= s);
        s.len() as int
    }
}

/// Trimming is idempotent: what `str::trim` leaves, it leaves unchanged.
pub proof fn law_trim_idempotent(s: Seq<char>)
    ensures
        trim(trim(s)) == trim(s),
{
    let k = Strip::WhiteSpace;
    let u = strip_front(s, k);
    lemma_strip_front_kept(s, k);
    let w = strip_back(u, k);
    lemma_strip_back_kept(u, k);
    lemma_strip_front_of_kept(w, k);
    lemma_strip_back_of_kept(w, k);
}

} // verus!
