//! Strings as sequences of characters: trimming, searching, slicing, decimal
//! numbers, and the two small clean-up steps applied to model replies.

use vstd::arithmetic::power::{lemma_pow0, lemma_pow1, lemma_pow_adds, pow};
use vstd::prelude::*;
use vstd::string::StringExecFns;

verus! {

/// `String::push` appends the given character to the end of the string.
pub assume_specification[ String::push ](s: &mut String, c: char)
    ensures
        final(s)@ == old(s)@.push(c),
;

/// `char::is_whitespace` tells the characters with the Unicode `White_Space`
/// property, which are the ones listed in [`is_white_space`].
pub assume_specification[ char::is_whitespace ](c: char) -> (r: bool)
    ensures
        r == is_white_space(c),
;

/// The characters with the Unicode property `White_Space`.
pub open spec fn is_white_space(c: char) -> bool {
    let u = c as u32;
    ||| 0x09 <= u <= 0x0d
    ||| u == 0x20
    ||| u == 0x85
    ||| u == 0xa0
    ||| u == 0x1680
    ||| 0x2000 <= u <= 0x200a
    ||| u == 0x2028
    ||| u == 0x2029
    ||| u == 0x202f
    ||| u == 0x205f
    ||| u == 0x3000
}

// ---------------------------------------------------------------------------
// Characters and strings

/// The characters of `s`, in order.
pub fn chars_of(s: &str) -> (r: Vec<char>)
    ensures
        r@ == s@,
{
    let mut v: Vec<char> = Vec::new();
    for c in it: s.chars()
        invariant
            it.seq() == s@,
            v@ == s@.take(it.index()),
    {
        v.push(c);
    }
    v
}

/// The string of the characters `v[from..to]`.
pub fn string_of(v: &Vec<char>, from: usize, to: usize) -> (r: String)
    requires
        from <= to <= v.len(),
    ensures
        r@ == v@.subrange(from as int, to as int),
{
    let mut s = String::new();
    let mut i: usize = from;
    while i < to
        invariant
            from <= i <= to <= v.len(),
            s@ == v@.subrange(from as int, i as int),
        decreases to - i,
    {
        s.push(v[i]);
        i = i + 1;
    }
    s
}

/// Whether two strings hold the same characters.
pub fn text_eq(a: &str, b: &str) -> (r: bool)
    ensures
        r == (a@ == b@),
{
    let x: String = a.to_owned();
    let y: String = b.to_owned();
    x == y
}

/// `a` followed by `b`.
pub fn cat2(a: &str, b: &str) -> (r: String)
    ensures
        r@ == a@ + b@,
{
    let mut s = a.to_owned();
    s.append(b);
    s
}

/// `a`, `b` and `c`, one after the other.
pub fn cat3(a: &str, b: &str, c: &str) -> (r: String)
    ensures
        r@ == a@ + b@ + c@,
{
    let mut s = a.to_owned();
    s.append(b);
    s.append(c);
    s
}

/// `a`, `b`, `c` and `d`, one after the other.
pub fn cat4(a: &str, b: &str, c: &str, d: &str) -> (r: String)
    ensures
        r@ == a@ + b@ + c@ + d@,
{
    let mut s = a.to_owned();
    s.append(b);
    s.append(c);
    s.append(d);
    s
}

// ---------------------------------------------------------------------------
// Trimming

/// `s` without its leading white space.
pub open spec fn trimmed_start(s: Seq<char>) -> Seq<char>
    decreases s.len(),
{
    if s.len() > 0 && is_white_space(s[0]) {
        trimmed_start(s.drop_first())
    } else {
        s
    }
}

/// `s` without its trailing white space.
pub open spec fn trimmed_end(s: Seq<char>) -> Seq<char>
    decreases s.len(),
{
    if s.len() > 0 && is_white_space(s.last()) {
        trimmed_end(s.drop_last())
    } else {
        s
    }
}

/// `s` without leading and trailing white space.
pub open spec fn trimmed(s: Seq<char>) -> Seq<char> {
    trimmed_end(trimmed_start(s))
}

/// The index at which the text of `v[from..to]` begins once its leading white
/// space is gone.
fn skip_white(v: &Vec<char>, from: usize, to: usize) -> (i: usize)
    requires
        from <= to <= v.len(),
    ensures
        from <= i <= to,
        trimmed_start(v@.subrange(from as int, to as int)) == v@.subrange(i as int, to as int),
        i < to ==> !is_white_space(v@[i as int]),
{
    let mut i: usize = from;
    while i < to && v[i].is_whitespace()
        invariant
            from <= i <= to <= v.len(),
            trimmed_start(v@.subrange(from as int, to as int)) == trimmed_start(
                v@.subrange(i as int, to as int),
            ),
        decreases to - i,
    {
        assert(v@.subrange(i as int, to as int).drop_first() == v@.subrange(i + 1, to as int));
        i = i + 1;
    }
    i
}

/// The index at which the text of `v[from..to]` ends once its trailing white
/// space is gone.
fn skip_white_back(v: &Vec<char>, from: usize, to: usize) -> (i: usize)
    requires
        from <= to <= v.len(),
    ensures
        from <= i <= to,
        trimmed_end(v@.subrange(from as int, to as int)) == v@.subrange(from as int, i as int),
        i > from ==> !is_white_space(v@[i - 1]),
{
    let mut i: usize = to;
    while i > from && v[i - 1].is_whitespace()
        invariant
            from <= i <= to <= v.len(),
            trimmed_end(v@.subrange(from as int, to as int)) == trimmed_end(
                v@.subrange(from as int, i as int),
            ),
        decreases i - from,
    {
        assert(v@.subrange(from as int, i as int).drop_last() == v@.subrange(from as int, i - 1));
        i = i - 1;
    }
    i
}

/// `s` without leading and trailing white space.
pub fn trim(s: &str) -> (r: String)
    ensures
        r@ == trimmed(s@),
{
    let v = chars_of(s);
    let n: usize = v.len();
    let from: usize = skip_white(&v, 0, n);
    let to: usize = skip_white_back(&v, from, n);
    assert(v@.subrange(0, n as int) == s@);
    string_of(&v, from, to)
}

/// Trimming takes a stretch out of the middle.
pub proof fn lemma_trimmed_subrange(s: Seq<char>) -> (r: (int, int))
    ensures
        0 <= r.0 <= r.1 <= s.len(),
        trimmed(s) == s.subrange(r.0, r.1),
{
    let i = lemma_trimmed_start_subrange(s);
    let t = trimmed_start(s);
    let j = lemma_trimmed_end_subrange(t);
    assert(t.subrange(0, j) =~= s.subrange(i, i + j));
    (i, i + j)
}

proof fn lemma_trimmed_start_subrange(s: Seq<char>) -> (i: int)
    ensures
        0 <= i <= s.len(),
        trimmed_start(s) == s.subrange(i, s.len() as int),
    decreases s.len(),
{
    if s.len() > 0 && is_white_space(s[0]) {
        let i = lemma_trimmed_start_subrange(s.drop_first());
        assert(s.drop_first().subrange(i, s.len() - 1) =~= s.subrange(i + 1, s.len() as int));
        i + 1
    } else {
        assert(s.subrange(0, s.len() as int) =~= s);
        0
    }
}

/// What is left without trailing white space is what the text begins with.
pub proof fn lemma_trimmed_end_subrange(s: Seq<char>) -> (j: int)
    ensures
        0 <= j <= s.len(),
        trimmed_end(s) == s.subrange(0, j),
    decreases s.len(),
{
    if s.len() > 0 && is_white_space(s.last()) {
        let j = lemma_trimmed_end_subrange(s.drop_last());
        assert(s.drop_last().subrange(0, j) =~= s.subrange(0, j));
        j
    } else {
        assert(s.subrange(0, s.len() as int) =~= s);
        s.len() as int
    }
}

/// Trimming stops at a stretch that neither begins nor ends with white space.
pub proof fn lemma_trimmed_around(before: Seq<char>, middle: Seq<char>, after: Seq<char>)
    requires
        middle.len() > 0,
        !is_white_space(middle[0]),
        !is_white_space(middle.last()),
    ensures
        trimmed(before + middle + after) == trimmed_start(before) + middle + trimmed_end(after),
{
    lemma_trimmed_start_stops(before, middle + after);
    assert(before + middle + after =~= before + (middle + after));
    lemma_trimmed_end_stops(trimmed_start(before) + middle, after);
    assert(trimmed_start(before) + (middle + after) =~= (trimmed_start(before) + middle) + after);
    assert((trimmed_start(before) + middle).last() == middle.last());
}

proof fn lemma_trimmed_start_stops(before: Seq<char>, rest: Seq<char>)
    requires
        rest.len() > 0,
        !is_white_space(rest[0]),
    ensures
        trimmed_start(before + rest) == trimmed_start(before) + rest,
    decreases before.len(),
{
    if before.len() > 0 && is_white_space(before[0]) {
        assert((before + rest).drop_first() =~= before.drop_first() + rest);
        lemma_trimmed_start_stops(before.drop_first(), rest);
    } else if before.len() == 0 {
        assert(before + rest =~= rest);
        assert(trimmed_start(before) + rest =~= rest);
    }
}

proof fn lemma_trimmed_end_stops(rest: Seq<char>, after: Seq<char>)
    requires
        rest.len() > 0,
        !is_white_space(rest.last()),
    ensures
        trimmed_end(rest + after) == rest + trimmed_end(after),
    decreases after.len(),
{
    if after.len() > 0 && is_white_space(after.last()) {
        assert((rest + after).drop_last() =~= rest + after.drop_last());
        lemma_trimmed_end_stops(rest, after.drop_last());
    } else if after.len() == 0 {
        assert(rest + after =~= rest);
        assert(rest + trimmed_end(after) =~= rest);
    }
}

// ---------------------------------------------------------------------------
// Searching

/// `p` stands in `s` at index `i`.
pub open spec fn occurs_at(s: Seq<char>, p: Seq<char>, i: int) -> bool {
    &&& 0 <= i
    &&& i + p.len() <= s.len()
    &&& s.subrange(i, i + p.len()) == p
}

/// `i` is the first index at which `p` stands in `s`.
pub open spec fn first_at(s: Seq<char>, p: Seq<char>, i: int) -> bool {
    &&& occurs_at(s, p, i)
    &&& forall|j: int| 0 <= j < i ==> !#[trigger] occurs_at(s, p, j)
}

/// The first index at which `p` stands in `s`.
pub open spec fn find(s: Seq<char>, p: Seq<char>) -> Option<int> {
    if exists|i: int| first_at(s, p, i) {
        Some(choose|i: int| first_at(s, p, i))
    } else {
        None
    }
}

/// The first occurrence is the only one of its kind.
pub proof fn lemma_find(s: Seq<char>, p: Seq<char>, i: int)
    requires
        first_at(s, p, i),
    ensures
        find(s, p) == Some(i),
{
    let k = choose|k: int| first_at(s, p, k);
    if k < i {
        assert(!occurs_at(s, p, k));
    } else if i < k {
        assert(!occurs_at(s, p, i));
    }
}

/// What occurs at all has a first occurrence.
pub proof fn lemma_find_some(s: Seq<char>, p: Seq<char>, i: int)
    requires
        occurs_at(s, p, i),
    ensures
        find(s, p) is Some,
        find(s, p)->0 <= i,
        first_at(s, p, find(s, p)->0),
    decreases i,
{
    if exists|j: int| 0 <= j < i && occurs_at(s, p, j) {
        let j = choose|j: int| 0 <= j < i && occurs_at(s, p, j);
        lemma_find_some(s, p, j);
    } else {
        assert(first_at(s, p, i));
        lemma_find(s, p, i);
    }
}

/// Whether `p` stands at the front of `v[from..to]`.
pub(crate) fn starts(v: &Vec<char>, from: usize, to: usize, p: &Vec<char>) -> (r: bool)
    requires
        from <= to <= v.len(),
    ensures
        r == p@.is_prefix_of(v@.subrange(from as int, to as int)),
        r == (from + p.len() <= to && v@.subrange(from as int, from + p.len()) == p@),
{
    let ghost w = v@.subrange(from as int, to as int);
    if p.len() > to - from {
        return false;
    }
    assert(w.subrange(0, p.len() as int) == v@.subrange(from as int, from + p.len()));
    let mut i: usize = 0;
    while i < p.len()
        invariant
            from <= to <= v.len(),
            p.len() <= to - from,
            0 <= i <= p.len(),
            w == v@.subrange(from as int, to as int),
            w.subrange(0, p.len() as int) == v@.subrange(from as int, from + p.len()),
            forall|j: int| 0 <= j < i ==> v@[from + j] == #[trigger] p@[j],
        decreases p.len() - i,
    {
        if v[from + i] != p[i] {
            assert(w.subrange(0, p.len() as int)[i as int] != p@[i as int]);
            return false;
        }
        i = i + 1;
    }
    assert(w.subrange(0, p.len() as int) =~= p@);
    true
}

/// The first index of `p` in `v[from..to]`, counted from `from`.
pub fn find_in(v: &Vec<char>, from: usize, to: usize, p: &Vec<char>) -> (r: Option<usize>)
    requires
        from <= to <= v.len(),
    ensures
        match r {
            Some(i) => {
                &&& first_at(v@.subrange(from as int, to as int), p@, i as int)
                &&& find(v@.subrange(from as int, to as int), p@) == Some(i as int)
            },
            None => find(v@.subrange(from as int, to as int), p@) is None,
        },
{
    let ghost w = v@.subrange(from as int, to as int);
    let mut i: usize = from;
    while i < to
        invariant
            from <= i <= to <= v.len(),
            w == v@.subrange(from as int, to as int),
            forall|j: int| 0 <= j < i - from ==> !#[trigger] occurs_at(w, p@, j),
        decreases to - i,
    {
        let here = starts(v, i, to, p);
        proof {
            let j = i - from;
            if i + p@.len() <= to {
                assert(w.subrange(j, j + p@.len()) =~= v@.subrange(i as int, i + p@.len()));
            }
            assert(here == occurs_at(w, p@, j));
        }
        if here {
            proof {
                lemma_find(w, p@, i - from);
            }
            return Some(i - from);
        }
        i = i + 1;
    }
    if p.len() == 0 {
        proof {
            let j = to - from;
            assert(w.subrange(j, j) =~= p@);
            lemma_find(w, p@, j);
        }
        return Some(to - from);
    }
    None
}

/// The first index of `p` in `s`, counted in characters.
pub fn index_of(s: &str, p: &str) -> (r: Option<usize>)
    ensures
        match r {
            Some(i) => find(s@, p@) == Some(i as int),
            None => find(s@, p@) is None,
        },
{
    let v = chars_of(s);
    let q = chars_of(p);
    let n: usize = v.len();
    assert(v@.subrange(0, n as int) == s@);
    find_in(&v, 0, n, &q)
}

// ---------------------------------------------------------------------------
// Stripping repeated prefixes and suffixes

/// `s` with `p` removed from its front for as long as it stands there.
pub open spec fn without_prefixes(s: Seq<char>, p: Seq<char>) -> Seq<char>
    decreases s.len(),
{
    if 0 < p.len() && p.is_prefix_of(s) {
        without_prefixes(s.skip(p.len() as int), p)
    } else {
        s
    }
}

/// `s` with `p` removed from its end for as long as it stands there.
pub open spec fn without_suffixes(s: Seq<char>, p: Seq<char>) -> Seq<char>
    decreases s.len(),
{
    if 0 < p.len() && p.is_suffix_of(s) {
        without_suffixes(s.take(s.len() - p.len()), p)
    } else {
        s
    }
}

/// The index at which `v[from..to]` begins once `p` is removed from its front
/// for as long as it stands there.
fn skip_prefixes(v: &Vec<char>, from: usize, to: usize, p: &Vec<char>) -> (i: usize)
    requires
        from <= to <= v.len(),
    ensures
        from <= i <= to,
        without_prefixes(v@.subrange(from as int, to as int), p@) == v@.subrange(
            i as int,
            to as int,
        ),
{
    let mut i: usize = from;
    if p.len() == 0 {
        return i;
    }
    while starts(v, i, to, p)
        invariant
            from <= i <= to <= v.len(),
            0 < p.len(),
            without_prefixes(v@.subrange(from as int, to as int), p@) == without_prefixes(
                v@.subrange(i as int, to as int),
                p@,
            ),
        decreases to - i,
    {
        assert(v@.subrange(i as int, to as int).skip(p.len() as int) == v@.subrange(
            i + p.len(),
            to as int,
        ));
        i = i + p.len();
    }
    i
}

/// The index at which `v[from..to]` ends once `p` is removed from its end for
/// as long as it stands there.
fn skip_suffixes(v: &Vec<char>, from: usize, to: usize, p: &Vec<char>) -> (i: usize)
    requires
        from <= to <= v.len(),
    ensures
        from <= i <= to,
        without_suffixes(v@.subrange(from as int, to as int), p@) == v@.subrange(
            from as int,
            i as int,
        ),
{
    let mut i: usize = to;
    if p.len() == 0 {
        return i;
    }
    while p.len() <= i - from && starts(v, i - p.len(), i, p)
        invariant
            from <= i <= to <= v.len(),
            0 < p.len(),
            without_suffixes(v@.subrange(from as int, to as int), p@) == without_suffixes(
                v@.subrange(from as int, i as int),
                p@,
            ),
        decreases i - from,
    {
        proof {
            let w = v@.subrange(from as int, i as int);
            assert(w.subrange(w.len() - p.len(), w.len() as int) == v@.subrange(
                i - p.len(),
                i as int,
            ));
            assert(w.take(w.len() - p.len()) == v@.subrange(from as int, i - p.len()));
        }
        i = i - p.len();
    }
    proof {
        let w = v@.subrange(from as int, i as int);
        if p.len() <= i - from {
            assert(w.subrange(w.len() - p.len(), w.len() as int) == v@.subrange(
                i - p.len(),
                i as int,
            ));
        }
    }
    i
}

/// `s` without the `p`s at its end.
pub fn trim_end_matches(s: &str, p: &str) -> (r: String)
    ensures
        r@ == without_suffixes(s@, p@),
{
    let v = chars_of(s);
    let q = chars_of(p);
    let n: usize = v.len();
    assert(v@.subrange(0, n as int) == s@);
    let to: usize = skip_suffixes(&v, 0, n, &q);
    string_of(&v, 0, to)
}

/// A model reply with the Markdown code fence around it removed: white space
/// at both ends, any number of opening fences (first the ones labelled `json`,
/// then bare ones), any number of closing ones, and white space again.
pub open spec fn fences_stripped(s: Seq<char>) -> Seq<char> {
    trimmed(
        without_suffixes(
            without_prefixes(without_prefixes(trimmed(s), "```json"@), "```"@),
            "```"@,
        ),
    )
}

/// Strips the Markdown code fence around a model reply.
pub fn strip_fences(s: &str) -> (r: String)
    ensures
        r@ == fences_stripped(s@),
{
    let v = chars_of(s);
    let n: usize = v.len();
    assert(v@.subrange(0, n as int) == s@);
    let labelled = chars_of("```json");
    let bare = chars_of("```");
    let a: usize = skip_white(&v, 0, n);
    let b: usize = skip_white_back(&v, a, n);
    let c: usize = skip_prefixes(&v, a, b, &labelled);
    let d: usize = skip_prefixes(&v, c, b, &bare);
    let e: usize = skip_suffixes(&v, d, b, &bare);
    let f: usize = skip_white(&v, d, e);
    let g: usize = skip_white_back(&v, f, e);
    string_of(&v, f, g)
}

/// The first `n` characters of `s`, or all of it where it has no more.
pub open spec fn first_chars(s: Seq<char>, n: nat) -> Seq<char> {
    if s.len() <= n {
        s
    } else {
        s.take(n as int)
    }
}

/// The first `n` characters of `s`.
pub fn take_chars(s: &str, n: usize) -> (r: String)
    ensures
        r@ == first_chars(s@, n as nat),
{
    let v = chars_of(s);
    if v.len() <= n {
        s.to_owned()
    } else {
        string_of(&v, 0, n)
    }
}

/// `s` where it has at most `n` characters, otherwise its first `n` characters
/// and an ellipsis.
pub open spec fn truncated(s: Seq<char>, n: nat) -> Seq<char> {
    if s.len() <= n {
        s
    } else {
        s.take(n as int) + "…"@
    }
}

/// Shortens `s` to at most `n` characters, and marks the cut with an ellipsis.
pub fn truncate(s: &str, n: usize) -> (r: String)
    ensures
        r@ == truncated(s@, n as nat),
{
    let v = chars_of(s);
    if v.len() <= n {
        s.to_owned()
    } else {
        let head = string_of(&v, 0, n);
        cat2(head.as_str(), "…")
    }
}

// ---------------------------------------------------------------------------
// Splitting

/// The length of the run of non-white characters at the front of `s`.
pub open spec fn word_len(s: Seq<char>) -> nat
    decreases s.len(),
{
    if s.len() > 0 && !is_white_space(s[0]) {
        1 + word_len(s.drop_first())
    } else {
        0
    }
}

proof fn lemma_word_len(s: Seq<char>)
    ensures
        word_len(s) <= s.len(),
        trimmed_start(s).len() <= s.len(),
        trimmed_start(s).len() > 0 ==> word_len(trimmed_start(s)) > 0,
    decreases s.len(),
{
    if s.len() > 0 {
        lemma_word_len(s.drop_first());
    }
}

/// The words of `s`: its maximal runs of non-white characters, in order.
pub open spec fn words(s: Seq<char>) -> Seq<Seq<char>>
    decreases s.len(),
    via words_decreases
{
    let t = trimmed_start(s);
    if t.len() == 0 {
        seq![]
    } else {
        seq![t.take(word_len(t) as int)] + words(t.skip(word_len(t) as int))
    }
}

#[via_fn]
proof fn words_decreases(s: Seq<char>) {
    let t = trimmed_start(s);
    lemma_word_len(s);
    lemma_word_len(t);
}

/// The contents of a list of strings.
pub open spec fn contents(v: Seq<String>) -> Seq<Seq<char>> {
    v.map_values(|s: String| s@)
}

/// A copy of a list of strings.
pub fn copy_texts(v: &Vec<String>) -> (r: Vec<String>)
    ensures
        contents(r@) == contents(v@),
{
    let mut out: Vec<String> = Vec::new();
    let mut i: usize = 0;
    while i < v.len()
        invariant
            0 <= i <= v.len(),
            contents(out@) == contents(v@).take(i as int),
        decreases v.len() - i,
    {
        let ghost before = contents(out@);
        out.push(v[i].clone());
        assert(contents(out@) =~= before.push(v@[i as int]@));
        i = i + 1;
    }
    out
}

/// The words of `s`: its maximal runs of non-white characters, in order.
pub fn split_whitespace(s: &str) -> (r: Vec<String>)
    ensures
        contents(r@) == words(s@),
{
    let v = chars_of(s);
    let n: usize = v.len();
    let mut out: Vec<String> = Vec::new();
    let mut i: usize = 0;
    assert(v@.subrange(0, n as int) == s@);
    assert(contents(out@) + words(s@) =~= words(s@));
    loop
        invariant
            0 <= i <= n,
            n == v.len(),
            contents(out@) + words(v@.subrange(i as int, n as int)) == words(s@),
        decreases n - i,
    {
        let ghost rest = v@.subrange(i as int, n as int);
        let a: usize = skip_white(&v, i, n);
        let ghost t = v@.subrange(a as int, n as int);
        if a == n {
            assert(contents(out@) + words(rest) =~= contents(out@));
            return out;
        }
        let mut b: usize = a;
        while b < n && !v[b].is_whitespace()
            invariant
                a <= b <= n,
                n == v.len(),
                t == v@.subrange(a as int, n as int),
                word_len(t) == b - a + word_len(v@.subrange(b as int, n as int)),
            decreases n - b,
        {
            assert(v@.subrange(b as int, n as int).drop_first() == v@.subrange(b + 1, n as int));
            b = b + 1;
        }
        assert(word_len(t) == b - a);
        let word = string_of(&v, a, b);
        assert(t.take(b - a) == v@.subrange(a as int, b as int));
        assert(t.skip(b - a) == v@.subrange(b as int, n as int));
        let ghost before = contents(out@);
        out.push(word);
        assert(contents(out@) =~= before.push(t.take(b - a)));
        assert(contents(out@) + words(v@.subrange(b as int, n as int)) =~= before + words(rest));
        i = b;
    }
}

/// The pieces of `s` between newlines.
pub open spec fn split_lines(s: Seq<char>) -> Seq<Seq<char>>
    decreases s.len(),
{
    if s.len() == 0 {
        seq![seq![]]
    } else {
        let rest = split_lines(s.drop_last());
        if s.last() == '\n' {
            rest.push(seq![])
        } else {
            rest.drop_last().push(rest.last().push(s.last()))
        }
    }
}

proof fn lemma_split_lines(s: Seq<char>)
    ensures
        split_lines(s).len() > 0,
    decreases s.len(),
{
    if s.len() > 0 {
        lemma_split_lines(s.drop_last());
    }
}

/// The pieces of `s` between newlines.
fn pieces_of(s: &str) -> (r: Vec<String>)
    ensures
        contents(r@) == split_lines(s@),
{
    let v = chars_of(s);
    let n: usize = v.len();
    let mut out: Vec<String> = Vec::new();
    let mut start: usize = 0;
    let mut i: usize = 0;
    assert(v@.subrange(0, 0) =~= seq![]);
    assert(contents(out@).push(v@.subrange(0, 0)) =~= split_lines(v@.take(0)));
    while i < n
        invariant
            0 <= start <= i <= n,
            n == v.len(),
            contents(out@).push(v@.subrange(start as int, i as int)) == split_lines(
                v@.take(i as int),
            ),
        decreases n - i,
    {
        proof {
            assert(v@.take(i + 1).drop_last() == v@.take(i as int));
            lemma_split_lines(v@.take(i as int));
        }
        let ghost done = contents(out@);
        let ghost current = v@.subrange(start as int, i as int);
        assert(done.push(current).drop_last() =~= done);
        if v[i] == '\n' {
            let piece = string_of(&v, start, i);
            out.push(piece);
            assert(contents(out@) =~= done.push(current));
            start = i + 1;
            assert(v@.subrange(start as int, i + 1) =~= seq![]);
        } else {
            assert(v@.subrange(start as int, i + 1) =~= current.push(v@[i as int]));
        }
        i = i + 1;
    }
    assert(v@.take(n as int) == s@);
    let ghost done = contents(out@);
    let piece = string_of(&v, start, n);
    out.push(piece);
    assert(contents(out@) =~= done.push(v@.subrange(start as int, n as int)));
    out
}

/// The non-blank ones of `pieces`, trimmed, the last one first.
pub open spec fn nonblank_reversed(pieces: Seq<Seq<char>>) -> Seq<Seq<char>>
    decreases pieces.len(),
{
    if pieces.len() == 0 {
        seq![]
    } else {
        let t = trimmed(pieces.last());
        let rest = nonblank_reversed(pieces.drop_last());
        if t.len() == 0 {
            rest
        } else {
            seq![t] + rest
        }
    }
}

/// The non-blank lines of `s`, trimmed, the last one first.
pub fn lines_reversed(s: &str) -> (r: Vec<String>)
    ensures
        contents(r@) == nonblank_reversed(split_lines(s@)),
{
    let pieces = pieces_of(s);
    let ghost all = contents(pieces@);
    let mut out: Vec<String> = Vec::new();
    let mut i: usize = pieces.len();
    assert(all.take(i as int) == all);
    assert(contents(out@) + nonblank_reversed(all) =~= nonblank_reversed(all));
    while i > 0
        invariant
            0 <= i <= pieces.len(),
            all == contents(pieces@),
            contents(out@) + nonblank_reversed(all.take(i as int)) == nonblank_reversed(all),
        decreases i,
    {
        let ghost before = contents(out@);
        let t = trim(pieces[i - 1].as_str());
        assert(all.take(i as int).drop_last() == all.take(i - 1));
        assert(all.take(i as int).last() == pieces@[i - 1]@);
        if !t.as_str().is_empty() {
            out.push(t);
            assert(contents(out@) =~= before.push(t@));
            assert(contents(out@) + nonblank_reversed(all.take(i - 1)) =~= before
                + nonblank_reversed(all.take(i as int)));
        }
        i = i - 1;
    }
    assert(contents(out@) + nonblank_reversed(all.take(0)) =~= contents(out@));
    out
}

/// `parts` with `sep` between each two of them.
pub open spec fn joined(parts: Seq<Seq<char>>, sep: Seq<char>) -> Seq<char>
    decreases parts.len(),
{
    if parts.len() == 0 {
        seq![]
    } else if parts.len() == 1 {
        parts[0]
    } else {
        joined(parts.drop_last(), sep) + sep + parts.last()
    }
}

/// Joins `parts`, with `sep` between each two of them.
pub fn join(parts: &Vec<String>, sep: &str) -> (r: String)
    ensures
        r@ == joined(contents(parts@), sep@),
{
    let ghost all = contents(parts@);
    let mut s = String::new();
    let mut i: usize = 0;
    while i < parts.len()
        invariant
            0 <= i <= parts.len(),
            all == contents(parts@),
            s@ == joined(all.take(i as int), sep@),
        decreases parts.len() - i,
    {
        assert(all.take(i + 1).drop_last() == all.take(i as int));
        assert(all.take(i + 1).last() == parts@[i as int]@);
        if i > 0 {
            s.append(sep);
        }
        s.append(parts[i].as_str());
        if i == 0 {
            assert(s@ =~= parts@[0]@);
        }
        i = i + 1;
    }
    assert(all.take(parts.len() as int) == all);
    s
}

// ---------------------------------------------------------------------------
// Decimal numbers

/// The decimal digit of `d`.
pub open spec fn digit(d: nat) -> char
    recommends
        d < 10,
{
    ('0' as u32 + d) as char
}

/// `n` in decimal, without leading zeros.
pub open spec fn decimal(n: nat) -> Seq<char>
    decreases n,
{
    if n < 10 {
        seq![digit(n)]
    } else {
        decimal(n / 10).push(digit(n % 10))
    }
}

/// `n` in decimal.
pub fn decimal_text(n: u128) -> (r: String)
    ensures
        r@ == decimal(n as nat),
    decreases n,
{
    let mut s = if n < 10 {
        String::new()
    } else {
        decimal_text(n / 10)
    };
    let d: u8 = (n % 10) as u8;
    s.push((48u8 + d) as char);
    assert(s@ =~= decimal(n as nat));
    s
}

/// The value of a decimal digit.
pub open spec fn digit_value(c: char) -> Option<nat> {
    if '0' <= c <= '9' {
        Some((c as u32 - '0' as u32) as nat)
    } else {
        None
    }
}

/// The number that the digits `s` stand for, where all of `s` is digits.
pub open spec fn digits_value(s: Seq<char>) -> Option<nat>
    decreases s.len(),
{
    if s.len() == 0 {
        Some(0)
    } else {
        match (digits_value(s.drop_last()), digit_value(s.last())) {
            (Some(head), Some(d)) => Some(head * 10 + d),
            _ => None,
        }
    }
}

/// `s` without the `+` at its front, where it has one.
pub open spec fn without_plus(s: Seq<char>) -> Seq<char> {
    if s.len() > 0 && s[0] == '+' {
        s.drop_first()
    } else {
        s
    }
}

/// An unsigned decimal number of at most `max`: an optional `+`, then digits
/// only, at least one.
pub open spec fn parsed_uint(s: Seq<char>, max: nat) -> Option<nat> {
    let digits = without_plus(s);
    match digits_value(digits) {
        Some(n) => if digits.len() > 0 && n <= max {
            Some(n)
        } else {
            None
        },
        None => None,
    }
}

proof fn lemma_digits_prefix(s: Seq<char>, k: int, max: nat)
    requires
        0 <= k <= s.len(),
        match digits_value(s.take(k)) {
            Some(n) => n > max,
            None => true,
        },
    ensures
        match digits_value(s) {
            Some(n) => n > max,
            None => true,
        },
    decreases s.len() - k,
{
    if k == s.len() {
        assert(s.take(k) == s);
    } else {
        assert(s.take(k + 1).drop_last() == s.take(k));
        lemma_digits_prefix(s, k + 1, max);
    }
}

/// Parses an unsigned decimal number of at most `max`.
pub fn parse_uint(s: &str, max: u64) -> (r: Option<u64>)
    ensures
        match r {
            Some(n) => parsed_uint(s@, max as nat) == Some(n as nat),
            None => parsed_uint(s@, max as nat) is None,
        },
{
    let v = chars_of(s);
    let n: usize = v.len();
    let first: usize = if n > 0 && v[0] == '+' {
        1
    } else {
        0
    };
    let ghost digits = v@.skip(first as int);
    proof {
        if first == 1 {
            assert(digits == s@.drop_first());
        } else {
            assert(digits == s@);
        }
    }
    if first == n {
        return None;
    }
    let mut acc: u64 = 0;
    let mut i: usize = first;
    assert(digits.take(0) == Seq::<char>::empty());
    while i < n
        invariant
            first <= i <= n,
            n == v.len(),
            digits == v@.skip(first as int),
            digits == without_plus(s@),
            acc <= max,
            digits_value(digits.take(i - first)) == Some(acc as nat),
        decreases n - i,
    {
        let c = v[i];
        proof {
            assert(digits.take(i - first + 1).drop_last() == digits.take(i - first));
            assert(digits.take(i - first + 1).last() == c);
        }
        if !('0' <= c && c <= '9') {
            proof {
                lemma_digits_prefix(digits, i - first + 1, max as nat);
            }
            return None;
        }
        let d: u64 = (c as u64) - 48;
        let wide: u128 = (acc as u128) * 10 + (d as u128);
        if wide > max as u128 {
            proof {
                lemma_digits_prefix(digits, i - first + 1, max as nat);
            }
            return None;
        }
        acc = wide as u64;
        i = i + 1;
    }
    assert(digits.take(n - first) == digits);
    Some(acc)
}

// ---------------------------------------------------------------------------
// Laws

/// All of `s` is white space.
pub open spec fn all_white(s: Seq<char>) -> bool {
    forall|i: int| 0 <= i < s.len() ==> is_white_space(#[trigger] s[i])
}

/// `s` neither begins nor ends with white space.
pub open spec fn bare(s: Seq<char>) -> bool {
    s.len() > 0 ==> !is_white_space(s[0]) && !is_white_space(s.last())
}

/// `p`, `k` times over.
pub open spec fn repeated(p: Seq<char>, k: nat) -> Seq<char>
    decreases k,
{
    if k == 0 {
        seq![]
    } else {
        repeated(p, (k - 1) as nat) + p
    }
}

proof fn lemma_white_start(s: Seq<char>)
    requires
        all_white(s),
    ensures
        trimmed_start(s) == Seq::<char>::empty(),
    decreases s.len(),
{
    if s.len() > 0 {
        assert(all_white(s.drop_first()));
        lemma_white_start(s.drop_first());
    }
}

proof fn lemma_white_end(s: Seq<char>)
    requires
        all_white(s),
    ensures
        trimmed_end(s) == Seq::<char>::empty(),
    decreases s.len(),
{
    if s.len() > 0 {
        assert(all_white(s.drop_last()));
        lemma_white_end(s.drop_last());
    }
}

/// Trimming takes away the white space around a text, and nothing else.
pub proof fn law_trimmed(lead: Seq<char>, core: Seq<char>, tail: Seq<char>)
    requires
        all_white(lead),
        bare(core),
        all_white(tail),
    ensures
        trimmed(lead + core + tail) == core,
{
    if core.len() == 0 {
        assert(all_white(lead + core + tail));
        lemma_white_start(lead + core + tail);
        assert(trimmed(lead + core + tail) =~= core);
    } else {
        lemma_trimmed_around(lead, core, tail);
        lemma_white_start(lead);
        lemma_white_end(tail);
        assert(trimmed(lead + core + tail) =~= core);
    }
}

/// A search gives the place of the first occurrence, and nothing exactly where
/// there is none.
pub proof fn law_find(s: Seq<char>, p: Seq<char>, i: int)
    ensures
        find(s, p) == Some(i) <==> {
            &&& 0 <= i <= s.len() - p.len()
            &&& s.subrange(i, i + p.len()) == p
            &&& forall|j: int|
                0 <= j < i && j + p.len() <= s.len() ==> #[trigger] s.subrange(j, j + p.len()) != p
        },
        find(s, p) is None && 0 <= i <= s.len() - p.len() ==> s.subrange(i, i + p.len()) != p,
{
    if find(s, p) == Some(i) {
        assert(first_at(s, p, i));
        assert forall|j: int|
            0 <= j < i && j + p.len() <= s.len() implies #[trigger] s.subrange(j, j + p.len()) != p by {
            assert(!occurs_at(s, p, j));
        }
    }
    if {
        &&& 0 <= i <= s.len() - p.len()
        &&& s.subrange(i, i + p.len()) == p
        &&& forall|j: int|
            0 <= j < i && j + p.len() <= s.len() ==> #[trigger] s.subrange(j, j + p.len()) != p
    } {
        assert forall|j: int| 0 <= j < i implies !#[trigger] occurs_at(s, p, j) by {
            if occurs_at(s, p, j) {
                assert(s.subrange(j, j + p.len()) == p);
            }
        }
        lemma_find(s, p, i);
    }
    if find(s, p) is None && 0 <= i <= s.len() - p.len() && s.subrange(i, i + p.len()) == p {
        lemma_find_some(s, p, i);
    }
}

/// Whatever number of `p`s stands at the end of a text, they are all taken
/// away, and nothing else.
pub proof fn law_without_suffixes(core: Seq<char>, p: Seq<char>, k: nat)
    requires
        p.len() > 0,
        !(core.len() >= p.len() && core.skip(core.len() - p.len()) == p),
    ensures
        without_suffixes(core + repeated(p, k), p) == core,
    decreases k,
{
    let s = core + repeated(p, k);
    if k == 0 {
        assert(s =~= core);
        if p.is_suffix_of(core) {
            assert(core.skip(core.len() - p.len()) =~= p);
        }
    } else {
        let shorter = core + repeated(p, (k - 1) as nat);
        assert(s =~= shorter + p);
        assert(s.subrange(s.len() - p.len(), s.len() as int) =~= p);
        assert(p.is_suffix_of(s));
        assert(s.take(s.len() - p.len()) =~= shorter);
        law_without_suffixes(core, p, (k - 1) as nat);
    }
}

proof fn lemma_repeated_front(p: Seq<char>, k: nat)
    requires
        k > 0,
    ensures
        repeated(p, k) == p + repeated(p, (k - 1) as nat),
    decreases k,
{
    if k > 1 {
        lemma_repeated_front(p, (k - 1) as nat);
        assert(repeated(p, k) =~= p + (repeated(p, (k - 2) as nat) + p));
    } else {
        assert(repeated(p, 0) =~= seq![]);
        assert(repeated(p, 1) =~= p);
        assert(p + repeated(p, 0) =~= p);
    }
}

/// Whatever number of `p`s stands at the front of a text, they are all taken
/// away, and nothing else.
pub proof fn law_without_prefixes(p: Seq<char>, k: nat, core: Seq<char>)
    requires
        p.len() > 0,
        !(core.len() >= p.len() && core.take(p.len() as int) == p),
    ensures
        without_prefixes(repeated(p, k) + core, p) == core,
    decreases k,
{
    let s = repeated(p, k) + core;
    if k == 0 {
        assert(s =~= core);
        if p.is_prefix_of(core) {
            assert(core.take(p.len() as int) =~= p);
        }
    } else {
        lemma_repeated_front(p, k);
        let shorter = repeated(p, (k - 1) as nat) + core;
        assert(s =~= p + shorter);
        assert(s.subrange(0, p.len() as int) =~= p);
        assert(p.is_prefix_of(s));
        assert(s.skip(p.len() as int) =~= shorter);
        law_without_prefixes(p, (k - 1) as nat, core);
    }
}

/// A text comes out of its code fences whole: without any number of opening
/// marks, labelled or not, without any number of closing ones, and without the
/// white space around it.
pub proof fn law_fences_stripped(
    lead: Seq<char>,
    labels: nat,
    marks: nat,
    pad: Seq<char>,
    body: Seq<char>,
    gap: Seq<char>,
    closing: nat,
    tail: Seq<char>,
)
    requires
        all_white(lead),
        all_white(pad),
        all_white(gap),
        all_white(tail),
        bare(body),
        body.len() > 0,
        body[0] != '`',
        body.last() != '`',
        marks > 0 ==> pad.len() > 0 || body[0] != 'j',
    ensures
        fences_stripped(
            lead + repeated("```json"@, labels) + repeated("```"@, marks) + pad + body + gap
                + repeated("```"@, closing) + tail,
        ) == body,
{
    reveal_strlit("```json");
    reveal_strlit("```");
    let label = "```json"@;
    let mark = "```"@;
    let a = repeated(label, labels);
    let b = repeated(mark, marks);
    let c = repeated(mark, closing);
    lemma_repeated_ends(label, labels);
    lemma_repeated_ends(mark, marks);
    lemma_repeated_ends(mark, closing);
    // The white space next to `body` is trimmed too where no mark stands
    // between.
    let none = Seq::<char>::empty();
    let open = labels == 0 && marks == 0;
    let (outer_lead, core_lead) = if open {
        (lead + pad, none)
    } else {
        (lead, pad)
    };
    let (outer_tail, core_tail) = if closing == 0 {
        (gap + tail, none)
    } else {
        (tail, gap)
    };
    let core = core_lead + body + core_tail;
    let kept = a + b + core + c;
    assert(lead + a + b + pad + body + gap + c + tail =~= outer_lead + kept + outer_tail) by {
        if open {
            assert(a =~= none && b =~= none);
        }
        if closing == 0 {
            assert(c =~= none);
        }
    }
    assert(bare(kept)) by {
        if labels > 0 {
            assert(kept[0] == a[0]);
        } else if marks > 0 {
            assert(kept[0] == b[0]);
        } else {
            assert(kept[0] == body[0]);
        }
        if closing > 0 {
            assert(kept.last() == c.last());
        } else {
            assert(kept.last() == body.last());
        }
    }
    law_trimmed(outer_lead, kept, outer_tail);
    lemma_marks_stripped(labels, marks, core_lead, body, core_tail, closing);
    law_trimmed(core_lead, body, core_tail);
}

proof fn lemma_marks_stripped(
    labels: nat,
    marks: nat,
    pad: Seq<char>,
    body: Seq<char>,
    gap: Seq<char>,
    closing: nat,
)
    requires
        all_white(pad),
        all_white(gap),
        body.len() > 0,
        body[0] != '`',
        body.last() != '`',
        marks > 0 ==> pad.len() > 0 || body[0] != 'j',
    ensures
        without_suffixes(
            without_prefixes(
                without_prefixes(
                    repeated("```json"@, labels) + repeated("```"@, marks) + (pad + body + gap)
                        + repeated("```"@, closing),
                    "```json"@,
                ),
                "```"@,
            ),
            "```"@,
        ) == pad + body + gap,
{
    reveal_strlit("```json");
    reveal_strlit("```");
    let label = "```json"@;
    let mark = "```"@;
    let core = pad + body + gap;
    let c = repeated(mark, closing);
    let b = repeated(mark, marks);
    let x = core + c;
    let rest = b + x;
    assert(core[0] != '`' && (marks > 0 ==> core[0] != 'j')) by {
        if pad.len() > 0 {
            assert(core[0] == pad[0]);
            assert(is_white_space(pad[0]));
        } else {
            assert(core[0] == body[0]);
        }
    }
    assert(core.last() != '`') by {
        if gap.len() > 0 {
            assert(core.last() == gap[gap.len() - 1]);
        } else {
            assert(core.last() == body.last());
        }
    }
    assert(repeated(label, labels) + b + core + c =~= repeated(label, labels) + rest);
    assert(!(rest.len() >= 7 && rest.take(7) == label)) by {
        if rest.len() >= 7 && rest.take(7) == label {
            assert(rest.take(7)[0] == rest[0] && rest.take(7)[3] == rest[3]);
            assert(label[0] == '`' && label[3] == 'j');
            if marks == 0 {
                assert(rest[0] == core[0]);
            } else {
                lemma_repeated_front(mark, marks);
                lemma_repeated_ends(mark, (marks - 1) as nat);
                let more = repeated(mark, (marks - 1) as nat);
                if marks == 1 {
                    assert(rest[3] == core[0]);
                } else {
                    assert(rest[3] == more[0]);
                }
            }
        }
    }
    law_without_prefixes(label, labels, rest);
    assert(!(x.len() >= 3 && x.take(3) == mark)) by {
        if x.len() >= 3 && x.take(3) == mark {
            assert(x.take(3)[0] == x[0]);
            assert(x[0] == core[0]);
        }
    }
    law_without_prefixes(mark, marks, x);
    assert(!(core.len() >= 3 && core.skip(core.len() - 3) == mark)) by {
        if core.len() >= 3 && core.skip(core.len() - 3) == mark {
            assert(core.skip(core.len() - 3)[2] == core.last());
        }
    }
    law_without_suffixes(core, mark, closing);
}

/// A repetition begins and ends as what is repeated does.
proof fn lemma_repeated_ends(p: Seq<char>, k: nat)
    requires
        p.len() > 0,
    ensures
        k == 0 ==> repeated(p, k).len() == 0,
        k > 0 ==> repeated(p, k).len() >= p.len() && repeated(p, k)[0] == p[0] && repeated(
            p,
            k,
        ).last() == p.last(),
    decreases k,
{
    if k > 0 {
        lemma_repeated_front(p, k);
        lemma_repeated_ends(p, (k - 1) as nat);
        assert(repeated(p, k).last() == (repeated(p, (k - 1) as nat) + p).last());
    }
}

/// Of a long text the first `n` characters are taken; a short one is taken as
/// it is.
pub proof fn law_first_chars(s: Seq<char>, n: nat)
    ensures
        first_chars(s, n).len() == if s.len() < n {
            s.len()
        } else {
            n
        },
        forall|i: int|
            0 <= i < first_chars(s, n).len() ==> #[trigger] first_chars(s, n)[i] == s[i],
{
}

/// A text of at most `n` characters is not cut; a longer one is cut after `n`
/// characters, and the cut is marked.
pub proof fn law_truncated(s: Seq<char>, n: nat)
    ensures
        s.len() <= n ==> truncated(s, n) == s,
        s.len() > n ==> {
            &&& truncated(s, n).len() == n + 1
            &&& truncated(s, n)[n as int] == '…'
            &&& forall|i: int| 0 <= i < n ==> #[trigger] truncated(s, n)[i] == s[i]
        },
{
    reveal_strlit("…");
}

/// White space separates words, any amount of it, and belongs to none.
pub proof fn law_words(word: Seq<char>, c: char, rest: Seq<char>)
    requires
        is_white_space(c),
    ensures
        words(Seq::<char>::empty()) == Seq::<Seq<char>>::empty(),
        words(seq![c] + rest) == words(rest),
        word.len() > 0 && (forall|i: int|
            0 <= i < word.len() ==> !is_white_space(#[trigger] word[i])) ==> {
            &&& words(word) == seq![word]
            &&& words(word + seq![c] + rest) == seq![word] + words(rest)
        },
{
    assert((seq![c] + rest).drop_first() =~= rest);
    if word.len() > 0 && (forall|i: int|
        0 <= i < word.len() ==> !is_white_space(#[trigger] word[i])) {
        assert(!is_white_space(word[0]));
        assert(trimmed_start(word) == word);
        lemma_word_len_exact(word, Seq::empty());
        assert(word + Seq::<char>::empty() =~= word);
        assert(word.take(word.len() as int) =~= word);
        assert(word.skip(word.len() as int) =~= Seq::<char>::empty());
        assert(words(Seq::<char>::empty()) =~= Seq::<Seq<char>>::empty());
        assert(words(word) =~= seq![word] + words(Seq::<char>::empty()));
        assert(words(word) =~= seq![word]);
        let s = word + seq![c] + rest;
        let after = seq![c] + rest;
        assert(s =~= word + after);
        assert(s[0] == word[0]);
        assert(trimmed_start(s) == s);
        assert(trimmed_start(after) == trimmed_start(rest)) by {
            assert(after.drop_first() =~= rest);
        }
        lemma_word_len_exact(word, after);
        assert(s.take(word.len() as int) =~= word);
        assert(s.skip(word.len() as int) =~= after);
    }
}

proof fn lemma_word_len_exact(word: Seq<char>, after: Seq<char>)
    requires
        forall|i: int| 0 <= i < word.len() ==> !is_white_space(#[trigger] word[i]),
        after.len() > 0 ==> is_white_space(after[0]),
    ensures
        word_len(word + after) == word.len(),
    decreases word.len(),
{
    if word.len() > 0 {
        let tail = word.drop_first();
        assert forall|i: int| 0 <= i < tail.len() implies !is_white_space(#[trigger] tail[i]) by {
            assert(tail[i] == word[i + 1]);
        }
        assert((word + after).drop_first() =~= tail + after);
        lemma_word_len_exact(tail, after);
    } else {
        assert(word + after =~= after);
    }
}

/// Lines that are joined with newlines are split into the same lines again.
pub proof fn law_lines(lines: Seq<Seq<char>>)
    requires
        lines.len() > 0,
        forall|i: int| 0 <= i < lines.len() ==> !(#[trigger] lines[i]).contains('\n'),
    ensures
        split_lines(joined(lines, "\n"@)) == lines,
    decreases lines.len(),
{
    reveal_strlit("\n");
    let last = lines.last();
    assert(lines[lines.len() - 1] == last);
    if lines.len() == 1 {
        lemma_split_line(Seq::empty(), last);
        assert(Seq::<char>::empty() + last =~= last);
        assert(split_lines(Seq::<char>::empty()) =~= seq![Seq::<char>::empty()]);
        assert(split_lines(last) =~= lines);
    } else {
        let front = lines.drop_last();
        assert forall|i: int| 0 <= i < front.len() implies !(#[trigger] front[i]).contains(
            '\n',
        ) by {
            assert(front[i] == lines[i]);
        }
        law_lines(front);
        let head = joined(front, "\n"@) + "\n"@;
        assert(head.drop_last() =~= joined(front, "\n"@));
        assert(split_lines(head) == front.push(seq![]));
        lemma_split_line(head, last);
        assert(split_lines(head).drop_last() =~= front);
        assert(Seq::<char>::empty() + last =~= last);
        assert(front.push(last) =~= lines);
    }
}

proof fn lemma_split_line(head: Seq<char>, line: Seq<char>)
    requires
        !line.contains('\n'),
    ensures
        split_lines(head).len() > 0,
        split_lines(head + line) == split_lines(head).drop_last().push(
            split_lines(head).last() + line,
        ),
    decreases line.len(),
{
    lemma_split_lines(head);
    if line.len() == 0 {
        assert(head + line =~= head);
        assert(split_lines(head).last() + line =~= split_lines(head).last());
        assert(split_lines(head).drop_last().push(split_lines(head).last()) =~= split_lines(head));
    } else {
        let front = line.drop_last();
        assert(line[line.len() - 1] == line.last());
        assert(!front.contains('\n')) by {
            if front.contains('\n') {
                let k = front.index_of('\n');
                assert(line[k] == '\n');
            }
        }
        lemma_split_line(head, front);
        assert((head + line).drop_last() =~= head + front);
        let before = split_lines(head + front);
        assert(before.drop_last() =~= split_lines(head).drop_last());
        assert((split_lines(head).last() + front).push(line.last()) =~= split_lines(head).last()
            + line);
    }
}

/// Of two stretches of lines the later one comes first; a line is given
/// trimmed, and a blank one not at all.
pub proof fn law_lines_reversed(a: Seq<Seq<char>>, b: Seq<Seq<char>>, line: Seq<char>)
    ensures
        nonblank_reversed(a + b) == nonblank_reversed(b) + nonblank_reversed(a),
        nonblank_reversed(seq![line]) == if trimmed(line).len() == 0 {
            Seq::<Seq<char>>::empty()
        } else {
            seq![trimmed(line)]
        },
    decreases b.len(),
{
    let one = seq![line];
    assert(one.drop_last() =~= Seq::<Seq<char>>::empty());
    reveal_with_fuel(nonblank_reversed, 2);
    assert(nonblank_reversed(one) =~= if trimmed(line).len() == 0 {
        Seq::<Seq<char>>::empty()
    } else {
        seq![trimmed(line)]
    });
    if b.len() == 0 {
        assert(a + b =~= a);
        assert(nonblank_reversed(b) + nonblank_reversed(a) =~= nonblank_reversed(a));
    } else {
        law_lines_reversed(a, b.drop_last(), line);
        assert((a + b).drop_last() =~= a + b.drop_last());
        assert(nonblank_reversed(a + b) =~= nonblank_reversed(b) + nonblank_reversed(a));
    }
}

/// Joining two lists that are not empty puts one separator between them; one
/// part is joined to itself.
pub proof fn law_joined(a: Seq<Seq<char>>, b: Seq<Seq<char>>, part: Seq<char>, sep: Seq<char>)
    ensures
        joined(Seq::<Seq<char>>::empty(), sep) == Seq::<char>::empty(),
        joined(seq![part], sep) == part,
        a.len() > 0 && b.len() > 0 ==> joined(a + b, sep) == joined(a, sep) + sep + joined(b, sep),
    decreases b.len(),
{
    if a.len() > 0 && b.len() > 0 {
        assert((a + b).drop_last() =~= a + b.drop_last());
        if b.len() == 1 {
            assert(a + b.drop_last() =~= a);
        } else {
            law_joined(a, b.drop_last(), part, sep);
            assert(joined(a + b, sep) =~= joined(a, sep) + sep + joined(b, sep));
        }
    }
}

/// The number that a numeral stands for, each digit counted by its place.
pub open spec fn place_value(s: Seq<char>) -> int
    decreases s.len(),
{
    if s.len() == 0 {
        0
    } else {
        (s[0] as u32 - '0' as u32) * pow(10, (s.len() - 1) as nat) + place_value(s.drop_first())
    }
}

/// All of `s` is decimal digits.
pub open spec fn all_digits(s: Seq<char>) -> bool {
    forall|i: int| 0 <= i < s.len() ==> '0' <= (#[trigger] s[i]) <= '9'
}

proof fn lemma_place_value_push(s: Seq<char>, c: char)
    ensures
        place_value(s.push(c)) == place_value(s) * 10 + (c as u32 - '0' as u32),
    decreases s.len(),
{
    let t = s.push(c);
    let high = pow(10, (t.len() - 1) as nat);
    let d: int = t[0] as u32 - '0' as u32;
    assert(place_value(t) == d * high + place_value(t.drop_first()));
    if s.len() == 0 {
        assert(t.drop_first() =~= Seq::<char>::empty());
        lemma_pow0(10);
        assert(d * high == d) by (nonlinear_arith)
            requires
                high == 1,
        ;
    } else {
        let rest = s.drop_first();
        let low = pow(10, (s.len() - 1) as nat);
        assert(t.drop_first() =~= rest.push(c));
        lemma_place_value_push(rest, c);
        lemma_pow1(10);
        lemma_pow_adds(10, (s.len() - 1) as nat, 1);
        assert(t[0] == s[0]);
        assert(place_value(s) == d * low + place_value(rest));
        assert(d * high == (d * low) * 10) by (nonlinear_arith)
            requires
                high == low * 10,
        ;
    }
}

/// A number in decimal stands for that number, in digits only, and does not
/// begin with a zero unless it is one.
pub proof fn law_decimal(n: nat)
    ensures
        decimal(n).len() > 0,
        all_digits(decimal(n)),
        place_value(decimal(n)) == n,
        n > 0 ==> decimal(n)[0] != '0',
    decreases n,
{
    lemma_place_value_push(decimal(n / 10), digit(n % 10));
    lemma_place_value_push(Seq::empty(), digit(n));
    if n < 10 {
        assert(Seq::<char>::empty().push(digit(n)) =~= decimal(n));
    } else {
        law_decimal(n / 10);
    }
}

proof fn lemma_digits_value(s: Seq<char>)
    ensures
        digits_value(s) is Some <==> all_digits(s),
        digits_value(s) matches Some(n) ==> n == place_value(s),
    decreases s.len(),
{
    if s.len() > 0 {
        let front = s.drop_last();
        lemma_digits_value(front);
        lemma_place_value_push(front, s.last());
        assert(front.push(s.last()) =~= s);
        if all_digits(s) {
            assert forall|i: int| 0 <= i < front.len() implies '0' <= (#[trigger] front[i])
                <= '9' by {
                assert(front[i] == s[i]);
            }
            assert('0' <= s[s.len() - 1] <= '9');
        }
        if digits_value(s) is Some {
            assert forall|i: int| 0 <= i < s.len() implies '0' <= (#[trigger] s[i]) <= '9' by {
                if i < front.len() {
                    assert(front[i] == s[i]);
                }
            }
        }
    }
}

/// A number is read exactly where a text is digits, at least one, perhaps
/// after a plus sign, and they stand for no more than `max`.
pub proof fn law_parsed_uint(plus: bool, digits: Seq<char>, max: nat, n: nat)
    requires
        digits.len() > 0 ==> digits[0] != '+',
    ensures
        parsed_uint(
            if plus {
                seq!['+'] + digits
            } else {
                digits
            },
            max,
        ) == Some(n) <==> digits.len() > 0 && all_digits(digits) && place_value(digits) == n && n
            <= max,
{
    assert((seq!['+'] + digits).drop_first() =~= digits);
    lemma_digits_value(digits);
}

proof fn lemma_trimmed_start_bare(s: Seq<char>)
    ensures
        trimmed_start(s).len() > 0 ==> !is_white_space(trimmed_start(s)[0]),
    decreases s.len(),
{
    if s.len() > 0 {
        lemma_trimmed_start_bare(s.drop_first());
    }
}

proof fn lemma_trimmed_end_bare(s: Seq<char>)
    ensures
        trimmed_end(s).len() > 0 ==> !is_white_space(trimmed_end(s).last()),
        trimmed_end(s).len() > 0 ==> trimmed_end(s)[0] == s[0],
    decreases s.len(),
{
    if s.len() > 0 {
        lemma_trimmed_end_bare(s.drop_last());
    }
}

/// A trimmed text has no white space around it, and trimming it again changes
/// nothing.
pub proof fn law_trimmed_bare(s: Seq<char>)
    ensures
        bare(trimmed(s)),
        trimmed(trimmed(s)) == trimmed(s),
{
    lemma_trimmed_start_bare(s);
    lemma_trimmed_end_bare(trimmed_start(s));
    let none = Seq::<char>::empty();
    law_trimmed(none, trimmed(s), none);
    assert(none + trimmed(s) + none =~= trimmed(s));
}

/// What is trimmed to nothing is white space.
pub proof fn lemma_blank(s: Seq<char>)
    ensures
        trimmed(s).len() == 0 <==> all_white(s),
{
    if trimmed(s).len() == 0 {
        assert forall|i: int| 0 <= i < s.len() implies is_white_space(#[trigger] s[i]) by {
            if !is_white_space(s[i]) {
                lemma_trimmed_around(s.take(i), seq![s[i]], s.skip(i + 1));
                assert(s.take(i) + seq![s[i]] + s.skip(i + 1) =~= s);
            }
        }
    }
    if all_white(s) {
        let none = Seq::<char>::empty();
        law_trimmed(s, none, none);
        assert(s + none + none =~= s);
    }
}

proof fn lemma_without_prefixes_part(s: Seq<char>, p: Seq<char>) -> (i: int)
    ensures
        0 <= i <= s.len(),
        without_prefixes(s, p) == s.skip(i),
    decreases s.len(),
{
    if 0 < p.len() && p.is_prefix_of(s) {
        let i = lemma_without_prefixes_part(s.skip(p.len() as int), p);
        assert(s.skip(p.len() as int).skip(i) =~= s.skip(p.len() + i));
        p.len() + i
    } else {
        assert(s.skip(0) =~= s);
        0
    }
}

proof fn lemma_without_suffixes_part(s: Seq<char>, p: Seq<char>) -> (j: int)
    ensures
        0 <= j <= s.len(),
        without_suffixes(s, p) == s.take(j),
    decreases s.len(),
{
    if 0 < p.len() && p.is_suffix_of(s) {
        let j = lemma_without_suffixes_part(s.take(s.len() - p.len()), p);
        assert(s.take(s.len() - p.len()).take(j) =~= s.take(j));
        j
    } else {
        assert(s.take(s.len() as int) =~= s);
        s.len() as int
    }
}

/// What is left when the fences are gone stands in the text as it is.
pub proof fn law_stripped_is_part(s: Seq<char>)
    ensures
        exists|i: int, j: int|
            0 <= i <= j <= s.len() && fences_stripped(s) == #[trigger] s.subrange(i, j),
{
    let (a, b) = lemma_trimmed_subrange(s);
    let t = trimmed(s);
    let i = lemma_without_prefixes_part(t, "```json"@);
    let u = without_prefixes(t, "```json"@);
    let j = lemma_without_prefixes_part(u, "```"@);
    let v = without_prefixes(u, "```"@);
    let k = lemma_without_suffixes_part(v, "```"@);
    let w = without_suffixes(v, "```"@);
    let (c, d) = lemma_trimmed_subrange(w);
    let from = a + i + j;
    assert(w =~= s.subrange(from, from + k));
    assert(w.subrange(c, d) =~= s.subrange(from + c, from + d));
}

/// Digits stand for a number that is not negative.
pub proof fn lemma_place_value_positive(s: Seq<char>)
    requires
        all_digits(s),
    ensures
        place_value(s) >= 0,
{
    lemma_digits_value(s);
}

/// The contents of a list of strings are the strings, each in its place.
pub proof fn law_contents(v: Seq<String>, i: int)
    ensures
        contents(v).len() == v.len(),
        0 <= i < v.len() ==> contents(v)[i] == v[i]@,
{
}

} // verus!
