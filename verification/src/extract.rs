//! Second-chance extraction: finds the JSON in a reply that wraps it in a
//! Markdown fence or in prose.

use crate::text::{
    all_white, chars_of, find, find_in, first_at, is_white_space, law_trimmed, lemma_blank,
    lemma_find, lemma_trimmed_around, lemma_trimmed_end_subrange, lemma_trimmed_subrange,
    occurs_at, starts, string_of, trim, trimmed, trimmed_end, trimmed_start,
};
use vstd::prelude::*;

verus! {

// ---------------------------------------------------------------------------
// The first fenced block

/// `s` without the label `json` at its front.
pub open spec fn without_label(s: Seq<char>) -> Seq<char> {
    if "json"@.is_prefix_of(s) {
        s.skip("json"@.len() as int)
    } else {
        s
    }
}

/// The trimmed contents of the first block of `s` between two fences, without
/// the label of the opening one, where there is such a block and it is not
/// blank.
pub open spec fn fenced(s: Seq<char>) -> Option<Seq<char>> {
    match find(s, "```"@) {
        Some(i) => {
            let after = without_label(s.skip(i + 3));
            match find(after, "```"@) {
                Some(j) => {
                    let inner = trimmed(after.take(j));
                    if inner.len() > 0 {
                        Some(inner)
                    } else {
                        None
                    }
                },
                None => None,
            }
        },
        None => None,
    }
}

// ---------------------------------------------------------------------------
// The first balanced object

/// Where a scan through JSON text stands: how many objects are open, whether
/// it is inside a string, and whether the next character is escaped.
pub ghost struct Scan {
    pub depth: int,
    pub in_str: bool,
    pub escape: bool,
}

/// The scan after one more character.
pub open spec fn scan_step(st: Scan, c: char) -> Scan {
    if st.escape {
        Scan { escape: false, ..st }
    } else if c == '\\' && st.in_str {
        Scan { escape: true, ..st }
    } else if c == '"' {
        Scan { in_str: !st.in_str, ..st }
    } else if c == '{' && !st.in_str {
        Scan { depth: st.depth + 1, ..st }
    } else if c == '}' && !st.in_str {
        Scan { depth: st.depth - 1, ..st }
    } else {
        st
    }
}

/// The scan after all of `s`.
pub open spec fn scan(s: Seq<char>) -> Scan
    decreases s.len(),
{
    if s.len() == 0 {
        Scan { depth: 0, in_str: false, escape: false }
    } else {
        scan_step(scan(s.drop_last()), s.last())
    }
}

/// No object is open after the first `n` characters of `s`, for the first time
/// since the first character.
pub open spec fn closes_at(s: Seq<char>, n: int) -> bool {
    &&& 0 < n <= s.len()
    &&& scan(s.take(n)).depth == 0
    &&& forall|m: int| 0 < m < n ==> (#[trigger] scan(s.take(m))).depth != 0
}

/// The length of the object at the front of `s`.
pub open spec fn object_len(s: Seq<char>) -> Option<int> {
    if exists|n: int| closes_at(s, n) {
        Some(choose|n: int| closes_at(s, n))
    } else {
        None
    }
}

/// `s` from its first opening brace to the brace that closes it.
pub open spec fn first_object(s: Seq<char>) -> Option<Seq<char>> {
    match find(s, "{"@) {
        Some(start) => match object_len(s.skip(start)) {
            Some(n) => Some(s.skip(start).take(n)),
            None => None,
        },
        None => None,
    }
}

/// An object's text: it begins with a brace, and its last character is the one
/// that closes that brace.
pub open spec fn balanced_object(s: Seq<char>) -> bool {
    &&& s.len() > 0
    &&& s[0] == '{'
    &&& closes_at(s, s.len() as int)
}

/// What is extracted from a reply: the first fenced block, or else the first
/// balanced object.
pub open spec fn extracted(text: Seq<char>) -> Option<Seq<char>> {
    match fenced(trimmed(text)) {
        Some(inner) => Some(inner),
        None => first_object(trimmed(text)),
    }
}

proof fn lemma_object_len(s: Seq<char>, n: int)
    requires
        closes_at(s, n),
    ensures
        object_len(s) == Some(n),
{
    let m = choose|m: int| closes_at(s, m);
    if n < m {
        assert(scan(s.take(n)).depth != 0);
    } else if m < n {
        assert(scan(s.take(m)).depth != 0);
    }
}

/// The first fenced block of `v`.
fn fenced_block(v: &Vec<char>) -> (r: Option<String>)
    ensures
        match r {
            Some(inner) => fenced(v@) == Some(inner@),
            None => fenced(v@) is None,
        },
{
    let n: usize = v.len();
    let fence = chars_of("```");
    let label = chars_of("json");
    proof {
        reveal_strlit("```");
        reveal_strlit("json");
        assert(v@.subrange(0, n as int) == v@);
    }
    match find_in(v, 0, n, &fence) {
        Some(i) => {
            let mut from: usize = i + 3;
            let ghost opened = v@.skip(i + 3);
            assert(v@.subrange(from as int, n as int) == opened);
            if starts(v, from, n, &label) {
                from = from + 4;
            }
            assert(v@.subrange(from as int, n as int) == without_label(opened));
            match find_in(v, from, n, &fence) {
                Some(j) => {
                    let block = string_of(v, from, from + j);
                    let inner = trim(block.as_str());
                    assert(block@ == without_label(opened).take(j as int));
                    if !inner.as_str().is_empty() {
                        return Some(inner);
                    }
                },
                None => {},
            }
            None
        },
        None => None,
    }
}

/// The first balanced object of `v`.
fn object_in(v: &Vec<char>) -> (r: Option<String>)
    ensures
        match r {
            Some(object) => first_object(v@) == Some(object@),
            None => first_object(v@) is None,
        },
{
    let n: usize = v.len();
    let brace = chars_of("{");
    proof {
        reveal_strlit("{");
        assert(v@.subrange(0, n as int) == v@);
    }
    let start: usize = match find_in(v, 0, n, &brace) {
        Some(start) => start,
        None => {
            return None;
        },
    };
    let ghost rest = v@.skip(start as int);
    proof {
        assert(v@.subrange(start as int, start + 1)[0] == '{');
    }
    let mut depth: usize = 0;
    let mut in_str = false;
    let mut escape = false;
    let mut i: usize = start;
    assert(rest.take(0) == Seq::<char>::empty());
    while i < n
        invariant
            0 <= start <= i <= n,
            start < n,
            n == v.len(),
            v@[start as int] == '{',
            rest == v@.skip(start as int),
            find(v@, "{"@) == Some(start as int),
            scan(rest.take(i - start)) == (Scan { depth: depth as int, in_str, escape }),
            depth <= i - start,
            forall|m: int| 0 < m <= i - start ==> (#[trigger] scan(rest.take(m))).depth > 0,
        decreases n - i,
    {
        let c = v[i];
        proof {
            assert(rest.take(i - start + 1).drop_last() == rest.take(i - start));
            assert(rest.take(i - start + 1).last() == c);
        }
        if escape {
            escape = false;
        } else if c == '\\' && in_str {
            escape = true;
        } else if c == '"' {
            in_str = !in_str;
        } else if c == '{' && !in_str {
            depth = depth + 1;
        } else if c == '}' && !in_str {
            depth = depth - 1;
            if depth == 0 {
                proof {
                    assert(closes_at(rest, i - start + 1));
                    lemma_object_len(rest, i - start + 1);
                    assert(rest.take(i - start + 1) == v@.subrange(start as int, i + 1));
                }
                return Some(string_of(v, start, i + 1));
            }
        }
        i = i + 1;
    }
    None
}

/// Finds the JSON in a reply: strips a Markdown fence, or pulls the first
/// balanced object out of the prose around it.
pub fn extract_json_candidate(text: &str) -> (r: Option<String>)
    ensures
        match r {
            Some(candidate) => extracted(text@) == Some(candidate@),
            None => extracted(text@) is None,
        },
{
    let trimmed_text = trim(text);
    let v = chars_of(trimmed_text.as_str());
    match fenced_block(&v) {
        Some(inner) => Some(inner),
        None => object_in(&v),
    }
}

// ---------------------------------------------------------------------------
// Laws

/// What is extracted stands in the reply as it is.
pub proof fn law_extracted_is_part(text: Seq<char>)
    ensures
        extracted(text) matches Some(candidate) ==> exists|i: int|
            #[trigger] occurs_at(text, candidate, i),
{
    let (a, b) = lemma_trimmed_subrange(text);
    let t = trimmed(text);
    if let Some(candidate) = fenced(t) {
        reveal_strlit("```");
        reveal_strlit("json");
        let i = find(t, "```"@)->0;
        assert(first_at(t, "```"@, i));
        let opened = t.skip(i + 3);
        let after = without_label(opened);
        let label: int = if "json"@.is_prefix_of(opened) {
            4
        } else {
            0
        };
        let from = i + 3 + label;
        assert(after =~= t.skip(from));
        let j = find(after, "```"@)->0;
        assert(first_at(after, "```"@, j));
        let block = after.take(j);
        let (c, d) = lemma_trimmed_subrange(block);
        assert(candidate =~= text.subrange(a + from + c, a + from + d));
        assert(occurs_at(text, candidate, a + from + c));
    } else if let Some(candidate) = first_object(t) {
        reveal_strlit("{");
        let start = find(t, "{"@)->0;
        assert(first_at(t, "{"@, start));
        let rest = t.skip(start);
        let n = object_len(rest)->0;
        assert(closes_at(rest, n));
        assert(candidate =~= text.subrange(a + start, a + start + n));
        assert(occurs_at(text, candidate, a + start));
    }
}

/// An object that stands in prose is pulled out of it, whatever the prose
/// says, as long as no brace comes before the object and no fence occurs at
/// all.
pub proof fn law_object_in_prose(before: Seq<char>, object: Seq<char>, after: Seq<char>)
    requires
        balanced_object(object),
        !before.contains('{'),
        forall|i: int| !#[trigger] occurs_at(before + object + after, "```"@, i),
    ensures
        extracted(before + object + after) == Some(object),
{
    let text = before + object + after;
    lemma_first_object(before, object, after);
    let (a, b) = lemma_trimmed_subrange(text);
    let t = trimmed(text);
    reveal_strlit("```");
    if fenced(t) is Some {
        let i = find(t, "```"@)->0;
        assert(first_at(t, "```"@, i));
        assert(text.subrange(a + i, a + i + 3) =~= t.subrange(i, i + 3));
        assert(occurs_at(text, "```"@, a + i));
    }
}

/// The first object of a trimmed text is the one before which no brace comes.
proof fn lemma_first_object(before: Seq<char>, object: Seq<char>, after: Seq<char>)
    requires
        balanced_object(object),
        !before.contains('{'),
    ensures
        first_object(trimmed(before + object + after)) == Some(object),
{
    let text = before + object + after;
    let n = object.len() as int;
    reveal_strlit("{");
    assert(object.take(n) =~= object);
    assert(object.drop_last() =~= object.take(n - 1));
    if n == 1 {
        assert(scan(object.drop_last()).depth == 0);
    } else {
        assert(scan(object.take(n - 1)).depth != 0);
    }
    assert(object.last() == '}' || object.last() == '{');
    lemma_trimmed_around(before, object, after);
    let t = trimmed(text);
    let lead = trimmed_start(before);
    let start = lead.len() as int;
    assert(t.subrange(start, start + 1) =~= "{"@);
    assert forall|j: int| 0 <= j < start implies !#[trigger] occurs_at(t, "{"@, j) by {
        if occurs_at(t, "{"@, j) {
            assert(t.subrange(j, j + 1)[0] == '{');
            assert(lead[j] == '{');
            lemma_start_part(before, j);
        }
    }
    lemma_find(t, "{"@, start);
    let rest = t.skip(start);
    assert(rest =~= object + trimmed_end(after));
    assert forall|m: int| 0 < m < n implies (#[trigger] scan(rest.take(m))).depth != 0 by {
        assert(rest.take(m) =~= object.take(m));
        assert(scan(object.take(m)).depth != 0);
    }
    assert(rest.take(n) =~= object.take(n));
    assert(closes_at(rest, n));
    lemma_object_len(rest, n);
}

/// Every character that is left of a text after its leading white space was
/// there before.
proof fn lemma_start_part(s: Seq<char>, j: int)
    requires
        0 <= j < trimmed_start(s).len(),
    ensures
        s.contains(trimmed_start(s)[j]),
    decreases s.len(),
{
    if s.len() > 0 && is_white_space(s[0]) {
        lemma_start_part(s.drop_first(), j);
        let k = s.drop_first().index_of(trimmed_start(s)[j]);
        assert(s[k + 1] == trimmed_start(s)[j]);
    }
}

/// The body of the first fenced block is extracted, trimmed, whatever stands
/// before and after the block, and whether or not the opening fence carries
/// the label `json`: as long as neither `before` nor `body` brings a fence of
/// its own, and the body is not blank.
pub proof fn law_fenced_block(
    before: Seq<char>,
    label: Seq<char>,
    body: Seq<char>,
    after: Seq<char>,
)
    requires
        first_at(before + "```"@, "```"@, before.len() as int),
        first_at(body + "```"@, "```"@, body.len() as int),
        label == "json"@ || (label.len() == 0 && !"json"@.is_prefix_of(body)),
        trimmed(body).len() > 0,
    ensures
        extracted(before + "```"@ + label + body + "```"@ + after) == Some(trimmed(body)),
{
    lemma_fenced(before, label, body, after);
}

/// The first fenced block gives its body, trimmed, or nothing where that is
/// blank.
proof fn lemma_fenced(before: Seq<char>, label: Seq<char>, body: Seq<char>, after: Seq<char>)
    requires
        first_at(before + "```"@, "```"@, before.len() as int),
        first_at(body + "```"@, "```"@, body.len() as int),
        label == "json"@ || (label.len() == 0 && !"json"@.is_prefix_of(body)),
    ensures
        fenced(trimmed(before + "```"@ + label + body + "```"@ + after)) == if trimmed(body).len()
            > 0 {
            Some(trimmed(body))
        } else {
            None
        },
{
    reveal_strlit("```");
    reveal_strlit("json");
    let fence = "```"@;
    let block = fence + label + body + fence;
    assert(before + fence + label + body + fence + after =~= before + block + after);
    lemma_trimmed_around(before, block, after);
    let lead = trimmed_start(before);
    let tail = trimmed_end(after);
    let t = lead + block + tail;
    let i = lead.len() as int;
    let (a, b) = lemma_trimmed_subrange(before + fence);
    lemma_trimmed_around(before, fence, seq![]);
    assert(before + fence + Seq::<char>::empty() =~= before + fence);
    assert(trimmed(before + fence) =~= lead + fence);
    assert(t.subrange(i, i + 3) =~= fence);
    assert forall|j: int| 0 <= j < i implies !#[trigger] occurs_at(t, fence, j) by {
        if occurs_at(t, fence, j) {
            assert((lead + fence).subrange(j, j + 3) =~= t.subrange(j, j + 3));
            assert((before + fence).subrange(a + j, a + j + 3) =~= (lead + fence).subrange(
                j,
                j + 3,
            ));
            assert(occurs_at(before + fence, fence, a + j));
        }
    }
    lemma_find(t, fence, i);
    let opened = t.skip(i + 3);
    let rest = body + fence + tail;
    assert(opened =~= label + rest);
    if label == "json"@ {
        assert(opened.subrange(0, 4) =~= "json"@);
        assert(opened.skip(4) =~= rest);
    } else {
        assert(opened =~= rest);
        if "json"@.is_prefix_of(rest) {
            let n = body.len() as int;
            assert(rest.subrange(0, 4)[0] == 'j' && rest.subrange(0, 4)[1] == 's' && rest.subrange(
                0,
                4,
            )[2] == 'o' && rest.subrange(0, 4)[3] == 'n');
            if n < 4 {
                assert(rest[n] == '`');
            }
            assert(body.subrange(0, 4) =~= rest.subrange(0, 4));
        }
    }
    let n = body.len() as int;
    assert(rest.subrange(n, n + 3) =~= fence);
    assert forall|j: int| 0 <= j < n implies !#[trigger] occurs_at(rest, fence, j) by {
        if occurs_at(rest, fence, j) {
            assert((body + fence).subrange(j, j + 3) =~= rest.subrange(j, j + 3));
            assert(occurs_at(body + fence, fence, j));
        }
    }
    lemma_find(rest, fence, n);
    assert(rest.take(n) =~= body);
}

/// The inside of a JSON string: no quotation mark but after a backslash, and
/// something after every backslash.
pub open spec fn string_body(s: Seq<char>) -> bool
    decreases s.len(),
{
    if s.len() == 0 {
        true
    } else if s[0] == '\\' {
        s.len() >= 2 && string_body(s.skip(2))
    } else {
        s[0] != '"' && string_body(s.skip(1))
    }
}

/// A part of a JSON object, as far as the object's extent goes: a string, given
/// by its inside, an object, or any other character.
pub ghost enum Part {
    Text(Seq<char>),
    Object(Seq<Part>),
    Other(char),
}

/// The part can stand in an object: a string's inside is one, and the other
/// characters are neither quotation marks nor braces.
pub open spec fn part_ok(part: Part) -> bool
    decreases part,
{
    match part {
        Part::Text(body) => string_body(body),
        Part::Object(parts) => parts_ok(parts),
        Part::Other(c) => c != '"' && c != '{' && c != '}',
    }
}

/// All parts can stand in an object.
pub open spec fn parts_ok(parts: Seq<Part>) -> bool
    decreases parts,
{
    parts.len() == 0 || parts_ok(parts.drop_last()) && part_ok(parts.last())
}

/// The text of a part.
pub open spec fn part_text(part: Part) -> Seq<char>
    decreases part,
{
    match part {
        Part::Text(body) => seq!['"'] + body + seq!['"'],
        Part::Object(parts) => seq!['{'] + parts_text(parts) + seq!['}'],
        Part::Other(c) => seq![c],
    }
}

/// The texts of all parts, one after the other.
pub open spec fn parts_text(parts: Seq<Part>) -> Seq<char>
    decreases parts,
{
    if parts.len() == 0 {
        seq![]
    } else {
        parts_text(parts.drop_last()) + part_text(parts.last())
    }
}

/// The text of an object with the given parts. The text of every JSON object is
/// of this form.
pub open spec fn object_text(parts: Seq<Part>) -> Seq<char> {
    seq!['{'] + parts_text(parts) + seq!['}']
}

/// A scan that stands outside of any string, with `depth` objects open.
spec fn outside(depth: int) -> Scan {
    Scan { depth, in_str: false, escape: false }
}

/// A scan that stands inside a string, with `depth` objects open.
spec fn inside(depth: int) -> Scan {
    Scan { depth, in_str: true, escape: false }
}

proof fn lemma_scan_push(s: Seq<char>, c: char)
    ensures
        scan(s.push(c)) == scan_step(scan(s), c),
{
    assert(s.push(c).drop_last() =~= s);
}

proof fn lemma_scan_string_body(before: Seq<char>, body: Seq<char>, depth: int)
    requires
        scan(before) == inside(depth),
        string_body(body),
    ensures
        scan(before + body) == inside(depth),
        forall|m: int|
            0 <= m <= body.len() ==> (#[trigger] scan(before + body.take(m))).depth == depth,
    decreases body.len(),
{
    let k: int = if body.len() == 0 {
        0
    } else if body[0] == '\\' {
        2
    } else {
        1
    };
    let next = before + body.take(k);
    let rest = body.skip(k);
    assert(before + body.take(0) =~= before);
    if k == 0 {
        assert(before + body =~= before);
        assert(forall|m: int| 0 <= m <= body.len() ==> body.take(m) =~= body);
    } else {
        lemma_scan_push(before, body[0]);
        assert(before + body.take(1) =~= before.push(body[0]));
        if k == 2 {
            lemma_scan_push(before.push(body[0]), body[1]);
            assert(next =~= before.push(body[0]).push(body[1]));
        }
        lemma_scan_string_body(next, rest, depth);
        assert(before + body =~= next + rest);
        assert forall|m: int| 0 <= m <= body.len() implies (#[trigger] scan(
            before + body.take(m),
        )).depth == depth by {
            if m >= k {
                assert(before + body.take(m) =~= next + rest.take(m - k));
            } else if m == 1 {
                assert(before + body.take(1) =~= before.push(body[0]));
            }
        }
    }
}

proof fn lemma_scan_part(before: Seq<char>, part: Part, depth: int)
    requires
        scan(before) == outside(depth),
        part_ok(part),
    ensures
        scan(before + part_text(part)) == outside(depth),
        forall|m: int|
            0 <= m <= part_text(part).len() ==> (#[trigger] scan(
                before + part_text(part).take(m),
            )).depth >= depth,
    decreases part, 0int,
{
    let text = part_text(part);
    match part {
        Part::Text(body) => {
            let open = before.push('"');
            lemma_scan_push(before, '"');
            lemma_scan_string_body(open, body, depth);
            lemma_scan_push(open + body, '"');
            assert(before + text =~= (open + body).push('"'));
            assert forall|m: int| 0 <= m <= text.len() implies (#[trigger] scan(
                before + text.take(m),
            )).depth >= depth by {
                if m == 0 {
                    assert(before + text.take(m) =~= before);
                } else if m < text.len() {
                    assert(before + text.take(m) =~= open + body.take(m - 1));
                } else {
                    assert(before + text.take(m) =~= before + text);
                }
            }
        },
        Part::Object(parts) => {
            lemma_scan_object(before, parts, depth);
            assert forall|m: int| 0 <= m <= text.len() implies (#[trigger] scan(
                before + text.take(m),
            )).depth >= depth by {
                assert(text == object_text(parts));
                if m == 0 {
                    assert(before + text.take(m) =~= before);
                } else if m == text.len() {
                    assert(before + text.take(m) =~= before + text);
                }
            }
        },
        Part::Other(c) => {
            lemma_scan_push(before, c);
            assert(before + text =~= before.push(c));
            assert forall|m: int| 0 <= m <= text.len() implies (#[trigger] scan(
                before + text.take(m),
            )).depth >= depth by {
                if m == 0 {
                    assert(before + text.take(m) =~= before);
                } else {
                    assert(before + text.take(m) =~= before.push(c));
                }
            }
        },
    }
}

proof fn lemma_scan_parts(before: Seq<char>, parts: Seq<Part>, depth: int)
    requires
        scan(before) == outside(depth),
        parts_ok(parts),
    ensures
        scan(before + parts_text(parts)) == outside(depth),
        forall|m: int|
            0 <= m <= parts_text(parts).len() ==> (#[trigger] scan(
                before + parts_text(parts).take(m),
            )).depth >= depth,
    decreases parts, 0int,
{
    let text = parts_text(parts);
    if parts.len() == 0 {
        assert(before + text =~= before);
        assert forall|m: int| 0 <= m <= text.len() implies (#[trigger] scan(
            before + text.take(m),
        )).depth >= depth by {
            assert(before + text.take(m) =~= before);
        }
    } else {
        let front = parts_text(parts.drop_last());
        let last = part_text(parts.last());
        lemma_scan_parts(before, parts.drop_last(), depth);
        lemma_scan_part(before + front, parts.last(), depth);
        assert(before + text =~= (before + front) + last);
        assert forall|m: int| 0 <= m <= text.len() implies (#[trigger] scan(
            before + text.take(m),
        )).depth >= depth by {
            if m <= front.len() {
                assert(before + text.take(m) =~= before + front.take(m));
            } else {
                assert(before + text.take(m) =~= (before + front) + last.take(m - front.len()));
            }
        }
    }
}

proof fn lemma_scan_object(before: Seq<char>, parts: Seq<Part>, depth: int)
    requires
        scan(before) == outside(depth),
        parts_ok(parts),
    ensures
        scan(before + object_text(parts)) == outside(depth),
        forall|m: int|
            0 < m < object_text(parts).len() ==> (#[trigger] scan(
                before + object_text(parts).take(m),
            )).depth > depth,
    decreases parts, 1int,
{
    let text = object_text(parts);
    let body = parts_text(parts);
    let open = before.push('{');
    lemma_scan_push(before, '{');
    lemma_scan_parts(open, parts, depth + 1);
    lemma_scan_push(open + body, '}');
    assert(before + text =~= (open + body).push('}'));
    assert forall|m: int| 0 < m < text.len() implies (#[trigger] scan(
        before + text.take(m),
    )).depth > depth by {
        assert(before + text.take(m) =~= open + body.take(m - 1));
    }
}

proof fn lemma_object_text_balanced(parts: Seq<Part>)
    requires
        parts_ok(parts),
    ensures
        balanced_object(object_text(parts)),
{
    let none = Seq::<char>::empty();
    let object = object_text(parts);
    lemma_scan_object(none, parts, 0);
    assert(none + object =~= object);
    let n = object.len() as int;
    assert(object.take(n) =~= object);
    assert forall|m: int| 0 < m < n implies (#[trigger] scan(object.take(m))).depth != 0 by {
        assert(none + object.take(m) =~= object.take(m));
    }
}

/// A JSON object in prose is extracted whole, from its opening brace to the
/// brace that closes it, whatever stands in its strings: as long as no brace
/// comes before it and the text does not hold two fences, one after the other.
pub proof fn law_json_object_found(before: Seq<char>, parts: Seq<Part>, after: Seq<char>)
    requires
        parts_ok(parts),
        !before.contains('{'),
        forall|i: int, j: int|
            0 <= i && i + 3 <= j && j + 3 <= (before + object_text(parts) + after).len() ==> !({
                &&& #[trigger] (before + object_text(parts) + after).subrange(i, i + 3) == "```"@
                &&& #[trigger] (before + object_text(parts) + after).subrange(j, j + 3) == "```"@
            }),
    ensures
        extracted(before + object_text(parts) + after) == Some(object_text(parts)),
{
    let object = object_text(parts);
    let text = before + object + after;
    lemma_object_text_balanced(parts);
    lemma_first_object(before, object, after);
    lemma_no_block(text);
}

/// Where no two fences follow one another there is no fenced block.
proof fn lemma_no_block(text: Seq<char>)
    requires
        forall|i: int, j: int|
            0 <= i && i + 3 <= j && j + 3 <= text.len() ==> !({
                &&& #[trigger] text.subrange(i, i + 3) == "```"@
                &&& #[trigger] text.subrange(j, j + 3) == "```"@
            }),
    ensures
        fenced(trimmed(text)) is None,
{
    reveal_strlit("```");
    reveal_strlit("json");
    let (a, b) = lemma_trimmed_subrange(text);
    let t = trimmed(text);
    if fenced(t) is Some {
        let i = find(t, "```"@)->0;
        assert(first_at(t, "```"@, i));
        let opened = t.skip(i + 3);
        let after = without_label(opened);
        let label: int = if "json"@.is_prefix_of(opened) {
            4
        } else {
            0
        };
        assert(after =~= t.skip(i + 3 + label));
        let j = find(after, "```"@)->0;
        assert(first_at(after, "```"@, j));
        let p = a + i;
        let q = a + i + 3 + label + j;
        assert(text.subrange(p, p + 3) =~= t.subrange(i, i + 3));
        assert(text.subrange(q, q + 3) =~= after.subrange(j, j + 3));
    }
}

/// A fenced block is extracted, trimmed, whatever it says: as long as no fence
/// comes before it or stands in it, counting the marks of the fences that
/// enclose it, and it is not blank. A blank block is passed over, and the first
/// object in the text is extracted.
pub proof fn law_block_found(
    before: Seq<char>,
    labelled: bool,
    body: Seq<char>,
    after: Seq<char>,
    middle: Seq<char>,
    parts: Seq<Part>,
    tail: Seq<char>,
)
    requires
        forall|i: int|
            0 <= i < before.len() ==> #[trigger] (before + "```"@).subrange(i, i + 3) != "```"@,
        forall|i: int|
            0 <= i < body.len() ==> #[trigger] (body + "```"@).subrange(i, i + 3) != "```"@,
        !labelled ==> !(body.len() >= 4 && body.take(4) == "json"@),
    ensures
        ({
            let label = if labelled {
                "json"@
            } else {
                Seq::empty()
            };
            let text = before + "```"@ + label + body + "```"@ + after;
            &&& !all_white(body) ==> extracted(text) == Some(trimmed(body))
            &&& {
                &&& all_white(body)
                &&& after == middle + object_text(parts) + tail
                &&& parts_ok(parts)
                &&& !before.contains('{') && !middle.contains('{')
            } ==> extracted(text) == Some(object_text(parts))
        }),
{
    reveal_strlit("```");
    reveal_strlit("json");
    let fence = "```"@;
    let label = if labelled {
        "json"@
    } else {
        Seq::<char>::empty()
    };
    let text = before + fence + label + body + fence + after;
    assert((before + fence).subrange(before.len() as int, before.len() as int + 3) =~= fence);
    assert((body + fence).subrange(body.len() as int, body.len() as int + 3) =~= fence);
    assert(first_at(before + fence, fence, before.len() as int));
    assert(first_at(body + fence, fence, body.len() as int));
    if !labelled && "json"@.is_prefix_of(body) {
        assert(body.take(4) =~= "json"@);
    }
    lemma_fenced(before, label, body, after);
    if all_white(body) {
        law_trimmed(body, Seq::empty(), Seq::empty());
        assert(body + Seq::<char>::empty() + Seq::<char>::empty() =~= body);
        if after == middle + object_text(parts) + tail && parts_ok(parts) && !before.contains('{')
            && !middle.contains('{') {
            let object = object_text(parts);
            let lead = before + fence + label + body + fence + middle;
            assert(text =~= lead + object + tail);
            assert forall|i: int| 0 <= i < lead.len() implies lead[i] != '{' by {
                let n = before.len() as int;
                let l = label.len() as int;
                if i < n {
                    assert(before[i] != '{');
                } else if i < n + 3 {
                    assert(lead[i] == fence[i - n]);
                } else if i < n + 3 + l {
                    assert(lead[i] == label[i - n - 3]);
                } else if i < n + 3 + l + body.len() {
                    assert(lead[i] == body[i - n - 3 - l]);
                    assert(is_white_space(body[i - n - 3 - l]));
                } else if i < n + 6 + l + body.len() {
                    assert(lead[i] == fence[i - n - 3 - l - body.len()]);
                } else {
                    assert(lead[i] == middle[i - n - 6 - l - body.len()]);
                }
            }
            lemma_object_text_balanced(parts);
            lemma_first_object(lead, object, tail);
        }
    } else if trimmed(body).len() == 0 {
        lemma_blank(body);
    }
}

/// Nothing is extracted from a text in which no brace opens and that does not
/// hold two fences, one after the other.
pub proof fn law_nothing_to_extract(text: Seq<char>)
    requires
        forall|i: int, j: int|
            0 <= i && i + 3 <= j && j + 3 <= text.len() ==> !({
                &&& #[trigger] text.subrange(i, i + 3) == "```"@
                &&& #[trigger] text.subrange(j, j + 3) == "```"@
            }),
        !text.contains('{'),
    ensures
        extracted(text) is None,
{
    reveal_strlit("{");
    lemma_no_block(text);
    let (a, b) = lemma_trimmed_subrange(text);
    let t = trimmed(text);
    if first_object(t) is Some {
        let start = find(t, "{"@)->0;
        assert(first_at(t, "{"@, start));
        assert(t.subrange(start, start + 1)[0] == '{');
        assert(text[a + start] == '{');
    }
}

/// Objects that are open one inside the other: of each, the brace that opens it
/// and the parts that follow.
pub open spec fn open_text(levels: Seq<Seq<Part>>) -> Seq<char>
    decreases levels.len(),
{
    if levels.len() == 0 {
        seq![]
    } else {
        open_text(levels.drop_last()) + seq!['{'] + parts_text(levels.last())
    }
}

/// Nothing, or a string that is never closed.
pub open spec fn open_string(s: Seq<char>) -> bool {
    ||| s.len() == 0
    ||| s[0] == '"' && string_body(s.skip(1))
    ||| s.len() >= 2 && s[0] == '"' && s.last() == '\\' && string_body(s.subrange(1, s.len() - 1))
}

proof fn lemma_scan_levels(levels: Seq<Seq<Part>>)
    requires
        forall|i: int| 0 <= i < levels.len() ==> parts_ok(#[trigger] levels[i]),
    ensures
        scan(open_text(levels)) == outside(levels.len() as int),
        forall|m: int|
            0 < m <= open_text(levels).len() ==> (#[trigger] scan(open_text(levels).take(m))).depth
                > 0,
        levels.len() > 0 ==> open_text(levels).len() > 0 && open_text(levels)[0] == '{',
    decreases levels.len(),
{
    if levels.len() > 0 {
        let n = levels.len() as int;
        let outer = open_text(levels.drop_last());
        let parts = levels.last();
        assert(parts_ok(levels[n - 1]));
        assert forall|i: int| 0 <= i < n - 1 implies parts_ok(#[trigger] levels.drop_last()[i]) by {
            assert(parts_ok(levels[i]));
        }
        lemma_scan_levels(levels.drop_last());
        let open = outer.push('{');
        lemma_scan_push(outer, '{');
        lemma_scan_parts(open, parts, n);
        let text = open_text(levels);
        assert(text =~= open + parts_text(parts));
        assert forall|m: int| 0 < m <= text.len() implies (#[trigger] scan(text.take(m))).depth
            > 0 by {
            if m <= outer.len() {
                assert(text.take(m) =~= outer.take(m));
            } else {
                assert(text.take(m) =~= open + parts_text(parts).take(m - open.len()));
            }
        }
    }
}

proof fn lemma_scan_open_string(before: Seq<char>, s: Seq<char>, depth: int)
    requires
        scan(before) == outside(depth),
        open_string(s),
    ensures
        forall|m: int| 0 <= m <= s.len() ==> (#[trigger] scan(before + s.take(m))).depth == depth,
{
    assert(before + s.take(0) =~= before);
    if s.len() > 0 {
        let open = before.push('"');
        lemma_scan_push(before, '"');
        let cut: int = if string_body(s.skip(1)) {
            0
        } else {
            1
        };
        let body = s.subrange(1, s.len() - cut);
        assert(cut == 0 ==> body =~= s.skip(1));
        lemma_scan_string_body(open, body, depth);
        if cut == 1 {
            lemma_scan_push(open + body, '\\');
            assert(before + s =~= (open + body).push('\\'));
        }
        assert forall|m: int| 0 <= m <= s.len() implies (#[trigger] scan(
            before + s.take(m),
        )).depth == depth by {
            if 0 < m <= s.len() - cut {
                assert(before + s.take(m) =~= open + body.take(m - 1));
            } else if m > 0 {
                assert(s.take(m) =~= s);
            }
        }
    }
}

/// Nothing is extracted where the first brace that opens is never closed, be it
/// that other objects or a string are still open inside: as long as the text
/// does not hold two fences, one after the other.
pub proof fn law_open_object(before: Seq<char>, levels: Seq<Seq<Part>>, string: Seq<char>)
    requires
        levels.len() > 0,
        forall|i: int| 0 <= i < levels.len() ==> parts_ok(#[trigger] levels[i]),
        open_string(string),
        !before.contains('{'),
        forall|i: int, j: int|
            0 <= i && i + 3 <= j && j + 3 <= (before + (open_text(levels) + string)).len() ==> !({
                &&& #[trigger] (before + (open_text(levels) + string)).subrange(i, i + 3) == "```"@
                &&& #[trigger] (before + (open_text(levels) + string)).subrange(j, j + 3) == "```"@
            }),
    ensures
        extracted(before + (open_text(levels) + string)) is None,
{
    reveal_strlit("{");
    let opened = open_text(levels);
    let middle = opened + string;
    let text = before + middle;
    lemma_no_block(text);
    lemma_scan_levels(levels);
    lemma_scan_open_string(opened, string, levels.len() as int);
    let t = trimmed(text);
    let brace = seq!['{'];
    lemma_trimmed_around(before, brace, middle.skip(1));
    assert(before + brace + middle.skip(1) =~= text);
    let k = lemma_trimmed_end_subrange(middle.skip(1));
    let lead = trimmed_start(before);
    let start = lead.len() as int;
    assert(t =~= lead + middle.take(k + 1));
    assert(t.subrange(start, start + 1) =~= "{"@);
    assert forall|j: int| 0 <= j < start implies !#[trigger] occurs_at(t, "{"@, j) by {
        if occurs_at(t, "{"@, j) {
            assert(t.subrange(j, j + 1)[0] == '{');
            assert(lead[j] == '{');
            lemma_start_part(before, j);
        }
    }
    lemma_find(t, "{"@, start);
    let rest = t.skip(start);
    assert(rest =~= middle.take(k + 1));
    if object_len(rest) is Some {
        let n = object_len(rest)->0;
        assert(closes_at(rest, n));
        if n <= opened.len() {
            assert(rest.take(n) =~= opened.take(n));
        } else {
            assert(rest.take(n) =~= opened + string.take(n - opened.len()));
        }
    }
}

} // verus!
