//! Parsing the display tool's status output.
//!
//! The tool's query operation prints zero or more lines; a line that
//! reports the wallpaper on show holds the marker
//! `currently displaying: image: ` followed by the image's path.  The
//! parser finds the first occurrence of the marker and hands back the
//! rest of that line, trimmed of surrounding whitespace.  Output with
//! no marker parses to nothing: not every display backend reports a
//! current image, and that is no error.

use vstd::prelude::*;

verus! {

/// The marker that introduces the current image's path:
/// the bytes of `currently displaying: image: `.
pub open spec fn marker() -> Seq<u8> {
    seq![
        99u8, 117u8, 114u8, 114u8, 101u8, 110u8, 116u8, 108u8, 121u8, 32u8,
        100u8, 105u8, 115u8, 112u8, 108u8, 97u8, 121u8, 105u8, 110u8, 103u8,
        58u8, 32u8, 105u8, 109u8, 97u8, 103u8, 101u8, 58u8, 32u8,
    ]
}

/// Whether the marker stands in `s` at position `i`.
pub open spec fn match_at(s: Seq<u8>, i: int) -> bool {
    0 <= i && i + marker().len() <= s.len() && s.subrange(i, i + marker().len() as int)
        == marker()
}

/// The first position at or after `i` where the marker stands in `s`.
pub open spec fn find_marker_from(s: Seq<u8>, i: int) -> Option<int>
    decreases s.len() - i,
{
    if i < 0 || i + marker().len() > s.len() {
        None
    } else if match_at(s, i) {
        Some(i)
    } else {
        find_marker_from(s, i + 1)
    }
}

/// The position of the first line break at or after `i`, or the end of
/// `s` where none follows.
pub open spec fn line_end_from(s: Seq<u8>, i: int) -> int
    decreases s.len() - i,
{
    if i < 0 || i >= s.len() {
        s.len() as int
    } else if s[i] == 10u8 {
        i
    } else {
        line_end_from(s, i + 1)
    }
}

/// ASCII whitespace: space, tab, line feed, carriage return.
pub open spec fn is_space(b: u8) -> bool {
    b == 32 || b == 9 || b == 10 || b == 13
}

/// `s` without its leading whitespace.
pub open spec fn trim_front(s: Seq<u8>) -> Seq<u8>
    decreases s.len(),
{
    if s.len() > 0 && is_space(s[0]) {
        trim_front(s.drop_first())
    } else {
        s
    }
}

/// `s` without its trailing whitespace.
pub open spec fn trim_back(s: Seq<u8>) -> Seq<u8>
    decreases s.len(),
{
    if s.len() > 0 && is_space(s.last()) {
        trim_back(s.drop_last())
    } else {
        s
    }
}

/// `s` without its surrounding whitespace.
pub open spec fn trimmed(s: Seq<u8>) -> Seq<u8> {
    trim_back(trim_front(s))
}

/// What the query output reports as the current image: the rest of the
/// first marker's line, trimmed; or nothing when no line holds the
/// marker.
pub open spec fn parsed_current(out: Seq<u8>) -> Option<Seq<u8>> {
    match find_marker_from(out, 0) {
        None => None,
        Some(i) => {
            let start = i + marker().len() as int;
            Some(trimmed(out.subrange(start, line_end_from(out, start))))
        },
    }
}

/// The marker as an executable byte vector.
fn marker_vec() -> (r: Vec<u8>)
    ensures
        r@ == marker(),
{
    let m: Vec<u8> = vec![
        99u8, 117u8, 114u8, 114u8, 101u8, 110u8, 116u8, 108u8, 121u8, 32u8,
        100u8, 105u8, 115u8, 112u8, 108u8, 97u8, 121u8, 105u8, 110u8, 103u8,
        58u8, 32u8, 105u8, 109u8, 97u8, 103u8, 101u8, 58u8, 32u8,
    ];
    proof {
        assert(m@ =~= marker());
    }
    m
}

/// Whether the marker stands in `s` at position `i`.
fn is_match_at(s: &Vec<u8>, m: &Vec<u8>, i: usize) -> (r: bool)
    requires
        m@ == marker(),
        i + m@.len() <= s@.len(),
    ensures
        r == match_at(s@, i as int),
{
    let n = s.len();
    let mut k: usize = 0;
    while k < m.len()
        invariant
            m@ == marker(),
            n == s@.len(),
            i + m@.len() <= s@.len(),
            k <= m@.len(),
            forall|j: int| 0 <= j < k ==> s@[i + j] == m@[j],
        decreases m@.len() - k,
    {
        if s[i + k] != m[k] {
            proof {
                assert(s@.subrange(i as int, i + marker().len() as int)[k as int] == s@[i + k]);
            }
            return false;
        }
        k = k + 1;
    }
    proof {
        assert(s@.subrange(i as int, i + marker().len() as int) =~= marker());
    }
    true
}

/// The first position of the marker in `s`, as `find_marker_from`
/// gives it.
fn find_marker(s: &Vec<u8>) -> (r: Option<usize>)
    ensures
        match r {
            Some(i) => i + marker().len() <= s@.len() && find_marker_from(s@, 0) == Some(
                i as int,
            ),
            None => find_marker_from(s@, 0) is None,
        },
{
    let m = marker_vec();
    let n = s.len();
    if n < 29 {
        return None;
    }
    let mut i: usize = 0;
    while i <= n - 29
        invariant
            m@ == marker(),
            n == s@.len(),
            n >= 29,
            i <= n,
            find_marker_from(s@, 0) == find_marker_from(s@, i as int),
        decreases s@.len() - i,
    {
        if is_match_at(s, &m, i) {
            return Some(i);
        }
        i = i + 1;
    }
    None
}

/// The end of the line that starts at or runs through `start`, as
/// `line_end_from` gives it.
fn find_line_end(s: &Vec<u8>, start: usize) -> (r: usize)
    requires
        start <= s@.len(),
    ensures
        start <= r <= s@.len(),
        r == line_end_from(s@, start as int),
{
    let n = s.len();
    let mut j: usize = start;
    while j < n
        invariant
            n == s@.len(),
            start <= j <= n,
            line_end_from(s@, start as int) == line_end_from(s@, j as int),
        decreases s@.len() - j,
    {
        if s[j] == 10u8 {
            return j;
        }
        j = j + 1;
    }
    n
}

/// `trim_front` of `s` drops exactly its leading whitespace.
proof fn lemma_trim_front_is_subrange(s: Seq<u8>, k: int)
    requires
        0 <= k <= s.len(),
        forall|j: int| 0 <= j < k ==> is_space(s[j]),
        k == s.len() || !is_space(s[k]),
    ensures
        trim_front(s) == s.subrange(k, s.len() as int),
    decreases k,
{
    if k == 0 {
        assert(s.subrange(0, s.len() as int) =~= s);
    } else {
        let t = s.drop_first();
        assert(forall|j: int| 0 <= j < k - 1 ==> is_space(t[j]));
        lemma_trim_front_is_subrange(t, k - 1);
        assert(t.subrange(k - 1, t.len() as int) =~= s.subrange(k, s.len() as int));
    }
}

/// `trim_back` of `s` drops exactly its trailing whitespace.
proof fn lemma_trim_back_is_subrange(s: Seq<u8>, k: int)
    requires
        0 <= k <= s.len(),
        forall|j: int| k <= j < s.len() ==> is_space(s[j]),
        k == 0 || !is_space(s[k - 1]),
    ensures
        trim_back(s) == s.subrange(0, k),
    decreases s.len(),
{
    if s.len() == 0 {
        assert(s.subrange(0, 0) =~= s);
    } else if k == s.len() {
        assert(s.subrange(0, s.len() as int) =~= s);
    } else {
        assert(is_space(s.last()));
        lemma_trim_back_is_subrange(s.drop_last(), k);
        assert(s.drop_last().subrange(0, k) =~= s.subrange(0, k));
    }
}

/// The bytes of `s` from `start` to `end`, trimmed of surrounding
/// whitespace.
fn trim_bytes(s: &Vec<u8>, start: usize, end: usize) -> (r: Vec<u8>)
    requires
        start <= end <= s@.len(),
    ensures
        r@ == trimmed(s@.subrange(start as int, end as int)),
{
    let mut a: usize = start;
    while a < end && (s[a] == 32u8 || s[a] == 9u8 || s[a] == 10u8 || s[a] == 13u8)
        invariant
            start <= a <= end <= s@.len(),
            forall|j: int| start <= j < a ==> is_space(s@[j]),
        decreases end - a,
    {
        a = a + 1;
    }
    let mut b: usize = end;
    while b > a && (s[b - 1] == 32u8 || s[b - 1] == 9u8 || s[b - 1] == 10u8 || s[b - 1] == 13u8)
        invariant
            start <= a <= b <= end <= s@.len(),
            forall|j: int| start <= j < a ==> is_space(s@[j]),
            forall|j: int| b <= j < end ==> is_space(s@[j]),
        decreases b,
    {
        b = b - 1;
    }
    let ghost sub = s@.subrange(start as int, end as int);
    proof {
        lemma_trim_front_is_subrange(sub, a - start);
        assert(sub.subrange(a - start, sub.len() as int) =~= s@.subrange(a as int, end as int));
        lemma_trim_back_is_subrange(s@.subrange(a as int, end as int), b - a);
        assert(s@.subrange(a as int, end as int).subrange(0, b - a) =~= s@.subrange(
            a as int,
            b as int,
        ));
    }
    let mut r: Vec<u8> = Vec::new();
    let mut k: usize = a;
    while k < b
        invariant
            a <= k <= b <= s@.len(),
            r@ == s@.subrange(a as int, k as int),
        decreases b - k,
    {
        r.push(s[k]);
        k = k + 1;
        proof {
            assert(r@ =~= s@.subrange(a as int, k as int));
        }
    }
    proof {
        if a == b {
            assert(r@ =~= s@.subrange(a as int, b as int));
        }
    }
    r
}

/// What the query output reports as the current image, as
/// `parsed_current` gives it: the rest of the first marker's line,
/// trimmed; or nothing when no line holds the marker.
pub fn parse_query_output(out: &Vec<u8>) -> (r: Option<Vec<u8>>)
    ensures
        match r {
            Some(p) => parsed_current(out@) == Some(p@),
            None => parsed_current(out@) is None,
        },
{
    let i = match find_marker(out) {
        None => {
            return None;
        },
        Some(i) => i,
    };
    let n = out.len();
    proof {
        assert(marker().len() == 29);
        assert(n == out@.len());
    }
    let start = i + 29;
    let end = find_line_end(out, start);
    Some(trim_bytes(out, start, end))
}

} // verus!
