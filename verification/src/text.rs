//! Character-level text operations and their mathematical models.
//!
//! Every model is a function on `Seq<char>`; the executable counterparts work
//! on a window `lo..hi` of a character vector, so that a parser can narrow a
//! window step by step without copying.

use vstd::prelude::*;

verus! {

/// A set of characters that a scan can test for.
#[derive(Clone, Copy, Debug)]
pub enum CharClass {
    /// The characters with the Unicode property `White_Space`.
    Whitespace,
    /// Exactly the given character.
    Only(char),
    /// Every character but the given one.
    Except(char),
}

/// Whether `c` has the Unicode property `White_Space`.
pub open spec fn is_whitespace(c: char) -> bool {
    let u = c as u32;
    ||| 0x09 <= u <= 0x0D
    ||| u == 0x20
    ||| u == 0x85
    ||| u == 0xA0
    ||| u == 0x1680
    ||| 0x2000 <= u <= 0x200A
    ||| u == 0x2028
    ||| u == 0x2029
    ||| u == 0x202F
    ||| u == 0x205F
    ||| u == 0x3000
}

impl CharClass {
    /// Whether `c` belongs to the class.
    pub open spec fn holds(self, c: char) -> bool {
        match self {
            CharClass::Whitespace => is_whitespace(c),
            CharClass::Only(d) => c == d,
            CharClass::Except(d) => c != d,
        }
    }

    /// Tests whether `c` belongs to the class.
    pub fn test(&self, c: char) -> (r: bool)
        ensures
            r == self.holds(c),
    {
        match self {
            CharClass::Whitespace => char_is_whitespace(c),
            CharClass::Only(d) => c == *d,
            CharClass::Except(d) => c != *d,
        }
    }
}

/// Tests whether `c` has the Unicode property `White_Space`.
pub fn char_is_whitespace(c: char) -> (r: bool)
    ensures
        r == is_whitespace(c),
{
    let u: u32 = c as u32;
    (0x09 <= u && u <= 0x0D) || u == 0x20 || u == 0x85 || u == 0xA0 || u == 0x1680 || (0x2000 <= u
        && u <= 0x200A) || u == 0x2028 || u == 0x2029 || u == 0x202F || u == 0x205F || u == 0x3000
}

/// The first index at or after `from` whose character is outside `class`, or
/// the length of `s` when every character from `from` on is inside.
pub open spec fn scan(s: Seq<char>, class: CharClass, from: int) -> int
    decreases s.len() - from,
{
    if 0 <= from < s.len() && class.holds(s[from]) {
        scan(s, class, from + 1)
    } else {
        from
    }
}

/// The least `t` at or below `to` such that every character of `s` in
/// `t..to` is inside `class`.
pub open spec fn scan_back(s: Seq<char>, class: CharClass, to: int) -> int
    decreases to,
{
    if 0 < to <= s.len() && class.holds(s[to - 1]) {
        scan_back(s, class, to - 1)
    } else {
        to
    }
}

/// The part of `s` before the first occurrence of `c`; all of `s` when `c`
/// does not occur.
pub open spec fn before(s: Seq<char>, c: char) -> Seq<char> {
    s.take(scan(s, CharClass::Except(c), 0))
}

/// `s` without its leading and trailing whitespace.
pub open spec fn trim(s: Seq<char>) -> Seq<char> {
    let a = scan(s, CharClass::Whitespace, 0);
    let b = scan_back(s, CharClass::Whitespace, s.len() as int);
    if a < b {
        s.subrange(a, b)
    } else {
        Seq::empty()
    }
}

/// `s` without its trailing run of the character `c`.
pub open spec fn strip_trailing(s: Seq<char>, c: char) -> Seq<char> {
    s.take(scan_back(s, CharClass::Only(c), s.len() as int))
}

/// Whether `pat` occurs in `s` at index `i`.
pub open spec fn occurs_at(s: Seq<char>, pat: Seq<char>, i: int) -> bool {
    0 <= i && i + pat.len() <= s.len() && s.subrange(i, i + pat.len()) == pat
}

/// The index of the first occurrence of `pat` in `s` at or after `from`.
pub open spec fn find_from(s: Seq<char>, pat: Seq<char>, from: int) -> Option<int>
    decreases s.len() + 1 - from,
{
    if from < 0 || from + pat.len() > s.len() {
        None
    } else if occurs_at(s, pat, from) {
        Some(from)
    } else {
        find_from(s, pat, from + 1)
    }
}

/// The index of the first occurrence of `pat` in `s`.
pub open spec fn find(s: Seq<char>, pat: Seq<char>) -> Option<int> {
    find_from(s, pat, 0)
}

/// Whether `s` begins with `pat`.
pub open spec fn starts_with(s: Seq<char>, pat: Seq<char>) -> bool {
    occurs_at(s, pat, 0)
}

/// The index behind the leading repetitions of `pat` in `s`, counted from
/// `from`. An empty pattern repeats nowhere.
pub open spec fn skip_repeats(s: Seq<char>, pat: Seq<char>, from: int) -> int
    decreases s.len() - from,
{
    if pat.len() > 0 && occurs_at(s, pat, from) {
        skip_repeats(s, pat, from + pat.len())
    } else {
        from
    }
}

/// `s` without every leading repetition of `pat`.
pub open spec fn strip_leading(s: Seq<char>, pat: Seq<char>) -> Seq<char> {
    s.skip(skip_repeats(s, pat, 0))
}

/// A scan stops inside the sequence or at its end, never before its start.
pub proof fn lemma_scan_bounds(s: Seq<char>, class: CharClass, from: int)
    requires
        0 <= from <= s.len(),
    ensures
        from <= scan(s, class, from) <= s.len(),
        forall|j: int| from <= j < scan(s, class, from) ==> class.holds(#[trigger] s[j]),
        scan(s, class, from) < s.len() ==> !class.holds(s[scan(s, class, from)]),
    decreases s.len() - from,
{
    if from < s.len() && class.holds(s[from]) {
        lemma_scan_bounds(s, class, from + 1);
    }
}

/// A backward scan stops inside the sequence or at its start.
pub proof fn lemma_scan_back_bounds(s: Seq<char>, class: CharClass, to: int)
    requires
        0 <= to <= s.len(),
    ensures
        0 <= scan_back(s, class, to) <= to,
        forall|j: int| scan_back(s, class, to) <= j < to ==> class.holds(#[trigger] s[j]),
        0 < scan_back(s, class, to) ==> !class.holds(s[scan_back(s, class, to) - 1]),
    decreases to,
{
    if 0 < to && class.holds(s[to - 1]) {
        lemma_scan_back_bounds(s, class, to - 1);
    }
}

/// What `find_from` returns is the least index of an occurrence.
pub proof fn lemma_find_from(s: Seq<char>, pat: Seq<char>, from: int)
    requires
        0 <= from,
    ensures
        match find_from(s, pat, from) {
            Some(i) => from <= i && occurs_at(s, pat, i) && forall|j: int|
                from <= j < i ==> !occurs_at(s, pat, j),
            None => forall|j: int| from <= j ==> !occurs_at(s, pat, j),
        },
    decreases s.len() + 1 - from,
{
    if from + pat.len() <= s.len() && !occurs_at(s, pat, from) {
        lemma_find_from(s, pat, from + 1);
    }
}

/// Trimming never yields a string that starts or ends with whitespace, and
/// only removes whitespace.
pub proof fn lemma_trim(s: Seq<char>)
    ensures
        trim(s).len() <= s.len(),
        trim(s).len() > 0 ==> !is_whitespace(trim(s).first()) && !is_whitespace(trim(s).last()),
        (forall|j: int| 0 <= j < s.len() ==> is_whitespace(#[trigger] s[j])) ==> trim(s).len()
            == 0,
{
    lemma_scan_bounds(s, CharClass::Whitespace, 0);
    lemma_scan_back_bounds(s, CharClass::Whitespace, s.len() as int);
}

/// The characters of `s`, in order.
pub fn to_chars(s: &str) -> (v: Vec<char>)
    ensures
        v@ == s@,
{
    let mut v: Vec<char> = Vec::new();
    for c in it: s.chars()
        invariant
            it.seq() == s@,
            v@ == it.seq().take(it.index() as int),
    {
        v.push(c);
    }
    v
}

/// Scans the window `lo..hi` of `v` forward over the characters of `class`.
pub fn scan_forward(v: &Vec<char>, lo: usize, hi: usize, class: CharClass) -> (i: usize)
    requires
        lo <= hi <= v.len(),
    ensures
        lo <= i <= hi,
        i - lo == scan(v@.subrange(lo as int, hi as int), class, 0),
{
    let ghost s = v@.subrange(lo as int, hi as int);
    let mut i: usize = lo;
    while i < hi && class.test(v[i])
        invariant
            lo <= i <= hi <= v.len(),
            s == v@.subrange(lo as int, hi as int),
            scan(s, class, 0) == scan(s, class, i - lo),
        decreases hi - i,
    {
        assert(s[i - lo] == v@[i as int]);
        i += 1;
    }
    assert(i < hi ==> s[i - lo] == v@[i as int]);
    i
}

/// Scans the window `lo..hi` of `v` backward over the characters of `class`.
pub fn scan_backward(v: &Vec<char>, lo: usize, hi: usize, class: CharClass) -> (i: usize)
    requires
        lo <= hi <= v.len(),
    ensures
        lo <= i <= hi,
        i - lo == scan_back(v@.subrange(lo as int, hi as int), class, hi - lo),
{
    let ghost s = v@.subrange(lo as int, hi as int);
    let mut i: usize = hi;
    while i > lo && class.test(v[i - 1])
        invariant
            lo <= i <= hi <= v.len(),
            s == v@.subrange(lo as int, hi as int),
            scan_back(s, class, hi - lo) == scan_back(s, class, i - lo),
        decreases i,
    {
        assert(s[i - lo - 1] == v@[i - 1]);
        i -= 1;
    }
    assert(i > lo ==> s[i - lo - 1] == v@[i - 1]);
    i
}

/// Narrows the window `lo..hi` of `v` to its trimmed part.
pub fn trim_window(v: &Vec<char>, lo: usize, hi: usize) -> (w: (usize, usize))
    requires
        lo <= hi <= v.len(),
    ensures
        lo <= w.0 <= w.1 <= hi,
        v@.subrange(w.0 as int, w.1 as int) == trim(v@.subrange(lo as int, hi as int)),
{
    let ghost s = v@.subrange(lo as int, hi as int);
    let a = scan_forward(v, lo, hi, CharClass::Whitespace);
    let b = scan_backward(v, lo, hi, CharClass::Whitespace);
    if a < b {
        assert(v@.subrange(a as int, b as int) =~= s.subrange(a - lo, b - lo));
        (a, b)
    } else {
        assert(v@.subrange(a as int, a as int) =~= Seq::<char>::empty());
        (a, a)
    }
}

/// Narrows the window `lo..hi` of `v` to the part before the first `c`.
pub fn before_window(v: &Vec<char>, lo: usize, hi: usize, c: char) -> (end: usize)
    requires
        lo <= hi <= v.len(),
    ensures
        lo <= end <= hi,
        v@.subrange(lo as int, end as int) == before(v@.subrange(lo as int, hi as int), c),
        end < hi ==> v@[end as int] == c,
        end - lo == scan(v@.subrange(lo as int, hi as int), CharClass::Except(c), 0),
{
    let ghost s = v@.subrange(lo as int, hi as int);
    let end = scan_forward(v, lo, hi, CharClass::Except(c));
    proof {
        lemma_scan_bounds(s, CharClass::Except(c), 0);
        assert(v@.subrange(lo as int, end as int) =~= s.take(end - lo));
        if end < hi {
            assert(s[end - lo] == v@[end as int]);
        }
    }
    end
}

/// Narrows the window `lo..hi` of `v` by its trailing run of `c`.
pub fn strip_trailing_window(v: &Vec<char>, lo: usize, hi: usize, c: char) -> (end: usize)
    requires
        lo <= hi <= v.len(),
    ensures
        lo <= end <= hi,
        v@.subrange(lo as int, end as int) == strip_trailing(v@.subrange(lo as int, hi as int), c),
{
    let ghost s = v@.subrange(lo as int, hi as int);
    let end = scan_backward(v, lo, hi, CharClass::Only(c));
    proof {
        assert(v@.subrange(lo as int, end as int) =~= s.take(end - lo));
    }
    end
}

/// Whether `pat` stands in `v` at index `at`, inside the window that ends
/// at `hi`.
pub fn matches_at(v: &Vec<char>, at: usize, hi: usize, pat: &Vec<char>) -> (r: bool)
    requires
        at <= hi <= v.len(),
    ensures
        r == occurs_at(v@.subrange(at as int, hi as int), pat@, 0),
{
    let ghost s = v@.subrange(at as int, hi as int);
    if pat.len() > hi - at {
        return false;
    }
    let mut k: usize = 0;
    while k < pat.len()
        invariant
            k <= pat.len() <= hi - at,
            at <= hi <= v.len(),
            s == v@.subrange(at as int, hi as int),
            forall|j: int| 0 <= j < k ==> v@[at + j] == pat@[j],
        decreases pat.len() - k,
    {
        if v[at + k] != pat[k] {
            assert(s.subrange(0, pat@.len() as int)[k as int] != pat@[k as int]);
            return false;
        }
        k += 1;
    }
    assert(s.subrange(0, pat@.len() as int) =~= pat@);
    true
}

/// The first index in the window `lo..hi` of `v` at which `pat` stands.
pub fn find_in(v: &Vec<char>, lo: usize, hi: usize, pat: &Vec<char>) -> (r: Option<usize>)
    requires
        lo <= hi <= v.len(),
    ensures
        match r {
            Some(i) => lo <= i <= hi && find(v@.subrange(lo as int, hi as int), pat@) == Some(
                i - lo,
            ),
            None => find(v@.subrange(lo as int, hi as int), pat@) is None,
        },
{
    let ghost s = v@.subrange(lo as int, hi as int);
    let mut i: usize = lo;
    while hi - i >= pat.len()
        invariant
            lo <= i <= hi <= v.len(),
            s == v@.subrange(lo as int, hi as int),
            find(s, pat@) == find_from(s, pat@, i - lo),
        decreases hi - i,
    {
        let here = matches_at(v, i, hi, pat);
        proof {
            let t = v@.subrange(i as int, hi as int);
            assert(t.subrange(0, pat@.len() as int) =~= s.subrange(i - lo, i - lo + pat@.len()));
            if pat@.len() == 0 {
                assert(t.subrange(0, 0) =~= pat@);
            }
        }
        if here {
            return Some(i);
        }
        i += 1;
    }
    None
}

/// Moves the start of the window `lo..hi` of `v` behind every leading
/// repetition of `pat`.
pub fn skip_leading(v: &Vec<char>, lo: usize, hi: usize, pat: &Vec<char>) -> (i: usize)
    requires
        lo <= hi <= v.len(),
    ensures
        lo <= i <= hi,
        v@.subrange(i as int, hi as int) == strip_leading(v@.subrange(lo as int, hi as int), pat@),
{
    let ghost s = v@.subrange(lo as int, hi as int);
    let mut i: usize = lo;
    if pat.len() == 0 {
        assert(v@.subrange(lo as int, hi as int) =~= s.skip(0));
        return lo;
    }
    loop
        invariant
            lo <= i <= hi <= v.len(),
            pat.len() > 0,
            s == v@.subrange(lo as int, hi as int),
            skip_repeats(s, pat@, 0) == skip_repeats(s, pat@, i - lo),
        decreases hi - i,
    {
        let here = matches_at(v, i, hi, pat);
        proof {
            let t = v@.subrange(i as int, hi as int);
            if i + pat@.len() <= hi {
                assert(t.subrange(0, pat@.len() as int) =~= s.subrange(
                    i - lo,
                    i - lo + pat@.len(),
                ));
            }
        }
        if !here {
            assert(v@.subrange(i as int, hi as int) =~= s.skip(i - lo));
            return i;
        }
        i += pat.len();
    }
}

/// A copy of the characters `lo..hi` of `s`.
pub fn slice_text(s: &str, lo: usize, hi: usize) -> (r: String)
    requires
        lo <= hi <= s@.len(),
    ensures
        r@ == s@.subrange(lo as int, hi as int),
{
    s.substring_char(lo, hi).to_owned()
}

/// A copy of `s` without its leading and trailing whitespace.
pub fn trimmed(s: &str) -> (r: String)
    ensures
        r@ == trim(s@),
{
    let v = to_chars(s);
    let n = v.len();
    assert(v@.subrange(0, n as int) =~= s@);
    let (lo, hi) = trim_window(&v, 0, n);
    slice_text(s, lo, hi)
}

/// The concatenation of `a` and `b`.
pub fn concat(a: &str, b: &str) -> (r: String)
    ensures
        r@ == a@ + b@,
{
    let mut r = String::from_str(a);
    r.append(b);
    r
}

/// Whether `a` and `b` hold the same characters.
pub fn same_text(a: &str, b: &str) -> (r: bool)
    ensures
        r == (a@ == b@),
{
    let x = String::from_str(a);
    let y = String::from_str(b);
    x == y
}

} // verus!
