//! Text as sequences of characters: trimming, splitting at a separator, and the
//! few fixed phrases that the commands build.
use vstd::prelude::*;
use vstd::string::StrSliceExecFns;
use vstd::string::StringExecFns;

verus! {

/// The characters that count as white space: those with the Unicode property
/// `White_Space`.
pub open spec fn is_space(c: char) -> bool {
    let n = c as u32;
    (9 <= n <= 13) || n == 0x20 || n == 0x85 || n == 0xA0 || n == 0x1680 || (0x2000 <= n
        <= 0x200A) || n == 0x2028 || n == 0x2029 || n == 0x202F || n == 0x205F || n == 0x3000
}

/// The first position from `from` on that holds no white space; the length where
/// all that follows is white space.
pub open spec fn skip_spaces(s: Seq<char>, from: int) -> int
    decreases s.len() - from,
{
    if from < 0 || from >= s.len() {
        s.len() as int
    } else if !is_space(s[from]) {
        from
    } else {
        skip_spaces(s, from + 1)
    }
}

/// The end of the text between `lo` and `to` once the white space before `to` is
/// dropped.
pub open spec fn drop_spaces(s: Seq<char>, lo: int, to: int) -> int
    decreases to - lo,
{
    if to <= lo || to > s.len() {
        lo
    } else if !is_space(s[to - 1]) {
        to
    } else {
        drop_spaces(s, lo, to - 1)
    }
}

/// `s` without its leading and trailing white space.
pub open spec fn trimmed(s: Seq<char>) -> Seq<char> {
    let start = skip_spaces(s, 0);
    s.subrange(start, drop_spaces(s, start, s.len() as int))
}

/// `i` is the one position of `s` that holds `c`.
pub open spec fn sole_position(s: Seq<char>, c: char, i: int) -> bool {
    &&& 0 <= i < s.len()
    &&& s[i] == c
    &&& forall|j: int| 0 <= j < s.len() && j != i ==> s[j] != c
}

/// The two parts of `s` around its separator `c`, where `c` occurs exactly once.
pub open spec fn split_once_only(s: Seq<char>, c: char) -> Option<(Seq<char>, Seq<char>)> {
    if exists|i: int| sole_position(s, c, i) {
        let i = choose|i: int| sole_position(s, c, i);
        Some((s.subrange(0, i), s.subrange(i + 1, s.len() as int)))
    } else {
        None
    }
}

/// Whether `c` is white space.
pub fn is_whitespace(c: char) -> (b: bool)
    ensures
        b == is_space(c),
{
    let n = c as u32;
    (9 <= n && n <= 13) || n == 0x20 || n == 0x85 || n == 0xA0 || n == 0x1680 || (0x2000 <= n
        && n <= 0x200A) || n == 0x2028 || n == 0x2029 || n == 0x202F || n == 0x205F || n == 0x3000
}

/// The characters of `s`.
pub fn chars_of(s: &str) -> (v: Vec<char>)
    ensures
        v@ == s@,
{
    let mut v: Vec<char> = Vec::new();
    for c in it: s.chars()
        invariant
            it.seq() == s@,
            v@ == s@.take(it.index() as int),
    {
        v.push(c);
        assert(v@ =~= s@.take(it.index() + 1));
    }
    assert(v@ =~= s@);
    v
}

/// The part of `s` from position `from` up to position `to`; nothing where these
/// are no positions of `s` in this order.
pub open spec fn part_between(s: Seq<char>, from: int, to: int) -> Seq<char> {
    if 0 <= from <= to <= s.len() {
        s.subrange(from, to)
    } else {
        Seq::empty()
    }
}

/// The text of `s` from position `from` up to position `to`, counted in characters.
pub fn text_between(s: &str, from: usize, to: usize) -> (r: String)
    ensures
        r@ == part_between(s@, from as int, to as int),
{
    if from <= to && to <= s.unicode_len() {
        s.substring_char(from, to).to_owned()
    } else {
        String::new()
    }
}

/// `s` without its leading and trailing white space.
pub fn trim(s: &str) -> (r: String)
    ensures
        r@ == trimmed(s@),
{
    let chars = chars_of(s);
    let n = chars.len();
    let mut start: usize = 0;
    while start < n && is_whitespace(chars[start])
        invariant
            start <= n,
            n == chars.len(),
            skip_spaces(chars@, 0) == skip_spaces(chars@, start as int),
        decreases n - start,
    {
        start += 1;
    }
    let mut end: usize = n;
    while end > start && is_whitespace(chars[end - 1])
        invariant
            start <= end <= n,
            n == chars.len(),
            drop_spaces(chars@, start as int, n as int) == drop_spaces(
                chars@,
                start as int,
                end as int,
            ),
        decreases end - start,
    {
        end -= 1;
    }
    text_between(s, start, end)
}

/// The two parts of `s` around the separator `c`, where `c` occurs exactly once.
pub fn split_in_two(s: &str, c: char) -> (r: Option<(String, String)>)
    ensures
        match r {
            Some((a, b)) => split_once_only(s@, c) == Some((a@, b@)),
            None => split_once_only(s@, c) is None,
        },
{
    let chars = chars_of(s);
    let n = chars.len();
    let mut i: usize = 0;
    while i < n && chars[i] != c
        invariant
            i <= n,
            n == chars.len(),
            forall|k: int| 0 <= k < i ==> chars[k] != c,
        decreases n - i,
    {
        i += 1;
    }
    if i == n {
        assert forall|k: int| !sole_position(s@, c, k) by {}
        return None;
    }
    let mut j: usize = i + 1;
    while j < n && chars[j] != c
        invariant
            i < j <= n,
            n == chars.len(),
            forall|k: int| i < k < j ==> chars[k] != c,
        decreases n - j,
    {
        j += 1;
    }
    if j < n {
        assert forall|k: int| !sole_position(s@, c, k) by {
            if sole_position(s@, c, k) {
                if k == i as int {
                    assert(s@[j as int] == c);
                } else {
                    assert(s@[i as int] == c);
                }
            }
        }
        return None;
    }
    proof {
        assert(sole_position(s@, c, i as int));
        let w = choose|k: int| sole_position(s@, c, k);
        assert(w == i) by {
            if w != i {
                assert(s@[i as int] != c);
            }
        }
    }
    Some((text_between(s, 0, i), text_between(s, i + 1, n)))
}

/// The first position from `from` on that holds `c`; the length where none does.
pub open spec fn position_of(s: Seq<char>, c: char, from: int) -> int
    decreases s.len() - from,
{
    if from < 0 || from >= s.len() {
        s.len() as int
    } else if s[from] == c {
        from
    } else {
        position_of(s, c, from + 1)
    }
}

/// The first line of `s`, without its line ending: what stands before the first
/// line feed, less a carriage return right before it; all of `s` where it holds no
/// line feed.
pub open spec fn first_line(s: Seq<char>) -> Seq<char> {
    let end = position_of(s, '\n', 0);
    if end < s.len() && end > 0 && s[end - 1] == '\r' {
        s.subrange(0, end - 1)
    } else {
        s.subrange(0, end)
    }
}

/// The first position from `from` on that holds `c`; the length where none does.
pub fn find_char(chars: &Vec<char>, c: char, from: usize) -> (r: usize)
    ensures
        r == position_of(chars@, c, from as int),
        from <= r <= chars.len() || (from > chars.len() && r == chars.len()),
{
    let n = chars.len();
    if from >= n {
        return n;
    }
    let mut i: usize = from;
    while i < n && chars[i] != c
        invariant
            from <= i <= n,
            n == chars.len(),
            position_of(chars@, c, from as int) == position_of(chars@, c, i as int),
        decreases n - i,
    {
        i += 1;
    }
    i
}

/// The first line of `s`, without its line ending.
pub fn first_line_of(s: &str) -> (r: String)
    ensures
        r@ == first_line(s@),
{
    let chars = chars_of(s);
    let end = find_char(&chars, '\n', 0);
    if end < chars.len() && end > 0 && chars[end - 1] == '\r' {
        text_between(s, 0, end - 1)
    } else {
        text_between(s, 0, end)
    }
}

/// `s` begins with `p`.
pub open spec fn has_prefix(s: Seq<char>, p: Seq<char>) -> bool {
    p.len() <= s.len() && s.subrange(0, p.len() as int) == p
}

/// `s` ends with `p`.
pub open spec fn has_suffix(s: Seq<char>, p: Seq<char>) -> bool {
    p.len() <= s.len() && s.subrange(s.len() - p.len(), s.len() as int) == p
}

/// `p` stands in `s` at position `at`.
pub open spec fn occurs_at(s: Seq<char>, at: int, p: Seq<char>) -> bool {
    0 <= at && at + p.len() <= s.len() && s.subrange(at, at + p.len()) == p
}

/// `p` stands somewhere in `s`.
pub open spec fn contains_text(s: Seq<char>, p: Seq<char>) -> bool {
    exists|at: int| occurs_at(s, at, p)
}

/// `s` without `p` at its beginning, as often as `p` stands there.
pub open spec fn without_prefixes(s: Seq<char>, p: Seq<char>) -> Seq<char>
    decreases s.len(),
{
    if p.len() > 0 && has_prefix(s, p) {
        without_prefixes(s.subrange(p.len() as int, s.len() as int), p)
    } else {
        s
    }
}

/// `s` without `p` at its end, as often as `p` stands there.
pub open spec fn without_suffixes(s: Seq<char>, p: Seq<char>) -> Seq<char>
    decreases s.len(),
{
    if p.len() > 0 && has_suffix(s, p) {
        without_suffixes(s.subrange(0, s.len() - p.len()), p)
    } else {
        s
    }
}

/// Whether `pattern` stands in `chars` at position `at`.
pub fn matches_at(chars: &Vec<char>, at: usize, pattern: &Vec<char>) -> (b: bool)
    ensures
        b == occurs_at(chars@, at as int, pattern@),
{
    let m = pattern.len();
    if at > chars.len() || m > chars.len() - at {
        return false;
    }
    let mut k: usize = 0;
    while k < m
        invariant
            k <= m,
            m == pattern.len(),
            at + m <= chars.len(),
            forall|j: int| 0 <= j < k ==> chars[at + j] == pattern[j],
        decreases m - k,
    {
        if chars[at + k] != pattern[k] {
            assert(chars@.subrange(at as int, at + m)[k as int] != pattern@[k as int]);
            return false;
        }
        k += 1;
    }
    assert(chars@.subrange(at as int, at + m) =~= pattern@);
    true
}

/// Whether `s` begins with `pattern`.
pub fn starts_with_text(s: &str, pattern: &str) -> (b: bool)
    ensures
        b == has_prefix(s@, pattern@),
{
    let chars = chars_of(s);
    let pat = chars_of(pattern);
    matches_at(&chars, 0, &pat)
}

/// Whether `pattern` stands somewhere in `s`.
pub fn contains_text_in(s: &str, pattern: &str) -> (b: bool)
    ensures
        b == contains_text(s@, pattern@),
{
    let chars = chars_of(s);
    let pat = chars_of(pattern);
    let n = chars.len();
    let mut at: usize = 0;
    while at < n
        invariant
            at <= n,
            n == chars.len(),
            chars@ == s@,
            pat@ == pattern@,
            forall|k: int| 0 <= k < at ==> !occurs_at(chars@, k, pat@),
        decreases n - at,
    {
        if matches_at(&chars, at, &pat) {
            assert(occurs_at(s@, at as int, pattern@));
            return true;
        }
        at += 1;
    }
    if matches_at(&chars, n, &pat) {
        assert(occurs_at(s@, n as int, pattern@));
        return true;
    }
    assert forall|k: int| !occurs_at(s@, k, pattern@) by {}
    false
}

/// `s` without `pattern` at its beginning, as often as it stands there.
pub fn strip_prefixes(s: &str, pattern: &str) -> (r: String)
    ensures
        r@ == without_prefixes(s@, pattern@),
{
    let chars = chars_of(s);
    let pat = chars_of(pattern);
    let n = chars.len();
    let m = pat.len();
    let mut from: usize = 0;
    if m == 0 {
        return text_between(s, 0, n);
    }
    assert(chars@.subrange(0, n as int) =~= chars@);
    while matches_at(&chars, from, &pat)
        invariant
            from <= n,
            n == chars.len(),
            m == pat.len(),
            m > 0,
            without_prefixes(chars@, pat@) == without_prefixes(
                chars@.subrange(from as int, n as int),
                pat@,
            ),
        decreases n - from,
    {
        proof {
            let rest = chars@.subrange(from as int, n as int);
            assert(rest.subrange(0, m as int) =~= chars@.subrange(from as int, from + m));
            assert(rest.subrange(m as int, rest.len() as int) =~= chars@.subrange(
                from + m,
                n as int,
            ));
        }
        from += m;
    }
    proof {
        let rest = chars@.subrange(from as int, n as int);
        if m <= rest.len() {
            assert(rest.subrange(0, m as int) =~= chars@.subrange(from as int, from + m));
        }
    }
    text_between(s, from, n)
}

/// `s` without `pattern` at its end, as often as it stands there.
pub fn strip_suffixes(s: &str, pattern: &str) -> (r: String)
    ensures
        r@ == without_suffixes(s@, pattern@),
{
    let chars = chars_of(s);
    let pat = chars_of(pattern);
    let n = chars.len();
    let m = pat.len();
    let mut end: usize = n;
    if m == 0 {
        return text_between(s, 0, n);
    }
    assert(chars@.subrange(0, n as int) =~= chars@);
    while end >= m && matches_at(&chars, end - m, &pat)
        invariant
            end <= n,
            n == chars.len(),
            m == pat.len(),
            m > 0,
            without_suffixes(chars@, pat@) == without_suffixes(chars@.subrange(0, end as int), pat@),
        decreases end,
    {
        proof {
            let rest = chars@.subrange(0, end as int);
            assert(rest.subrange(rest.len() - m, rest.len() as int) =~= chars@.subrange(
                end - m,
                end as int,
            ));
            assert(rest.subrange(0, rest.len() - m) =~= chars@.subrange(0, end - m));
        }
        end -= m;
    }
    proof {
        let rest = chars@.subrange(0, end as int);
        if m <= rest.len() {
            assert(rest.subrange(rest.len() - m, rest.len() as int) =~= chars@.subrange(
                end - m,
                end as int,
            ));
        }
    }
    text_between(s, 0, end)
}

/// `a` followed by `b`.
pub fn join2(a: &str, b: &str) -> (r: String)
    ensures
        r@ == a@ + b@,
{
    String::from_str(a).concat(b)
}

/// `a`, `b` and `c` one after the other.
pub fn join3(a: &str, b: &str, c: &str) -> (r: String)
    ensures
        r@ == a@ + b@ + c@,
{
    String::from_str(a).concat(b).concat(c)
}

/// The answers that count as consent: a lone `y`, in either case, with any white
/// space around it.
pub open spec fn affirmative(input: Seq<char>) -> bool {
    trimmed(input) == seq!['y'] || trimmed(input) == seq!['Y']
}

/// Whether an answer to a yes/no question is a yes. Anything but a lone `y` or `Y`
/// is a no.
pub fn is_affirmative(input: &str) -> (b: bool)
    ensures
        b == affirmative(input@),
{
    let answer = trim(input);
    let chars = chars_of(answer.as_str());
    if chars.len() == 1 {
        let c = chars[0];
        assert(chars@ =~= seq![c]);
        c == 'y' || c == 'Y'
    } else {
        assert(seq!['y'].len() == 1);
        assert(seq!['Y'].len() == 1);
        false
    }
}

} // verus!
