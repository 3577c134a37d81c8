//! Character-level text operations the rules are written in.

use vstd::prelude::*;

verus! {

/// The characters of a text.
pub fn chars_of(s: &str) -> (r: Vec<char>)
    ensures
        r@ == s@,
{
    broadcast use vstd::string::axiom_spec_iter;
    let mut out: Vec<char> = Vec::new();
    for c in it: s.chars()
        invariant
            out.len() == it.index(),
            forall|j: int| 0 <= j < out.len() ==> out@[j] == it.seq()[j],
    {
        out.push(c);
    }
    assert(out@ =~= s@);
    out
}

/// The text made of the given characters.
#[verifier::external_body]
pub fn string_of(chars: &[char]) -> (r: String)
    ensures
        r@ == chars@,
{
    chars.iter().collect()
}

/// `a` followed by `b`.
pub fn concat(a: &str, b: &str) -> (r: String)
    ensures
        r@ == a@ + b@,
{
    let mut x = a.to_owned();
    let y = b.to_owned();
    let mut v = chars_of(x.as_str());
    let w = chars_of(y.as_str());
    let mut i: usize = 0;
    while i < w.len()
        invariant
            i <= w.len(),
            v@ == a@ + w@.subrange(0, i as int),
            w@ == b@,
        decreases w.len() - i,
    {
        v.push(w[i]);
        i += 1;
        assert(w@.subrange(0, i as int) =~= w@.subrange(0, i - 1) + seq![w@[i - 1]]);
    }
    assert(w@.subrange(0, w.len() as int) =~= w@);
    x = string_of(v.as_slice());
    x
}

/// Concatenation of three texts.
pub fn concat3(a: &str, b: &str, c: &str) -> (r: String)
    ensures
        r@ == a@ + b@ + c@,
{
    let ab = concat(a, b);
    concat(ab.as_str(), c)
}

/// The Unicode `White_Space` property.
pub open spec fn is_white_space(c: char) -> bool {
    let n = c as u32;
    (0x9 <= n && n <= 0xD) || n == 0x20 || n == 0x85 || n == 0xA0 || n == 0x1680 || (0x2000 <= n
        && n <= 0x200A) || n == 0x2028 || n == 0x2029 || n == 0x202F || n == 0x205F || n == 0x3000
}

pub fn white_space(c: char) -> (r: bool)
    ensures
        r == is_white_space(c),
{
    let n = c as u32;
    (0x9 <= n && n <= 0xD) || n == 0x20 || n == 0x85 || n == 0xA0 || n == 0x1680 || (0x2000 <= n
        && n <= 0x200A) || n == 0x2028 || n == 0x2029 || n == 0x202F || n == 0x205F || n == 0x3000
}

/// Number of leading white-space characters.
pub open spec fn lead_ws(s: Seq<char>) -> int
    decreases s.len(),
{
    if s.len() > 0 && is_white_space(s[0]) {
        1 + lead_ws(s.drop_first())
    } else {
        0
    }
}

/// Number of trailing white-space characters.
pub open spec fn trail_ws(s: Seq<char>) -> int
    decreases s.len(),
{
    if s.len() > 0 && is_white_space(s.last()) {
        1 + trail_ws(s.drop_last())
    } else {
        0
    }
}

/// `str::trim`: the text without leading and trailing white space.
pub open spec fn trimmed(s: Seq<char>) -> Seq<char> {
    let start = lead_ws(s);
    if start == s.len() {
        Seq::empty()
    } else {
        s.subrange(start, s.len() - trail_ws(s))
    }
}

pub proof fn lemma_lead_ws(s: Seq<char>)
    ensures
        0 <= lead_ws(s) <= s.len(),
        forall|i: int| 0 <= i < lead_ws(s) ==> is_white_space(#[trigger] s[i]),
        lead_ws(s) < s.len() ==> !is_white_space(s[lead_ws(s)]),
    decreases s.len(),
{
    if s.len() > 0 && is_white_space(s[0]) {
        lemma_lead_ws(s.drop_first());
        assert forall|i: int| 0 <= i < lead_ws(s) implies is_white_space(#[trigger] s[i]) by {
            if i > 0 {
                assert(s.drop_first()[i - 1] == s[i]);
            }
        }
        if lead_ws(s) < s.len() {
            assert(s.drop_first()[lead_ws(s) - 1] == s[lead_ws(s)]);
        }
    }
}

pub proof fn lemma_trail_ws(s: Seq<char>)
    ensures
        0 <= trail_ws(s) <= s.len(),
        forall|i: int| s.len() - trail_ws(s) <= i < s.len() ==> is_white_space(#[trigger] s[i]),
        trail_ws(s) < s.len() ==> !is_white_space(s[s.len() - 1 - trail_ws(s)]),
    decreases s.len(),
{
    if s.len() > 0 && is_white_space(s.last()) {
        lemma_trail_ws(s.drop_last());
        assert forall|i: int| s.len() - trail_ws(s) <= i < s.len() implies is_white_space(
            #[trigger] s[i],
        ) by {
            if i < s.len() - 1 {
                assert(s.drop_last()[i] == s[i]);
            }
        }
        if trail_ws(s) < s.len() {
            assert(s.drop_last()[s.len() - 1 - trail_ws(s)] == s[s.len() - 1 - trail_ws(s)]);
        }
    }
}

/// Characters of `s` from `start` up to `end`.
pub fn slice_chars(s: &Vec<char>, start: usize, end: usize) -> (r: Vec<char>)
    requires
        start <= end <= s.len(),
    ensures
        r@ == s@.subrange(start as int, end as int),
{
    let mut r: Vec<char> = Vec::new();
    let mut i = start;
    while i < end
        invariant
            start <= i <= end <= s.len(),
            r@ == s@.subrange(start as int, i as int),
        decreases end - i,
    {
        r.push(s[i]);
        i += 1;
        assert(r@ =~= s@.subrange(start as int, i as int));
    }
    r
}

/// The number of leading white-space characters of a character sequence.
pub fn count_lead_ws(s: &Vec<char>) -> (r: usize)
    ensures
        r == lead_ws(s@),
{
    proof {
        lemma_lead_ws(s@);
    }
    let mut i: usize = 0;
    while i < s.len() && white_space(s[i])
        invariant
            i <= s.len(),
            i <= lead_ws(s@),
            0 <= lead_ws(s@) <= s.len(),
            forall|k: int| 0 <= k < lead_ws(s@) ==> is_white_space(#[trigger] s@[k]),
            lead_ws(s@) < s.len() ==> !is_white_space(s@[lead_ws(s@)]),
        decreases s.len() - i,
    {
        i += 1;
    }
    i
}

/// The number of trailing white-space characters of a character sequence.
pub fn count_trail_ws(s: &Vec<char>) -> (r: usize)
    ensures
        r == trail_ws(s@),
{
    proof {
        lemma_trail_ws(s@);
    }
    let mut i: usize = 0;
    while i < s.len() && white_space(s[s.len() - 1 - i])
        invariant
            i <= s.len(),
            i <= trail_ws(s@),
            0 <= trail_ws(s@) <= s.len(),
            forall|k: int| s.len() - trail_ws(s@) <= k < s.len() ==> is_white_space(#[trigger] s@[k]),
            trail_ws(s@) < s.len() ==> !is_white_space(s@[s.len() - 1 - trail_ws(s@)]),
        decreases s.len() - i,
    {
        i += 1;
    }
    i
}

/// `str::trim`.
pub fn trim(s: &str) -> (r: String)
    ensures
        r@ == trimmed(s@),
{
    let v = chars_of(s);
    let start = count_lead_ws(&v);
    if start == v.len() {
        return String::new();
    }
    let tail = count_trail_ws(&v);
    proof {
        lemma_lead_ws(s@);
        lemma_trail_ws(s@);
        if tail > v.len() - start {
            // the first non-white character would lie inside the trailing white run
            assert(is_white_space(s@[start as int]));
        }
    }
    let w = slice_chars(&v, start, v.len() - tail);
    string_of(w.as_slice())
}

/// `s.starts_with(prefix)`.
pub open spec fn has_prefix(s: Seq<char>, prefix: Seq<char>) -> bool {
    prefix.len() <= s.len() && s.subrange(0, prefix.len() as int) == prefix
}

/// `s.ends_with(suffix)`.
pub open spec fn has_suffix(s: Seq<char>, suffix: Seq<char>) -> bool {
    suffix.len() <= s.len() && s.subrange(s.len() - suffix.len(), s.len() as int) == suffix
}

/// Whether `needle` occurs in `s` at position `at`.
pub open spec fn occurs_at(s: Seq<char>, needle: Seq<char>, at: int) -> bool {
    0 <= at && at + needle.len() <= s.len() && s.subrange(at, at + needle.len()) == needle
}

/// `s.contains(needle)`.
pub open spec fn contains_text(s: Seq<char>, needle: Seq<char>) -> bool {
    exists|at: int| occurs_at(s, needle, at)
}

pub fn matches_at(s: &Vec<char>, needle: &Vec<char>, at: usize) -> (r: bool)
    ensures
        r == occurs_at(s@, needle@, at as int),
{
    if at > s.len() || needle.len() > s.len() - at {
        return false;
    }
    let mut i: usize = 0;
    while i < needle.len()
        invariant
            at + needle.len() <= s.len(),
            i <= needle.len(),
            forall|k: int| 0 <= k < i ==> s@[at + k] == needle@[k],
        decreases needle.len() - i,
    {
        if s[at + i] != needle[i] {
            assert(s@.subrange(at as int, at + needle.len())[i as int] != needle@[i as int]);
            return false;
        }
        i += 1;
    }
    assert(s@.subrange(at as int, at + needle.len()) =~= needle@);
    true
}

pub fn starts_with(s: &str, prefix: &str) -> (r: bool)
    ensures
        r == has_prefix(s@, prefix@),
{
    let v = chars_of(s);
    let p = chars_of(prefix);
    let r = matches_at(&v, &p, 0);
    proof {
        if r {
            assert(s@.subrange(0, prefix@.len() as int) =~= prefix@);
        } else if has_prefix(s@, prefix@) {
            assert(occurs_at(s@, prefix@, 0));
        }
    }
    r
}

pub fn ends_with(s: &str, suffix: &str) -> (r: bool)
    ensures
        r == has_suffix(s@, suffix@),
{
    let v = chars_of(s);
    let p = chars_of(suffix);
    if p.len() > v.len() {
        return false;
    }
    matches_at(&v, &p, v.len() - p.len())
}

pub fn contains(s: &str, needle: &str) -> (r: bool)
    ensures
        r == contains_text(s@, needle@),
{
    let v = chars_of(s);
    let p = chars_of(needle);
    if p.len() > v.len() {
        assert forall|at: int| !occurs_at(s@, needle@, at) by {}
        return false;
    }
    let last = v.len() - p.len();
    let mut at: usize = 0;
    while at < last
        invariant
            p.len() <= v.len(),
            last == v.len() - p.len(),
            at <= last,
            v@ == s@,
            p@ == needle@,
            forall|k: int| 0 <= k < at ==> !occurs_at(s@, needle@, k),
        decreases last - at,
    {
        if matches_at(&v, &p, at) {
            return true;
        }
        at += 1;
    }
    if matches_at(&v, &p, last) {
        return true;
    }
    assert forall|k: int| !occurs_at(s@, needle@, k) by {
        if 0 <= k && k + needle@.len() <= s@.len() {
            assert(k <= last);
        }
    }
    false
}

/// Text equality.
pub fn same_text(a: &str, b: &str) -> (r: bool)
    ensures
        r == (a@ == b@),
{
    let x = a.to_owned();
    let y = b.to_owned();
    x == y
}

/// Decimal digits of a natural number.
pub open spec fn digits(n: nat) -> Seq<char>
    decreases n,
{
    if n < 10 {
        seq![digit_char(n)]
    } else {
        digits(n / 10) + seq![digit_char(n % 10)]
    }
}

pub open spec fn digit_char(d: nat) -> char {
    if d == 0 { '0' } else if d == 1 { '1' } else if d == 2 { '2' } else if d == 3 { '3' }
    else if d == 4 { '4' } else if d == 5 { '5' } else if d == 6 { '6' } else if d == 7 { '7' }
    else if d == 8 { '8' } else { '9' }
}

/// The decimal text of an integer, as `to_string` writes it.
pub open spec fn decimal(n: int) -> Seq<char> {
    if n < 0 {
        seq!['-'] + digits((-n) as nat)
    } else {
        digits(n as nat)
    }
}

fn digit_of(d: u64) -> (c: char)
    requires
        d < 10,
    ensures
        c == digit_char(d as nat),
{
    if d == 0 { '0' } else if d == 1 { '1' } else if d == 2 { '2' } else if d == 3 { '3' }
    else if d == 4 { '4' } else if d == 5 { '5' } else if d == 6 { '6' } else if d == 7 { '7' }
    else if d == 8 { '8' } else { '9' }
}

fn digits_of(n: u64) -> (r: Vec<char>)
    ensures
        r@ == digits(n as nat),
    decreases n,
{
    if n < 10 {
        let mut r = Vec::new();
        r.push(digit_of(n));
        r
    } else {
        let mut r = digits_of(n / 10);
        r.push(digit_of(n % 10));
        r
    }
}

/// `n.to_string()` for a 64-bit integer.
pub fn decimal_text(n: i64) -> (r: String)
    ensures
        r@ == decimal(n as int),
{
    if n < 0 {
        let magnitude: u64 = if n == i64::MIN {
            9223372036854775808u64
        } else {
            (-n) as u64
        };
        let mut v = Vec::new();
        v.push('-');
        let mut d = digits_of(magnitude);
        v.append(&mut d);
        string_of(v.as_slice())
    } else {
        let d = digits_of(n as u64);
        string_of(d.as_slice())
    }
}

/// `n.to_string()` for a position or count.
pub fn count_text(n: usize) -> (r: String)
    ensures
        r@ == decimal(n as int),
{
    let d = digits_of(n as u64);
    string_of(d.as_slice())
}

/// `s` without every trailing `c`, as `trim_end_matches(c)` leaves it.
pub open spec fn strip_end(s: Seq<char>, c: char) -> Seq<char>
    decreases s.len(),
{
    if s.len() > 0 && s.last() == c {
        strip_end(s.drop_last(), c)
    } else {
        s
    }
}

/// `s` without every leading `c`, as `trim_start_matches(c)` leaves it.
pub open spec fn strip_start(s: Seq<char>, c: char) -> Seq<char>
    decreases s.len(),
{
    if s.len() > 0 && s[0] == c {
        strip_start(s.drop_first(), c)
    } else {
        s
    }
}

/// `str::trim_end_matches` with one character.
pub fn trim_end_char(s: &str, c: char) -> (r: String)
    ensures
        r@ == strip_end(s@, c),
{
    let v = chars_of(s);
    let mut end = v.len();
    proof {
        assert(v@.subrange(0, end as int) =~= v@);
    }
    while end > 0 && v[end - 1] == c
        invariant
            end <= v.len(),
            v@ == s@,
            strip_end(s@, c) == strip_end(v@.subrange(0, end as int), c),
        decreases end,
    {
        proof {
            assert(v@.subrange(0, end as int).drop_last() =~= v@.subrange(0, end - 1));
        }
        end -= 1;
    }
    let w = slice_chars(&v, 0, end);
    string_of(w.as_slice())
}

/// `str::trim_start_matches` with one character.
pub fn trim_start_char(s: &str, c: char) -> (r: String)
    ensures
        r@ == strip_start(s@, c),
{
    let v = chars_of(s);
    let mut start: usize = 0;
    proof {
        assert(v@.subrange(0, v.len() as int) =~= v@);
    }
    while start < v.len() && v[start] == c
        invariant
            start <= v.len(),
            v@ == s@,
            strip_start(s@, c) == strip_start(v@.subrange(start as int, v.len() as int), c),
        decreases v.len() - start,
    {
        proof {
            assert(v@.subrange(start as int, v.len() as int).drop_first() =~= v@.subrange(start + 1, v.len() as int));
        }
        start += 1;
    }
    let w = slice_chars(&v, start, v.len());
    string_of(w.as_slice())
}

/// `s.trim_matches(c)`: without leading and trailing `c`.
pub fn trim_char(s: &str, c: char) -> (r: String)
    ensures
        r@ == strip_end(strip_start(s@, c), c),
{
    let a = trim_start_char(s, c);
    trim_end_char(a.as_str(), c)
}

/// The text before the first `c`, as `split(c).next()` yields it.
pub open spec fn before_char(s: Seq<char>, c: char) -> Seq<char>
    decreases s.len(),
{
    if s.len() == 0 {
        s
    } else if s[0] == c {
        Seq::empty()
    } else {
        seq![s[0]] + before_char(s.drop_first(), c)
    }
}

/// The text before the first `c`.
pub fn text_before(s: &str, c: char) -> (r: String)
    ensures
        r@ == before_char(s@, c),
{
    let v = chars_of(s);
    let mut i: usize = 0;
    while i < v.len() && v[i] != c
        invariant
            i <= v.len(),
            v@ == s@,
            forall|j: int| 0 <= j < i ==> v@[j] != c,
        decreases v.len() - i,
    {
        i += 1;
    }
    let w = slice_chars(&v, 0, i);
    proof {
        lemma_before_char(s@, c, i as int);
    }
    string_of(w.as_slice())
}

proof fn lemma_before_char(s: Seq<char>, c: char, i: int)
    requires
        0 <= i <= s.len(),
        forall|j: int| 0 <= j < i ==> s[j] != c,
        i == s.len() || s[i] == c,
    ensures
        before_char(s, c) == s.subrange(0, i),
    decreases i,
{
    if i == 0 {
        assert(s.subrange(0, 0) =~= Seq::<char>::empty());
    } else {
        let rest = s.drop_first();
        assert forall|j: int| 0 <= j < i - 1 implies rest[j] != c by {
            assert(rest[j] == s[j + 1]);
        }
        lemma_before_char(rest, c, i - 1);
        assert(seq![s[0]] + rest.subrange(0, i - 1) =~= s.subrange(0, i));
    }
}

/// The text that `str::to_lowercase` returns for `s` (full Unicode case mapping).
pub uninterp spec fn lowercase(s: Seq<char>) -> Seq<char>;

/// An ASCII character lowercased: `A`–`Z` become `a`–`z`, others stay.
pub open spec fn ascii_lower_char(c: char) -> char {
    if 'A' <= c && c <= 'Z' {
        ((c as u32) + 32) as char
    } else {
        c
    }
}

/// An ASCII text lowercased character by character.
pub open spec fn ascii_lowered(s: Seq<char>) -> Seq<char> {
    Seq::new(s.len(), |i: int| ascii_lower_char(s[i]))
}

/// What `str::to_lowercase` returns: on an ASCII text the ASCII
/// lowercasing, as std documents; on any other text what `lowercase` names.
pub open spec fn lowered(s: Seq<char>) -> Seq<char> {
    if vstd::utf8::is_ascii_chars(s) {
        ascii_lowered(s)
    } else {
        lowercase(s)
    }
}

/// `str::to_lowercase`: the ASCII lowercasing on an ASCII text, as std
/// documents; on any other text what `lowercase` names.
#[verifier::external_body]
pub fn to_lower(s: &str) -> (r: String)
    ensures
        r@ == if vstd::utf8::is_ascii_chars(s@) {
            ascii_lowered(s@)
        } else {
            lowercase(s@)
        },
{
    s.to_lowercase()
}

/// `s.replace(from, to)`: every non-overlapping occurrence of `from`, from
/// left to right, becomes `to`; an empty `from` puts `to` around every character.
pub open spec fn replaced(s: Seq<char>, from: Seq<char>, to: Seq<char>) -> Seq<char>
    decreases s.len(),
{
    if from.len() == 0 {
        if s.len() == 0 {
            to
        } else {
            to + seq![s[0]] + replaced(s.drop_first(), from, to)
        }
    } else if occurs_at(s, from, 0) {
        to + replaced(s.subrange(from.len() as int, s.len() as int), from, to)
    } else if s.len() == 0 {
        s
    } else {
        seq![s[0]] + replaced(s.drop_first(), from, to)
    }
}

/// Push the characters of `t` onto `out`.
pub fn push_all(out: &mut Vec<char>, t: &Vec<char>)
    ensures
        final(out)@ == old(out)@ + t@,
{
    let ghost start = out@;
    let mut i: usize = 0;
    while i < t.len()
        invariant
            i <= t.len(),
            out@ == start + t@.subrange(0, i as int),
        decreases t.len() - i,
    {
        out.push(t[i]);
        i += 1;
        proof {
            assert(t@.subrange(0, i as int) =~= t@.subrange(0, i - 1) + seq![t@[i - 1]]);
        }
    }
    proof {
        assert(t@.subrange(0, t.len() as int) =~= t@);
    }
}

/// `str::replace`.
pub fn replace_all(s: &str, from: &str, to: &str) -> (r: String)
    ensures
        r@ == replaced(s@, from@, to@),
{
    let v = chars_of(s);
    let f = chars_of(from);
    let t = chars_of(to);
    let mut out: Vec<char> = Vec::new();
    let mut i: usize = 0;
    proof {
        assert(v@.subrange(0, v.len() as int) =~= v@);
    }
    while i < v.len()
        invariant
            i <= v.len(),
            v@ == s@,
            f@ == from@,
            t@ == to@,
            out@ + replaced(v@.subrange(i as int, v.len() as int), f@, t@) == replaced(s@, from@, to@),
        decreases v.len() - i,
    {
        let ghost rest = v@.subrange(i as int, v.len() as int);
        if f.len() == 0 {
            proof {
                assert(rest.drop_first() =~= v@.subrange(i + 1, v.len() as int));
                assert(out@ + t@ + seq![v@[i as int]] + replaced(rest.drop_first(), f@, t@) =~= out@ + replaced(rest, f@, t@));
            }
            push_all(&mut out, &t);
            out.push(v[i]);
            i += 1;
        } else if matches_at(&v, &f, i) {
            proof {
                assert(rest.subrange(0, f.len() as int) =~= v@.subrange(i as int, i + f.len()));
                assert(occurs_at(rest, f@, 0));
                assert(rest.subrange(f.len() as int, rest.len() as int) =~= v@.subrange(i + f.len(), v.len() as int));
                assert(out@ + t@ + replaced(rest.subrange(f.len() as int, rest.len() as int), f@, t@) =~= out@ + replaced(rest, f@, t@));
            }
            push_all(&mut out, &t);
            i += f.len();
        } else {
            proof {
                if occurs_at(rest, f@, 0) {
                    assert(rest.subrange(0, f.len() as int) =~= v@.subrange(i as int, i + f.len()));
                }
                assert(rest.drop_first() =~= v@.subrange(i + 1, v.len() as int));
                assert(out@ + seq![v@[i as int]] + replaced(rest.drop_first(), f@, t@) =~= out@ + replaced(rest, f@, t@));
            }
            out.push(v[i]);
            i += 1;
        }
    }
    proof {
        assert(v@.subrange(i as int, v.len() as int) =~= Seq::<char>::empty());
    }
    if f.len() == 0 {
        push_all(&mut out, &t);
    } else {
        proof {
            assert(out@ + Seq::<char>::empty() =~= out@);
        }
    }
    string_of(out.as_slice())
}

/// Texts joined with newlines.
pub open spec fn joined_lines(parts: Seq<Seq<char>>) -> Seq<char>
    decreases parts.len(),
{
    if parts.len() == 0 {
        Seq::empty()
    } else if parts.len() == 1 {
        parts[0]
    } else {
        joined_lines(parts.drop_last()) + seq!['\n'] + parts.last()
    }
}

/// Join texts with newlines.
pub fn join_lines(parts: &Vec<String>) -> (r: String)
    ensures
        r@ == joined_lines(Seq::new(parts.len() as nat, |i: int| parts@[i]@)),
{
    let ghost all = Seq::new(parts.len() as nat, |i: int| parts@[i]@);
    let mut out: Vec<char> = Vec::new();
    let mut i: usize = 0;
    proof {
        assert(all.subrange(0, 0) =~= Seq::<Seq<char>>::empty());
    }
    while i < parts.len()
        invariant
            i <= parts.len(),
            all == Seq::new(parts.len() as nat, |i: int| parts@[i]@),
            out@ == joined_lines(all.subrange(0, i as int)),
        decreases parts.len() - i,
    {
        let chars = chars_of(parts[i].as_str());
        if i > 0 {
            out.push('\n');
        }
        push_all(&mut out, &chars);
        proof {
            let next = all.subrange(0, i + 1);
            assert(next.drop_last() =~= all.subrange(0, i as int));
            assert(next.last() == parts@[i as int]@);
            if i == 0 {
                assert(next.len() == 1);
            }
        }
        i += 1;
    }
    proof {
        assert(all.subrange(0, parts.len() as int) =~= all);
    }
    string_of(out.as_slice())
}

/// Texts joined with a separator.
pub open spec fn joined(parts: Seq<Seq<char>>, sep: Seq<char>) -> Seq<char>
    decreases parts.len(),
{
    if parts.len() == 0 {
        Seq::empty()
    } else if parts.len() == 1 {
        parts[0]
    } else {
        joined(parts.drop_last(), sep) + sep + parts.last()
    }
}

/// Join texts with a separator.
pub fn join_with(parts: &Vec<String>, sep: &str) -> (r: String)
    ensures
        r@ == joined(Seq::new(parts.len() as nat, |i: int| parts@[i]@), sep@),
{
    let ghost all = Seq::new(parts.len() as nat, |i: int| parts@[i]@);
    let s = chars_of(sep);
    let mut out: Vec<char> = Vec::new();
    let mut i: usize = 0;
    proof {
        assert(all.subrange(0, 0) =~= Seq::<Seq<char>>::empty());
    }
    while i < parts.len()
        invariant
            i <= parts.len(),
            s@ == sep@,
            all == Seq::new(parts.len() as nat, |i: int| parts@[i]@),
            out@ == joined(all.subrange(0, i as int), sep@),
        decreases parts.len() - i,
    {
        let chars = chars_of(parts[i].as_str());
        let ghost before = out@;
        if i > 0 {
            push_all(&mut out, &s);
        }
        push_all(&mut out, &chars);
        proof {
            let next = all.subrange(0, i + 1);
            assert(next.drop_last() =~= all.subrange(0, i as int));
            assert(next.last() == parts@[i as int]@);
            if i == 0 {
                assert(next.len() == 1);
                assert(before =~= Seq::<char>::empty());
                assert(out@ =~= next[0]);
            } else {
                assert(out@ =~= before + sep@ + parts@[i as int]@);
            }
        }
        i += 1;
    }
    proof {
        assert(all.subrange(0, parts.len() as int) =~= all);
    }
    string_of(out.as_slice())
}

/// Decimal digits are never a `:`, and there is at least one.
pub proof fn lemma_digits_shape(n: nat)
    ensures
        digits(n).len() >= 1,
        n >= 10 ==> digits(n).len() >= 2,
        forall|i: int| 0 <= i < digits(n).len() ==> #[trigger] digits(n)[i] != ':',
    decreases n,
{
    if n >= 10 {
        lemma_digits_shape(n / 10);
        let d = digits(n);
        assert forall|i: int| 0 <= i < d.len() implies #[trigger] d[i] != ':' by {
            if i < digits(n / 10).len() {
                assert(d[i] == digits(n / 10)[i]);
            }
        }
    }
}

/// Different natural numbers have different decimal digits.
pub proof fn lemma_digits_injective(a: nat, b: nat)
    requires
        digits(a) == digits(b),
    ensures
        a == b,
    decreases a,
{
    lemma_digits_shape(a);
    lemma_digits_shape(b);
    if a < 10 && b < 10 {
        assert(digits(a)[0] == digit_char(a));
        assert(digits(b)[0] == digit_char(b));
    } else if a >= 10 && b >= 10 {
        let da = digits(a);
        let db = digits(b);
        assert(da.last() == digit_char(a % 10));
        assert(db.last() == digit_char(b % 10));
        assert(da.drop_last() =~= digits(a / 10));
        assert(db.drop_last() =~= digits(b / 10));
        lemma_digits_injective(a / 10, b / 10);
    }
}

/// Splitting at the first `:` is unique: texts without `:` before it match.
pub proof fn lemma_split_at_colon(x: Seq<char>, y: Seq<char>, u: Seq<char>, v: Seq<char>)
    requires
        forall|i: int| 0 <= i < x.len() ==> #[trigger] x[i] != ':',
        forall|i: int| 0 <= i < u.len() ==> #[trigger] u[i] != ':',
        x + seq![':'] + y == u + seq![':'] + v,
    ensures
        x == u,
        y == v,
{
    let left = x + seq![':'] + y;
    let right = u + seq![':'] + v;
    if x.len() < u.len() {
        assert(left[x.len() as int] == ':');
        assert(right[x.len() as int] == u[x.len() as int]);
    } else if u.len() < x.len() {
        assert(right[u.len() as int] == ':');
        assert(left[u.len() as int] == x[u.len() as int]);
    }
    assert(x =~= left.subrange(0, x.len() as int));
    assert(u =~= right.subrange(0, u.len() as int));
    assert(y =~= left.subrange(x.len() as int + 1, left.len() as int));
    assert(v =~= right.subrange(u.len() as int + 1, right.len() as int));
}

} // verus!
