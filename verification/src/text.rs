//! Text as sequences of characters: order, search, trimming and the decimal
//! rendering of numbers.

use vstd::prelude::*;
use vstd::string::*;

verus! {

/// Strict lexicographic order on character sequences, by code point. A proper
/// prefix comes before the longer text.
pub open spec fn text_lt(a: Seq<char>, b: Seq<char>) -> bool
    decreases a.len(),
{
    if b.len() == 0 {
        false
    } else if a.len() == 0 {
        true
    } else if a[0] != b[0] {
        a[0] < b[0]
    } else {
        text_lt(a.drop_first(), b.drop_first())
    }
}

/// No text comes before itself.
pub proof fn lemma_text_lt_irreflexive(a: Seq<char>)
    ensures
        !text_lt(a, a),
    decreases a.len(),
{
    if a.len() > 0 {
        lemma_text_lt_irreflexive(a.drop_first());
    }
}

/// Of two different texts exactly one comes before the other.
pub proof fn lemma_text_lt_total(a: Seq<char>, b: Seq<char>)
    ensures
        a == b || text_lt(a, b) || text_lt(b, a),
        !(text_lt(a, b) && text_lt(b, a)),
    decreases a.len(),
{
    if a.len() == 0 || b.len() == 0 {
        if a.len() == 0 && b.len() == 0 {
            assert(a =~= b);
        }
    } else if a[0] != b[0] {
    } else {
        lemma_text_lt_total(a.drop_first(), b.drop_first());
        if a.drop_first() == b.drop_first() {
            assert forall|i: int| 0 <= i < a.len() implies a[i] == b[i] by {
                if i > 0 {
                    assert(a[i] == a.drop_first()[i - 1]);
                    assert(b[i] == b.drop_first()[i - 1]);
                }
            }
            assert(a.len() == a.drop_first().len() + 1);
            assert(b.len() == b.drop_first().len() + 1);
            assert(a =~= b);
        }
    }
}

/// The order is transitive.
pub proof fn lemma_text_lt_transitive(a: Seq<char>, b: Seq<char>, c: Seq<char>)
    requires
        text_lt(a, b),
        text_lt(b, c),
    ensures
        text_lt(a, c),
    decreases a.len(),
{
    if a.len() == 0 {
    } else if a[0] != b[0] {
    } else if b[0] != c[0] {
    } else {
        lemma_text_lt_transitive(a.drop_first(), b.drop_first(), c.drop_first());
    }
}

/// The characters of a string slice, in a vector.
pub fn chars_of(s: &str) -> (v: Vec<char>)
    ensures
        v@ == s@,
{
    let n: usize = s.unicode_len();
    let mut v: Vec<char> = Vec::new();
    let mut i: usize = 0;
    while i < n
        invariant
            n == s@.len(),
            i <= n,
            v@ == s@.take(i as int),
        decreases n - i,
    {
        v.push(s.get_char(i));
        assert(s@.take(i as int).push(s@[i as int]) =~= s@.take(i + 1));
        i += 1;
    }
    assert(s@.take(n as int) =~= s@);
    v
}

/// Whether `a` comes strictly before `b`.
pub fn chars_lt(a: &Vec<char>, b: &Vec<char>) -> (r: bool)
    ensures
        r == text_lt(a@, b@),
{
    let mut i: usize = 0;
    assert(a@.skip(0) =~= a@);
    assert(b@.skip(0) =~= b@);
    loop
        invariant
            i <= a.len(),
            i <= b.len(),
            text_lt(a@, b@) == text_lt(a@.skip(i as int), b@.skip(i as int)),
        decreases a.len() - i,
    {
        if i >= b.len() {
            return false;
        }
        if i >= a.len() {
            return true;
        }
        let x: char = a[i];
        let y: char = b[i];
        if x != y {
            return x < y;
        }
        assert(a@.skip(i as int).drop_first() =~= a@.skip(i + 1));
        assert(b@.skip(i as int).drop_first() =~= b@.skip(i + 1));
        i += 1;
    }
}

/// Whether two character vectors hold the same text.
pub fn chars_eq(a: &Vec<char>, b: &Vec<char>) -> (r: bool)
    ensures
        r == (a@ == b@),
{
    if a.len() != b.len() {
        return false;
    }
    let mut i: usize = 0;
    while i < a.len()
        invariant
            a.len() == b.len(),
            i <= a.len(),
            a@.take(i as int) == b@.take(i as int),
        decreases a.len() - i,
    {
        if a[i] != b[i] {
            return false;
        }
        assert(a@.take(i + 1) =~= a@.take(i as int).push(a@[i as int]));
        assert(b@.take(i + 1) =~= b@.take(i as int).push(b@[i as int]));
        i += 1;
    }
    assert(a@.take(a.len() as int) =~= a@);
    assert(b@.take(b.len() as int) =~= b@);
    true
}


/// `String::push` appends one character to the end of the string.
pub assume_specification[ String::push ](s: &mut String, c: char)
    ensures
        final(s)@ == old(s)@.push(c),
;

/// The string made of the characters of `v`.
pub fn string_of(v: &Vec<char>) -> (s: String)
    ensures
        s@ == v@,
{
    let mut s: String = String::new();
    let mut i: usize = 0;
    while i < v.len()
        invariant
            i <= v.len(),
            s@ == v@.take(i as int),
        decreases v.len() - i,
    {
        s.push(v[i]);
        assert(v@.take(i + 1) =~= v@.take(i as int).push(v@[i as int]));
        i += 1;
    }
    assert(v@.take(v.len() as int) =~= v@);
    s
}

/// Appends the characters of `tail` to `out`.
pub fn push_all(out: &mut Vec<char>, tail: &Vec<char>)
    ensures
        final(out)@ == old(out)@ + tail@,
{
    let mut i: usize = 0;
    while i < tail.len()
        invariant
            i <= tail.len(),
            out@ == old(out)@ + tail@.take(i as int),
        decreases tail.len() - i,
    {
        out.push(tail[i]);
        assert(tail@.take(i + 1) =~= tail@.take(i as int).push(tail@[i as int]));
        i += 1;
    }
    assert(tail@.take(tail.len() as int) =~= tail@);
}

/// Appends the characters of the string slice `tail` to `out`.
pub fn push_str(out: &mut Vec<char>, tail: &str)
    ensures
        final(out)@ == old(out)@ + tail@,
{
    let t: Vec<char> = chars_of(tail);
    push_all(out, &t);
}

/// A copy of the characters of `v` from position `lo` up to `hi`.
pub fn slice_of(v: &Vec<char>, lo: usize, hi: usize) -> (r: Vec<char>)
    requires
        lo <= hi <= v.len(),
    ensures
        r@ == v@.subrange(lo as int, hi as int),
{
    let mut r: Vec<char> = Vec::new();
    let mut i: usize = lo;
    while i < hi
        invariant
            lo <= i <= hi <= v.len(),
            r@ == v@.subrange(lo as int, i as int),
        decreases hi - i,
    {
        r.push(v[i]);
        assert(v@.subrange(lo as int, i + 1) =~= v@.subrange(lo as int, i as int).push(v@[i as int]));
        i += 1;
    }
    r
}

/// The decimal digit for a value below ten.
pub open spec fn digit_char(d: nat) -> char {
    if d == 0 {
        '0'
    } else if d == 1 {
        '1'
    } else if d == 2 {
        '2'
    } else if d == 3 {
        '3'
    } else if d == 4 {
        '4'
    } else if d == 5 {
        '5'
    } else if d == 6 {
        '6'
    } else if d == 7 {
        '7'
    } else if d == 8 {
        '8'
    } else {
        '9'
    }
}

/// The decimal numeral of a natural number, without leading zeros.
pub open spec fn nat_text(n: nat) -> Seq<char>
    decreases n,
{
    if n < 10 {
        seq![digit_char(n)]
    } else {
        nat_text(n / 10).push(digit_char(n % 10))
    }
}

/// The decimal numeral of an integer, with a minus sign where it is negative.
pub open spec fn int_text(i: int) -> Seq<char> {
    if i < 0 {
        seq!['-'] + nat_text((-i) as nat)
    } else {
        nat_text(i as nat)
    }
}

fn digit_of(d: u128) -> (c: char)
    requires
        d < 10,
    ensures
        c == digit_char(d as nat),
{
    if d == 0 {
        '0'
    } else if d == 1 {
        '1'
    } else if d == 2 {
        '2'
    } else if d == 3 {
        '3'
    } else if d == 4 {
        '4'
    } else if d == 5 {
        '5'
    } else if d == 6 {
        '6'
    } else if d == 7 {
        '7'
    } else if d == 8 {
        '8'
    } else {
        '9'
    }
}

/// Appends the decimal numeral of `n` to `out`.
pub fn push_nat(out: &mut Vec<char>, n: u128)
    ensures
        final(out)@ == old(out)@ + nat_text(n as nat),
    decreases n,
{
    if n >= 10 {
        push_nat(out, n / 10);
        out.push(digit_of(n % 10));
        assert(out@ =~= old(out)@ + nat_text(n as nat));
    } else {
        out.push(digit_of(n));
        assert(out@ =~= old(out)@ + nat_text(n as nat));
    }
}

/// The absolute value of `i`, which always fits the unsigned type.
pub fn magnitude(i: i128) -> (m: u128)
    ensures
        m == (if i < 0 { -i } else { i as int }),
{
    if i >= 0 {
        i as u128
    } else {
        let below: i128 = -(i + 1);
        (below as u128) + 1
    }
}

/// Appends the decimal numeral of `i` to `out`.
pub fn push_int(out: &mut Vec<char>, i: i128)
    ensures
        final(out)@ == old(out)@ + int_text(i as int),
{
    if i < 0 {
        out.push('-');
        push_nat(out, magnitude(i));
        assert(out@ =~= old(out)@ + int_text(i as int));
    } else {
        push_nat(out, magnitude(i));
    }
}

/// The decimal numeral of a natural number as a string.
pub fn nat_string(n: u128) -> (s: String)
    ensures
        s@ == nat_text(n as nat),
{
    let mut out: Vec<char> = Vec::new();
    push_nat(&mut out, n);
    assert(out@ =~= nat_text(n as nat));
    string_of(&out)
}

/// The decimal numeral of an integer as a string.
pub fn int_string(i: i128) -> (s: String)
    ensures
        s@ == int_text(i as int),
{
    let mut out: Vec<char> = Vec::new();
    push_int(&mut out, i);
    assert(out@ =~= int_text(i as int));
    string_of(&out)
}

/// The fraction digits of a count of thousandths below one thousand: a point
/// and up to three digits with no trailing zero, or nothing for zero.
pub open spec fn fraction_text(f: nat) -> Seq<char> {
    if f == 0 {
        Seq::<char>::empty()
    } else if f % 100 == 0 {
        seq!['.', digit_char(f / 100)]
    } else if f % 10 == 0 {
        seq!['.', digit_char(f / 100), digit_char((f / 10) % 10)]
    } else {
        seq!['.', digit_char(f / 100), digit_char((f / 10) % 10), digit_char(f % 10)]
    }
}

/// The decimal numeral of a quantity given in thousandths: `1500` reads `1.5`,
/// `-50` reads `-0.05`, `15000` reads `15`.
pub open spec fn thousandths_text(m: int) -> Seq<char> {
    if m < 0 {
        seq!['-'] + nat_text(((-m) / 1000) as nat) + fraction_text(((-m) % 1000) as nat)
    } else {
        nat_text((m / 1000) as nat) + fraction_text((m % 1000) as nat)
    }
}

/// Appends the decimal numeral of a quantity in thousandths to `out`.
pub fn push_thousandths(out: &mut Vec<char>, m: i128)
    ensures
        final(out)@ == old(out)@ + thousandths_text(m as int),
{
    if m < 0 {
        out.push('-');
    }
    let a: u128 = magnitude(m);
    push_nat(out, a / 1000);
    let f: u128 = a % 1000;
    if f != 0 {
        out.push('.');
        out.push(digit_of(f / 100));
        if f % 100 != 0 {
            out.push(digit_of((f / 10) % 10));
            if f % 10 != 0 {
                out.push(digit_of(f % 10));
            }
        }
    }
    assert(out@ =~= old(out)@ + thousandths_text(m as int));
}

/// A quantity in thousandths rounded to the nearest whole number, a tie going
/// to the even neighbour.
pub open spec fn rounded_units(m: int) -> int {
    let q = m / 1000;
    let r = m % 1000;
    if r < 500 {
        q
    } else if r > 500 {
        q + 1
    } else if q % 2 == 0 {
        q
    } else {
        q + 1
    }
}

/// Rounds a quantity in thousandths to the nearest whole number, ties to even.
pub fn round_units(m: i128) -> (u: i128)
    ensures
        u == rounded_units(m as int),
{
    // Rust's `/` and `%` round toward zero; shift to the floor for negative values.
    let mut q: i128 = m / 1000;
    let mut r: i128 = m % 1000;
    if r < 0 {
        q = q - 1;
        r = r + 1000;
    }
    assert(q == (m as int) / 1000 && r == (m as int) % 1000) by {
        assert(m as int == 1000 * (q as int) + (r as int));
        vstd::arithmetic::div_mod::lemma_fundamental_div_mod_converse(m as int, 1000, q as int, r as int);
    }
    if r < 500 {
        q
    } else if r > 500 {
        q + 1
    } else if q % 2 == 0 {
        q
    } else {
        q + 1
    }
}

/// White space as Unicode defines it.
pub open spec fn is_space(c: char) -> bool {
    let n = c as u32;
    (0x09 <= n <= 0x0D) || n == 0x20 || n == 0x85 || n == 0xA0 || n == 0x1680 || (0x2000 <= n
        <= 0x200A) || n == 0x2028 || n == 0x2029 || n == 0x202F || n == 0x205F || n == 0x3000
}

/// Whether `c` is white space.
pub fn space_char(c: char) -> (b: bool)
    ensures
        b == is_space(c),
{
    let n: u32 = c as u32;
    (0x09 <= n && n <= 0x0D) || n == 0x20 || n == 0x85 || n == 0xA0 || n == 0x1680 || (0x2000 <= n
        && n <= 0x200A) || n == 0x2028 || n == 0x2029 || n == 0x202F || n == 0x205F || n == 0x3000
}

/// A text with nothing in it but white space.
pub open spec fn is_blank(s: Seq<char>) -> bool {
    forall|i: int| 0 <= i < s.len() ==> is_space(#[trigger] s[i])
}

/// Whether `v` holds nothing but white space.
pub fn blank_chars(v: &Vec<char>) -> (b: bool)
    ensures
        b == is_blank(v@),
{
    let mut i: usize = 0;
    while i < v.len()
        invariant
            i <= v.len(),
            forall|k: int| 0 <= k < i ==> is_space(#[trigger] v@[k]),
        decreases v.len() - i,
    {
        if !space_char(v[i]) {
            return false;
        }
        i += 1;
    }
    true
}

/// Where the text starts once leading white space is dropped.
pub open spec fn trim_start(s: Seq<char>) -> int
    decreases s.len(),
{
    if s.len() > 0 && is_space(s[0]) {
        1 + trim_start(s.drop_first())
    } else {
        0
    }
}

/// Where the text ends once trailing white space is dropped.
pub open spec fn trim_end(s: Seq<char>) -> int
    decreases s.len(),
{
    if s.len() > 0 && is_space(s.last()) {
        trim_end(s.drop_last())
    } else {
        s.len() as int
    }
}

/// The text without its leading and trailing white space.
pub open spec fn trimmed(s: Seq<char>) -> Seq<char> {
    if trim_start(s) >= trim_end(s) {
        Seq::<char>::empty()
    } else {
        s.subrange(trim_start(s), trim_end(s))
    }
}

/// The bounds of `trim_start`.
pub proof fn lemma_trim_start_bounds(s: Seq<char>)
    ensures
        0 <= trim_start(s) <= s.len(),
        forall|k: int| 0 <= k < trim_start(s) ==> is_space(#[trigger] s[k]),
        trim_start(s) < s.len() ==> !is_space(s[trim_start(s)]),
    decreases s.len(),
{
    if s.len() > 0 && is_space(s[0]) {
        let t = s.drop_first();
        lemma_trim_start_bounds(t);
        assert forall|k: int| 0 <= k < trim_start(s) implies is_space(#[trigger] s[k]) by {
            if k > 0 {
                assert(s[k] == t[k - 1]);
            }
        }
        if trim_start(s) < s.len() {
            assert(s[trim_start(s)] == t[trim_start(t)]);
        }
    }
}

/// The bounds of `trim_end`.
pub proof fn lemma_trim_end_bounds(s: Seq<char>)
    ensures
        0 <= trim_end(s) <= s.len(),
        forall|k: int| trim_end(s) <= k < s.len() ==> is_space(#[trigger] s[k]),
        trim_end(s) > 0 ==> !is_space(s[trim_end(s) - 1]),
    decreases s.len(),
{
    if s.len() > 0 && is_space(s.last()) {
        let t = s.drop_last();
        lemma_trim_end_bounds(t);
        assert forall|k: int| trim_end(s) <= k < s.len() implies is_space(#[trigger] s[k]) by {
            if k < s.len() - 1 {
                assert(s[k] == t[k]);
            }
        }
        if trim_end(s) > 0 {
            assert(s[trim_end(s) - 1] == t[trim_end(t) - 1]);
        }
    }
}

/// The characters of `v` between `lo` and `hi` without leading and trailing
/// white space.
pub fn trim_chars(v: &Vec<char>) -> (r: Vec<char>)
    ensures
        r@ == trimmed(v@),
{
    let mut lo: usize = 0;
    while lo < v.len() && space_char(v[lo])
        invariant
            lo <= v.len(),
            forall|k: int| 0 <= k < lo ==> is_space(#[trigger] v@[k]),
        decreases v.len() - lo,
    {
        lo += 1;
    }
    let mut hi: usize = v.len();
    while hi > 0 && space_char(v[hi - 1])
        invariant
            hi <= v.len(),
            forall|k: int| hi <= k < v.len() ==> is_space(#[trigger] v@[k]),
        decreases hi,
    {
        hi -= 1;
    }
    proof {
        lemma_trim_start_bounds(v@);
        lemma_trim_end_bounds(v@);
        let a = trim_start(v@);
        let b = trim_end(v@);
        if a < lo {
            assert(is_space(v@[a]));
        }
        if lo < a {
            assert(is_space(v@[lo as int]));
        }
        if b > hi {
            assert(is_space(v@[b - 1]));
        }
        if hi > b {
            assert(is_space(v@[hi - 1]));
        }
    }
    if lo >= hi {
        Vec::new()
    } else {
        slice_of(v, lo, hi)
    }
}

/// Whether `needle` stands in `hay` at position `at`.
pub open spec fn occurs_at(hay: Seq<char>, needle: Seq<char>, at: int) -> bool {
    0 <= at && at + needle.len() <= hay.len() && hay.subrange(at, at + needle.len()) == needle
}

/// Whether `needle` stands somewhere in `hay` as a run of characters.
pub open spec fn contains_text(hay: Seq<char>, needle: Seq<char>) -> bool {
    exists|at: int| occurs_at(hay, needle, at)
}

/// Whether `needle` stands in `hay` at position `at`.
pub fn chars_occur_at(hay: &Vec<char>, needle: &Vec<char>, at: usize) -> (b: bool)
    ensures
        b == occurs_at(hay@, needle@, at as int),
{
    if at > hay.len() || needle.len() > hay.len() - at {
        return false;
    }
    let mut j: usize = 0;
    while j < needle.len()
        invariant
            j <= needle.len(),
            at + needle.len() <= hay.len(),
            forall|k: int| 0 <= k < j ==> hay@[at + k] == needle@[k],
        decreases needle.len() - j,
    {
        if hay[at + j] != needle[j] {
            assert(hay@.subrange(at as int, at + needle.len())[j as int] == hay@[at + j]);
            return false;
        }
        j += 1;
    }
    assert(hay@.subrange(at as int, at + needle.len()) =~= needle@);
    true
}

/// Whether `needle` stands somewhere in `hay`.
pub fn chars_contain(hay: &Vec<char>, needle: &Vec<char>) -> (b: bool)
    ensures
        b == contains_text(hay@, needle@),
{
    if needle.len() > hay.len() {
        return false;
    }
    let last: usize = hay.len() - needle.len();
    let mut at: usize = 0;
    while at < last
        invariant
            last == hay.len() - needle.len(),
            at <= last,
            forall|k: int| 0 <= k < at ==> !occurs_at(hay@, needle@, k),
        decreases last - at,
    {
        if chars_occur_at(hay, needle, at) {
            return true;
        }
        at += 1;
    }
    chars_occur_at(hay, needle, last)
}


/// The position of the first `c` in the text, or the length of the text
/// where it holds none.
pub open spec fn first_char(s: Seq<char>, c: char) -> int
    decreases s.len(),
{
    if s.len() == 0 {
        0
    } else if s[0] == c {
        0
    } else {
        1 + first_char(s.drop_first(), c)
    }
}

/// The position of the last `c` in the text, or -1 where it holds none.
pub open spec fn last_char(s: Seq<char>, c: char) -> int
    decreases s.len(),
{
    if s.len() == 0 {
        -1
    } else if s.last() == c {
        s.len() - 1
    } else {
        last_char(s.drop_last(), c)
    }
}

/// `first_char` finds the first occurrence and nothing before it is one.
pub proof fn lemma_first_char(s: Seq<char>, c: char)
    ensures
        0 <= first_char(s, c) <= s.len(),
        first_char(s, c) < s.len() ==> s[first_char(s, c)] == c,
        forall|k: int| 0 <= k < first_char(s, c) ==> #[trigger] s[k] != c,
    decreases s.len(),
{
    if s.len() > 0 && s[0] != c {
        let rest = s.drop_first();
        lemma_first_char(rest, c);
        assert forall|k: int| 0 <= k < first_char(s, c) implies #[trigger] s[k] != c by {
            if k > 0 {
                assert(s[k] == rest[k - 1]);
            }
        }
        if first_char(s, c) < s.len() {
            assert(s[first_char(s, c)] == rest[first_char(rest, c)]);
        }
    }
}

/// `last_char` finds the last occurrence and nothing after it is one.
pub proof fn lemma_last_char(s: Seq<char>, c: char)
    ensures
        -1 <= last_char(s, c) < s.len(),
        last_char(s, c) >= 0 ==> s[last_char(s, c)] == c,
        forall|k: int| last_char(s, c) < k < s.len() ==> #[trigger] s[k] != c,
    decreases s.len(),
{
    if s.len() > 0 && s.last() != c {
        let rest = s.drop_last();
        lemma_last_char(rest, c);
        assert forall|k: int| last_char(s, c) < k < s.len() implies #[trigger] s[k] != c by {
            if k < s.len() - 1 {
                assert(s[k] == rest[k]);
            }
        }
        if last_char(s, c) >= 0 {
            assert(s[last_char(s, c)] == rest[last_char(rest, c)]);
        }
    }
}

/// The position of the first `c` in `v`, or the length of `v`.
pub fn find_char(v: &Vec<char>, c: char) -> (at: usize)
    ensures
        at == first_char(v@, c),
{
    proof {
        lemma_first_char(v@, c);
    }
    let mut i: usize = 0;
    while i < v.len()
        invariant
            i <= v.len(),
            forall|k: int| 0 <= k < i ==> #[trigger] v@[k] != c,
            0 <= first_char(v@, c) <= v@.len(),
            first_char(v@, c) < v@.len() ==> v@[first_char(v@, c)] == c,
            forall|k: int| 0 <= k < first_char(v@, c) ==> #[trigger] v@[k] != c,
        decreases v.len() - i,
    {
        if v[i] == c {
            return i;
        }
        i += 1;
    }
    i
}

/// The position of the last `c` in `v`, or none.
pub fn rfind_char(v: &Vec<char>, c: char) -> (at: Option<usize>)
    ensures
        match at {
            Some(i) => i == last_char(v@, c),
            None => last_char(v@, c) == -1,
        },
{
    proof {
        lemma_last_char(v@, c);
    }
    let mut i: usize = v.len();
    while i > 0
        invariant
            i <= v.len(),
            forall|k: int| i <= k < v@.len() ==> #[trigger] v@[k] != c,
            -1 <= last_char(v@, c) < v@.len(),
            last_char(v@, c) >= 0 ==> v@[last_char(v@, c)] == c,
            forall|k: int| last_char(v@, c) < k < v@.len() ==> #[trigger] v@[k] != c,
        decreases i,
    {
        if v[i - 1] == c {
            return Some(i - 1);
        }
        i -= 1;
    }
    None
}

/// Whether the character vector begins with the text of the string slice.
pub fn chars_begin(v: &Vec<char>, prefix: &str) -> (b: bool)
    ensures
        b == occurs_at(v@, prefix@, 0),
{
    let p: Vec<char> = chars_of(prefix);
    chars_occur_at(v, &p, 0)
}

/// A text stands in every text that is built around it.
pub proof fn lemma_contains_middle(before: Seq<char>, x: Seq<char>, after: Seq<char>)
    ensures
        contains_text(before + x + after, x),
{
    let whole = before + x + after;
    assert(whole.subrange(before.len() as int, (before.len() + x.len()) as int) =~= x);
    assert(occurs_at(whole, x, before.len() as int));
}

/// What stands in a text stands in every text that is built around that text.
pub proof fn lemma_contains_within(before: Seq<char>, hay: Seq<char>, after: Seq<char>, x: Seq<char>)
    requires
        contains_text(hay, x),
    ensures
        contains_text(before + hay + after, x),
{
    let at = choose|at: int| occurs_at(hay, x, at);
    let whole = before + hay + after;
    assert(whole.subrange(before.len() + at, before.len() + at + x.len()) =~= hay.subrange(
        at,
        at + x.len(),
    ));
    assert(occurs_at(whole, x, before.len() + at));
}

/// The names of a list, each between double quotes, with a comma and a
/// space between neighbours.
pub open spec fn quoted_items(names: Seq<Seq<char>>) -> Seq<char>
    decreases names.len(),
{
    if names.len() == 0 {
        Seq::empty()
    } else if names.len() == 1 {
        seq!['"'] + names[0] + seq!['"']
    } else {
        quoted_items(names.drop_last()) + seq![',', ' ', '"'] + names.last() + seq!['"']
    }
}

/// A list of names between square brackets: `["a", "b"]`.
pub open spec fn list_text(names: Seq<Seq<char>>) -> Seq<char> {
    seq!['['] + quoted_items(names) + seq![']']
}

/// Every name of a list stands in the text of the list as it is.
pub proof fn lemma_list_holds_names(names: Seq<Seq<char>>, i: int)
    requires
        0 <= i < names.len(),
    ensures
        contains_text(quoted_items(names), names[i]),
        contains_text(list_text(names), names[i]),
    decreases names.len(),
{
    if names.len() == 1 {
        lemma_contains_middle(seq!['"'], names[0], seq!['"']);
    } else if i == names.len() - 1 {
        lemma_contains_middle(
            quoted_items(names.drop_last()) + seq![',', ' ', '"'],
            names.last(),
            seq!['"'],
        );
    } else {
        lemma_list_holds_names(names.drop_last(), i);
        assert(names.drop_last()[i] == names[i]);
        lemma_contains_within(
            Seq::empty(),
            quoted_items(names.drop_last()),
            seq![',', ' ', '"'] + names.last() + seq!['"'],
            names[i],
        );
        assert(Seq::<char>::empty() + quoted_items(names.drop_last()) + (seq![',', ' ', '"']
            + names.last() + seq!['"']) =~= quoted_items(names));
    }
    lemma_contains_within(seq!['['], quoted_items(names), seq![']'], names[i]);
}

/// Appends the text of a list of names to `out`.
pub fn push_list(out: &mut Vec<char>, names: &Vec<String>)
    ensures
        final(out)@ == old(out)@ + list_text(Seq::new(names@.len(), |i: int| names@[i]@)),
{
    let ghost all = Seq::new(names@.len(), |i: int| names@[i]@);
    let ghost start = out@;
    out.push('[');
    let mut i: usize = 0;
    assert(all.take(0) =~= Seq::<Seq<char>>::empty());
    while i < names.len()
        invariant
            i <= names.len(),
            all == Seq::new(names@.len(), |k: int| names@[k]@),
            out@ == start + seq!['['] + quoted_items(all.take(i as int)),
        decreases names.len() - i,
    {
        let ghost before = out@;
        if i > 0 {
            out.push(',');
            out.push(' ');
        }
        out.push('"');
        push_str(out, names[i].as_str());
        out.push('"');
        proof {
            let next = all.take(i + 1);
            assert(next.drop_last() =~= all.take(i as int));
            assert(next.last() == names@[i as int]@);
            if i == 0 {
                assert(next[0] == names@[0]@);
                assert(out@ =~= start + seq!['['] + quoted_items(next));
            } else {
                assert(out@ =~= start + seq!['['] + quoted_items(next));
            }
        }
        i += 1;
    }
    assert(all.take(names.len() as int) =~= all);
    out.push(']');
    assert(out@ =~= start + list_text(all));
}

/// The lowercase form of a text, as `str::to_lowercase` gives it.
pub uninterp spec fn lowercase(s: Seq<char>) -> Seq<char>;

/// `str::to_lowercase` returns the lowercase form of the slice as a new
/// string; the form depends on the text alone.
pub assume_specification[ str::to_lowercase ](s: &str) -> (r: String)
    ensures
        r@ == lowercase(s@),
;

/// Whether a character is a letter or a number, as `char::is_alphanumeric`
/// tells it.
pub uninterp spec fn alphanumeric(c: char) -> bool;

/// `char::is_alphanumeric` tells whether the character is alphabetic or
/// numeric; the answer depends on the character alone.
pub assume_specification[ char::is_alphanumeric ](c: char) -> (b: bool)
    ensures
        b == alphanumeric(c),
;

/// Whether a character is one of the ten digits.
pub open spec fn is_digit_char(c: char) -> bool {
    '0' <= c <= '9'
}

/// The value of a digit.
pub open spec fn digit_value(c: char) -> int {
    c as u32 - '0' as u32
}

/// The pieces of a text between the occurrences of a separator. A text
/// without the separator is one piece.
pub open spec fn split_on(s: Seq<char>, separator: char) -> Seq<Seq<char>>
    decreases s.len(),
{
    if first_char(s, separator) >= s.len() || first_char(s, separator) < 0 {
        seq![s]
    } else {
        seq![s.take(first_char(s, separator))] + split_on(
            s.skip(first_char(s, separator) + 1),
            separator,
        )
    }
}

/// The position of the first separator at or after `from`, or the length.
fn find_from(v: &Vec<char>, from: usize, separator: char) -> (at: usize)
    requires
        from <= v@.len(),
    ensures
        at == from + first_char(v@.skip(from as int), separator),
        from <= at <= v@.len(),
{
    let ghost rest = v@.skip(from as int);
    proof {
        lemma_first_char(rest, separator);
    }
    let mut i: usize = from;
    while i < v.len()
        invariant
            from <= i <= v.len(),
            rest == v@.skip(from as int),
            forall|k: int| 0 <= k < i - from ==> #[trigger] rest[k] != separator,
            0 <= first_char(rest, separator) <= rest.len(),
            first_char(rest, separator) < rest.len() ==> rest[first_char(rest, separator)]
                == separator,
            forall|k: int| 0 <= k < first_char(rest, separator) ==> #[trigger] rest[k] != separator,
        decreases v.len() - i,
    {
        if v[i] == separator {
            assert(rest[i - from] == separator);
            return i;
        }
        assert(rest[i - from] == v@[i as int]);
        i += 1;
    }
    i
}

/// The pieces of the text between the occurrences of the separator.
pub fn split_chars(v: &Vec<char>, separator: char) -> (pieces: Vec<Vec<char>>)
    ensures
        Seq::new(pieces@.len(), |i: int| pieces@[i]@) == split_on(v@, separator),
{
    let mut pieces: Vec<Vec<char>> = Vec::new();
    let mut start: usize = 0;
    assert(v@.skip(0) =~= v@);
    loop
        invariant
            start <= v@.len(),
            split_on(v@, separator) == Seq::new(pieces@.len(), |i: int| pieces@[i]@) + split_on(
                v@.skip(start as int),
                separator,
            ),
        decreases v@.len() - start,
    {
        let ghost rest = v@.skip(start as int);
        let ghost done = Seq::new(pieces@.len(), |i: int| pieces@[i]@);
        let at: usize = find_from(v, start, separator);
        let piece: Vec<char> = slice_of(v, start, at);
        assert(piece@ =~= rest.take(at - start));
        pieces.push(piece);
        let ghost now = Seq::new(pieces@.len(), |i: int| pieces@[i]@);
        assert(now =~= done + seq![piece@]);
        if at >= v.len() {
            assert(rest.take(rest.len() as int) =~= rest);
            assert(split_on(rest, separator) =~= seq![rest]);
            assert(now =~= split_on(v@, separator));
            return pieces;
        }
        assert(rest.skip(at - start + 1) =~= v@.skip(at + 1));
        assert(split_on(v@, separator) =~= now + split_on(v@.skip(at + 1), separator));
        start = at + 1;
    }
}

/// Why a text is not a position.
#[derive(Debug, Clone, Copy, PartialEq, Eq, Structural)]
pub enum NumberFault {
    /// The text is empty.
    Empty,
    /// The text holds a character that is not a digit.
    InvalidDigit,
    /// The number does not fit the machine's word.
    TooLarge,
}

/// The number that the digits of a text add to a number read so far, read
/// from the left. A character that is not a digit is a fault; so is a number
/// that does not fit the machine's word.
pub open spec fn read_digits(so_far: nat, s: Seq<char>) -> Result<nat, NumberFault>
    decreases s.len(),
{
    if s.len() == 0 {
        Ok(so_far)
    } else if !is_digit_char(s[0]) {
        Err(NumberFault::InvalidDigit)
    } else if so_far * 10 + digit_value(s[0]) > usize::MAX {
        Err(NumberFault::TooLarge)
    } else {
        read_digits((so_far * 10 + digit_value(s[0])) as nat, s.drop_first())
    }
}

/// The position that a text writes: decimal digits, with a plus sign before
/// them or without. The empty text, a lone sign and a minus sign are faults.
pub open spec fn read_position(s: Seq<char>) -> Result<nat, NumberFault> {
    if s.len() == 0 {
        Err(NumberFault::Empty)
    } else if s[0] == '+' {
        if s.len() == 1 {
            Err(NumberFault::InvalidDigit)
        } else {
            read_digits(0, s.drop_first())
        }
    } else {
        read_digits(0, s)
    }
}

/// Reads the position that a text writes.
pub fn parse_position(v: &Vec<char>) -> (r: Result<usize, NumberFault>)
    ensures
        match r {
            Ok(n) => read_position(v@) == Ok::<nat, NumberFault>(n as nat),
            Err(fault) => read_position(v@) == Err::<nat, NumberFault>(fault),
        },
{
    if v.len() == 0 {
        return Err(NumberFault::Empty);
    }
    let first: usize = if v[0] == '+' {
        1
    } else {
        0
    };
    if first == 1 && v.len() == 1 {
        return Err(NumberFault::InvalidDigit);
    }
    let ghost digits = v@.skip(first as int);
    assert(first == 1 ==> digits =~= v@.drop_first());
    assert(first == 0 ==> digits =~= v@);
    let mut total: usize = 0;
    let mut i: usize = first;
    while i < v.len()
        invariant
            first <= i <= v.len(),
            digits == v@.skip(first as int),
            read_position(v@) == read_digits(0, digits),
            read_digits(0, digits) == read_digits(total as nat, v@.skip(i as int)),
        decreases v.len() - i,
    {
        let c: char = v[i];
        assert(v@.skip(i as int)[0] == c);
        assert(v@.skip(i as int).drop_first() =~= v@.skip(i + 1));
        if !('0' <= c && c <= '9') {
            return Err(NumberFault::InvalidDigit);
        }
        let d: usize = (c as u32 - '0' as u32) as usize;
        if total > (usize::MAX - d) / 10 {
            assert(total * 10 + d > usize::MAX);
            return Err(NumberFault::TooLarge);
        }
        total = total * 10 + d;
        i += 1;
    }
    assert(v@.skip(v.len() as int).len() == 0);
    Ok(total)
}

} // verus!
