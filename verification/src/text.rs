//! Small verified helpers on text.
use vstd::prelude::*;

verus! {

/// The characters of `s`.
pub fn chars_of(s: &str) -> (r: Vec<char>)
    ensures
        r@ == s@,
{
    let mut out: Vec<char> = Vec::new();
    for c in it: s.chars()
        invariant
            out@ == it.seq().take(it.index() as int),
            it.seq() == s@,
    {
        out.push(c);
    }
    out
}

/// `c` is `w` up to ASCII letter case, where `w` is a lower-case ASCII letter
/// or another character.
pub open spec fn ascii_lower(c: char) -> char {
    if 'A' <= c <= 'Z' {
        ((c as u32) + 32) as char
    } else {
        c
    }
}

/// Two texts are equal once ASCII upper-case letters are made lower case.
pub open spec fn eq_ignore_ascii_case_spec(a: Seq<char>, b: Seq<char>) -> bool {
    &&& a.len() == b.len()
    &&& forall|i: int| 0 <= i < a.len() ==> ascii_lower(#[trigger] a[i]) == ascii_lower(b[i])
}

/// The lower-case ASCII form of a character.
pub fn to_ascii_lower(c: char) -> (r: char)
    ensures
        r == ascii_lower(c),
{
    if 'A' <= c && c <= 'Z' {
        let v: u32 = (c as u32) + 32;
        assert(0x61 <= v <= 0x7a);
        char_from_ascii(v as u8)
    } else {
        c
    }
}

/// The character with ASCII code `b`.
fn char_from_ascii(b: u8) -> (r: char)
    requires
        b < 128,
    ensures
        r == b as char,
        r as u32 == b as u32,
{
    b as char
}

/// Whether two texts are equal up to ASCII letter case.
pub fn eq_ignore_ascii_case(a: &Vec<char>, b: &Vec<char>) -> (r: bool)
    ensures
        r == eq_ignore_ascii_case_spec(a@, b@),
{
    if a.len() != b.len() {
        return false;
    }
    let mut i: usize = 0;
    while i < a.len()
        invariant
            0 <= i <= a@.len(),
            a@.len() == b@.len(),
            forall|j: int| 0 <= j < i ==> ascii_lower(#[trigger] a@[j]) == ascii_lower(b@[j]),
        decreases a@.len() - i,
    {
        if to_ascii_lower(a[i]) != to_ascii_lower(b[i]) {
            return false;
        }
        i = i + 1;
    }
    true
}

/// The characters that Unicode gives the White_Space property.
pub open spec fn is_whitespace(c: char) -> bool {
    ||| '\t' <= c <= '\r'
    ||| c == ' '
    ||| c == '\u{85}'
    ||| c == '\u{a0}'
    ||| c == '\u{1680}'
    ||| '\u{2000}' <= c <= '\u{200a}'
    ||| c == '\u{2028}'
    ||| c == '\u{2029}'
    ||| c == '\u{202f}'
    ||| c == '\u{205f}'
    ||| c == '\u{3000}'
}

/// Whether `c` is white space.
pub fn char_is_whitespace(c: char) -> (r: bool)
    ensures
        r == is_whitespace(c),
{
    ('\t' <= c && c <= '\r') || c == ' ' || c == '\u{85}' || c == '\u{a0}' || c == '\u{1680}' || (
    '\u{2000}' <= c && c <= '\u{200a}') || c == '\u{2028}' || c == '\u{2029}' || c == '\u{202f}'
        || c == '\u{205f}' || c == '\u{3000}'
}

/// The first index at or after `from` that holds no white space, or the length.
pub open spec fn skip_space(s: Seq<char>, from: int) -> int
    decreases s.len() - from,
{
    if from >= s.len() {
        s.len() as int
    } else if is_whitespace(s[from]) {
        skip_space(s, from + 1)
    } else {
        from
    }
}

/// The first index at or after `from` that holds white space, or the length.
pub open spec fn skip_word(s: Seq<char>, from: int) -> int
    decreases s.len() - from,
{
    if from >= s.len() {
        s.len() as int
    } else if is_whitespace(s[from]) {
        from
    } else {
        skip_word(s, from + 1)
    }
}

/// The words of `s` from `from` on: the maximal runs of characters that
/// are not white space, in order.
pub open spec fn words_from(s: Seq<char>, from: int) -> Seq<Seq<char>>
    decreases s.len() - from,
{
    let a = skip_space(s, from);
    if from < 0 || a >= s.len() || a < from {
        Seq::empty()
    } else {
        let b = skip_word(s, a);
        if b <= a || b > s.len() {
            Seq::empty()
        } else {
            seq![s.subrange(a, b)] + words_from(s, b)
        }
    }
}

proof fn lemma_skip_space_bounds(s: Seq<char>, from: int)
    requires
        0 <= from <= s.len(),
    ensures
        from <= skip_space(s, from) <= s.len(),
        skip_space(s, from) < s.len() ==> !is_whitespace(s[skip_space(s, from)]),
    decreases s.len() - from,
{
    if from < s.len() && is_whitespace(s[from]) {
        lemma_skip_space_bounds(s, from + 1);
    }
}

proof fn lemma_skip_word_bounds(s: Seq<char>, from: int)
    requires
        0 <= from <= s.len(),
    ensures
        from <= skip_word(s, from) <= s.len(),
    decreases s.len() - from,
{
    if from < s.len() && !is_whitespace(s[from]) {
        lemma_skip_word_bounds(s, from + 1);
    }
}

/// The words of `s`, split at white space (as `str::split_whitespace` does).
pub fn split_whitespace(s: &str) -> (r: Vec<String>)
    ensures
        r@.len() == words_from(s@, 0).len(),
        forall|k: int| 0 <= k < r@.len() ==> (#[trigger] r@[k])@ == words_from(s@, 0)[k],
{
    let cs = chars_of(s);
    let n: usize = cs.len();
    let mut out: Vec<String> = Vec::new();
    let mut i: usize = 0;
    while i < n
        invariant
            n == cs@.len(),
            cs@ == s@,
            0 <= i <= n,
            words_from(s@, 0) =~= out@.map_values(|w: String| w@) + words_from(s@, i as int),
        decreases n - i,
    {
        proof {
            lemma_skip_space_bounds(s@, i as int);
        }
        let mut a: usize = i;
        while a < n && char_is_whitespace(cs[a])
            invariant
                n == cs@.len(),
                cs@ == s@,
                i <= a <= n,
                skip_space(s@, i as int) == skip_space(s@, a as int),
            decreases n - a,
        {
            a = a + 1;
        }
        if a >= n {
            proof {
                assert(words_from(s@, i as int) =~= Seq::<Seq<char>>::empty());
            }
            i = n;
        } else {
            proof {
                lemma_skip_word_bounds(s@, a as int);
            }
            let mut b: usize = a;
            while b < n && !char_is_whitespace(cs[b])
                invariant
                    n == cs@.len(),
                    cs@ == s@,
                    a <= b <= n,
                    skip_word(s@, a as int) == skip_word(s@, b as int),
                decreases n - b,
            {
                b = b + 1;
            }
            let word = s.substring_char(a, b);
            let w = String::from_str(word);
            let ghost before = out@;
            out.push(w);
            proof {
                assert(out@.map_values(|w: String| w@) =~= before.map_values(|w: String| w@).push(
                    s@.subrange(a as int, b as int),
                ));
            }
            i = b;
        }
    }
    proof {
        assert(words_from(s@, n as int) =~= Seq::<Seq<char>>::empty());
        assert forall|k: int| 0 <= k < out@.len() implies (#[trigger] out@[k])@ == words_from(
            s@,
            0,
        )[k] by {
            assert(out@.map_values(|w: String| w@)[k] == out@[k]@);
        }
    }
    out
}

/// The decimal digit `d` as a one-character text.
pub fn digit_str(d: u64) -> (r: &'static str)
    requires
        d < 10,
    ensures
        r@ == seq![digit_char(d as int)],
{
    proof {
        reveal_strlit("0");
        reveal_strlit("1");
        reveal_strlit("2");
        reveal_strlit("3");
        reveal_strlit("4");
        reveal_strlit("5");
        reveal_strlit("6");
        reveal_strlit("7");
        reveal_strlit("8");
        reveal_strlit("9");
    }
    match d {
        0 => "0",
        1 => "1",
        2 => "2",
        3 => "3",
        4 => "4",
        5 => "5",
        6 => "6",
        7 => "7",
        8 => "8",
        _ => "9",
    }
}

/// The character of the decimal digit `d`.
pub open spec fn digit_char(d: int) -> char {
    if d == 0 {
        '0'
    } else if d == 1 {
        '1'
    } else if d == 2 {
        '2'
    } else if d == 3 {
        '3'
    } else if d == 4 {
        '4'
    } else if d == 5 {
        '5'
    } else if d == 6 {
        '6'
    } else if d == 7 {
        '7'
    } else if d == 8 {
        '8'
    } else {
        '9'
    }
}

/// The decimal digits of `n`, without leading zeros ("0" for zero).
pub open spec fn nat_text(n: nat) -> Seq<char>
    decreases n,
{
    if n < 10 {
        seq![digit_char(n as int)]
    } else {
        nat_text(n / 10) + seq![digit_char((n % 10) as int)]
    }
}

/// The decimal text of `n`, with a minus sign when it is negative.
pub open spec fn int_text(n: int) -> Seq<char> {
    if n < 0 {
        seq!['-'] + nat_text((-n) as nat)
    } else {
        nat_text(n as nat)
    }
}

/// The decimal text of `n`, as `Display` writes it.
pub fn u64_to_text(n: u64) -> (r: String)
    ensures
        r@ == nat_text(n as nat),
    decreases n,
{
    if n < 10 {
        String::from_str(digit_str(n))
    } else {
        let mut s = u64_to_text(n / 10);
        s.append(digit_str(n % 10));
        s
    }
}

/// The decimal text of `n`, as `Display` writes it.
pub fn i64_to_text(n: i64) -> (r: String)
    ensures
        r@ == int_text(n as int),
{
    if n < 0 {
        let m: u64 = if n == i64::MIN {
            9223372036854775808u64
        } else {
            (-n) as u64
        };
        let mut s = String::from_str("-");
        proof {
            reveal_strlit("-");
        }
        let t = u64_to_text(m);
        s.append(t.as_str());
        s
    } else {
        u64_to_text(n as u64)
    }
}

/// Ten to the power `k`.
pub open spec fn pow10(k: nat) -> nat
    decreases k,
{
    if k == 0 {
        1
    } else {
        10 * pow10((k - 1) as nat)
    }
}

/// Ten to the power `k`.
pub fn pow10_u64(k: u32) -> (r: u64)
    requires
        k <= 19,
    ensures
        r == pow10(k as nat),
        r >= 1,
{
    proof {
        lemma_pow10_pos(k as nat);
    }
    let mut r: u64 = 1;
    let mut i: u32 = 0;
    while i < k
        invariant
            0 <= i <= k <= 19,
            r == pow10(i as nat),
            r <= 10000000000000000000u64,
        decreases k - i,
    {
        proof {
            reveal_with_fuel(pow10, 20);
            lemma_pow10_bound(i as nat);
        }
        r = r * 10;
        i = i + 1;
    }
    r
}

proof fn lemma_pow10_bound(i: nat)
    requires
        i < 19,
    ensures
        pow10(i) <= 1000000000000000000,
{
    reveal_with_fuel(pow10, 20);
    assert(pow10(18) == 1000000000000000000nat);
    lemma_pow10_mono(i, 18);
}

proof fn lemma_pow10_mono(i: nat, j: nat)
    requires
        i <= j,
    ensures
        pow10(i) <= pow10(j),
    decreases j,
{
    if i < j {
        lemma_pow10_mono(i, (j - 1) as nat);
    }
}

/// The `k` decimal digits of `f`, most significant first, zero-padded.
pub open spec fn fixed_digits(f: nat, k: nat) -> Seq<char> {
    Seq::new(k, |i: int| digit_char(((f / pow10((k - 1 - i) as nat)) % 10) as int))
}

/// `s` without its trailing '0' characters.
pub open spec fn trim_zeros(s: Seq<char>) -> Seq<char>
    decreases s.len(),
{
    if s.len() > 0 && s.last() == '0' {
        trim_zeros(s.drop_last())
    } else {
        s
    }
}

/// The shortest decimal text of `digits / 10^scale`, as `Display` writes a
/// number: no fractional part when it is whole, otherwise a point and the
/// fractional digits without trailing zeros.
pub open spec fn decimal_text(digits: nat, scale: nat) -> Seq<char> {
    let p = pow10(scale);
    let ip = digits / p;
    let fp = digits % p;
    if fp == 0 {
        nat_text(ip)
    } else {
        nat_text(ip) + seq!['.'] + trim_zeros(fixed_digits(fp, scale))
    }
}

proof fn lemma_trim_zeros(s: Seq<char>, m: int)
    requires
        0 <= m <= s.len(),
        forall|k: int| m <= k < s.len() ==> s[k] == '0',
        m == 0 || s[m - 1] != '0',
    ensures
        trim_zeros(s) == s.take(m),
    decreases s.len(),
{
    if s.len() > m {
        assert(s.last() == '0');
        assert(s.drop_last().take(m) =~= s.take(m));
        lemma_trim_zeros(s.drop_last(), m);
    } else {
        assert(s.take(m) =~= s);
        if s.len() > 0 {
            assert(s.last() == s[m - 1]);
        }
    }
}

/// The text of the decimal number `digits / 10^scale`, as `Display` writes it.
pub fn decimal_to_text(digits: u64, scale: u32) -> (r: String)
    requires
        scale <= 19,
    ensures
        r@ == decimal_text(digits as nat, scale as nat),
{
    let p: u64 = pow10_u64(scale);
    proof {
        reveal_with_fuel(pow10, 1);
        lemma_pow10_pos(scale as nat);
    }
    let ip: u64 = digits / p;
    let fp: u64 = digits % p;
    let mut s = u64_to_text(ip);
    if fp == 0 {
        return s;
    }
    s.append(".");
    proof {
        reveal_strlit(".");
    }
    let ghost fixed = fixed_digits(fp as nat, scale as nat);
    // The number of fractional digits once trailing zeros are dropped
    let mut m: u32 = scale;
    loop
        invariant
            0 <= m <= scale <= 19,
            forall|k: int| m <= k < scale ==> fixed[k] == '0',
            fixed.len() == scale,
            fixed == fixed_digits(fp as nat, scale as nat),
        ensures
            0 <= m <= scale <= 19,
            forall|k: int| m <= k < scale ==> fixed[k] == '0',
            m == 0 || fixed[m - 1] != '0',
        decreases m,
    {
        if m == 0 {
            break ;
        }
        let d: u64 = fp / pow10_u64(scale - m) % 10;
        proof {
            let k = (m - 1) as int;
            assert(fixed[k] == digit_char(d as int));
        }
        if d != 0 {
            break ;
        }
        m = m - 1;
    }
    proof {
        lemma_trim_zeros(fixed, m as int);
    }
    let ghost before = s@;
    let mut i: u32 = 0;
    while i < m
        invariant
            0 <= i <= m <= scale <= 19,
            fixed.len() == scale,
            fixed == fixed_digits(fp as nat, scale as nat),
            s@ == before + fixed.take(i as int),
        decreases m - i,
    {
        let d: u64 = fp / pow10_u64(scale - 1 - i) % 10;
        s.append(digit_str(d));
        proof {
            assert(fixed[i as int] == digit_char(d as int));
            assert(fixed.take(i + 1) =~= fixed.take(i as int).push(fixed[i as int]));
        }
        i = i + 1;
    }
    s
}

proof fn lemma_pow10_pos(k: nat)
    ensures
        pow10(k) >= 1,
    decreases k,
{
    if k > 0 {
        lemma_pow10_pos((k - 1) as nat);
    }
}

/// Whether `needle` occurs in `hay` starting at index `at`.
pub open spec fn occurs_at(hay: Seq<char>, needle: Seq<char>, at: int) -> bool {
    0 <= at && at + needle.len() <= hay.len() && hay.subrange(at, at + needle.len()) == needle
}

/// Whether `needle` occurs somewhere in `hay`.
pub open spec fn contains_spec(hay: Seq<char>, needle: Seq<char>) -> bool {
    exists|at: int| occurs_at(hay, needle, at)
}

/// Whether `needle` occurs in `hay` at index `at` (by comparing characters).
fn matches_at(hay: &Vec<char>, needle: &Vec<char>, at: usize) -> (r: bool)
    requires
        at + needle@.len() <= hay@.len(),
    ensures
        r == occurs_at(hay@, needle@, at as int),
{
    let hay_len: usize = hay.len();
    let mut k: usize = 0;
    while k < needle.len()
        invariant
            hay_len == hay@.len(),
            at + needle@.len() <= hay@.len(),
            0 <= k <= needle@.len(),
            forall|j: int| 0 <= j < k ==> hay@[at + j] == needle@[j],
        decreases needle@.len() - k,
    {
        if hay[at + k] != needle[k] {
            assert(hay@.subrange(at as int, at + needle@.len())[k as int] != needle@[k as int]);
            return false;
        }
        k = k + 1;
    }
    assert(hay@.subrange(at as int, at + needle@.len()) =~= needle@);
    true
}

/// Whether `hay` contains the text `needle`.
pub fn contains_text(hay: &str, needle: &str) -> (r: bool)
    ensures
        r == contains_spec(hay@, needle@),
{
    let h = chars_of(hay);
    let n = chars_of(needle);
    if n.len() > h.len() {
        assert forall|at: int| !occurs_at(hay@, needle@, at) by {}
        return false;
    }
    let last: usize = h.len() - n.len();
    let mut at: usize = 0;
    while at < last
        invariant
            h@ == hay@,
            n@ == needle@,
            last + n@.len() == h@.len(),
            0 <= at <= last,
            forall|j: int| 0 <= j < at ==> !occurs_at(hay@, needle@, j),
        decreases last - at,
    {
        if matches_at(&h, &n, at) {
            return true;
        }
        at = at + 1;
    }
    if matches_at(&h, &n, last) {
        return true;
    }
    assert forall|j: int| !occurs_at(hay@, needle@, j) by {
        if 0 <= j < at {
        }
    }
    false
}


} // verus!
