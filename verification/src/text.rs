//! Character-level text operations with exact specifications.
//!
//! Strings are viewed as sequences of characters (`Seq<char>`); every
//! operation here states its result over that view.
use vstd::prelude::*;

verus! {

/// `str`'s `==`: two slices are equal exactly when they hold the same characters.
pub assume_specification[ <str as PartialEq>::eq ](a: &str, b: &str) -> (r: bool)
    ensures
        r == (a@ == b@),
;

/// `String::push` appends one character to the end of the string.
pub assume_specification[ std::string::String::push ](s: &mut std::string::String, c: char)
    ensures
        final(s)@ == old(s)@.push(c),
;

/// Whether two string slices hold the same characters.
pub fn str_eq(a: &str, b: &str) -> (r: bool)
    ensures
        r == (a@ == b@),
{
    *a == *b
}

/// The characters of `s`, in order.
pub fn to_chars(s: &str) -> (v: Vec<char>)
    ensures
        v@ == s@,
{
    let mut v: Vec<char> = Vec::new();
    for c in it: s.chars()
        invariant
            v@ == it.seq().take(it.index() as int),
            it.seq() == s@,
    {
        v.push(c);
    }
    v
}

/// The string made of the characters `v[from..to]`.
pub fn from_chars_range(v: &Vec<char>, from: usize, to: usize) -> (s: String)
    requires
        from <= to <= v.len(),
    ensures
        s@ == v@.subrange(from as int, to as int),
{
    let mut s = String::new();
    let mut i: usize = from;
    while i < to
        invariant
            from <= i <= to <= v.len(),
            s@ == v@.subrange(from as int, i as int),
        decreases to - i,
    {
        s.push(v[i]);
        i = i + 1;
    }
    s
}

/// `a` followed by `b`.
pub fn concat(a: &str, b: &str) -> (s: String)
    ensures
        s@ == a@ + b@,
{
    let mut s = a.to_owned();
    s.append(b);
    s
}

/// `a`, `b` and `c` one after the other.
pub fn concat3(a: &str, b: &str, c: &str) -> (s: String)
    ensures
        s@ == a@ + b@ + c@,
{
    let mut s = a.to_owned();
    s.append(b);
    s.append(c);
    s
}

/// Whether `pat` occurs in `s` starting at position `at`.
pub open spec fn matches_at(s: Seq<char>, pat: Seq<char>, at: int) -> bool {
    0 <= at && at + pat.len() <= s.len() && s.subrange(at, at + pat.len()) == pat
}

/// Whether `pat` occurs in `s` starting at position `at`.
pub fn check_matches_at(s: &Vec<char>, pat: &Vec<char>, at: usize) -> (r: bool)
    ensures
        r == matches_at(s@, pat@, at as int),
{
    if at > s.len() || pat.len() > s.len() - at {
        return false;
    }
    let mut i: usize = 0;
    while i < pat.len()
        invariant
            i <= pat.len(),
            at + pat.len() <= s.len(),
            s@.subrange(at as int, at + i) == pat@.take(i as int),
        decreases pat.len() - i,
    {
        if s[at + i] != pat[i] {
            assert(s@.subrange(at as int, at + pat.len())[i as int] != pat@[i as int]);
            return false;
        }
        assert(s@.subrange(at as int, at + i + 1) =~= s@.subrange(at as int, at + i).push(
            s@[at + i],
        ));
        assert(pat@.take(i + 1) =~= pat@.take(i as int).push(pat@[i as int]));
        i = i + 1;
    }
    assert(pat@.take(pat.len() as int) =~= pat@);
    true
}

/// Whether `s` begins with `prefix`.
pub fn starts_with(s: &str, prefix: &str) -> (r: bool)
    ensures
        r == prefix@.is_prefix_of(s@),
{
    let sv = to_chars(s);
    let pv = to_chars(prefix);
    let r = check_matches_at(&sv, &pv, 0);
    proof {
        if r {
            assert(s@.subrange(0, prefix@.len() as int) == prefix@);
        }
        if prefix@.is_prefix_of(s@) {
            assert(s@.subrange(0, prefix@.len() as int) =~= prefix@);
        }
    }
    r
}

/// What is left of `s` after `prefix`, when `s` begins with it.
pub fn strip_prefix(s: &str, prefix: &str) -> (r: Option<String>)
    ensures
        prefix@.is_prefix_of(s@) ==> r is Some && r->Some_0@ == s@.skip(prefix@.len() as int),
        !prefix@.is_prefix_of(s@) ==> r is None,
{
    let sv = to_chars(s);
    let pv = to_chars(prefix);
    let m = check_matches_at(&sv, &pv, 0);
    proof {
        if m {
            assert(s@.subrange(0, prefix@.len() as int) == prefix@);
        }
        if prefix@.is_prefix_of(s@) {
            assert(s@.subrange(0, prefix@.len() as int) =~= prefix@);
        }
    }
    if m {
        Some(from_chars_range(&sv, pv.len(), sv.len()))
    } else {
        None
    }
}

/// Whether `s` holds no newline, so that it fits on one line.
pub open spec fn single_line(s: Seq<char>) -> bool {
    forall|i: int| 0 <= i < s.len() ==> s[i] != '\n'
}

/// `s` without one newline at its end, where it ends in one.
pub open spec fn without_line_end(s: Seq<char>) -> Seq<char> {
    if s.len() > 0 && s.last() == '\n' {
        s.drop_last()
    } else {
        s
    }
}

/// `line` without one newline at its end, where it ends in one.
pub fn strip_line_end(line: &str) -> (r: String)
    ensures
        r@ == without_line_end(line@),
{
    let v = to_chars(line);
    let n = v.len();
    if n > 0 && v[n - 1] == '\n' {
        from_chars_range(&v, 0, n - 1)
    } else {
        assert(v@.subrange(0, n as int) =~= v@);
        from_chars_range(&v, 0, n)
    }
}

/// The characters of an optional string.
pub open spec fn opt_text(o: Option<String>) -> Option<Seq<char>> {
    match o {
        Some(s) => Some(s@),
        None => None,
    }
}

/// A copy of an optional string.
pub fn clone_opt(o: &Option<String>) -> (r: Option<String>)
    ensures
        opt_text(r) == opt_text(*o),
{
    match o {
        Some(s) => Some(s.clone()),
        None => None,
    }
}

/// The character that writes the digit `d`.
pub open spec fn digit_char(d: nat) -> char {
    if d == 0 {
        '0'
    } else if d == 1 {
        '1'
    } else if d == 2 {
        '2'
    } else if d == 3 {
        '3'
    } else if d == 4 {
        '4'
    } else if d == 5 {
        '5'
    } else if d == 6 {
        '6'
    } else if d == 7 {
        '7'
    } else if d == 8 {
        '8'
    } else {
        '9'
    }
}

/// The decimal digits of `n`, most significant first, without leading zeros.
pub open spec fn decimal(n: nat) -> Seq<char>
    decreases n,
{
    if n < 10 {
        seq![digit_char(n)]
    } else {
        decimal(n / 10).push(digit_char(n % 10))
    }
}

/// The decimal text of an integer, with `-` in front of a negative one.
pub open spec fn signed_decimal(i: int) -> Seq<char> {
    if i < 0 {
        seq!['-'] + decimal((-i) as nat)
    } else {
        decimal(i as nat)
    }
}

fn digit_of(d: u64) -> (c: char)
    requires
        d < 10,
    ensures
        c == digit_char(d as nat),
{
    if d == 0 {
        '0'
    } else if d == 1 {
        '1'
    } else if d == 2 {
        '2'
    } else if d == 3 {
        '3'
    } else if d == 4 {
        '4'
    } else if d == 5 {
        '5'
    } else if d == 6 {
        '6'
    } else if d == 7 {
        '7'
    } else if d == 8 {
        '8'
    } else {
        '9'
    }
}

/// Appends the decimal digits of `n` to `s`.
pub fn push_decimal(s: &mut String, n: u64)
    ensures
        final(s)@ == old(s)@ + decimal(n as nat),
    decreases n,
{
    if n >= 10 {
        push_decimal(s, n / 10);
    }
    s.push(digit_of(n % 10));
}

/// The decimal text of `n`.
pub fn u64_to_string(n: u64) -> (s: String)
    ensures
        s@ == decimal(n as nat),
{
    let mut s = String::new();
    push_decimal(&mut s, n);
    s
}

/// The decimal text of `i`.
pub fn i64_to_string(i: i64) -> (s: String)
    ensures
        s@ == signed_decimal(i as int),
{
    let mut s = String::new();
    if i < 0 {
        s.push('-');
        let magnitude: u64 = if i == i64::MIN {
            9223372036854775808u64
        } else {
            (-i) as u64
        };
        push_decimal(&mut s, magnitude);
    } else {
        push_decimal(&mut s, i as u64);
    }
    s
}

/// The digit that `c` writes, if it writes one.
pub open spec fn digit_value(c: char) -> Option<nat> {
    if c == '0' {
        Some(0nat)
    } else if c == '1' {
        Some(1nat)
    } else if c == '2' {
        Some(2nat)
    } else if c == '3' {
        Some(3nat)
    } else if c == '4' {
        Some(4nat)
    } else if c == '5' {
        Some(5nat)
    } else if c == '6' {
        Some(6nat)
    } else if c == '7' {
        Some(7nat)
    } else if c == '8' {
        Some(8nat)
    } else if c == '9' {
        Some(9nat)
    } else {
        None
    }
}

/// The number that a run of digits writes; `None` for the empty text and for
/// a text with anything but digits in it.
pub open spec fn digits_value(s: Seq<char>) -> Option<nat>
    decreases s.len(),
{
    if s.len() == 0 {
        None
    } else if s.len() == 1 {
        digit_value(s[0])
    } else {
        match (digits_value(s.drop_last()), digit_value(s.last())) {
            (Some(high), Some(low)) => Some(high * 10 + low),
            _ => None,
        }
    }
}

/// The number that a text writes in plain decimal: digits only, and no zero
/// in front of another digit.
pub open spec fn plain_decimal_value(s: Seq<char>) -> Option<nat> {
    if s.len() > 1 && s[0] == '0' {
        None
    } else {
        digits_value(s)
    }
}

fn digit_to_u64(c: char) -> (r: Option<u64>)
    ensures
        r is Some <==> digit_value(c) is Some,
        r matches Some(d) ==> d < 10 && digit_value(c) == Some(d as nat),
{
    if c == '0' {
        Some(0)
    } else if c == '1' {
        Some(1)
    } else if c == '2' {
        Some(2)
    } else if c == '3' {
        Some(3)
    } else if c == '4' {
        Some(4)
    } else if c == '5' {
        Some(5)
    } else if c == '6' {
        Some(6)
    } else if c == '7' {
        Some(7)
    } else if c == '8' {
        Some(8)
    } else if c == '9' {
        Some(9)
    } else {
        None
    }
}

/// Once a prefix of a text does not write a number, or writes one above some
/// bound, the whole text does the same.
proof fn lemma_digits_value_grows(s: Seq<char>, k: int)
    requires
        0 < k <= s.len(),
    ensures
        digits_value(s.take(k)) is None ==> digits_value(s) is None,
        digits_value(s) matches Some(n) ==> digits_value(s.take(k)) matches Some(m) && m <= n,
    decreases s.len() - k,
{
    if k < s.len() {
        assert(s.drop_last().take(k) =~= s.take(k));
        if k < s.len() - 1 {
            lemma_digits_value_grows(s.drop_last(), k);
        } else {
            assert(s.drop_last() =~= s.take(k));
        }
    } else {
        assert(s.take(k) =~= s);
    }
}

/// The decimal text of a number begins with a digit that is not zero, unless
/// the number is zero; and the digits of the text write the number.
proof fn lemma_decimal_digits(n: nat)
    ensures
        decimal(n).len() >= 1,
        n >= 1 ==> decimal(n)[0] != '0',
        digits_value(decimal(n)) == Some(n),
    decreases n,
{
    if n >= 10 {
        lemma_decimal_digits(n / 10);
        let s = decimal(n);
        assert(s.drop_last() =~= decimal(n / 10));
        assert(s.last() == digit_char(n % 10));
        assert(s[0] == decimal(n / 10)[0]);
    }
}

/// Reading the decimal text of a number gives the number back.
pub proof fn lemma_decimal_round_trip(n: nat)
    ensures
        plain_decimal_value(decimal(n)) == Some(n),
{
    lemma_decimal_digits(n);
}

/// Reads the number that a run of digits writes, where it fits in 64 bits.
fn read_digits(v: &Vec<char>) -> (r: Option<u64>)
    ensures
        r is Some <==> (digits_value(v@) matches Some(n) && n <= u64::MAX),
        r matches Some(x) ==> digits_value(v@) == Some(x as nat),
{
    if v.len() == 0 {
        return None;
    }
    let mut acc: u64 = 0;
    let mut i: usize = 0;
    while i < v.len()
        invariant
            i <= v.len(),
            i > 0 ==> digits_value(v@.take(i as int)) == Some(acc as nat),
            i == 0 ==> acc == 0,
        decreases v.len() - i,
    {
        let ghost prefix = v@.take(i + 1);
        proof {
            assert(prefix.drop_last() =~= v@.take(i as int));
            assert(prefix.last() == v@[i as int]);
            lemma_digits_value_grows(v@, i + 1);
        }
        match digit_to_u64(v[i]) {
            None => {
                return None;
            },
            Some(d) => {
                if acc > (u64::MAX - d) / 10 {
                    assert(i > 0);
                    assert(digits_value(prefix) == Some((acc * 10 + d) as nat));
                    return None;
                }
                acc = acc * 10 + d;
            },
        }
        i = i + 1;
    }
    assert(v@.take(v.len() as int) =~= v@);
    Some(acc)
}

/// Reads a number written in plain decimal that fits in 64 bits.
pub fn parse_u64(s: &str) -> (r: Option<u64>)
    ensures
        r is Some <==> (plain_decimal_value(s@) matches Some(n) && n <= u64::MAX),
        r matches Some(v) ==> plain_decimal_value(s@) == Some(v as nat),
{
    let v = to_chars(s);
    if v.len() > 1 && v[0] == '0' {
        return None;
    }
    read_digits(&v)
}

/// The number that a text writes in decimal as a user may type it: a run of
/// digits, with or without a `+` in front.
pub open spec fn typed_decimal_value(s: Seq<char>) -> Option<nat> {
    if s.len() > 0 && s[0] == '+' {
        digits_value(s.skip(1))
    } else {
        digits_value(s)
    }
}

/// Reads a number that a user typed in decimal, where it fits in 64 bits.
pub fn parse_typed_u64(s: &str) -> (r: Option<u64>)
    ensures
        r is Some <==> (typed_decimal_value(s@) matches Some(n) && n <= u64::MAX),
        r matches Some(v) ==> typed_decimal_value(s@) == Some(v as nat),
{
    let v = to_chars(s);
    if v.len() > 0 && v[0] == '+' {
        let rest = from_chars_range(&v, 1, v.len());
        let digits = to_chars(rest.as_str());
        assert(digits@ =~= s@.skip(1));
        read_digits(&digits)
    } else {
        read_digits(&v)
    }
}

/// Whether `c` is white space: the characters with the Unicode property
/// `White_Space`.
pub open spec fn is_whitespace(c: char) -> bool {
    let u = c as u32;
    (0x09 <= u <= 0x0D) || u == 0x20 || u == 0x85 || u == 0xA0 || u == 0x1680 || (0x2000 <= u
        <= 0x200A) || u == 0x2028 || u == 0x2029 || u == 0x202F || u == 0x205F || u == 0x3000
}

/// Whether `c` is white space.
pub fn check_whitespace(c: char) -> (r: bool)
    ensures
        r == is_whitespace(c),
{
    let u = c as u32;
    (0x09 <= u && u <= 0x0D) || u == 0x20 || u == 0x85 || u == 0xA0 || u == 0x1680 || (0x2000 <= u
        && u <= 0x200A) || u == 0x2028 || u == 0x2029 || u == 0x202F || u == 0x205F || u == 0x3000
}

/// The position of the first character at or after `from` that is not white
/// space, or the length of `s` where there is none.
pub open spec fn skip_whitespace(s: Seq<char>, from: int) -> int
    decreases s.len() - from,
{
    if 0 <= from < s.len() && is_whitespace(s[from]) {
        skip_whitespace(s, from + 1)
    } else {
        from
    }
}

/// The position just after the last character before `to` that is not white
/// space, or `floor` where there is none at or after `floor`.
pub open spec fn skip_whitespace_back(s: Seq<char>, floor: int, to: int) -> int
    decreases to,
{
    if 0 <= floor < to <= s.len() && is_whitespace(s[to - 1]) {
        skip_whitespace_back(s, floor, to - 1)
    } else {
        to
    }
}

/// `s` without the white space at its two ends.
pub open spec fn trimmed(s: Seq<char>) -> Seq<char> {
    let start = skip_whitespace(s, 0);
    s.subrange(start, skip_whitespace_back(s, start, s.len() as int))
}

proof fn lemma_skip_whitespace_bounds(s: Seq<char>, from: int)
    requires
        0 <= from <= s.len(),
    ensures
        from <= skip_whitespace(s, from) <= s.len(),
    decreases s.len() - from,
{
    if from < s.len() && is_whitespace(s[from]) {
        lemma_skip_whitespace_bounds(s, from + 1);
    }
}

proof fn lemma_skip_whitespace_back_bounds(s: Seq<char>, floor: int, to: int)
    requires
        0 <= floor <= to <= s.len(),
    ensures
        floor <= skip_whitespace_back(s, floor, to) <= to,
    decreases to,
{
    if floor < to && is_whitespace(s[to - 1]) {
        lemma_skip_whitespace_back_bounds(s, floor, to - 1);
    }
}

/// The characters `v[from..to]` without the white space at the two ends.
pub fn trim_range(v: &Vec<char>, from: usize, to: usize) -> (r: String)
    requires
        from <= to <= v.len(),
    ensures
        r@ == trimmed(v@.subrange(from as int, to as int)),
{
    let ghost part = v@.subrange(from as int, to as int);
    let mut a: usize = from;
    while a < to && check_whitespace(v[a])
        invariant
            from <= a <= to <= v.len(),
            part == v@.subrange(from as int, to as int),
            skip_whitespace(part, 0) == skip_whitespace(part, a - from),
        decreases to - a,
    {
        a = a + 1;
    }
    let mut b: usize = to;
    while b > a && check_whitespace(v[b - 1])
        invariant
            from <= a <= b <= to <= v.len(),
            part == v@.subrange(from as int, to as int),
            skip_whitespace_back(part, a - from, part.len() as int) == skip_whitespace_back(
                part,
                a - from,
                b - from,
            ),
        decreases b,
    {
        b = b - 1;
    }
    assert(part.subrange(a - from, b - from) =~= v@.subrange(a as int, b as int));
    from_chars_range(v, a, b)
}

/// `s` without the white space at its two ends.
pub fn trim(s: &str) -> (r: String)
    ensures
        r@ == trimmed(s@),
{
    let v = to_chars(s);
    assert(v@.subrange(0, v.len() as int) =~= v@);
    trim_range(&v, 0, v.len())
}

/// The pieces of `s` between the occurrences of `pat`, found from left to
/// right without overlap. `start` is where the current piece begins and `at`
/// where the search goes on.
pub open spec fn split_from(s: Seq<char>, pat: Seq<char>, start: int, at: int) -> Seq<Seq<char>>
    decreases s.len() - at,
{
    if pat.len() == 0 || start < 0 || at < start || at + pat.len() > s.len() {
        seq![s.subrange(start, s.len() as int)]
    } else if matches_at(s, pat, at) {
        seq![s.subrange(start, at)] + split_from(s, pat, at + pat.len(), at + pat.len())
    } else {
        split_from(s, pat, start, at + 1)
    }
}

/// The pieces of `s` between the occurrences of `pat`. A text without `pat`
/// is one piece; a text that ends in `pat` has an empty last piece.
pub open spec fn split(s: Seq<char>, pat: Seq<char>) -> Seq<Seq<char>> {
    split_from(s, pat, 0, 0)
}

/// The texts of a list of strings, one for one.
pub open spec fn texts(v: Seq<String>) -> Seq<Seq<char>> {
    Seq::new(v.len(), |i: int| v[i]@)
}

/// The pieces of `s` between the occurrences of `pat`.
pub fn split_chars(s: &Vec<char>, pat: &Vec<char>) -> (r: Vec<String>)
    ensures
        texts(r@) == split(s@, pat@),
{
    let mut parts: Vec<String> = Vec::new();
    let n = s.len();
    let m = pat.len();
    if m == 0 || m > n {
        parts.push(from_chars_range(s, 0, n));
        assert(texts(parts@) =~= seq![s@.subrange(0, n as int)]);
        return parts;
    }
    let mut start: usize = 0;
    let mut at: usize = 0;
    assert(texts(parts@) =~= Seq::empty());
    while at <= n - m
        invariant
            0 < m <= n,
            n == s.len(),
            m == pat.len(),
            start <= at <= n,
            split(s@, pat@) == texts(parts@) + split_from(s@, pat@, start as int, at as int),
        decreases n - at,
    {
        if check_matches_at(s, pat, at) {
            let ghost before = texts(parts@);
            parts.push(from_chars_range(s, start, at));
            assert(texts(parts@) =~= before.push(s@.subrange(start as int, at as int)));
            at = at + m;
            start = at;
        } else {
            at = at + 1;
        }
    }
    let ghost before = texts(parts@);
    parts.push(from_chars_range(s, start, n));
    assert(texts(parts@) =~= before.push(s@.subrange(start as int, n as int)));
    parts
}

/// The pieces of `s` between the occurrences of `pat`.
pub fn split_text(s: &str, pat: &str) -> (r: Vec<String>)
    ensures
        texts(r@) == split(s@, pat@),
{
    let sv = to_chars(s);
    let pv = to_chars(pat);
    split_chars(&sv, &pv)
}

} // verus!
