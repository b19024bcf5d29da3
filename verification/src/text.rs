//! Characters and strings: the character classes the grammar rests on, and
//! conversions between strings, character vectors and decimal numerals.

use vstd::prelude::*;

verus! {

/// What `char::is_whitespace` says of a character beyond ASCII.
pub uninterp spec fn wide_white_space(c: char) -> bool;

/// What `char::is_alphanumeric` says of a character beyond ASCII.
pub uninterp spec fn wide_alphanumeric(c: char) -> bool;

/// The white-space class of `char::is_whitespace`: of ASCII the space and the
/// controls from tab to carriage return, beyond ASCII what Unicode counts as
/// white space.
pub open spec fn white_space(c: char) -> bool {
    if c <= '\x7f' {
        c == ' ' || ('\t' <= c && c <= '\r')
    } else {
        wide_white_space(c)
    }
}

/// The alphanumeric class of `char::is_alphanumeric`: of ASCII the letters
/// and the digits, beyond ASCII what Unicode counts as alphabetic or numeric.
pub open spec fn alphanumeric(c: char) -> bool {
    if c <= '\x7f' {
        ('a' <= c && c <= 'z') || ('A' <= c && c <= 'Z') || ('0' <= c && c <= '9')
    } else {
        wide_alphanumeric(c)
    }
}

/// `char::is_whitespace` decides membership in the Unicode `White_Space`
/// class. The contract spells the class out on ASCII, where it is U+0009 to
/// U+000D and U+0020, and names it beyond: `wide_white_space`.
pub assume_specification[ char::is_whitespace ](c: char) -> (b: bool)
    ensures
        b == white_space(c),
        c > '\x7f' ==> b == wide_white_space(c),
;

/// `char::is_alphanumeric` decides membership in the Unicode alphabetic and
/// numeric classes. The contract spells them out on ASCII, where they are the
/// letters `A` to `Z` and `a` to `z` and the digits `0` to `9`, and names them
/// beyond: `wide_alphanumeric`.
pub assume_specification[ char::is_alphanumeric ](c: char) -> (b: bool)
    ensures
        b == alphanumeric(c),
        c > '\x7f' ==> b == wide_alphanumeric(c),
;

/// `String::push` appends one character to the end of the string.
pub assume_specification[ String::push ](s: &mut String, ch: char)
    ensures
        final(s)@ == old(s)@.push(ch),
;

/// The view of an optional string.
pub open spec fn opt_view(o: Option<String>) -> Option<Seq<char>> {
    match o {
        Some(s) => Some(s@),
        None => None,
    }
}

/// A copy of an optional string.
pub fn clone_opt(o: &Option<String>) -> (copy: Option<String>)
    ensures
        opt_view(copy) == opt_view(*o),
{
    match o {
        Some(s) => Some(s.clone()),
        None => None,
    }
}

/// Tests whether two strings hold the same characters.
pub fn same(a: &str, b: &str) -> (equal: bool)
    ensures
        equal == (a@ == b@),
{
    let left = String::from_str(a);
    let right = String::from_str(b);
    left == right
}

/// Whether `c` is one of the ten ASCII digits.
pub open spec fn is_digit(c: char) -> bool {
    '0' <= c <= '9'
}

/// The value of an ASCII digit.
pub open spec fn digit_value(c: char) -> int {
    c as int - '0' as int
}

/// The ASCII digit that stands for `d`, for `0 <= d < 10`.
pub open spec fn digit_char(d: int) -> char {
    ('0' as int + d) as char
}

/// The decimal numeral of `n`, without leading zeros.
pub open spec fn decimal(n: nat) -> Seq<char>
    decreases n,
{
    if n < 10 {
        seq![digit_char(n as int)]
    } else {
        decimal(n / 10).push(digit_char((n % 10) as int))
    }
}

/// The decimal numeral of `n`, with a leading zero where it would have one digit.
pub open spec fn padded(n: nat) -> Seq<char> {
    if n < 10 {
        seq!['0'].push(digit_char(n as int))
    } else {
        decimal(n)
    }
}

/// A decimal numeral is made of digits, and of one at least.
pub proof fn lemma_decimal_digits(n: nat)
    ensures
        decimal(n).len() >= 1,
        forall|i: int| 0 <= i < decimal(n).len() ==> is_digit(#[trigger] decimal(n)[i]),
    decreases n,
{
    if n >= 10 {
        lemma_decimal_digits(n / 10);
    }
}

/// A padded numeral is made of digits, and of two at least.
pub proof fn lemma_padded_digits(n: nat)
    ensures
        padded(n).len() >= 2,
        forall|i: int| 0 <= i < padded(n).len() ==> is_digit(#[trigger] padded(n)[i]),
{
    lemma_decimal_digits(n);
    if n >= 10 {
        lemma_decimal_digits(n / 10);
    }
}

/// Tests whether `c` is an ASCII digit.
pub fn char_is_digit(c: char) -> (b: bool)
    ensures
        b == is_digit(c),
{
    '0' <= c && c <= '9'
}

/// The digit for a value below ten.
pub fn char_of_digit(d: u8) -> (c: char)
    requires
        d < 10,
    ensures
        c == digit_char(d as int),
        is_digit(c),
        digit_value(c) == d,
{
    (48u8 + d) as char
}

/// The first place in `src[from..limit]` that holds `c`; `limit` where none
/// does.
pub open spec fn find(src: Seq<char>, c: char, from: int, limit: int) -> int
    decreases limit - from,
{
    if 0 <= from < limit <= src.len() && src[from] != c {
        find(src, c, from + 1, limit)
    } else if from < limit {
        from
    } else {
        limit
    }
}

/// `find` names the first occurrence: nothing before it is `c`, and it is
/// `c` unless it is `limit`.
pub proof fn lemma_find(src: Seq<char>, c: char, from: int, limit: int)
    requires
        0 <= from <= limit <= src.len(),
    ensures
        from <= find(src, c, from, limit) <= limit,
        find(src, c, from, limit) < limit ==> src[find(src, c, from, limit)] == c,
        forall|i: int| from <= i < find(src, c, from, limit) ==> src[i] != c,
    decreases limit - from,
{
    if from < limit && src[from] != c {
        lemma_find(src, c, from + 1, limit);
    }
}

/// Looks for `c` in `src[from..limit]`.
pub fn find_char(src: &Vec<char>, c: char, from: usize, limit: usize) -> (at: usize)
    requires
        from <= limit <= src.len(),
    ensures
        at == find(src@, c, from as int, limit as int),
        from <= at <= limit,
{
    let mut i: usize = from;
    while i < limit && src[i] != c
        invariant
            from <= i <= limit <= src.len(),
            find(src@, c, from as int, limit as int) == find(src@, c, i as int, limit as int),
        decreases limit - i,
    {
        i += 1;
    }
    i
}

/// Where the run of white space that starts at `from` ends, within
/// `src[..limit]`.
pub open spec fn white_end(src: Seq<char>, from: int, limit: int) -> int
    decreases limit - from,
{
    if 0 <= from < limit <= src.len() && white_space(src[from]) {
        white_end(src, from + 1, limit)
    } else {
        from
    }
}

/// `white_end` stays between its start and its limit.
pub proof fn lemma_white_end(src: Seq<char>, from: int, limit: int)
    requires
        0 <= from <= limit <= src.len(),
    ensures
        from <= white_end(src, from, limit) <= limit,
    decreases limit - from,
{
    if from < limit && white_space(src[from]) {
        lemma_white_end(src, from + 1, limit);
    }
}

/// Passes over the white space that starts at `from`.
pub fn skip_white(src: &Vec<char>, from: usize, limit: usize) -> (at: usize)
    requires
        from <= limit <= src.len(),
    ensures
        at == white_end(src@, from as int, limit as int),
        from <= at <= limit,
{
    let mut i: usize = from;
    while i < limit && src[i].is_whitespace()
        invariant
            from <= i <= limit <= src.len(),
            white_end(src@, from as int, limit as int) == white_end(src@, i as int, limit as int),
        decreases limit - i,
    {
        i += 1;
    }
    i
}

/// Where the run of white space starts that ends at `to`, within
/// `src[from..]`.
pub open spec fn white_start(src: Seq<char>, from: int, to: int) -> int
    decreases to - from,
{
    if 0 <= from < to <= src.len() && white_space(src[to - 1]) {
        white_start(src, from, to - 1)
    } else {
        to
    }
}

/// `text` without the white space at its start and at its end.
pub open spec fn trimmed(text: Seq<char>) -> Seq<char> {
    let from = white_end(text, 0, text.len() as int);
    text.subrange(from, white_start(text, from, text.len() as int))
}

/// Leaves out the white space at the start and at the end of `text`.
pub fn trim(text: &str) -> (out: String)
    ensures
        out@ == trimmed(text@),
{
    let chars = to_chars(text);
    let from = skip_white(&chars, 0, chars.len());
    let mut to: usize = chars.len();
    while to > from && chars[to - 1].is_whitespace()
        invariant
            from <= to <= chars.len(),
            white_start(chars@, from as int, chars@.len() as int) == white_start(
                chars@,
                from as int,
                to as int,
            ),
        decreases to,
    {
        to -= 1;
    }
    from_chars(&chars, from, to)
}

/// Tests whether `a[a_from..a_to]` and `b[b_from..b_to]` hold the same
/// characters.
pub fn range_eq(
    a: &Vec<char>,
    a_from: usize,
    a_to: usize,
    b: &Vec<char>,
    b_from: usize,
    b_to: usize,
) -> (equal: bool)
    requires
        a_from <= a_to <= a.len(),
        b_from <= b_to <= b.len(),
    ensures
        equal == (a@.subrange(a_from as int, a_to as int) == b@.subrange(
            b_from as int,
            b_to as int,
        )),
{
    let ghost left = a@.subrange(a_from as int, a_to as int);
    let ghost right = b@.subrange(b_from as int, b_to as int);
    if a_to - a_from != b_to - b_from {
        assert(left.len() != right.len());
        return false;
    }
    let n: usize = a_to - a_from;
    let mut i: usize = 0;
    while i < n
        invariant
            i <= n,
            n == a_to - a_from == b_to - b_from,
            a_to <= a.len(),
            b_to <= b.len(),
            left == a@.subrange(a_from as int, a_to as int),
            right == b@.subrange(b_from as int, b_to as int),
            forall|j: int| 0 <= j < i ==> left[j] == right[j],
        decreases n - i,
    {
        if a[a_from + i] != b[b_from + i] {
            assert(left[i as int] != right[i as int]);
            return false;
        }
        i += 1;
    }
    assert(left =~= right);
    true
}

/// The characters of `s`, in order.
pub fn to_chars(s: &str) -> (v: Vec<char>)
    ensures
        v@ == s@,
{
    broadcast use vstd::string::group_string_axioms;

    let mut v: Vec<char> = Vec::new();
    for c in it: s.chars()
        invariant
            it.seq() == s@,
            v@ == s@.subrange(0, it.index() as int),
    {
        v.push(c);
    }
    assert(s@.subrange(0, s@.len() as int) == s@);
    v
}

/// The string made of `v[from..to]`.
pub fn from_chars(v: &Vec<char>, from: usize, to: usize) -> (s: String)
    requires
        from <= to <= v.len(),
    ensures
        s@ == v@.subrange(from as int, to as int),
{
    let mut s = String::new();
    let mut i: usize = from;
    while i < to
        invariant
            from <= i <= to <= v.len(),
            s@ == v@.subrange(from as int, i as int),
        decreases to - i,
    {
        s.push(v[i]);
        i += 1;
    }
    s
}

/// Appends the decimal numeral of `n` to `out`.
pub fn push_decimal(out: &mut String, n: u32)
    ensures
        final(out)@ == old(out)@ + decimal(n as nat),
    decreases n,
{
    if n < 10 {
        out.push(char_of_digit(n as u8));
        assert(final(out)@ == old(out)@ + decimal(n as nat));
    } else {
        push_decimal(out, n / 10);
        out.push(char_of_digit((n % 10) as u8));
        assert(final(out)@ == old(out)@ + decimal(n as nat));
    }
}

/// Appends the numeral of `n`, zero-padded to two digits, to `out`.
pub fn push_padded(out: &mut String, n: u8)
    ensures
        final(out)@ == old(out)@ + padded(n as nat),
{
    if n < 10 {
        out.push('0');
        out.push(char_of_digit(n));
        assert(final(out)@ == old(out)@ + padded(n as nat));
    } else {
        push_decimal(out, n as u32);
    }
}

} // verus!
