//! Operations on text, stated over sequences of characters.
use vstd::prelude::*;
use vstd::slice::slice_subrange;
use vstd::string::*;

verus! {

/// `String::push` appends the given character to the end of the string.
pub assume_specification[ String::push ](s: &mut String, ch: char)
    ensures
        final(s)@ == old(s)@.push(ch),
;

/// `char::is_whitespace` holds of the characters with the Unicode property
/// `White_Space`.
pub assume_specification[ char::is_whitespace ](c: char) -> (b: bool)
    ensures
        b == is_space(c),
;

/// The lowercase equivalent of a text, as `str::to_lowercase` gives it.
pub uninterp spec fn lowercase(s: Seq<char>) -> Seq<char>;

/// `str::to_lowercase`: the result is a function of the text alone. Which
/// characters it maps to which is left unsaid.
#[verifier::external_body]
pub(crate) fn to_lower(s: &str) -> (out: String)
    ensures
        out@ == lowercase(s@),
{
    s.to_lowercase()
}

/// `str` equality (`<str as PartialEq>::eq`): two texts are equal when they
/// hold the same characters.
#[verifier::external_body]
pub(crate) fn same_text(a: &str, b: &str) -> (r: bool)
    ensures
        r == (a@ == b@),
{
    a == b
}

/// `String::from_utf8`: succeeds exactly on well-formed UTF-8, and the string
/// holds the characters that the bytes encode.
#[verifier::external_body]
pub(crate) fn utf8_text(bytes: Vec<u8>) -> (out: Option<String>)
    ensures
        out is Some <==> vstd::utf8::valid_utf8(bytes@),
        out matches Some(s) ==> s@ == vstd::utf8::decode_utf8(bytes@),
{
    String::from_utf8(bytes).ok()
}

/// Why bytes are not well-formed UTF-8, in words; empty where they are.
pub uninterp spec fn utf8_fault(bytes: Seq<u8>) -> Seq<char>;

/// `std::str::from_utf8`: the text of the error that it gives, which the bytes
/// alone decide.
#[verifier::external_body]
pub(crate) fn utf8_fault_text(bytes: &[u8]) -> (out: String)
    ensures
        out@ == utf8_fault(bytes@),
{
    std::str::from_utf8(bytes).err().map(|e| e.to_string()).unwrap_or_default()
}

/// A text in quotation marks, with the characters escaped that `Debug`
/// escapes.
pub uninterp spec fn quoted(s: Seq<char>) -> Seq<char>;

/// `<str as Debug>::fmt`: the result is a function of the text alone. Which
/// characters it escapes is left unsaid.
#[verifier::external_body]
pub(crate) fn quote(s: &str) -> (out: String)
    ensures
        out@ == quoted(s@),
{
    format!("{s:?}")
}

/// A character with the Unicode property `White_Space`.
pub open spec fn is_space(c: char) -> bool {
    ||| c == ' '
    ||| '\u{9}' <= c <= '\u{d}'
    ||| c == '\u{85}'
    ||| c == '\u{a0}'
    ||| c == '\u{1680}'
    ||| '\u{2000}' <= c <= '\u{200a}'
    ||| c == '\u{2028}'
    ||| c == '\u{2029}'
    ||| c == '\u{202f}'
    ||| c == '\u{205f}'
    ||| c == '\u{3000}'
}

/// An ASCII letter or digit.
pub open spec fn is_alnum(c: char) -> bool {
    ('a' <= c <= 'z') || ('A' <= c <= 'Z') || ('0' <= c <= '9')
}

/// `c` with ASCII letters in lower case, every other character unchanged.
pub open spec fn ascii_lower(c: char) -> char {
    if 'A' <= c <= 'Z' {
        ((c as u8) + 32) as u8 as char
    } else {
        c
    }
}

/// `c` with ASCII letters in upper case, every other character unchanged.
pub open spec fn ascii_upper(c: char) -> char {
    if 'a' <= c <= 'z' {
        ((c as u8) - 32) as u8 as char
    } else {
        c
    }
}

/// `s` with its ASCII letters in lower case.
pub open spec fn ascii_lower_text(s: Seq<char>) -> Seq<char> {
    s.map_values(|c: char| ascii_lower(c))
}

/// `s` with its ASCII letters in upper case.
pub open spec fn ascii_upper_text(s: Seq<char>) -> Seq<char> {
    s.map_values(|c: char| ascii_upper(c))
}

/// The least index from `i` on at which `s` holds `c`, or the length of `s`.
pub open spec fn index_from(s: Seq<char>, c: char, i: int) -> int
    decreases s.len() - i,
{
    if i >= s.len() {
        s.len() as int
    } else if s[i] == c {
        i
    } else {
        index_from(s, c, i + 1)
    }
}

/// The parts of `s` before and after the first `c`, if it holds one.
pub open spec fn split_once(s: Seq<char>, c: char) -> Option<(Seq<char>, Seq<char>)> {
    let i = index_from(s, c, 0);
    if i < s.len() {
        Some((s.take(i), s.skip(i + 1)))
    } else {
        None
    }
}

/// The maximal pieces of `s` that hold no `c`, in order.
pub open spec fn split_all(s: Seq<char>, c: char) -> Seq<Seq<char>>
    decreases s.len(),
{
    let i = index_from(s, c, 0);
    if 0 <= i < s.len() {
        seq![s.take(i)] + split_all(s.skip(i + 1), c)
    } else {
        seq![s]
    }
}

/// The least index from `i` on whose character is not white space, or the
/// length of `s`.
pub open spec fn content_start(s: Seq<char>, i: int) -> int
    decreases s.len() - i,
{
    if i >= s.len() {
        s.len() as int
    } else if is_space(s[i]) {
        content_start(s, i + 1)
    } else {
        i
    }
}

/// `s` without the white space at its end.
pub open spec fn trim_end(s: Seq<char>) -> Seq<char>
    decreases s.len(),
{
    if s.len() > 0 && is_space(s.last()) {
        trim_end(s.drop_last())
    } else {
        s
    }
}

/// `s` without the white space at its start and at its end.
pub open spec fn trim(s: Seq<char>) -> Seq<char> {
    trim_end(s.skip(content_start(s, 0)))
}

/// The pieces with `sep` between each two.
pub open spec fn join(parts: Seq<Seq<char>>, sep: Seq<char>) -> Seq<char>
    decreases parts.len(),
{
    if parts.len() == 0 {
        Seq::empty()
    } else if parts.len() == 1 {
        parts[0]
    } else {
        join(parts.drop_last(), sep) + sep + parts.last()
    }
}

/// The decimal digit for `d`.
pub open spec fn digit_char(d: int) -> char {
    (48 + d) as u8 as char
}

/// `n` in decimal, without leading zeros.
pub open spec fn decimal(n: nat) -> Seq<char>
    decreases n,
{
    if n < 10 {
        seq![digit_char(n as int)]
    } else {
        decimal(n / 10).push(digit_char((n % 10) as int))
    }
}

/// `s` with zeros before it up to `width` characters.
pub open spec fn zero_pad(s: Seq<char>, width: nat) -> Seq<char> {
    if s.len() >= width {
        s
    } else {
        Seq::new((width - s.len()) as nat, |i: int| '0') + s
    }
}

/// A decimal digit.
pub open spec fn is_digit(c: char) -> bool {
    '0' <= c <= '9'
}

/// All characters are decimal digits.
pub open spec fn all_digits(s: Seq<char>) -> bool {
    forall|i: int| 0 <= i < s.len() ==> is_digit(#[trigger] s[i])
}

/// The number that the decimal digits `s` stand for.
pub open spec fn digits_value(s: Seq<char>) -> nat
    decreases s.len(),
{
    if s.len() == 0 {
        0
    } else {
        digits_value(s.drop_last()) * 10 + ((s.last() as u32) - 48) as nat
    }
}

/// `s` without one leading `+`.
pub open spec fn unsigned_digits(s: Seq<char>) -> Seq<char> {
    if s.len() > 0 && s[0] == '+' {
        s.skip(1)
    } else {
        s
    }
}

/// The number that `s` denotes, if it is decimal digits after an optional `+`
/// and the number is at most `max`.
pub open spec fn parse_uint(s: Seq<char>, max: nat) -> Option<nat> {
    let d = unsigned_digits(s);
    if d.len() > 0 && all_digits(d) && digits_value(d) <= max {
        Some(digits_value(d))
    } else {
        None
    }
}

/// The text behind each of `parts`.
pub open spec fn texts(parts: Seq<String>) -> Seq<Seq<char>> {
    parts.map_values(|p: String| p@)
}

/// The parts before and after the first `c`, with `c` between, are the text.
pub proof fn split_once_joins(s: Seq<char>, c: char)
    ensures
        split_once(s, c) matches Some((a, b)) ==> s == a.push(c) + b,
{
    index_from_holds(s, c, 0);
    let i = index_from(s, c, 0);
    if i < s.len() {
        assert(s =~= s.take(i).push(c) + s.skip(i + 1));
    }
}

proof fn index_from_holds(s: Seq<char>, c: char, i: int)
    requires
        0 <= i <= s.len(),
    ensures
        i <= index_from(s, c, i) <= s.len(),
        index_from(s, c, i) < s.len() ==> s[index_from(s, c, i)] == c,
    decreases s.len() - i,
{
    if i < s.len() && s[i] != c {
        index_from_holds(s, c, i + 1);
    }
}

/// The search for `c` stops at its first occurrence.
pub proof fn index_from_is(s: Seq<char>, c: char, i: int, at: int)
    requires
        0 <= i <= at < s.len(),
        s[at] == c,
        forall|k: int| i <= k < at ==> s[k] != c,
    ensures
        index_from(s, c, i) == at,
    decreases at - i,
{
    if i < at {
        index_from_is(s, c, i + 1, at);
    }
}

/// A text without `c`, then `c`, then anything splits at that `c`.
pub proof fn split_once_is(a: Seq<char>, c: char, b: Seq<char>)
    requires
        forall|k: int| 0 <= k < a.len() ==> a[k] != c,
    ensures
        split_once(a.push(c) + b, c) == Some((a, b)),
{
    let s = a.push(c) + b;
    index_from_is(s, c, 0, a.len() as int);
    assert(s.take(a.len() as int) =~= a);
    assert(s.skip(a.len() as int + 1) =~= b);
}

/// The characters of `s`, in order.
pub fn chars_of(s: &str) -> (out: Vec<char>)
    ensures
        out@ == s@,
{
    let mut out: Vec<char> = Vec::new();
    for c in it: s.chars()
        invariant
            out@ == it.seq().take(it.index()),
            it.seq() == s@,
    {
        out.push(c);
        assert(it.seq().take(it.index() + 1) =~= it.seq().take(it.index()).push(c));
    }
    assert(s@.take(s@.len() as int) =~= s@);
    out
}

/// A copy of an optional text.
pub fn copy_text(s: &Option<String>) -> (r: Option<String>)
    ensures
        r == *s,
        r.deep_view() == s.deep_view(),
{
    match s {
        Some(t) => Some(t.clone()),
        None => None,
    }
}

/// The text made of `chars`.
pub fn string_of(chars: &[char]) -> (out: String)
    ensures
        out@ == chars@,
{
    let mut out: String = String::new();
    let mut i: usize = 0;
    while i < chars.len()
        invariant
            i <= chars.len(),
            out@ == chars@.take(i as int),
        decreases chars.len() - i,
    {
        out.push(chars[i]);
        assert(chars@.take(i + 1) =~= chars@.take(i as int).push(chars@[i as int]));
        i += 1;
    }
    assert(chars@.take(chars@.len() as int) =~= chars@);
    out
}

/// The least index from `start` on at which `s` holds `c`, or its length.
pub fn find_char(s: &[char], c: char, start: usize) -> (r: usize)
    requires
        start <= s.len(),
    ensures
        r == index_from(s@, c, start as int),
        start <= r <= s.len(),
        r < s.len() ==> s@[r as int] == c,
        forall|k: int| start <= k < r ==> s@[k] != c,
{
    let mut i: usize = start;
    while i < s.len()
        invariant
            start <= i <= s.len(),
            index_from(s@, c, start as int) == index_from(s@, c, i as int),
            forall|k: int| start <= k < i ==> s@[k] != c,
        decreases s.len() - i,
    {
        if s[i] == c {
            return i;
        }
        i += 1;
    }
    i
}

/// `s` without the white space around it.
pub fn trim_chars(s: &[char]) -> (r: &[char])
    ensures
        r@ == trim(s@),
{
    let mut a: usize = 0;
    while a < s.len() && s[a].is_whitespace()
        invariant
            a <= s.len(),
            content_start(s@, 0) == content_start(s@, a as int),
        decreases s.len() - a,
    {
        a += 1;
    }
    let body: &[char] = slice_subrange(s, a, s.len());
    assert(body@ =~= s@.skip(content_start(s@, 0)));
    let mut b: usize = body.len();
    assert(body@.take(b as int) =~= body@);
    while b > 0 && body[b - 1].is_whitespace()
        invariant
            b <= body.len(),
            trim_end(body@) == trim_end(body@.take(b as int)),
        decreases b,
    {
        assert(body@.take(b as int).last() == body@[b - 1]);
        assert(body@.take(b as int).drop_last() =~= body@.take(b - 1));
        b -= 1;
    }
    proof {
        if b > 0 {
            assert(body@.take(b as int).last() == body@[b - 1]);
        }
    }
    assert(body@.subrange(0, b as int) =~= body@.take(b as int));
    slice_subrange(body, 0, b)
}

/// `s` without the white space around it.
pub fn trimmed(s: &str) -> (r: String)
    ensures
        r@ == trim(s@),
{
    let chars: Vec<char> = chars_of(s);
    string_of(trim_chars(chars.as_slice()))
}

/// `c` with ASCII letters in lower case.
pub fn lower_char(c: char) -> (r: char)
    ensures
        r == ascii_lower(c),
{
    if 'A' <= c && c <= 'Z' {
        ((c as u8) + 32) as char
    } else {
        c
    }
}

/// `c` with ASCII letters in upper case.
pub fn upper_char(c: char) -> (r: char)
    ensures
        r == ascii_upper(c),
{
    if 'a' <= c && c <= 'z' {
        ((c as u8) - 32) as char
    } else {
        c
    }
}

/// `s` with its ASCII letters in lower case.
pub fn lower_chars(s: &[char]) -> (out: Vec<char>)
    ensures
        out@ == ascii_lower_text(s@),
{
    let mut out: Vec<char> = Vec::new();
    let mut i: usize = 0;
    while i < s.len()
        invariant
            i <= s.len(),
            out@ == ascii_lower_text(s@.take(i as int)),
        decreases s.len() - i,
    {
        out.push(lower_char(s[i]));
        assert(out@ =~= ascii_lower_text(s@.take(i + 1)));
        i += 1;
    }
    assert(s@.take(s@.len() as int) =~= s@);
    out
}

/// `s` with its ASCII letters in upper case.
pub fn upper_chars(s: &[char]) -> (out: Vec<char>)
    ensures
        out@ == ascii_upper_text(s@),
{
    let mut out: Vec<char> = Vec::new();
    let mut i: usize = 0;
    while i < s.len()
        invariant
            i <= s.len(),
            out@ == ascii_upper_text(s@.take(i as int)),
        decreases s.len() - i,
    {
        out.push(upper_char(s[i]));
        assert(out@ =~= ascii_upper_text(s@.take(i + 1)));
        i += 1;
    }
    assert(s@.take(s@.len() as int) =~= s@);
    out
}

/// Whether the characters `s` are those of `t`.
pub fn chars_are(s: &[char], t: &str) -> (r: bool)
    ensures
        r == (s@ == t@),
{
    let text: String = string_of(s);
    same_text(text.as_str(), t)
}

/// Whether `s` begins with `prefix`.
pub open spec fn has_prefix(s: Seq<char>, prefix: Seq<char>) -> bool {
    s.len() >= prefix.len() && s.take(prefix.len() as int) == prefix
}

/// Whether `s` ends with `suffix`.
pub open spec fn has_suffix(s: Seq<char>, suffix: Seq<char>) -> bool {
    s.len() >= suffix.len() && s.skip(s.len() - suffix.len()) == suffix
}

/// Whether `s` begins with `prefix`.
pub fn begins_with(s: &[char], prefix: &str) -> (r: bool)
    ensures
        r == has_prefix(s@, prefix@),
{
    let p: Vec<char> = chars_of(prefix);
    if s.len() < p.len() {
        return false;
    }
    let head: &[char] = slice_subrange(s, 0, p.len());
    assert(head@ =~= s@.take(p@.len() as int));
    chars_are(head, prefix)
}

/// Whether `s` ends with `suffix`.
pub fn ends_with(s: &[char], suffix: &str) -> (r: bool)
    ensures
        r == has_suffix(s@, suffix@),
{
    let p: Vec<char> = chars_of(suffix);
    if s.len() < p.len() {
        return false;
    }
    let tail: &[char] = slice_subrange(s, s.len() - p.len(), s.len());
    assert(tail@ =~= s@.skip(s@.len() - p@.len()));
    chars_are(tail, suffix)
}

/// `s` from its character `from` on.
pub fn tail_from(s: &[char], from: usize) -> (r: &[char])
    requires
        from <= s.len(),
    ensures
        r@ == s@.skip(from as int),
{
    let r: &[char] = slice_subrange(s, from, s.len());
    assert(r@ =~= s@.skip(from as int));
    r
}

/// The first `to` characters of `s`.
pub fn head_to(s: &[char], to: usize) -> (r: &[char])
    requires
        to <= s.len(),
    ensures
        r@ == s@.take(to as int),
{
    let r: &[char] = slice_subrange(s, 0, to);
    assert(r@ =~= s@.take(to as int));
    r
}

/// The pieces of `s` between the characters `c`.
pub fn split_chars(s: &[char], c: char) -> (out: Vec<Vec<char>>)
    ensures
        out@.map_values(|p: Vec<char>| p@) == split_all(s@, c),
    decreases s.len(),
{
    let i: usize = find_char(s, c, 0);
    let mut out: Vec<Vec<char>> = Vec::new();
    let mut head: Vec<char> = Vec::new();
    head.extend_from_slice(head_to(s, i));
    assert(head@ =~= s@.take(i as int));
    out.push(head);
    if i < s.len() {
        let mut rest: Vec<Vec<char>> = split_chars(tail_from(s, i + 1), c);
        out.append(&mut rest);
    } else {
        assert(s@.take(i as int) =~= s@);
    }
    assert(out@.map_values(|p: Vec<char>| p@) =~= split_all(s@, c));
    out
}

/// The pieces with `sep` between each two.
pub fn join_texts(parts: &Vec<String>, sep: &str) -> (out: String)
    ensures
        out@ == join(texts(parts@), sep@),
{
    let mut out: String = String::new();
    let mut i: usize = 0;
    while i < parts.len()
        invariant
            i <= parts.len(),
            out@ == join(texts(parts@.take(i as int)), sep@),
        decreases parts.len() - i,
    {
        let ghost before = texts(parts@.take(i as int));
        let ghost after = texts(parts@.take(i + 1));
        assert(after.drop_last() =~= before);
        assert(after.last() == parts@[i as int]@);
        if i > 0 {
            out.append(sep);
        }
        out.append(parts[i].as_str());
        proof {
            if i == 0 {
                assert(before =~= Seq::empty());
                assert(out@ =~= parts@[0]@);
            }
        }
        i += 1;
    }
    assert(parts@.take(parts@.len() as int) =~= parts@);
    out
}

/// `n` in decimal.
pub fn decimal_text(n: u64) -> (out: String)
    ensures
        out@ == decimal(n as nat),
{
    let chars: Vec<char> = decimal_chars(n);
    string_of(chars.as_slice())
}

/// The decimal digits of `n`.
pub fn decimal_chars(n: u64) -> (out: Vec<char>)
    ensures
        out@ == decimal(n as nat),
    decreases n,
{
    let digit: char = (48 + (n % 10) as u8) as char;
    if n < 10 {
        let mut out: Vec<char> = Vec::new();
        out.push(digit);
        assert(out@ =~= decimal(n as nat));
        out
    } else {
        let mut out: Vec<char> = decimal_chars(n / 10);
        out.push(digit);
        out
    }
}

/// `n` in decimal with at least `width` digits.
pub fn padded_decimal(n: u64, width: usize) -> (out: String)
    ensures
        out@ == zero_pad(decimal(n as nat), width as nat),
{
    let digits: Vec<char> = decimal_chars(n);
    let mut out: Vec<char> = Vec::new();
    if digits.len() < width {
        let fill: usize = width - digits.len();
        while out.len() < fill
            invariant
                out.len() <= fill,
                forall|k: int| 0 <= k < out@.len() ==> out@[k] == '0',
            decreases fill - out.len(),
        {
            out.push('0');
        }
    }
    out.extend_from_slice(digits.as_slice());
    assert(out@ =~= zero_pad(decimal(n as nat), width as nat));
    string_of(out.as_slice())
}

proof fn digits_value_prefix(s: Seq<char>, i: int)
    requires
        0 <= i <= s.len(),
        all_digits(s),
    ensures
        digits_value(s.take(i)) <= digits_value(s),
    decreases s.len() - i,
{
    if i < s.len() {
        digits_value_prefix(s, i + 1);
        let t = s.take(i + 1);
        assert(t.drop_last() =~= s.take(i));
        assert(t.last() == s[i]);
        assert(is_digit(s[i]));
    } else {
        assert(s.take(i) =~= s);
    }
}

/// The number that `s` denotes, if it is one and is at most `max`.
pub fn parse_bounded(s: &[char], max: u64) -> (r: Option<u64>)
    ensures
        r is Some <==> parse_uint(s@, max as nat) is Some,
        r matches Some(v) ==> parse_uint(s@, max as nat) == Some(v as nat),
{
    let start: usize = if s.len() > 0 && s[0] == '+' { 1 } else { 0 };
    let d: &[char] = tail_from(s, start);
    assert(s@.skip(0) =~= s@);
    assert(d@ == unsigned_digits(s@));
    if d.len() == 0 {
        return None;
    }
    let mut value: u64 = 0;
    let mut i: usize = 0;
    while i < d.len()
        invariant
            i <= d.len(),
            d@ == unsigned_digits(s@),
            d@.len() > 0,
            value <= max,
            value == digits_value(d@.take(i as int)),
            forall|k: int| 0 <= k < i ==> is_digit(#[trigger] d@[k]),
        decreases d.len() - i,
    {
        let c: char = d[i];
        if !('0' <= c && c <= '9') {
            assert(!is_digit(d@[i as int]));
            return None;
        }
        let digit: u64 = (c as u64) - 48;
        let ghost next = d@.take(i + 1);
        assert(next.drop_last() =~= d@.take(i as int));
        assert(next.last() == c);
        assert(digits_value(next) == value * 10 + digit);
        proof {
            if all_digits(d@) {
                digits_value_prefix(d@, i + 1);
            }
        }
        if digit > max || value > max / 10 || value * 10 > max - digit {
            assert(digits_value(next) > max);
            return None;
        }
        value = value * 10 + digit;
        i += 1;
    }
    assert(d@.take(d@.len() as int) =~= d@);
    Some(value)
}

proof fn decimal_is_digits(n: nat)
    ensures
        decimal(n).len() > 0,
        all_digits(decimal(n)),
        digits_value(decimal(n)) == n,
    decreases n,
{
    let d = decimal(n);
    if n < 10 {
        assert(d.drop_last() =~= Seq::empty());
        assert(digits_value(d.drop_last()) == 0);
        assert(d.last() == digit_char(n as int));
    } else {
        decimal_is_digits(n / 10);
        assert(d.drop_last() =~= decimal(n / 10));
        assert(d.last() == digit_char((n % 10) as int));
        assert forall|i: int| 0 <= i < d.len() implies is_digit(#[trigger] d[i]) by {
            if i < d.len() - 1 {
                assert(d[i] == decimal(n / 10)[i]);
            }
        }
    }
}

/// Reading back the decimal form of a number gives the number.
pub proof fn decimal_parses_back(n: nat, max: nat)
    requires
        n <= max,
    ensures
        parse_uint(decimal(n), max) == Some(n),
{
    decimal_is_digits(n);
    let d = decimal(n);
    assert(is_digit(d[0]));
    assert(unsigned_digits(d) == d);
}

/// The order of texts: character by character, a text before those that it
/// begins.
pub open spec fn text_le(a: Seq<char>, b: Seq<char>) -> bool
    decreases a.len(),
{
    if a.len() == 0 {
        true
    } else if b.len() == 0 {
        false
    } else if a[0] == b[0] {
        text_le(a.drop_first(), b.drop_first())
    } else {
        a[0] < b[0]
    }
}

/// `a` comes before `b`, and is another text.
pub open spec fn text_lt(a: Seq<char>, b: Seq<char>) -> bool {
    text_le(a, b) && a != b
}

/// The first character in which two texts of the same length differ decides
/// their order, whatever follows.
pub proof fn first_difference_decides(a: Seq<char>, b: Seq<char>, k: int)
    requires
        0 <= k < a.len(),
        k < b.len(),
        forall|i: int| 0 <= i < k ==> #[trigger] a[i] == b[i],
        a[k] < b[k],
    ensures
        text_lt(a, b),
    decreases k,
{
    assert(a[k] != b[k]);
    if k > 0 {
        assert(a[0] == b[0]);
        let x = a.drop_first();
        let y = b.drop_first();
        assert forall|i: int| 0 <= i < k - 1 implies #[trigger] x[i] == y[i] by {
            assert(a[i + 1] == b[i + 1]);
        }
        first_difference_decides(x, y, k - 1);
    }
}

/// What precedes two texts does not change their order.
pub proof fn same_start_keeps_order(p: Seq<char>, a: Seq<char>, b: Seq<char>)
    requires
        text_lt(a, b),
    ensures
        text_lt(p + a, p + b),
    decreases p.len(),
{
    if p.len() == 0 {
        assert(p + a =~= a);
        assert(p + b =~= b);
    } else {
        let q = p.drop_first();
        same_start_keeps_order(q, a, b);
        assert((p + a).drop_first() =~= q + a);
        assert((p + b).drop_first() =~= q + b);
    }
}

/// Any two texts are in order one way or the other.
pub proof fn text_le_total(a: Seq<char>, b: Seq<char>)
    ensures
        text_le(a, b) || text_le(b, a),
    decreases a.len(),
{
    if a.len() > 0 && b.len() > 0 && a[0] == b[0] {
        text_le_total(a.drop_first(), b.drop_first());
    }
}

/// The order of texts is transitive.
pub proof fn text_le_transitive(a: Seq<char>, b: Seq<char>, c: Seq<char>)
    requires
        text_le(a, b),
        text_le(b, c),
    ensures
        text_le(a, c),
    decreases a.len(),
{
    if a.len() > 0 && b.len() > 0 && c.len() > 0 && a[0] == b[0] && b[0] == c[0] {
        text_le_transitive(a.drop_first(), b.drop_first(), c.drop_first());
    }
}

/// Whether `a` comes before `b` or is equal to it.
pub fn text_in_order(a: &str, b: &str) -> (r: bool)
    ensures
        r == text_le(a@, b@),
{
    let x: Vec<char> = chars_of(a);
    let y: Vec<char> = chars_of(b);
    let mut i: usize = 0;
    assert(x@.skip(0) =~= x@);
    assert(y@.skip(0) =~= y@);
    while i < x.len()
        invariant
            i <= x.len(),
            i <= y.len(),
            x@ == a@,
            y@ == b@,
            text_le(a@, b@) == text_le(x@.skip(i as int), y@.skip(i as int)),
        decreases x.len() - i,
    {
        if i == y.len() {
            return false;
        }
        if x[i] != y[i] {
            return x[i] < y[i];
        }
        assert(x@.skip(i as int).drop_first() =~= x@.skip(i + 1));
        assert(y@.skip(i as int).drop_first() =~= y@.skip(i + 1));
        i += 1;
    }
    true
}

/// Some part of `s` is `t`.
pub open spec fn has_part(s: Seq<char>, t: Seq<char>) -> bool {
    exists|i: int| 0 <= i <= s.len() - t.len() && #[trigger] s.subrange(i, i + t.len()) == t
}

/// Whether some part of `s` is `t`.
pub fn contains_text(s: &str, t: &str) -> (r: bool)
    ensures
        r == has_part(s@, t@),
{
    let x: Vec<char> = chars_of(s);
    let y: Vec<char> = chars_of(t);
    if y.len() > x.len() {
        return false;
    }
    let end: usize = x.len();
    let last: usize = end - y.len();
    let mut i: usize = 0;
    while i <= last
        invariant
            end == x@.len(),
            x@ == s@,
            y@ == t@,
            y@.len() <= x@.len(),
            last == x@.len() - y@.len(),
            i <= last + 1,
            forall|k: int| 0 <= k < i ==> #[trigger] s@.subrange(k, k + t@.len()) != t@,
        decreases last + 1 - i,
    {
        if chars_are(slice_subrange(x.as_slice(), i, i + y.len()), t) {
            assert(s@.subrange(i as int, i + t@.len()) == t@);
            return true;
        }
        if i == last {
            return false;
        }
        i += 1;
    }
    false
}

/// `s` without the characters `c` at its end.
pub open spec fn without_trailing(s: Seq<char>, c: char) -> Seq<char>
    decreases s.len(),
{
    if s.len() > 0 && s.last() == c {
        without_trailing(s.drop_last(), c)
    } else {
        s
    }
}

/// `s` without the characters `c` at its end.
pub fn trim_trailing(s: &[char], c: char) -> (r: &[char])
    ensures
        r@ == without_trailing(s@, c),
{
    let mut b: usize = s.len();
    assert(s@.take(b as int) =~= s@);
    while b > 0 && s[b - 1] == c
        invariant
            b <= s.len(),
            without_trailing(s@, c) == without_trailing(s@.take(b as int), c),
        decreases b,
    {
        assert(s@.take(b as int).drop_last() =~= s@.take(b - 1));
        b -= 1;
    }
    head_to(s, b)
}

/// A text that holds no `c` from `i` on has none to find.
pub proof fn index_from_none(s: Seq<char>, c: char, i: int)
    requires
        0 <= i <= s.len(),
        forall|k: int| i <= k < s.len() ==> s[k] != c,
    ensures
        index_from(s, c, i) == s.len(),
    decreases s.len() - i,
{
    if i < s.len() {
        index_from_none(s, c, i + 1);
    }
}

proof fn index_from_first(s: Seq<char>, c: char, i: int)
    requires
        0 <= i <= s.len(),
    ensures
        forall|k: int| i <= k < index_from(s, c, i) ==> s[k] != c,
    decreases s.len() - i,
{
    if i < s.len() && s[i] != c {
        index_from_first(s, c, i + 1);
    }
}

/// A text without the separator is one piece; what stands before the first
/// separator is the first piece, and the rest is split on.
pub proof fn pieces_end_at_separators(a: Seq<char>, c: char, b: Seq<char>)
    requires
        forall|k: int| 0 <= k < a.len() ==> a[k] != c,
    ensures
        split_all(a, c) == seq![a],
        split_once(a, c) is None,
        split_all(a.push(c) + b, c) == seq![a] + split_all(b, c),
{
    let s = a.push(c) + b;
    index_from_none(a, c, 0);
    index_from_is(s, c, 0, a.len() as int);
    assert(s.take(a.len() as int) =~= a);
    assert(s.skip(a.len() as int + 1) =~= b);
}

/// The pieces of a text hold no separator, and joined by it they are the text.
pub proof fn pieces_join_back(s: Seq<char>, c: char)
    ensures
        split_all(s, c).len() >= 1,
        forall|i: int, k: int|
            0 <= i < split_all(s, c).len() && 0 <= k < split_all(s, c)[i].len()
                ==> #[trigger] split_all(s, c)[i][k] != c,
        join(split_all(s, c), seq![c]) == s,
    decreases s.len(),
{
    let i = index_from(s, c, 0);
    index_from_holds(s, c, 0);
    index_from_first(s, c, 0);
    if i < s.len() {
        let rest = s.skip(i + 1);
        let tail = split_all(rest, c);
        let all = split_all(s, c);
        pieces_join_back(rest, c);
        assert(all == seq![s.take(i)] + tail);
        assert forall|j: int, k: int| 0 <= j < all.len() && 0 <= k < all[j].len() implies
            #[trigger] all[j][k] != c by {
            if j > 0 {
                assert(all[j] == tail[j - 1]);
                assert(tail[j - 1][k] != c);
            }
        }
        joined_after(s.take(i), tail, seq![c]);
        assert(s.take(i) + seq![c] + rest =~= s);
    } else {
        assert(split_all(s, c) =~= seq![s]);
    }
}

proof fn joined_after(a: Seq<char>, parts: Seq<Seq<char>>, sep: Seq<char>)
    requires
        parts.len() >= 1,
    ensures
        join(seq![a] + parts, sep) == a + sep + join(parts, sep),
    decreases parts.len(),
{
    let all = seq![a] + parts;
    assert(all.drop_last() =~= seq![a] + parts.drop_last());
    assert(all.last() == parts.last());
    if parts.len() == 1 {
        assert(all.drop_last() =~= seq![a]);
        assert(join(seq![a], sep) == a);
        assert(join(all, sep) =~= a + sep + join(parts, sep));
    } else {
        joined_after(a, parts.drop_last(), sep);
        assert(join(all, sep) =~= a + sep + join(parts, sep));
    }
}

/// Joining puts the separator between each two pieces, and nowhere else.
pub proof fn joining_separates(
    a: Seq<char>,
    b: Seq<char>,
    parts: Seq<Seq<char>>,
    sep: Seq<char>,
)
    ensures
        join(Seq::empty(), sep) == Seq::<char>::empty(),
        join(seq![a], sep) == a,
        join(seq![a, b], sep) == a + sep + b,
        parts.len() >= 1 ==> join(seq![a] + parts, sep) == a + sep + join(parts, sep),
        parts.len() >= 1 ==> join(parts.push(b), sep) == join(parts, sep) + sep + b,
{
    assert(seq![a, b].drop_last() =~= seq![a]);
    assert(parts.push(b).drop_last() =~= parts);
    if parts.len() >= 1 {
        joined_after(a, parts, sep);
    }
}

/// The content starts at the first character that is no white space.
pub proof fn content_start_is(s: Seq<char>, i: int, at: int)
    requires
        0 <= i <= at <= s.len(),
        forall|k: int| i <= k < at ==> is_space(s[k]),
        at < s.len() ==> !is_space(s[at]),
    ensures
        content_start(s, i) == at,
    decreases at - i,
{
    if i < at {
        content_start_is(s, i + 1, at);
    }
}

proof fn trim_end_is(m: Seq<char>, b: Seq<char>)
    requires
        forall|k: int| 0 <= k < b.len() ==> is_space(b[k]),
        m.len() > 0 ==> !is_space(m.last()),
    ensures
        trim_end(m + b) == m,
    decreases b.len(),
{
    if b.len() > 0 {
        assert((m + b).last() == b[b.len() - 1]);
        assert((m + b).drop_last() =~= m + b.drop_last());
        trim_end_is(m, b.drop_last());
    } else {
        assert(m + b =~= m);
    }
}

/// Trimming takes the white space off both ends and leaves what is between as
/// it is.
pub proof fn trimming_takes_the_ends_off(a: Seq<char>, m: Seq<char>, b: Seq<char>)
    requires
        forall|k: int| 0 <= k < a.len() ==> is_space(a[k]),
        forall|k: int| 0 <= k < b.len() ==> is_space(b[k]),
        m.len() > 0 ==> !is_space(m[0]) && !is_space(m.last()),
    ensures
        trim(a + m + b) == m,
{
    let s = a + m + b;
    if m.len() > 0 {
        content_start_is(s, 0, a.len() as int);
        assert(s[a.len() as int] == m[0]);
        assert(s.skip(a.len() as int) =~= m + b);
        trim_end_is(m, b);
    } else {
        assert forall|k: int| 0 <= k < s.len() implies is_space(s[k]) by {
            if k < a.len() {
                assert(s[k] == a[k]);
            } else {
                assert(s[k] == b[k - a.len()]);
            }
        }
        content_start_is(s, 0, s.len() as int);
        assert(s.skip(s.len() as int) =~= m);
    }
}

/// In ASCII, each letter has its own counterpart in the other case, and every
/// other character stays as it is.
pub proof fn ascii_case_changes_letters_alone(c: char)
    ensures
        'A' <= c <= 'Z' ==> ascii_lower(c) as u32 == c as u32 + 32 && ascii_upper(c) == c,
        'a' <= c <= 'z' ==> ascii_upper(c) as u32 + 32 == c as u32 && ascii_lower(c) == c,
        !('A' <= c <= 'Z') && !('a' <= c <= 'z') ==> ascii_lower(c) == c && ascii_upper(c) == c,
{
}

/// Decimal digits are read from the left, each worth ten times the next.
pub proof fn digits_are_read_from_the_left(s: Seq<char>, d: int)
    requires
        0 <= d <= 9,
    ensures
        digits_value(Seq::empty()) == 0,
        digits_value(s.push((48 + d) as u8 as char)) == 10 * digits_value(s) + d,
{
    assert(s.push((48 + d) as u8 as char).drop_last() =~= s);
}

proof fn zeros_are_worth_nothing(k: nat, s: Seq<char>)
    ensures
        digits_value(Seq::new(k, |i: int| '0') + s) == digits_value(s),
    decreases k + s.len(),
{
    let z = Seq::new(k, |i: int| '0');
    if s.len() > 0 {
        zeros_are_worth_nothing(k, s.drop_last());
        assert((z + s).drop_last() =~= z + s.drop_last());
        assert((z + s).last() == s.last());
    } else if k > 0 {
        assert(z + s =~= z);
        assert(z.drop_last() =~= Seq::new((k - 1) as nat, |i: int| '0') + s);
        zeros_are_worth_nothing((k - 1) as nat, s);
    } else {
        assert(z + s =~= s);
    }
}

/// Zeros before a number fill it up to the width and do not change its value.
pub proof fn padding_keeps_the_value(s: Seq<char>, width: nat)
    ensures
        s.len() <= width ==> zero_pad(s, width).len() == width,
        digits_value(zero_pad(s, width)) == digits_value(s),
        all_digits(s) ==> all_digits(zero_pad(s, width)),
{
    if s.len() < width {
        let k = (width - s.len()) as nat;
        zeros_are_worth_nothing(k, s);
        if all_digits(s) {
            let z = zero_pad(s, width);
            assert forall|i: int| 0 <= i < z.len() implies is_digit(#[trigger] z[i]) by {
                if i >= k {
                    assert(z[i] == s[i - k]);
                }
            }
        }
    }
}

/// A number in decimal is made of digits that are worth it.
pub proof fn decimal_is_worth_the_number(n: nat)
    ensures
        all_digits(decimal(n)),
        digits_value(decimal(n)) == n,
        decimal(n).len() >= 1,
        n > 0 ==> decimal(n)[0] != '0',
    decreases n,
{
    decimal_is_digits(n);
    if n >= 10 {
        decimal_is_worth_the_number(n / 10);
        assert(decimal(n)[0] == decimal(n / 10)[0]);
    }
}

/// What is left of a text without the characters at its end does not end in one
/// of them, and only they are gone.
pub proof fn only_the_trailing_ones_go(s: Seq<char>, n: nat, c: char)
    requires
        s.len() > 0 ==> s.last() != c,
    ensures
        without_trailing(s + Seq::new(n, |i: int| c), c) == s,
    decreases n,
{
    let z = Seq::new(n, |i: int| c);
    if n > 0 {
        assert((s + z).last() == c);
        assert((s + z).drop_last() =~= s + Seq::new((n - 1) as nat, |i: int| c));
        only_the_trailing_ones_go(s, (n - 1) as nat, c);
    } else {
        assert(s + z =~= s);
    }
}

/// A number is read from digits, with a `+` before them or not, up to the bound
/// and no further; anything else is no number.
pub proof fn numbers_are_read_up_to_their_bound(s: Seq<char>, max: nat)
    ensures
        s.len() > 0 && all_digits(s) && digits_value(s) <= max ==> parse_uint(s, max) == Some(
            digits_value(s),
        ) && parse_uint(seq!['+'] + s, max) == Some(digits_value(s)),
        s.len() > 0 && all_digits(s) && digits_value(s) > max ==> parse_uint(s, max) is None,
        s.len() == 0 ==> parse_uint(s, max) is None,
        s.len() > 0 && s[0] != '+' && !all_digits(s) ==> parse_uint(s, max) is None,
{
    assert((seq!['+'] + s).skip(1) =~= s);
    if s.len() > 0 && all_digits(s) {
        assert(is_digit(s[0]));
    }
}

} // verus!
