//! Time-based one-time passwords (RFC 6238) from a bare base32 secret or from
//! an `otpauth://totp/` URI. Other kinds of URI are refused.
use vstd::prelude::*;
use vstd::arithmetic::div_mod::*;
use vstd::arithmetic::power::pow;
use vstd::arithmetic::power2::{lemma2_to64, lemma_pow2_adds, lemma_pow2_pos, pow2};
use vstd::string::*;
use crate::clock::unix_seconds;
use crate::crypto::{
    hmac_sha1, hmac_sha1_of, hmac_sha256, hmac_sha256_of, hmac_sha512, hmac_sha512_of,
};
use crate::text::{
    ascii_lower_text, ascii_upper, ascii_upper_text, begins_with, chars_are, chars_of, decimal,
    find_char, has_prefix, head_to, is_space, lower_chars, padded_decimal, parse_bounded,
    parse_uint, split_all, split_chars, split_once, tail_from, trim, trim_chars, upper_char,
    upper_chars, zero_pad,
};
use crate::vault_core::error::{Error, Result};

verus! {

/// The hash function behind a code.
#[derive(Clone, Copy, Debug, PartialEq, Eq, Structural)]
pub enum Algorithm {
    /// HMAC-SHA-1.
    Sha1,
    /// HMAC-SHA-256.
    Sha256,
    /// HMAC-SHA-512.
    Sha512,
}

/// How codes are computed.
#[derive(Clone, Debug)]
pub struct TotpParams {
    /// Shared secret.
    pub secret: Vec<u8>,
    /// Hash function.
    pub algorithm: Algorithm,
    /// Digits of a code.
    pub digits: u32,
    /// Seconds for which a code holds.
    pub period: u64,
}

impl TotpParams {
    /// Codes have one to nine digits and hold for a second or more.
    pub open spec fn wf(&self) -> bool {
        1 <= self.digits <= 9 && self.period >= 1
    }
}

/// What [`TotpParams`] hold.
pub struct TotpView {
    /// Shared secret.
    pub secret: Seq<u8>,
    /// Hash function.
    pub algorithm: Algorithm,
    /// Digits of a code.
    pub digits: nat,
    /// Seconds for which a code holds.
    pub period: nat,
}

impl View for TotpParams {
    type V = TotpView;

    open spec fn view(&self) -> TotpView {
        TotpView {
            secret: self.secret@,
            algorithm: self.algorithm,
            digits: self.digits as nat,
            period: self.period as nat,
        }
    }
}

/// A character that stands for bits in base32, that is, neither padding nor
/// white space.
pub open spec fn is_symbol(c: char) -> bool {
    c != '=' && !is_space(c)
}

/// The characters of `s` that stand for bits.
pub open spec fn symbols(s: Seq<char>) -> Seq<char> {
    s.filter(|c: char| is_symbol(c))
}

/// The five bits that a symbol stands for, in either case.
pub open spec fn symbol_value(c: char) -> Option<int> {
    let u = ascii_upper(c);
    if 'A' <= u <= 'Z' {
        Some(u as int - 65)
    } else if '2' <= u <= '7' {
        Some(u as int - 24)
    } else {
        None
    }
}

/// All symbols are in the alphabet.
pub open spec fn in_alphabet(syms: Seq<char>) -> bool {
    forall|i: int| 0 <= i < syms.len() ==> symbol_value(#[trigger] syms[i]) is Some
}

/// The symbols read as one number, five bits each.
pub open spec fn stream(syms: Seq<char>) -> int
    decreases syms.len(),
{
    if syms.len() == 0 {
        0
    } else {
        stream(syms.drop_last()) * 32 + symbol_value(syms.last())->Some_0
    }
}

/// Byte `k` of a stream of `n` symbols, counted from its most significant end.
pub open spec fn stream_byte(value: int, n: int, k: int) -> u8 {
    ((value / (pow2((5 * n - 8 * k - 8) as nat) as int)) % 256) as u8
}

/// The bytes that base32 text stands for. Padding and white space are passed
/// over, and bits short of a byte at the end are dropped.
pub open spec fn base32_decoded(s: Seq<char>) -> Result<Seq<u8>> {
    let syms = symbols(s);
    if !in_alphabet(syms) {
        Err(Error::Totp("invalid base32 character in TOTP secret"))
    } else if syms.len() * 5 < 8 {
        Err(Error::Totp("empty TOTP secret"))
    } else {
        Ok(
            Seq::new(
                syms.len() * 5 / 8,
                |k: int| stream_byte(stream(syms), syms.len() as int, k),
            ),
        )
    }
}

/// The algorithm with the given name, in either case.
pub open spec fn algorithm_named(s: Seq<char>) -> Result<Algorithm> {
    let name = ascii_upper_text(trim(s));
    if name == "SHA1"@ {
        Ok(Algorithm::Sha1)
    } else if name == "SHA256"@ {
        Ok(Algorithm::Sha256)
    } else if name == "SHA512"@ {
        Ok(Algorithm::Sha512)
    } else {
        Err(Error::Totp("unsupported TOTP algorithm"))
    }
}

/// What the pairs of a query have set so far.
pub struct QueryView {
    /// Shared secret.
    pub secret: Option<Seq<u8>>,
    /// Hash function.
    pub algorithm: Algorithm,
    /// Digits of a code.
    pub digits: nat,
    /// Seconds for which a code holds.
    pub period: nat,
}

/// `q` after one `key=value` pair. Keys are matched in either case; unknown
/// ones, and pieces without `=`, are passed over.
pub open spec fn after_pair(q: QueryView, pair: Seq<char>) -> Result<QueryView> {
    match split_once(pair, '=') {
        None => Ok(q),
        Some((k, v)) => {
            let key = ascii_lower_text(k);
            if key == "secret"@ {
                match base32_decoded(v) {
                    Ok(b) => Ok(QueryView { secret: Some(b), ..q }),
                    Err(e) => Err(e),
                }
            } else if key == "algorithm"@ {
                match algorithm_named(v) {
                    Ok(a) => Ok(QueryView { algorithm: a, ..q }),
                    Err(e) => Err(e),
                }
            } else if key == "digits"@ {
                match parse_uint(v, u32::MAX as nat) {
                    Some(n) => Ok(QueryView { digits: n, ..q }),
                    None => Err(Error::Totp("invalid digits")),
                }
            } else if key == "period"@ {
                match parse_uint(v, u64::MAX as nat) {
                    Some(n) => Ok(QueryView { period: n, ..q }),
                    None => Err(Error::Totp("invalid period")),
                }
            } else {
                Ok(q)
            }
        },
    }
}

/// What `pairs` set, from left to right; the first faulty one decides.
pub open spec fn after_pairs(pairs: Seq<Seq<char>>) -> Result<QueryView>
    decreases pairs.len(),
{
    if pairs.len() == 0 {
        Ok(QueryView { secret: None, algorithm: Algorithm::Sha1, digits: 6, period: 30 })
    } else {
        match after_pairs(pairs.drop_last()) {
            Err(e) => Err(e),
            Ok(q) => after_pair(q, pairs.last()),
        }
    }
}

/// `x`, or the nearest bound where it is outside.
pub open spec fn clamped(x: nat, low: nat, high: nat) -> nat {
    if x < low {
        low
    } else if x > high {
        high
    } else {
        x
    }
}

/// The parameters in a URI's part after `otpauth://totp/`.
pub open spec fn uri_params(rest: Seq<char>) -> Result<TotpView> {
    let query = match split_once(rest, '?') {
        Some((_, q)) => q,
        None => Seq::empty(),
    };
    match after_pairs(split_all(query, '&')) {
        Err(e) => Err(e),
        Ok(q) => match q.secret {
            None => Err(Error::Totp("otpauth URI has no secret")),
            Some(secret) => Ok(
                TotpView {
                    secret,
                    algorithm: q.algorithm,
                    digits: clamped(q.digits, 1, 9),
                    period: if q.period < 1 { 1 } else { q.period },
                },
            ),
        },
    }
}

/// The parameters that a stored secret or URI stands for.
pub open spec fn totp_params(s: Seq<char>) -> Result<TotpView> {
    let t = trim(s);
    if !has_prefix(t, "otpauth://"@) {
        match base32_decoded(t) {
            Err(e) => Err(e),
            Ok(secret) => Ok(
                TotpView { secret, algorithm: Algorithm::Sha1, digits: 6, period: 30 },
            ),
        }
    } else {
        let rest = t.skip("otpauth://"@.len() as int);
        if !has_prefix(rest, "totp/"@) {
            Err(Error::Totp("unsupported otpauth type (only totp)"))
        } else {
            uri_params(rest.skip("totp/"@.len() as int))
        }
    }
}

/// `n` as eight bytes, most significant first.
pub open spec fn be_bytes(n: nat) -> Seq<u8> {
    Seq::new(8, |i: int| ((n as int / pow(256, (7 - i) as nat)) % 256) as u8)
}

/// The tag of a counter under a secret.
pub open spec fn counter_tag(p: TotpView, counter: nat) -> Seq<u8> {
    match p.algorithm {
        Algorithm::Sha1 => hmac_sha1_of(p.secret, be_bytes(counter)),
        Algorithm::Sha256 => hmac_sha256_of(p.secret, be_bytes(counter)),
        Algorithm::Sha512 => hmac_sha512_of(p.secret, be_bytes(counter)),
    }
}

/// The 31-bit number that dynamic truncation (RFC 4226) takes from a tag.
pub open spec fn truncated(tag: Seq<u8>) -> int {
    let offset = (tag.last() % 16) as int;
    (tag[offset] % 128) * 0x100_0000 + tag[offset + 1] * 0x1_0000 + tag[offset + 2] * 0x100
        + tag[offset + 3]
}

/// The code that a tag gives.
pub open spec fn code_of(tag: Seq<u8>, digits: nat) -> Seq<char> {
    zero_pad(decimal((truncated(tag) % pow(10, digits)) as nat), digits)
}

/// The code at a time, in seconds since the Unix epoch.
pub open spec fn code_at(p: TotpView, unix_secs: nat) -> Seq<char>
    recommends
        p.period > 0,
{
    code_of(counter_tag(p, unix_secs / p.period), p.digits)
}

/// A code holds for its whole period: two times in the same period have the
/// same code.
pub proof fn code_holds_for_its_period(p: TotpView, t1: nat, t2: nat)
    requires
        p.period > 0,
        t1 / p.period == t2 / p.period,
    ensures
        code_at(p, t1) == code_at(p, t2),
{
}

proof fn decimal_fits(n: nat, width: nat)
    requires
        n < pow(10, width),
        width >= 1,
    ensures
        decimal(n).len() <= width,
        forall|i: int| 0 <= i < decimal(n).len() ==> '0' <= #[trigger] decimal(n)[i] <= '9',
    decreases n,
{
    if n >= 10 {
        assert(pow(10, width) == 10 * pow(10, (width - 1) as nat)) by {
            reveal(pow);
        }
        if width == 1 {
            assert(pow(10, 0) == 1) by {
                reveal(pow);
            }
        }
        decimal_fits(n / 10, (width - 1) as nat);
        let d = decimal(n);
        assert forall|i: int| 0 <= i < d.len() implies '0' <= #[trigger] d[i] <= '9' by {
            if i < d.len() - 1 {
                assert(d[i] == decimal(n / 10)[i]);
            }
        }
    }
}

/// A code has as many characters as asked for, all of them digits.
pub proof fn code_is_digits(p: TotpView, t: nat)
    requires
        p.period > 0,
        1 <= p.digits,
    ensures
        code_at(p, t).len() == p.digits,
        forall|i: int| 0 <= i < code_at(p, t).len() ==> '0' <= #[trigger] code_at(p, t)[i] <= '9',
{
    let m = pow(10, p.digits);
    vstd::arithmetic::power::lemma_pow_positive(10, p.digits);
    let n = truncated(counter_tag(p, t / p.period)) % m;
    lemma_mod_bound(truncated(counter_tag(p, t / p.period)), m);
    decimal_fits(n as nat, p.digits);
}

proof fn stream_ignores_case(a: Seq<char>, b: Seq<char>)
    requires
        ascii_upper_text(a) == ascii_upper_text(b),
    ensures
        stream(a) == stream(b),
        a.len() == b.len(),
        forall|i: int| 0 <= i < a.len() ==> symbol_value(#[trigger] a[i]) == symbol_value(b[i]),
    decreases a.len(),
{
    let u = ascii_upper_text(a);
    assert(u.len() == a.len() && ascii_upper_text(b).len() == b.len());
    assert forall|i: int| 0 <= i < a.len() implies symbol_value(#[trigger] a[i]) == symbol_value(
        b[i],
    ) by {
        assert(u[i] == ascii_upper(a[i]));
        assert(ascii_upper_text(b)[i] == ascii_upper(b[i]));
    }
    if a.len() > 0 {
        assert(ascii_upper_text(a.drop_last()) =~= u.drop_last());
        assert(ascii_upper_text(b.drop_last()) =~= u.drop_last());
        stream_ignores_case(a.drop_last(), b.drop_last());
    }
}

/// Two secrets that differ in case, white space and padding alone stand for the
/// same bytes.
pub proof fn base32_ignores_case_and_spaces(a: Seq<char>, b: Seq<char>)
    requires
        ascii_upper_text(symbols(a)) == ascii_upper_text(symbols(b)),
    ensures
        base32_decoded(a) == base32_decoded(b),
{
    let x = symbols(a);
    let y = symbols(b);
    stream_ignores_case(x, y);
    assert(in_alphabet(x) <==> in_alphabet(y)) by {
        if in_alphabet(x) {
            assert forall|i: int| 0 <= i < y.len() implies symbol_value(#[trigger] y[i]) is Some by {
                assert(symbol_value(x[i]) is Some);
            }
        }
        if in_alphabet(y) {
            assert forall|i: int| 0 <= i < x.len() implies symbol_value(#[trigger] x[i]) is Some by {
                assert(symbol_value(y[i]) is Some);
            }
        }
    }
    if base32_decoded(a) is Ok {
        assert(base32_decoded(a)->Ok_0 =~= base32_decoded(b)->Ok_0);
    }
}

proof fn symbols_step(s: Seq<char>, i: int)
    requires
        0 <= i < s.len(),
    ensures
        symbols(s.take(i + 1)) == (if is_symbol(s[i]) {
            symbols(s.take(i)).push(s[i])
        } else {
            symbols(s.take(i))
        }),
{
    reveal(Seq::filter);
    assert(s.take(i + 1).drop_last() =~= s.take(i));
    assert(s.take(i + 1).last() == s[i]);
}

proof fn symbols_prefix(s: Seq<char>, i: int)
    requires
        0 <= i <= s.len(),
        in_alphabet(symbols(s)),
    ensures
        in_alphabet(symbols(s.take(i))),
    decreases s.len() - i,
{
    if i < s.len() {
        symbols_prefix(s, i + 1);
        symbols_step(s, i);
        let a = symbols(s.take(i));
        let b = symbols(s.take(i + 1));
        assert forall|k: int| 0 <= k < a.len() implies symbol_value(#[trigger] a[k]) is Some by {
            assert(a[k] == b[k]);
        }
    } else {
        assert(s.take(i) =~= s);
    }
}

/// A complete byte of a stream stays the same when a symbol follows.
proof fn byte_is_stable(value: int, v: int, n: int, k: int)
    requires
        0 <= value,
        0 <= v < 32,
        0 <= k,
        8 * k + 8 <= 5 * n,
    ensures
        stream_byte(value * 32 + v, n + 1, k) == stream_byte(value, n, k),
{
    let low = (5 * n - 8 * k - 8) as nat;
    lemma2_to64();
    lemma_pow2_adds(5, low);
    lemma_pow2_pos(low);
    lemma_div_denominator(value * 32 + v, 32, pow2(low) as int);
    assert((value * 32 + v) / 32 == value);
}

/// The byte that a symbol completes, from the bits left before it.
proof fn byte_completed(value: int, v: int, n: int, k: int, rest: int)
    requires
        0 <= value,
        0 <= v < 32,
        0 <= k,
        0 <= rest < 5,
        8 * k + 8 + rest == 5 * (n + 1),
    ensures
        ({
            let p = pow2(rest as nat) as int;
            let next = value * 32 + v;
            let pending = (value % (8 * p)) * 32 + v;
            &&& stream_byte(next, n + 1, k) == pending / p
            &&& 0 <= pending / p < 256
            &&& next % p == pending % p
        }),
{
    let p = pow2(rest as nat) as int;
    let next = value * 32 + v;
    let pending = (value % (8 * p)) * 32 + v;
    lemma2_to64();
    assert(p == 1 || p == 2 || p == 4 || p == 8 || p == 16);
    let q = value / (8 * p);
    lemma_fundamental_div_mod(value, 8 * p);
    assert(next == (256 * p) * q + pending) by (nonlinear_arith)
        requires
            next == value * 32 + v,
            pending == (value % (8 * p)) * 32 + v,
            value == (8 * p) * q + value % (8 * p),
    ;
    assert(0 <= value % (8 * p) < 8 * p);
    assert(5 * (n + 1) - 8 * k - 8 == rest);
    if p == 1 {
        assert(next == 256 * q + pending);
        assert(next / 1 == 256 * q + pending / 1);
        assert(next % 1 == pending % 1);
        assert(0 <= pending / 1 < 256);
    } else if p == 2 {
        assert(next == 512 * q + pending);
        assert(next / 2 == 256 * q + pending / 2);
        assert(next % 2 == pending % 2);
        assert(0 <= pending / 2 < 256);
    } else if p == 4 {
        assert(next == 1024 * q + pending);
        assert(next / 4 == 256 * q + pending / 4);
        assert(next % 4 == pending % 4);
        assert(0 <= pending / 4 < 256);
    } else if p == 8 {
        assert(next == 2048 * q + pending);
        assert(next / 8 == 256 * q + pending / 8);
        assert(next % 8 == pending % 8);
        assert(0 <= pending / 8 < 256);
    } else {
        assert(next == 4096 * q + pending);
        assert(next / 16 == 256 * q + pending / 16);
        assert(next % 16 == pending % 16);
        assert(0 <= pending / 16 < 256);
    }
    assert(next / p == 256 * q + pending / p);
}

/// The bits that stay pending when a symbol completes no byte.
proof fn bits_pending(value: int, v: int, held: int)
    requires
        0 <= value,
        0 <= v < 32,
        0 <= held <= 2,
    ensures
        (value * 32 + v) % (pow2((held + 5) as nat) as int) == (value % (pow2(held as nat) as int))
            * 32 + v,
{
    lemma2_to64();
    let p = pow2(held as nat) as int;
    assert(p == 1 || p == 2 || p == 4);
    lemma_fundamental_div_mod(value, p);
    let q = value / p;
    if p == 1 {
        assert(value == 1 * q + value % 1);
        assert(value * 32 + v == 32 * q + ((value % 1) * 32 + v));
        assert(0 <= (value % 1) * 32 + v < 32);
        assert((value * 32 + v) % 32 == (value % 1) * 32 + v);
    } else if p == 2 {
        assert(value == 2 * q + value % 2);
        assert(value * 32 + v == 64 * q + ((value % 2) * 32 + v));
        assert(0 <= (value % 2) * 32 + v < 64);
        assert((value * 32 + v) % 64 == (value % 2) * 32 + v);
    } else {
        assert(value == 4 * q + value % 4);
        assert(value * 32 + v == 128 * q + ((value % 4) * 32 + v));
        assert(0 <= (value % 4) * 32 + v < 128);
        assert((value * 32 + v) % 128 == (value % 4) * 32 + v);
    }
}

fn symbol_bits(c: char) -> (r: Option<u32>)
    ensures
        r is Some <==> symbol_value(c) is Some,
        r matches Some(v) ==> symbol_value(c) == Some(v as int) && v < 32,
{
    let u: char = upper_char(c);
    if 'A' <= u && u <= 'Z' {
        Some(u as u32 - 65)
    } else if '2' <= u && u <= '7' {
        Some(u as u32 - 24)
    } else {
        None
    }
}

fn two_to(n: u32) -> (r: u32)
    requires
        n < 8,
    ensures
        r == pow2(n as nat),
        r >= 1,
{
    proof {
        lemma2_to64();
    }
    match n {
        0 => 1,
        1 => 2,
        2 => 4,
        3 => 8,
        4 => 16,
        5 => 32,
        6 => 64,
        _ => 128,
    }
}

/// Decodes base32 characters.
fn base32_chars(s: &[char]) -> (r: Result<Vec<u8>>)
    ensures
        r matches Ok(b) ==> base32_decoded(s@) == Ok::<Seq<u8>, Error>(b@),
        r matches Err(e) ==> base32_decoded(s@) == Err::<Seq<u8>, Error>(e),
{
    let mut out: Vec<u8> = Vec::new();
    let mut pending: u32 = 0;
    let mut bits: u32 = 0;
    let mut i: usize = 0;
    let ghost mut syms: Seq<char> = Seq::empty();
    proof {
        lemma2_to64();
        reveal(Seq::filter);
        assert(s@.take(0) =~= Seq::<char>::empty());
    }
    while i < s.len()
        invariant
            i <= s.len(),
            syms == symbols(s@.take(i as int)),
            in_alphabet(syms),
            bits < 8,
            syms.len() * 5 == out@.len() * 8 + bits,
            0 <= stream(syms),
            pending == stream(syms) % (pow2(bits as nat) as int),
            forall|k: int|
                0 <= k < out@.len() ==> #[trigger] out@[k] == stream_byte(
                    stream(syms),
                    syms.len() as int,
                    k,
                ),
        decreases s.len() - i,
    {
        let c: char = s[i];
        proof {
            symbols_step(s@, i as int);
        }
        if c == '=' || c.is_whitespace() {
            i += 1;
            continue ;
        }
        let v: u32 = match symbol_bits(c) {
            Some(v) => v,
            None => {
                proof {
                    let here = symbols(s@.take(i + 1));
                    assert(here.last() == c);
                    assert(symbol_value(here[here.len() - 1]) is None);
                    if in_alphabet(symbols(s@)) {
                        symbols_prefix(s@, i + 1);
                    }
                }
                return Err(Error::Totp("invalid base32 character in TOTP secret"));
            },
        };
        let ghost old_syms = syms;
        let ghost old_out = out@;
        let ghost old_pending = pending as int;
        let ghost next = syms.push(c);
        proof {
            assert(next.drop_last() =~= old_syms);
            assert(next.last() == c);
            assert(stream(next) == stream(old_syms) * 32 + v);
            lemma2_to64();
            assert forall|k: int| 0 <= k < next.len() implies symbol_value(#[trigger] next[k]) is Some by {
                if k < old_syms.len() {
                    assert(next[k] == old_syms[k]);
                }
            }
            assert forall|k: int| 0 <= k < old_out.len() implies #[trigger] old_out[k]
                == stream_byte(stream(next), next.len() as int, k) by {
                byte_is_stable(stream(old_syms), v as int, old_syms.len() as int, k);
            }
        }
        assert(pow2(bits as nat) <= 128);
        let joined: u32 = pending * 32 + v;
        if bits >= 3 {
            let rest: u32 = bits - 3;
            let unit: u32 = two_to(rest);
            proof {
                byte_completed(
                    stream(old_syms),
                    v as int,
                    old_syms.len() as int,
                    old_out.len() as int,
                    rest as int,
                );
                lemma_pow2_adds(3, rest as nat);
                assert(joined == (stream(old_syms) % (8 * unit)) * 32 + v);
            }
            out.push((joined / unit) as u8);
            pending = joined % unit;
            bits = rest;
        } else {
            proof {
                bits_pending(stream(old_syms), v as int, bits as int);
            }
            pending = joined;
            bits = bits + 5;
        }
        proof {
            syms = next;
        }
        i += 1;
    }
    proof {
        assert(s@.take(s@.len() as int) =~= s@);
    }
    if out.len() == 0 {
        return Err(Error::Totp("empty TOTP secret"));
    }
    assert(out@ =~= base32_decoded(s@)->Ok_0);
    Ok(out)
}

/// Decodes a base32 secret.
pub fn base32_decode(s: &str) -> (r: Result<Vec<u8>>)
    ensures
        r matches Ok(b) ==> base32_decoded(s@) == Ok::<Seq<u8>, Error>(b@),
        r matches Err(e) ==> base32_decoded(s@) == Err::<Seq<u8>, Error>(e),
{
    let chars: Vec<char> = chars_of(s);
    base32_chars(chars.as_slice())
}

impl Algorithm {
    fn named(s: &[char]) -> (r: Result<Algorithm>)
        ensures
            r == algorithm_named(s@),
    {
        let name: Vec<char> = upper_chars(trim_chars(s));
        if chars_are(name.as_slice(), "SHA1") {
            Ok(Algorithm::Sha1)
        } else if chars_are(name.as_slice(), "SHA256") {
            Ok(Algorithm::Sha256)
        } else if chars_are(name.as_slice(), "SHA512") {
            Ok(Algorithm::Sha512)
        } else {
            Err(Error::Totp("unsupported TOTP algorithm"))
        }
    }

    /// The algorithm with the given name, in either case.
    pub fn parse(s: &str) -> (r: Result<Algorithm>)
        ensures
            r == algorithm_named(s@),
    {
        let chars: Vec<char> = chars_of(s);
        Self::named(chars.as_slice())
    }
}

/// What the pairs of a query have set so far.
struct Query {
    secret: Option<Vec<u8>>,
    algorithm: Algorithm,
    digits: u32,
    period: u64,
}

impl View for Query {
    type V = QueryView;

    closed spec fn view(&self) -> QueryView {
        QueryView {
            secret: match self.secret {
                Some(b) => Some(b@),
                None => None,
            },
            algorithm: self.algorithm,
            digits: self.digits as nat,
            period: self.period as nat,
        }
    }
}

fn take_pair(q: Query, pair: &[char]) -> (r: Result<Query>)
    ensures
        r matches Ok(n) ==> after_pair(q@, pair@) == Ok::<QueryView, Error>(n@),
        r matches Err(e) ==> after_pair(q@, pair@) == Err::<QueryView, Error>(e),
{
    let at: usize = find_char(pair, '=', 0);
    if at == pair.len() {
        return Ok(q);
    }
    let key: Vec<char> = lower_chars(head_to(pair, at));
    let value: &[char] = tail_from(pair, at + 1);
    let key: &[char] = key.as_slice();
    let mut q: Query = q;
    if chars_are(key, "secret") {
        let secret: Vec<u8> = base32_chars(value)?;
        q.secret = Some(secret);
    } else if chars_are(key, "algorithm") {
        let algorithm: Algorithm = Algorithm::named(value)?;
        q.algorithm = algorithm;
    } else if chars_are(key, "digits") {
        match parse_bounded(value, u32::MAX as u64) {
            Some(n) => {
                q.digits = n as u32;
            },
            None => return Err(Error::Totp("invalid digits")),
        }
    } else if chars_are(key, "period") {
        match parse_bounded(value, u64::MAX) {
            Some(n) => {
                q.period = n;
            },
            None => return Err(Error::Totp("invalid period")),
        }
    }
    Ok(q)
}

proof fn pairs_failure(pairs: Seq<Seq<char>>, i: int)
    requires
        0 <= i <= pairs.len(),
        after_pairs(pairs.take(i)) is Err,
    ensures
        after_pairs(pairs) == after_pairs(pairs.take(i)),
    decreases pairs.len() - i,
{
    if i < pairs.len() {
        assert(pairs.take(i + 1).drop_last() =~= pairs.take(i));
        pairs_failure(pairs, i + 1);
    } else {
        assert(pairs.take(i) =~= pairs);
    }
}

fn take_query(query: &[char]) -> (r: Result<Query>)
    ensures
        r matches Ok(q) ==> after_pairs(split_all(query@, '&')) == Ok::<QueryView, Error>(q@),
        r matches Err(e) ==> after_pairs(split_all(query@, '&')) == Err::<QueryView, Error>(e),
{
    let pieces: Vec<Vec<char>> = split_chars(query, '&');
    let ghost pairs = split_all(query@, '&');
    assert(pairs.len() == pieces@.len());
    let mut q: Query = Query { secret: None, algorithm: Algorithm::Sha1, digits: 6, period: 30 };
    let mut i: usize = 0;
    assert(pairs.take(0) =~= Seq::empty());
    while i < pieces.len()
        invariant
            i <= pieces.len(),
            pairs == split_all(query@, '&'),
            pairs == pieces@.map_values(|p: Vec<char>| p@),
            after_pairs(pairs.take(i as int)) == Ok::<QueryView, Error>(q@),
        decreases pieces.len() - i,
    {
        proof {
            assert(pairs.take(i + 1).drop_last() =~= pairs.take(i as int));
            assert(pairs.take(i + 1).last() == pieces@[i as int]@);
        }
        match take_pair(q, pieces[i].as_slice()) {
            Ok(n) => {
                q = n;
            },
            Err(e) => {
                proof {
                    pairs_failure(pairs, i + 1);
                }
                return Err(e);
            },
        }
        i += 1;
    }
    assert(pairs.take(pairs.len() as int) =~= pairs);
    Ok(q)
}

fn parse_uri(rest: &[char]) -> (r: Result<TotpParams>)
    ensures
        r matches Ok(p) ==> uri_params(rest@) == Ok::<TotpView, Error>(p@) && p.wf(),
        r matches Err(e) ==> uri_params(rest@) == Err::<TotpView, Error>(e),
{
    let at: usize = find_char(rest, '?', 0);
    let query: &[char] = if at < rest.len() {
        tail_from(rest, at + 1)
    } else {
        tail_from(rest, rest.len())
    };
    assert(at == rest@.len() ==> query@ =~= Seq::empty());
    let q: Query = take_query(query)?;
    match q.secret {
        None => Err(Error::Totp("otpauth URI has no secret")),
        Some(secret) => Ok(
            TotpParams {
                secret,
                algorithm: q.algorithm,
                digits: if q.digits < 1 {
                    1
                } else if q.digits > 9 {
                    9
                } else {
                    q.digits
                },
                period: if q.period < 1 {
                    1
                } else {
                    q.period
                },
            },
        ),
    }
}

/// Reads a stored secret or URI.
pub fn parse(s: &str) -> (r: Result<TotpParams>)
    ensures
        r matches Ok(p) ==> totp_params(s@) == Ok::<TotpView, Error>(p@) && p.wf(),
        r matches Err(e) ==> totp_params(s@) == Err::<TotpView, Error>(e),
{
    let chars: Vec<char> = chars_of(s);
    let text: &[char] = trim_chars(chars.as_slice());
    proof {
        reveal_strlit("otpauth://");
        reveal_strlit("totp/");
    }
    if !begins_with(text, "otpauth://") {
        let secret: Vec<u8> = base32_chars(text)?;
        return Ok(TotpParams { secret, algorithm: Algorithm::Sha1, digits: 6, period: 30 });
    }
    let rest: &[char] = tail_from(text, 10);
    if !begins_with(rest, "totp/") {
        return Err(Error::Totp("unsupported otpauth type (only totp)"));
    }
    parse_uri(tail_from(rest, 5))
}

fn counter_bytes(n: u64) -> (out: Vec<u8>)
    ensures
        out@ == be_bytes(n as nat),
{
    let mut out: Vec<u8> = Vec::new();
    out.push((n / 0x100_0000_0000_0000 % 256) as u8);
    out.push((n / 0x1_0000_0000_0000 % 256) as u8);
    out.push((n / 0x100_0000_0000 % 256) as u8);
    out.push((n / 0x1_0000_0000 % 256) as u8);
    out.push((n / 0x100_0000 % 256) as u8);
    out.push((n / 0x1_0000 % 256) as u8);
    out.push((n / 0x100 % 256) as u8);
    out.push((n % 256) as u8);
    proof {
        reveal_with_fuel(pow, 8);
        assert(pow(256, 0) == 1);
        assert(pow(256, 1) == 0x100);
        assert(pow(256, 2) == 0x1_0000);
        assert(pow(256, 3) == 0x100_0000);
        assert(pow(256, 4) == 0x1_0000_0000);
        assert(pow(256, 5) == 0x100_0000_0000);
        assert(pow(256, 6) == 0x1_0000_0000_0000);
        assert(pow(256, 7) == 0x100_0000_0000_0000);
        assert(out@ =~= be_bytes(n as nat));
    }
    out
}

fn ten_to(n: u32) -> (r: u32)
    requires
        n <= 9,
    ensures
        r == pow(10, n as nat),
        r >= 1,
{
    proof {
        reveal_with_fuel(pow, 10);
    }
    match n {
        0 => 1,
        1 => 10,
        2 => 100,
        3 => 1_000,
        4 => 10_000,
        5 => 100_000,
        6 => 1_000_000,
        7 => 10_000_000,
        8 => 100_000_000,
        _ => 1_000_000_000,
    }
}

/// The code that a tag gives. The tag must hold the four bytes that its last
/// one points to.
pub fn truncate(hash: &[u8], digits: u32) -> (out: String)
    requires
        hash@.len() > 0,
        hash@.last() % 16 + 4 <= hash@.len(),
        digits <= 9,
    ensures
        out@ == code_of(hash@, digits as nat),
{
    let offset: usize = (hash[hash.len() - 1] % 16) as usize;
    let value: u32 = (hash[offset] % 128) as u32 * 0x100_0000 + hash[offset + 1] as u32 * 0x1_0000
        + hash[offset + 2] as u32 * 0x100 + hash[offset + 3] as u32;
    assert(value == truncated(hash@));
    let modulo: u32 = ten_to(digits);
    padded_decimal((value % modulo) as u64, digits as usize)
}

/// The code at a time, in seconds since the Unix epoch.
pub fn at(params: &TotpParams, unix_secs: u64) -> (r: Result<String>)
    requires
        params.wf(),
    ensures
        r matches Ok(c) && c@ == code_at(params@, unix_secs as nat),
{
    let counter: u64 = unix_secs / params.period;
    let message: Vec<u8> = counter_bytes(counter);
    let secret: &[u8] = params.secret.as_slice();
    let code: String = match params.algorithm {
        Algorithm::Sha1 => truncate(
            hmac_sha1(secret, message.as_slice()).as_slice(),
            params.digits,
        ),
        Algorithm::Sha256 => truncate(
            hmac_sha256(secret, message.as_slice()).as_slice(),
            params.digits,
        ),
        Algorithm::Sha512 => truncate(
            hmac_sha512(secret, message.as_slice()).as_slice(),
            params.digits,
        ),
    };
    Ok(code)
}

/// The code that a stored secret or URI gives at a reading of the clock. Where
/// the clock stands before the Unix epoch, no code can be given.
pub open spec fn totp_now(secret_or_uri: Seq<char>, clock: Option<u64>) -> Result<Seq<char>> {
    match clock {
        None => Err(Error::Totp("system clock is before the Unix epoch")),
        Some(unix) => match totp_params(secret_or_uri) {
            Err(e) => Err(e),
            Ok(p) => Ok(code_at(p, unix as nat)),
        },
    }
}

/// The code that a stored secret or URI gives at a reading of the clock.
pub fn code_now(secret_or_uri: &str, clock: Option<u64>) -> (r: Result<String>)
    ensures
        r matches Ok(c) ==> totp_now(secret_or_uri@, clock) == Ok::<Seq<char>, Error>(c@),
        r matches Err(e) ==> totp_now(secret_or_uri@, clock) == Err::<Seq<char>, Error>(e),
{
    match clock {
        None => Err(Error::Totp("system clock is before the Unix epoch")),
        Some(unix) => code_for(secret_or_uri, unix),
    }
}

/// The code that a stored secret or URI gives now. Which second the clock shows
/// is not known beforehand.
pub fn now(secret_or_uri: &str) -> (r: Result<String>)
    ensures
        exists|clock: Option<u64>|
            match (r, #[trigger] totp_now(secret_or_uri@, clock)) {
                (Ok(c), Ok(t)) => c@ == t,
                (Err(e), Err(x)) => e == x,
                _ => false,
            },
{
    let clock: Option<u64> = unix_seconds();
    let ghost told = totp_now(secret_or_uri@, clock);
    code_now(secret_or_uri, clock)
}

/// The code that a stored secret or URI gives at a time.
pub fn code_for(secret_or_uri: &str, unix_secs: u64) -> (r: Result<String>)
    ensures
        r matches Ok(c) ==> totp_params(secret_or_uri@) is Ok && c@ == code_at(
            totp_params(secret_or_uri@)->Ok_0,
            unix_secs as nat,
        ),
        r matches Err(e) ==> totp_params(secret_or_uri@) == Err::<TotpView, Error>(e),
{
    let params: TotpParams = parse(secret_or_uri)?;
    at(&params, unix_secs)
}

/// The number that bytes stand for, most significant first.
pub open spec fn be_value(b: Seq<u8>) -> nat
    decreases b.len(),
{
    if b.len() == 0 {
        0
    } else {
        be_value(b.drop_last()) * 256 + b.last() as nat
    }
}

proof fn be_value_step(n: int, c: nat)
    requires
        0 <= n,
    ensures
        (n / pow(256, c + 1)) * 256 + (n / pow(256, c)) % 256 == n / pow(256, c),
{
    vstd::arithmetic::power::lemma_pow_positive(256, c);
    assert(pow(256, c + 1) == 256 * pow(256, c)) by {
        reveal(pow);
    }
    lemma_div_denominator(n, pow(256, c), 256);
    assert(pow(256, c) * 256 == 256 * pow(256, c)) by (nonlinear_arith);
    let q = n / pow(256, c);
    lemma_fundamental_div_mod(q, 256);
}

proof fn be_bytes_prefix(n: nat, k: int)
    requires
        n < 0x1_0000_0000_0000_0000,
        0 <= k <= 8,
    ensures
        be_value(be_bytes(n).take(k)) == n as int / pow(256, (8 - k) as nat),
    decreases k,
{
    let b = be_bytes(n);
    if k == 0 {
        assert(pow(256, 8) == 0x1_0000_0000_0000_0000) by {
            reveal_with_fuel(pow, 9);
        }
        assert(n as int / 0x1_0000_0000_0000_0000 == 0);
        assert(b.take(0) =~= Seq::empty());
    } else {
        be_bytes_prefix(n, k - 1);
        assert(b.take(k).drop_last() =~= b.take(k - 1));
        assert(b.take(k).last() == b[k - 1]);
        let c = (8 - k) as nat;
        be_value_step(n as int, c);
        let q = n as int / pow(256, c);
        assert(0 <= q % 256 < 256);
        assert(b[k - 1] as int == q % 256);
    }
}

/// The eight bytes that go into a tag are the whole counter, most significant
/// byte first.
pub proof fn counter_bytes_are_the_counter(n: nat)
    requires
        n < 0x1_0000_0000_0000_0000,
    ensures
        be_bytes(n).len() == 8,
        be_value(be_bytes(n)) == n,
        be_bytes(n)[0] * 0x100_0000_0000_0000 + be_bytes(n)[1] * 0x1_0000_0000_0000 + be_bytes(n)[2]
            * 0x100_0000_0000 + be_bytes(n)[3] * 0x1_0000_0000 + be_bytes(n)[4] * 0x100_0000
            + be_bytes(n)[5] * 0x1_0000 + be_bytes(n)[6] * 0x100 + be_bytes(n)[7] == n,
{
    let b = be_bytes(n);
    be_bytes_prefix(n, 8);
    assert(b.take(8) =~= b);
    assert(pow(256, 0) == 1) by {
        reveal(pow);
    }
    be_value_of_eight(b);
}

proof fn be_value_of_eight(b: Seq<u8>)
    requires
        b.len() == 8,
    ensures
        be_value(b) == b[0] * 0x100_0000_0000_0000 + b[1] * 0x1_0000_0000_0000 + b[2]
            * 0x100_0000_0000 + b[3] * 0x1_0000_0000 + b[4] * 0x100_0000 + b[5] * 0x1_0000 + b[6]
            * 0x100 + b[7],
{
    assert(b.drop_last() =~= b.take(7));
    assert(b.take(7).drop_last() =~= b.take(6));
    assert(b.take(6).drop_last() =~= b.take(5));
    assert(b.take(5).drop_last() =~= b.take(4));
    assert(b.take(4).drop_last() =~= b.take(3));
    assert(b.take(3).drop_last() =~= b.take(2));
    assert(b.take(2).drop_last() =~= b.take(1));
    assert(b.take(1).drop_last() =~= Seq::empty());
    assert(be_value(Seq::<u8>::empty()) == 0);
    assert(be_value(b.take(1)) == b[0]);
    assert(be_value(b.take(2)) == b[0] * 0x100 + b[1]);
    assert(be_value(b.take(3)) == b[0] * 0x1_0000 + b[1] * 0x100 + b[2]);
    assert(be_value(b.take(4)) == b[0] * 0x100_0000 + b[1] * 0x1_0000 + b[2] * 0x100 + b[3]);
    assert(be_value(b.take(5)) == be_value(b.take(4)) * 256 + b[4]);
    assert(be_value(b.take(6)) == be_value(b.take(5)) * 256 + b[5]);
    assert(be_value(b.take(7)) == be_value(b.take(6)) * 256 + b[6]);
    assert(be_value(b) == be_value(b.take(7)) * 256 + b[7]);
}

/// Bytes are determined by their number and the number they stand for.
pub proof fn same_number_same_bytes(a: Seq<u8>, b: Seq<u8>)
    requires
        a.len() == b.len(),
        be_value(a) == be_value(b),
    ensures
        a == b,
    decreases a.len(),
{
    if a.len() > 0 {
        assert(be_value(a) % 256 == a.last());
        assert(be_value(b) % 256 == b.last());
        same_number_same_bytes(a.drop_last(), b.drop_last());
        assert(a =~= a.drop_last().push(a.last()));
        assert(b =~= b.drop_last().push(b.last()));
    } else {
        assert(a =~= b);
    }
}

/// Different counters have different bytes.
pub proof fn different_counters_have_different_bytes(m: nat, n: nat)
    requires
        m < 0x1_0000_0000_0000_0000,
        n < 0x1_0000_0000_0000_0000,
        m != n,
    ensures
        be_bytes(m) != be_bytes(n),
{
    counter_bytes_are_the_counter(m);
    counter_bytes_are_the_counter(n);
}

/// The tag that the algorithm gives a message under a secret.
pub open spec fn tag_under(a: Algorithm, secret: Seq<u8>, message: Seq<u8>) -> Seq<u8> {
    match a {
        Algorithm::Sha1 => hmac_sha1_of(secret, message),
        Algorithm::Sha256 => hmac_sha256_of(secret, message),
        Algorithm::Sha512 => hmac_sha512_of(secret, message),
    }
}

proof fn truncation_takes_thirty_one_bits(tag: Seq<u8>)
    requires
        tag.len() >= 19,
    ensures
        ({
            let at = (tag.last() % 16) as int;
            truncated(tag) == be_value(tag.subrange(at, at + 4)) as int % 0x8000_0000
        }),
{
    let at = (tag.last() % 16) as int;
    let b = tag.subrange(at, at + 4);
    assert(b.drop_last() =~= b.take(3));
    assert(b.take(3).drop_last() =~= b.take(2));
    assert(b.take(2).drop_last() =~= b.take(1));
    assert(b.take(1).drop_last() =~= Seq::empty());
    assert(be_value(Seq::<u8>::empty()) == 0);
    assert(be_value(b.take(1)) == b[0]);
    assert(be_value(b.take(2)) == b[0] * 0x100 + b[1]);
    assert(be_value(b.take(3)) == b[0] * 0x1_0000 + b[1] * 0x100 + b[2]);
    assert(be_value(b) == b[0] * 0x100_0000 + b[1] * 0x1_0000 + b[2] * 0x100 + b[3]);
    let low = (b[0] % 128) * 0x100_0000 + b[1] * 0x1_0000 + b[2] * 0x100 + b[3];
    let high = (b[0] / 128) as int;
    assert(b[0] == 128 * high + b[0] % 128);
    assert(be_value(b) == 0x8000_0000 * high + low);
    assert(0 <= low < 0x8000_0000);
    assert(be_value(b) as int % 0x8000_0000 == low);
}

/// A code is taken from the tag of the counter, which is how many periods have
/// passed: of the tag's four bytes at the place that its last four bits name,
/// the lower 31 bits, and of these as many decimal digits as asked for.
pub proof fn code_comes_from_the_tag_of_the_counter(
    p: TotpView,
    t: nat,
    counter: nat,
    message: Seq<u8>,
)
    requires
        p.period > 0,
        p.digits >= 1,
        counter * p.period <= t < (counter + 1) * p.period,
        message.len() == 8,
        be_value(message) == counter,
        counter < 0x1_0000_0000_0000_0000,
        tag_under(p.algorithm, p.secret, message).len() >= 20,
    ensures
        ({
            let tag = tag_under(p.algorithm, p.secret, message);
            let at = (tag.last() % 16) as int;
            &&& code_at(p, t).len() == p.digits
            &&& crate::text::all_digits(code_at(p, t))
            &&& crate::text::digits_value(code_at(p, t)) as int == (be_value(
                tag.subrange(at, at + 4),
            ) as int % 0x8000_0000) % pow(10, p.digits)
        }),
{
    let tag = tag_under(p.algorithm, p.secret, message);
    assert(t / p.period == counter) by {
        let gone = counter * p.period;
        assert((counter + 1) * p.period == gone + p.period) by (nonlinear_arith)
            requires
                gone == counter * p.period,
        ;
        lemma_fundamental_div_mod_converse(
            t as int,
            p.period as int,
            counter as int,
            t - gone,
        );
    }
    counter_bytes_are_the_counter(counter);
    same_number_same_bytes(message, be_bytes(counter));
    code_is_digits(p, t);
    truncation_takes_thirty_one_bits(tag);
    let m = pow(10, p.digits);
    vstd::arithmetic::power::lemma_pow_positive(10, p.digits);
    lemma_mod_bound(truncated(tag), m);
    let n = (truncated(tag) % m) as nat;
    crate::text::decimal_is_worth_the_number(n);
    crate::text::padding_keeps_the_value(decimal(n), p.digits);
}

/// The letters and the digits from 2 to 7 stand for the numbers below 32, in
/// this order and in either case; nothing else stands for one.
pub proof fn alphabet_is_in_order(c: char)
    ensures
        'A' <= c <= 'Z' ==> symbol_value(c) == Some(c as int - 'A' as int),
        'a' <= c <= 'z' ==> symbol_value(c) == Some(c as int - 'a' as int),
        '2' <= c <= '7' ==> symbol_value(c) == Some(c as int - '2' as int + 26),
        !('A' <= c <= 'Z') && !('a' <= c <= 'z') && !('2' <= c <= '7') ==> symbol_value(c) is None,
{
}

/// The number that symbols stand for, each worth 32 times the next.
pub proof fn symbols_are_read_from_the_left(syms: Seq<char>, c: char)
    requires
        symbol_value(c) is Some,
    ensures
        stream(Seq::empty()) == 0,
        stream(syms.push(c)) == 32 * stream(syms) + symbol_value(c)->Some_0,
{
    assert(syms.push(c).drop_last() =~= syms);
}

proof fn stream_is_not_negative(syms: Seq<char>)
    requires
        in_alphabet(syms),
    ensures
        0 <= stream(syms) < pow2(5 * syms.len()),
    decreases syms.len(),
{
    if syms.len() > 0 {
        let front = syms.drop_last();
        assert forall|i: int| 0 <= i < front.len() implies symbol_value(
            #[trigger] front[i],
        ) is Some by {
            assert(front[i] == syms[i]);
        }
        stream_is_not_negative(front);
        assert(symbol_value(syms[syms.len() - 1]) is Some);
        lemma2_to64();
        lemma_pow2_adds(5, 5 * front.len());
        assert(5 + 5 * front.len() == 5 * syms.len());
    } else {
        lemma2_to64();
    }
}

proof fn decoded_prefix(syms: Seq<char>, out: Seq<u8>, k: int)
    requires
        in_alphabet(syms),
        0 <= k <= out.len(),
        out.len() == syms.len() * 5 / 8,
        forall|i: int|
            0 <= i < out.len() ==> #[trigger] out[i] == stream_byte(
                stream(syms),
                syms.len() as int,
                i,
            ),
    ensures
        be_value(out.take(k)) == stream(syms) / (pow2((5 * syms.len() - 8 * k) as nat) as int),
    decreases k,
{
    stream_is_not_negative(syms);
    let v = stream(syms);
    if k == 0 {
        assert(out.take(0) =~= Seq::empty());
        lemma_pow2_pos(5 * syms.len());
        vstd::arithmetic::div_mod::lemma_basic_div(v, pow2(5 * syms.len()) as int);
    } else {
        decoded_prefix(syms, out, k - 1);
        assert(out.take(k).drop_last() =~= out.take(k - 1));
        assert(out.take(k).last() == out[k - 1]);
        let low = (5 * syms.len() - 8 * k) as nat;
        lemma2_to64();
        lemma_pow2_adds(low, 8);
        lemma_pow2_pos(low);
        let q = v / (pow2(low) as int);
        lemma_div_denominator(v, pow2(low) as int, 256);
        assert(low + 8 == 5 * syms.len() - 8 * (k - 1));
        vstd::arithmetic::div_mod::lemma_div_pos_is_pos(v, pow2(low) as int);
        lemma_fundamental_div_mod(q, 256);
        assert(out[k - 1] as int == q % 256);
    }
}

/// A secret in base32 stands for the bytes whose bits its symbols are, five to a
/// symbol and in order; bits short of a byte at the end are dropped. Padding and
/// white space do not count.
pub proof fn base32_keeps_every_whole_byte(s: Seq<char>)
    requires
        in_alphabet(symbols(s)),
        symbols(s).len() >= 2,
    ensures
        base32_decoded(s) matches Ok(b) && b.len() == symbols(s).len() * 5 / 8 && be_value(b)
            == stream(symbols(s)) / (pow2(
            (symbols(s).len() * 5 - 8 * b.len()) as nat,
        ) as int),
{
    let syms = symbols(s);
    let out = base32_decoded(s)->Ok_0;
    decoded_prefix(syms, out, out.len() as int);
    assert(out.take(out.len() as int) =~= out);
}

/// All characters of a secret but padding and white space count, one that is
/// not in the alphabet has the secret refused, and so has too short a secret.
pub proof fn only_padding_and_space_are_passed_over(a: Seq<char>, c: char)
    ensures
        symbols(a.push(c)) == (if c == '=' || is_space(c) {
            symbols(a)
        } else {
            symbols(a).push(c)
        }),
        c != '=' && !is_space(c) && symbol_value(c) is None ==> base32_decoded(a.push(c)) is Err,
        symbols(a).len() < 2 ==> base32_decoded(a) is Err,
{
    let s = a.push(c);
    symbols_step(s, a.len() as int);
    assert(s.take(a.len() as int) =~= a);
    assert(s.take(s.len() as int) =~= s);
    if c != '=' && !is_space(c) {
        let x = symbols(s);
        assert(x[x.len() - 1] == c);
    }
}

/// A bare secret gives codes of six digits that hold for thirty seconds, with
/// HMAC-SHA-1.
pub proof fn bare_secret_has_the_usual_parameters(s: Seq<char>)
    requires
        !has_prefix(trim(s), "otpauth://"@),
    ensures
        totp_params(s) == (match base32_decoded(trim(s)) {
            Ok(secret) => Ok::<TotpView, Error>(
                TotpView { secret, algorithm: Algorithm::Sha1, digits: 6, period: 30 },
            ),
            Err(e) => Err::<TotpView, Error>(e),
        }),
{
}

proof fn pair_is_split(key: Seq<char>, value: Seq<char>)
    requires
        forall|k: int| 0 <= k < key.len() ==> key[k] != '=',
    ensures
        split_once(key + seq!['='] + value, '=') == Some((key, value)),
{
    crate::text::split_once_is(key, '=', value);
    assert(key + seq!['='] + value =~= key.push('=') + value);
}

/// Each parameter of a URI is taken from the pair with its name, whatever the
/// case of the name: the secret, the algorithm, the digits and the period. A
/// pair with another name changes nothing.
pub proof fn pair_sets_its_own_parameter(q: QueryView, key: Seq<char>, value: Seq<char>)
    requires
        forall|k: int| 0 <= k < key.len() ==> key[k] != '=',
    ensures
        ({
            let next = after_pair(q, key + seq!['='] + value);
            let name = ascii_lower_text(key);
            &&& name == "secret"@ ==> (match base32_decoded(value) {
                Ok(b) => next == Ok::<QueryView, Error>(QueryView { secret: Some(b), ..q }),
                Err(e) => next == Err::<QueryView, Error>(e),
            })
            &&& name == "digits"@ ==> (match parse_uint(value, u32::MAX as nat) {
                Some(n) => next == Ok::<QueryView, Error>(QueryView { digits: n, ..q }),
                None => next == Err::<QueryView, Error>(Error::Totp("invalid digits")),
            })
            &&& name == "period"@ ==> (match parse_uint(value, u64::MAX as nat) {
                Some(n) => next == Ok::<QueryView, Error>(QueryView { period: n, ..q }),
                None => next == Err::<QueryView, Error>(Error::Totp("invalid period")),
            })
            &&& name == "algorithm"@ ==> {
                let wanted = ascii_upper_text(trim(value));
                &&& wanted == "SHA1"@ ==> next == Ok::<QueryView, Error>(
                    QueryView { algorithm: Algorithm::Sha1, ..q },
                )
                &&& wanted == "SHA256"@ ==> next == Ok::<QueryView, Error>(
                    QueryView { algorithm: Algorithm::Sha256, ..q },
                )
                &&& wanted == "SHA512"@ ==> next == Ok::<QueryView, Error>(
                    QueryView { algorithm: Algorithm::Sha512, ..q },
                )
                &&& wanted != "SHA1"@ && wanted != "SHA256"@ && wanted != "SHA512"@ ==> next
                    is Err
            }
            &&& name != "secret"@ && name != "digits"@ && name != "period"@ && name
                != "algorithm"@ ==> next == Ok::<QueryView, Error>(q)
        }),
{
    pair_is_split(key, value);
    reveal_strlit("secret");
    reveal_strlit("digits");
    reveal_strlit("period");
    reveal_strlit("algorithm");
    reveal_strlit("SHA1");
    reveal_strlit("SHA256");
    reveal_strlit("SHA512");
    assert("secret"@[0] != "digits"@[0] && "secret"@[0] != "period"@[0]);
    assert("secret"@[0] != "algorithm"@[0] && "digits"@[0] != "period"@[0]);
    assert("digits"@[0] != "algorithm"@[0] && "period"@[0] != "algorithm"@[0]);
    assert("SHA256"@[3] != "SHA512"@[3]);
}

/// The pairs of a URI's query are taken from left to right, from the usual
/// parameters on, and the first faulty one decides.
pub proof fn pairs_are_taken_in_turn(pairs: Seq<Seq<char>>, pair: Seq<char>)
    ensures
        after_pairs(Seq::empty()) == Ok::<QueryView, Error>(
            QueryView { secret: None, algorithm: Algorithm::Sha1, digits: 6, period: 30 },
        ),
        after_pairs(pairs.push(pair)) == (match after_pairs(pairs) {
            Ok(q) => after_pair(q, pair),
            Err(e) => Err::<QueryView, Error>(e),
        }),
{
    assert(pairs.push(pair).drop_last() =~= pairs);
}

/// A URI gives what the pairs behind its `?` say, with one to nine digits and a
/// period of a second or more; one without a secret is refused, and so is one
/// of another kind than `totp`.
pub proof fn uri_gives_what_its_query_says(label: Seq<char>, query: Seq<char>, q: QueryView)
    requires
        forall|k: int| 0 <= k < label.len() ==> label[k] != '?',
        after_pairs(split_all(query, '&')) == Ok::<QueryView, Error>(q),
        trim("otpauth://totp/"@ + label + seq!['?'] + query) == "otpauth://totp/"@ + label + seq![
            '?',
        ] + query,
    ensures
        totp_params("otpauth://totp/"@ + label + seq!['?'] + query) == (match q.secret {
            None => Err::<TotpView, Error>(Error::Totp("otpauth URI has no secret")),
            Some(secret) => Ok::<TotpView, Error>(
                TotpView {
                    secret,
                    algorithm: q.algorithm,
                    digits: if q.digits == 0 {
                        1
                    } else if q.digits >= 9 {
                        9
                    } else {
                        q.digits
                    },
                    period: if q.period == 0 { 1 } else { q.period },
                },
            ),
        }),
{
    let s = "otpauth://totp/"@ + label + seq!['?'] + query;
    let rest = label + seq!['?'] + query;
    reveal_strlit("otpauth://totp/");
    reveal_strlit("otpauth://");
    reveal_strlit("totp/");
    assert(s.take(10) =~= "otpauth://"@);
    assert(s.skip(10).take(5) =~= "totp/"@);
    assert(s.skip(10).skip(5) =~= rest);
    crate::text::split_once_is(label, '?', query);
    assert(rest =~= label.push('?') + query);
}

/// A code is given at every reading of the clock from the Unix epoch on, for the
/// parameters that the secret stands for.
pub proof fn code_is_given_for_the_secret(secret_or_uri: Seq<char>, p: TotpView, unix: u64)
    requires
        totp_params(secret_or_uri) == Ok::<TotpView, Error>(p),
    ensures
        totp_now(secret_or_uri, Some(unix)) == Ok::<Seq<char>, Error>(code_at(p, unix as nat)),
        totp_now(secret_or_uri, None) is Err,
{
}

} // verus!
