//! Generators for passwords and passphrases.
//!
//! Indices are drawn from the operating system's randomness by rejection
//! sampling, so that no index is likelier than another.
use vstd::prelude::*;
use vstd::arithmetic::div_mod::*;
use vstd::seq_lib::{to_multiset_contains, to_multiset_update};
use vstd::string::*;
use crate::crypto::random_bytes;
use crate::text::{
    ascii_upper, chars_of, digit_char, join, join_texts, string_of, texts, upper_char,
};
use crate::vault_core::error::{Error, Result};

verus! {

/// Lowercase letters.
pub const LOWER: &'static str = "abcdefghijklmnopqrstuvwxyz";

/// Uppercase letters.
pub const UPPER: &'static str = "ABCDEFGHIJKLMNOPQRSTUVWXYZ";

/// Digits.
pub const DIGITS: &'static str = "0123456789";

/// Symbols.
pub const SYMBOLS: &'static str = "!@#$%^&*";

/// Fewest words of a passphrase.
pub const PASSPHRASE_MIN_WORDS: usize = 3;

/// Most words of a passphrase.
pub const PASSPHRASE_MAX_WORDS: usize = 20;

/// What a generated password is made of.
#[derive(Clone, Copy, Debug, PartialEq, Eq, Structural)]
pub struct GenerateOptions {
    /// Number of characters.
    pub length: usize,
    /// Use lowercase letters.
    pub lowercase: bool,
    /// Use uppercase letters.
    pub uppercase: bool,
    /// Use digits.
    pub digits: bool,
    /// Use symbols.
    pub symbols: bool,
}

impl Default for GenerateOptions {
    fn default() -> (r: Self)
        ensures
            r == (GenerateOptions {
                length: 20,
                lowercase: true,
                uppercase: true,
                digits: true,
                symbols: false,
            }),
    {
        GenerateOptions {
            length: 20,
            lowercase: true,
            uppercase: true,
            digits: true,
            symbols: false,
        }
    }
}

/// What a generated passphrase is made of.
#[derive(Clone, Debug, PartialEq, Eq)]
pub struct PassphraseOptions {
    /// Number of words.
    pub words: usize,
    /// Text between words.
    pub separator: String,
    /// Begin each word with a capital.
    pub capitalize: bool,
    /// Put a digit behind one of the words.
    pub include_number: bool,
}

impl Default for PassphraseOptions {
    fn default() -> (r: Self)
        ensures
            r.words == 3,
            r.separator@ == "-"@,
            !r.capitalize,
            !r.include_number,
    {
        PassphraseOptions {
            words: PASSPHRASE_MIN_WORDS,
            separator: "-".to_owned(),
            capitalize: false,
            include_number: false,
        }
    }
}

/// `pool` where it is in use, nothing where it is not.
pub open spec fn pool_if(on: bool, pool: Seq<char>) -> Seq<Seq<char>> {
    if on {
        seq![pool]
    } else {
        Seq::empty()
    }
}

/// The character classes in use.
pub open spec fn classes(o: GenerateOptions) -> Seq<Seq<char>> {
    pool_if(o.lowercase, LOWER@) + pool_if(o.uppercase, UPPER@) + pool_if(o.digits, DIGITS@)
        + pool_if(o.symbols, SYMBOLS@)
}

/// The characters of all pools, one pool after the other.
pub open spec fn all_of(pools: Seq<Seq<char>>) -> Seq<char>
    decreases pools.len(),
{
    if pools.len() == 0 {
        Seq::empty()
    } else {
        all_of(pools.drop_last()) + pools.last()
    }
}

/// Why no password can be made as asked, if none can.
pub open spec fn generate_fault(o: GenerateOptions) -> Option<Error> {
    if o.length == 0 {
        Some(Error::Generate("length must be greater than zero"))
    } else if classes(o).len() == 0 {
        Some(Error::Generate("at least one character class must be enabled"))
    } else if o.length < classes(o).len() {
        Some(
            Error::Generate("length must be at least the number of enabled character classes"),
        )
    } else {
        None
    }
}

/// The pool that position `i` is drawn from: a class of its own for each of
/// the first positions, the union of the classes for the others.
pub open spec fn pool_at(o: GenerateOptions, i: int) -> Seq<char> {
    if i < classes(o).len() {
        classes(o)[i]
    } else {
        all_of(classes(o))
    }
}

/// One index for each position, each within its pool.
pub open spec fn valid_picks(o: GenerateOptions, picks: Seq<usize>) -> bool {
    &&& picks.len() == o.length
    &&& forall|i: int|
        0 <= i < picks.len() ==> (#[trigger] picks[i]) < pool_at(o, i).len()
}

/// The characters drawn, before they are shuffled.
pub open spec fn drawn(o: GenerateOptions, picks: Seq<usize>) -> Seq<char> {
    Seq::new(picks.len(), |i: int| pool_at(o, i)[picks[i] as int])
}

/// One partner for each position from the last down to the second, none of
/// them behind it.
pub open spec fn valid_swaps(len: int, swaps: Seq<usize>) -> bool {
    &&& swaps.len() == len - 1
    &&& forall|k: int| 0 <= k < swaps.len() ==> (#[trigger] swaps[k]) <= len - 1 - k
}

/// `s` with two positions exchanged.
pub open spec fn swapped(s: Seq<char>, i: int, j: int) -> Seq<char> {
    s.update(i, s[j]).update(j, s[i])
}

/// `s` after the first `k` exchanges of a shuffle.
pub open spec fn shuffled(s: Seq<char>, swaps: Seq<usize>, k: nat) -> Seq<char>
    decreases k,
{
    if k == 0 {
        s
    } else {
        swapped(shuffled(s, swaps, (k - 1) as nat), s.len() - k, swaps[k - 1] as int)
    }
}

/// The password that the draws `picks` and `swaps` make.
pub open spec fn password_of(o: GenerateOptions, picks: Seq<usize>, swaps: Seq<usize>) -> Seq<
    char,
> {
    shuffled(drawn(o, picks), swaps, swaps.len())
}

/// `p` is as long as asked, uses the enabled classes alone, and uses each.
pub open spec fn meets_options(o: GenerateOptions, p: Seq<char>) -> bool {
    &&& p.len() == o.length
    &&& forall|i: int| 0 <= i < p.len() ==> all_of(classes(o)).contains(#[trigger] p[i])
    &&& forall|c: int| 0 <= c < classes(o).len() ==> draws_on(p, #[trigger] classes(o)[c])
}

/// Some character of `p` is in `pool`.
pub open spec fn draws_on(p: Seq<char>, pool: Seq<char>) -> bool {
    exists|i: int| 0 <= i < p.len() && pool.contains(#[trigger] p[i])
}

proof fn swap_keeps_characters(s: Seq<char>, i: int, j: int)
    requires
        0 <= i < s.len(),
        0 <= j < s.len(),
    ensures
        swapped(s, i, j).len() == s.len(),
        swapped(s, i, j).to_multiset() == s.to_multiset(),
{
    broadcast use vstd::seq_lib::group_to_multiset_ensures;

    let m = s.update(i, s[j]);
    to_multiset_update(s, i, s[j]);
    to_multiset_update(m, j, s[i]);
    assert(m[j] == s[j]);
    assert(s.contains(s[i]) && s.contains(s[j]));
    assert(swapped(s, i, j).to_multiset() =~= s.to_multiset());
}

/// Shuffling rearranges: it neither adds nor loses a character.
pub proof fn shuffle_keeps_characters(s: Seq<char>, swaps: Seq<usize>, k: nat)
    requires
        valid_swaps(s.len() as int, swaps),
        k <= swaps.len(),
    ensures
        shuffled(s, swaps, k).len() == s.len(),
        shuffled(s, swaps, k).to_multiset() == s.to_multiset(),
    decreases k,
{
    if k > 0 {
        shuffle_keeps_characters(s, swaps, (k - 1) as nat);
        assert(swaps[k - 1] <= s.len() - k);
        swap_keeps_characters(
            shuffled(s, swaps, (k - 1) as nat),
            s.len() - k,
            swaps[k - 1] as int,
        );
    }
}

proof fn union_contains(pools: Seq<Seq<char>>, c: int, ch: char)
    requires
        0 <= c < pools.len(),
        pools[c].contains(ch),
    ensures
        all_of(pools).contains(ch),
    decreases pools.len(),
{
    let front = all_of(pools.drop_last());
    let last = pools.last();
    if c == pools.len() - 1 {
        let k = choose|k: int| 0 <= k < last.len() && last[k] == ch;
        assert((front + last)[front.len() + k] == ch);
    } else {
        assert(pools.drop_last()[c] == pools[c]);
        union_contains(pools.drop_last(), c, ch);
        let k = choose|k: int| 0 <= k < front.len() && front[k] == ch;
        assert((front + last)[k] == ch);
    }
}

/// Whatever is drawn, the password is as long as asked, uses the enabled
/// classes alone, and uses each of them.
pub proof fn password_meets_options(o: GenerateOptions, picks: Seq<usize>, swaps: Seq<usize>)
    requires
        generate_fault(o) is None,
        valid_picks(o, picks),
        valid_swaps(o.length as int, swaps),
    ensures
        meets_options(o, password_of(o, picks, swaps)),
{
    let s = drawn(o, picks);
    let p = password_of(o, picks, swaps);
    shuffle_keeps_characters(s, swaps, swaps.len());
    assert forall|c: char| s.contains(c) <==> p.contains(c) by {
        to_multiset_contains(s, c);
        to_multiset_contains(p, c);
    }
    assert forall|i: int| 0 <= i < s.len() implies all_of(classes(o)).contains(#[trigger] s[i]) by {
        assert(picks[i] < pool_at(o, i).len());
        assert(pool_at(o, i).contains(s[i]));
        if i < classes(o).len() {
            union_contains(classes(o), i, s[i]);
        }
    }
    assert forall|i: int| 0 <= i < p.len() implies all_of(classes(o)).contains(#[trigger] p[i]) by {
        assert(p.contains(p[i]));
        let k = choose|k: int| 0 <= k < s.len() && s[k] == p[i];
        assert(all_of(classes(o)).contains(s[k]));
    }
    assert forall|c: int| 0 <= c < classes(o).len() implies draws_on(
        p,
        #[trigger] classes(o)[c],
    ) by {
        assert(picks[c] < pool_at(o, c).len());
        assert(classes(o)[c].contains(s[c]));
        assert(s.contains(s[c]));
        let i = choose|i: int| 0 <= i < p.len() && p[i] == s[c];
        assert(classes(o)[c].contains(p[i]));
    }
}

/// How many of the 2^64 possible draws are in excess of a multiple of `n`.
pub open spec fn excess(n: nat) -> int {
    0x1_0000_0000_0000_0000int % (n as int)
}

/// The index that a draw stands for, unless the draw is in excess.
pub open spec fn sampled(v: u64, n: nat) -> Option<int> {
    if v < 0x1_0000_0000_0000_0000int - excess(n) {
        Some(v as int % n as int)
    } else {
        None
    }
}

/// No index is likelier than another: the draws that count are a multiple of
/// the number of indices, and each index comes up once in every run of that
/// many.
pub proof fn sampling_is_uniform(n: nat)
    requires
        n > 0,
    ensures
        (0x1_0000_0000_0000_0000int - excess(n)) % (n as int) == 0,
        excess(n) < n,
        forall|q: int, i: int|
            0 <= i < n && 0 <= q ==> #[trigger] ((q * n + i) % (n as int)) == i,
{
    let all = 0x1_0000_0000_0000_0000int;
    lemma_sub_mod_noop(all, all % (n as int), n as int);
    lemma_mod_twice(all, n as int);
    lemma_small_mod(0, n);
    lemma_mod_bound(all, n as int);
    assert forall|q: int, i: int| 0 <= i < n && 0 <= q implies #[trigger] ((q * n + i) % (n as int))
        == i by {
        lemma_fundamental_div_mod_converse(q * n + i, n as int, q, i);
    }
}

/// The index below `n` that a draw stands for, unless the draw is in excess.
pub fn accept_sample(v: u64, n: usize) -> (r: Option<usize>)
    requires
        n > 0,
    ensures
        r is Some <==> sampled(v, n as nat) is Some,
        r matches Some(i) ==> sampled(v, n as nat) == Some(i as int) && i < n,
{
    let n64: u64 = n as u64;
    let reject_zone: u64 = (u64::MAX % n64 + 1) % n64;
    proof {
        lemma_mod_bound(u64::MAX as int, n64 as int);
        lemma_add_mod_noop(u64::MAX as int, 1, n64 as int);
        lemma_add_mod_noop(u64::MAX as int % n64 as int, 1, n64 as int);
        lemma_mod_twice(u64::MAX as int, n64 as int);
        assert(reject_zone == excess(n as nat));
    }
    if reject_zone == 0 || v <= u64::MAX - reject_zone {
        Some((v % n64) as usize)
    } else {
        None
    }
}

/// The number that bytes stand for, least significant first.
pub open spec fn le_value(b: Seq<u8>) -> nat
    decreases b.len(),
{
    if b.len() == 0 {
        0
    } else {
        b[0] as nat + 0x100 * le_value(b.skip(1))
    }
}

/// The number that eight bytes stand for, least significant first.
pub fn le_number(b: &[u8; 8]) -> (v: u64)
    ensures
        v == le_value(b@),
{
    proof {
        reveal_with_fuel(le_value, 9);
        assert(forall|i: int, j: int|
            0 <= i && 0 <= j && i + j <= 8 ==> #[trigger] b@.skip(i).skip(j) =~= b@.skip(i + j));
        assert(b@.skip(0) =~= b@);
    }
    b[0] as u64 + b[1] as u64 * 0x100 + b[2] as u64 * 0x1_0000 + b[3] as u64 * 0x100_0000
        + b[4] as u64 * 0x1_0000_0000 + b[5] as u64 * 0x100_0000_0000 + b[6] as u64
        * 0x1_0000_0000_0000 + b[7] as u64 * 0x100_0000_0000_0000
}

fn array8(bytes: &Vec<u8>) -> (out: [u8; 8])
    requires
        bytes@.len() == 8,
    ensures
        out@ == bytes@,
{
    let out: [u8; 8] = [
        bytes[0],
        bytes[1],
        bytes[2],
        bytes[3],
        bytes[4],
        bytes[5],
        bytes[6],
        bytes[7],
    ];
    assert(out@ =~= bytes@);
    out
}

/// Draws an index below `n`. Fails only where the operating system has no
/// randomness to give, or where 2^64 - 1 draws in a row were in excess.
pub fn sample_index(n: usize) -> (r: Result<usize>)
    requires
        n > 0,
    ensures
        r matches Ok(i) ==> i < n && exists|v: u64| #[trigger] sampled(v, n as nat) == Some(i as int),
        r matches Err(e) ==> e == Error::Generate("getrandom failed"),
{
    let mut tries: u64 = u64::MAX;
    while tries > 0
        invariant
            n > 0,
        decreases tries,
    {
        let bytes: Vec<u8> = match random_bytes(8) {
            Some(b) => b,
            None => return Err(Error::Generate("getrandom failed")),
        };
        let draw: u64 = le_number(&array8(&bytes));
        if let Some(i) = accept_sample(draw, n) {
            assert(sampled(draw, n as nat) == Some(i as int));
            return Ok(i);
        }
        tries = tries - 1;
    }
    Err(Error::Generate("getrandom failed"))
}

fn pool_chars(o: &GenerateOptions) -> (out: Vec<Vec<char>>)
    ensures
        out@.map_values(|p: Vec<char>| p@) == classes(*o),
        forall|i: int| 0 <= i < out@.len() ==> (#[trigger] out@[i])@.len() > 0,
        out@.len() <= 4,
{
    proof {
        reveal_strlit("abcdefghijklmnopqrstuvwxyz");
        reveal_strlit("ABCDEFGHIJKLMNOPQRSTUVWXYZ");
        reveal_strlit("0123456789");
        reveal_strlit("!@#$%^&*");
    }
    let mut out: Vec<Vec<char>> = Vec::new();
    if o.lowercase {
        out.push(chars_of(LOWER));
    }
    if o.uppercase {
        out.push(chars_of(UPPER));
    }
    if o.digits {
        out.push(chars_of(DIGITS));
    }
    if o.symbols {
        out.push(chars_of(SYMBOLS));
    }
    assert(out@.map_values(|p: Vec<char>| p@) =~= classes(*o));
    out
}

fn union_chars(pools: &Vec<Vec<char>>) -> (out: Vec<char>)
    ensures
        out@ == all_of(pools@.map_values(|p: Vec<char>| p@)),
{
    let ghost all = pools@.map_values(|p: Vec<char>| p@);
    let mut out: Vec<char> = Vec::new();
    let mut i: usize = 0;
    while i < pools.len()
        invariant
            i <= pools.len(),
            all == pools@.map_values(|p: Vec<char>| p@),
            out@ == all_of(all.take(i as int)),
        decreases pools.len() - i,
    {
        assert(all.take(i + 1).drop_last() =~= all.take(i as int));
        out.extend_from_slice(pools[i].as_slice());
        assert(out@ =~= all_of(all.take(i + 1)));
        i += 1;
    }
    assert(all.take(all.len() as int) =~= all);
    out
}

/// Why no password can be made as asked, if none can.
pub fn check_options(o: &GenerateOptions) -> (r: Result<()>)
    ensures
        r is Ok <==> generate_fault(*o) is None,
        r matches Err(e) ==> generate_fault(*o) == Some(e),
{
    if o.length == 0 {
        return Err(Error::Generate("length must be greater than zero"));
    }
    let pools: Vec<Vec<char>> = pool_chars(o);
    assert(pools@.len() == classes(*o).len());
    if pools.len() == 0 {
        return Err(Error::Generate("at least one character class must be enabled"));
    }
    if o.length < pools.len() {
        return Err(
            Error::Generate("length must be at least the number of enabled character classes"),
        );
    }
    Ok(())
}

/// The password that the draws `picks` and `swaps` make.
pub fn compose_password(o: &GenerateOptions, picks: &Vec<usize>, swaps: &Vec<usize>) -> (out:
    String)
    requires
        generate_fault(*o) is None,
        valid_picks(*o, picks@),
        valid_swaps(o.length as int, swaps@),
    ensures
        out@ == password_of(*o, picks@, swaps@),
{
    let pools: Vec<Vec<char>> = pool_chars(o);
    let union: Vec<char> = union_chars(&pools);
    let ghost all = classes(*o);
    let mut out: Vec<char> = Vec::new();
    let mut i: usize = 0;
    while i < o.length
        invariant
            i <= o.length,
            all == classes(*o),
            pools@.map_values(|p: Vec<char>| p@) == all,
            union@ == all_of(all),
            valid_picks(*o, picks@),
            out@ =~= drawn(*o, picks@).take(i as int),
        decreases o.length - i,
    {
        let pick: usize = picks[i];
        assert(picks@[i as int] < pool_at(*o, i as int).len());
        if i < pools.len() {
            assert(pools@[i as int]@ == all[i as int]);
            out.push(pools[i][pick]);
        } else {
            out.push(union[pick]);
        }
        i += 1;
    }
    let ghost start = drawn(*o, picks@);
    assert(start.take(start.len() as int) =~= start);
    let mut k: usize = 0;
    while k < swaps.len()
        invariant
            k <= swaps.len(),
            start == drawn(*o, picks@),
            start.len() == o.length,
            out@.len() == start.len(),
            valid_swaps(o.length as int, swaps@),
            out@ == shuffled(start, swaps@, k as nat),
        decreases swaps.len() - k,
    {
        let at: usize = o.length - 1 - k;
        assert(swaps@[k as int] <= o.length - 1 - k);
        let with: usize = swaps[k];
        let a: char = out[at];
        let b: char = out[with];
        out[at] = b;
        out[with] = a;
        k += 1;
        assert(out@ =~= shuffled(start, swaps@, k as nat));
    }
    string_of(out.as_slice())
}

/// Generates a password. Whatever is drawn, the result is as long as asked,
/// uses the enabled classes alone, and uses each of them; which characters
/// come out is left to chance.
pub fn generate_password(opts: &GenerateOptions) -> (r: Result<String>)
    ensures
        generate_fault(*opts) matches Some(e) ==> r == Err::<String, Error>(e),
        r matches Ok(p) ==> meets_options(*opts, p@) && exists|picks: Seq<usize>, swaps: Seq<usize>|
            valid_picks(*opts, picks) && valid_swaps(opts.length as int, swaps) && p@
                == #[trigger] password_of(*opts, picks, swaps),
        r matches Err(e) ==> generate_fault(*opts) == Some(e) || e == Error::Generate(
            "getrandom failed",
        ),
{
    check_options(opts)?;
    let pools: Vec<Vec<char>> = pool_chars(opts);
    let union: Vec<char> = union_chars(&pools);
    let ghost all = classes(*opts);
    proof {
        assert(pools@[0]@ == all[0]);
        assert(all[0].contains(all[0][0]));
        union_contains(all, 0, all[0][0]);
    }
    let mut picks: Vec<usize> = Vec::new();
    while picks.len() < opts.length
        invariant
            picks@.len() <= opts.length,
            generate_fault(*opts) is None,
            all == classes(*opts),
            pools@.map_values(|p: Vec<char>| p@) == all,
            forall|i: int| 0 <= i < pools@.len() ==> (#[trigger] pools@[i])@.len() > 0,
            union@ == all_of(all),
            union@.len() > 0,
            forall|i: int|
                0 <= i < picks@.len() ==> (#[trigger] picks@[i]) < pool_at(*opts, i).len(),
        decreases opts.length - picks.len(),
    {
        let i: usize = picks.len();
        let size: usize = if i < pools.len() {
            assert(pools@[i as int]@ == all[i as int]);
            pools[i].len()
        } else {
            union.len()
        };
        let pick: usize = sample_index(size)?;
        picks.push(pick);
    }
    let mut swaps: Vec<usize> = Vec::new();
    while swaps.len() < opts.length - 1
        invariant
            opts.length >= 1,
            generate_fault(*opts) is None,
            swaps@.len() <= opts.length - 1,
            forall|k: int|
                0 <= k < swaps@.len() ==> (#[trigger] swaps@[k]) <= opts.length - 1 - k,
        decreases opts.length - swaps.len(),
    {
        let at: usize = opts.length - 1 - swaps.len();
        let with: usize = sample_index(at + 1)?;
        swaps.push(with);
    }
    proof {
        password_meets_options(*opts, picks@, swaps@);
    }
    Ok(compose_password(opts, &picks, &swaps))
}

/// `w` with its first character in upper case, where it is an ASCII letter.
pub open spec fn capitalized(w: Seq<char>) -> Seq<char> {
    if w.len() == 0 {
        w
    } else {
        w.update(0, ascii_upper(w[0]))
    }
}

/// Why no passphrase can be made as asked, if none can.
pub open spec fn passphrase_fault(words: usize) -> Option<Error> {
    if words < PASSPHRASE_MIN_WORDS || words > PASSPHRASE_MAX_WORDS {
        Some(Error::Generate("passphrase word count must be between 3 and 20"))
    } else {
        None
    }
}

/// Word `i` of a passphrase: the one drawn, in capitals where asked, with the
/// digit where it is the one that gets it.
pub open spec fn passphrase_word(
    o: PassphraseOptions,
    list: Seq<String>,
    picks: Seq<usize>,
    number: (usize, usize),
    i: int,
) -> Seq<char> {
    let word = list[picks[i] as int]@;
    let cased = if o.capitalize { capitalized(word) } else { word };
    if o.include_number && i == number.0 {
        cased.push(digit_char(number.1 as int))
    } else {
        cased
    }
}

/// The passphrase that the draws make: which words, which of them gets a
/// digit, and which digit.
pub open spec fn passphrase_of(
    o: PassphraseOptions,
    list: Seq<String>,
    picks: Seq<usize>,
    number: (usize, usize),
) -> Seq<char> {
    join(
        Seq::new(o.words as nat, |i: int| passphrase_word(o, list, picks, number, i)),
        o.separator@,
    )
}

/// Draws that a passphrase can be made of.
pub open spec fn valid_words(
    o: PassphraseOptions,
    list: Seq<String>,
    picks: Seq<usize>,
    number: (usize, usize),
) -> bool {
    &&& picks.len() == o.words
    &&& forall|i: int| 0 <= i < picks.len() ==> (#[trigger] picks[i]) < list.len()
    &&& number.0 < o.words
    &&& number.1 < 10
}

/// `w` with its first character in upper case, where it is an ASCII letter.
pub fn capitalize_first(w: &str) -> (out: String)
    ensures
        out@ == capitalized(w@),
{
    let mut chars: Vec<char> = chars_of(w);
    if chars.len() > 0 {
        let first: char = upper_char(chars[0]);
        chars[0] = first;
    }
    string_of(chars.as_slice())
}

/// The passphrase that the draws make.
pub fn compose_passphrase(
    o: &PassphraseOptions,
    list: &Vec<String>,
    picks: &Vec<usize>,
    number: (usize, usize),
) -> (out: String)
    requires
        valid_words(*o, list@, picks@, number),
    ensures
        out@ == passphrase_of(*o, list@, picks@, number),
{
    let ghost all = Seq::new(
        o.words as nat,
        |i: int| passphrase_word(*o, list@, picks@, number, i),
    );
    let mut words: Vec<String> = Vec::new();
    let mut i: usize = 0;
    while i < o.words
        invariant
            i <= o.words,
            valid_words(*o, list@, picks@, number),
            all == Seq::new(
                o.words as nat,
                |i: int| passphrase_word(*o, list@, picks@, number, i),
            ),
            texts(words@) =~= all.take(i as int),
        decreases o.words - i,
    {
        assert(picks@[i as int] < list@.len());
        let pick: usize = picks[i];
        let mut word: String = if o.capitalize {
            capitalize_first(list[pick].as_str())
        } else {
            list[pick].clone()
        };
        if o.include_number && i == number.0 {
            word.push((48 + number.1 as u8) as char);
        }
        assert(word@ == all[i as int]);
        let ghost before = words@;
        words.push(word);
        assert(texts(words@) =~= texts(before).push(word@));
        assert(all.take(i + 1) =~= all.take(i as int).push(all[i as int]));
        i += 1;
    }
    assert(all.take(all.len() as int) =~= all);
    join_texts(&words, o.separator.as_str())
}

/// Generates a passphrase from the words of `list`. Which words come out is
/// left to chance.
pub fn generate_passphrase(opts: &PassphraseOptions, list: &Vec<String>) -> (r: Result<String>)
    requires
        list@.len() > 0,
    ensures
        passphrase_fault(opts.words) matches Some(e) ==> r == Err::<String, Error>(e),
        r matches Ok(p) ==> exists|picks: Seq<usize>, number: (usize, usize)|
            valid_words(*opts, list@, picks, number) && p@ == #[trigger] passphrase_of(
                *opts,
                list@,
                picks,
                number,
            ),
        r matches Err(e) ==> passphrase_fault(opts.words) == Some(e) || e == Error::Generate(
            "getrandom failed",
        ),
{
    if opts.words < PASSPHRASE_MIN_WORDS || opts.words > PASSPHRASE_MAX_WORDS {
        return Err(Error::Generate("passphrase word count must be between 3 and 20"));
    }
    let mut picks: Vec<usize> = Vec::new();
    while picks.len() < opts.words
        invariant
            list@.len() > 0,
            passphrase_fault(opts.words) is None,
            picks@.len() <= opts.words,
            forall|i: int| 0 <= i < picks@.len() ==> (#[trigger] picks@[i]) < list@.len(),
        decreases opts.words - picks.len(),
    {
        let pick: usize = sample_index(list.len())?;
        picks.push(pick);
    }
    let mut number: (usize, usize) = (0, 0);
    if opts.include_number {
        let target: usize = sample_index(opts.words)?;
        let digit: usize = sample_index(10)?;
        number = (target, digit);
    }
    Ok(compose_passphrase(opts, list, &picks, number))
}

/// A password has the length asked for. Small letters, capitals, digits and
/// symbols are in it where they are asked for, and not where they are not;
/// nothing else is.
pub proof fn password_uses_what_is_asked_for(
    o: GenerateOptions,
    picks: Seq<usize>,
    swaps: Seq<usize>,
)
    requires
        generate_fault(o) is None,
        valid_picks(o, picks),
        valid_swaps(o.length as int, swaps),
    ensures
        ({
            let p = password_of(o, picks, swaps);
            &&& p.len() == o.length
            &&& o.lowercase <==> exists|i: int| 0 <= i < p.len() && 'a' <= #[trigger] p[i] <= 'z'
            &&& o.uppercase <==> exists|i: int| 0 <= i < p.len() && 'A' <= #[trigger] p[i] <= 'Z'
            &&& o.digits <==> exists|i: int| 0 <= i < p.len() && '0' <= #[trigger] p[i] <= '9'
            &&& o.symbols <==> exists|i: int|
                0 <= i < p.len() && "!@#$%^&*"@.contains(#[trigger] p[i])
            &&& forall|i: int|
                0 <= i < p.len() ==> {
                    ||| 'a' <= #[trigger] p[i] <= 'z'
                    ||| 'A' <= p[i] <= 'Z'
                    ||| '0' <= p[i] <= '9'
                    ||| "!@#$%^&*"@.contains(p[i])
                }
        }),
{
    let p = password_of(o, picks, swaps);
    password_meets_options(o, picks, swaps);
    classes_hold_their_characters();
    assert forall|i: int| 0 <= i < p.len() implies {
        ||| o.lowercase && 'a' <= #[trigger] p[i] <= 'z'
        ||| o.uppercase && 'A' <= p[i] <= 'Z'
        ||| o.digits && '0' <= p[i] <= '9'
        ||| o.symbols && "!@#$%^&*"@.contains(p[i])
    } by {
        assert(all_of(classes(o)).contains(p[i]));
        let c = union_comes_from(classes(o), p[i]);
        class_is_enabled(o, c);
    }
    class_has_its_place(o);
    if o.lowercase {
        assert(draws_on(p, "abcdefghijklmnopqrstuvwxyz"@));
        let i = choose|i: int|
            0 <= i < p.len() && "abcdefghijklmnopqrstuvwxyz"@.contains(#[trigger] p[i]);
        assert('a' <= p[i] <= 'z');
    }
    if o.uppercase {
        assert(draws_on(p, "ABCDEFGHIJKLMNOPQRSTUVWXYZ"@));
        let i = choose|i: int|
            0 <= i < p.len() && "ABCDEFGHIJKLMNOPQRSTUVWXYZ"@.contains(#[trigger] p[i]);
        assert('A' <= p[i] <= 'Z');
    }
    if o.digits {
        assert(draws_on(p, "0123456789"@));
        let i = choose|i: int| 0 <= i < p.len() && "0123456789"@.contains(#[trigger] p[i]);
        assert('0' <= p[i] <= '9');
    }
    if o.symbols {
        assert(draws_on(p, "!@#$%^&*"@));
    }
}

/// Behind the first positions, each of which is kept for a class, every
/// character of a class that is asked for can be drawn at every position.
pub proof fn every_character_can_be_drawn(o: GenerateOptions, i: int, ch: char)
    requires
        generate_fault(o) is None,
        classes(o).len() <= i < o.length,
    ensures
        o.lowercase && 'a' <= ch <= 'z' ==> pool_at(o, i).contains(ch),
        o.uppercase && 'A' <= ch <= 'Z' ==> pool_at(o, i).contains(ch),
        o.digits && '0' <= ch <= '9' ==> pool_at(o, i).contains(ch),
        o.symbols && "!@#$%^&*"@.contains(ch) ==> pool_at(o, i).contains(ch),
{
    classes_hold_their_characters();
    class_has_its_place(o);
    if o.lowercase && 'a' <= ch <= 'z' {
        union_contains(classes(o), 0, ch);
    }
    if o.uppercase && 'A' <= ch <= 'Z' {
        union_contains(classes(o), if o.lowercase { 1 } else { 0 }, ch);
    }
    if o.digits && '0' <= ch <= '9' {
        let c: int = (if o.lowercase { 1int } else { 0 }) + (if o.uppercase { 1int } else { 0 });
        union_contains(classes(o), c, ch);
    }
    if o.symbols && "!@#$%^&*"@.contains(ch) {
        union_contains(classes(o), classes(o).len() - 1, ch);
    }
}

/// A password can be made exactly where some class is asked for and there is
/// room for one character of each.
pub proof fn password_is_refused_without_room(o: GenerateOptions)
    ensures
        ({
            let asked = (if o.lowercase { 1int } else { 0 }) + (if o.uppercase { 1int } else { 0 })
                + (if o.digits { 1int } else { 0 }) + (if o.symbols { 1int } else { 0 });
            generate_fault(o) is None <==> 0 < asked <= o.length
        }),
        generate_fault(o) matches Some(e) ==> e is Generate,
{
}

/// What ends up at a position, counted from the end, is what its partner named
/// when its turn came: later exchanges leave it alone.
pub proof fn shuffle_puts_the_partner_there(s: Seq<char>, swaps: Seq<usize>, k: nat, m: nat)
    requires
        valid_swaps(s.len() as int, swaps),
        k < m <= swaps.len(),
    ensures
        shuffled(s, swaps, m)[s.len() - 1 - k] == shuffled(s, swaps, k)[swaps[k as int] as int],
        k == 0 ==> shuffled(s, swaps, m).last() == s[swaps[0] as int],
    decreases m,
{
    shuffle_keeps_characters(s, swaps, m);
    shuffle_keeps_characters(s, swaps, (m - 1) as nat);
    shuffle_keeps_characters(s, swaps, k);
    assert(swaps[m - 1] <= s.len() - m);
    if m > k + 1 {
        shuffle_puts_the_partner_there(s, swaps, k, (m - 1) as nat);
    }
}

/// A draw stands for its remainder. With it count the draws that stand for
/// every other index in the same run, and only draws of the last run, which is
/// not whole, count for nothing.
pub proof fn draw_counts_with_its_run(v: u64, n: nat, j: int)
    requires
        0 < n <= usize::MAX,
        0 <= j < n,
    ensures
        match sampled(v, n) {
            Some(i) => {
                &&& 0 <= i < n
                &&& (v - i) % (n as int) == 0
                &&& 0 <= v - i + j <= u64::MAX
                &&& sampled((v - i + j) as u64, n) == Some(j)
            },
            None => v > u64::MAX - n,
        },
        v < n ==> sampled(v, n) == Some(v as int),
{
    let all = 0x1_0000_0000_0000_0000int;
    let d = n as int;
    lemma_mod_bound(all, d);
    lemma_mod_bound(v as int, d);
    lemma_fundamental_div_mod(all, d);
    lemma_fundamental_div_mod(v as int, d);
    let runs = all / d;
    let q = v as int / d;
    let i = v as int % d;
    assert(runs >= 1) by (nonlinear_arith)
        requires
            all == d * runs + all % d,
            0 <= all % d < d,
            d <= all,
            d > 0,
    ;
    if v < all - excess(n) {
        assert(q < runs) by (nonlinear_arith)
            requires
                d * q + i < d * runs,
                0 <= i,
                d > 0,
        ;
        assert(q >= 0) by (nonlinear_arith)
            requires
                d * q + i >= 0,
                i < d,
                d > 0,
        ;
        assert(d * q >= 0 && d * q + d <= d * runs) by (nonlinear_arith)
            requires
                0 <= q < runs,
                d > 0,
        ;
        assert(q * d == d * q) by (nonlinear_arith);
        lemma_fundamental_div_mod_converse(d * q + j, d, q, j);
        lemma_fundamental_div_mod_converse(d * q, d, q, 0);
    }
    if v < n {
        lemma_small_mod(v as nat, n);
        assert(d * runs >= d) by (nonlinear_arith)
            requires
                runs >= 1,
                d > 0,
        ;
    }
}

/// Each of eight bytes has 256 times the weight of the one before it.
pub proof fn later_bytes_weigh_more(b: Seq<u8>)
    requires
        b.len() == 8,
    ensures
        le_value(b) == b[0] + 0x100 * b[1] + 0x1_0000 * b[2] + 0x100_0000 * b[3]
            + 0x1_0000_0000 * b[4] + 0x100_0000_0000 * b[5] + 0x1_0000_0000_0000 * b[6]
            + 0x100_0000_0000_0000 * b[7],
{
    reveal_with_fuel(le_value, 9);
    assert(forall|i: int, j: int|
        0 <= i && 0 <= j && i + j <= 8 ==> #[trigger] b.skip(i).skip(j) =~= b.skip(i + j));
    assert(b.skip(0) =~= b);
}

/// A passphrase is the one with a word less, the separator and one more word.
pub proof fn passphrase_grows_word_by_word(
    o: PassphraseOptions,
    list: Seq<String>,
    picks: Seq<usize>,
    number: (usize, usize),
)
    requires
        o.words >= 1,
    ensures
        ({
            let fewer = PassphraseOptions { words: (o.words - 1) as usize, ..o };
            let word = passphrase_word(o, list, picks, number, o.words - 1);
            passphrase_of(o, list, picks, number) == if o.words == 1 {
                word
            } else {
                passphrase_of(fewer, list, picks, number) + o.separator@ + word
            }
        }),
{
    let fewer = PassphraseOptions { words: (o.words - 1) as usize, ..o };
    let all = Seq::new(o.words as nat, |i: int| passphrase_word(o, list, picks, number, i));
    let front = Seq::new(
        fewer.words as nat,
        |i: int| passphrase_word(fewer, list, picks, number, i),
    );
    assert(all.drop_last() =~= front);
    assert(all.last() == passphrase_word(o, list, picks, number, o.words - 1));
}

/// A word of a passphrase is the word drawn. Only a first letter that is small
/// is changed, where capitals are asked for, and only the word chosen for it
/// gets a digit, behind it, where one is asked for.
pub proof fn word_is_the_one_drawn(
    o: PassphraseOptions,
    list: Seq<String>,
    picks: Seq<usize>,
    number: (usize, usize),
    i: int,
)
    requires
        valid_words(o, list, picks, number),
        0 <= i < o.words,
    ensures
        ({
            let word = list[picks[i] as int]@;
            let got = passphrase_word(o, list, picks, number, i);
            let numbered = o.include_number && i == number.0;
            &&& got.len() == word.len() + (if numbered { 1int } else { 0 })
            &&& forall|k: int| 0 < k < word.len() ==> #[trigger] got[k] == word[k]
            &&& word.len() > 0 ==> {
                if o.capitalize && 'a' <= word[0] <= 'z' {
                    got[0] as int == word[0] as int - 'a' as int + 'A' as int
                } else {
                    got[0] == word[0]
                }
            }
            &&& numbered ==> got.last() as int == '0' as int + number.1
        }),
{
}

/// A passphrase has three to twenty words.
pub proof fn passphrase_has_three_to_twenty_words(words: usize)
    ensures
        passphrase_fault(words) is None <==> 3 <= words <= 20,
        passphrase_fault(words) matches Some(e) ==> e is Generate,
{
}

proof fn classes_hold_their_characters()
    ensures
        LOWER@ == "abcdefghijklmnopqrstuvwxyz"@,
        UPPER@ == "ABCDEFGHIJKLMNOPQRSTUVWXYZ"@,
        DIGITS@ == "0123456789"@,
        SYMBOLS@ == "!@#$%^&*"@,
        forall|c: char| #[trigger] LOWER@.contains(c) <==> 'a' <= c <= 'z',
        forall|c: char| #[trigger] UPPER@.contains(c) <==> 'A' <= c <= 'Z',
        forall|c: char| #[trigger] DIGITS@.contains(c) <==> '0' <= c <= '9',
        forall|c: char| #[trigger]
            SYMBOLS@.contains(c) ==> !('a' <= c <= 'z') && !('A' <= c <= 'Z') && !('0' <= c <= '9'),
{
    reveal_strlit("abcdefghijklmnopqrstuvwxyz");
    reveal_strlit("ABCDEFGHIJKLMNOPQRSTUVWXYZ");
    reveal_strlit("0123456789");
    reveal_strlit("!@#$%^&*");
    assert forall|c: char| 'a' <= c <= 'z' implies #[trigger] LOWER@.contains(c) by {
        assert(LOWER@[c as int - 'a' as int] == c);
    }
    assert forall|c: char| 'A' <= c <= 'Z' implies #[trigger] UPPER@.contains(c) by {
        assert(UPPER@[c as int - 'A' as int] == c);
    }
    assert forall|c: char| '0' <= c <= '9' implies #[trigger] DIGITS@.contains(c) by {
        assert(DIGITS@[c as int - '0' as int] == c);
    }
}

proof fn union_comes_from(pools: Seq<Seq<char>>, ch: char) -> (c: int)
    requires
        all_of(pools).contains(ch),
    ensures
        0 <= c < pools.len(),
        pools[c].contains(ch),
    decreases pools.len(),
{
    let front = all_of(pools.drop_last());
    let last = pools.last();
    let k = choose|k: int| 0 <= k < all_of(pools).len() && all_of(pools)[k] == ch;
    if k >= front.len() {
        assert(last[k - front.len()] == ch);
        pools.len() - 1
    } else {
        assert(front[k] == ch);
        let c = union_comes_from(pools.drop_last(), ch);
        c
    }
}

proof fn class_is_enabled(o: GenerateOptions, c: int)
    requires
        0 <= c < classes(o).len(),
    ensures
        ({
            let pool = classes(o)[c];
            ||| o.lowercase && pool == LOWER@
            ||| o.uppercase && pool == UPPER@
            ||| o.digits && pool == DIGITS@
            ||| o.symbols && pool == SYMBOLS@
        }),
{
}

proof fn class_has_its_place(o: GenerateOptions)
    ensures
        ({
            let l = if o.lowercase { 1int } else { 0 };
            let u = if o.uppercase { 1int } else { 0 };
            let d = if o.digits { 1int } else { 0 };
            let s = if o.symbols { 1int } else { 0 };
            &&& classes(o).len() == l + u + d + s
            &&& o.lowercase ==> classes(o)[0] == LOWER@
            &&& o.uppercase ==> classes(o)[l] == UPPER@
            &&& o.digits ==> classes(o)[l + u] == DIGITS@
            &&& o.symbols ==> classes(o)[l + u + d] == SYMBOLS@
        }),
{
}

} // verus!
