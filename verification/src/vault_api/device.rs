//! Device identifiers.
use vstd::prelude::*;
use vstd::string::*;
use crate::crypto::{array16, hex_of, random_bytes};

verus! {

/// The usual form of the UUID that a text denotes, if it denotes one.
pub uninterp spec fn uuid_of(s: Seq<char>) -> Option<Seq<char>>;

/// `uuid::Uuid::parse_str`: the UUID that a text denotes, in the hyphenated
/// form that its `to_string` gives, which denotes the same.
#[verifier::external_body]
pub(crate) fn parse_uuid(s: &str) -> (r: Option<String>)
    ensures
        r is Some <==> uuid_of(s@) is Some,
        r is Some ==> uuid_of(s@) == Some(r->Some_0@),
        r is Some ==> uuid_of(r->Some_0@) == Some(r->Some_0@),
{
    uuid::Uuid::parse_str(s).ok().map(|u| u.to_string())
}

/// Drawn bytes as those of a random UUID: the version in the upper half of
/// byte 6, the variant in the two upper bits of byte 8.
pub open spec fn v4_bytes(b: Seq<u8>) -> Seq<u8> {
    b.update(6, (b[6] % 16 + 0x40) as u8).update(8, (b[8] % 64 + 0x80) as u8)
}

/// The bytes of a UUID in hyphenated form.
pub open spec fn hyphenated(b: Seq<u8>) -> Seq<char> {
    hex_of(b.subrange(0, 4)) + "-"@ + hex_of(b.subrange(4, 6)) + "-"@ + hex_of(b.subrange(6, 8))
        + "-"@ + hex_of(b.subrange(8, 10)) + "-"@ + hex_of(b.subrange(10, 16))
}

/// `uuid::Builder::from_random_bytes`: the random UUID made of drawn bytes, in
/// the hyphenated form that its `to_string` gives, which denotes the same.
#[verifier::external_body]
pub(crate) fn uuid_from(bytes: [u8; 16]) -> (r: String)
    ensures
        r@ == hyphenated(v4_bytes(bytes@)),
        uuid_of(r@) == Some(r@),
{
    uuid::Builder::from_random_bytes(bytes).into_uuid().to_string()
}

/// The bytes that were drawn, if any.
pub open spec fn id_bytes(drawn: Option<[u8; 16]>) -> Option<Seq<u8>> {
    match drawn {
        Some(b) => Some(b@),
        None => None,
    }
}

/// A fresh identifier made of drawn bytes, if any were drawn.
pub open spec fn fresh_id(drawn: Option<Seq<u8>>) -> Option<Seq<char>> {
    match drawn {
        Some(b) => Some(hyphenated(v4_bytes(b))),
        None => None,
    }
}

/// A fresh identifier made of drawn bytes, none where none were drawn. It
/// denotes a UUID in its usual form.
pub fn fresh_device(drawn: Option<[u8; 16]>) -> (r: Option<String>)
    ensures
        r.deep_view() == fresh_id(id_bytes(drawn)),
        r matches Some(d) ==> uuid_of(d@) == Some(d@),
{
    match drawn {
        Some(b) => Some(uuid_from(b)),
        None => None,
    }
}

/// Sixteen bytes of the operating system's randomness, where it has some to
/// give.
pub(crate) fn draw_id() -> (r: Option<[u8; 16]>) {
    match random_bytes(16) {
        None => None,
        Some(b) => Some(array16(b.as_slice())),
    }
}

/// The identifier for a session: the UUID that `device_id` denotes, a fresh
/// one where it denotes none.
pub open spec fn device_for(device_id: Option<Seq<char>>, drawn: Option<Seq<u8>>) -> Option<
    Seq<char>,
> {
    match device_id {
        Some(d) => match uuid_of(d) {
            Some(u) => Some(u),
            None => fresh_id(drawn),
        },
        None => fresh_id(drawn),
    }
}

/// The identifier for a session: the UUID that `device_id` denotes, one made of
/// drawn bytes where it denotes none, and none where none were drawn either.
pub fn session_device_with(device_id: &Option<String>, drawn: Option<[u8; 16]>) -> (r: Option<
    String,
>)
    ensures
        r.deep_view() == device_for(device_id.deep_view(), id_bytes(drawn)),
        r matches Some(d) ==> uuid_of(d@) == Some(d@),
{
    match device_id {
        Some(d) => match parse_uuid(d.as_str()) {
            Some(u) => Some(u),
            None => fresh_device(drawn),
        },
        None => fresh_device(drawn),
    }
}

/// The identifier for a session: the UUID that `device_id` denotes, a fresh
/// one where it denotes none. Fails only where it denotes none and the
/// operating system has no randomness to give.
pub fn session_device(device_id: &Option<String>) -> (r: Option<String>)
    ensures
        exists|drawn: Option<Seq<u8>>|
            r.deep_view() == #[trigger] device_for(device_id.deep_view(), drawn),
        r matches Some(d) ==> uuid_of(d@) == Some(d@),
{
    let drawn: Option<[u8; 16]> = draw_id();
    let r: Option<String> = session_device_with(device_id, drawn);
    assert(r.deep_view() == device_for(device_id.deep_view(), id_bytes(drawn)));
    r
}

/// An identifier that is one is kept, in its usual form, whatever was drawn;
/// otherwise what was drawn decides, and without it there is none.
pub proof fn good_identifier_is_kept(device_id: Option<Seq<char>>, drawn: Option<Seq<u8>>)
    ensures
        device_id matches Some(d) ==> (uuid_of(d) is Some ==> device_for(device_id, drawn)
            == uuid_of(d)),
        device_id is None || uuid_of(device_id->Some_0) is None ==> device_for(device_id, drawn)
            == fresh_id(drawn),
        fresh_id(drawn) is Some <==> drawn is Some,
{
}

/// A fresh identifier shows the bytes drawn, but for the six bits that say what
/// kind of identifier it is: it has 36 characters, the digit for the version is
/// `4`, and drawn bytes that differ elsewhere give different identifiers.
pub proof fn fresh_identifier_shows_what_was_drawn(b: Seq<u8>, c: Seq<u8>)
    requires
        b.len() == 16,
        c.len() == 16,
        fresh_id(Some(b)) == fresh_id(Some(c)),
    ensures
        fresh_id(Some(b))->Some_0.len() == 36,
        fresh_id(Some(b))->Some_0[14] == '4',
        forall|i: int| 0 <= i < 16 && i != 6 && i != 8 ==> b[i] == c[i],
        b[6] % 16 == c[6] % 16,
        b[8] % 64 == c[8] % 64,
{
    reveal_strlit("-");
    let x = v4_bytes(b);
    let y = v4_bytes(c);
    let s = hyphenated(x);
    assert(s == hyphenated(y));
    let places = seq![0int, 2, 4, 6, 9, 11, 14, 16, 19, 21, 24, 26, 28, 30, 32, 34];
    assert forall|i: int| 0 <= i < 16 implies #[trigger] x[i] == y[i] by {
        let p = places[i];
        assert(s[p] == crate::crypto::hex_digit(x[i] as int / 16));
        assert(s[p + 1] == crate::crypto::hex_digit(x[i] as int % 16));
        assert(s[p] == crate::crypto::hex_digit(y[i] as int / 16));
        assert(s[p + 1] == crate::crypto::hex_digit(y[i] as int % 16));
    }
    assert(s[14] == crate::crypto::hex_digit(x[6] as int / 16));
    assert forall|i: int| 0 <= i < 16 && i != 6 && i != 8 implies b[i] == c[i] by {
        assert(x[i] == b[i] && y[i] == c[i]);
    }
    assert(x[6] == y[6] && x[8] == y[8]);
}

} // verus!
