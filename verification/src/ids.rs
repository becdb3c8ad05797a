//! Opaque, application-owned identifiers: random 128-bit UUIDs that mean
//! nothing outside the application.

use vstd::prelude::*;

verus! {

/// The lower-case hex digit of a value below 16.
pub open spec fn hex_char(n: u128) -> char {
    seq!['0', '1', '2', '3', '4', '5', '6', '7', '8', '9', 'a', 'b', 'c', 'd', 'e', 'f'][n as int]
}

/// The `i`-th of the 32 four-bit digits of a UUID, most significant first.
pub open spec fn nibble(bits: u128, i: int) -> u128 {
    (bits >> ((124 - 4 * i) as u128)) & 0xfu128
}

/// The 32 hex digits of a UUID, most significant first.
pub open spec fn hex32(bits: u128) -> Seq<char> {
    Seq::new(32, |i: int| hex_char(nibble(bits, i)))
}

/// The canonical text of a UUID: its 32 lower-case hex digits in groups of
/// 8, 4, 4, 4 and 12 joined by hyphens.
pub open spec fn uuid_text(bits: u128) -> Seq<char> {
    let h = hex32(bits);
    h.subrange(0, 8) + seq!['-'] + h.subrange(8, 12) + seq!['-'] + h.subrange(12, 16) + seq!['-']
        + h.subrange(16, 20) + seq!['-'] + h.subrange(20, 32)
}

proof fn lemma_low_nibble(x: u128)
    ensures
        x & 0xfu128 < 16,
{
    assert(x & 0xfu128 < 16) by (bit_vector);
}

proof fn lemma_hex_char_injective(x: u128, y: u128)
    requires
        x < 16,
        y < 16,
        hex_char(x) == hex_char(y),
    ensures
        x == y,
{
}

/// The position in [`uuid_text`] of hex digit `i`.
pub open spec fn digit_pos(i: int) -> int {
    if i < 8 {
        i
    } else if i < 12 {
        i + 1
    } else if i < 16 {
        i + 2
    } else if i < 20 {
        i + 3
    } else {
        i + 4
    }
}

/// Distinct UUIDs have distinct texts: the text determines the bits.
pub proof fn law_uuid_text_injective(a: u128, b: u128)
    ensures
        uuid_text(a) == uuid_text(b) <==> a == b,
{
    if uuid_text(a) == uuid_text(b) {
        assert forall|i: int| 0 <= i < 32 implies #[trigger] nibble(a, i) == nibble(b, i) by {
            let p = digit_pos(i);
            assert(uuid_text(a)[p] == hex32(a)[i]);
            assert(uuid_text(b)[p] == hex32(b)[i]);
            let ia = nibble(a, i);
            let ib = nibble(b, i);
            lemma_low_nibble(a >> ((124 - 4 * i) as u128));
            lemma_low_nibble(b >> ((124 - 4 * i) as u128));
            lemma_hex_char_injective(ia, ib);
        }
        lemma_nibbles_equal(a, b);
    }
}

proof fn lemma_nibbles_equal(a: u128, b: u128)
    requires
        forall|i: int| 0 <= i < 32 ==> #[trigger] nibble(a, i) == nibble(b, i),
    ensures
        a == b,
{
    assert(nibble(a, 0) == nibble(b, 0));
    assert(nibble(a, 1) == nibble(b, 1));
    assert(nibble(a, 2) == nibble(b, 2));
    assert(nibble(a, 3) == nibble(b, 3));
    assert(nibble(a, 4) == nibble(b, 4));
    assert(nibble(a, 5) == nibble(b, 5));
    assert(nibble(a, 6) == nibble(b, 6));
    assert(nibble(a, 7) == nibble(b, 7));
    assert(nibble(a, 8) == nibble(b, 8));
    assert(nibble(a, 9) == nibble(b, 9));
    assert(nibble(a, 10) == nibble(b, 10));
    assert(nibble(a, 11) == nibble(b, 11));
    assert(nibble(a, 12) == nibble(b, 12));
    assert(nibble(a, 13) == nibble(b, 13));
    assert(nibble(a, 14) == nibble(b, 14));
    assert(nibble(a, 15) == nibble(b, 15));
    assert(nibble(a, 16) == nibble(b, 16));
    assert(nibble(a, 17) == nibble(b, 17));
    assert(nibble(a, 18) == nibble(b, 18));
    assert(nibble(a, 19) == nibble(b, 19));
    assert(nibble(a, 20) == nibble(b, 20));
    assert(nibble(a, 21) == nibble(b, 21));
    assert(nibble(a, 22) == nibble(b, 22));
    assert(nibble(a, 23) == nibble(b, 23));
    assert(nibble(a, 24) == nibble(b, 24));
    assert(nibble(a, 25) == nibble(b, 25));
    assert(nibble(a, 26) == nibble(b, 26));
    assert(nibble(a, 27) == nibble(b, 27));
    assert(nibble(a, 28) == nibble(b, 28));
    assert(nibble(a, 29) == nibble(b, 29));
    assert(nibble(a, 30) == nibble(b, 30));
    assert(nibble(a, 31) == nibble(b, 31));
    assert(a == b) by (bit_vector)
        requires
            (a >> 124u128) & 0xf == (b >> 124u128) & 0xf,
            (a >> 120u128) & 0xf == (b >> 120u128) & 0xf,
            (a >> 116u128) & 0xf == (b >> 116u128) & 0xf,
            (a >> 112u128) & 0xf == (b >> 112u128) & 0xf,
            (a >> 108u128) & 0xf == (b >> 108u128) & 0xf,
            (a >> 104u128) & 0xf == (b >> 104u128) & 0xf,
            (a >> 100u128) & 0xf == (b >> 100u128) & 0xf,
            (a >> 96u128) & 0xf == (b >> 96u128) & 0xf,
            (a >> 92u128) & 0xf == (b >> 92u128) & 0xf,
            (a >> 88u128) & 0xf == (b >> 88u128) & 0xf,
            (a >> 84u128) & 0xf == (b >> 84u128) & 0xf,
            (a >> 80u128) & 0xf == (b >> 80u128) & 0xf,
            (a >> 76u128) & 0xf == (b >> 76u128) & 0xf,
            (a >> 72u128) & 0xf == (b >> 72u128) & 0xf,
            (a >> 68u128) & 0xf == (b >> 68u128) & 0xf,
            (a >> 64u128) & 0xf == (b >> 64u128) & 0xf,
            (a >> 60u128) & 0xf == (b >> 60u128) & 0xf,
            (a >> 56u128) & 0xf == (b >> 56u128) & 0xf,
            (a >> 52u128) & 0xf == (b >> 52u128) & 0xf,
            (a >> 48u128) & 0xf == (b >> 48u128) & 0xf,
            (a >> 44u128) & 0xf == (b >> 44u128) & 0xf,
            (a >> 40u128) & 0xf == (b >> 40u128) & 0xf,
            (a >> 36u128) & 0xf == (b >> 36u128) & 0xf,
            (a >> 32u128) & 0xf == (b >> 32u128) & 0xf,
            (a >> 28u128) & 0xf == (b >> 28u128) & 0xf,
            (a >> 24u128) & 0xf == (b >> 24u128) & 0xf,
            (a >> 20u128) & 0xf == (b >> 20u128) & 0xf,
            (a >> 16u128) & 0xf == (b >> 16u128) & 0xf,
            (a >> 12u128) & 0xf == (b >> 12u128) & 0xf,
            (a >> 8u128) & 0xf == (b >> 8u128) & 0xf,
            (a >> 4u128) & 0xf == (b >> 4u128) & 0xf,
            (a >> 0u128) & 0xf == (b >> 0u128) & 0xf,
    ;
}

/// The UUID a text denotes, when `uuid::Uuid::parse_str` accepts it.
pub uninterp spec fn uuid_parsed(text: Seq<char>) -> Option<u128>;

/// The bits of a random (version 4, RFC 4122 variant) UUID: the version
/// field (bits 76 to 79) holds 4 and the variant field (bits 62 and 63)
/// holds binary `10`; the other 122 bits are free.
pub open spec fn is_random_uuid(b: u128) -> bool {
    (b >> 76u128) & 0xfu128 == 4 && (b >> 62u128) & 0x3u128 == 2
}

/// A fresh random UUID from `uuid::Uuid::new_v4`, as its 128 bits: the crate
/// masks random bits into the version 4 and RFC 4122 variant fields, and
/// that is all that is promised of the value.
#[verifier::external_body]
fn random_uuid_bits() -> (r: u128)
    ensures
        is_random_uuid(r),
{
    uuid::Uuid::new_v4().as_u128()
}

/// Formats a UUID with `uuid::Uuid`'s `Display`: the hyphenated lower-case
/// hex text of its bits, most significant digit first.
#[verifier::external_body]
fn format_uuid(bits: u128) -> (s: String)
    ensures
        s@ == uuid_text(bits),
{
    uuid::Uuid::from_u128(bits).to_string()
}

/// Parses a UUID with `uuid::Uuid::parse_str`; which texts it accepts and
/// what they denote is named. The hyphenated lower-case text of a UUID is
/// one of the forms it accepts, and it gives back that UUID.
#[verifier::external_body]
fn parse_uuid(text: &str) -> (r: Option<u128>)
    ensures
        r == uuid_parsed(text@),
        forall|x: u128| #[trigger] uuid_text(x) == text@ ==> r == Some(x),
{
    match uuid::Uuid::parse_str(text) {
        Ok(u) => Some(u.as_u128()),
        Err(_) => None,
    }
}

/// The name-based (version 5) UUID of `bytes` in the URL namespace.
pub uninterp spec fn uuid_v5_url(bytes: Seq<u8>) -> u128;

/// The version 5 UUID of `bytes` in the URL namespace, from
/// `uuid::Uuid::new_v5`; the same bytes always give the same identifier.
#[verifier::external_body]
pub(crate) fn uuid_v5_url_bits(bytes: &[u8]) -> (r: u128)
    ensures
        r == uuid_v5_url(bytes@),
{
    uuid::Uuid::new_v5(&uuid::Uuid::NAMESPACE_URL, bytes).as_u128()
}

/// A fresh random API token: the hyphenated text of a random UUID.
pub fn new_token() -> (s: String)
    ensures
        exists|b: u128| s@ == uuid_text(b),
{
    let b = random_uuid_bits();
    format_uuid(b)
}

/// Opaque identifier for a normalized transfer.
#[derive(Debug, Clone, Copy, PartialEq, Eq, Hash, PartialOrd, Ord)]
pub struct TransferId(pub u128);

/// Opaque identifier for a search.
#[derive(Debug, Clone, Copy, PartialEq, Eq, Hash, PartialOrd, Ord)]
pub struct SearchId(pub u128);

/// Opaque identifier for a single search result.
#[derive(Debug, Clone, Copy, PartialEq, Eq, Hash, PartialOrd, Ord)]
pub struct ResultId(pub u128);

impl TransferId {
    /// Generate a new random identifier: a random (version 4) UUID.
    pub fn new() -> (id: Self)
        ensures
            is_random_uuid(id.0),
    {
        TransferId(random_uuid_bits())
    }

    /// The identifier's 128 bits.
    pub fn as_u128(&self) -> (b: u128)
        ensures
            b == self.0,
    {
        self.0
    }

    /// The hyphenated text of the identifier.
    pub fn to_string(&self) -> (s: String)
        ensures
            s@ == uuid_text(self.0),
    {
        format_uuid(self.0)
    }

    /// Parse the text of an identifier; `None` where it is no UUID.
    pub fn parse_text(text: &str) -> (r: Option<TransferId>)
        ensures
            r == (match uuid_parsed(text@) {
                Some(b) => Some(TransferId(b)),
                None => None,
            }),
            forall|x: u128| #[trigger] uuid_text(x) == text@ ==> r == Some(TransferId(x)),
    {
        match parse_uuid(text) {
            Some(b) => Some(TransferId(b)),
            None => None,
        }
    }
}

impl SearchId {
    /// Generate a new random identifier: a random (version 4) UUID.
    pub fn new() -> (id: Self)
        ensures
            is_random_uuid(id.0),
    {
        SearchId(random_uuid_bits())
    }

    /// The hyphenated text of the identifier.
    pub fn to_string(&self) -> (s: String)
        ensures
            s@ == uuid_text(self.0),
    {
        format_uuid(self.0)
    }

    /// Parse the text of an identifier; `None` where it is no UUID.
    pub fn parse_text(text: &str) -> (r: Option<SearchId>)
        ensures
            r == (match uuid_parsed(text@) {
                Some(b) => Some(SearchId(b)),
                None => None,
            }),
            forall|x: u128| #[trigger] uuid_text(x) == text@ ==> r == Some(SearchId(x)),
    {
        match parse_uuid(text) {
            Some(b) => Some(SearchId(b)),
            None => None,
        }
    }
}

impl ResultId {
    /// Generate a new random identifier: a random (version 4) UUID.
    pub fn new() -> (id: Self)
        ensures
            is_random_uuid(id.0),
    {
        ResultId(random_uuid_bits())
    }

    /// The hyphenated text of the identifier.
    pub fn to_string(&self) -> (s: String)
        ensures
            s@ == uuid_text(self.0),
    {
        format_uuid(self.0)
    }

    /// Parse the text of an identifier; `None` where it is no UUID.
    pub fn parse_text(text: &str) -> (r: Option<ResultId>)
        ensures
            r == (match uuid_parsed(text@) {
                Some(b) => Some(ResultId(b)),
                None => None,
            }),
            forall|x: u128| #[trigger] uuid_text(x) == text@ ==> r == Some(ResultId(x)),
    {
        match parse_uuid(text) {
            Some(b) => Some(ResultId(b)),
            None => None,
        }
    }
}

} // verus!
