//! Random identifiers of 128 bits and their textual form.

use vstd::prelude::*;

verus! {

/// A 128-bit identifier.
#[derive(Debug, Clone, Copy)]
pub struct Uuid([u8; 16]);

impl View for Uuid {
    type V = Seq<u8>;

    closed spec fn view(&self) -> Seq<u8> {
        self.0@
    }
}

/// The sixteen hexadecimal digits, in lower case.
pub open spec fn hex_alphabet() -> Seq<char> {
    seq!['0', '1', '2', '3', '4', '5', '6', '7', '8', '9', 'a', 'b', 'c', 'd', 'e', 'f']
}

/// The two hexadecimal digits of `byte`, the high one first.
pub open spec fn hex_pair(byte: u8) -> Seq<char> {
    seq![hex_alphabet()[byte as int / 16], hex_alphabet()[byte as int % 16]]
}

/// The hexadecimal digits of `bytes`, two for each byte, in order.
pub open spec fn hex(bytes: Seq<u8>) -> Seq<char>
    decreases bytes.len(),
{
    if bytes.len() == 0 {
        Seq::empty()
    } else {
        hex(bytes.drop_last()) + hex_pair(bytes.last())
    }
}

/// The textual form of the sixteen bytes of an identifier: groups of 8, 4,
/// 4, 4 and 12 hexadecimal digits, with a hyphen between two groups.
pub open spec fn hyphenated(bytes: Seq<u8>) -> Seq<char> {
    hex(bytes.subrange(0, 4)) + seq!['-'] + hex(bytes.subrange(4, 6)) + seq!['-'] + hex(
        bytes.subrange(6, 8),
    ) + seq!['-'] + hex(bytes.subrange(8, 10)) + seq!['-'] + hex(bytes.subrange(10, 16))
}

/// `byte` with its high four bits replaced by the version number 4.
pub open spec fn with_version(byte: u8) -> u8 {
    (byte & 0x0f) | 0x40
}

/// `byte` with its high two bits replaced by the variant bits `10`.
pub open spec fn with_variant(byte: u8) -> u8 {
    (byte & 0x3f) | 0x80
}

/// Whether `bytes` are those of a random identifier: sixteen bytes that
/// carry version 4 and the variant `10`.
pub open spec fn is_random_form(bytes: Seq<u8>) -> bool {
    &&& bytes.len() == 16
    &&& bytes[6] / 16 == 4
    &&& bytes[8] / 64 == 2
}

/// The digits of `bytes` are twice as many as the bytes.
pub proof fn lemma_hex_len(bytes: Seq<u8>)
    ensures
        hex(bytes).len() == 2 * bytes.len(),
    decreases bytes.len(),
{
    if bytes.len() > 0 {
        lemma_hex_len(bytes.drop_last());
    }
}

/// The textual form of an identifier has 36 characters and begins with the
/// digits of its first four bytes.
pub proof fn lemma_hyphenated_shape(bytes: Seq<u8>)
    requires
        bytes.len() == 16,
    ensures
        hyphenated(bytes).len() == 36,
        hyphenated(bytes).take(8) == hex(bytes.subrange(0, 4)),
        hyphenated(bytes)[8] == '-',
        hyphenated(bytes)[13] == '-',
        hyphenated(bytes)[18] == '-',
        hyphenated(bytes)[23] == '-',
{
    lemma_hex_len(bytes.subrange(0, 4));
    lemma_hex_len(bytes.subrange(4, 6));
    lemma_hex_len(bytes.subrange(6, 8));
    lemma_hex_len(bytes.subrange(8, 10));
    lemma_hex_len(bytes.subrange(10, 16));
    assert(hyphenated(bytes).take(8) =~= hex(bytes.subrange(0, 4)));
}

/// `getrandom::Error`, the reason why the operating system gave no random
/// bytes.
#[verifier::external_type_specification]
#[verifier::external_body]
pub struct ExRandomError(getrandom::Error);

/// Asks the operating system for sixteen random bytes with
/// `getrandom::fill`, which fills the buffer it is given or reports a
/// failure; early after boot it may wait for the system's generator.
/// Nothing is claimed of the bytes: they differ from call to call.
#[verifier::external_body]
fn random_bytes() -> (drawn: Result<[u8; 16], getrandom::Error>) {
    let mut bytes = [0u8; 16];
    getrandom::fill(&mut bytes)?;
    Ok(bytes)
}

/// The text of one hexadecimal digit.
fn hex_digit_text(digit: u8) -> (text: &'static str)
    requires
        digit < 16,
    ensures
        text@ == seq![hex_alphabet()[digit as int]],
{
    proof {
        reveal_strlit("0");
        reveal_strlit("1");
        reveal_strlit("2");
        reveal_strlit("3");
        reveal_strlit("4");
        reveal_strlit("5");
        reveal_strlit("6");
        reveal_strlit("7");
        reveal_strlit("8");
        reveal_strlit("9");
        reveal_strlit("a");
        reveal_strlit("b");
        reveal_strlit("c");
        reveal_strlit("d");
        reveal_strlit("e");
        reveal_strlit("f");
    }
    let text = match digit {
        0 => "0",
        1 => "1",
        2 => "2",
        3 => "3",
        4 => "4",
        5 => "5",
        6 => "6",
        7 => "7",
        8 => "8",
        9 => "9",
        10 => "a",
        11 => "b",
        12 => "c",
        13 => "d",
        14 => "e",
        _ => "f",
    };
    assert(text@ =~= seq![hex_alphabet()[digit as int]]);
    text
}

/// Appends the hexadecimal digits of the bytes `lo..hi` of `bytes` to `text`.
fn append_hex(text: &mut String, bytes: &[u8; 16], lo: usize, hi: usize)
    requires
        lo <= hi <= 16,
    ensures
        final(text)@ == old(text)@ + hex(bytes@.subrange(lo as int, hi as int)),
{
    let mut i: usize = lo;
    assert(bytes@.subrange(lo as int, lo as int) =~= Seq::<u8>::empty());
    while i < hi
        invariant
            lo <= i <= hi <= 16,
            text@ == old(text)@ + hex(bytes@.subrange(lo as int, i as int)),
        decreases hi - i,
    {
        let byte = bytes[i];
        let ghost before = text@;
        text.append(hex_digit_text(byte / 16));
        text.append(hex_digit_text(byte % 16));
        proof {
            let done = bytes@.subrange(lo as int, i + 1);
            assert(done.drop_last() =~= bytes@.subrange(lo as int, i as int));
            assert(done.last() == byte);
            assert(text@ =~= before + hex_pair(byte));
            assert(text@ =~= old(text)@ + hex(done));
        }
        i += 1;
    }
}

impl Uuid {
    /// An identifier has sixteen bytes.
    pub proof fn lemma_sixteen_bytes(self)
        ensures
            self@.len() == 16,
    {
    }

    /// The identifier made of `bytes` as they are.
    pub fn from_bytes(bytes: [u8; 16]) -> (uuid: Uuid)
        ensures
            uuid@ == bytes@,
    {
        Uuid(bytes)
    }

    /// The sixteen bytes of the identifier.
    pub fn as_bytes(&self) -> (bytes: [u8; 16])
        ensures
            bytes@ == self@,
    {
        self.0
    }

    /// The random identifier that carries the 122 free bits of `bytes`: the
    /// version and variant bits are set, every other bit is kept.
    pub fn from_random_bytes(bytes: [u8; 16]) -> (uuid: Uuid)
        ensures
            uuid@ == bytes@.update(6, with_version(bytes@[6])).update(8, with_variant(bytes@[8])),
            is_random_form(uuid@),
    {
        let mut bytes = bytes;
        let ghost given = bytes@;
        let sixth: u8 = bytes[6];
        let eighth: u8 = bytes[8];
        let versioned: u8 = (sixth & 0x0f) | 0x40;
        let varied: u8 = (eighth & 0x3f) | 0x80;
        assert(versioned / 16 == 4) by (bit_vector)
            requires
                versioned == (sixth & 0x0f) | 0x40,
        ;
        assert(varied / 64 == 2) by (bit_vector)
            requires
                varied == (eighth & 0x3f) | 0x80,
        ;
        bytes[6] = versioned;
        bytes[8] = varied;
        assert(bytes@ =~= given.update(6, versioned).update(8, varied));
        Uuid(bytes)
    }

    /// A fresh random identifier, or `None` where the operating system
    /// gives no random bytes.
    pub fn new_v4() -> (fresh: Option<Uuid>)
        ensures
            fresh matches Some(uuid) ==> is_random_form(uuid@),
    {
        Uuid::from_drawn(random_bytes())
    }

    /// The identifier that a draw of random bytes gives: the random
    /// identifier of the bytes that were drawn, and none where the draw failed.
    pub fn from_drawn(drawn: Result<[u8; 16], getrandom::Error>) -> (made: Option<Uuid>)
        ensures
            match drawn {
                Ok(bytes) => made matches Some(uuid) && uuid@ == bytes@.update(
                    6,
                    with_version(bytes@[6]),
                ).update(8, with_variant(bytes@[8])) && is_random_form(uuid@),
                Err(_) => made is None,
            },
    {
        match drawn {
            Ok(bytes) => Some(Uuid::from_random_bytes(bytes)),
            Err(_) => None,
        }
    }

    /// The textual form of the identifier: 36 characters, lower-case
    /// hexadecimal digits in groups of 8, 4, 4, 4 and 12 with hyphens between.
    pub fn to_string(&self) -> (text: String)
        ensures
            text@ == hyphenated(self@),
    {
        let mut text = String::new();
        append_hex(&mut text, &self.0, 0, 4);
        text.append("-");
        append_hex(&mut text, &self.0, 4, 6);
        text.append("-");
        append_hex(&mut text, &self.0, 6, 8);
        text.append("-");
        append_hex(&mut text, &self.0, 8, 10);
        text.append("-");
        append_hex(&mut text, &self.0, 10, 16);
        proof {
            reveal_strlit("-");
            assert("-"@ =~= seq!['-']);
            assert(text@ =~= hyphenated(self@));
        }
        text
    }
}

} // verus!
