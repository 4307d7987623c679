//! EBCDIC and the messages of the pre-connection.

use crate::builder_laws::legible;
use crate::fpdu::{latin_byte, lemma_trim_fixpoint};
use crate::text::{chars_of, is_white_space, starts_with, string_of, trim_end, trimmed_end};
use crate::transport::{
    announces_connect, holds_fpdu, requests_crc, FrameState, Framing, HeaderStep, PreconnectMarks,
};
use vstd::prelude::*;

verus! {

/// A blank in EBCDIC.
pub const BLANK: u8 = 0x40;

/// Length of an identifier or a password in a pre-connection message.
pub const FIELD_LEN: usize = 8;

/// Length of the pre-connection message.
pub const PRECONNECT_LEN: usize = 24;

/// `PESIT` in EBCDIC, which starts the pre-connection message.
pub const PRECONNECT_MAGIC: [u8; 5] = [0xD7, 0xC5, 0xE2, 0xC9, 0xE3];

/// `ACK0` in EBCDIC, the positive answer to a pre-connection message.
pub const PRECONNECT_ACK: [u8; 4] = [0xC1, 0xC3, 0xD2, 0xF0];

/// `NAK0` in EBCDIC, the negative answer to a pre-connection message.
pub const PRECONNECT_NAK: [u8; 4] = [0xD5, 0xC1, 0xD2, 0xF0];

// ---- code page 037 ----

/// Codes of the ISO-8859-1 bytes in code page 037.
pub const TO_EBCDIC: [u8; 256] = [
    0x00, 0x01, 0x02, 0x03, 0x37, 0x2D, 0x2E, 0x2F, 0x16, 0x05, 0x25, 0x0B, 0x0C, 0x0D, 0x0E, 0x0F,
    0x10, 0x11, 0x12, 0x13, 0x3C, 0x3D, 0x32, 0x26, 0x18, 0x19, 0x3F, 0x27, 0x1C, 0x1D, 0x1E, 0x1F,
    0x40, 0x5A, 0x7F, 0x7B, 0x5B, 0x6C, 0x50, 0x7D, 0x4D, 0x5D, 0x5C, 0x4E, 0x6B, 0x60, 0x4B, 0x61,
    0xF0, 0xF1, 0xF2, 0xF3, 0xF4, 0xF5, 0xF6, 0xF7, 0xF8, 0xF9, 0x7A, 0x5E, 0x4C, 0x7E, 0x6E, 0x6F,
    0x7C, 0xC1, 0xC2, 0xC3, 0xC4, 0xC5, 0xC6, 0xC7, 0xC8, 0xC9, 0xD1, 0xD2, 0xD3, 0xD4, 0xD5, 0xD6,
    0xD7, 0xD8, 0xD9, 0xE2, 0xE3, 0xE4, 0xE5, 0xE6, 0xE7, 0xE8, 0xE9, 0xBA, 0xE0, 0xBB, 0xB0, 0x6D,
    0x79, 0x81, 0x82, 0x83, 0x84, 0x85, 0x86, 0x87, 0x88, 0x89, 0x91, 0x92, 0x93, 0x94, 0x95, 0x96,
    0x97, 0x98, 0x99, 0xA2, 0xA3, 0xA4, 0xA5, 0xA6, 0xA7, 0xA8, 0xA9, 0xC0, 0x4F, 0xD0, 0xA1, 0x07,
    0x20, 0x21, 0x22, 0x23, 0x24, 0x15, 0x06, 0x17, 0x28, 0x29, 0x2A, 0x2B, 0x2C, 0x09, 0x0A, 0x1B,
    0x30, 0x31, 0x1A, 0x33, 0x34, 0x35, 0x36, 0x08, 0x38, 0x39, 0x3A, 0x3B, 0x04, 0x14, 0x3E, 0xFF,
    0x41, 0xAA, 0x4A, 0xB1, 0x9F, 0xB2, 0x6A, 0xB5, 0xBD, 0xB4, 0x9A, 0x8A, 0x5F, 0xCA, 0xAF, 0xBC,
    0x90, 0x8F, 0xEA, 0xFA, 0xBE, 0xA0, 0xB6, 0xB3, 0x9D, 0xDA, 0x9B, 0x8B, 0xB7, 0xB8, 0xB9, 0xAB,
    0x64, 0x65, 0x62, 0x66, 0x63, 0x67, 0x9E, 0x68, 0x74, 0x71, 0x72, 0x73, 0x78, 0x75, 0x76, 0x77,
    0xAC, 0x69, 0xED, 0xEE, 0xEB, 0xEF, 0xEC, 0xBF, 0x80, 0xFD, 0xFE, 0xFB, 0xFC, 0xAD, 0xAE, 0x59,
    0x44, 0x45, 0x42, 0x46, 0x43, 0x47, 0x9C, 0x48, 0x54, 0x51, 0x52, 0x53, 0x58, 0x55, 0x56, 0x57,
    0x8C, 0x49, 0xCD, 0xCE, 0xCB, 0xCF, 0xCC, 0xE1, 0x70, 0xDD, 0xDE, 0xDB, 0xDC, 0x8D, 0x8E, 0xDF,
];

/// ISO-8859-1 bytes of the codes of code page 037.
pub const FROM_EBCDIC: [u8; 256] = [
    0x00, 0x01, 0x02, 0x03, 0x9C, 0x09, 0x86, 0x7F, 0x97, 0x8D, 0x8E, 0x0B, 0x0C, 0x0D, 0x0E, 0x0F,
    0x10, 0x11, 0x12, 0x13, 0x9D, 0x85, 0x08, 0x87, 0x18, 0x19, 0x92, 0x8F, 0x1C, 0x1D, 0x1E, 0x1F,
    0x80, 0x81, 0x82, 0x83, 0x84, 0x0A, 0x17, 0x1B, 0x88, 0x89, 0x8A, 0x8B, 0x8C, 0x05, 0x06, 0x07,
    0x90, 0x91, 0x16, 0x93, 0x94, 0x95, 0x96, 0x04, 0x98, 0x99, 0x9A, 0x9B, 0x14, 0x15, 0x9E, 0x1A,
    0x20, 0xA0, 0xE2, 0xE4, 0xE0, 0xE1, 0xE3, 0xE5, 0xE7, 0xF1, 0xA2, 0x2E, 0x3C, 0x28, 0x2B, 0x7C,
    0x26, 0xE9, 0xEA, 0xEB, 0xE8, 0xED, 0xEE, 0xEF, 0xEC, 0xDF, 0x21, 0x24, 0x2A, 0x29, 0x3B, 0xAC,
    0x2D, 0x2F, 0xC2, 0xC4, 0xC0, 0xC1, 0xC3, 0xC5, 0xC7, 0xD1, 0xA6, 0x2C, 0x25, 0x5F, 0x3E, 0x3F,
    0xF8, 0xC9, 0xCA, 0xCB, 0xC8, 0xCD, 0xCE, 0xCF, 0xCC, 0x60, 0x3A, 0x23, 0x40, 0x27, 0x3D, 0x22,
    0xD8, 0x61, 0x62, 0x63, 0x64, 0x65, 0x66, 0x67, 0x68, 0x69, 0xAB, 0xBB, 0xF0, 0xFD, 0xFE, 0xB1,
    0xB0, 0x6A, 0x6B, 0x6C, 0x6D, 0x6E, 0x6F, 0x70, 0x71, 0x72, 0xAA, 0xBA, 0xE6, 0xB8, 0xC6, 0xA4,
    0xB5, 0x7E, 0x73, 0x74, 0x75, 0x76, 0x77, 0x78, 0x79, 0x7A, 0xA1, 0xBF, 0xD0, 0xDD, 0xDE, 0xAE,
    0x5E, 0xA3, 0xA5, 0xB7, 0xA9, 0xA7, 0xB6, 0xBC, 0xBD, 0xBE, 0x5B, 0x5D, 0xAF, 0xA8, 0xB4, 0xD7,
    0x7B, 0x41, 0x42, 0x43, 0x44, 0x45, 0x46, 0x47, 0x48, 0x49, 0xAD, 0xF4, 0xF6, 0xF2, 0xF3, 0xF5,
    0x7D, 0x4A, 0x4B, 0x4C, 0x4D, 0x4E, 0x4F, 0x50, 0x51, 0x52, 0xB9, 0xFB, 0xFC, 0xF9, 0xFA, 0xFF,
    0x5C, 0xF7, 0x53, 0x54, 0x55, 0x56, 0x57, 0x58, 0x59, 0x5A, 0xB2, 0xD4, 0xD6, 0xD2, 0xD3, 0xD5,
    0x30, 0x31, 0x32, 0x33, 0x34, 0x35, 0x36, 0x37, 0x38, 0x39, 0xB3, 0xDB, 0xDC, 0xD9, 0xDA, 0x9F,
];

/// EBCDIC code of a character; one outside ISO-8859-1 counts as a question mark.
pub open spec fn spec_code_of(c: char) -> u8 {
    TO_EBCDIC[latin_byte(c) as int]
}

/// EBCDIC code of a character.
#[must_use]
pub fn code_of(c: char) -> (r: u8)
    ensures
        r == spec_code_of(c),
{
    let table = TO_EBCDIC;
    let n: u32 = c as u32;
    if n < 256 {
        table[n as usize]
    } else {
        table[63]
    }
}

/// Character of an EBCDIC code.
pub open spec fn spec_char_of(b: u8) -> char {
    FROM_EBCDIC[b as int] as char
}

/// Character of an EBCDIC code.
#[must_use]
pub fn char_of(b: u8) -> (r: char)
    ensures
        r == spec_char_of(b),
{
    let table = FROM_EBCDIC;
    table[b as usize] as char
}

/// Bytes through a table of codes.
pub open spec fn translated(table: [u8; 256], data: Seq<u8>) -> Seq<u8> {
    data.map_values(|b: u8| table[b as int])
}

fn translate(table: &[u8; 256], data: &[u8]) -> (r: Vec<u8>)
    ensures
        r@ == translated(*table, data@),
{
    let mut out: Vec<u8> = Vec::new();
    let mut i: usize = 0;
    while i < data.len()
        invariant
            i <= data.len(),
            out@ == translated(*table, data@).take(i as int),
        decreases data.len() - i,
    {
        out.push(table[data[i] as usize]);
        i += 1;
        proof {
            assert(out@ =~= translated(*table, data@).take(i as int));
        }
    }
    proof {
        assert(out@ =~= translated(*table, data@));
    }
    out
}

/// ISO-8859-1 bytes in EBCDIC.
#[must_use]
pub fn to_ebcdic(data: &[u8]) -> (r: Vec<u8>)
    ensures
        r@ == translated(TO_EBCDIC, data@),
{
    let table = TO_EBCDIC;
    translate(&table, data)
}

/// EBCDIC bytes in ISO-8859-1.
#[must_use]
pub fn from_ebcdic(data: &[u8]) -> (r: Vec<u8>)
    ensures
        r@ == translated(FROM_EBCDIC, data@),
{
    let table = FROM_EBCDIC;
    translate(&table, data)
}

/// The two tables undo each other.
proof fn lemma_tables(b: u8)
    ensures
        FROM_EBCDIC[TO_EBCDIC[b as int] as int] == b,
        TO_EBCDIC[FROM_EBCDIC[b as int] as int] == b,
{
}

/// A character of ISO-8859-1 is read back from its code.
pub proof fn law_codes_round_trip(c: char)
    requires
        (c as u32) < 256,
    ensures
        spec_char_of(spec_code_of(c)) == c,
{
    lemma_tables(c as u8);
}

// ---- pre-connection ----

/// A text as a field of the pre-connection message: what is longer is cut, what is shorter is
/// followed by blanks.
pub open spec fn field(t: Seq<char>) -> Seq<u8> {
    Seq::new(
        FIELD_LEN as nat,
        |i: int|
            if i < t.len() {
                spec_code_of(t[i])
            } else {
                BLANK
            },
    )
}

fn push_field(out: &mut Vec<u8>, t: &str)
    ensures
        final(out)@ == old(out)@ + field(t@),
{
    let chars = chars_of(t);
    let ghost before = out@;
    let mut i: usize = 0;
    while i < FIELD_LEN
        invariant
            i <= FIELD_LEN,
            chars@ == t@,
            out@ == before + field(t@).take(i as int),
        decreases FIELD_LEN - i,
    {
        let code: u8 = if i < chars.len() {
            code_of(chars[i])
        } else {
            BLANK
        };
        out.push(code);
        i += 1;
        proof {
            assert(field(t@).take(i as int) =~= field(t@).take(i - 1).push(code));
            assert(out@ =~= before + field(t@).take(i as int));
        }
    }
    proof {
        assert(field(t@).take(FIELD_LEN as int) =~= field(t@));
    }
}

/// The pre-connection message of an identifier and a password.
pub open spec fn spec_message(identifier: Seq<char>, password: Seq<char>) -> Seq<u8> {
    field("PESIT"@) + field(identifier) + field(password)
}

/// The pre-connection message of an identifier and a password.
#[must_use]
pub fn preconnect_message(identifier: &str, password: &str) -> (r: Vec<u8>)
    ensures
        r@ == spec_message(identifier@, password@),
        r.len() == PRECONNECT_LEN,
{
    let mut out: Vec<u8> = Vec::new();
    push_field(&mut out, "PESIT");
    push_field(&mut out, identifier);
    push_field(&mut out, password);
    proof {
        assert(out@ =~= spec_message(identifier@, password@));
    }
    out
}

/// Whether an entity is a pre-connection message: it has the length of one, and starts as one.
pub open spec fn spec_is_preconnect(entity: Seq<u8>) -> bool {
    entity.len() == PRECONNECT_LEN && PRECONNECT_MAGIC@.is_prefix_of(entity)
}

/// Whether an entity is a pre-connection message.
#[must_use]
pub fn is_preconnect(entity: &[u8]) -> (r: bool)
    ensures
        r == spec_is_preconnect(entity@),
{
    let magic = PRECONNECT_MAGIC;
    entity.len() == PRECONNECT_LEN && starts_with(entity, magic.as_slice())
}

/// Text of a field of the pre-connection message, without the blanks behind it.
pub open spec fn field_text(b: Seq<u8>) -> Seq<char> {
    trimmed_end(Seq::new(b.len(), |i: int| spec_char_of(b[i])))
}

fn read_field(b: &[u8], from: usize) -> (r: String)
    requires
        from + FIELD_LEN <= b.len(),
    ensures
        r@ == field_text(b@.subrange(from as int, from + FIELD_LEN)),
{
    let ghost part = b@.subrange(from as int, from + FIELD_LEN);
    let ghost text = Seq::new(part.len(), |i: int| spec_char_of(part[i]));
    let mut chars: Vec<char> = Vec::new();
    let mut i: usize = 0;
    while i < FIELD_LEN
        invariant
            i <= FIELD_LEN,
            from + FIELD_LEN <= b.len(),
            part == b@.subrange(from as int, from + FIELD_LEN),
            text == Seq::new(part.len(), |i: int| spec_char_of(part[i])),
            chars@ == text.take(i as int),
        decreases FIELD_LEN - i,
    {
        chars.push(char_of(b[from + i]));
        i += 1;
        proof {
            assert(chars@ =~= text.take(i as int));
        }
    }
    proof {
        assert(chars@ =~= text);
    }
    let read = string_of(chars.as_slice());
    trim_end(read.as_str())
}

/// Identifier and password of a pre-connection message.
pub open spec fn spec_parse(entity: Seq<u8>) -> Option<(Seq<char>, Seq<char>)> {
    if spec_is_preconnect(entity) {
        Some((field_text(entity.subrange(8, 16)), field_text(entity.subrange(16, 24))))
    } else {
        None
    }
}

/// Identifier and password of a pre-connection message.
#[must_use]
pub fn parse_preconnect(entity: &[u8]) -> (r: Option<(String, String)>)
    ensures
        match r {
            Some((id, password)) => spec_parse(entity@) == Some((id@, password@)),
            None => spec_parse(entity@) is None,
        },
{
    if !is_preconnect(entity) {
        return None;
    }
    Some((read_field(entity, FIELD_LEN), read_field(entity, 2 * FIELD_LEN)))
}

/// By which bytes the pre-connection messages are recognised when they start a connection.
pub open spec fn spec_marks() -> PreconnectMarks {
    PreconnectMarks {
        message: (PRECONNECT_MAGIC[0], PRECONNECT_MAGIC[1]),
        message_len: PRECONNECT_LEN,
        ack: (PRECONNECT_ACK[0], PRECONNECT_ACK[1]),
        nak: (PRECONNECT_NAK[0], PRECONNECT_NAK[1]),
    }
}

/// By which bytes the pre-connection messages are recognised when they start a connection.
#[must_use]
pub fn marks() -> (r: PreconnectMarks)
    ensures
        r == spec_marks(),
{
    let magic = PRECONNECT_MAGIC;
    let ack = PRECONNECT_ACK;
    let nak = PRECONNECT_NAK;
    PreconnectMarks {
        message: (magic[0], magic[1]),
        message_len: PRECONNECT_LEN,
        ack: (ack[0], ack[1]),
        nak: (nak[0], nak[1]),
    }
}

// ---- laws ----

/// Blanks behind a text that ends with no white space are cut off again.
proof fn lemma_blanks_are_trimmed(s: Seq<char>, n: nat)
    requires
        n <= s.len(),
        forall|i: int| n <= i < s.len() ==> s[i] == ' ',
        n > 0 ==> !is_white_space(s[n - 1]),
    ensures
        trimmed_end(s) == s.take(n as int),
    decreases s.len(),
{
    if s.len() == n {
        assert(s.take(n as int) =~= s);
    } else {
        lemma_blanks_are_trimmed(s.drop_last(), n);
        assert(s.drop_last().take(n as int) =~= s.take(n as int));
    }
}

/// A field gives back a legible text that fits in it.
proof fn lemma_field_round_trip(t: Seq<char>)
    requires
        t.len() <= FIELD_LEN,
        legible(t),
    ensures
        field_text(field(t)) == t,
{
    let b = field(t);
    let s = Seq::new(b.len(), |i: int| spec_char_of(b[i]));
    assert forall|i: int| 0 <= i < t.len() implies s[i] == t[i] by {
        law_codes_round_trip(t[i]);
    }
    assert forall|i: int| t.len() <= i < s.len() implies s[i] == ' ' by {
        law_codes_round_trip(' ');
    }
    if t.len() > 0 {
        lemma_trim_fixpoint(t.drop_last());
    }
    lemma_blanks_are_trimmed(s, t.len());
    assert(s.take(t.len() as int) =~= t);
}

/// What is translated to EBCDIC is translated back to what it was, and the other way round.
pub proof fn law_translation_is_undone(data: Seq<u8>)
    ensures
        translated(FROM_EBCDIC, translated(TO_EBCDIC, data)) == data,
        translated(TO_EBCDIC, translated(FROM_EBCDIC, data)) == data,
{
    let there = translated(TO_EBCDIC, data);
    let back = translated(FROM_EBCDIC, data);
    assert forall|i: int| 0 <= i < data.len() implies translated(FROM_EBCDIC, there)[i] == data[i]
        && translated(TO_EBCDIC, back)[i] == data[i] by {
        lemma_tables(data[i]);
    }
    assert(translated(FROM_EBCDIC, there) =~= data);
    assert(translated(TO_EBCDIC, back) =~= data);
}

/// The peer reads the identifier and the password of a pre-connection message as they were
/// given, where they are in ISO-8859-1, end with no blank and fit in their fields.
pub proof fn law_preconnection_is_read_back(identifier: Seq<char>, password: Seq<char>)
    requires
        identifier.len() <= FIELD_LEN,
        password.len() <= FIELD_LEN,
        legible(identifier),
        legible(password),
    ensures
        spec_parse(spec_message(identifier, password)) == Some((identifier, password)),
{
    let m = spec_message(identifier, password);
    reveal_strlit("PESIT");
    assert(PRECONNECT_MAGIC@ =~= seq![0xD7u8, 0xC5u8, 0xE2u8, 0xC9u8, 0xE3u8]);
    assert(m.subrange(0, 5) =~= PRECONNECT_MAGIC@);
    assert(m.subrange(8, 16) =~= field(identifier));
    assert(m.subrange(16, 24) =~= field(password));
    lemma_field_round_trip(identifier);
    lemma_field_round_trip(password);
}

/// The reader of a fresh stream asks for exactly the pre-connection message, or its answer,
/// though no length comes before them.
pub proof fn law_preconnection_is_delimited(
    s: FrameState,
    identifier: Seq<char>,
    password: Seq<char>,
    crc: bool,
)
    requires
        s.first,
    ensures
        ({
            let m = spec_message(identifier, password);
            s.spec_on_header(m[0], m[1], crc, spec_marks()) == HeaderStep::WithHead(
                (m.len() - 2) as usize,
            )
        }),
        s.spec_on_header(PRECONNECT_ACK[0], PRECONNECT_ACK[1], crc, spec_marks())
            == HeaderStep::WithHead((PRECONNECT_ACK@.len() - 2) as usize),
        s.spec_on_header(PRECONNECT_NAK[0], PRECONNECT_NAK[1], crc, spec_marks())
            == HeaderStep::WithHead((PRECONNECT_NAK@.len() - 2) as usize),
{
    reveal_strlit("PESIT");
    assert(PRECONNECT_MAGIC@ =~= seq![0xD7u8, 0xC5u8, 0xE2u8, 0xC9u8, 0xE3u8]);
    assert(PRECONNECT_ACK@ =~= seq![0xC1u8, 0xC3u8, 0xD2u8, 0xF0u8]);
    assert(PRECONNECT_NAK@ =~= seq![0xD5u8, 0xC1u8, 0xD2u8, 0xF0u8]);
}

/// Behind a pre-connection message, and behind either answer to one, a raw stream still finds out
/// from the CONNECT whether check bytes follow it.
pub proof fn law_preconnection_keeps_the_probe(
    s: FrameState,
    identifier: Seq<char>,
    password: Seq<char>,
    connect: Seq<u8>,
)
    requires
        s.framing == Framing::Raw,
        s.probe_crc,
        holds_fpdu(connect),
        announces_connect(connect),
        requests_crc(connect),
    ensures
        s.behind(spec_message(identifier, password)).check_follows(connect, false),
        s.behind(PRECONNECT_ACK@).check_follows(connect, false),
        s.behind(PRECONNECT_NAK@).check_follows(connect, false),
{
    reveal_strlit("PESIT");
    let m = spec_message(identifier, password);
    assert(m[0] == 0xD7u8 && m[1] == 0xC5u8);
}

/// A pre-connection message is never taken for the answer to one, and a positive answer never
/// for a negative one.
pub proof fn law_preconnection_messages_differ(entity: Seq<u8>)
    ensures
        spec_is_preconnect(entity) ==> !PRECONNECT_ACK@.is_prefix_of(entity)
            && !PRECONNECT_NAK@.is_prefix_of(entity),
        !(PRECONNECT_ACK@.is_prefix_of(entity) && PRECONNECT_NAK@.is_prefix_of(entity)),
{
    assert(PRECONNECT_MAGIC@[0] == 0xD7u8);
    assert(PRECONNECT_ACK@[0] == 0xC1u8);
    assert(PRECONNECT_NAK@[0] == 0xD5u8);
    if spec_is_preconnect(entity) {
        assert(entity[0] == entity.subrange(0, 5)[0]);
    }
    if PRECONNECT_ACK@.is_prefix_of(entity) {
        assert(entity[0] == entity.subrange(0, 4)[0]);
    }
    if PRECONNECT_NAK@.is_prefix_of(entity) {
        assert(entity[0] == entity.subrange(0, 4)[0]);
    }
}

} // verus!
