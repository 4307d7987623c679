//! PeSIT data compression (PI 21).
//!
//! An article is compressed chunk by chunk (chunks of at most [`CHUNK`] bytes). Every chunk
//! becomes a sequence of *strings*, each introduced by a one byte header:
//!
//! * `0x00 | n` (n = 1..63): `n` literal bytes follow;
//! * `0x80 | n` (n = 2..63): the following byte is repeated `n` times (horizontal compression);
//! * `0xC0 | n` (n = 1..63): `n` bytes are identical to the reference article at the same
//!   offset (vertical compression); nothing follows the header.
//!
//! The reference article is the previously transmitted article, kept in a persistent buffer
//! which is overwritten from its beginning by each article (bytes beyond the length of the last
//! article keep older content, on both sides). After a synchronisation point the first article is
//! always sent as literal strings ([`Mode::Literal`]) so that a restart from that point does not
//! depend on the reference.

use crate::params::Compression;
use crate::text::{dec, hex_pair, push_decimal, push_hex_byte};
use crate::fpdu::clamp_usize;
use vstd::prelude::*;
use vstd::string::StringExecFns;

verus! {

/// Maximum chunk length and maximum string count (6 bits).
pub const CHUNK: usize = 63;

/// Compression mode applied to one article.
#[derive(Debug, Clone, Copy, PartialEq, Eq, Structural)]
pub enum Mode {
    /// Literal strings only (`n` + bytes); used after a synchronisation point.
    Literal,
    /// Horizontal compression.
    Horizontal,
    /// Vertical compression against the reference.
    Vertical,
    /// Vertical, with horizontally compressed differences.
    Mixed,
}

impl Mode {
    /// Mode of a negotiated compression.
    pub open spec fn of(c: Compression) -> Mode {
        match c {
            Compression::Off => Mode::Literal,
            Compression::Horizontal => Mode::Horizontal,
            Compression::Vertical => Mode::Vertical,
            Compression::Mixed => Mode::Mixed,
        }
    }
}

impl From<Compression> for Mode {
    fn from(c: Compression) -> (r: Self) {
        match c {
            Compression::Off => Mode::Literal,
            Compression::Horizontal => Mode::Horizontal,
            Compression::Vertical => Mode::Vertical,
            Compression::Mixed => Mode::Mixed,
        }
    }
}

impl vstd::std_specs::convert::FromSpecImpl<Compression> for Mode {
    open spec fn obeys_from_spec() -> bool {
        true
    }

    open spec fn from_spec(c: Compression) -> Mode {
        Mode::of(c)
    }
}

/// Error returned when compressed data is malformed.
#[derive(Debug, Clone, Copy, PartialEq, Eq, Structural)]
pub enum DecompressError {
    /// A string header of the form `0x40 | n` was found.
    InvalidHeader(u8),
    /// The compressed data ends in the middle of a string.
    Truncated,
    /// The decompressed article exceeds the maximum article length.
    TooLong(usize),
}

impl DecompressError {
    /// Rendering of the error.
    pub open spec fn spec_text(self) -> Seq<char> {
        match self {
            DecompressError::InvalidHeader(h) => "invalid compression string header 0x"@ + hex_pair(h),
            DecompressError::Truncated => "truncated compressed data"@,
            DecompressError::TooLong(n) => "decompressed article exceeds "@ + dec(n as nat)
                + " bytes"@,
        }
    }

    /// Rendering of the error.
    #[must_use]
    pub fn text(self) -> (r: String)
        ensures
            r@ == self.spec_text(),
    {
        match self {
            DecompressError::InvalidHeader(h) => {
                let mut out = "invalid compression string header 0x".to_owned();
                push_hex_byte(&mut out, h);
                out
            },
            DecompressError::Truncated => "truncated compressed data".to_owned(),
            DecompressError::TooLong(n) => {
                let mut out = "decompressed article exceeds ".to_owned();
                push_decimal(&mut out, n as u64);
                out.append(" bytes");
                out
            },
        }
    }
}

// ---- compression ----

/// One string of compressed data.
#[verifier::ext_equal]
pub enum Piece {
    /// Literal bytes.
    Literal(Seq<u8>),
    /// A byte repeated.
    Run(u8, nat),
    /// Bytes identical to the reference.
    Same(nat),
}

impl Piece {
    /// Wire form of the string.
    pub open spec fn bytes(self) -> Seq<u8> {
        match self {
            Piece::Literal(s) => seq![s.len() as u8] + s,
            Piece::Run(b, n) => seq![(0x80 + n) as u8, b],
            Piece::Same(n) => seq![(0xC0 + n) as u8],
        }
    }
}

/// Wire form of a sequence of strings.
pub open spec fn pieces_bytes(pieces: Seq<Piece>) -> Seq<u8>
    decreases pieces.len(),
{
    if pieces.len() == 0 {
        seq![]
    } else {
        pieces_bytes(pieces.drop_last()) + pieces.last().bytes()
    }
}

/// Horizontal strings of a chunk: a byte equal to its predecessor starts or extends a run, any
/// other byte starts or extends a literal.
pub open spec fn horizontal_pieces(chunk: Seq<u8>) -> Seq<Piece>
    decreases chunk.len(),
{
    if chunk.len() == 0 {
        seq![]
    } else {
        let before = horizontal_pieces(chunk.drop_last());
        let b = chunk.last();
        if before.len() == 0 {
            seq![Piece::Literal(seq![b])]
        } else {
            let init = before.drop_last();
            match before.last() {
                Piece::Literal(s) => if s.len() > 0 && s.last() == b {
                    if s.len() == 1 {
                        init.push(Piece::Run(b, 2))
                    } else {
                        init.push(Piece::Literal(s.drop_last())).push(Piece::Run(b, 2))
                    }
                } else {
                    init.push(Piece::Literal(s.push(b)))
                },
                Piece::Run(x, n) => if x == b {
                    init.push(Piece::Run(b, n + 1))
                } else {
                    before.push(Piece::Literal(seq![b]))
                },
                Piece::Same(_) => before,
            }
        }
    }
}

/// Number of leading positions at which two byte strings agree (or, for `want` false, differ).
pub open spec fn leading(a: Seq<u8>, r: Seq<u8>, want: bool) -> nat
    decreases a.len(),
{
    if a.len() > 0 && r.len() > 0 && (a[0] == r[0]) == want {
        1 + leading(a.skip(1), r.skip(1), want)
    } else {
        0
    }
}

/// The wire form of a stretch that differs from the reference.
pub open spec fn difference_bytes(chunk: Seq<u8>, mixed: bool) -> Seq<u8> {
    if mixed {
        pieces_bytes(horizontal_pieces(chunk))
    } else {
        Piece::Literal(chunk).bytes()
    }
}

/// Vertical (or mixed) wire form of a chunk: maximal stretches equal to the reference alternate
/// with maximal stretches that differ from it throughout.
pub open spec fn vertical_bytes(chunk: Seq<u8>, reference: Seq<u8>, mixed: bool) -> Seq<u8>
    decreases chunk.len(),
{
    let equal = leading(chunk, reference, true);
    let diff = leading(chunk, reference, false);
    if chunk.len() == 0 || equal > chunk.len() || diff > chunk.len() {
        seq![]
    } else if equal > 0 {
        Piece::Same(equal).bytes() + vertical_bytes(
            chunk.skip(equal as int),
            reference.skip(equal as int),
            mixed,
        )
    } else if diff > 0 {
        difference_bytes(chunk.take(diff as int), mixed) + vertical_bytes(
            chunk.skip(diff as int),
            reference.skip(diff as int),
            mixed,
        )
    } else {
        seq![]
    }
}

/// Wire form of one chunk.
pub open spec fn chunk_bytes(mode: Mode, chunk: Seq<u8>, reference: Seq<u8>) -> Seq<u8> {
    match mode {
        Mode::Literal => Piece::Literal(chunk).bytes(),
        Mode::Horizontal => pieces_bytes(horizontal_pieces(chunk)),
        Mode::Vertical => vertical_bytes(chunk, reference, false),
        Mode::Mixed => vertical_bytes(chunk, reference, true),
    }
}

/// Wire form of an article against a reference.
pub open spec fn compressed(mode: Mode, article: Seq<u8>, reference: Seq<u8>) -> Seq<u8>
    decreases article.len(),
{
    if article.len() == 0 {
        seq![]
    } else {
        let n = if article.len() < CHUNK {
            article.len() as int
        } else {
            CHUNK as int
        };
        chunk_bytes(mode, article.take(n), reference.take(n)) + compressed(
            mode,
            article.skip(n),
            reference.skip(n),
        )
    }
}

proof fn lemma_leading(a: Seq<u8>, r: Seq<u8>, want: bool)
    requires
        r.len() >= a.len(),
    ensures
        leading(a, r, want) <= a.len(),
        forall|i: int|
            0 <= i < leading(a, r, want) ==> (#[trigger] a[i] == #[trigger] r[i]) == want,
        leading(a, r, want) < a.len() ==> (a[leading(a, r, want) as int] == r[leading(
            a,
            r,
            want,
        ) as int]) != want,
    decreases a.len(),
{
    if a.len() > 0 && (a[0] == r[0]) == want {
        lemma_leading(a.skip(1), r.skip(1), want);
        let k = leading(a.skip(1), r.skip(1), want);
        assert(leading(a, r, want) == k + 1);
        assert forall|i: int| 0 <= i < k + 1 implies (#[trigger] a[i] == #[trigger] r[i]) == want by {
            if i > 0 {
                assert(a.skip(1)[i - 1] == a[i]);
                assert(r.skip(1)[i - 1] == r[i]);
            }
        }
        if k + 1 < a.len() {
            assert(a.skip(1)[k as int] == a[k as int + 1]);
            assert(r.skip(1)[k as int] == r[k as int + 1]);
        }
    }
}

/// Shape of the horizontal strings of a chunk.
proof fn lemma_horizontal_shape(chunk: Seq<u8>)
    ensures
        chunk.len() == 0 <==> horizontal_pieces(chunk).len() == 0,
        chunk.len() > 0 ==> match horizontal_pieces(chunk).last() {
            Piece::Literal(s) => 0 < s.len() <= chunk.len() && s.last() == chunk.last(),
            Piece::Run(b, n) => 2 <= n <= chunk.len() && b == chunk.last(),
            Piece::Same(_) => false,
        },
        horizontal_pieces(chunk).len() <= chunk.len(),
        forall|i: int|
            0 <= i < horizontal_pieces(chunk).len() ==> match #[trigger] horizontal_pieces(chunk)[i] {
                Piece::Literal(s) => 0 < s.len() <= chunk.len(),
                Piece::Run(b, n) => 2 <= n <= chunk.len(),
                Piece::Same(_) => false,
            },
    decreases chunk.len(),
{
    if chunk.len() > 0 {
        lemma_horizontal_shape(chunk.drop_last());
        let before = horizontal_pieces(chunk.drop_last());
        let all = horizontal_pieces(chunk);
        assert forall|i: int| 0 <= i < all.len() implies match #[trigger] all[i] {
            Piece::Literal(s) => 0 < s.len() <= chunk.len(),
            Piece::Run(b, n) => 2 <= n <= chunk.len(),
            Piece::Same(_) => false,
        } by {
            if i < before.len() - 1 {
                assert(all[i] == before[i]);
            } else if before.len() > 0 && i == before.len() - 1 {
                assert(before[i] == before.last());
            }
        }
    }
}

proof fn lemma_pieces_push(pieces: Seq<Piece>, p: Piece)
    ensures
        pieces_bytes(pieces.push(p)) == pieces_bytes(pieces) + p.bytes(),
{
    assert(pieces.push(p).drop_last() =~= pieces);
}

fn push_slice(out: &mut Vec<u8>, src: &[u8])
    ensures
        final(out)@ == old(out)@ + src@,
{
    out.extend_from_slice(src);
    proof {
        assert(out@ =~= old(out)@ + src@);
    }
}

/// Horizontal (run-length) compression of one chunk (at most 63 bytes).
fn horizontal(out: &mut Vec<u8>, chunk: &[u8])
    requires
        chunk.len() <= CHUNK,
    ensures
        final(out)@ == old(out)@ + pieces_bytes(horizontal_pieces(chunk@)),
{
    if chunk.len() == 0 {
        proof {
            assert(out@ =~= old(out)@ + pieces_bytes(horizontal_pieces(chunk@)));
        }
        return;
    }
    let ghost base = out@;
    let mut header: usize = out.len();
    let mut cur: u8 = chunk[0];
    out.push(1);
    out.push(cur);
    let mut literal: bool = true;
    let mut i: usize = 1;
    let ghost mut pieces = seq![Piece::Literal(seq![cur])];
    let ghost mut front = base;
    proof {
        let one = chunk@.take(1);
        assert(one.drop_last() =~= Seq::empty());
        assert(horizontal_pieces(one.drop_last()) =~= Seq::empty());
        assert(horizontal_pieces(one) =~= pieces);
        assert(pieces.drop_last() =~= Seq::empty());
        assert(pieces_bytes(pieces.drop_last()) =~= Seq::empty());
        assert(base =~= base + pieces_bytes(pieces.drop_last()));
        assert(out@ =~= front + pieces.last().bytes());
    }
    while i < chunk.len()
        invariant
            1 <= i <= chunk.len() <= CHUNK,
            pieces == horizontal_pieces(chunk@.take(i as int)),
            pieces.len() > 0,
            cur == chunk@[i - 1],
            front == base + pieces_bytes(pieces.drop_last()),
            header == front.len(),
            out@ == front + pieces.last().bytes(),
            literal == pieces.last() is Literal,
        decreases chunk.len() - i,
    {
        let b: u8 = chunk[i];
        let ghost before = pieces;
        let ghost init = pieces.drop_last();
        let ghost piece = pieces.last();
        proof {
            lemma_horizontal_shape(chunk@.take(i as int));
            assert(chunk@.take(i + 1).drop_last() =~= chunk@.take(i as int));
            assert(chunk@.take(i as int).last() == cur);
            pieces = horizontal_pieces(chunk@.take(i + 1));
            assert(before =~= init.push(piece));
        }
        if b == cur {
            if literal {
                if out[header] == 1 {
                    // A one byte literal becomes a run of two.
                    out.set(header, 0x82);
                    proof {
                        let s = piece->Literal_0;
                        assert(out@[header as int] == 0x82);
                        assert(s.len() == 1);
                        assert(pieces.drop_last() =~= init);
                        assert(out@ =~= front + pieces.last().bytes());
                    }
                } else {
                    // The last literal byte is detached into a new run.
                    let n: u8 = out[header];
                    out.set(header, n - 1);
                    header = out.len() - 1;
                    out.set(header, 0x82);
                    out.push(cur);
                    proof {
                        let s = piece->Literal_0;
                        assert(n == s.len());
                        let shorter = Piece::Literal(s.drop_last());
                        assert(pieces.drop_last() =~= init.push(shorter));
                        lemma_pieces_push(init, shorter);
                        front = base + pieces_bytes(pieces.drop_last());
                        assert(out@ =~= front + pieces.last().bytes());
                    }
                }
                literal = false;
            } else {
                let n: u8 = out[header];
                out.set(header, n + 1);
                proof {
                    assert(pieces.drop_last() =~= init);
                    assert(out@ =~= front + pieces.last().bytes());
                }
            }
        } else {
            cur = b;
            if literal {
                let n: u8 = out[header];
                out.set(header, n + 1);
                out.push(b);
                proof {
                    let s = piece->Literal_0;
                    assert(n == s.len());
                    assert(pieces.drop_last() =~= init);
                    assert(out@ =~= front + pieces.last().bytes());
                }
            } else {
                header = out.len();
                out.push(1);
                out.push(b);
                literal = true;
                proof {
                    assert(pieces.drop_last() =~= before);
                    lemma_pieces_push(init, piece);
                    front = base + pieces_bytes(pieces.drop_last());
                    assert(out@ =~= front + pieces.last().bytes());
                }
            }
        }
        i += 1;
    }
    proof {
        assert(chunk@.take(i as int) =~= chunk@);
        assert(out@ =~= base + pieces_bytes(pieces));
    }
}

/// Number of positions from `pos` on at which two byte strings agree (or differ).
fn count_leading(a: &[u8], r: &[u8], pos: usize, want: bool) -> (n: usize)
    requires
        pos <= a.len() <= r.len(),
    ensures
        n == leading(a@.skip(pos as int), r@.skip(pos as int), want),
        n <= a.len() - pos,
{
    let mut k: usize = pos;
    let ghost whole = leading(a@.skip(pos as int), r@.skip(pos as int), want);
    proof {
        lemma_leading(a@.skip(pos as int), r@.skip(pos as int), want);
    }
    while k < a.len() && (a[k] == r[k]) == want
        invariant
            pos <= k <= a.len() <= r.len(),
            whole == (k - pos) + leading(a@.skip(k as int), r@.skip(k as int), want),
        decreases a.len() - k,
    {
        proof {
            assert(a@.skip(k as int).skip(1) =~= a@.skip(k + 1));
            assert(r@.skip(k as int).skip(1) =~= r@.skip(k + 1));
        }
        k += 1;
    }
    k - pos
}

/// Vertical (or mixed) compression of one chunk against the reference chunk.
fn vertical(out: &mut Vec<u8>, chunk: &[u8], reference: &[u8], mixed: bool)
    requires
        chunk.len() <= CHUNK,
        reference.len() == chunk.len(),
    ensures
        final(out)@ == old(out)@ + vertical_bytes(chunk@, reference@, mixed),
{
    let mut pos: usize = 0;
    let ghost base = out@;
    proof {
        assert(chunk@.skip(0) =~= chunk@);
        assert(reference@.skip(0) =~= reference@);
    }
    while pos < chunk.len()
        invariant
            pos <= chunk.len() <= CHUNK,
            reference.len() == chunk.len(),
            base + vertical_bytes(chunk@, reference@, mixed) == out@ + vertical_bytes(
                chunk@.skip(pos as int),
                reference@.skip(pos as int),
                mixed,
            ),
        decreases chunk.len() - pos,
    {
        let ghost c = chunk@.skip(pos as int);
        let ghost r = reference@.skip(pos as int);
        let ghost before = out@;
        let equal: usize = count_leading(chunk, reference, pos, true);
        let diff: usize = count_leading(chunk, reference, pos, false);
        let n: usize = if equal > 0 {
            equal
        } else {
            diff
        };
        proof {
            lemma_leading(c, r, true);
            lemma_leading(c, r, false);
            assert(c.skip(n as int) =~= chunk@.skip(pos + n));
            assert(r.skip(n as int) =~= reference@.skip(pos + n));
        }
        if equal > 0 {
            out.push(0xC0u8 + equal as u8);
            proof {
                assert(out@ =~= before + Piece::Same(equal as nat).bytes());
            }
        } else {
            let part = vstd::slice::slice_subrange(chunk, pos, pos + diff);
            proof {
                assert(part@ =~= c.take(diff as int));
            }
            if mixed {
                horizontal(out, part);
            } else {
                out.push(diff as u8);
                push_slice(out, part);
                proof {
                    assert(out@ =~= before + Piece::Literal(part@).bytes());
                }
            }
        }
        proof {
            let tail = vertical_bytes(c.skip(n as int), r.skip(n as int), mixed);
            assert(before + vertical_bytes(c, r, mixed) =~= out@ + tail);
        }
        pos += n;
    }
    proof {
        assert(vertical_bytes(chunk@.skip(pos as int), reference@.skip(pos as int), mixed)
            =~= Seq::<u8>::empty());
        assert(out@ =~= base + vertical_bytes(chunk@, reference@, mixed));
    }
}

/// Compress an article. `reference` must be at least as long as `article`.
#[must_use]
pub fn compress(mode: Mode, article: &[u8], reference: &[u8]) -> (r: Vec<u8>)
    requires
        reference.len() >= article.len(),
    ensures
        r@ == compressed(mode, article@, reference@),
{
    let mut out: Vec<u8> = Vec::new();
    let mut pos: usize = 0;
    proof {
        assert(article@.skip(0) =~= article@);
        assert(reference@.skip(0) =~= reference@);
        assert(out@ + compressed(mode, article@, reference@) =~= compressed(
            mode,
            article@,
            reference@,
        ));
    }
    while pos < article.len()
        invariant
            pos <= article.len() <= reference.len(),
            out@ + compressed(mode, article@.skip(pos as int), reference@.skip(pos as int))
                == compressed(mode, article@, reference@),
        decreases article.len() - pos,
    {
        let left: usize = article.len() - pos;
        let n: usize = if left < CHUNK {
            left
        } else {
            CHUNK
        };
        let chunk = vstd::slice::slice_subrange(article, pos, pos + n);
        let refc = vstd::slice::slice_subrange(reference, pos, pos + n);
        let ghost a = article@.skip(pos as int);
        let ghost r = reference@.skip(pos as int);
        let ghost before = out@;
        proof {
            assert(chunk@ =~= a.take(n as int));
            assert(refc@ =~= r.take(n as int));
            assert(a.skip(n as int) =~= article@.skip(pos + n));
            assert(r.skip(n as int) =~= reference@.skip(pos + n));
        }
        match mode {
            Mode::Literal => {
                out.push(n as u8);
                push_slice(&mut out, chunk);
                proof {
                    assert(out@ =~= before + Piece::Literal(chunk@).bytes());
                }
            },
            Mode::Horizontal => {
                horizontal(&mut out, chunk);
            },
            Mode::Vertical => {
                vertical(&mut out, chunk, refc, false);
            },
            Mode::Mixed => {
                vertical(&mut out, chunk, refc, true);
            },
        }
        proof {
            let tail = compressed(mode, a.skip(n as int), r.skip(n as int));
            assert(before + compressed(mode, a, r) =~= out@ + tail);
        }
        pos += n;
    }
    proof {
        assert(compressed(mode, article@.skip(pos as int), reference@.skip(pos as int))
            =~= Seq::<u8>::empty());
        assert(out@ =~= compressed(mode, article@, reference@));
    }
    out
}

// ---- decompression ----

/// A byte repeated `n` times.
pub open spec fn repeated(b: u8, n: nat) -> Seq<u8> {
    Seq::new(n, |i: int| b)
}

/// The `n` bytes of a reference from position `at` on.
pub open spec fn window(reference: Seq<u8>, at: nat, n: nat) -> Seq<u8> {
    reference.subrange(at as int, at as int + n as int)
}

/// Decompression of `c` behind the bytes `acc`: the bytes obtained, and the error that stopped it,
/// if any.
pub open spec fn decompressed(c: Seq<u8>, reference: Seq<u8>, max_len: nat, acc: Seq<u8>) -> (
    Seq<u8>,
    Option<DecompressError>,
)
    decreases c.len(),
{
    if c.len() == 0 {
        (acc, None)
    } else {
        let h = c[0];
        if h >= 0xC0 {
            let n = h - 0xC0;
            if acc.len() + n > max_len {
                (acc, Some(DecompressError::TooLong(max_len as usize)))
            } else if acc.len() + n > reference.len() {
                (acc, Some(DecompressError::TooLong(reference.len() as usize)))
            } else {
                decompressed(
                    c.skip(1),
                    reference,
                    max_len,
                    acc + window(reference, acc.len(), n as nat),
                )
            }
        } else if h >= 0x80 {
            let n = h - 0x80;
            if c.len() < 2 {
                (acc, Some(DecompressError::Truncated))
            } else if acc.len() + n > max_len {
                (acc, Some(DecompressError::TooLong(max_len as usize)))
            } else {
                decompressed(
                    c.skip(2),
                    reference,
                    max_len,
                    acc + repeated(c[1], n as nat),
                )
            }
        } else if h < 0x40 {
            if c.len() < 1 + h {
                (acc, Some(DecompressError::Truncated))
            } else if acc.len() + h > max_len {
                (acc, Some(DecompressError::TooLong(max_len as usize)))
            } else {
                decompressed(c.skip(1 + h as int), reference, max_len, acc + c.subrange(1, 1 + h as int))
            }
        } else {
            (acc, Some(DecompressError::InvalidHeader(h)))
        }
    }
}

/// Decompress an article into `out` (cleared first), using `reference` for vertical strings.
/// `max_len` bounds the decompressed size. On an error `out` holds what came before it.
pub fn decompress(
    compressed: &[u8],
    reference: &[u8],
    max_len: usize,
    out: &mut Vec<u8>,
) -> (r: Result<(), DecompressError>)
    ensures
        ({
            let (bytes, error) = decompressed(
                compressed@,
                reference@,
                max_len as nat,
                Seq::empty(),
            );
            &&& final(out)@ == bytes
            &&& r is Ok <==> error is None
            &&& r matches Err(e) ==> error == Some(e)
        }),
        final(out)@.len() <= max_len,
{
    out.clear();
    let mut pos: usize = 0;
    let ghost whole = decompressed(compressed@, reference@, max_len as nat, Seq::empty());
    proof {
        assert(compressed@.skip(0) =~= compressed@);
        assert(out@ =~= Seq::empty());
    }
    while pos < compressed.len()
        invariant
            pos <= compressed.len(),
            out@.len() <= max_len,
            whole == decompressed(compressed@, reference@, max_len as nat, Seq::empty()),
            whole == decompressed(compressed@.skip(pos as int), reference@, max_len as nat, out@),
        decreases compressed.len() - pos,
    {
        let ghost c = compressed@.skip(pos as int);
        let ghost acc = out@;
        let h: u8 = compressed[pos];
        let left: usize = compressed.len() - pos;
        let room: usize = max_len - out.len();
        if h >= 0xC0 {
            let n: usize = (h - 0xC0) as usize;
            if n > room {
                return Err(DecompressError::TooLong(max_len));
            }
            let start: usize = out.len();
            if start > reference.len() || n > reference.len() - start {
                return Err(DecompressError::TooLong(reference.len()));
            }
            let src = vstd::slice::slice_subrange(reference, start, start + n);
            push_slice(out, src);
            pos += 1;
            proof {
                assert(c.skip(1) =~= compressed@.skip(pos as int));
                assert(src@ =~= window(reference@, acc.len(), n as nat));
            }
        } else if h >= 0x80 {
            let n: usize = (h - 0x80) as usize;
            if left < 2 {
                return Err(DecompressError::Truncated);
            }
            let b: u8 = compressed[pos + 1];
            if n > room {
                return Err(DecompressError::TooLong(max_len));
            }
            let mut k: usize = 0;
            while k < n
                invariant
                    k <= n,
                    out@ == acc + repeated(b, k as nat),
                decreases n - k,
            {
                out.push(b);
                k += 1;
                proof {
                    assert(out@ =~= acc + repeated(b, k as nat));
                }
            }
            pos += 2;
            proof {
                assert(c.skip(2) =~= compressed@.skip(pos as int));
            }
        } else if h < 0x40 {
            let n: usize = h as usize;
            if n > left - 1 {
                return Err(DecompressError::Truncated);
            }
            if n > room {
                return Err(DecompressError::TooLong(max_len));
            }
            let src = vstd::slice::slice_subrange(compressed, pos + 1, pos + 1 + n);
            push_slice(out, src);
            pos += 1 + n;
            proof {
                assert(c.skip(1 + h as int) =~= compressed@.skip(pos as int));
                assert(src@ =~= c.subrange(1, 1 + h as int));
            }
        } else {
            return Err(DecompressError::InvalidHeader(h));
        }
    }
    proof {
        assert(compressed@.skip(pos as int) =~= Seq::empty());
    }
    Ok(())
}

// ---- decompression undoes compression ----

/// Bytes that strings stand for behind `acc`.
pub open spec fn expanded(pieces: Seq<Piece>, reference: Seq<u8>, acc: Seq<u8>) -> Seq<u8>
    decreases pieces.len(),
{
    if pieces.len() == 0 {
        acc
    } else {
        let before = expanded(pieces.drop_last(), reference, acc);
        before + match pieces.last() {
            Piece::Literal(s) => s,
            Piece::Run(b, n) => repeated(b, n),
            Piece::Same(n) => window(reference, before.len(), n as nat),
        }
    }
}

proof fn lemma_piece_read_back(
    p: Piece,
    rest: Seq<u8>,
    reference: Seq<u8>,
    max_len: nat,
    acc: Seq<u8>,
)
    requires
        match p {
            Piece::Literal(s) => s.len() <= CHUNK && acc.len() + s.len() <= max_len,
            Piece::Run(b, n) => n <= CHUNK && acc.len() + n <= max_len,
            Piece::Same(n) => n <= CHUNK && acc.len() + n <= max_len && acc.len() + n
                <= reference.len(),
        },
    ensures
        decompressed(p.bytes() + rest, reference, max_len, acc) == decompressed(
            rest,
            reference,
            max_len,
            acc + match p {
                Piece::Literal(s) => s,
                Piece::Run(b, n) => repeated(b, n),
                Piece::Same(n) => window(reference, acc.len(), n as nat),
            },
        ),
{
    let c = p.bytes() + rest;
    match p {
        Piece::Literal(s) => {
            assert(c[0] == s.len());
            assert(c.subrange(1, 1 + s.len() as int) =~= s);
            assert(c.skip(1 + s.len() as int) =~= rest);
        },
        Piece::Run(b, n) => {
            assert(c[0] == 0x80 + n);
            assert(c[1] == b);
            assert(c.skip(2) =~= rest);
        },
        Piece::Same(n) => {
            assert(c[0] == 0xC0 + n);
            assert(c.skip(1) =~= rest);
        },
    }
}

/// Horizontal strings stand for the chunk they were made from.
proof fn lemma_horizontal_expands(chunk: Seq<u8>, reference: Seq<u8>, acc: Seq<u8>)
    ensures
        expanded(horizontal_pieces(chunk), reference, acc) == acc + chunk,
    decreases chunk.len(),
{
    if chunk.len() == 0 {
        assert(acc + chunk =~= acc);
    } else {
        let d = chunk.drop_last();
        let before = horizontal_pieces(d);
        let all = horizontal_pieces(chunk);
        let b = chunk.last();
        lemma_horizontal_expands(d, reference, acc);
        lemma_horizontal_shape(d);
        assert(chunk =~= d.push(b));
        assert(acc + chunk =~= (acc + d).push(b));
        if before.len() == 0 {
            assert(all.drop_last() =~= Seq::empty());
            assert(expanded(all.drop_last(), reference, acc) == acc);
            assert(expanded(all, reference, acc) =~= acc + chunk);
        } else {
            let init = before.drop_last();
            let e = expanded(init, reference, acc);
            match before.last() {
                Piece::Literal(s) => {
                    assert(acc + d == e + s);
                    if s.last() == b {
                        if s.len() == 1 {
                            assert(all.drop_last() =~= init);
                            assert(s =~= seq![b]);
                            assert(repeated(b, 2) =~= seq![b].push(b));
                            assert(all.last() == Piece::Run(b, 2));
                            assert(expanded(all, reference, acc) == e + repeated(b, 2));
                            assert(expanded(all, reference, acc) =~= acc + chunk);
                        } else {
                            let shorter = Piece::Literal(s.drop_last());
                            assert(all.drop_last() =~= init.push(shorter));
                            assert(init.push(shorter).drop_last() =~= init);
                            assert(expanded(init.push(shorter), reference, acc) == e + s.drop_last());
                            assert(s =~= s.drop_last().push(b));
                            assert(repeated(b, 2) =~= seq![b].push(b));
                            assert(expanded(all, reference, acc) =~= acc + chunk);
                        }
                    } else {
                        assert(all.drop_last() =~= init);
                        assert(all.last() == Piece::Literal(s.push(b)));
                        assert(expanded(all, reference, acc) == e + s.push(b));
                        assert(expanded(all, reference, acc) =~= acc + chunk);
                    }
                },
                Piece::Run(x, n) => {
                    assert(acc + d == e + repeated(x, n));
                    if x == b {
                        assert(all.drop_last() =~= init);
                        assert(repeated(b, n + 1) =~= repeated(x, n).push(b));
                        assert(expanded(all, reference, acc) =~= acc + chunk);
                    } else {
                        assert(all.drop_last() =~= before);
                        assert(expanded(all, reference, acc) =~= acc + chunk);
                    }
                },
                Piece::Same(_) => {},
            }
        }
    }
}

/// Bytes behind `acc` never get fewer.
proof fn lemma_expanded_grows(pieces: Seq<Piece>, reference: Seq<u8>, acc: Seq<u8>, k: int)
    requires
        0 <= k <= pieces.len(),
        forall|i: int| 0 <= i < pieces.len() ==> !(#[trigger] pieces[i] is Same),
    ensures
        expanded(pieces.take(k), reference, acc).len() <= expanded(pieces, reference, acc).len(),
    decreases pieces.len() - k,
{
    if k == pieces.len() {
        assert(pieces.take(k) =~= pieces);
    } else {
        lemma_expanded_grows(pieces, reference, acc, k + 1);
        assert(pieces.take(k + 1).drop_last() =~= pieces.take(k));
        assert(pieces.take(k + 1).last() == pieces[k]);
    }
}

/// A prefix of the horizontal strings of a chunk is decompressed to what it stands for.
proof fn lemma_horizontal_read_back(
    chunk: Seq<u8>,
    k: int,
    rest: Seq<u8>,
    reference: Seq<u8>,
    max_len: nat,
    acc: Seq<u8>,
)
    requires
        chunk.len() <= CHUNK,
        0 <= k <= horizontal_pieces(chunk).len(),
        acc.len() + chunk.len() <= max_len,
    ensures
        decompressed(
            pieces_bytes(horizontal_pieces(chunk).take(k)) + rest,
            reference,
            max_len,
            acc,
        ) == decompressed(
            rest,
            reference,
            max_len,
            expanded(horizontal_pieces(chunk).take(k), reference, acc),
        ),
    decreases k,
{
    let pieces = horizontal_pieces(chunk);
    if k == 0 {
        assert(pieces.take(0) =~= Seq::empty());
        assert(pieces_bytes(pieces.take(0)) + rest =~= rest);
    } else {
        let front = pieces.take(k).drop_last();
        let p = pieces[k - 1];
        assert(front =~= pieces.take(k - 1));
        assert(pieces.take(k).last() == p);
        lemma_horizontal_shape(chunk);
        lemma_horizontal_expands(chunk, reference, acc);
        lemma_expanded_grows(pieces, reference, acc, k);
        assert(pieces_bytes(pieces.take(k)) + rest =~= pieces_bytes(front) + (p.bytes() + rest));
        lemma_horizontal_read_back(chunk, k - 1, p.bytes() + rest, reference, max_len, acc);
        let e = expanded(front, reference, acc);
        assert(e.len() <= expanded(pieces.take(k), reference, acc).len());
        lemma_piece_read_back(p, rest, reference, max_len, e);
    }
}

proof fn lemma_horizontal_chunk(
    chunk: Seq<u8>,
    rest: Seq<u8>,
    reference: Seq<u8>,
    max_len: nat,
    acc: Seq<u8>,
)
    requires
        chunk.len() <= CHUNK,
        acc.len() + chunk.len() <= max_len,
    ensures
        decompressed(
            pieces_bytes(horizontal_pieces(chunk)) + rest,
            reference,
            max_len,
            acc,
        ) == decompressed(rest, reference, max_len, acc + chunk),
{
    let pieces = horizontal_pieces(chunk);
    assert(pieces.take(pieces.len() as int) =~= pieces);
    lemma_horizontal_read_back(chunk, pieces.len() as int, rest, reference, max_len, acc);
    lemma_horizontal_expands(chunk, reference, acc);
}

proof fn lemma_vertical_chunk(
    chunk: Seq<u8>,
    refc: Seq<u8>,
    mixed: bool,
    rest: Seq<u8>,
    reference: Seq<u8>,
    max_len: nat,
    acc: Seq<u8>,
)
    requires
        chunk.len() <= CHUNK,
        refc.len() == chunk.len(),
        acc.len() + chunk.len() <= max_len,
        acc.len() + chunk.len() <= reference.len(),
        refc == window(reference, acc.len(), chunk.len()),
    ensures
        decompressed(vertical_bytes(chunk, refc, mixed) + rest, reference, max_len, acc)
            == decompressed(rest, reference, max_len, acc + chunk),
    decreases chunk.len(),
{
    if chunk.len() == 0 {
        assert(vertical_bytes(chunk, refc, mixed) + rest =~= rest);
        assert(acc + chunk =~= acc);
    } else {
        let equal = leading(chunk, refc, true);
        let diff = leading(chunk, refc, false);
        lemma_leading(chunk, refc, true);
        lemma_leading(chunk, refc, false);
        let n = if equal > 0 {
            equal as int
        } else {
            diff as int
        };
        assert(n > 0);
        let head = chunk.take(n);
        let tail = vertical_bytes(chunk.skip(n), refc.skip(n), mixed);
        let next = acc + head;
        assert(next + chunk.skip(n) =~= acc + chunk);
        assert(refc.skip(n) =~= window(reference, next.len(), chunk.skip(n).len()));
        lemma_vertical_chunk(chunk.skip(n), refc.skip(n), mixed, rest, reference, max_len, next);
        if equal > 0 {
            let p = Piece::Same(equal);
            assert(vertical_bytes(chunk, refc, mixed) + rest =~= p.bytes() + (tail + rest));
            lemma_piece_read_back(p, tail + rest, reference, max_len, acc);
            assert(window(reference, acc.len(), equal) =~= head) by {
                assert forall|i: int| 0 <= i < n implies window(reference, acc.len(), equal)[i] == head[i] by {
                    assert(chunk[i] == refc[i]);
                }
            }
        } else {
            assert(vertical_bytes(chunk, refc, mixed) + rest =~= difference_bytes(head, mixed) + (
            tail + rest));
            if mixed {
                lemma_horizontal_chunk(head, tail + rest, reference, max_len, acc);
            } else {
                lemma_piece_read_back(Piece::Literal(head), tail + rest, reference, max_len, acc);
            }
        }
    }
}

proof fn lemma_article_read_back(
    mode: Mode,
    article: Seq<u8>,
    refc: Seq<u8>,
    reference: Seq<u8>,
    max_len: nat,
    acc: Seq<u8>,
)
    requires
        refc.len() >= article.len(),
        acc.len() + article.len() <= max_len,
        acc.len() + article.len() <= reference.len(),
        refc.take(article.len() as int) == window(reference, acc.len(), article.len()),
    ensures
        decompressed(compressed(mode, article, refc), reference, max_len, acc) == (
            acc + article,
            None::<DecompressError>,
        ),
    decreases article.len(),
{
    if article.len() == 0 {
        assert(acc + article =~= acc);
    } else {
        let n = if article.len() < CHUNK {
            article.len() as int
        } else {
            CHUNK as int
        };
        let chunk = article.take(n);
        let rc = refc.take(n);
        let tail = compressed(mode, article.skip(n), refc.skip(n));
        let next = acc + chunk;
        let same = window(reference, acc.len(), article.len());
        assert(rc =~= window(reference, acc.len(), n as nat)) by {
            assert forall|i: int| 0 <= i < n implies rc[i] == window(reference, acc.len(), n as nat)[i] by {
                assert(refc.take(article.len() as int)[i] == same[i]);
            }
        }
        assert(refc.skip(n).take(article.skip(n).len() as int) =~= window(reference, next.len(), article.skip(n).len())) by {
            let l = refc.skip(n).take(article.skip(n).len() as int);
            let r = window(reference, next.len(), article.skip(n).len());
            assert forall|i: int| 0 <= i < l.len() implies l[i] == r[i] by {
                assert(refc.take(article.len() as int)[i + n] == same[i + n]);
            }
        }
        lemma_article_read_back(mode, article.skip(n), refc.skip(n), reference, max_len, next);
        assert(next + article.skip(n) =~= acc + article);
        match mode {
            Mode::Literal => {
                lemma_piece_read_back(Piece::Literal(chunk), tail, reference, max_len, acc);
            },
            Mode::Horizontal => {
                lemma_horizontal_chunk(chunk, tail, reference, max_len, acc);
            },
            Mode::Vertical => {
                lemma_vertical_chunk(chunk, rc, false, tail, reference, max_len, acc);
            },
            Mode::Mixed => {
                lemma_vertical_chunk(chunk, rc, true, tail, reference, max_len, acc);
            },
        }
    }
}

/// Decompression undoes compression in every mode, for any reference that covers the article and
/// any bound that admits it.
pub proof fn law_decompress_inverts_compress(
    mode: Mode,
    article: Seq<u8>,
    reference: Seq<u8>,
    max_len: nat,
)
    requires
        article.len() <= reference.len(),
        article.len() <= max_len,
    ensures
        decompressed(compressed(mode, article, reference), reference, max_len, Seq::empty()) == (
            article,
            None::<DecompressError>,
        ),
{
    assert(reference.take(article.len() as int) =~= window(reference, 0, article.len()));
    assert(Seq::empty() + article =~= article);
    lemma_article_read_back(mode, article, reference, reference, max_len, Seq::empty());
}

proof fn lemma_literal_read_back(
    article: Seq<u8>,
    first: Seq<u8>,
    reference: Seq<u8>,
    max_len: nat,
    acc: Seq<u8>,
)
    requires
        first.len() >= article.len(),
        acc.len() + article.len() <= max_len,
    ensures
        decompressed(compressed(Mode::Literal, article, first), reference, max_len, acc) == (
            acc + article,
            None::<DecompressError>,
        ),
    decreases article.len(),
{
    if article.len() == 0 {
        assert(acc + article =~= acc);
    } else {
        let n = if article.len() < CHUNK {
            article.len() as int
        } else {
            CHUNK as int
        };
        let chunk = article.take(n);
        let next = acc + chunk;
        let tail = compressed(Mode::Literal, article.skip(n), first.skip(n));
        lemma_literal_read_back(article.skip(n), first.skip(n), reference, max_len, next);
        assert(next + article.skip(n) =~= acc + article);
        lemma_piece_read_back(Piece::Literal(chunk), tail, reference, max_len, acc);
    }
}

/// An article sent in literal mode does not depend on the reference of either end.
pub proof fn law_literal_articles_need_no_reference(
    article: Seq<u8>,
    sender: Seq<u8>,
    receiver: Seq<u8>,
    max_len: nat,
)
    requires
        article.len() <= sender.len(),
        article.len() <= max_len,
    ensures
        decompressed(compressed(Mode::Literal, article, sender), receiver, max_len, Seq::empty())
            == (article, None::<DecompressError>),
{
    assert(Seq::empty() + article =~= article);
    lemma_literal_read_back(article, sender, receiver, max_len, Seq::empty());
}

// ---- state kept between articles ----

/// A reference after an article: the article, then what the reference held beyond it.
pub open spec fn reference_after(reference: Seq<u8>, article: Seq<u8>) -> Seq<u8> {
    if article.len() < reference.len() {
        article + reference.skip(article.len() as int)
    } else {
        article
    }
}

/// A reference padded with zeros to at least `n` bytes.
pub open spec fn padded(reference: Seq<u8>, n: nat) -> Seq<u8> {
    if reference.len() < n {
        reference + Seq::new((n - reference.len()) as nat, |i: int| 0u8)
    } else {
        reference
    }
}

/// Persistent reference buffer shared by both ends of a compressed transfer.
#[derive(Debug)]
pub struct Reference {
    buf: Vec<u8>,
}

impl View for Reference {
    type V = Seq<u8>;

    closed spec fn view(&self) -> Seq<u8> {
        self.buf@
    }
}

impl Reference {
    /// New zero-filled reference for articles of at most `max_article` bytes.
    #[must_use]
    pub fn new(max_article: usize) -> (r: Self)
        ensures
            r@ == Seq::new(
                (if max_article == 0 {
                    1
                } else {
                    max_article
                }) as nat,
                |i: int| 0u8,
            ),
    {
        let n: usize = if max_article == 0 {
            1
        } else {
            max_article
        };
        let mut buf: Vec<u8> = Vec::new();
        buf.resize(n, 0);
        proof {
            assert(buf@ =~= Seq::new(n as nat, |i: int| 0u8));
        }
        Reference { buf }
    }

    /// Reference bytes.
    #[must_use]
    pub fn as_slice(&self) -> (r: &[u8])
        ensures
            r@ == self@,
    {
        self.buf.as_slice()
    }

    /// Record `article` as the last transmitted article (overwrites the beginning of the buffer).
    pub fn update(&mut self, article: &[u8])
        ensures
            final(self)@ == reference_after(old(self)@, article@),
    {
        let mut i: usize = 0;
        while i < article.len()
            invariant
                i <= article.len(),
                self.buf@.len() == if i < old(self)@.len() {
                    old(self)@.len()
                } else {
                    i as nat
                },
                forall|k: int| 0 <= k < i ==> self.buf@[k] == article@[k],
                forall|k: int| i <= k < old(self)@.len() ==> self.buf@[k] == old(self)@[k],
            decreases article.len() - i,
        {
            if i < self.buf.len() {
                self.buf.set(i, article[i]);
            } else {
                self.buf.push(article[i]);
            }
            i += 1;
        }
        proof {
            assert(self@ =~= reference_after(old(self)@, article@));
        }
    }

    /// Grow the buffer with zeros to at least `n` bytes.
    fn grow(&mut self, n: usize)
        ensures
            final(self)@ == padded(old(self)@, n as nat),
    {
        if n > self.buf.len() {
            self.buf.resize(n, 0);
        }
        proof {
            assert(self@ =~= padded(old(self)@, n as nat));
        }
    }

    /// Cut the buffer down to at most `n` bytes.
    fn shrink(&mut self, n: usize)
        ensures
            final(self)@ == (if n < old(self)@.len() {
                old(self)@.take(n as int)
            } else {
                old(self)@
            }),
    {
        self.buf.truncate(n);
    }

    /// Capacity of the buffer.
    #[must_use]
    pub fn capacity(&self) -> (r: usize)
        ensures
            r == self@.len(),
    {
        self.buf.len()
    }
}

/// Stateful compressor: applies the negotiated compression, switches to literal mode for the
/// first article after a synchronisation point and maintains the reference.
#[derive(Debug)]
pub struct Compressor {
    compression: Compression,
    reference: Reference,
    after_sync: bool,
}

impl Compressor {
    /// Negotiated compression.
    pub closed spec fn spec_compression(self) -> Compression {
        self.compression
    }

    /// Reference article.
    pub closed spec fn spec_reference(self) -> Seq<u8> {
        self.reference@
    }

    /// Whether the next article is sent literal.
    pub closed spec fn spec_after_sync(self) -> bool {
        self.after_sync
    }

    /// Mode of the next article.
    pub open spec fn next_mode(self) -> Mode {
        if self.spec_after_sync() {
            Mode::Literal
        } else {
            Mode::of(self.spec_compression())
        }
    }

    /// New compressor for the negotiated `compression` and articles of at most `max_article`.
    #[must_use]
    pub fn new(compression: Compression, max_article: usize) -> (r: Self)
        ensures
            r.spec_compression() == compression,
            r.spec_reference() == Seq::new(
                (if max_article == 0 {
                    1
                } else {
                    max_article
                }) as nat,
                |i: int| 0u8,
            ),
            r.spec_after_sync(),
    {
        Compressor { compression, reference: Reference::new(max_article), after_sync: true }
    }

    /// Whether any transformation is applied.
    #[must_use]
    pub fn enabled(&self) -> (r: bool)
        ensures
            r == (self.spec_compression() != Compression::Off),
    {
        !matches!(self.compression, Compression::Off)
    }

    /// Notify that a synchronisation point was emitted: the next article is sent literal.
    pub fn sync_point(&mut self)
        ensures
            final(self).spec_compression() == old(self).spec_compression(),
            final(self).spec_reference() == old(self).spec_reference(),
            final(self).spec_after_sync(),
    {
        self.after_sync = true;
    }

    /// Compress an article (returns the wire form).
    #[must_use]
    pub fn compress(&mut self, article: &[u8]) -> (r: Vec<u8>)
        ensures
            r@ == compressed(
                old(self).next_mode(),
                article@,
                padded(old(self).spec_reference(), article@.len()),
            ),
            final(self).spec_compression() == old(self).spec_compression(),
            final(self).spec_reference() == reference_after(old(self).spec_reference(), article@),
            !final(self).spec_after_sync(),
    {
        self.reference.grow(article.len());
        let mode = if self.after_sync {
            Mode::Literal
        } else {
            Mode::from(self.compression)
        };
        let out = compress(mode, article, self.reference.as_slice());
        self.reference.update(article);
        self.after_sync = false;
        proof {
            assert(self.spec_reference() =~= reference_after(old(self).spec_reference(), article@));
        }
        out
    }
}

/// Stateful decompressor maintaining the reference article.
#[derive(Debug)]
pub struct Decompressor {
    reference: Reference,
    max_article: usize,
}

impl Decompressor {
    /// Reference article.
    pub closed spec fn spec_reference(self) -> Seq<u8> {
        self.reference@
    }

    /// Longest article accepted.
    pub closed spec fn spec_max_article(self) -> nat {
        self.max_article as nat
    }

    /// New decompressor for articles of at most `max_article` bytes (0 = unbounded).
    #[must_use]
    pub fn new(max_article: usize) -> (r: Self)
        ensures
            r.spec_max_article() == article_limit(max_article),
            r.spec_reference() == Seq::new(
                (if max_article == 0 {
                    1
                } else {
                    max_article
                }) as nat,
                |i: int| 0u8,
            ),
    {
        let limit: usize = if max_article == 0 {
            usize::MAX
        } else {
            max_article
        };
        Decompressor { reference: Reference::new(max_article), max_article: limit }
    }

    /// Decompress an article. An error leaves the reference as it was.
    pub fn decompress(&mut self, compressed: &[u8]) -> (r: Result<Vec<u8>, DecompressError>)
        ensures
            final(self).spec_max_article() == old(self).spec_max_article(),
            ({
                let (bytes, error) = decompressed(
                    compressed@,
                    reference_for(
                        old(self).spec_reference(),
                        old(self).spec_max_article(),
                        compressed@,
                    ),
                    old(self).spec_max_article(),
                    Seq::empty(),
                );
                match r {
                    Ok(article) => {
                        &&& error is None
                        &&& article@ == bytes
                        &&& final(self).spec_reference() == reference_after(
                            old(self).spec_reference(),
                            article@,
                        )
                    },
                    Err(e) => {
                        &&& error == Some(e)
                        &&& final(self).spec_reference() == old(self).spec_reference()
                    },
                }
            }),
    {
        let ghost before = self.reference@;
        let kept: usize = self.reference.capacity();
        if self.max_article == usize::MAX {
            let n: usize = article_len(compressed);
            self.reference.grow(n);
        }
        let ghost base = self.reference@;
        let mut out: Vec<u8> = Vec::new();
        match decompress(compressed, self.reference.as_slice(), self.max_article, &mut out) {
            Ok(()) => {
                self.reference.update(out.as_slice());
                proof {
                    lemma_expanded_len(compressed@, base, self.max_article as nat, Seq::empty());
                    assert(reference_after(base, out@) =~= reference_after(before, out@));
                }
                Ok(out)
            },
            Err(e) => {
                self.reference.shrink(kept);
                proof {
                    assert(self.reference@ =~= before);
                }
                Err(e)
            },
        }
    }
}

/// Longest article that a limit admits: 0 admits every length.
pub open spec fn article_limit(max_article: usize) -> nat {
    if max_article == 0 {
        usize::MAX as nat
    } else {
        max_article as nat
    }
}

/// Length of the article that compressed data stands for, as far as the data can be read.
pub open spec fn expanded_len(c: Seq<u8>) -> nat
    decreases c.len(),
{
    if c.len() == 0 {
        0
    } else {
        let h = c[0];
        if h >= 0xC0 {
            (h - 0xC0) as nat + expanded_len(c.skip(1))
        } else if h >= 0x80 {
            if c.len() < 2 {
                0
            } else {
                (h - 0x80) as nat + expanded_len(c.skip(2))
            }
        } else if h < 0x40 && c.len() >= 1 + h {
            h as nat + expanded_len(c.skip(1 + h as int))
        } else {
            0
        }
    }
}

/// The reference that compressed data is read against. Where articles have no limit, zeros stand
/// behind the reference, as they do where the article is compressed.
pub open spec fn reference_for(reference: Seq<u8>, max_article: nat, c: Seq<u8>) -> Seq<u8> {
    if max_article == usize::MAX {
        padded(reference, clamp_usize(expanded_len(c)) as nat)
    } else {
        reference
    }
}

/// Length of the article that compressed data stands for, up to the largest machine number.
fn article_len(c: &[u8]) -> (r: usize)
    ensures
        r == clamp_usize(expanded_len(c@)),
{
    let mut total: usize = 0;
    let mut pos: usize = 0;
    proof {
        assert(c@.skip(0) =~= c@);
    }
    while pos < c.len()
        invariant
            pos <= c.len(),
            total + expanded_len(c@.skip(pos as int)) == expanded_len(c@) || (total == usize::MAX
                && expanded_len(c@) >= usize::MAX),
        decreases c.len() - pos,
    {
        let h: u8 = c[pos];
        let ghost rest = c@.skip(pos as int);
        let left: usize = c.len() - pos;
        let (n, step): (usize, usize) = if h >= 0xC0 {
            ((h - 0xC0) as usize, 1)
        } else if h >= 0x80 {
            if left < 2 {
                (0, left)
            } else {
                ((h - 0x80) as usize, 2)
            }
        } else if h < 0x40 && left >= 1 + h as usize {
            (h as usize, 1 + h as usize)
        } else {
            (0, left)
        };
        proof {
            assert(rest[0] == h);
            assert(rest.skip(step as int) =~= c@.skip(pos + step));
            if step == left {
                assert(c@.skip(pos + step) =~= Seq::<u8>::empty());
            }
        }
        total = if n > usize::MAX - total {
            usize::MAX
        } else {
            total + n
        };
        pos += step;
    }
    proof {
        assert(c@.skip(pos as int) =~= Seq::<u8>::empty());
    }
    total
}

/// What is decompressed is as long as the compressed data says.
proof fn lemma_expanded_len(c: Seq<u8>, reference: Seq<u8>, max_len: nat, acc: Seq<u8>)
    ensures
        ({
            let (out, error) = decompressed(c, reference, max_len, acc);
            error is None ==> out.len() == acc.len() + expanded_len(c)
        }),
    decreases c.len(),
{
    if c.len() > 0 {
        let h = c[0];
        if h >= 0xC0 {
            lemma_expanded_len(
                c.skip(1),
                reference,
                max_len,
                acc + window(reference, acc.len(), (h - 0xC0) as nat),
            );
        } else if h >= 0x80 {
            if c.len() >= 2 {
                lemma_expanded_len(
                    c.skip(2),
                    reference,
                    max_len,
                    acc + repeated(c[1], (h - 0x80) as nat),
                );
            }
        } else if h < 0x40 && c.len() >= 1 + h {
            lemma_expanded_len(
                c.skip(1 + h as int),
                reference,
                max_len,
                acc + c.subrange(1, 1 + h as int),
            );
        }
    }
}

/// Both ends of a compressed transfer stay in step: from equal references, the receiver gets the
/// very article that the sender compressed, and the references are equal again. This holds for
/// every article within the negotiated length, and for every article where there is no limit.
pub proof fn law_both_ends_stay_in_step(
    mode: Mode,
    sender: Seq<u8>,
    receiver: Seq<u8>,
    article: Seq<u8>,
    max_article: nat,
)
    requires
        sender == receiver,
        article.len() <= max_article,
        article.len() <= sender.len() || max_article == usize::MAX,
    ensures
        ({
            let wire = compressed(mode, article, padded(sender, article.len()));
            let (got, error) = decompressed(
                wire,
                reference_for(receiver, max_article, wire),
                max_article,
                Seq::empty(),
            );
            &&& error is None
            &&& got == article
            &&& reference_after(sender, article) == reference_after(receiver, got)
            &&& article.len() <= sender.len() ==> reference_after(sender, article).len()
                == sender.len()
        }),
{
    let base = padded(sender, article.len());
    let wire = compressed(mode, article, base);
    law_decompress_inverts_compress(mode, article, base, max_article);
    lemma_expanded_len(wire, base, max_article, Seq::empty());
    assert(expanded_len(wire) == article.len());
}

} // verus!
