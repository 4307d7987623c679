//! What compression is for: runs and repetitions take little room, and nothing takes much more than
//! its literal form.

use crate::compress::{
    article_limit, compressed, decompressed, difference_bytes, horizontal_pieces, leading,
    pieces_bytes, reference_after, repeated, vertical_bytes, DecompressError, Mode, Piece, CHUNK,
};
use vstd::prelude::*;

verus! {

proof fn lemma_run(b: u8, n: nat)
    requires
        n >= 2,
    ensures
        horizontal_pieces(repeated(b, n)) == seq![Piece::Run(b, n)],
    decreases n,
{
    let s = repeated(b, n);
    assert(s.drop_last() =~= repeated(b, (n - 1) as nat));
    let one = repeated(b, 1);
    assert(one.drop_last() =~= Seq::<u8>::empty());
    assert(horizontal_pieces(one.drop_last()) =~= Seq::<Piece>::empty());
    assert(horizontal_pieces(one) == seq![Piece::Literal(seq![b])]);
    if n > 2 {
        lemma_run(b, (n - 1) as nat);
        let before = seq![Piece::Run(b, (n - 1) as nat)];
        assert(before.drop_last().push(Piece::Run(b, n)) =~= seq![Piece::Run(b, n)]);
    } else {
        let before = seq![Piece::Literal(seq![b])];
        assert(before.drop_last().push(Piece::Run(b, 2)) =~= seq![Piece::Run(b, 2)]);
    }
}

/// A run of one byte takes two bytes, however long it is within a chunk.
pub proof fn law_runs_take_two_bytes(b: u8, n: nat, reference: Seq<u8>)
    requires
        2 <= n <= CHUNK,
    ensures
        compressed(Mode::Horizontal, repeated(b, n), reference) == seq![(0x80 + n) as u8, b],
{
    let s = repeated(b, n);
    lemma_run(b, n);
    let p = Piece::Run(b, n);
    assert(s.take(n as int) =~= s);
    assert(s.skip(n as int) =~= Seq::<u8>::empty());
    assert(seq![p].drop_last() =~= Seq::<Piece>::empty());
    assert(pieces_bytes(seq![p].drop_last()) =~= Seq::<u8>::empty());
    assert(pieces_bytes(seq![p]) =~= p.bytes());
    assert(compressed(Mode::Horizontal, s.skip(n as int), reference.skip(n as int)) =~= Seq::<
        u8,
    >::empty());
    assert(compressed(Mode::Horizontal, s, reference) =~= seq![(0x80 + n) as u8, b]);
}

proof fn lemma_same(a: Seq<u8>)
    ensures
        leading(a, a, true) == a.len(),
    decreases a.len(),
{
    if a.len() > 0 {
        lemma_same(a.skip(1));
    }
}

/// An article that repeats its reference takes one byte for every chunk.
pub proof fn law_repeated_articles_take_a_byte_per_chunk(article: Seq<u8>, mixed: bool)
    ensures
        ({
            let mode = if mixed {
                Mode::Mixed
            } else {
                Mode::Vertical
            };
            compressed(mode, article, article).len() == (article.len() + CHUNK - 1) / CHUNK as int
        }),
    decreases article.len(),
{
    let mode = if mixed {
        Mode::Mixed
    } else {
        Mode::Vertical
    };
    if article.len() > 0 {
        let n = if article.len() < CHUNK {
            article.len() as int
        } else {
            CHUNK as int
        };
        let chunk = article.take(n);
        lemma_same(chunk);
        assert(chunk.skip(n) =~= Seq::<u8>::empty());
        assert(vertical_bytes(chunk.skip(n), chunk.skip(n), mixed) =~= Seq::<u8>::empty());
        assert(vertical_bytes(chunk, chunk, mixed).len() == 1);
        law_repeated_articles_take_a_byte_per_chunk(article.skip(n), mixed);
    }
}

proof fn lemma_different(a: Seq<u8>, r: Seq<u8>)
    requires
        a.len() <= r.len(),
        forall|i: int| 0 <= i < a.len() ==> a[i] != r[i],
    ensures
        leading(a, r, false) == a.len(),
        a.len() > 0 ==> leading(a, r, true) == 0,
    decreases a.len(),
{
    if a.len() > 0 {
        let b = a.skip(1);
        let q = r.skip(1);
        assert forall|i: int| 0 <= i < b.len() implies b[i] != q[i] by {
            assert(b[i] == a[i + 1] && q[i] == r[i + 1]);
        }
        lemma_different(b, q);
    }
}

/// Where an article differs from its reference throughout, vertical compression takes it literally;
/// mixed compression still takes a run in two bytes.
pub proof fn law_differences_are_compressed(chunk: Seq<u8>, b: u8, n: nat, reference: Seq<u8>)
    requires
        0 < chunk.len() <= CHUNK,
        2 <= n <= CHUNK,
        reference.len() >= CHUNK,
    ensures
        (forall|i: int| 0 <= i < chunk.len() ==> chunk[i] != reference[i]) ==> compressed(
            Mode::Vertical,
            chunk,
            reference,
        ) == seq![chunk.len() as u8] + chunk,
        (forall|i: int| 0 <= i < n ==> reference[i] != b) ==> compressed(
            Mode::Mixed,
            repeated(b, n),
            reference,
        ) == seq![(0x80 + n) as u8, b],
{
    if forall|i: int| 0 <= i < chunk.len() ==> chunk[i] != reference[i] {
        lemma_difference(chunk, reference, false);
    }
    if forall|i: int| 0 <= i < n ==> reference[i] != b {
        let s = repeated(b, n);
        lemma_difference(s, reference, true);
        lemma_run(b, n);
        let p = Piece::Run(b, n);
        assert(seq![p].drop_last() =~= Seq::<Piece>::empty());
        assert(pieces_bytes(seq![p].drop_last()) =~= Seq::<u8>::empty());
        assert(pieces_bytes(seq![p]) =~= p.bytes());
    }
}

proof fn lemma_difference(chunk: Seq<u8>, reference: Seq<u8>, mixed: bool)
    requires
        0 < chunk.len() <= CHUNK,
        chunk.len() <= reference.len(),
        forall|i: int| 0 <= i < chunk.len() ==> chunk[i] != reference[i],
    ensures
        compressed(
            if mixed {
                Mode::Mixed
            } else {
                Mode::Vertical
            },
            chunk,
            reference,
        ) == difference_bytes(chunk, mixed),
{
    let n = chunk.len() as int;
    let mode = if mixed {
        Mode::Mixed
    } else {
        Mode::Vertical
    };
    let r = reference.take(n);
    lemma_different(chunk, r);
    let none = Seq::<u8>::empty();
    assert(chunk.take(n) =~= chunk);
    assert(chunk.skip(n) =~= none);
    assert(vertical_bytes(chunk.skip(n), r.skip(n), mixed) =~= none);
    assert(vertical_bytes(chunk, r, mixed) =~= difference_bytes(chunk, mixed) + none);
    assert(compressed(mode, chunk.skip(n), reference.skip(n)) =~= none);
    assert(compressed(mode, chunk, reference) =~= difference_bytes(chunk, mixed));
}

/// The literal form of an article takes one byte more for every chunk.
pub proof fn law_literal_articles_take_a_byte_more_per_chunk(article: Seq<u8>, reference: Seq<u8>)
    ensures
        compressed(Mode::Literal, article, reference).len() == article.len() + (article.len()
            + CHUNK - 1) / CHUNK as int,
    decreases article.len(),
{
    if article.len() > 0 {
        let n = if article.len() < CHUNK {
            article.len() as int
        } else {
            CHUNK as int
        };
        law_literal_articles_take_a_byte_more_per_chunk(article.skip(n), reference.skip(n));
    }
}

/// A limit of zero is none; any other one is the longest article.
pub proof fn law_limits_on_articles(max_article: usize)
    ensures
        max_article == 0 ==> article_limit(max_article) == usize::MAX,
        max_article > 0 ==> article_limit(max_article) == max_article,
{
}

/// Behind an article the reference begins with it, and keeps what it held beyond.
pub proof fn law_references_begin_with_the_last_article(reference: Seq<u8>, article: Seq<u8>)
    ensures
        ({
            let r = reference_after(reference, article);
            &&& article.is_prefix_of(r)
            &&& r.len() == if article.len() < reference.len() {
                reference.len()
            } else {
                article.len()
            }
            &&& forall|i: int| article.len() <= i < r.len() ==> r[i] == reference[i]
        }),
{
    let r = reference_after(reference, article);
    assert(r.subrange(0, article.len() as int) =~= article);
}

/// Decompression never gives more than it may, keeps what it had, and reads string by string: bytes
/// of the reference at the same place, a byte repeated, or the bytes that follow. A string that is
/// cut off, that goes beyond the limit, or that begins with an unknown byte stops it.
pub proof fn law_strings_are_read(c: Seq<u8>, reference: Seq<u8>, max_len: nat, acc: Seq<u8>)
    requires
        c.len() > 0,
        acc.len() <= max_len,
    ensures
        0xC0 <= c[0] ==> {
            let n = c[0] - 0xC0;
            &&& acc.len() + n <= max_len && acc.len() + n <= reference.len() ==> decompressed(
                c,
                reference,
                max_len,
                acc,
            ) == decompressed(
                c.skip(1),
                reference,
                max_len,
                acc + reference.subrange(acc.len() as int, acc.len() + n),
            )
            &&& acc.len() + n > max_len || acc.len() + n > reference.len() ==> decompressed(
                c,
                reference,
                max_len,
                acc,
            ).1 is Some
        },
        0x80 <= c[0] < 0xC0 ==> {
            let n = (c[0] - 0x80) as nat;
            &&& c.len() >= 2 && acc.len() + n <= max_len ==> decompressed(c, reference, max_len, acc)
                == decompressed(c.skip(2), reference, max_len, acc + repeated(c[1], n))
            &&& c.len() < 2 || acc.len() + n > max_len ==> decompressed(
                c,
                reference,
                max_len,
                acc,
            ).1 is Some
        },
        c[0] < 0x40 ==> {
            let n = c[0] as int;
            &&& c.len() >= 1 + n && acc.len() + n <= max_len ==> decompressed(
                c,
                reference,
                max_len,
                acc,
            ) == decompressed(c.skip(1 + n), reference, max_len, acc + c.subrange(1, 1 + n))
            &&& c.len() < 1 + n || acc.len() + n > max_len ==> decompressed(
                c,
                reference,
                max_len,
                acc,
            ).1 is Some
        },
        0x40 <= c[0] < 0x80 ==> decompressed(c, reference, max_len, acc) == (
            acc,
            Some(DecompressError::InvalidHeader(c[0])),
        ),
        decompressed(Seq::empty(), reference, max_len, acc) == (acc, None::<DecompressError>),
{
}

/// What is decompressed stays within its limit, and begins with what was there before.
pub proof fn law_decompression_is_bounded(
    c: Seq<u8>,
    reference: Seq<u8>,
    max_len: nat,
    acc: Seq<u8>,
)
    requires
        acc.len() <= max_len,
    ensures
        decompressed(c, reference, max_len, acc).0.len() <= max_len,
        acc.len() <= decompressed(c, reference, max_len, acc).0.len(),
    decreases c.len(),
{
    if c.len() > 0 {
        let h = c[0];
        if h >= 0xC0 {
            let n = h - 0xC0;
            if acc.len() + n <= max_len && acc.len() + n <= reference.len() {
                law_decompression_is_bounded(
                    c.skip(1),
                    reference,
                    max_len,
                    acc + crate::compress::window(reference, acc.len(), n as nat),
                );
            }
        } else if h >= 0x80 {
            let n = (h - 0x80) as nat;
            if c.len() >= 2 && acc.len() + n <= max_len {
                law_decompression_is_bounded(
                    c.skip(2),
                    reference,
                    max_len,
                    acc + repeated(c[1], n),
                );
            }
        } else if h < 0x40 {
            if c.len() >= 1 + h && acc.len() + h <= max_len {
                law_decompression_is_bounded(
                    c.skip(1 + h as int),
                    reference,
                    max_len,
                    acc + c.subrange(1, 1 + h as int),
                );
            }
        }
    }
}

} // verus!
