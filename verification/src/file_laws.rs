//! What holds of a file that is cut into articles and built again from them: no byte of it is lost
//! on the way, and none is added.

use crate::article::{
    file_bytes, first_article, last_article, lemma_line_end, lemma_padding_is_trimmed, RecordError,
    RecordFormat,
};
use crate::checkpoint::Checkpoint;
use crate::io::{capped, floored, pieces, Position};
use vstd::prelude::*;

verus! {

/// What is left at the end of a file is never dropped: it becomes an article or an error. It is an
/// error exactly where a fixed record is not filled, or a line is too long; else the bytes built
/// from the article are those that were left, with the line feed that the last line lacked.
pub proof fn law_the_rest_is_never_dropped(format: RecordFormat, record_len: nat, s: Seq<u8>)
    requires
        s.len() > 0,
    ensures
        last_article(format, record_len, s) != Ok::<Option<Seq<u8>>, RecordError>(None),
        format == RecordFormat::Bf ==> last_article(format, record_len, s) is Err,
        format == RecordFormat::Bu || format == RecordFormat::Bv ==> (last_article(
            format,
            record_len,
            s,
        ) matches Ok(Some(a)) && file_bytes(format, a) == s),
        format == RecordFormat::Tv || format == RecordFormat::Tf ==> {
            &&& s.last() != 13 && s.len() > record_len ==> last_article(format, record_len, s) is Err
            &&& s.len() <= record_len ==> last_article(format, record_len, s) is Ok
            &&& s.last() != 13 && s.len() <= record_len && (format == RecordFormat::Tf ==> s.last()
                != 32) ==> (last_article(format, record_len, s) matches Ok(Some(a)) && file_bytes(
                format,
                a,
            ) == s.push(10))
        },
        format == RecordFormat::Tf ==> (last_article(format, record_len, s) matches Ok(Some(a))
            ==> a.len() == record_len),
{
    if format == RecordFormat::Tf && s.last() != 13 && s.last() != 32 && s.len() <= record_len {
        lemma_padding_is_trimmed(s, record_len);
    }
}

/// A carriage return before the line feed, or at the end of the file, belongs to no line.
pub proof fn law_carriage_returns_are_dropped(
    format: RecordFormat,
    record_len: nat,
    line: Seq<u8>,
    rest: Seq<u8>,
)
    requires
        format == RecordFormat::Tv || format == RecordFormat::Tf,
        line.len() > 0,
        line.last() != 13,
        forall|i: int| 0 <= i < line.len() ==> line[i] != 10,
    ensures
        last_article(format, record_len, line.push(13)) == last_article(format, record_len, line),
        ({
            let unix = first_article(format, record_len, line.push(10) + rest);
            let dos = first_article(format, record_len, line.push(13).push(10) + rest);
            &&& unix matches Ok(o) ==> o is Some && dos == Ok::<_, RecordError>(
                Some(((o->0).0, (o->0).1 + 1)),
            )
            &&& unix matches Err(e) ==> dos == Err::<Option<(Seq<u8>, int)>, RecordError>(e)
        }),
{
    assert(line.push(13).drop_last() =~= line);
    let unix = line.push(10) + rest;
    let dos = line.push(13).push(10) + rest;
    lemma_first_line(line, rest);
    lemma_first_line(line.push(13), rest);
    assert(dos.take(line.len() as int + 1) =~= line.push(13));
    assert(unix.take(line.len() as int) =~= line);
}

proof fn lemma_first_line(line: Seq<u8>, rest: Seq<u8>)
    requires
        forall|i: int| 0 <= i < line.len() ==> line[i] != 10,
    ensures
        crate::article::line_end(line.push(10) + rest) == line.len(),
{
    let s = line.push(10) + rest;
    lemma_line_end(s);
    let n = crate::article::line_end(s);
    assert(s[line.len() as int] == 10);
    if n < line.len() {
        assert(s[n] == line[n]);
    }
}

/// Articles of a whole file, in their order; `None` where it cannot be cut.
pub open spec fn cut(format: RecordFormat, record_len: nat, s: Seq<u8>) -> Option<Seq<Seq<u8>>>
    decreases s.len(),
{
    match first_article(format, record_len, s) {
        Err(_) => None,
        Ok(Some((a, n))) => if 0 < n <= s.len() {
            match cut(format, record_len, s.skip(n)) {
                Some(more) => Some(seq![a] + more),
                None => None,
            }
        } else {
            None
        },
        Ok(None) => match last_article(format, record_len, s) {
            Err(_) => None,
            Ok(None) => Some(Seq::empty()),
            Ok(Some(a)) => Some(seq![a]),
        },
    }
}

/// File built from articles.
pub open spec fn built(format: RecordFormat, articles: Seq<Seq<u8>>) -> Seq<u8>
    decreases articles.len(),
{
    if articles.len() == 0 {
        Seq::empty()
    } else {
        file_bytes(format, articles[0]) + built(format, articles.skip(1))
    }
}

/// A binary file is built again as it was. It can always be cut, but for fixed records that its
/// length is not a multiple of; every article but the last is as long as a record.
pub proof fn law_binary_files_are_rebuilt(format: RecordFormat, record_len: nat, s: Seq<u8>)
    requires
        format == RecordFormat::Bu || format == RecordFormat::Bv || format == RecordFormat::Bf,
        record_len > 0,
    ensures
        format != RecordFormat::Bf ==> cut(format, record_len, s) is Some,
        cut(format, record_len, s) matches Some(list) ==> {
            &&& built(format, list) == s
            &&& forall|i: int|
                0 <= i < list.len() ==> 0 < (#[trigger] list[i]).len() <= record_len
            &&& forall|i: int|
                0 <= i < list.len() - 1 ==> (#[trigger] list[i]).len() == record_len
            &&& format == RecordFormat::Bf ==> forall|i: int|
                0 <= i < list.len() ==> (#[trigger] list[i]).len() == record_len
        },
        s.len() == 0 ==> cut(format, record_len, s) == Some(Seq::<Seq<u8>>::empty()),
        format == RecordFormat::Bf && s.len() < record_len && s.len() > 0 ==> cut(
            format,
            record_len,
            s,
        ) is None,
        s.len() >= record_len ==> cut(format, record_len, s) is Some == cut(
            format,
            record_len,
            s.skip(record_len as int),
        ) is Some,
    decreases s.len(),
{
    if s.len() >= record_len {
        let tail = s.skip(record_len as int);
        law_binary_files_are_rebuilt(format, record_len, tail);
        if let Some(more) = cut(format, record_len, tail) {
            let a = s.take(record_len as int);
            let list = seq![a] + more;
            assert(cut(format, record_len, s) == Some(list));
            assert(list[0] == a);
            assert(list.skip(1) =~= more);
            assert(a + tail =~= s);
            assert forall|i: int| 1 <= i < list.len() implies #[trigger] list[i] == more[i - 1] by {}
        }
    } else if let Some(list) = cut(format, record_len, s) {
        if s.len() > 0 {
            assert(list.skip(1) =~= Seq::<Seq<u8>>::empty());
            assert(built(format, list.skip(1)) =~= Seq::<u8>::empty());
            assert(s + Seq::<u8>::empty() =~= s);
        } else {
            assert(built(format, list) =~= s);
        }
    }
}

/// Bytes of lines of text, each with its line feed.
pub open spec fn lines_bytes(lines: Seq<Seq<u8>>) -> Seq<u8>
    decreases lines.len(),
{
    if lines.len() == 0 {
        Seq::empty()
    } else {
        lines[0].push(10) + lines_bytes(lines.skip(1))
    }
}

/// Whether a line keeps its form as an article: it holds no line feed, fits a record, and has no
/// end that articles do not keep.
pub open spec fn plain_line(format: RecordFormat, record_len: nat, line: Seq<u8>) -> bool {
    &&& line.len() <= record_len
    &&& forall|i: int| 0 <= i < line.len() ==> line[i] != 10
    &&& line.len() > 0 ==> line.last() != 13
    &&& format == RecordFormat::Tv ==> line.len() > 0
    &&& format == RecordFormat::Tf && line.len() > 0 ==> line.last() != 32
}

proof fn lemma_line_cut(format: RecordFormat, record_len: nat, line: Seq<u8>, rest: Seq<u8>)
    requires
        format == RecordFormat::Tv || format == RecordFormat::Tf,
        plain_line(format, record_len, line),
    ensures
        first_article(format, record_len, line.push(10) + rest) matches Ok(Some((a, n)))
            && file_bytes(format, a) == line.push(10) && n == line.len() + 1 && (line.push(10)
            + rest).skip(n) == rest,
{
    let s = line.push(10) + rest;
    lemma_first_line(line, rest);
    assert(s.take(line.len() as int) =~= line);
    assert(s.skip(line.len() as int + 1) =~= rest);
    if format == RecordFormat::Tf {
        lemma_padding_is_trimmed(line, record_len);
    }
}

/// A text file is built again as it was: every line becomes one article, and the bytes built from
/// it are that line. Where the last line has no line feed, it is built with one.
pub proof fn law_text_files_are_rebuilt(
    format: RecordFormat,
    record_len: nat,
    lines: Seq<Seq<u8>>,
    unended: Seq<u8>,
)
    requires
        format == RecordFormat::Tv || format == RecordFormat::Tf,
        forall|i: int|
            0 <= i < lines.len() ==> plain_line(format, record_len, #[trigger] lines[i]),
        plain_line(format, record_len, unended) || unended.len() == 0,
    ensures
        cut(format, record_len, lines_bytes(lines) + unended) matches Some(list) && {
            let all = if unended.len() > 0 {
                lines.push(unended)
            } else {
                lines
            };
            &&& list.len() == all.len()
            &&& forall|i: int|
                0 <= i < list.len() ==> file_bytes(format, #[trigger] list[i]) == all[i].push(10)
            &&& built(format, list) == lines_bytes(all)
        },
    decreases lines.len(),
{
    let s = lines_bytes(lines) + unended;
    if lines.len() == 0 {
        assert(s =~= unended);
        lemma_line_end(s);
        if unended.len() > 0 {
            let n = crate::article::line_end(s);
            if n < s.len() {
                assert(s[n] == unended[n]);
            }
            law_the_rest_is_never_dropped(format, record_len, unended);
            let a = last_article(format, record_len, unended)->Ok_0->0;
            let list = seq![a];
            let all = lines.push(unended);
            assert(list.skip(1) =~= Seq::<Seq<u8>>::empty());
            assert(built(format, list.skip(1)) =~= Seq::<u8>::empty());
            assert(all.skip(1) =~= Seq::<Seq<u8>>::empty());
            assert(lines_bytes(all.skip(1)) =~= Seq::<u8>::empty());
            assert(built(format, list) =~= lines_bytes(all));
        } else {
            assert(built(format, Seq::<Seq<u8>>::empty()) =~= lines_bytes(lines));
        }
    } else {
        let line = lines[0];
        let tail = lines.skip(1);
        let rest = lines_bytes(tail) + unended;
        assert(line.push(10) + rest =~= s);
        lemma_line_cut(format, record_len, line, rest);
        assert forall|i: int| 0 <= i < tail.len() implies plain_line(
            format,
            record_len,
            #[trigger] tail[i],
        ) by {
            assert(tail[i] == lines[i + 1]);
        }
        law_text_files_are_rebuilt(format, record_len, tail, unended);
        let more = cut(format, record_len, rest)->0;
        let a = (first_article(format, record_len, s)->Ok_0->0).0;
        let list = seq![a] + more;
        assert(cut(format, record_len, s) == Some(list));
        let all = if unended.len() > 0 {
            lines.push(unended)
        } else {
            lines
        };
        let below = if unended.len() > 0 {
            tail.push(unended)
        } else {
            tail
        };
        assert(all.skip(1) =~= below);
        assert(list.skip(1) =~= more);
        assert(all[0] == line);
        assert forall|i: int| 0 <= i < list.len() implies file_bytes(format, #[trigger] list[i])
            == all[i].push(10) by {
            if i > 0 {
                assert(list[i] == more[i - 1]);
                assert(all[i] == below[i - 1]);
            }
        }
    }
}

/// A line that is not complete yet is not cut, one that is too long is an error, and neither takes
/// anything from the file.
pub proof fn law_incomplete_lines_wait(format: RecordFormat, record_len: nat, s: Seq<u8>)
    requires
        format == RecordFormat::Tv || format == RecordFormat::Tf,
    ensures
        (forall|i: int| 0 <= i < s.len() ==> s[i] != 10) <==> first_article(format, record_len, s)
            == Ok::<Option<(Seq<u8>, int)>, RecordError>(None),
        first_article(format, record_len, s) matches Ok(Some((_, n))) ==> 0 < n <= s.len() && s[n
            - 1] == 10 && forall|i: int| 0 <= i < n - 1 ==> s[i] != 10,
        forall|n: int|
            0 <= n < s.len() && s[n] == 10 && (forall|i: int| 0 <= i < n ==> s[i] != 10) ==> (
            first_article(format, record_len, s) is Err <==> n - (if n > 0 && #[trigger] s[n - 1]
                == 13 {
                1int
            } else {
                0
            }) > record_len),
{
    lemma_line_end(s);
    let k = crate::article::line_end(s);
    assert forall|n: int|
        0 <= n < s.len() && s[n] == 10 && (forall|i: int| 0 <= i < n ==> s[i] != 10) implies (
    first_article(format, record_len, s) is Err <==> n - (if n > 0 && #[trigger] s[n - 1] == 13 {
        1int
    } else {
        0
    }) > record_len) by {
        assert(k == n) by {
            if k < n {
                assert(s[k] != 10);
            }
        }
        if n > 0 {
            assert(s.take(n).last() == s[n - 1]);
        }
    }
}

// ---- positions ----

/// A position moves on with every article: by one article, by its bytes, and to where the article
/// ends in the file. Counters stop at the largest number, and differences at zero.
pub proof fn law_positions_move_on(pos: Position, n: nat, offset: u64, cp: Checkpoint)
    ensures
        pos.articles < u64::MAX && pos.data_bytes + n <= u64::MAX ==> pos.spec_behind(n, offset)
            == (Position {
            file_offset: offset,
            data_bytes: (pos.data_bytes + n) as u64,
            articles: (pos.articles + 1) as u64,
        }),
        Position::beginning() == (Position { file_offset: 0, data_bytes: 0, articles: 0 }),
        Position::spec_of(cp) == (Position {
            file_offset: cp.file_offset,
            data_bytes: cp.data_bytes,
            articles: cp.articles,
        }),
        offset + n <= u64::MAX ==> capped(offset, n) == offset + n,
        offset + n > u64::MAX ==> capped(offset, n) == u64::MAX,
        n <= offset ==> floored(offset, n) == offset - n,
        n > offset ==> floored(offset, n) == 0,
{
}

/// What is cut from a file can be taken up again behind any of its articles: the articles of the
/// whole are those before it, and those of what follows.
pub proof fn law_cutting_can_be_taken_up(format: RecordFormat, record_len: nat, s: Seq<u8>)
    requires
        record_len > 0,
    ensures
        first_article(format, record_len, s) matches Ok(Some((a, n))) ==> {
            &&& 0 < n <= s.len()
            &&& cut(format, record_len, s) == match cut(format, record_len, s.skip(n)) {
                Some(more) => Some(seq![a] + more),
                None => None,
            }
        },
{
    lemma_line_end(s);
}

/// The pieces of a byte string are as long as asked for, but for the last, and make it up again.
pub proof fn law_pieces_are_full(data: Seq<u8>, n: nat)
    requires
        n > 0,
    ensures
        forall|i: int|
            0 <= i < pieces(data, n).len() ==> 0 < (#[trigger] pieces(data, n)[i]).len() <= n,
        forall|i: int|
            0 <= i < pieces(data, n).len() - 1 ==> (#[trigger] pieces(data, n)[i]).len() == n,
    decreases data.len(),
{
    if data.len() > n {
        let tail = pieces(data.skip(n as int), n);
        law_pieces_are_full(data.skip(n as int), n);
        assert forall|i: int| 1 <= i < pieces(data, n).len() implies #[trigger] pieces(data, n)[i]
            == tail[i - 1] by {}
    }
}

} // verus!
