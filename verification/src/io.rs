//! Article sources and sinks.
//!
//! The engines consume articles from an [`ArticleSource`] when sending and push them into an
//! [`ArticleSink`] when receiving. Positions are expressed as [`Position`] so that
//! resynchronisation and restarts can rewind or truncate the underlying file.

use crate::article::{
    article_to_bytes, byte_strings, file_bytes, first_article, last_article, ArticleCutter,
    RecordError, RecordFormat,
};
use crate::checkpoint::Checkpoint;
use crate::error::SessionError;
use crate::fpdu::bytes_to_vec;
use vstd::prelude::*;

verus! {

/// Position in a source or sink.
#[derive(Debug, Clone, Copy, PartialEq, Eq, Structural)]
pub struct Position {
    /// Offset in the physical file.
    pub file_offset: u64,
    /// Article data bytes produced/consumed so far.
    pub data_bytes: u64,
    /// Articles produced/consumed so far.
    pub articles: u64,
}

/// Sum of two counters, up to the largest counter value.
pub open spec fn capped(a: u64, n: nat) -> u64 {
    if a + n <= u64::MAX {
        (a + n) as u64
    } else {
        u64::MAX
    }
}

impl Position {
    /// The beginning of a file.
    pub open spec fn beginning() -> Position {
        Position { file_offset: 0, data_bytes: 0, articles: 0 }
    }

    /// Position of a checkpoint.
    pub open spec fn spec_of(cp: Checkpoint) -> Position {
        Position {
            file_offset: cp.file_offset,
            data_bytes: cp.data_bytes,
            articles: cp.articles,
        }
    }

    /// Position of a checkpoint.
    #[must_use]
    pub fn of(cp: Checkpoint) -> (r: Self)
        ensures
            r == Position::spec_of(cp),
    {
        Position {
            file_offset: cp.file_offset,
            data_bytes: cp.data_bytes,
            articles: cp.articles,
        }
    }

    /// Position behind one more article of `n` bytes, which ends at `file_offset` in the file.
    pub open spec fn spec_behind(self, n: nat, file_offset: u64) -> Position {
        Position {
            file_offset,
            data_bytes: capped(self.data_bytes, n),
            articles: capped(self.articles, 1),
        }
    }

    fn behind(self, n: usize, file_offset: u64) -> (r: Self)
        ensures
            r == self.spec_behind(n as nat, file_offset),
    {
        Position {
            file_offset,
            data_bytes: self.data_bytes.saturating_add(n as u64),
            articles: self.articles.saturating_add(1),
        }
    }
}

impl Default for Position {
    fn default() -> (r: Self)
        ensures
            r == Position::beginning(),
    {
        Position { file_offset: 0, data_bytes: 0, articles: 0 }
    }
}

/// Producer of articles (sending side).
pub trait ArticleSource {
    /// Next article, or `None` at end of file.
    fn next_article(&mut self) -> (r: Result<Option<Vec<u8>>, SessionError>);

    /// Current position (after the last article returned).
    fn position(&self) -> (r: Position);

    /// Rewind so that the next article is the one following `pos`.
    fn rewind(&mut self, pos: Position) -> (r: Result<(), SessionError>);

    /// Total size of the underlying data in bytes, if known.
    fn size_hint(&self) -> (r: Option<u64>);
}

/// Consumer of articles (receiving side).
pub trait ArticleSink {
    /// Store one article.
    fn write_article(&mut self, article: &[u8]) -> (r: Result<(), SessionError>);

    /// Flush everything to stable storage and return the current position.
    fn checkpoint(&mut self) -> (r: Result<Position, SessionError>);

    /// Discard everything after `pos`.
    fn truncate(&mut self, pos: Position) -> (r: Result<(), SessionError>);

    /// Current position.
    fn position(&self) -> (r: Position);

    /// Complete the sink (flush, close, rename temporary files...).
    fn finish(&mut self) -> (r: Result<(), SessionError>);
}

/// What a file reader has to do next.
#[derive(Debug, PartialEq, Eq)]
pub enum Cut {
    /// Hand the article out.
    Article(Vec<u8>),
    /// Read more of the file.
    NeedData,
    /// Nothing is left.
    End,
}

/// State of the reading of a file: how it is cut into articles, and how far it was read.
#[derive(Debug)]
pub struct CutState {
    format: RecordFormat,
    record_len: usize,
    cutter: ArticleCutter,
    pos: Position,
    file_pos: u64,
    eof: bool,
}

impl CutState {
    /// Record format.
    pub closed spec fn spec_format(self) -> RecordFormat {
        self.cutter.spec_format()
    }

    /// Record length.
    pub closed spec fn spec_record_len(self) -> nat {
        self.cutter.spec_record_len()
    }

    /// Bytes read but not yet handed out.
    pub closed spec fn rest(self) -> Seq<u8> {
        self.cutter.rest()
    }

    /// Position behind the last article handed out.
    pub closed spec fn spec_position(self) -> Position {
        self.pos
    }

    /// Offset up to which the file was read.
    pub closed spec fn spec_file_pos(self) -> u64 {
        self.file_pos
    }

    /// Whether the end of the file was reached.
    pub closed spec fn spec_eof(self) -> bool {
        self.eof
    }

    /// The settings are those the cutter was made with.
    pub closed spec fn steady(self) -> bool {
        &&& self.format == self.cutter.spec_format()
        &&& self.cutter.spec_record_len() == if self.record_len == 0 {
            1
        } else {
            self.record_len as nat
        }
    }

    /// Cut a file from its beginning.
    #[must_use]
    pub fn new(format: RecordFormat, record_len: usize) -> (r: Self)
        ensures
            r.spec_format() == format,
            r.spec_record_len() == if record_len == 0 {
                1
            } else {
                record_len as nat
            },
            r.rest() == Seq::<u8>::empty(),
            r.spec_position() == Position::beginning(),
            r.spec_file_pos() == 0,
            !r.spec_eof(),
            r.steady(),
    {
        CutState {
            format,
            record_len,
            cutter: ArticleCutter::new(format, record_len),
            pos: Position::default(),
            file_pos: 0,
            eof: false,
        }
    }

    /// Take bytes that were read from the file; none means its end.
    pub fn fill(&mut self, data: &[u8])
        ensures
            final(self).spec_format() == old(self).spec_format(),
            final(self).spec_record_len() == old(self).spec_record_len(),
            final(self).spec_position() == old(self).spec_position(),
            final(self).rest() == old(self).rest() + data@,
            final(self).spec_file_pos() == capped(old(self).spec_file_pos(), data@.len()),
            final(self).spec_eof() == (old(self).spec_eof() || data@.len() == 0),
            final(self).steady() == old(self).steady(),
    {
        if data.len() == 0 {
            self.eof = true;
            proof {
                assert(self.rest() =~= old(self).rest() + data@);
            }
        } else {
            self.cutter.push(data);
            self.file_pos = self.file_pos.saturating_add(data.len() as u64);
        }
    }

    /// Next article, if the bytes read so far hold one. At the end of the file the last article
    /// is what is left.
    pub fn next(&mut self) -> (r: Result<Cut, RecordError>)
        ensures
            final(self).spec_format() == old(self).spec_format(),
            final(self).spec_record_len() == old(self).spec_record_len(),
            final(self).spec_file_pos() == old(self).spec_file_pos(),
            final(self).spec_eof() == old(self).spec_eof(),
            final(self).steady() == old(self).steady(),
            ({
                let format = old(self).spec_format();
                let len = old(self).spec_record_len();
                let rest = old(self).rest();
                let left = final(self).rest().len();
                match first_article(format, len, rest) {
                    Err(e) => r == Err::<Cut, RecordError>(e) && final(self).rest() == rest
                        && final(self).spec_position() == old(self).spec_position(),
                    Ok(Some((a, n))) => {
                        &&& r is Ok && r->Ok_0 is Article && r->Ok_0->Article_0@ == a
                        &&& final(self).rest() == rest.skip(n)
                        &&& final(self).spec_position() == old(self).spec_position().spec_behind(
                            a.len(),
                            floored(old(self).spec_file_pos(), left),
                        )
                    },
                    Ok(None) => if !old(self).spec_eof() {
                        r == Ok::<Cut, RecordError>(Cut::NeedData) && final(self).rest() == rest
                            && final(self).spec_position() == old(self).spec_position()
                    } else {
                        &&& final(self).rest() == Seq::<u8>::empty()
                        &&& match last_article(format, len, rest) {
                            Err(e) => r == Err::<Cut, RecordError>(e)
                                && final(self).spec_position() == old(self).spec_position(),
                            Ok(None) => r == Ok::<Cut, RecordError>(Cut::End)
                                && final(self).spec_position() == old(self).spec_position(),
                            Ok(Some(a)) => {
                                &&& r is Ok && r->Ok_0 is Article && r->Ok_0->Article_0@ == a
                                &&& final(self).spec_position() == old(
                                    self,
                                ).spec_position().spec_behind(a.len(), old(self).spec_file_pos())
                            },
                        }
                    },
                }
            }),
    {
        match self.cutter.next_article() {
            Err(e) => Err(e),
            Ok(Some(a)) => {
                let left: usize = self.cutter.buffered();
                let offset: u64 = self.file_pos.saturating_sub(left as u64);
                self.pos = self.pos.behind(a.len(), offset);
                Ok(Cut::Article(a))
            },
            Ok(None) => {
                if !self.eof {
                    return Ok(Cut::NeedData);
                }
                match self.cutter.finish() {
                    Err(e) => Err(e),
                    Ok(None) => Ok(Cut::End),
                    Ok(Some(a)) => {
                        self.pos = self.pos.behind(a.len(), self.file_pos);
                        Ok(Cut::Article(a))
                    },
                }
            },
        }
    }

    /// Start again behind `pos`; the file is to be read from its offset on.
    pub fn rewind(&mut self, pos: Position)
        requires
            old(self).steady(),
        ensures
            final(self).spec_format() == old(self).spec_format(),
            final(self).spec_record_len() == old(self).spec_record_len(),
            final(self).rest() == Seq::<u8>::empty(),
            final(self).spec_position() == pos,
            final(self).spec_file_pos() == pos.file_offset,
            !final(self).spec_eof(),
            final(self).steady(),
    {
        self.cutter = ArticleCutter::new(self.format, self.record_len);
        self.file_pos = pos.file_offset;
        self.pos = pos;
        self.eof = false;
    }

    /// Position behind the last article handed out.
    #[must_use]
    pub fn position(&self) -> (r: Position)
        ensures
            r == self.spec_position(),
    {
        self.pos
    }
}

/// Difference of a counter and a number, not below zero.
pub open spec fn floored(a: u64, n: nat) -> u64 {
    if n <= a {
        (a - n) as u64
    } else {
        0
    }
}

/// Bytes that an article adds to a received file, and the position behind it.
#[must_use]
pub fn append_article(format: RecordFormat, pos: Position, article: &[u8]) -> (r: (
    Vec<u8>,
    Position,
))
    ensures
        r.0@ == file_bytes(format, article@),
        r.1 == pos.spec_behind(
            article@.len(),
            capped(pos.file_offset, file_bytes(format, article@).len()),
        ),
{
    let bytes = article_to_bytes(format, article);
    let offset: u64 = pos.file_offset.saturating_add(bytes.len() as u64);
    let next = pos.behind(article.len(), offset);
    (bytes, next)
}

/// In-memory article source (tests, messages).
#[derive(Debug)]
pub struct VecSource {
    articles: Vec<Vec<u8>>,
    index: usize,
    pos: Position,
}

/// Consecutive pieces of `n` bytes; the last one may be shorter.
pub open spec fn pieces(data: Seq<u8>, n: nat) -> Seq<Seq<u8>>
    decreases data.len(),
{
    if data.len() == 0 || n == 0 {
        seq![]
    } else if data.len() <= n {
        seq![data]
    } else {
        seq![data.take(n as int)] + pieces(data.skip(n as int), n)
    }
}

/// Concatenation of byte strings.
pub open spec fn concatenated(list: Seq<Seq<u8>>) -> Seq<u8>
    decreases list.len(),
{
    if list.len() == 0 {
        seq![]
    } else {
        concatenated(list.drop_last()) + list.last()
    }
}

impl VecSource {
    /// Articles of the source.
    pub closed spec fn list(self) -> Seq<Seq<u8>> {
        byte_strings(self.articles@)
    }

    /// Number of articles handed out or skipped.
    pub closed spec fn spec_index(self) -> nat {
        self.index as nat
    }

    /// Current position.
    pub closed spec fn spec_position(self) -> Position {
        self.pos
    }

    /// Source yielding the given articles.
    #[must_use]
    pub fn new(articles: Vec<Vec<u8>>) -> (r: Self)
        ensures
            r.list() == byte_strings(articles@),
            r.spec_index() == 0,
            r.spec_position() == Position::beginning(),
    {
        VecSource { articles, index: 0, pos: Position::default() }
    }

    /// Source cutting `data` into articles of `record_len` bytes.
    #[must_use]
    pub fn from_bytes(data: &[u8], record_len: usize) -> (r: Self)
        ensures
            r.list() == pieces(
                data@,
                if record_len == 0 {
                    1
                } else {
                    record_len as nat
                },
            ),
            r.spec_index() == 0,
            r.spec_position() == Position::beginning(),
    {
        let n: usize = if record_len == 0 {
            1
        } else {
            record_len
        };
        let mut list: Vec<Vec<u8>> = Vec::new();
        let mut pos: usize = 0;
        let ghost whole = pieces(data@, n as nat);
        proof {
            assert(data@.skip(0) =~= data@);
            assert(byte_strings(list@) =~= Seq::empty());
            assert(whole =~= byte_strings(list@) + pieces(data@, n as nat));
        }
        while data.len() - pos > n
            invariant
                n > 0,
                pos <= data.len(),
                whole == byte_strings(list@) + pieces(data@.skip(pos as int), n as nat),
            decreases data.len() - pos,
        {
            let ghost rest = data@.skip(pos as int);
            let ghost before = byte_strings(list@);
            let part = bytes_to_vec(vstd::slice::slice_subrange(data, pos, pos + n));
            let ghost pv = part@;
            list.push(part);
            proof {
                assert(pv =~= rest.take(n as int));
                assert(rest.skip(n as int) =~= data@.skip(pos + n));
                assert(byte_strings(list@) =~= before.push(pv));
                assert(whole =~= byte_strings(list@) + pieces(rest.skip(n as int), n as nat));
            }
            pos += n;
        }
        if pos < data.len() {
            let ghost before = byte_strings(list@);
            let part = bytes_to_vec(vstd::slice::slice_subrange(data, pos, data.len()));
            let ghost pv = part@;
            list.push(part);
            proof {
                assert(pv =~= data@.skip(pos as int));
                assert(byte_strings(list@) =~= before.push(pv));
            }
        }
        proof {
            assert(byte_strings(list@) =~= whole);
        }
        VecSource::new(list)
    }
}

impl ArticleSource for VecSource {
    fn next_article(&mut self) -> (r: Result<Option<Vec<u8>>, SessionError>)
        ensures
            final(self).list() == old(self).list(),
            r is Ok,
            if old(self).spec_index() < old(self).list().len() {
                let a = old(self).list()[old(self).spec_index() as int];
                &&& r->Ok_0 is Some
                &&& r->Ok_0->0@ == a
                &&& final(self).spec_index() == old(self).spec_index() + 1
                &&& final(self).spec_position() == old(self).spec_position().spec_behind(
                    a.len(),
                    capped(old(self).spec_position().data_bytes, a.len()),
                )
            } else {
                r->Ok_0 is None && *final(self) == *old(self)
            },
    {
        if self.index >= self.articles.len() {
            return Ok(None);
        }
        let a = bytes_to_vec(self.articles[self.index].as_slice());
        self.index = self.index + 1;
        let offset: u64 = self.pos.data_bytes.saturating_add(a.len() as u64);
        self.pos = self.pos.behind(a.len(), offset);
        Ok(Some(a))
    }

    fn position(&self) -> (r: Position)
        ensures
            r == self.spec_position(),
    {
        self.pos
    }

    fn rewind(&mut self, pos: Position) -> (r: Result<(), SessionError>)
        ensures
            r is Ok,
            final(self).list() == old(self).list(),
            final(self).spec_position() == pos,
            final(self).spec_index() == if pos.articles <= old(self).list().len() {
                pos.articles as nat
            } else {
                old(self).list().len()
            },
    {
        let n: usize = self.articles.len();
        self.index = if pos.articles <= n as u64 {
            pos.articles as usize
        } else {
            n
        };
        self.pos = pos;
        Ok(())
    }

    fn size_hint(&self) -> (r: Option<u64>)
        ensures
            r == Some(capped(0, concatenated(self.list()).len())),
    {
        let mut total: u64 = 0;
        let mut i: usize = 0;
        let ghost list = self.list();
        proof {
            assert(list.take(0) =~= Seq::empty());
        }
        while i < self.articles.len()
            invariant
                i <= self.articles.len(),
                list == byte_strings(self.articles@),
                total == capped(0, concatenated(list.take(i as int)).len()),
            decreases self.articles.len() - i,
        {
            total = total.saturating_add(self.articles[i].len() as u64);
            proof {
                assert(list.take(i + 1).drop_last() =~= list.take(i as int));
                assert(list.take(i + 1).last() == self.articles@[i as int]@);
            }
            i += 1;
        }
        proof {
            assert(list.take(i as int) =~= list);
        }
        Some(total)
    }
}

/// In-memory article sink.
#[derive(Debug)]
pub struct VecSink {
    /// Received articles.
    pub articles: Vec<Vec<u8>>,
    /// Position behind the last article.
    pub pos: Position,
    /// Whether `finish` was called.
    pub finished: bool,
}

impl Default for VecSink {
    fn default() -> (r: Self)
        ensures
            r.articles@ == Seq::<Vec<u8>>::empty(),
            r.pos == Position::beginning(),
            !r.finished,
    {
        VecSink::new()
    }
}

impl VecSink {
    /// Empty sink.
    #[must_use]
    pub fn new() -> (r: Self)
        ensures
            r.articles@ == Seq::<Vec<u8>>::empty(),
            r.pos == Position::beginning(),
            !r.finished,
    {
        VecSink { articles: Vec::new(), pos: Position::default(), finished: false }
    }

    /// Concatenation of all received articles.
    #[must_use]
    pub fn bytes(&self) -> (r: Vec<u8>)
        ensures
            r@ == concatenated(byte_strings(self.articles@)),
    {
        let mut out: Vec<u8> = Vec::new();
        let mut i: usize = 0;
        let ghost list = byte_strings(self.articles@);
        proof {
            assert(list.take(0) =~= Seq::empty());
            assert(out@ =~= concatenated(list.take(0)));
        }
        while i < self.articles.len()
            invariant
                i <= self.articles.len(),
                list == byte_strings(self.articles@),
                out@ == concatenated(list.take(i as int)),
            decreases self.articles.len() - i,
        {
            let ghost before = out@;
            out.extend_from_slice(self.articles[i].as_slice());
            proof {
                assert(list.take(i + 1).drop_last() =~= list.take(i as int));
                assert(list.take(i + 1).last() == self.articles@[i as int]@);
                assert(out@ =~= before + self.articles@[i as int]@);
            }
            i += 1;
        }
        proof {
            assert(list.take(i as int) =~= list);
        }
        out
    }
}

impl ArticleSink for VecSink {
    fn write_article(&mut self, article: &[u8]) -> (r: Result<(), SessionError>)
        ensures
            r is Ok,
            byte_strings(final(self).articles@) == byte_strings(old(self).articles@).push(article@),
            final(self).pos == old(self).pos.spec_behind(
                article@.len(),
                capped(old(self).pos.data_bytes, article@.len()),
            ),
            final(self).finished == old(self).finished,
    {
        let ghost before = byte_strings(self.articles@);
        self.articles.push(bytes_to_vec(article));
        let offset: u64 = self.pos.data_bytes.saturating_add(article.len() as u64);
        self.pos = self.pos.behind(article.len(), offset);
        proof {
            assert(byte_strings(self.articles@) =~= before.push(article@));
        }
        Ok(())
    }

    fn checkpoint(&mut self) -> (r: Result<Position, SessionError>)
        ensures
            r == Ok::<Position, SessionError>(old(self).pos),
            *final(self) == *old(self),
    {
        Ok(self.pos)
    }

    fn truncate(&mut self, pos: Position) -> (r: Result<(), SessionError>)
        ensures
            r is Ok,
            final(self).articles@ == if pos.articles <= old(self).articles@.len() {
                old(self).articles@.take(pos.articles as int)
            } else {
                old(self).articles@
            },
            final(self).pos == pos,
            final(self).finished == old(self).finished,
    {
        if pos.articles <= self.articles.len() as u64 {
            self.articles.truncate(pos.articles as usize);
        }
        self.pos = pos;
        proof {
            if pos.articles <= old(self).articles@.len() {
                assert(self.articles@ =~= old(self).articles@.take(pos.articles as int));
            }
        }
        Ok(())
    }

    fn position(&self) -> (r: Position)
        ensures
            r == self.pos,
    {
        self.pos
    }

    fn finish(&mut self) -> (r: Result<(), SessionError>)
        ensures
            r is Ok,
            final(self).finished,
            final(self).articles == old(self).articles,
            final(self).pos == old(self).pos,
    {
        self.finished = true;
        Ok(())
    }
}

/// Cutting bytes into pieces and joining them again gives the bytes.
pub proof fn law_pieces_rebuild_the_data(data: Seq<u8>, n: nat)
    requires
        n > 0,
    ensures
        concatenated(pieces(data, n)) == data,
        forall|i: int|
            0 <= i < pieces(data, n).len() ==> 0 < (#[trigger] pieces(data, n)[i]).len() <= n,
    decreases data.len(),
{
    let p = pieces(data, n);
    if data.len() == 0 {
        assert(concatenated(p) =~= data);
    } else if data.len() <= n {
        assert(p.drop_last() =~= Seq::empty());
        assert(concatenated(p.drop_last()) =~= Seq::empty());
        assert(concatenated(p) =~= data);
    } else {
        let tail = pieces(data.skip(n as int), n);
        law_pieces_rebuild_the_data(data.skip(n as int), n);
        lemma_concatenated_front(data.take(n as int), tail);
        assert(data.take(n as int) + data.skip(n as int) =~= data);
        assert forall|i: int| 0 <= i < p.len() implies 0 < (#[trigger] p[i]).len() <= n by {
            if i > 0 {
                assert(p[i] == tail[i - 1]);
            }
        }
    }
}

proof fn lemma_concatenated_front(a: Seq<u8>, list: Seq<Seq<u8>>)
    ensures
        concatenated(seq![a] + list) == a + concatenated(list),
    decreases list.len(),
{
    let all = seq![a] + list;
    if list.len() == 0 {
        assert(all.drop_last() =~= Seq::empty());
        assert(concatenated(all.drop_last()) =~= Seq::empty());
        assert(concatenated(all) =~= a + concatenated(list));
    } else {
        lemma_concatenated_front(a, list.drop_last());
        assert(all.drop_last() =~= seq![a] + list.drop_last());
        assert(concatenated(all) =~= a + concatenated(list));
    }
}

} // verus!
