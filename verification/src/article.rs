//! Articles: record formats, packing of articles into data entities (multi-article DTF),
//! segmentation of long articles (DTFDA/DTFMA/DTFFA) and their reassembly.

use crate::diag::Diagnostic;
use crate::fpdu::{bytes_to_vec, Fault, DecodeError, Fpdu, FpduV, HEADER_LEN};
use crate::kind::FpduKind;
use crate::params::ArticleFormat;
use crate::text::{dec, push_decimal, same, to_upper, upper};
use vstd::prelude::*;
use vstd::string::StringExecFns;

verus! {

/// Physical record formats.
#[derive(Debug, Clone, Copy, PartialEq, Eq, Hash, Default, Structural)]
pub enum RecordFormat {
    /// `BU`, binary undefined: the file is cut into articles of the record length, the last
    /// one may be shorter (default for arbitrary files).
    #[default]
    Bu,
    /// `BF`, binary fixed: every article has exactly the record length.
    Bf,
    /// `BV`, binary variable: like `BU` but announced as variable format.
    Bv,
    /// `TV`, text variable: one article per line, line feed removed on emission and appended on
    /// reception.
    Tv,
    /// `TF`, text fixed: one article per line, padded with spaces to the record length.
    Tf,
}

impl RecordFormat {
    /// Two-letter code.
    pub open spec fn spec_code(self) -> Seq<char> {
        match self {
            RecordFormat::Bu => "BU"@,
            RecordFormat::Bf => "BF"@,
            RecordFormat::Bv => "BV"@,
            RecordFormat::Tv => "TV"@,
            RecordFormat::Tf => "TF"@,
        }
    }

    /// Format of a two-letter code, in upper or lower case.
    pub open spec fn spec_parse(code: Seq<char>) -> Option<RecordFormat> {
        let c = upper(code);
        if c == "BU"@ {
            Some(RecordFormat::Bu)
        } else if c == "BF"@ {
            Some(RecordFormat::Bf)
        } else if c == "BV"@ {
            Some(RecordFormat::Bv)
        } else if c == "TV"@ {
            Some(RecordFormat::Tv)
        } else if c == "TF"@ {
            Some(RecordFormat::Tf)
        } else {
            None
        }
    }

    /// Article format announced in PI 31.
    #[verifier::allow_in_spec]
    #[must_use]
    pub fn article_format(self) -> ArticleFormat
        returns
            (if self == RecordFormat::Bf || self == RecordFormat::Tf {
                ArticleFormat::Fixed
            } else {
                ArticleFormat::Variable
            }),
    {
        match self {
            RecordFormat::Bf | RecordFormat::Tf => ArticleFormat::Fixed,
            RecordFormat::Bu | RecordFormat::Bv | RecordFormat::Tv => ArticleFormat::Variable,
        }
    }

    /// Whether articles are lines of text.
    #[verifier::allow_in_spec]
    #[must_use]
    pub fn is_text(self) -> bool
        returns
            self == RecordFormat::Tv || self == RecordFormat::Tf,
    {
        matches!(self, RecordFormat::Tv | RecordFormat::Tf)
    }

    /// Two-letter code.
    #[must_use]
    pub fn code(self) -> (r: &'static str)
        ensures
            r@ == self.spec_code(),
    {
        match self {
            RecordFormat::Bu => "BU",
            RecordFormat::Bf => "BF",
            RecordFormat::Bv => "BV",
            RecordFormat::Tv => "TV",
            RecordFormat::Tf => "TF",
        }
    }

    /// Parse a two-letter code (case-insensitive).
    #[must_use]
    pub fn parse(code: &str) -> (r: Option<Self>)
        ensures
            r == Self::spec_parse(code@),
    {
        let c = to_upper(code);
        if same(c.as_str(), "BU") {
            Some(RecordFormat::Bu)
        } else if same(c.as_str(), "BF") {
            Some(RecordFormat::Bf)
        } else if same(c.as_str(), "BV") {
            Some(RecordFormat::Bv)
        } else if same(c.as_str(), "TV") {
            Some(RecordFormat::Tv)
        } else if same(c.as_str(), "TF") {
            Some(RecordFormat::Tf)
        } else {
            None
        }
    }
}

/// The code of a record format is parsed back.
pub proof fn law_record_format_code_round_trip(f: RecordFormat)
    ensures
        RecordFormat::spec_parse(f.spec_code()) == Some(f),
{
    reveal_strlit("BU");
    reveal_strlit("BF");
    reveal_strlit("BV");
    reveal_strlit("TV");
    reveal_strlit("TF");
    assert(upper(f.spec_code()) =~= f.spec_code());
    assert("BU"@[1] != "BF"@[1] && "BU"@[1] != "BV"@[1] && "BU"@[0] != "TV"@[0] && "BU"@[0]
        != "TF"@[0]);
    assert("BF"@[1] != "BV"@[1] && "BF"@[0] != "TV"@[0] && "BF"@[0] != "TF"@[0]);
    assert("BV"@[0] != "TV"@[0] && "BV"@[0] != "TF"@[0] && "TV"@[1] != "TF"@[1]);
}

/// Error produced when cutting a file into articles.
#[derive(Debug, Clone, Copy, PartialEq, Eq, Structural)]
pub enum RecordError {
    /// Fixed format and the file size is not a multiple of the record length.
    UnfilledRecord(usize, usize),
    /// A text line is longer than the record length.
    LineTooLong(usize, usize),
}

impl RecordError {
    /// Rendering of the error.
    pub open spec fn spec_text(self) -> Seq<char> {
        match self {
            RecordError::UnfilledRecord(n, m) => "unfilled last record: "@ + dec(n as nat)
                + " bytes for a record length of "@ + dec(m as nat),
            RecordError::LineTooLong(n, m) => "line of "@ + dec(n as nat)
                + " bytes exceeds the record length "@ + dec(m as nat),
        }
    }

    /// Rendering of the error.
    #[must_use]
    pub fn text(self) -> (r: String)
        ensures
            r@ == self.spec_text(),
    {
        match self {
            RecordError::UnfilledRecord(n, m) => {
                let mut out = "unfilled last record: ".to_owned();
                push_decimal(&mut out, n as u64);
                out.append(" bytes for a record length of ");
                push_decimal(&mut out, m as u64);
                out
            },
            RecordError::LineTooLong(n, m) => {
                let mut out = "line of ".to_owned();
                push_decimal(&mut out, n as u64);
                out.append(" bytes exceeds the record length ");
                push_decimal(&mut out, m as u64);
                out
            },
        }
    }
}

// ---- cutting a file into articles ----

/// Position of the first line feed; the length where there is none.
pub open spec fn line_end(s: Seq<u8>) -> int
    decreases s.len(),
{
    if s.len() == 0 {
        0
    } else if line_end(s.drop_last()) < s.len() - 1 {
        line_end(s.drop_last())
    } else if s.last() == 10 {
        s.len() - 1
    } else {
        s.len() as int
    }
}

/// A line without its carriage return.
pub open spec fn without_cr(line: Seq<u8>) -> Seq<u8> {
    if line.len() > 0 && line.last() == 13 {
        line.drop_last()
    } else {
        line
    }
}

/// A line padded with spaces to at least `n` bytes.
pub open spec fn space_padded(line: Seq<u8>, n: nat) -> Seq<u8> {
    if line.len() < n {
        line + Seq::new((n - line.len()) as nat, |i: int| 32u8)
    } else {
        line
    }
}

/// Article of a line of text: padded in the fixed format; an empty record becomes a space.
pub open spec fn line_article(format: RecordFormat, record_len: nat, line: Seq<u8>) -> Result<
    Seq<u8>,
    RecordError,
> {
    if line.len() > record_len {
        Err(RecordError::LineTooLong(line.len() as usize, record_len as usize))
    } else if format == RecordFormat::Tf {
        Ok(space_padded(line, record_len))
    } else if line.len() == 0 {
        Ok(seq![32u8])
    } else {
        Ok(line)
    }
}

/// First complete article of a byte stream, with the number of bytes it takes from the stream.
pub open spec fn first_article(format: RecordFormat, record_len: nat, s: Seq<u8>) -> Result<
    Option<(Seq<u8>, int)>,
    RecordError,
> {
    if !format.is_text() {
        if s.len() >= record_len {
            Ok(Some((s.take(record_len as int), record_len as int)))
        } else {
            Ok(None)
        }
    } else if line_end(s) == s.len() {
        Ok(None)
    } else {
        match line_article(format, record_len, without_cr(s.take(line_end(s)))) {
            Ok(a) => Ok(Some((a, line_end(s) + 1))),
            Err(e) => Err(e),
        }
    }
}

/// Last article of a byte stream, made of what is left at its end.
pub open spec fn last_article(format: RecordFormat, record_len: nat, s: Seq<u8>) -> Result<
    Option<Seq<u8>>,
    RecordError,
> {
    if s.len() == 0 {
        Ok(None)
    } else if format == RecordFormat::Bf {
        Err(RecordError::UnfilledRecord(s.len() as usize, record_len as usize))
    } else if !format.is_text() {
        Ok(Some(s))
    } else {
        match line_article(format, record_len, without_cr(s)) {
            Ok(a) => Ok(Some(a)),
            Err(e) => Err(e),
        }
    }
}

/// Bytes without trailing spaces.
pub open spec fn without_spaces(a: Seq<u8>) -> Seq<u8>
    decreases a.len(),
{
    if a.len() > 0 && a.last() == 32 {
        without_spaces(a.drop_last())
    } else {
        a
    }
}

/// Bytes that a received article adds to the physical file.
pub open spec fn file_bytes(format: RecordFormat, article: Seq<u8>) -> Seq<u8> {
    match format {
        RecordFormat::Tf => without_spaces(article).push(10),
        RecordFormat::Tv => article.push(10),
        _ => article,
    }
}

pub(crate) proof fn lemma_line_end(s: Seq<u8>)
    ensures
        0 <= line_end(s) <= s.len(),
        line_end(s) < s.len() ==> s[line_end(s)] == 10,
        forall|i: int| 0 <= i < line_end(s) ==> s[i] != 10,
    decreases s.len(),
{
    if s.len() > 0 {
        lemma_line_end(s.drop_last());
        assert forall|i: int| 0 <= i < line_end(s) implies s[i] != 10 by {
            if i < s.len() - 1 {
                assert(s.drop_last()[i] == s[i]);
            }
        }
    }
}

proof fn lemma_line_end_stable(s: Seq<u8>, n: int)
    requires
        0 <= n <= s.len(),
        line_end(s.take(n)) < n,
    ensures
        line_end(s) == line_end(s.take(n)),
    decreases s.len() - n,
{
    if n == s.len() {
        assert(s.take(n) =~= s);
    } else {
        assert(s.take(n + 1).drop_last() =~= s.take(n));
        lemma_line_end_stable(s, n + 1);
    }
}

/// Cut a byte stream into articles according to a record format.
///
/// Feed data with [`push`](Self::push), take complete articles with
/// [`next_article`](Self::next_article) and call [`finish`](Self::finish) at end of stream.
#[derive(Debug)]
pub struct ArticleCutter {
    format: RecordFormat,
    record_len: usize,
    buf: Vec<u8>,
    pos: usize,
}

impl ArticleCutter {
    /// Bytes fed but not yet consumed as articles.
    pub closed spec fn rest(self) -> Seq<u8> {
        self.buf@.skip(
            if self.pos <= self.buf@.len() {
                self.pos as int
            } else {
                self.buf@.len() as int
            },
        )
    }

    /// Record format.
    pub closed spec fn spec_format(self) -> RecordFormat {
        self.format
    }

    /// Record length.
    pub closed spec fn spec_record_len(self) -> nat {
        if self.record_len == 0 {
            1
        } else {
            self.record_len as nat
        }
    }

    /// Record length; records are not empty.
    fn length(&self) -> (r: usize)
        ensures
            r == self.spec_record_len(),
            r >= 1,
    {
        if self.record_len == 0 {
            1
        } else {
            self.record_len
        }
    }

    /// Read position within the buffer.
    fn position(&self) -> (r: usize)
        ensures
            r <= self.buf@.len(),
            self.rest() == self.buf@.skip(r as int),
    {
        if self.pos <= self.buf.len() {
            self.pos
        } else {
            self.buf.len()
        }
    }

    /// New cutter. A record length of 0 is taken as 1.
    #[must_use]
    pub fn new(format: RecordFormat, record_len: usize) -> (r: Self)
        ensures
            r.spec_format() == format,
            r.spec_record_len() == if record_len == 0 {
                1
            } else {
                record_len as nat
            },
            r.rest() == Seq::<u8>::empty(),
    {
        let r = ArticleCutter { format, record_len, buf: Vec::new(), pos: 0 };
        proof {
            assert(r.rest() =~= Seq::empty());
        }
        r
    }

    /// Append raw file bytes.
    pub fn push(&mut self, data: &[u8])
        ensures
            final(self).spec_format() == old(self).spec_format(),
            final(self).spec_record_len() == old(self).spec_record_len(),
            final(self).rest() == old(self).rest() + data@,
    {
        let pos: usize = self.position();
        self.pos = pos;
        if pos > 0 && pos >= self.buf.len() / 2 {
            let kept = bytes_to_vec(
                vstd::slice::slice_subrange(self.buf.as_slice(), pos, self.buf.len()),
            );
            proof {
                assert(kept@ =~= self.rest());
            }
            self.pos = 0;
            self.buf = kept;
        }
        self.buf.extend_from_slice(data);
        proof {
            assert(self.rest() =~= old(self).rest() + data@);
        }
    }

    /// Next complete article, if enough data is buffered. An error consumes nothing.
    pub fn next_article(&mut self) -> (r: Result<Option<Vec<u8>>, RecordError>)
        ensures
            final(self).spec_format() == old(self).spec_format(),
            final(self).spec_record_len() == old(self).spec_record_len(),
            match first_article(
                old(self).spec_format(),
                old(self).spec_record_len(),
                old(self).rest(),
            ) {
                Ok(Some((a, n))) => {
                    &&& r is Ok
                    &&& r->Ok_0 is Some
                    &&& r->Ok_0->0@ == a
                    &&& final(self).rest() == old(self).rest().skip(n)
                },
                Ok(None) => r == Ok::<Option<Vec<u8>>, RecordError>(None) && final(self).rest()
                    == old(self).rest(),
                Err(e) => r == Err::<Option<Vec<u8>>, RecordError>(e) && final(self).rest() == old(
                    self,
                ).rest(),
            },
    {
        let pos: usize = self.position();
        let record_len: usize = self.length();
        proof {
            lemma_line_end(self.rest());
        }
        let avail = vstd::slice::slice_subrange(self.buf.as_slice(), pos, self.buf.len());
        let ghost s = self.rest();
        proof {
            assert(avail@ =~= s);
        }
        if !self.format.is_text() {
            if avail.len() >= record_len {
                let part = vstd::slice::slice_subrange(avail, 0, record_len);
                let a = bytes_to_vec(part);
                self.pos = pos + record_len;
                proof {
                    assert(a@ =~= s.take(record_len as int));
                    assert(self.rest() =~= s.skip(record_len as int));
                }
                return Ok(Some(a));
            }
            return Ok(None);
        }
        let nl: usize = find_line_end(avail);
        if nl == avail.len() {
            return Ok(None);
        }
        let line = vstd::slice::slice_subrange(avail, 0, nl);
        proof {
            assert(line@ =~= s.take(nl as int));
        }
        match self.text_article(line) {
            Ok(a) => {
                self.pos = pos + nl + 1;
                proof {
                    assert(self.rest() =~= s.skip(nl + 1));
                }
                Ok(Some(a))
            },
            Err(e) => Err(e),
        }
    }

    /// Number of input bytes buffered but not yet consumed as articles.
    #[must_use]
    pub fn buffered(&self) -> (r: usize)
        ensures
            r == self.rest().len(),
    {
        self.buf.len() - self.position()
    }

    /// Flush the last (partial) article at end of stream.
    pub fn finish(&mut self) -> (r: Result<Option<Vec<u8>>, RecordError>)
        ensures
            final(self).spec_format() == old(self).spec_format(),
            final(self).spec_record_len() == old(self).spec_record_len(),
            final(self).rest() == Seq::<u8>::empty(),
            match last_article(
                old(self).spec_format(),
                old(self).spec_record_len(),
                old(self).rest(),
            ) {
                Ok(Some(a)) => r is Ok && r->Ok_0 is Some && r->Ok_0->0@ == a,
                Ok(None) => r == Ok::<Option<Vec<u8>>, RecordError>(None),
                Err(e) => r == Err::<Option<Vec<u8>>, RecordError>(e),
            },
    {
        let pos: usize = self.position();
        let avail = vstd::slice::slice_subrange(self.buf.as_slice(), pos, self.buf.len());
        let rest = bytes_to_vec(avail);
        proof {
            assert(rest@ =~= self.rest());
        }
        self.pos = self.buf.len();
        proof {
            assert(self.rest() =~= Seq::empty());
        }
        if rest.len() == 0 {
            return Ok(None);
        }
        match self.format {
            RecordFormat::Bu | RecordFormat::Bv => Ok(Some(rest)),
            RecordFormat::Bf => Err(RecordError::UnfilledRecord(rest.len(), self.length())),
            RecordFormat::Tv | RecordFormat::Tf => match self.text_article(rest.as_slice()) {
                Ok(a) => Ok(Some(a)),
                Err(e) => Err(e),
            },
        }
    }

    /// Article of a raw line, carriage return included.
    fn text_article(&self, raw: &[u8]) -> (r: Result<Vec<u8>, RecordError>)
        requires
            self.format.is_text(),
        ensures
            match line_article(self.spec_format(), self.spec_record_len(), without_cr(raw@)) {
                Ok(a) => r is Ok && r->Ok_0@ == a,
                Err(e) => r == Err::<Vec<u8>, RecordError>(e),
            },
    {
        let record_len: usize = self.length();
        let n: usize = if raw.len() > 0 && raw[raw.len() - 1] == 13 {
            raw.len() - 1
        } else {
            raw.len()
        };
        let line = vstd::slice::slice_subrange(raw, 0, n);
        proof {
            assert(line@ =~= without_cr(raw@));
        }
        if line.len() > record_len {
            return Err(RecordError::LineTooLong(line.len(), record_len));
        }
        let mut a = bytes_to_vec(line);
        if self.format == RecordFormat::Tf {
            a.resize(record_len, 32);
            proof {
                assert(a@ =~= space_padded(line@, record_len as nat));
            }
            return Ok(a);
        }
        if a.len() == 0 {
            a.push(32);
            proof {
                assert(a@ =~= seq![32u8]);
            }
        }
        Ok(a)
    }
}

fn find_line_end(s: &[u8]) -> (r: usize)
    ensures
        r == line_end(s@),
        r <= s.len(),
{
    let mut i: usize = 0;
    proof {
        assert(s@.take(0) =~= Seq::empty());
    }
    while i < s.len()
        invariant
            i <= s.len(),
            line_end(s@.take(i as int)) == i,
        decreases s.len() - i,
    {
        proof {
            assert(s@.take(i + 1).drop_last() =~= s@.take(i as int));
        }
        if s[i] == 10 {
            proof {
                lemma_line_end_stable(s@, i + 1);
            }
            return i;
        }
        i += 1;
    }
    proof {
        assert(s@.take(i as int) =~= s@);
    }
    i
}

/// Convert a received article into the bytes to write to the physical file.
#[must_use]
pub fn article_to_bytes(format: RecordFormat, article: &[u8]) -> (r: Vec<u8>)
    ensures
        r@ == file_bytes(format, article@),
{
    let mut end: usize = article.len();
    proof {
        assert(article@.take(end as int) =~= article@);
    }
    if format == RecordFormat::Tf {
        while end > 0 && article[end - 1] == 32
            invariant
                end <= article.len(),
                without_spaces(article@.take(end as int)) == without_spaces(article@),
            decreases end,
        {
            end -= 1;
            proof {
                assert(article@.take(end + 1).drop_last() =~= article@.take(end as int));
            }
        }
    }
    let mut v = bytes_to_vec(vstd::slice::slice_subrange(article, 0, end));
    proof {
        assert(v@ =~= article@.take(end as int));
    }
    if format.is_text() {
        v.push(10);
    }
    v
}

/// Binary articles are consecutive pieces of the file: the article and what is left make up the
/// bytes it was cut from.
pub proof fn law_binary_articles_rebuild_the_file(format: RecordFormat, record_len: nat, s: Seq<u8>)
    requires
        !format.is_text(),
    ensures
        first_article(format, record_len, s) matches Ok(Some((a, n))) ==> {
            &&& a.len() == record_len
            &&& file_bytes(format, a) + s.skip(n) == s
        },
        last_article(format, record_len, s) matches Ok(Some(a)) ==> file_bytes(format, a) == s,
        first_article(format, record_len, s) is Ok,
{
    if s.len() >= record_len {
        assert(s.take(record_len as int) + s.skip(record_len as int) =~= s);
    }
}

/// A line of text that is neither empty nor ends in a carriage return is rebuilt, line feed
/// included, from its article. In the fixed format the line may be empty, but must not end in a
/// space.
pub proof fn law_lines_are_rebuilt(format: RecordFormat, record_len: nat, s: Seq<u8>)
    requires
        format.is_text(),
        line_end(s) < s.len(),
        line_end(s) <= record_len,
        line_end(s) > 0 ==> s[line_end(s) - 1] != 13,
        format == RecordFormat::Tv ==> line_end(s) > 0,
        format == RecordFormat::Tf && line_end(s) > 0 ==> s[line_end(s) - 1] != 32,
    ensures
        first_article(format, record_len, s) matches Ok(Some((a, n))) && file_bytes(format, a)
            + s.skip(n) == s,
{
    lemma_line_end(s);
    let nl = line_end(s);
    let line = s.take(nl);
    if nl > 0 {
        assert(line.last() == s[nl - 1]);
    }
    assert(without_cr(line) == line);
    let a = line_article(format, record_len, line)->Ok_0;
    if format == RecordFormat::Tf {
        lemma_padding_is_trimmed(line, record_len);
        assert(file_bytes(format, a) =~= line.push(10));
    }
    assert(line.push(10) + s.skip(nl + 1) =~= s);
}

pub(crate) proof fn lemma_padding_is_trimmed(line: Seq<u8>, n: nat)
    requires
        line.len() <= n,
        line.len() > 0 ==> line.last() != 32,
    ensures
        without_spaces(space_padded(line, n)) == line,
    decreases n - line.len(),
{
    let p = space_padded(line, n);
    if line.len() == n {
        assert(p =~= line);
    } else {
        assert(p.drop_last() =~= space_padded(line, (n - 1) as nat));
        lemma_padding_is_trimmed(line, (n - 1) as nat);
    }
}

// ---- packing articles into FPDUs ----

/// Maximum number of articles in one multi-article DTF (octet 6 is a byte).
pub const MAX_ARTICLES_PER_DTF: usize = 255;

/// Values of byte strings.
pub open spec fn byte_strings(v: Seq<Vec<u8>>) -> Seq<Seq<u8>> {
    v.map_values(|x: Vec<u8>| x@)
}

/// Values of FPDUs.
pub open spec fn fpdus_view(v: Seq<Fpdu>) -> Seq<FpduV> {
    v.map_values(|f: Fpdu| f@)
}

/// A data FPDU.
pub open spec fn data_fpdu(kind: FpduKind, id_dst: u8, id_src: u8, data: Seq<u8>) -> FpduV {
    FpduV { kind, id_dst, id_src, params: Seq::empty(), data }
}

/// An article behind its two-byte length.
pub open spec fn prefixed(a: Seq<u8>) -> Seq<u8> {
    seq![((a.len() / 256) % 256) as u8, (a.len() % 256) as u8] + a
}

/// Content of a multi-article DTF.
pub open spec fn joined(articles: Seq<Seq<u8>>) -> Seq<u8>
    decreases articles.len(),
{
    if articles.len() == 0 {
        seq![]
    } else {
        joined(articles.drop_last()) + prefixed(articles.last())
    }
}

/// Segments of an article: pieces of `m` bytes, the first one as DTFDA where the article starts,
/// the last one as DTFFA.
pub open spec fn segments(id_dst: u8, article: Seq<u8>, m: nat, first: bool) -> Seq<FpduV>
    decreases article.len(),
{
    if article.len() <= m || m == 0 {
        seq![
            data_fpdu(
                if first {
                    FpduKind::DtfDa
                } else {
                    FpduKind::DtfFa
                },
                id_dst,
                0,
                article,
            ),
        ]
    } else {
        seq![
            data_fpdu(
                if first {
                    FpduKind::DtfDa
                } else {
                    FpduKind::DtfMa
                },
                id_dst,
                0,
                article.take(m as int),
            ),
        ] + segments(id_dst, article.skip(m as int), m, false)
    }
}

/// State of a packer: its settings and the articles that wait to be sent.
#[verifier::ext_equal]
pub struct PackerV {
    /// Connection identifier at the destination.
    pub id_dst: u8,
    /// Largest FPDU that may be emitted.
    pub max_dtf_len: nat,
    /// Whether several articles may share a DTF.
    pub multi_article: bool,
    /// Articles that wait.
    pub pending: Seq<Seq<u8>>,
}

impl PackerV {
    /// Largest article that fits in one DTF.
    pub open spec fn max_single(self) -> nat {
        (self.max_dtf_len - HEADER_LEN) as nat
    }

    /// What the packer keeps true: at least one data byte fits, waiting articles fit one by one,
    /// and together where there are several.
    pub open spec fn inv(self) -> bool {
        &&& self.max_dtf_len > HEADER_LEN
        &&& self.pending.len() <= MAX_ARTICLES_PER_DTF
        &&& forall|i: int|
            0 <= i < self.pending.len() ==> (#[trigger] self.pending[i]).len() <= self.max_single()
        &&& self.pending.len() > 1 ==> HEADER_LEN + joined(self.pending).len() <= self.max_dtf_len
        &&& !self.multi_article ==> self.pending.len() == 0
    }

    /// The FPDU of the waiting articles; a single one travels without a length.
    pub open spec fn flushed(self) -> Seq<FpduV> {
        if self.pending.len() == 0 {
            seq![]
        } else if self.pending.len() == 1 {
            seq![data_fpdu(FpduKind::Dtf, self.id_dst, 0, self.pending[0])]
        } else {
            seq![
                data_fpdu(
                    FpduKind::Dtf,
                    self.id_dst,
                    (self.pending.len() % 256) as u8,
                    joined(self.pending),
                ),
            ]
        }
    }

    /// Whether one more article would overfill the FPDU of the waiting ones.
    pub open spec fn full_for(self, article: Seq<u8>) -> bool {
        self.pending.len() > 0 && (HEADER_LEN + joined(self.pending).len() + 2 + article.len()
            > self.max_dtf_len || self.pending.len() >= MAX_ARTICLES_PER_DTF)
    }

    /// FPDUs that are ready once an article has been added.
    pub open spec fn pushed_out(self, article: Seq<u8>) -> Seq<FpduV> {
        if article.len() > self.max_single() {
            self.flushed() + segments(self.id_dst, article, self.max_single(), true)
        } else if !self.multi_article {
            seq![data_fpdu(FpduKind::Dtf, self.id_dst, 0, article)]
        } else if self.full_for(article) {
            self.flushed()
        } else {
            seq![]
        }
    }

    /// Articles that wait once an article has been added.
    pub open spec fn pushed_pending(self, article: Seq<u8>) -> Seq<Seq<u8>> {
        if article.len() > self.max_single() {
            seq![]
        } else if !self.multi_article {
            self.pending
        } else if self.full_for(article) {
            seq![article]
        } else {
            self.pending.push(article)
        }
    }
}

/// Packs articles into DTF FPDUs bounded by the entity size, using multi-article DTFs and
/// segmentation (DTFDA/DTFMA/DTFFA) when an article does not fit.
#[derive(Debug)]
pub struct ArticlePacker {
    id_dst: u8,
    max_dtf_len: usize,
    multi_article: bool,
    pending: Vec<Vec<u8>>,
}

impl View for ArticlePacker {
    type V = PackerV;

    closed spec fn view(&self) -> PackerV {
        PackerV {
            id_dst: self.id_dst,
            max_dtf_len: if self.max_dtf_len <= HEADER_LEN {
                HEADER_LEN as nat + 1
            } else {
                self.max_dtf_len as nat
            },
            multi_article: self.multi_article,
            pending: byte_strings(self.pending@),
        }
    }
}

proof fn lemma_joined_push(articles: Seq<Seq<u8>>, a: Seq<u8>)
    ensures
        joined(articles.push(a)) == joined(articles) + prefixed(a),
{
    assert(articles.push(a).drop_last() =~= articles);
}

fn push_prefixed(out: &mut Vec<u8>, a: &[u8])
    ensures
        final(out)@ == old(out)@ + prefixed(a@),
{
    let n: usize = a.len();
    out.push(((n / 256) % 256) as u8);
    out.push((n % 256) as u8);
    out.extend_from_slice(a);
    proof {
        assert(out@ =~= old(out)@ + prefixed(a@));
    }
}

fn join(articles: &Vec<Vec<u8>>) -> (r: Vec<u8>)
    ensures
        r@ == joined(byte_strings(articles@)),
{
    let mut out: Vec<u8> = Vec::new();
    let ghost list = byte_strings(articles@);
    let mut i: usize = 0;
    proof {
        assert(list.take(0) =~= Seq::empty());
        assert(out@ =~= joined(list.take(0)));
    }
    while i < articles.len()
        invariant
            i <= articles.len(),
            list == byte_strings(articles@),
            out@ == joined(list.take(i as int)),
        decreases articles.len() - i,
    {
        push_prefixed(&mut out, articles[i].as_slice());
        proof {
            assert(list.take(i + 1) =~= list.take(i as int).push(list[i as int]));
            lemma_joined_push(list.take(i as int), list[i as int]);
        }
        i += 1;
    }
    proof {
        assert(list.take(i as int) =~= list);
    }
    out
}

/// Length of the content of a multi-article DTF, or the largest machine number.
fn joined_len(articles: &Vec<Vec<u8>>) -> (r: usize)
    ensures
        r == crate::fpdu::clamp_usize(joined(byte_strings(articles@)).len()),
{
    let mut total: usize = 0;
    let ghost list = byte_strings(articles@);
    let mut i: usize = 0;
    proof {
        assert(list.take(0) =~= Seq::empty());
    }
    while i < articles.len()
        invariant
            i <= articles.len(),
            list == byte_strings(articles@),
            total == crate::fpdu::clamp_usize(joined(list.take(i as int)).len()),
        decreases articles.len() - i,
    {
        total = total.saturating_add(2).saturating_add(articles[i].len());
        proof {
            assert(list.take(i + 1) =~= list.take(i as int).push(list[i as int]));
            lemma_joined_push(list.take(i as int), list[i as int]);
        }
        i += 1;
    }
    proof {
        assert(list.take(i as int) =~= list);
    }
    total
}

impl ArticlePacker {
    /// `max_dtf_len` is the largest FPDU (header included) that may be emitted, i.e. the
    /// negotiated entity size (minus CRC if any). `multi_article` enables packing several
    /// articles in one DTF.
    #[must_use]
    pub fn new(id_dst: u8, max_dtf_len: usize, multi_article: bool) -> (r: Self)
        ensures
            r@ == (PackerV {
                id_dst,
                max_dtf_len: if max_dtf_len <= HEADER_LEN {
                    HEADER_LEN as nat + 1
                } else {
                    max_dtf_len as nat
                },
                multi_article,
                pending: Seq::empty(),
            }),
            r@.inv(),
    {
        let r = ArticlePacker { id_dst, max_dtf_len, multi_article, pending: Vec::new() };
        proof {
            assert(r@.pending =~= Seq::empty());
        }
        r
    }

    /// Largest article payload transportable in a single mono-article DTF.
    #[must_use]
    pub fn max_single(&self) -> (r: usize)
        ensures
            r == self@.max_single(),
            r > 0,
    {
        if self.max_dtf_len <= HEADER_LEN {
            1
        } else {
            self.max_dtf_len - HEADER_LEN
        }
    }

    /// Add an article; returns the FPDUs that became ready (possibly none).
    #[must_use]
    pub fn push(&mut self, article: &[u8]) -> (r: Vec<Fpdu>)
        ensures
            fpdus_view(r@) == old(self)@.pushed_out(article@),
            final(self)@ == (PackerV {
                pending: old(self)@.pushed_pending(article@),
                ..old(self)@
            }),
    {
        let ghost before = self@;
        let mut out: Vec<Fpdu> = Vec::new();
        proof {
            assert(fpdus_view(out@) =~= Seq::empty());
        }
        let max_single: usize = self.max_single();
        if article.len() > max_single {
            self.flush_into(&mut out);
            push_segments(&mut out, self.id_dst, article, max_single);
            proof {
                assert(fpdus_view(out@) =~= before.pushed_out(article@));
            }
            return out;
        }
        if !self.multi_article {
            let f = Fpdu::data(FpduKind::Dtf, self.id_dst, 0, bytes_to_vec(article));
            let ghost fv = f@;
            out.push(f);
            proof {
                assert(fpdus_view(out@) =~= seq![fv]);
            }
            return out;
        }
        let needed: usize = article.len() + 2;
        let pending: usize = joined_len(&self.pending);
        let overfull: bool = pending > max_single || needed > max_single - pending;
        if self.pending.len() > 0 && (overfull || self.pending.len() >= MAX_ARTICLES_PER_DTF) {
            self.flush_into(&mut out);
        }
        proof {
            assert(fpdus_view(out@) =~= before.pushed_out(article@));
        }
        let ghost list = self@.pending;
        self.pending.push(bytes_to_vec(article));
        proof {
            assert(self@.pending =~= list.push(article@));
            assert(self@.pending =~= before.pushed_pending(article@));
        }
        out
    }

    /// Flush the pending multi-article DTF, if any.
    #[must_use]
    pub fn flush(&mut self) -> (r: Option<Fpdu>)
        ensures
            r is None <==> old(self)@.pending.len() == 0,
            r matches Some(f) ==> old(self)@.flushed() == seq![f@],
            final(self)@ == (PackerV { pending: Seq::empty(), ..old(self)@ }),
    {
        let ghost before = self@;
        let mut v: Vec<Fpdu> = Vec::new();
        proof {
            assert(fpdus_view(v@) =~= Seq::empty());
        }
        self.flush_into(&mut v);
        proof {
            assert(fpdus_view(v@) =~= before.flushed());
            assert(v@.len() == before.flushed().len());
        }
        let r = v.pop();
        proof {
            if r is Some {
                assert(before.flushed()[0] == r->0@);
                assert(before.flushed() =~= seq![r->0@]);
            }
        }
        r
    }

    fn flush_into(&mut self, out: &mut Vec<Fpdu>)
        ensures
            fpdus_view(final(out)@) == fpdus_view(old(out)@) + old(self)@.flushed(),
            final(self)@ == (PackerV { pending: Seq::empty(), ..old(self)@ }),
    {
        let ghost before = self@;
        let n: usize = self.pending.len();
        if n == 0 {
            proof {
                assert(self@.pending =~= Seq::empty());
                assert(fpdus_view(out@) =~= fpdus_view(old(out)@) + self@.flushed());
            }
            return;
        }
        let fpdu = if n == 1 {
            // A single article is sent as a mono-article DTF (no length prefix).
            Fpdu::data(FpduKind::Dtf, self.id_dst, 0, bytes_to_vec(self.pending[0].as_slice()))
        } else {
            Fpdu::data(FpduKind::Dtf, self.id_dst, (n % 256) as u8, join(&self.pending))
        };
        let ghost fv = fpdu@;
        self.pending.clear();
        out.push(fpdu);
        proof {
            assert(self@.pending =~= Seq::empty());
            assert(before.flushed() =~= seq![fv]);
            assert(fpdus_view(out@) =~= fpdus_view(old(out)@).push(fv));
            assert(fpdus_view(out@) =~= fpdus_view(old(out)@) + before.flushed());
        }
    }

    /// Whether articles are pending.
    #[must_use]
    pub fn has_pending(&self) -> (r: bool)
        ensures
            r == (self@.pending.len() > 0),
    {
        self.pending.len() > 0
    }
}

fn push_segments(out: &mut Vec<Fpdu>, id_dst: u8, article: &[u8], m: usize)
    requires
        m > 0,
    ensures
        fpdus_view(final(out)@) == fpdus_view(old(out)@) + segments(
            id_dst,
            article@,
            m as nat,
            true,
        ),
{
    let mut pos: usize = 0;
    let mut first: bool = true;
    let ghost base = fpdus_view(out@);
    let ghost whole = base + segments(id_dst, article@, m as nat, true);
    proof {
        assert(article@.skip(0) =~= article@);
    }
    while article.len() - pos > m
        invariant
            m > 0,
            pos <= article.len(),
            whole == fpdus_view(out@) + segments(
                id_dst,
                article@.skip(pos as int),
                m as nat,
                first,
            ),
        decreases article.len() - pos,
    {
        let ghost rest = article@.skip(pos as int);
        let ghost before = fpdus_view(out@);
        let part = vstd::slice::slice_subrange(article, pos, pos + m);
        proof {
            assert(part@ =~= rest.take(m as int));
            assert(rest.skip(m as int) =~= article@.skip(pos + m));
        }
        let kind = if first {
            FpduKind::DtfDa
        } else {
            FpduKind::DtfMa
        };
        let f = Fpdu::data(kind, id_dst, 0, bytes_to_vec(part));
        let ghost fv = f@;
        out.push(f);
        proof {
            assert(fpdus_view(out@) =~= before.push(fv));
            assert(whole =~= fpdus_view(out@) + segments(
                id_dst,
                rest.skip(m as int),
                m as nat,
                false,
            ));
        }
        first = false;
        pos += m;
    }
    let ghost before = fpdus_view(out@);
    let part = vstd::slice::slice_subrange(article, pos, article.len());
    proof {
        assert(part@ =~= article@.skip(pos as int));
    }
    let kind = if first {
        FpduKind::DtfDa
    } else {
        FpduKind::DtfFa
    };
    let f = Fpdu::data(kind, id_dst, 0, bytes_to_vec(part));
    let ghost fv = f@;
    out.push(f);
    proof {
        assert(fpdus_view(out@) =~= before.push(fv));
        assert(whole =~= fpdus_view(out@));
    }
}

// ---- taking articles out of FPDUs ----

/// Articles of the content of a multi-article DTF behind those of `acc`, or what is wrong with it.
pub open spec fn parted(data: Seq<u8>, acc: Seq<Seq<u8>>) -> Result<Seq<Seq<u8>>, Seq<char>>
    decreases data.len(),
{
    if data.len() == 0 {
        Ok(acc)
    } else if data.len() < 2 {
        Err("truncated article length"@)
    } else {
        let n = data[0] * 256 + data[1];
        if data.len() < 2 + n {
            Err("article length exceeds the FPDU"@)
        } else {
            parted(data.skip(2 + n), acc.push(data.subrange(2, 2 + n)))
        }
    }
}

/// Articles of a data FPDU.
pub open spec fn articles(f: FpduV) -> Result<Seq<Seq<u8>>, Fault> {
    if f.kind == FpduKind::Dtf && f.id_src > 0 {
        match parted(f.data, Seq::empty()) {
            Err(e) => Err((Diagnostic::remote_protocol_error(), e)),
            Ok(list) => if list.len() != f.id_src {
                Err(
                    (
                        Diagnostic::remote_protocol_error(),
                        dec(f.id_src as nat) + " articles announced, "@ + dec(list.len())
                            + " found"@,
                    ),
                )
            } else {
                Ok(list)
            },
        }
    } else {
        Ok(seq![f.data])
    }
}

/// Values of byte slices.
pub open spec fn byte_slices(v: Seq<&[u8]>) -> Seq<Seq<u8>> {
    v.map_values(|x: &[u8]| x@)
}

fn bad_multi(detail: String) -> (r: DecodeError)
    ensures
        r@ == (Diagnostic::remote_protocol_error(), detail@),
{
    DecodeError { diag: Diagnostic::remote_protocol_error(), detail }
}

/// Extract the articles carried by a data FPDU.
///
/// For a multi-article DTF (`id_src > 0`) the two-byte length prefixes are decoded; otherwise the
/// whole content is one article (or a fragment for DTFDA/DTFMA/DTFFA).
pub fn articles_of(fpdu: &Fpdu) -> (r: Result<Vec<&[u8]>, DecodeError>)
    ensures
        r matches Ok(v) ==> articles(fpdu@) == Ok::<_, Fault>(byte_slices(v@)),
        r matches Err(e) ==> articles(fpdu@) == Err::<Seq<Seq<u8>>, Fault>(e@),
{
    let mut out: Vec<&[u8]> = Vec::new();
    proof {
        assert(byte_slices(out@) =~= Seq::empty());
    }
    let data = fpdu.data.as_slice();
    if fpdu.kind == FpduKind::Dtf && fpdu.id_src > 0 {
        let mut pos: usize = 0;
        proof {
            assert(data@.skip(0) =~= data@);
        }
        while pos < data.len()
            invariant
                pos <= data.len(),
                data@ == fpdu@.data,
                fpdu@.kind == FpduKind::Dtf,
                fpdu@.id_src > 0,
                parted(data@, Seq::empty()) == parted(data@.skip(pos as int), byte_slices(out@)),
            decreases data.len() - pos,
        {
            let ghost rest = data@.skip(pos as int);
            let ghost before = byte_slices(out@);
            let left: usize = data.len() - pos;
            if left < 2 {
                return Err(bad_multi("truncated article length".to_owned()));
            }
            let n: usize = data[pos] as usize * 256 + data[pos + 1] as usize;
            if left - 2 < n {
                return Err(bad_multi("article length exceeds the FPDU".to_owned()));
            }
            let a = vstd::slice::slice_subrange(data, pos + 2, pos + 2 + n);
            out.push(a);
            pos = pos + 2 + n;
            proof {
                assert(a@ =~= rest.subrange(2, 2 + n));
                assert(rest.skip(2 + n) =~= data@.skip(pos as int));
                assert(byte_slices(out@) =~= before.push(a@));
            }
        }
        proof {
            assert(data@.skip(pos as int) =~= Seq::empty());
        }
        if out.len() != fpdu.id_src as usize {
            let mut text = String::new();
            push_decimal(&mut text, fpdu.id_src as u64);
            proof {
                assert(text@ =~= dec(fpdu.id_src as nat));
            }
            text.append(" articles announced, ");
            push_decimal(&mut text, out.len() as u64);
            text.append(" found");
            return Err(bad_multi(text));
        }
        Ok(out)
    } else {
        out.push(data);
        proof {
            assert(byte_slices(out@) =~= seq![fpdu@.data]);
        }
        Ok(out)
    }
}

/// Error while reassembling a segmented article.
#[derive(Debug, Clone, Copy, PartialEq, Eq, Structural)]
pub enum ReassemblyError {
    /// DTFMA/DTFFA received without a preceding DTFDA.
    NoStart(FpduKind),
    /// DTF/DTFDA received while an article was being reassembled.
    Interleaved(FpduKind),
    /// The reassembled article exceeds the announced article length.
    TooLong(usize),
}

impl ReassemblyError {
    /// Rendering of the error.
    pub open spec fn spec_text(self) -> Seq<char> {
        match self {
            ReassemblyError::NoStart(k) => k.spec_name() + " received without a DTFDA"@,
            ReassemblyError::Interleaved(k) => k.spec_name()
                + " received while an article is being reassembled"@,
            ReassemblyError::TooLong(n) => "segmented article exceeds "@ + dec(n as nat)
                + " bytes"@,
        }
    }

    /// Rendering of the error.
    #[must_use]
    pub fn text(self) -> (r: String)
        ensures
            r@ == self.spec_text(),
    {
        match self {
            ReassemblyError::NoStart(k) => {
                let mut out = k.name().to_owned();
                out.append(" received without a DTFDA");
                out
            },
            ReassemblyError::Interleaved(k) => {
                let mut out = k.name().to_owned();
                out.append(" received while an article is being reassembled");
                out
            },
            ReassemblyError::TooLong(n) => {
                let mut out = "segmented article exceeds ".to_owned();
                push_decimal(&mut out, n as u64);
                out.append(" bytes");
                out
            },
        }
    }
}

/// The article under way, behind a data FPDU, and the complete articles or the error it yields.
pub open spec fn fed(partial: Option<Seq<u8>>, max_len: nat, f: FpduV) -> (
    Option<Seq<u8>>,
    Result<Seq<Seq<u8>>, ReassemblyError>,
) {
    let none = Seq::<Seq<u8>>::empty();
    match f.kind {
        FpduKind::Dtf => if partial is Some || articles(f) is Err {
            (partial, Err(ReassemblyError::Interleaved(f.kind)))
        } else {
            (partial, Ok(articles(f)->Ok_0))
        },
        FpduKind::DtfDa => if partial is Some {
            (partial, Err(ReassemblyError::Interleaved(f.kind)))
        } else if max_len > 0 && f.data.len() > max_len {
            (partial, Err(ReassemblyError::TooLong(max_len as usize)))
        } else {
            (Some(f.data), Ok(none))
        },
        FpduKind::DtfMa | FpduKind::DtfFa => match partial {
            None => (partial, Err(ReassemblyError::NoStart(f.kind))),
            Some(p) => if max_len > 0 && p.len() + f.data.len() > max_len {
                (None, Err(ReassemblyError::TooLong(max_len as usize)))
            } else if f.kind == FpduKind::DtfMa {
                (Some(p + f.data), Ok(none))
            } else {
                (None, Ok(seq![p + f.data]))
            },
        },
        _ => (partial, Ok(none)),
    }
}

/// Reassembles segmented articles (DTFDA + DTFMA* + DTFFA) on reception.
#[derive(Debug)]
pub struct Reassembler {
    partial: Option<Vec<u8>>,
    max_len: usize,
}

impl Reassembler {
    /// Article being reassembled.
    pub closed spec fn spec_partial(self) -> Option<Seq<u8>> {
        match self.partial {
            Some(p) => Some(p@),
            None => None,
        }
    }

    /// Longest article accepted, 0 for no limit.
    pub closed spec fn spec_max_len(self) -> nat {
        self.max_len as nat
    }

    /// New reassembler; `max_len` = 0 for no limit.
    #[must_use]
    pub fn new(max_len: usize) -> (r: Self)
        ensures
            r.spec_partial() is None,
            r.spec_max_len() == max_len,
    {
        Reassembler { partial: None, max_len }
    }

    /// Whether a segmented article is being reassembled.
    #[must_use]
    pub fn in_progress(&self) -> (r: bool)
        ensures
            r == self.spec_partial() is Some,
    {
        self.partial.is_some()
    }

    /// Feed a data FPDU; returns the complete articles it yields.
    pub fn feed(&mut self, fpdu: &Fpdu) -> (r: Result<Vec<Vec<u8>>, ReassemblyError>)
        ensures
            final(self).spec_max_len() == old(self).spec_max_len(),
            ({
                let (partial, yields) = fed(
                    old(self).spec_partial(),
                    old(self).spec_max_len(),
                    fpdu@,
                );
                &&& final(self).spec_partial() == partial
                &&& r matches Ok(v) ==> yields == Ok::<_, ReassemblyError>(byte_strings(v@))
                &&& r matches Err(e) ==> yields == Err::<Seq<Seq<u8>>, _>(e)
            }),
    {
        let mut out: Vec<Vec<u8>> = Vec::new();
        proof {
            assert(byte_strings(out@) =~= Seq::empty());
        }
        match fpdu.kind {
            FpduKind::Dtf => {
                if self.partial.is_some() {
                    return Err(ReassemblyError::Interleaved(fpdu.kind));
                }
                match articles_of(fpdu) {
                    Ok(list) => Ok(copy_slices(&list)),
                    Err(_) => Err(ReassemblyError::Interleaved(fpdu.kind)),
                }
            },
            FpduKind::DtfDa => {
                if self.partial.is_some() {
                    return Err(ReassemblyError::Interleaved(fpdu.kind));
                }
                if self.max_len > 0 && fpdu.data.len() > self.max_len {
                    return Err(ReassemblyError::TooLong(self.max_len));
                }
                self.partial = Some(bytes_to_vec(fpdu.data.as_slice()));
                Ok(out)
            },
            FpduKind::DtfMa | FpduKind::DtfFa => {
                let taken = self.partial.take();
                match taken {
                    None => Err(ReassemblyError::NoStart(fpdu.kind)),
                    Some(p) => {
                        let mut p = p;
                        if self.max_len > 0 && (p.len() > self.max_len || fpdu.data.len()
                            > self.max_len - p.len()) {
                            return Err(ReassemblyError::TooLong(self.max_len));
                        }
                        let ghost before = p@;
                        p.extend_from_slice(fpdu.data.as_slice());
                        proof {
                            assert(p@ =~= before + fpdu@.data);
                        }
                        if fpdu.kind == FpduKind::DtfMa {
                            self.partial = Some(p);
                            Ok(out)
                        } else {
                            let ghost pv = p@;
                            out.push(p);
                            proof {
                                assert(byte_strings(out@) =~= seq![pv]);
                            }
                            Ok(out)
                        }
                    },
                }
            },
            _ => Ok(out),
        }
    }
}

impl Default for Reassembler {
    fn default() -> (r: Self)
        ensures
            r.spec_partial() is None,
            r.spec_max_len() == 0,
    {
        Reassembler::new(0)
    }
}

fn copy_slices(list: &Vec<&[u8]>) -> (r: Vec<Vec<u8>>)
    ensures
        byte_strings(r@) == byte_slices(list@),
{
    let mut out: Vec<Vec<u8>> = Vec::new();
    let mut i: usize = 0;
    while i < list.len()
        invariant
            i <= list.len(),
            byte_strings(out@) == byte_slices(list@).take(i as int),
        decreases list.len() - i,
    {
        let ghost before = byte_strings(out@);
        out.push(bytes_to_vec(list[i]));
        i += 1;
        proof {
            assert(byte_strings(out@) =~= before.push(byte_slices(list@)[i - 1]));
            assert(byte_strings(out@) =~= byte_slices(list@).take(i as int));
        }
    }
    proof {
        assert(byte_slices(list@).take(i as int) =~= byte_slices(list@));
    }
    out
}

// ---- reassembly undoes packing ----

/// The article under way and the complete articles behind a sequence of data FPDUs, where all are
/// accepted.
pub open spec fn fed_all(partial: Option<Seq<u8>>, max_len: nat, fpdus: Seq<FpduV>) -> Option<
    (Option<Seq<u8>>, Seq<Seq<u8>>),
>
    decreases fpdus.len(),
{
    if fpdus.len() == 0 {
        Some((partial, Seq::empty()))
    } else {
        match fed(partial, max_len, fpdus[0]) {
            (p, Ok(list)) => match fed_all(p, max_len, fpdus.skip(1)) {
                Some((q, more)) => Some((q, list + more)),
                None => None,
            },
            (_, Err(_)) => None,
        }
    }
}

proof fn lemma_joined_front(articles: Seq<Seq<u8>>)
    requires
        articles.len() > 0,
    ensures
        joined(articles) == prefixed(articles[0]) + joined(articles.skip(1)),
    decreases articles.len(),
{
    if articles.len() == 1 {
        assert(articles.drop_last() =~= Seq::empty());
        assert(articles.skip(1) =~= Seq::empty());
        assert(joined(articles.drop_last()) =~= Seq::empty());
        assert(joined(articles) =~= prefixed(articles[0]) + joined(articles.skip(1)));
    } else {
        lemma_joined_front(articles.drop_last());
        assert(articles.drop_last().skip(1) =~= articles.skip(1).drop_last());
        assert(articles.skip(1).last() == articles.last());
        assert(joined(articles) =~= prefixed(articles[0]) + joined(articles.skip(1)));
    }
}

/// The content of a multi-article DTF is parted into the articles it was joined from.
pub proof fn law_parting_undoes_joining(list: Seq<Seq<u8>>, acc: Seq<Seq<u8>>)
    requires
        forall|i: int| 0 <= i < list.len() ==> (#[trigger] list[i]).len() <= 0xFFFF,
    ensures
        parted(joined(list), acc) == Ok::<_, Seq<char>>(acc + list),
    decreases list.len(),
{
    if list.len() == 0 {
        assert(acc + list =~= acc);
    } else {
        let a = list[0];
        let data = joined(list);
        lemma_joined_front(list);
        assert(data =~= prefixed(a) + joined(list.skip(1)));
        assert(data[0] == prefixed(a)[0] && data[1] == prefixed(a)[1]);
        assert(data[0] * 256 + data[1] == a.len());
        assert(data.subrange(2, 2 + a.len() as int) =~= a);
        assert(data.skip(2 + a.len() as int) =~= joined(list.skip(1)));
        assert(acc.push(a) + list.skip(1) =~= acc + list);
        assert forall|i: int| 0 <= i < list.skip(1).len() implies (
        #[trigger] list.skip(1)[i]).len() <= 0xFFFF by {
            assert(list.skip(1)[i] == list[i + 1]);
        }
        law_parting_undoes_joining(list.skip(1), acc.push(a));
    }
}

proof fn lemma_segments_fed(id_dst: u8, article: Seq<u8>, m: nat, p: Seq<u8>, max_len: nat)
    requires
        m > 0,
        max_len == 0 || p.len() + article.len() <= max_len,
    ensures
        fed_all(Some(p), max_len, segments(id_dst, article, m, false)) == Some(
            (None::<Seq<u8>>, seq![p + article]),
        ),
    decreases article.len(),
{
    let s = segments(id_dst, article, m, false);
    if article.len() <= m {
        assert(s.skip(1) =~= Seq::empty());
        assert(fed_all(None, max_len, s.skip(1)) == Some((None::<Seq<u8>>, Seq::<Seq<u8>>::empty())));
        assert(seq![p + article] + Seq::<Seq<u8>>::empty() =~= seq![p + article]);
    } else {
        let head = article.take(m as int);
        let tail = article.skip(m as int);
        assert(s.skip(1) =~= segments(id_dst, tail, m, false));
        lemma_segments_fed(id_dst, tail, m, p + head, max_len);
        assert(p + head + tail =~= p + article);
        assert(Seq::<Seq<u8>>::empty() + seq![p + article] =~= seq![p + article]);
    }
}

/// A segmented article within the limit of the receiver is reassembled.
pub proof fn law_segments_are_reassembled(id_dst: u8, article: Seq<u8>, m: nat, max_len: nat)
    requires
        max_len == 0 || article.len() <= max_len,
        0 < m < article.len(),
    ensures
        fed_all(None, max_len, segments(id_dst, article, m, true)) == Some(
            (None::<Seq<u8>>, seq![article]),
        ),
{
    let s = segments(id_dst, article, m, true);
    let head = article.take(m as int);
    let tail = article.skip(m as int);
    assert(s.skip(1) =~= segments(id_dst, tail, m, false));
    lemma_segments_fed(id_dst, tail, m, head, max_len);
    assert(head + tail =~= article);
    assert(Seq::<Seq<u8>>::empty() + seq![article] =~= seq![article]);
}

proof fn lemma_fed_concat(partial: Option<Seq<u8>>, a: Seq<FpduV>, b: Seq<FpduV>, max_len: nat)
    requires
        fed_all(partial, max_len, a) is Some,
        fed_all((fed_all(partial, max_len, a)->0).0, max_len, b) is Some,
    ensures
        ({
            let (p, x) = fed_all(partial, max_len, a)->0;
            let (q, y) = fed_all(p, max_len, b)->0;
            fed_all(partial, max_len, a + b) == Some((q, x + y))
        }),
    decreases a.len(),
{
    let (p, x) = fed_all(partial, max_len, a)->0;
    let (q, y) = fed_all(p, max_len, b)->0;
    if a.len() == 0 {
        assert(a + b =~= b);
        assert(x + y =~= y);
    } else {
        let (p1, r1) = fed(partial, max_len, a[0]);
        assert((a + b)[0] == a[0]);
        assert((a + b).skip(1) =~= a.skip(1) + b);
        lemma_fed_concat(p1, a.skip(1), b, max_len);
        let (p2, x2) = fed_all(p1, max_len, a.skip(1))->0;
        assert(x =~= r1->Ok_0 + x2);
        assert(r1->Ok_0 + (x2 + y) =~= x + y);
    }
}

/// Flushed FPDUs yield the articles that were waiting.
pub proof fn law_flushed_articles_are_received(p: PackerV, max_len: nat)
    requires
        p.inv(),
        p.max_dtf_len <= 0xFFFF,
    ensures
        fed_all(None, max_len, p.flushed()) == Some((None::<Seq<u8>>, p.pending)),
{
    let f = p.flushed();
    if p.pending.len() == 0 {
        assert(p.pending =~= Seq::empty());
    } else {
        assert(f.skip(1) =~= Seq::empty());
        assert(fed_all(None, max_len, f.skip(1)) == Some((None::<Seq<u8>>, Seq::<Seq<u8>>::empty())));
        if p.pending.len() == 1 {
            assert(p.pending =~= seq![p.pending[0]]);
        } else {
            assert forall|i: int| 0 <= i < p.pending.len() implies (
            #[trigger] p.pending[i]).len() <= 0xFFFF by {}
            law_parting_undoes_joining(p.pending, Seq::empty());
            assert(Seq::empty() + p.pending =~= p.pending);
        }
        assert(p.pending + Seq::<Seq<u8>>::empty() =~= p.pending);
    }
}

/// Nothing is lost, added or reordered between the packer and the reassembler: whatever article is
/// pushed, the articles received from the emitted FPDUs, followed by those that still wait, are
/// those that were waiting before, followed by the article. The limit of the receiver holds for
/// articles that are cut into segments alone.
pub proof fn law_packed_articles_are_received(p: PackerV, article: Seq<u8>, max_len: nat)
    requires
        max_len == 0 || article.len() <= max_len || article.len() <= p.max_single(),
        p.inv(),
        p.max_dtf_len <= 0xFFFF,
    ensures
        ({
            let got = fed_all(None, max_len, p.pushed_out(article));
            &&& got is Some
            &&& (got->0).0 is None
            &&& (got->0).1 + p.pushed_pending(article) == p.pending.push(article)
        }),
{
    law_flushed_articles_are_received(p, max_len);
    let none = Seq::<Seq<u8>>::empty();
    if article.len() > p.max_single() {
        let segs = segments(p.id_dst, article, p.max_single(), true);
        law_segments_are_reassembled(p.id_dst, article, p.max_single(), max_len);
        lemma_fed_concat(None, p.flushed(), segs, max_len);
        assert(p.pending + seq![article] =~= p.pending.push(article));
        assert(p.pending.push(article) + none =~= p.pending.push(article));
    } else if !p.multi_article {
        let f = p.pushed_out(article);
        assert(f.skip(1) =~= Seq::empty());
        assert(fed_all(None, max_len, f.skip(1)) == Some((None::<Seq<u8>>, none)));
        assert(seq![article] + none =~= seq![article]);
        assert(p.pending =~= none);
        assert(seq![article] + none =~= none.push(article));
    } else if p.full_for(article) {
        assert(p.pending + seq![article] =~= p.pending.push(article));
    } else {
        assert(none + p.pending.push(article) =~= p.pending.push(article));
    }
}

proof fn lemma_segments_fit(id_dst: u8, article: Seq<u8>, m: nat, first: bool)
    requires
        m > 0,
    ensures
        forall|i: int|
            0 <= i < segments(id_dst, article, m, first).len() ==> (#[trigger] segments(
                id_dst,
                article,
                m,
                first,
            )[i]).wire_len() <= HEADER_LEN + m,
    decreases article.len(),
{
    let s = segments(id_dst, article, m, first);
    if article.len() > m {
        let t = segments(id_dst, article.skip(m as int), m, false);
        lemma_segments_fit(id_dst, article.skip(m as int), m, false);
        assert forall|i: int| 0 <= i < s.len() implies (#[trigger] s[i]).wire_len() <= HEADER_LEN
            + m by {
            if i > 0 {
                assert(s[i] == t[i - 1]);
            }
        }
    }
}

/// The packer keeps its invariant, and never emits a FPDU beyond its limit.
pub proof fn law_packed_fpdus_fit(p: PackerV, article: Seq<u8>)
    requires
        p.inv(),
    ensures
        (PackerV { pending: p.pushed_pending(article), ..p }).inv(),
        (PackerV { pending: Seq::empty(), ..p }).inv(),
        forall|i: int|
            0 <= i < p.pushed_out(article).len() ==> (#[trigger] p.pushed_out(
                article,
            )[i]).wire_len() <= p.max_dtf_len,
        forall|i: int|
            0 <= i < p.flushed().len() ==> (#[trigger] p.flushed()[i]).wire_len() <= p.max_dtf_len,
{
    let q = PackerV { pending: p.pushed_pending(article), ..p };
    lemma_segments_fit(p.id_dst, article, p.max_single(), true);
    let segs = segments(p.id_dst, article, p.max_single(), true);
    let out = p.pushed_out(article);
    assert forall|i: int| 0 <= i < out.len() implies (#[trigger] out[i]).wire_len()
        <= p.max_dtf_len by {
        if article.len() > p.max_single() {
            let k = p.flushed().len();
            if i < k {
                assert(out[i] == p.flushed()[i]);
            } else {
                assert(out[i] == segs[i - k]);
            }
        }
    }
    assert forall|i: int| 0 <= i < q.pending.len() implies (#[trigger] q.pending[i]).len()
        <= q.max_single() by {
        if i < p.pending.len() && q.pending.len() > 1 {
            assert(q.pending[i] == p.pending[i]);
        }
    }
    if q.pending.len() > 1 && p.multi_article && article.len() <= p.max_single() {
        lemma_joined_push(p.pending, article);
    }
}

} // verus!
