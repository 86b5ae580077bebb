//! Detectors and the pipeline that runs one over the scanner's candidates.
use crate::error::Error;
use crate::strings::{decodes_run, scan, StringsIterator, Width};
use crate::tree::{apply, slice_text, views, walked, SyntaxNode};
use crate::visitor::{fresh, texts, LanguageVisitor};
use vstd::prelude::*;
use vstd::string::StringSliceAdditionalSpecFns;

verus! {

/// `t` is the text of `src` from character offset `off` on.
pub open spec fn excerpt(src: Seq<char>, off: int, t: Seq<char>) -> bool {
    0 <= off && off + t.len() <= src.len() && t == src.subrange(off, off + t.len())
}

/// A detector: decides whether a candidate text holds code, and which part.
/// Its contract covers ASCII text, which is all the scanner yields.
pub trait Detector {
    /// The decision on a text: `None` when it cannot be parsed, else whether
    /// the detector's rules matched and the span they cover.
    spec fn verdict(text: Seq<char>) -> Option<(bool, Option<(usize, usize)>)>;

    /// `Ok(Some((offset, text)))` when the candidate holds code: the text is
    /// the part of the candidate worth reporting and the offset where it starts.
    fn parse(&mut self, src: &str) -> (r: Result<Option<(u64, String)>, Error>)
        ensures
            Self::verdict(src@) is None ==> r == Err::<Option<(u64, String)>, Error>(
                Error::Grammar,
            ),
            Self::verdict(src@) matches Some((m, span)) ==> (vstd::string::is_ascii(src)
                ==> reports(src@, m, span, r)),
            r matches Ok(Some((off, t))) ==> vstd::string::is_ascii(src) ==> excerpt(
                src@,
                off as int,
                t@,
            ),
    ;
}

/// Runs a detector on a text.
pub trait Parsable {
    fn is<P: Detector>(&self, parser: &mut P) -> Result<Option<(u64, String)>, Error>;
}

impl Parsable for String {
    fn is<P: Detector>(&self, parser: &mut P) -> Result<Option<(u64, String)>, Error> {
        parser.parse(self.as_str())
    }
}

/// What a detector reports, given its verdict and span: nothing without a
/// match; else the text from the span's start (0 without a span) to its end
/// (the end of the text without a span). Offsets count bytes, which for
/// ASCII text are characters.
pub open spec fn spec_report(src: Seq<char>, matched: bool, span: Option<(usize, usize)>) -> Option<
    (int, int),
> {
    if !matched {
        None
    } else {
        match span {
            Some((s, e)) => Some((s as int, e as int)),
            None => Some((0, src.len() as int)),
        }
    }
}

/// `r` is what is reported on ASCII text `src` for this verdict and span:
/// the text of the span at its start offset, or `Text` when the span falls
/// outside the text.
pub open spec fn reports(
    src: Seq<char>,
    matched: bool,
    span: Option<(usize, usize)>,
    r: Result<Option<(u64, String)>, Error>,
) -> bool {
    match spec_report(src, matched, span) {
        None => r == Ok::<Option<(u64, String)>, Error>(None),
        Some((s, e)) => if s <= e <= src.len() {
            r matches Ok(Some((off, t))) && off == s && t@ == src.subrange(s, e)
        } else {
            r == Err::<Option<(u64, String)>, Error>(Error::Text)
        },
    }
}

pub fn report(src: &str, matched: bool, span: Option<(usize, usize)>) -> (r: Result<
    Option<(u64, String)>,
    Error,
>)
    ensures
        vstd::string::is_ascii(src) ==> reports(src@, matched, span, r),
        r matches Ok(Some((off, t))) ==> vstd::string::is_ascii(src) ==> excerpt(
            src@,
            off as int,
            t@,
        ),
{
    if !matched {
        return Ok(None);
    }
    proof {
        vstd::string::is_ascii_spec_bytes(src);
        if vstd::string::is_ascii(src) {
            assert(src.spec_bytes().len() == src@.len());
        }
    }
    match span {
        None => {
            let whole = src.to_owned();
            assert(src@.subrange(0, src@.len() as int) =~= src@);
            Ok(Some((0, whole)))
        },
        Some((start, end)) => match slice_text(src, start, end) {
            Some(t) => Ok(Some((start as u64, t))),
            None => Err(Error::Text),
        },
    }
}

/// What a detector built on the structural rule alone reports for a parsed
/// node list: the rule, fresh over the kinds, walks the nodes, and its verdict
/// and span are reported.
pub fn detect_with_kinds(nodes: &Vec<SyntaxNode>, src: &str, kinds: Vec<String>) -> (r: Result<
    Option<(u64, String)>,
    Error,
>)
    requires
        forall|j: int| 0 <= j < nodes@.len() ==> #[trigger] nodes@[j].start <= nodes@[j].end,
    ensures
        vstd::string::is_ascii(src) ==> reports(
            src@,
            walked::<LanguageVisitor>(views(nodes@), fresh(texts(kinds@))).matched,
            walked::<LanguageVisitor>(views(nodes@), fresh(texts(kinds@))).span,
            r,
        ),
        r matches Ok(Some((off, t))) ==> vstd::string::is_ascii(src) ==> excerpt(
            src@,
            off as int,
            t@,
        ),
{
    let ghost table = texts(kinds@);
    let mut rule = LanguageVisitor::new(kinds);
    assert(rule@ == fresh(table));
    apply(nodes, &mut rule);
    report(src, rule.get_matched(), rule.get_span())
}

/// Turns a list of literals into owned strings.
pub fn string_table(words: &[&str]) -> (r: Vec<String>)
    ensures
        r@.len() == words@.len(),
        forall|i: int| 0 <= i < words@.len() ==> #[trigger] r@[i]@ == words@[i]@,
{
    let mut r: Vec<String> = Vec::new();
    let mut i: usize = 0;
    while i < words.len()
        invariant
            i <= words@.len(),
            r@.len() == i,
            forall|j: int| 0 <= j < i ==> #[trigger] r@[j]@ == words@[j]@,
        decreases words@.len() - i,
    {
        r.push(String::from_str(words[i]));
        i = i + 1;
    }
    r
}

/// What the pipeline makes of the detector's answer on a candidate found at
/// `position`: the accepted text at the candidate's offset plus the
/// detector's, when the sum fits; nothing otherwise.
pub open spec fn accepted(position: int, answer: Result<Option<(u64, String)>, Error>) -> Option<
    (u64, String),
> {
    match answer {
        Ok(Some((off, t))) => if position + off <= u64::MAX {
            Some(((position + off) as u64, t))
        } else {
            None
        },
        _ => None,
    }
}

pub fn accept(position: u64, answer: Result<Option<(u64, String)>, Error>) -> (r: Option<
    (u64, String),
>)
    ensures
        r == accepted(position as int, answer),
{
    match answer {
        Ok(Some((off, t))) => match position.checked_add(off) {
            Some(at) => Some((at, t)),
            None => None,
        },
        _ => None,
    }
}

/// Runs a detector over the candidates of a byte buffer and yields what it
/// accepts, at its offset in the buffer.
pub struct LanguageIterator<P> {
    strings_iterator: StringsIterator,
    language: P,
}

impl<P: Detector> LanguageIterator<P> {
    pub closed spec fn wf(&self) -> bool {
        self.strings_iterator.wf()
    }

    /// The scanned buffer.
    pub closed spec fn data(&self) -> Seq<u8> {
        self.strings_iterator.data()
    }

    pub closed spec fn width(&self) -> Width {
        self.strings_iterator.width()
    }

    pub closed spec fn min_len(&self) -> nat {
        self.strings_iterator.min_len()
    }

    /// Byte offset from which the next candidate is looked for.
    pub closed spec fn position(&self) -> int {
        self.strings_iterator.position()
    }

    /// Whether the scan of the buffer has ended.
    pub closed spec fn exhausted(&self) -> bool {
        self.strings_iterator.finished()
    }

    pub fn new(buffer: Vec<u8>, step: usize, width: Width, language: P) -> (r: Self)
        requires
            buffer@.len() < usize::MAX,
        ensures
            r.wf(),
            r.data() == buffer@,
            r.width() == width,
            r.min_len() == step,
            r.position() == 0,
            !r.exhausted(),
    {
        LanguageIterator { strings_iterator: StringsIterator::new(buffer, step, width), language }
    }

    /// The next accepted candidate: its offset in the buffer and the part
    /// that holds code. Candidates the detector rejects or fails on are
    /// skipped, and scanning goes on after them.
    pub fn next(&mut self) -> (r: Option<(u64, String)>)
        requires
            old(self).wf(),
        ensures
            final(self).wf(),
            final(self).data() == old(self).data(),
            final(self).width() == old(self).width(),
            final(self).min_len() == old(self).min_len(),
            final(self).position() >= old(self).position(),
            r is None ==> final(self).exhausted(),
            r matches Some((at, t)) ==> exists|c: int, p: int, s: Seq<char>, off: u64|
                #![trigger scan(old(self).data(), old(self).width(), old(self).min_len(), c), decodes_run(old(self).data(), old(self).width(), p, s.len(), s), accepted(p, Ok::<Option<(u64, String)>, Error>(Some((off, t))))]
                {
                    &&& old(self).position() <= c <= p
                    &&& scan(old(self).data(), old(self).width(), old(self).min_len(), c) == Some(
                        (p, s.len()),
                    )
                    &&& s.len() > old(self).min_len()
                    &&& decodes_run(old(self).data(), old(self).width(), p, s.len(), s)
                    &&& (P::verdict(s) matches Some((m, span)) && reports(
                        s,
                        m,
                        span,
                        Ok(Some((off, t))),
                    ))
                    &&& accepted(p, Ok::<Option<(u64, String)>, Error>(Some((off, t))))
                        == Some((at, t))
                },
    {
        loop
            invariant
                self.wf(),
                self.data() == old(self).data(),
                self.width() == old(self).width(),
                self.min_len() == old(self).min_len(),
                self.position() >= old(self).position(),
            decreases (if self.strings_iterator.finished() {
                0int
            } else {
                1int
            }), self.strings_iterator.data().len() + 2 - self.strings_iterator.position(),
        {
            let ghost c = self.position();
            match self.strings_iterator.next() {
                None => return None,
                Some((position, s)) => {
                    let text = s.as_str();
                    let answer = self.language.parse(text);
                    let ghost given = answer;
                    match accept(position, answer) {
                        Some((at, t)) => {
                            proof {
                                let off = given->Ok_0->Some_0.0;
                                assert(given == Ok::<Option<(u64, String)>, Error>(Some((off, t))));
                                assert(P::verdict(s@) is Some);
                                assert(accepted(position as int, Ok::<Option<(u64, String)>, Error>(Some((off, t)))) == Some((at, t)));
                            }
                            return Some((at, t));
                        },
                        None => {},
                    }
                },
            }
        }
    }
}

/// Runs a detector over the candidates of a byte buffer.
pub trait IterScrings: Sized + View<V = Seq<u8>> {
    fn iter_scrings<P: Detector>(self, step: usize, width: Width, language: P) -> (r: LanguageIterator<P>)
        requires
            self@.len() < usize::MAX,
        ensures
            r.wf(),
            r.data() == self@,
            r.width() == width,
            r.min_len() == step,
            r.position() == 0,
            !r.exhausted(),
    ;
}

impl IterScrings for Vec<u8> {
    fn iter_scrings<P: Detector>(self, step: usize, width: Width, language: P) -> (r: LanguageIterator<P>) {
        LanguageIterator::new(self, step, width, language)
    }
}

} // verus!
