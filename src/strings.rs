//! Printable-run scanner: finds runs of printable code units in a byte buffer.
use vstd::prelude::*;

verus! {

/// A 16-bit little-endian code unit.
pub type Utf16le = u16;

/// Width of a code unit: one byte, or two bytes read little-endian.
#[derive(Clone, Copy, Debug, PartialEq, Eq, Structural)]
pub enum Width {
    Narrow,
    Wide,
}

impl Width {
    pub open spec fn spec_size(self) -> nat {
        match self {
            Width::Narrow => 1,
            Width::Wide => 2,
        }
    }

    pub fn size(self) -> (r: usize)
        ensures
            r == self.spec_size(),
    {
        match self {
            Width::Narrow => 1,
            Width::Wide => 2,
        }
    }
}

/// Carriage return, line feed, or a character from space to tilde.
pub open spec fn printable(c: int) -> bool {
    c == 0xd || c == 0xa || (0x20 <= c && c <= 0x7e)
}

pub fn is_printable(c: u64) -> (r: bool)
    ensures
        r == printable(c as int),
{
    c == 0xd || c == 0xa || (c >= 0x20 && c <= 0x7e)
}

/// The byte at `i`, or zero past either end of the buffer.
pub open spec fn byte_at(data: Seq<u8>, i: int) -> int {
    if 0 <= i < data.len() {
        data[i] as int
    } else {
        0
    }
}

/// The code unit that starts at byte offset `i`.
pub open spec fn unit_at(data: Seq<u8>, w: Width, i: int) -> int {
    match w {
        Width::Narrow => byte_at(data, i),
        Width::Wide => byte_at(data, i) + 256 * byte_at(data, i + 1),
    }
}

/// Number of consecutive printable code units starting at byte offset `p`.
pub open spec fn run_len(data: Seq<u8>, w: Width, p: int) -> nat
    decreases data.len() + 2 - p,
{
    if p < data.len() && printable(unit_at(data, w, p)) {
        1 + run_len(data, w, p + w.spec_size())
    } else {
        0
    }
}

/// Number of consecutive printable code units that end just before byte
/// offset `f`, looking back over at most `k` units.
pub open spec fn back_len(data: Seq<u8>, w: Width, f: int, k: nat) -> nat
    decreases k,
{
    if k > 0 && printable(unit_at(data, w, f - w.spec_size())) {
        1 + back_len(data, w, f - w.spec_size(), (k - 1) as nat)
    } else {
        0
    }
}

/// Probe for a printable unit at the `w` byte offsets from `c`, each read
/// needing a whole unit in the buffer: `None` when a read runs out of data,
/// `Some(None)` when no offset holds a printable unit.
pub open spec fn probe(data: Seq<u8>, w: Width, c: int) -> Option<Option<int>> {
    let n = w.spec_size();
    if c + n > data.len() {
        None
    } else if printable(unit_at(data, w, c)) {
        Some(Some(c))
    } else if n == 1 {
        Some(None)
    } else if c + 1 + n > data.len() {
        None
    } else if printable(unit_at(data, w, c + 1)) {
        Some(Some(c + 1))
    } else {
        Some(None)
    }
}

/// The next candidate found from cursor `c`, as its start offset and its
/// length in code units. Each round skips `step` units, probes, recovers the
/// true start of the run by looking back over `step` units, then either
/// reports the run (longer than `step`) or goes on from its end. (The bounds
/// on the resumed cursor always hold; they make the recursion well-founded.)
pub open spec fn scan(data: Seq<u8>, w: Width, step: nat, c: int) -> Option<(int, nat)>
    decreases data.len() + 2 - c,
{
    let n = w.spec_size();
    let c1 = c + step * n;
    match probe(data, w, c1) {
        None => None,
        Some(None) => if c < data.len() {
            scan(data, w, step, c1 + n)
        } else {
            None
        },
        Some(Some(f)) => {
            let pos = f - n * back_len(data, w, f, step);
            let r = run_len(data, w, pos);
            if r > step {
                Some((pos, r))
            } else if c < pos + r * n <= data.len() + 1 {
                scan(data, w, step, pos + r * n)
            } else {
                None
            }
        },
    }
}

/// Whether the text holds, character by character, the code units of the
/// run of `len` units at byte offset `pos`.
pub open spec fn decodes_run(data: Seq<u8>, w: Width, pos: int, len: nat, text: Seq<char>) -> bool {
    &&& text.len() == len
    &&& forall|j: int| 0 <= j < len ==> text[j] as int == unit_at(data, w, pos + j * w.spec_size())
}

/// No printable run anywhere in the buffer is longer than `step` units.
pub open spec fn no_run_longer(data: Seq<u8>, w: Width, step: nat) -> bool {
    forall|p: int| 0 <= p <= data.len() ==> #[trigger] run_len(data, w, p) <= step
}

fn unit(data: &Vec<u8>, w: Width, i: usize) -> (r: u64)
    ensures
        r as int == unit_at(data@, w, i as int),
{
    let lo: u64 = if i < data.len() {
        data[i] as u64
    } else {
        0
    };
    match w {
        Width::Narrow => lo,
        Width::Wide => {
            let hi: u64 = if i < data.len() && i + 1 < data.len() {
                data[i + 1] as u64
            } else {
                0
            };
            lo + 256 * hi
        },
    }
}

pub open spec fn ascii_bytes(units: Seq<u8>) -> bool {
    forall|i: int| 0 <= i < units.len() ==> units[i] < 0x80
}

pub open spec fn ascii_units(units: Seq<u16>) -> bool {
    forall|i: int| 0 <= i < units.len() ==> units[i] < 0x80
}

/// Relies on String::from_utf8: bytes below 0x80 are ASCII, which is valid
/// UTF-8, one character per byte.
#[verifier::external_body]
fn utf8_string(units: Vec<u8>) -> (r: Option<String>)
    ensures
        ascii_bytes(units@) ==> r is Some && r->0@.len() == units@.len() && (forall|i: int|
            0 <= i < units@.len() ==> #[trigger] r->0@[i] as int == units@[i] as int),
{
    String::from_utf8(units).ok()
}

/// Relies on char::decode_utf16: units below 0x80 are not surrogates and
/// decode to one character each, of the same value.
#[verifier::external_body]
fn utf16_string(units: Vec<u16>) -> (r: Option<String>)
    ensures
        ascii_units(units@) ==> r is Some && r->0@.len() == units@.len() && (forall|i: int|
            0 <= i < units@.len() ==> #[trigger] r->0@[i] as int == units@[i] as int),
{
    std::char::decode_utf16(units).collect::<Result<String, _>>().ok()
}

proof fn lemma_run_len_bounded(data: Seq<u8>, w: Width, p: int)
    requires
        p <= data.len() + 1,
    ensures
        p + run_len(data, w, p) * w.spec_size() <= data.len() + 1,
        run_len(data, w, p) > 0 ==> p < data.len(),
    decreases data.len() + 2 - p,
{
    assert(w.spec_size() >= 1);
    if p < data.len() && printable(unit_at(data, w, p)) {
        lemma_run_len_bounded(data, w, p + w.spec_size());
        let r = run_len(data, w, p + w.spec_size());
        assert((p + w.spec_size()) + r * w.spec_size() <= data.len() + 1);
        assert(p + (1 + r) * w.spec_size() == (p + w.spec_size()) + r * w.spec_size())
            by (nonlinear_arith);
    }
}

/// Looking back from a printable unit extends the run forward from there.
proof fn lemma_back_extends_run(data: Seq<u8>, w: Width, f: int, k: nat)
    requires
        0 <= f - k * w.spec_size(),
        f < data.len(),
        printable(unit_at(data, w, f)),
    ensures
        run_len(data, w, f - w.spec_size() * back_len(data, w, f, k)) == back_len(data, w, f, k)
            + run_len(data, w, f),
    decreases k,
{
    let n = w.spec_size();
    if k > 0 && printable(unit_at(data, w, f - n)) {
        let g = f - n;
        assert(0 <= g - (k - 1) * n) by (nonlinear_arith)
            requires
                0 <= f - k * n,
                g == f - n,
                k > 0,
        ;
        assert(0 <= g) by (nonlinear_arith)
            requires
                0 <= f - k * n,
                g == f - n,
                k > 0,
                n > 0,
        ;
        lemma_back_extends_run(data, w, g, (k - 1) as nat);
        let b = back_len(data, w, g, (k - 1) as nat);
        assert(run_len(data, w, g) == 1 + run_len(data, w, f));
        assert(f - n * (1 + b) == g - n * b) by (nonlinear_arith)
            requires
                g == f - n,
        ;
    }
}

/// Decodes the run of printable units at `pos`: its length in units and its text.
fn decode_run(data: &Vec<u8>, w: Width, pos: usize) -> (r: Option<(usize, String)>)
    requires
        data.len() < usize::MAX,
        pos <= data.len() + 1,
    ensures
        match r {
            None => false,
            Some((len, text)) => len == run_len(data@, w, pos as int) && decodes_run(
                data@,
                w,
                pos as int,
                len as nat,
                text@,
            ),
        },
{
    let n = w.size();
    let mut i: usize = pos;
    let mut len: usize = 0;
    let mut narrow: Vec<u8> = Vec::new();
    let mut wide: Vec<u16> = Vec::new();
    proof {
        lemma_run_len_bounded(data@, w, pos as int);
    }
    while i < data.len() && is_printable(unit(data, w, i))
        invariant
            data.len() < usize::MAX,
            n == w.spec_size(),
            i == pos + len * n,
            pos <= i <= data.len() + 1,
            run_len(data@, w, pos as int) == len + run_len(data@, w, i as int),
            w == Width::Narrow ==> narrow@.len() == len,
            w == Width::Wide ==> wide@.len() == len,
            forall|j: int|
                0 <= j < len ==> (w == Width::Narrow ==> narrow@[j] as int == unit_at(
                    data@,
                    w,
                    pos + j * n,
                )) && (w == Width::Wide ==> wide@[j] as int == unit_at(data@, w, pos + j * n)),
            forall|j: int| 0 <= j < narrow@.len() ==> narrow@[j] < 0x80,
            forall|j: int| 0 <= j < wide@.len() ==> wide@[j] < 0x80,
        decreases data.len() + 1 - i,
    {
        let u = unit(data, w, i);
        match w {
            Width::Narrow => narrow.push(u as u8),
            Width::Wide => wide.push(u as u16),
        }
        assert(i + n == pos + (len + 1) * n) by (nonlinear_arith)
            requires
                i == pos + len * n,
        ;
        i = i + n;
        len = len + 1;
    }
    assert(w == Width::Narrow ==> ascii_bytes(narrow@));
    assert(w == Width::Wide ==> ascii_units(wide@));
    let text = match w {
        Width::Narrow => utf8_string(narrow),
        Width::Wide => utf16_string(wide),
    };
    match text {
        None => None,
        Some(t) => Some((len, t)),
    }
}

/// Finds the next candidate from byte offset `cursor`: its start offset, the
/// offset just past it, and its text.
pub fn next_strings(data: &Vec<u8>, w: Width, step: usize, cursor: usize) -> (r: Option<
    (usize, usize, String),
>)
    requires
        data.len() < usize::MAX,
    ensures
        match r {
            None => scan(data@, w, step as nat, cursor as int) is None,
            Some((pos, next, text)) => {
                &&& scan(data@, w, step as nat, cursor as int) == Some(
                    (pos as int, text@.len()),
                )
                &&& next == pos + text@.len() * w.spec_size()
                &&& decodes_run(data@, w, pos as int, text@.len(), text@)
            },
        },
{
    let n = w.size();
    let len = data.len();
    let mut c: usize = cursor;
    loop
        invariant
            len == data.len() < usize::MAX,
            n == w.spec_size(),
            scan(data@, w, step as nat, c as int) == scan(data@, w, step as nat, cursor as int),
        decreases data.len() + 2 - c,
    {
        let inc = match step.checked_mul(n) {
            Some(x) => x,
            None => return None,
        };
        let c1 = match c.checked_add(inc) {
            Some(x) => x,
            None => return None,
        };
        if c1 >= len || len - c1 < n {
            return None;
        }
        let f: usize;
        if is_printable(unit(data, w, c1)) {
            f = c1;
        } else if n == 1 {
            c = c1 + 1;
            continue;
        } else if len - c1 < 3 {
            return None;
        } else if is_printable(unit(data, w, c1 + 1)) {
            f = c1 + 1;
        } else {
            c = c1 + 2;
            continue;
        }
        // look back over at most `step` units for the true start of the run
        let mut k: usize = 0;
        let mut pos: usize = f;
        let mut more = true;
        while more && k < step
            invariant
                more ==> k < step || back_len(data@, w, pos as int, (step - k) as nat) == 0,
                !more ==> back_len(data@, w, pos as int, (step - k) as nat) == 0,
                n == w.spec_size(),
                c1 == c + step * n,
                c1 <= f < len,
                k <= step,
                pos == f - k * n,
                back_len(data@, w, f as int, step as nat) == k + back_len(
                    data@,
                    w,
                    pos as int,
                    (step - k) as nat,
                ),
            decreases step - k + (if more { 1int } else { 0int }),
        {
            assert(pos - n >= 0) by (nonlinear_arith)
                requires
                    pos == f - k * n,
                    k < step,
                    f >= c + step * n,
                    c >= 0,
                    n > 0,
            ;
            if is_printable(unit(data, w, pos - n)) {
                assert(pos - n == f - (k + 1) * n) by (nonlinear_arith)
                    requires
                        pos == f - k * n,
                ;
                pos = pos - n;
                k = k + 1;
            } else {
                more = false;
            }
        }
        proof {
            assert(f - k * n >= 0) by (nonlinear_arith)
                requires
                    k <= step,
                    f >= c + step * n,
                    c >= 0,
            ;
            assert(0 <= f - step * n) by (nonlinear_arith)
                requires
                    f >= c + step * n,
                    c >= 0,
            ;
            lemma_back_extends_run(data@, w, f as int, step as nat);
            assert(n * k == k * n) by (nonlinear_arith);
            lemma_run_len_bounded(data@, w, pos as int);
        }
        let (run, text) = match decode_run(data, w, pos) {
            Some(x) => x,
            None => return None,
        };
        let next = pos + run * n;
        proof {
            assert(next > c) by (nonlinear_arith)
                requires
                    next == pos + run * n,
                    run >= k + 1,
                    pos == f - k * n,
                    f >= c,
                    n > 0,
            ;
        }
        if run > step {
            return Some((pos, next, text));
        }
        c = next;
    }
}

/// What a candidate reported by `scan` is: a whole run longer than `step`,
/// inside the buffer.
proof fn lemma_scan_reports_long_run(data: Seq<u8>, w: Width, step: nat, c: int)
    requires
        0 <= c,
    ensures
        scan(data, w, step, c) matches Some((p, r)) ==> c <= p <= data.len() && r == run_len(
            data,
            w,
            p,
        ) && r > step && p + r * w.spec_size() <= data.len() + 1,
    decreases data.len() + 2 - c,
{
    let n = w.spec_size();
    let c1 = c + step * n;
    assert(c1 >= c) by (nonlinear_arith)
        requires
            c1 == c + step * n,
    ;
    match probe(data, w, c1) {
        None => {},
        Some(None) => {
            if c < data.len() {
                lemma_scan_reports_long_run(data, w, step, c1 + n);
            }
        },
        Some(Some(f)) => {
            let b = back_len(data, w, f, step);
            lemma_back_len_bounded(data, w, f, step);
            let pos = f - n * b;
            assert(pos >= c) by (nonlinear_arith)
                requires
                    pos == f - n * b,
                    b <= step,
                    f >= c1,
                    c1 == c + step * n,
            ;
            let r = run_len(data, w, pos);
            lemma_run_len_bounded(data, w, pos);
            if r <= step && c < pos + r * n <= data.len() + 1 {
                lemma_scan_reports_long_run(data, w, step, pos + r * n);
            }
        },
    }
}

proof fn lemma_back_len_bounded(data: Seq<u8>, w: Width, f: int, k: nat)
    ensures
        back_len(data, w, f, k) <= k,
    decreases k,
{
    if k > 0 && printable(unit_at(data, w, f - w.spec_size())) {
        lemma_back_len_bounded(data, w, f - w.spec_size(), (k - 1) as nat);
    }
}

/// A buffer in which no printable run is longer than `step` units yields no
/// candidate, from any cursor.
pub proof fn lemma_quiet_buffer_yields_nothing(data: Seq<u8>, w: Width, step: nat, c: int)
    requires
        0 <= c,
        no_run_longer(data, w, step),
    ensures
        scan(data, w, step, c) is None,
{
    lemma_scan_reports_long_run(data, w, step, c);
    if let Some((p, r)) = scan(data, w, step, c) {
        assert(run_len(data, w, p) <= step);
    }
}

/// Every candidate is longer than `step` code units.
pub proof fn lemma_candidate_longer_than_step(data: Seq<u8>, w: Width, step: nat, c: int)
    requires
        0 <= c,
    ensures
        scan(data, w, step, c) matches Some((p, r)) ==> r > step,
{
    lemma_scan_reports_long_run(data, w, step, c);
}

proof fn lemma_narrow_run_printable(data: Seq<u8>, p: int, i: int)
    requires
        0 <= i < run_len(data, Width::Narrow, p),
    ensures
        p + i < data.len(),
        printable(byte_at(data, p + i)),
    decreases i,
{
    if i > 0 {
        lemma_narrow_run_printable(data, p + 1, i - 1);
    }
}

proof fn lemma_narrow_back_len(data: Seq<u8>, k: int, f: int, m: nat)
    requires
        k <= f,
        m >= f - k,
        forall|i: int| k <= i < f ==> printable(byte_at(data, i)),
        m > f - k ==> !printable(byte_at(data, k - 1)),
    ensures
        back_len(data, Width::Narrow, f, m) == f - k,
    decreases m,
{
    if f > k {
        assert(printable(byte_at(data, f - 1)));
        lemma_narrow_back_len(data, k, f - 1, (m - 1) as nat);
    }
}

/// A narrow run longer than `step` that starts at offset `k`, with nothing
/// printable between the cursor and `k`, is reported from exactly `k`,
/// whatever the alignment of `k` to the step.
pub proof fn lemma_run_start_recovered(data: Seq<u8>, step: nat, c: int, k: int)
    requires
        0 <= c <= k,
        run_len(data, Width::Narrow, k) > step,
        forall|i: int| c <= i < k ==> !printable(byte_at(data, i)),
    ensures
        scan(data, Width::Narrow, step, c) == Some((k, run_len(data, Width::Narrow, k))),
    decreases k - c,
{
    let w = Width::Narrow;
    let len = run_len(data, w, k);
    let c1 = c + step;
    assert(c1 * 1 == c1);
    if c1 < k {
        assert(!printable(byte_at(data, c1)));
        lemma_narrow_run_printable(data, k, 0);
        assert(c < data.len());
        lemma_run_start_recovered(data, step, c1 + 1, k);
    } else {
        lemma_narrow_run_printable(data, k, c1 - k);
        assert(probe(data, w, c1) == Some(Some(c1)));
        assert forall|i: int| k <= i < c1 implies printable(byte_at(data, i)) by {
            lemma_narrow_run_printable(data, k, i - k);
        }
        if k > c {
            assert(!printable(byte_at(data, k - 1)));
        }
        lemma_narrow_back_len(data, k, c1, step);
        assert(back_len(data, w, c1, step) == c1 - k);
    }
}

proof fn lemma_run_printable(data: Seq<u8>, w: Width, p: int, j: int)
    requires
        0 <= j < run_len(data, w, p),
    ensures
        printable(unit_at(data, w, p + j * w.spec_size())),
    decreases j,
{
    let n = w.spec_size();
    if j > 0 {
        lemma_run_printable(data, w, p + n, j - 1);
        assert((p + n) + (j - 1) * n == p + j * n) by (nonlinear_arith);
    }
}

/// The text of a run is ASCII.
proof fn lemma_run_text_ascii(data: Seq<u8>, w: Width, p: int, text: Seq<char>)
    requires
        text.len() == run_len(data, w, p),
        decodes_run(data, w, p, text.len(), text),
    ensures
        vstd::utf8::is_ascii_chars(text),
{
    assert forall|j: int| 0 <= j < text.len() implies '\0' <= #[trigger] text[j] <= '\u{7f}' by {
        lemma_run_printable(data, w, p, j);
    }
}

/// Iterates over the candidates of a byte buffer: runs of more than `step`
/// printable code units, each with its start offset and its text.
pub struct StringsIterator {
    buffer: Vec<u8>,
    step: usize,
    width: Width,
    cursor: usize,
    done: bool,
}

impl StringsIterator {
    pub closed spec fn data(&self) -> Seq<u8> {
        self.buffer@
    }

    pub closed spec fn min_len(&self) -> nat {
        self.step as nat
    }

    pub closed spec fn width(&self) -> Width {
        self.width
    }

    /// Byte offset from which the next candidate is looked for.
    pub closed spec fn position(&self) -> int {
        self.cursor as int
    }

    /// Whether the sequence has ended.
    pub closed spec fn finished(&self) -> bool {
        self.done
    }

    pub closed spec fn wf(&self) -> bool {
        self.buffer@.len() < usize::MAX
    }

    pub fn new(buffer: Vec<u8>, step: usize, width: Width) -> (r: Self)
        requires
            buffer@.len() < usize::MAX,
        ensures
            r.wf(),
            r.data() == buffer@,
            r.min_len() == step,
            r.width() == width,
            r.position() == 0,
            !r.finished(),
    {
        StringsIterator { buffer, step, width, cursor: 0, done: false }
    }

    /// The next candidate: its start offset and its text. Once it returns
    /// `None` the sequence has ended for good.
    pub fn next(&mut self) -> (r: Option<(u64, String)>)
        requires
            old(self).wf(),
        ensures
            final(self).wf(),
            final(self).data() == old(self).data(),
            final(self).min_len() == old(self).min_len(),
            final(self).width() == old(self).width(),
            match r {
                None => final(self).finished() && final(self).position() == old(self).position() && (old(self).finished() || scan(
                    old(self).data(),
                    old(self).width(),
                    old(self).min_len(),
                    old(self).position(),
                ) is None),
                Some((off, text)) => {
                    &&& !old(self).finished()
                    &&& !final(self).finished()
                    &&& scan(
                        old(self).data(),
                        old(self).width(),
                        old(self).min_len(),
                        old(self).position(),
                    ) == Some((off as int, text@.len()))
                    &&& text@.len() > old(self).min_len()
                    &&& text@.len() == run_len(old(self).data(), old(self).width(), off as int)
                    &&& vstd::utf8::is_ascii_chars(text@)
                    &&& decodes_run(old(self).data(), old(self).width(), off as int, text@.len(), text@)
                    &&& final(self).position() == off + text@.len() * old(self).width().spec_size()
                    &&& old(self).position() < final(self).position() <= old(self).data().len() + 1
                    &&& old(self).position() <= off
                },
            },
    {
        if self.done {
            return None;
        }
        proof {
            lemma_scan_reports_long_run(self.buffer@, self.width, self.step as nat, self.cursor as int);
        }
        match next_strings(&self.buffer, self.width, self.step, self.cursor) {
            None => {
                self.done = true;
                None
            },
            Some((pos, next, text)) => {
                assert(text@.len() * self.width.spec_size() >= 1) by (nonlinear_arith)
                    requires
                        text@.len() >= 1,
                        self.width.spec_size() >= 1,
                ;
                self.cursor = next;
                proof {
                    lemma_run_text_ascii(self.buffer@, self.width, pos as int, text@);
                }
                Some((pos as u64, text))
            },
        }
    }
}

/// Scans a byte buffer for runs of printable 16-bit little-endian units.
pub trait IterUtf16leStrings: Sized + View<V = Seq<u8>> {
    fn iter_utf16le_strings(self, step: usize) -> (r: StringsIterator)
        requires
            self@.len() < usize::MAX,
        ensures
            r.wf(),
            r.data() == self@,
            r.min_len() == step,
            r.width() == Width::Wide,
            r.position() == 0,
            !r.finished(),
    ;
}

impl IterUtf16leStrings for Vec<u8> {
    fn iter_utf16le_strings(self, step: usize) -> (r: StringsIterator) {
        StringsIterator::new(self, step, Width::Wide)
    }
}

/// Scans a byte buffer for runs of printable bytes.
pub trait IterStrings: Sized + View<V = Seq<u8>> {
    fn iter_strings(self, step: usize) -> (r: StringsIterator)
        requires
            self@.len() < usize::MAX,
        ensures
            r.wf(),
            r.data() == self@,
            r.min_len() == step,
            r.width() == Width::Narrow,
            r.position() == 0,
            !r.finished(),
    ;
}

impl IterStrings for Vec<u8> {
    fn iter_strings(self, step: usize) -> (r: StringsIterator) {
        StringsIterator::new(self, step, Width::Narrow)
    }
}

} // verus!
