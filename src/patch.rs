//! The patch header grammar and the patch value built from a file's bytes.
use vstd::prelude::*;
use vstd::slice::slice_subrange;
use vstd::slice::slice_to_vec;
use vstd::utf8::decode_utf8;
use vstd::utf8::valid_utf8;

verus! {

pub const NEWLINE: u8 = 10;

/// `From `
pub open spec fn from_prefix() -> Seq<u8> {
    seq![70u8, 114u8, 111u8, 109u8, 32u8]
}

/// `From: `
pub open spec fn author_prefix() -> Seq<u8> {
    seq![70u8, 114u8, 111u8, 109u8, 58u8, 32u8]
}

/// `Date: `
pub open spec fn date_prefix() -> Seq<u8> {
    seq![68u8, 97u8, 116u8, 101u8, 58u8, 32u8]
}

/// `Subject: `
pub open spec fn subject_prefix() -> Seq<u8> {
    seq![83u8, 117u8, 98u8, 106u8, 101u8, 99u8, 116u8, 58u8, 32u8]
}

/// `Signed-off-by: `
pub open spec fn signature_prefix() -> Seq<u8> {
    seq![
        83u8, 105u8, 103u8, 110u8, 101u8, 100u8, 45u8, 111u8, 102u8, 102u8, 45u8, 98u8, 121u8,
        58u8, 32u8,
    ]
}

/// The line `---` with its newline: where a header without a sign-off ends.
pub open spec fn closing_line() -> Seq<u8> {
    seq![45u8, 45u8, 45u8, 10u8]
}

/// The line `---` with the newlines around it, which closes the header block.
pub open spec fn delimiter() -> Seq<u8> {
    seq![10u8, 45u8, 45u8, 45u8, 10u8]
}

/// Index of the first newline at or after `i`, or the length of `s` if none follows.
pub open spec fn next_newline(s: Seq<u8>, i: int) -> int
    decreases s.len() - i,
{
    if i < 0 || i >= s.len() {
        s.len() as int
    } else if s[i] == NEWLINE {
        i
    } else {
        next_newline(s, i + 1)
    }
}

/// `pat` occurs in `s` starting at index `i`.
pub open spec fn occurs_at(s: Seq<u8>, i: int, pat: Seq<u8>) -> bool {
    0 <= i && i + pat.len() <= s.len() && s.subrange(i, i + pat.len()) == pat
}

/// First index at or after `i` where `pat` occurs, or the length of `s`.
pub open spec fn first_occurrence(s: Seq<u8>, pat: Seq<u8>, i: int) -> int
    decreases s.len() - i,
{
    if i < 0 || i >= s.len() {
        s.len() as int
    } else if occurs_at(s, i, pat) {
        i
    } else {
        first_occurrence(s, pat, i + 1)
    }
}

/// Last index at or before `j` where `pat` occurs, or -1.
pub open spec fn last_occurrence(s: Seq<u8>, pat: Seq<u8>, j: int) -> int
    decreases j + 1,
{
    if j < 0 {
        -1
    } else if occurs_at(s, j, pat) {
        j
    } else {
        last_occurrence(s, pat, j - 1)
    }
}

/// The header block of a patch file: from the first `From ` up to and including
/// the last `---` line that follows it.
pub open spec fn header_block(t: Seq<u8>) -> Option<(int, int)> {
    let a = first_occurrence(t, from_prefix(), 0);
    let p = last_occurrence(t, delimiter(), t.len() - delimiter().len());
    if a < t.len() && p >= a + from_prefix().len() {
        Some((a, p + delimiter().len()))
    } else {
        None
    }
}

/// The line starting at `i` begins with `prefix`, has at least one more byte,
/// and is ended by a newline.
pub open spec fn field_line(s: Seq<u8>, i: int, prefix: Seq<u8>) -> bool {
    let e = next_newline(s, i);
    e < s.len() && e - i > prefix.len() && occurs_at(s, i, prefix)
}

/// The part of the header after the subject's blank line: any number of
/// one-line paragraphs, each followed by a blank line, then the sign-off line
/// or, where there is none, the `---` line. As many paragraphs as possible are
/// taken; the summary is the last of them, with its two newlines. The result
/// is the summary span, if any, and the sign-off line's span without its
/// newline, if any.
pub open spec fn trailer_layout(s: Seq<u8>, p: int) -> Option<
    (Option<(int, int)>, Option<(int, int)>),
>
    decreases s.len() - p,
{
    if p < 0 || p >= s.len() {
        None
    } else {
        let e = next_newline(s, p);
        let more = if p < e && e + 1 < s.len() && s[e + 1] == NEWLINE {
            trailer_layout(s, e + 2)
        } else {
            None
        };
        match more {
            Some((summary, sig)) => Some(
                (if summary is Some { summary } else { Some((p, e + 2)) }, sig),
            ),
            None => if field_line(s, p, signature_prefix()) {
                Some((None, Some((p, e))))
            } else if occurs_at(s, p, closing_line()) {
                Some((None, None))
            } else {
                None
            },
        }
    }
}

/// Where the fields of a header lie in `s`: the ends of its first four lines,
/// the summary span and the sign-off span, each if any. `None` if `s` does not follow the
/// header grammar.
pub type Layout = (int, int, int, int, Option<(int, int)>, Option<(int, int)>);

pub open spec fn header_layout(s: Seq<u8>) -> Option<Layout> {
    let e1 = next_newline(s, 0);
    let e2 = next_newline(s, e1 + 1);
    let e3 = next_newline(s, e2 + 1);
    let e4 = next_newline(s, e3 + 1);
    if field_line(s, 0, from_prefix()) && field_line(s, e1 + 1, author_prefix()) && field_line(
        s,
        e2 + 1,
        date_prefix(),
    ) && field_line(s, e3 + 1, subject_prefix()) && e4 + 1 < s.len() && s[e4 + 1] == NEWLINE {
        match trailer_layout(s, e4 + 2) {
            Some((summary, sig)) => Some((e1, e2, e3, e4, summary, sig)),
            None => None,
        }
    } else {
        None
    }
}

/// `s1` and `s2` agree before `n`, and a newline ends that common part.
pub open spec fn agree_before(s1: Seq<u8>, s2: Seq<u8>, n: int) -> bool {
    &&& 0 < n <= s1.len()
    &&& n <= s2.len()
    &&& s1[n - 1] == NEWLINE
    &&& forall|k: int| 0 <= k < n ==> s1[k] == s2[k]
}

proof fn lemma_newline_agrees(s1: Seq<u8>, s2: Seq<u8>, n: int, p: int)
    requires
        agree_before(s1, s2, n),
        0 <= p < n,
    ensures
        next_newline(s1, p) == next_newline(s2, p),
        p <= next_newline(s1, p) < n,
    decreases n - p,
{
    if s1[p] != NEWLINE {
        lemma_newline_agrees(s1, s2, n, p + 1);
    }
}

proof fn lemma_occurs_agrees(s1: Seq<u8>, s2: Seq<u8>, n: int, p: int, pat: Seq<u8>)
    requires
        agree_before(s1, s2, n),
        0 <= p,
        p + pat.len() <= n,
    ensures
        occurs_at(s1, p, pat) == occurs_at(s2, p, pat),
{
    assert(s1.subrange(p, p + pat.len()) =~= s2.subrange(p, p + pat.len()));
}

proof fn lemma_field_line_agrees(s1: Seq<u8>, s2: Seq<u8>, n: int, p: int, prefix: Seq<u8>)
    requires
        agree_before(s1, s2, n),
        0 <= p < n,
    ensures
        field_line(s1, p, prefix) == field_line(s2, p, prefix),
{
    lemma_newline_agrees(s1, s2, n, p);
    let e = next_newline(s1, p);
    if e - p > prefix.len() {
        lemma_occurs_agrees(s1, s2, n, p, prefix);
    }
}

proof fn lemma_closing_agrees(s1: Seq<u8>, s2: Seq<u8>, n: int, p: int)
    requires
        agree_before(s1, s2, n),
        0 <= p < n,
    ensures
        occurs_at(s1, p, closing_line()) == occurs_at(s2, p, closing_line()),
{
    if p + 4 <= n {
        lemma_occurs_agrees(s1, s2, n, p, closing_line());
    } else {
        let k = n - 1 - p;
        if occurs_at(s1, p, closing_line()) {
            assert(s1.subrange(p, p + 4)[k] == s1[n - 1]);
        }
        if occurs_at(s2, p, closing_line()) {
            assert(s2.subrange(p, p + 4)[k] == s2[n - 1]);
        }
    }
}

proof fn lemma_newline_at(s: Seq<u8>, i: int, j: int)
    requires
        0 <= i <= j < s.len(),
        s[j] == NEWLINE,
        forall|k: int| i <= k < j ==> s[k] != NEWLINE,
    ensures
        next_newline(s, i) == j,
    decreases j - i,
{
    if i < j {
        lemma_newline_at(s, i + 1, j);
    }
}

/// A header text ending in a sign-off line, then the `---` line.
pub open spec fn with_signature(pre: Seq<u8>, name: Seq<u8>) -> Seq<u8> {
    pre + signature_prefix() + name + seq![NEWLINE] + closing_line()
}

/// The same header text with the sign-off line left out.
pub open spec fn without_signature(pre: Seq<u8>) -> Seq<u8> {
    pre + closing_line()
}

pub open spec fn span_within(m: Option<(int, int)>, n: int) -> bool {
    match m {
        Some((a, b)) => 0 <= a <= b <= n,
        None => true,
    }
}

/// The two trailers agree but for the sign-off line `sig`, which only the
/// first has.
pub open spec fn trailers_related(
    t1: Option<(Option<(int, int)>, Option<(int, int)>)>,
    t2: Option<(Option<(int, int)>, Option<(int, int)>)>,
    sig: (int, int),
    n: int,
) -> bool {
    match (t1, t2) {
        (None, None) => true,
        (Some((m1, g1)), Some((m2, g2))) => {
            &&& m1 == m2
            &&& span_within(m1, n)
            &&& (g1 == g2 && match g1 {
                Some((a, b)) => a < n,
                None => true,
            }) || (g1 == Some(sig) && g2 is None)
        },
        _ => false,
    }
}

proof fn lemma_trailers_related(pre: Seq<u8>, name: Seq<u8>, p: int)
    requires
        pre.len() > 0,
        pre.last() == NEWLINE,
        name.len() >= 1,
        forall|k: int| 0 <= k < name.len() ==> name[k] != NEWLINE,
        0 <= p <= pre.len(),
    ensures
        trailers_related(
            trailer_layout(with_signature(pre, name), p),
            trailer_layout(without_signature(pre), p),
            (pre.len() as int, (pre.len() + signature_prefix().len() + name.len()) as int),
            pre.len() as int,
        ),
    decreases pre.len() - p,
{
    let s1 = with_signature(pre, name);
    let s2 = without_signature(pre);
    let n = pre.len() as int;
    let l = signature_prefix().len() + name.len();
    assert forall|k: int| 0 <= k < n implies s1[k] == pre[k] && s2[k] == pre[k] by {}
    assert(agree_before(s1, s2, n));
    if p == n {
        assert forall|k: int| n <= k < n + l implies s1[k] != NEWLINE by {
            if k < n + signature_prefix().len() {
                assert(s1[k] == signature_prefix()[k - n]);
            } else {
                assert(s1[k] == name[k - n - signature_prefix().len()]);
            }
        }
        assert(s1[n + l] == NEWLINE);
        lemma_newline_at(s1, n, n + l);
        assert(s1[n + l + 1] == 45u8);
        assert(s1.subrange(n, n + signature_prefix().len()) =~= signature_prefix());
        assert(field_line(s1, n, signature_prefix()));
        assert(s2[n] == 45u8 && s2[n + 1] == 45u8 && s2[n + 2] == 45u8 && s2[n + 3] == NEWLINE);
        lemma_newline_at(s2, n, n + 3);
        assert(s2.subrange(n, n + 4) =~= closing_line());
    } else {
        lemma_newline_agrees(s1, s2, n, p);
        let e = next_newline(s1, p);
        assert(s1[n] == 83u8);
        assert(s2[n] == 45u8);
        if p < e && e + 1 < s1.len() && s1[e + 1] == NEWLINE {
            assert(e + 1 < n);
            lemma_trailers_related(pre, name, e + 2);
        }
        lemma_field_line_agrees(s1, s2, n, p, signature_prefix());
        lemma_closing_agrees(s1, s2, n, p);
    }
}

/// A sign-off line is optional: leaving out the sign-off line that stands just
/// before the closing `---` line keeps every other field and leaves the header
/// with no signature.
pub proof fn lemma_signature_optional(pre: Seq<u8>, name: Seq<u8>)
    requires
        pre.len() > 0,
        pre.last() == NEWLINE,
        name.len() >= 1,
        forall|k: int| 0 <= k < name.len() ==> name[k] != NEWLINE,
        header_layout(with_signature(pre, name)) is Some,
        header_layout(with_signature(pre, name))->Some_0.3 + 2 <= pre.len(),
        header_layout(with_signature(pre, name))->Some_0.5 == Some(
            (pre.len() as int, (pre.len() + signature_prefix().len() + name.len()) as int),
        ),
    ensures
        ({
            let s1 = with_signature(pre, name);
            let s2 = without_signature(pre);
            let l1 = header_layout(s1)->Some_0;
            let l2 = header_layout(s2)->Some_0;
            &&& header_layout(s2) is Some
            &&& l2.5 is None
            &&& span_text(s2, 0, l2.0) == span_text(s1, 0, l1.0)
            &&& span_text(s2, l2.0 + 1, l2.1) == span_text(s1, l1.0 + 1, l1.1)
            &&& span_text(s2, l2.1 + 1, l2.2) == span_text(s1, l1.1 + 1, l1.2)
            &&& span_text(s2, l2.2 + 1, l2.3) == span_text(s1, l1.2 + 1, l1.3)
            &&& l2.4 == l1.4
            &&& match l1.4 {
                Some((a, b)) => span_text(s2, a, b) == span_text(s1, a, b),
                None => true,
            }
        }),
{
    let s1 = with_signature(pre, name);
    let s2 = without_signature(pre);
    let n = pre.len() as int;
    assert forall|k: int| 0 <= k < n implies s1[k] == pre[k] && s2[k] == pre[k] by {}
    assert(agree_before(s1, s2, n));
    let e1 = next_newline(s1, 0);
    let e2 = next_newline(s1, e1 + 1);
    let e3 = next_newline(s1, e2 + 1);
    let e4 = next_newline(s1, e3 + 1);
    lemma_newline_agrees(s1, s2, n, 0);
    lemma_field_line_agrees(s1, s2, n, 0, from_prefix());
    lemma_newline_agrees(s1, s2, n, e1 + 1);
    lemma_field_line_agrees(s1, s2, n, e1 + 1, author_prefix());
    lemma_newline_agrees(s1, s2, n, e2 + 1);
    lemma_field_line_agrees(s1, s2, n, e2 + 1, date_prefix());
    lemma_newline_agrees(s1, s2, n, e3 + 1);
    lemma_field_line_agrees(s1, s2, n, e3 + 1, subject_prefix());
    lemma_trailers_related(pre, name, e4 + 2);
    assert(s1.subrange(0, e1) =~= s2.subrange(0, e1));
    assert(s1.subrange(e1 + 1, e2) =~= s2.subrange(e1 + 1, e2));
    assert(s1.subrange(e2 + 1, e3) =~= s2.subrange(e2 + 1, e3));
    assert(s1.subrange(e3 + 1, e4) =~= s2.subrange(e3 + 1, e4));
    let l1 = header_layout(s1)->Some_0;
    match l1.4 {
        Some((a, b)) => {
            assert(s1.subrange(a, b) =~= s2.subrange(a, b));
        },
        None => {},
    }
}

/// The text of a field: its bytes decoded as UTF-8, or empty if they are not UTF-8.
pub open spec fn field_text(b: Seq<u8>) -> Seq<char> {
    if valid_utf8(b) {
        decode_utf8(b)
    } else {
        Seq::empty()
    }
}

pub open spec fn span_text(s: Seq<u8>, a: int, b: int) -> Seq<char> {
    field_text(s.subrange(a, b))
}

/// Failure to read a patch header.
#[derive(Clone, Copy, Debug, PartialEq, Eq, Structural)]
pub enum ParseError {
    /// No `From ` line followed by a `---` line.
    NoHeaderBlock,
    /// The header block does not follow the header grammar.
    MalformedHeader,
}

/// The structured fields of a patch header, each the raw text of its line.
#[derive(Debug)]
pub struct Header {
    pub from: String,
    pub author: String,
    pub date: String,
    pub subject: String,
    pub summary: String,
    pub signatures: Vec<String>,
}

impl Header {
    /// The fields hold the text of the spans that `l` gives in `s`.
    pub open spec fn matches_layout(&self, s: Seq<u8>, l: Layout) -> bool {
        &&& self.from@ == span_text(s, 0, l.0)
        &&& self.author@ == span_text(s, l.0 + 1, l.1)
        &&& self.date@ == span_text(s, l.1 + 1, l.2)
        &&& self.subject@ == span_text(s, l.2 + 1, l.3)
        &&& self.summary@ == match l.4 {
            Some((a, b)) => span_text(s, a, b),
            None => Seq::empty(),
        }
        &&& match l.5 {
            Some((a, b)) => self.signatures@.len() == 1 && self.signatures@[0]@ == span_text(
                s,
                a,
                b,
            ),
            None => self.signatures@.len() == 0,
        }
    }

    /// Parses a header block.
    pub fn from_bytes(s: &[u8]) -> (r: Result<Header, ParseError>)
        ensures
            match header_layout(s@) {
                Some(l) => r is Ok && r->Ok_0.matches_layout(s@, l),
                None => r == Err::<Header, ParseError>(ParseError::MalformedHeader),
            },
    {
        assert(s@.len() == s.len());
        let e1 = line_end(s, 0);
        if !is_field_line(s, 0, &from_prefix_bytes()) {
            return Err(ParseError::MalformedHeader);
        }
        let e2 = line_end(s, e1 + 1);
        if !is_field_line(s, e1 + 1, &author_prefix_bytes()) {
            return Err(ParseError::MalformedHeader);
        }
        let e3 = line_end(s, e2 + 1);
        if !is_field_line(s, e2 + 1, &date_prefix_bytes()) {
            return Err(ParseError::MalformedHeader);
        }
        let e4 = line_end(s, e3 + 1);
        if !is_field_line(s, e3 + 1, &subject_prefix_bytes()) {
            return Err(ParseError::MalformedHeader);
        }
        if !(e4 + 1 < s.len() && s[e4 + 1] == NEWLINE) {
            return Err(ParseError::MalformedHeader);
        }
        match parse_trailer(s, e4 + 2) {
            None => Err(ParseError::MalformedHeader),
            Some((summary_span, sig)) => {
                let summary = match summary_span {
                    Some((a, b)) => field_value(s, a, b),
                    None => String::new(),
                };
                let mut signatures: Vec<String> = Vec::new();
                match sig {
                    Some((a, b)) => signatures.push(field_value(s, a, b)),
                    None => {},
                }
                Ok(
                    Header {
                        from: field_value(s, 0, e1),
                        author: field_value(s, e1 + 1, e2),
                        date: field_value(s, e2 + 1, e3),
                        subject: field_value(s, e3 + 1, e4),
                        summary,
                        signatures,
                    },
                )
            },
        }
    }
}

/// A patch: its parsed header and the diff payload that follows the header block.
pub struct Patch {
    pub header: Header,
    pub diff: Vec<u8>,
}

impl Patch {
    /// Reads a patch from the whole content of a patch file.
    pub fn from_bytes(text: &[u8]) -> (r: Result<Patch, ParseError>)
        ensures
            match header_block(text@) {
                None => r == Err::<Patch, ParseError>(ParseError::NoHeaderBlock),
                Some((a, b)) => match header_layout(text@.subrange(a, b)) {
                    None => r == Err::<Patch, ParseError>(ParseError::MalformedHeader),
                    Some(l) => {
                        &&& r is Ok
                        &&& r->Ok_0.header.matches_layout(text@.subrange(a, b), l)
                        &&& r->Ok_0.diff@ == text@.subrange(b, text@.len() as int)
                    },
                },
            },
    {
        match find_header_block(text) {
            None => Err(ParseError::NoHeaderBlock),
            Some((a, b)) => {
                let block = slice_subrange(text, a, b);
                match Header::from_bytes(block) {
                    Err(e) => Err(e),
                    Ok(header) => {
                        let diff = slice_to_vec(slice_subrange(text, b, text.len()));
                        Ok(Patch { header, diff })
                    },
                }
            },
        }
    }
}

/// Locates the header block of a patch file.
pub fn find_header_block(t: &[u8]) -> (r: Option<(usize, usize)>)
    ensures
        match (r, header_block(t@)) {
            (Some(x), Some(y)) => x.0 as int == y.0 && x.1 as int == y.1 && x.0 <= x.1 <= t@.len(),
            (None, None) => true,
            _ => false,
        },
{
    let from = from_prefix_bytes();
    let delim = delimiter_bytes();
    let a = find_first(t, &from, 0);
    if a >= t.len() {
        return None;
    }
    if t.len() < delim.len() {
        return None;
    }
    match find_last(t, &delim, t.len() - delim.len()) {
        None => None,
        Some(p) => {
            if p >= a && p - a >= from.len() {
                Some((a, p + delim.len()))
            } else {
                None
            }
        },
    }
}

fn from_prefix_bytes() -> (r: Vec<u8>)
    ensures
        r@ == from_prefix(),
{
    let r = vec![70u8, 114u8, 111u8, 109u8, 32u8];
    assert(r@ =~= from_prefix());
    r
}

fn author_prefix_bytes() -> (r: Vec<u8>)
    ensures
        r@ == author_prefix(),
{
    let r = vec![70u8, 114u8, 111u8, 109u8, 58u8, 32u8];
    assert(r@ =~= author_prefix());
    r
}

fn date_prefix_bytes() -> (r: Vec<u8>)
    ensures
        r@ == date_prefix(),
{
    let r = vec![68u8, 97u8, 116u8, 101u8, 58u8, 32u8];
    assert(r@ =~= date_prefix());
    r
}

fn subject_prefix_bytes() -> (r: Vec<u8>)
    ensures
        r@ == subject_prefix(),
{
    let r = vec![83u8, 117u8, 98u8, 106u8, 101u8, 99u8, 116u8, 58u8, 32u8];
    assert(r@ =~= subject_prefix());
    r
}

fn signature_prefix_bytes() -> (r: Vec<u8>)
    ensures
        r@ == signature_prefix(),
{
    let r = vec![
        83u8, 105u8, 103u8, 110u8, 101u8, 100u8, 45u8, 111u8, 102u8, 102u8, 45u8, 98u8, 121u8,
        58u8, 32u8,
    ];
    assert(r@ =~= signature_prefix());
    r
}

fn closing_line_bytes() -> (r: Vec<u8>)
    ensures
        r@ == closing_line(),
{
    let r = vec![45u8, 45u8, 45u8, 10u8];
    assert(r@ =~= closing_line());
    r
}

fn delimiter_bytes() -> (r: Vec<u8>)
    ensures
        r@ == delimiter(),
{
    let r = vec![10u8, 45u8, 45u8, 45u8, 10u8];
    assert(r@ =~= delimiter());
    r
}

/// Index of the first newline at or after `i`, or the length of `s`.
fn line_end(s: &[u8], i: usize) -> (e: usize)
    requires
        i <= s@.len(),
    ensures
        e as int == next_newline(s@, i as int),
        i <= e <= s@.len(),
{
    let mut j = i;
    while j < s.len() && s[j] != NEWLINE
        invariant
            i <= j <= s@.len(),
            next_newline(s@, j as int) == next_newline(s@, i as int),
        decreases s@.len() - j,
    {
        j += 1;
    }
    j
}

fn occurs_at_index(s: &[u8], i: usize, pat: &Vec<u8>) -> (r: bool)
    ensures
        r == occurs_at(s@, i as int, pat@),
{
    if i > s.len() || s.len() - i < pat.len() {
        return false;
    }
    let mut k: usize = 0;
    while k < pat.len()
        invariant
            k <= pat@.len(),
            s@.len() == s.len(),
            i + pat@.len() <= s@.len(),
            forall|m: int| 0 <= m < k ==> s@[i + m] == pat@[m],
        decreases pat@.len() - k,
    {
        assert(i + k < s@.len());
        if s[i + k] != pat[k] {
            assert(s@.subrange(i as int, i + pat@.len())[k as int] != pat@[k as int]);
            return false;
        }
        k += 1;
    }
    assert(s@.subrange(i as int, i + pat@.len()) =~= pat@);
    true
}

fn find_first(s: &[u8], pat: &Vec<u8>, from: usize) -> (r: usize)
    requires
        from <= s@.len(),
    ensures
        r as int == first_occurrence(s@, pat@, from as int),
        r <= s@.len(),
        r < s@.len() ==> occurs_at(s@, r as int, pat@),
{
    let mut i = from;
    while i < s.len()
        invariant
            from <= i <= s@.len(),
            first_occurrence(s@, pat@, i as int) == first_occurrence(s@, pat@, from as int),
        decreases s@.len() - i,
    {
        if occurs_at_index(s, i, pat) {
            return i;
        }
        i += 1;
    }
    i
}

fn find_last(s: &[u8], pat: &Vec<u8>, upto: usize) -> (r: Option<usize>)
    ensures
        match r {
            Some(j) => j as int == last_occurrence(s@, pat@, upto as int) && j <= upto && occurs_at(
                s@,
                j as int,
                pat@,
            ),
            None => last_occurrence(s@, pat@, upto as int) == -1,
        },
{
    let mut n: usize = upto;
    loop
        invariant
            n <= upto,
            last_occurrence(s@, pat@, n as int) == last_occurrence(s@, pat@, upto as int),
        decreases n,
    {
        if occurs_at_index(s, n, pat) {
            return Some(n);
        }
        if n == 0 {
            assert(last_occurrence(s@, pat@, -1) == -1);
            return None;
        }
        n -= 1;
    }
}

fn is_field_line(s: &[u8], i: usize, prefix: &Vec<u8>) -> (r: bool)
    requires
        i <= s@.len(),
    ensures
        r == field_line(s@, i as int, prefix@),
{
    let e = line_end(s, i);
    e < s.len() && e - i > prefix.len() && occurs_at_index(s, i, prefix)
}

pub open spec fn span_view(x: (usize, usize)) -> (int, int) {
    (x.0 as int, x.1 as int)
}

pub open spec fn opt_span_view(x: Option<(usize, usize)>) -> Option<(int, int)> {
    match x {
        Some(y) => Some(span_view(y)),
        None => None,
    }
}

pub open spec fn span_in(x: Option<(usize, usize)>, n: int) -> bool {
    match x {
        Some(y) => y.0 <= y.1 <= n,
        None => true,
    }
}

pub open spec fn trailer_view(
    r: Option<(Option<(usize, usize)>, Option<(usize, usize)>)>,
) -> Option<(Option<(int, int)>, Option<(int, int)>)> {
    match r {
        None => None,
        Some((summary, sig)) => Some((opt_span_view(summary), opt_span_view(sig))),
    }
}

fn parse_trailer(s: &[u8], p: usize) -> (r: Option<
    (Option<(usize, usize)>, Option<(usize, usize)>),
>)
    requires
        p <= s@.len(),
    ensures
        trailer_view(r) == trailer_layout(s@, p as int),
        match r {
            Some((summary, sig)) => span_in(summary, s@.len() as int) && span_in(
                sig,
                s@.len() as int,
            ),
            None => true,
        },
    decreases s@.len() - p,
{
    if p >= s.len() {
        return None;
    }
    let e = line_end(s, p);
    let mut more = None;
    if p < e && e < s.len() && e + 1 < s.len() && s[e + 1] == NEWLINE {
        more = parse_trailer(s, e + 2);
    }
    match more {
        Some((summary, sig)) => match summary {
            Some(x) => Some((Some(x), sig)),
            None => Some((Some((p, e + 2)), sig)),
        },
        None => {
            if is_field_line(s, p, &signature_prefix_bytes()) {
                Some((None, Some((p, e))))
            } else if occurs_at_index(s, p, &closing_line_bytes()) {
                Some((None, None))
            } else {
                None
            }
        },
    }
}

/// Relies on std::str::from_utf8: it accepts exactly the well-formed UTF-8
/// byte strings, and decodes them.
#[verifier::external_body]
fn utf8_text(b: &[u8]) -> (r: Option<String>)
    ensures
        match r {
            Some(t) => valid_utf8(b@) && t@ == decode_utf8(b@),
            None => !valid_utf8(b@),
        },
{
    match std::str::from_utf8(b) {
        Ok(t) => Some(t.to_string()),
        Err(_) => None,
    }
}

fn field_value(s: &[u8], a: usize, b: usize) -> (r: String)
    requires
        a <= b <= s@.len(),
    ensures
        r@ == span_text(s@, a as int, b as int),
{
    let part = slice_subrange(s, a, b);
    match utf8_text(part) {
        Some(t) => t,
        None => String::new(),
    }
}

} // verus!
