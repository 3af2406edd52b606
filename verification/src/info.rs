//! Reading the report of the info tool: the page count and the encryption
//! flag of a document.

use crate::codec::utf8_text;
use crate::error::PDF2ImageError;
use crate::text::{chars_of, find_last_token, last_token, parse_u32, parsed_u32};
use vstd::prelude::*;
use vstd::slice::{slice_subrange, slice_to_vec};
use vstd::string::StringSliceAdditionalSpecFns;
use vstd::utf8::{
    decode_utf8, encode_utf8, encode_utf8_decode_utf8, encode_utf8_valid_utf8, is_ascii_chars,
    is_ascii_chars_encode_utf8, valid_utf8,
};

verus! {

/// The byte that ends a line of the report.
pub open spec fn newline() -> u8 {
    0x0A
}

/// The label of the line that gives the page count.
pub open spec fn pages_label() -> Seq<u8> {
    "Pages:".spec_bytes()
}

/// The label of the line that says whether the document is encrypted.
pub open spec fn encrypted_label() -> Seq<u8> {
    "Encrypted:".spec_bytes()
}

/// A line starts at the beginning of the report and after every newline.
pub open spec fn is_line_start(report: Seq<u8>, at: int) -> bool {
    0 <= at <= report.len() && (at == 0 || report[at - 1] == newline())
}

/// Tells whether the bytes of `report` from `at` on begin with `label`.
pub open spec fn has_label_at(report: Seq<u8>, at: int, label: Seq<u8>) -> bool {
    0 <= at && at + label.len() <= report.len() && report.subrange(at, at + label.len()) == label
}

/// Tells whether a line that begins with `label` starts at `at`.
pub open spec fn is_labelled_line(report: Seq<u8>, label: Seq<u8>, at: int) -> bool {
    is_line_start(report, at) && has_label_at(report, at, label)
}

/// Where the line that passes through `at` ends: at the next newline, or at
/// the end of the report.
pub open spec fn line_end(report: Seq<u8>, at: int) -> int
    decreases report.len() - at,
{
    if 0 <= at < report.len() && report[at] != newline() {
        line_end(report, at + 1)
    } else {
        at
    }
}

/// The start of the first line, at or after `from`, that begins with
/// `label`.
pub open spec fn find_line(report: Seq<u8>, label: Seq<u8>, from: int) -> Option<int>
    decreases report.len() + 1 - from,
{
    if from < 0 || from > report.len() {
        None
    } else if is_labelled_line(report, label, from) {
        Some(from)
    } else {
        find_line(report, label, from + 1)
    }
}

/// The first line of `report` that begins with `label`, without its newline.
pub open spec fn labelled_line(report: Seq<u8>, label: Seq<u8>) -> Option<Seq<u8>> {
    match find_line(report, label, 0) {
        Some(start) => Some(report.subrange(start, line_end(report, start))),
        None => None,
    }
}

/// The last whitespace-separated token of a line, where the line is
/// well-formed UTF-8.
pub open spec fn line_token(line: Seq<u8>) -> Option<Seq<char>> {
    if valid_utf8(line) {
        last_token(decode_utf8(line))
    } else {
        None
    }
}

/// The value that `report` gives under `label`: the last token of the first
/// line that begins with the label.
pub open spec fn labelled_token(report: Seq<u8>, label: Seq<u8>) -> Option<Seq<char>> {
    match labelled_line(report, label) {
        Some(line) => line_token(line),
        None => None,
    }
}

/// The page count that `report` states, if it states one.
pub open spec fn reported_page_count(report: Seq<u8>) -> Option<u32> {
    match labelled_token(report, pages_label()) {
        Some(token) => parsed_u32(token),
        None => None,
    }
}

/// The encryption flag that `report` states, if it states one.
pub open spec fn reported_encryption(report: Seq<u8>) -> Option<bool> {
    match labelled_token(report, encrypted_label()) {
        Some(token) => if token == seq!['y', 'e', 's'] {
            Some(true)
        } else if token == seq!['n', 'o'] {
            Some(false)
        } else {
            None
        },
        None => None,
    }
}

/// What a report yields: both facts, or the error for the first that is
/// missing.
pub open spec fn extracted_info(report: Seq<u8>) -> Result<(u32, bool), PDF2ImageError> {
    match reported_page_count(report) {
        None => Err(PDF2ImageError::UnableToExtractPageCount),
        Some(page_count) => match reported_encryption(report) {
            None => Err(PDF2ImageError::UnableToExtractEncryptionStatus),
            Some(encrypted) => Ok((page_count, encrypted)),
        },
    }
}

/// `find_line` finds the first labelled line: the line it gives begins with
/// the label and no line before it does, and where it gives none, no line
/// begins with the label.
pub proof fn lemma_find_line_is_first(report: Seq<u8>, label: Seq<u8>, from: int)
    requires
        0 <= from,
    ensures
        match find_line(report, label, from) {
            Some(start) => {
                &&& from <= start
                &&& is_labelled_line(report, label, start)
                &&& forall|at: int| from <= at < start ==> !is_labelled_line(report, label, at)
            },
            None => forall|at: int| from <= at ==> !is_labelled_line(report, label, at),
        },
    decreases report.len() + 1 - from,
{
    if from <= report.len() && !is_labelled_line(report, label, from) {
        lemma_find_line_is_first(report, label, from + 1);
    }
}

/// A report in which no line begins with `Pages:` yields
/// `UnableToExtractPageCount`, whatever else it holds.
pub proof fn lemma_report_without_pages_line(report: Seq<u8>)
    requires
        forall|at: int| !is_labelled_line(report, pages_label(), at),
    ensures
        extracted_info(report) == Err::<(u32, bool), PDF2ImageError>(
            PDF2ImageError::UnableToExtractPageCount,
        ),
{
    lemma_find_line_is_first(report, pages_label(), 0);
    if find_line(report, pages_label(), 0) is Some {
        assert(is_labelled_line(report, pages_label(), find_line(report, pages_label(), 0)->0));
    }
}

/// The characters that a line of ASCII bytes writes, one for each byte.
pub open spec fn ascii_chars(line: Seq<u8>) -> Seq<char> {
    Seq::new(line.len(), |i: int| line[i] as char)
}

/// A line of ASCII bytes is well-formed UTF-8 and reads as its bytes, one
/// character each: its token is the last token of those characters.
pub proof fn lemma_ascii_line_token(line: Seq<u8>)
    requires
        forall|i: int| 0 <= i < line.len() ==> #[trigger] line[i] < 128,
    ensures
        valid_utf8(line),
        decode_utf8(line) == ascii_chars(line),
        line_token(line) == last_token(ascii_chars(line)),
{
    let chars = ascii_chars(line);
    assert(is_ascii_chars(chars));
    is_ascii_chars_encode_utf8(chars);
    assert(encode_utf8(chars) =~= line);
    encode_utf8_valid_utf8(chars);
    encode_utf8_decode_utf8(chars);
}

fn label_at(report: &[u8], at: usize, label: &[u8]) -> (found: bool)
    requires
        at <= report@.len(),
    ensures
        found == has_label_at(report@, at as int, label@),
{
    let len: usize = report.len();
    if label.len() > len - at {
        return false;
    }
    let mut i: usize = 0;
    while i < label.len()
        invariant
            i <= label@.len(),
            len == report@.len(),
            at + label@.len() <= report@.len(),
            forall|k: int| 0 <= k < i ==> report@[at + k] == label@[k],
        decreases label@.len() - i,
    {
        if report[at + i] != label[i] {
            proof {
                assert(report@.subrange(at as int, at + label@.len())[i as int] == report@[at + i]);
            }
            return false;
        }
        i += 1;
    }
    proof {
        assert(report@.subrange(at as int, at + label@.len()) =~= label@);
    }
    true
}

fn end_of_line(report: &[u8], at: usize) -> (end: usize)
    requires
        at <= report@.len(),
    ensures
        end == line_end(report@, at as int),
        at <= end <= report@.len(),
        forall|k: int| at <= k < end ==> report@[k] != newline(),
        end < report@.len() ==> report@[end as int] == newline(),
{
    let mut end: usize = at;
    while end < report.len() && report[end] != 0x0A
        invariant
            at <= end <= report@.len(),
            line_end(report@, at as int) == line_end(report@, end as int),
            forall|k: int| at <= k < end ==> report@[k] != newline(),
        decreases report@.len() - end,
    {
        end += 1;
    }
    end
}

/// No line begins strictly inside a stretch that holds no newline.
proof fn lemma_no_line_within(report: Seq<u8>, label: Seq<u8>, from: int, to: int)
    requires
        0 <= from <= to <= report.len(),
        forall|k: int| from <= k < to ==> report[k] != newline(),
        !is_labelled_line(report, label, from),
    ensures
        find_line(report, label, from) == find_line(report, label, to + 1),
    decreases to - from,
{
    if from < to {
        assert(!is_line_start(report, from + 1));
        lemma_no_line_within(report, label, from + 1, to);
    }
}

/// Finds the first line of `report` that begins with `label`.
pub fn find_labelled_line<'a>(report: &'a [u8], label: &[u8]) -> (res: Option<&'a [u8]>)
    ensures
        match res {
            Some(line) => labelled_line(report@, label@) == Some(line@),
            None => labelled_line(report@, label@) is None,
        },
{
    let mut start: usize = 0;
    loop
        invariant
            is_line_start(report@, start as int),
            find_line(report@, label@, 0) == find_line(report@, label@, start as int),
        decreases report@.len() - start,
    {
        let end = end_of_line(report, start);
        if label_at(report, start, label) {
            return Some(slice_subrange(report, start, end));
        }
        proof {
            lemma_no_line_within(report@, label@, start as int, end as int);
        }
        if end == report.len() {
            return None;
        }
        start = end + 1;
    }
}

/// Reads the value that `report` gives under `label`.
fn read_labelled_token(report: &[u8], label: &[u8]) -> (res: Option<Vec<char>>)
    ensures
        match res {
            Some(token) => labelled_token(report@, label@) == Some(token@),
            None => labelled_token(report@, label@) is None,
        },
{
    match find_labelled_line(report, label) {
        None => None,
        Some(line) => match utf8_text(line) {
            None => None,
            Some(text) => {
                let chars = chars_of(text);
                match find_last_token(chars.as_slice()) {
                    None => None,
                    Some(token) => Some(slice_to_vec(token)),
                }
            },
        },
    }
}

/// Tells whether `token` is the word `yes` or the word `no`.
fn read_flag(token: &[char]) -> (res: Option<bool>)
    ensures
        res == if token@ == seq!['y', 'e', 's'] {
            Some(true)
        } else if token@ == seq!['n', 'o'] {
            Some(false)
        } else {
            None::<bool>
        },
{
    if token.len() == 3 && token[0] == 'y' && token[1] == 'e' && token[2] == 's' {
        assert(token@ =~= seq!['y', 'e', 's']);
        Some(true)
    } else if token.len() == 2 && token[0] == 'n' && token[1] == 'o' {
        assert(token@ =~= seq!['n', 'o']);
        assert(seq!['y', 'e', 's'].len() == 3);
        Some(false)
    } else {
        proof {
            if token@ == seq!['y', 'e', 's'] {
                assert(token@.len() == 3 && token@[0] == 'y' && token@[1] == 'e' && token@[2]
                    == 's');
            }
            if token@ == seq!['n', 'o'] {
                assert(token@.len() == 2 && token@[0] == 'n' && token@[1] == 'o');
            }
        }
        None
    }
}

/// Reads the page count and the encryption flag out of the report that the
/// info tool wrote for a document.
///
/// Each fact stands on the first line that begins with its label, `Pages:` or
/// `Encrypted:`, as the last whitespace-separated token of that line. The
/// two lines may come in either order. The page count is asked for first:
/// a report that lacks both facts fails with `UnableToExtractPageCount`.
pub fn extract_pdf_info(report: &[u8]) -> (res: Result<(u32, bool), PDF2ImageError>)
    ensures
        res == extracted_info(report@),
{
    let page_count = match read_labelled_token(report, "Pages:".as_bytes()) {
        None => None,
        Some(token) => parse_u32(token.as_slice()),
    };
    let page_count: u32 = match page_count {
        None => {
            return Err(PDF2ImageError::UnableToExtractPageCount);
        },
        Some(n) => n,
    };
    let encrypted = match read_labelled_token(report, "Encrypted:".as_bytes()) {
        None => None,
        Some(token) => read_flag(token.as_slice()),
    };
    match encrypted {
        None => Err(PDF2ImageError::UnableToExtractEncryptionStatus),
        Some(flag) => Ok((page_count, flag)),
    }
}

/// What is known of a document before any page of it is converted.
#[derive(Debug, Clone, Copy, PartialEq, Eq)]
pub struct PdfInfo {
    /// The page count within the pdf
    page_count: u32,
    /// Whether the PDF is encrypted
    encrypted: bool,
}

impl PdfInfo {
    /// The number of pages, as a specification.
    pub closed spec fn pages(&self) -> u32 {
        self.page_count
    }

    /// Whether the document is encrypted, as a specification.
    pub closed spec fn encrypted(&self) -> bool {
        self.encrypted
    }

    /// The facts of a document, where they are known already.
    pub fn new(page_count: u32, encrypted: bool) -> (info: Self)
        ensures
            info.pages() == page_count,
            info.encrypted() == encrypted,
    {
        Self { page_count, encrypted }
    }

    /// Reads the facts out of the report that the info tool wrote for the
    /// document.
    pub fn read(report: &[u8]) -> (res: Result<Self, PDF2ImageError>)
        ensures
            match extracted_info(report@) {
                Ok((page_count, encrypted)) => res matches Ok(info) && info.pages() == page_count
                    && info.encrypted() == encrypted,
                Err(e) => res == Err::<Self, PDF2ImageError>(e),
            },
    {
        match extract_pdf_info(report) {
            Ok((page_count, encrypted)) => Ok(Self { page_count, encrypted }),
            Err(e) => Err(e),
        }
    }

    /// Returns the number of pages in the PDF.
    pub fn page_count(&self) -> (n: u32)
        ensures
            n == self.pages(),
    {
        self.page_count
    }

    /// Returns whether the PDF is encrypted.
    pub fn is_encrypted(&self) -> (b: bool)
        ensures
            b == self.encrypted(),
    {
        self.encrypted
    }
}

} // verus!
