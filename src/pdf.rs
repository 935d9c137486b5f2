use vstd::prelude::*;
use crate::text::{
    chars_of, contains, contains_seq, find_char, index_of, lines, lines_of, replace, replaced,
    slice_chars, string_of, trim, trim_of,
};
use crate::urls::opt_view;
use vstd::utf8::{decode_utf8, valid_utf8};

verus! {

/// PDF document information.
#[derive(Debug, Clone)]
pub struct PdfInfo {
    /// Extracted text content.
    pub text: String,
    /// Number of pages.
    pub num_pages: usize,
    /// PDF metadata.
    pub metadata: PdfMetadata,
}

/// PDF metadata.
#[derive(Debug, Clone)]
pub struct PdfMetadata {
    /// Document title.
    pub title: Option<String>,
    /// Document author.
    pub author: Option<String>,
    /// Document subject.
    pub subject: Option<String>,
    /// Creator application.
    pub creator: Option<String>,
    /// Producer (PDF generator).
    pub producer: Option<String>,
    /// Creation date.
    pub creation_date: Option<String>,
    /// Modification date.
    pub modification_date: Option<String>,
}

/// Why no text could be taken from a PDF.
#[derive(Debug, Clone, Copy, PartialEq, Eq)]
pub enum PdfError {
    /// The bytes do not load as a PDF document.
    Load,
}

/// A PDF literal string with its escapes `\n`, `\r`, `\t`, `\(`, `\)` and `\\` replaced,
/// one kind after the other in that order.
pub open spec fn pdf_unescaped(s: Seq<char>) -> Seq<char> {
    let a = replaced(s, "\\n"@, "\n"@);
    let b = replaced(a, "\\r"@, "\r"@);
    let c = replaced(b, "\\t"@, "\t"@);
    let d = replaced(c, "\\("@, "("@);
    let e = replaced(d, "\\)"@, ")"@);
    replaced(e, "\\\\"@, "\\"@)
}

/// Decodes the escapes of a PDF literal string.
pub fn decode_pdf_string(s: &str) -> (r: String)
    ensures
        r@ == pdf_unescaped(s@),
{
    proof {
        reveal_strlit("\\n");
        reveal_strlit("\\r");
        reveal_strlit("\\t");
        reveal_strlit("\\(");
        reveal_strlit("\\)");
        reveal_strlit("\\\\");
    }
    let a = replace(s, "\\n", "\n");
    let b = replace(a.as_str(), "\\r", "\r");
    let c = replace(b.as_str(), "\\t", "\t");
    let d = replace(c.as_str(), "\\(", "(");
    let e = replace(d.as_str(), "\\)", ")");
    replace(e.as_str(), "\\\\", "\\")
}

/// The value of a hexadecimal digit.
pub open spec fn hex_value(c: char) -> Option<u8> {
    if '0' <= c <= '9' {
        Some((c as u8 - 48) as u8)
    } else if 'a' <= c <= 'f' {
        Some((c as u8 - 87) as u8)
    } else if 'A' <= c <= 'F' {
        Some((c as u8 - 55) as u8)
    } else {
        None
    }
}

/// The byte that two characters spell in base 16; like `u8::from_str_radix`, a leading `+`
/// is a sign.
pub open spec fn pair_byte(a: char, b: char) -> Option<u8> {
    if a == '+' {
        hex_value(b)
    } else {
        match (hex_value(a), hex_value(b)) {
            (Some(x), Some(y)) => Some((x * 16 + y) as u8),
            _ => None,
        }
    }
}

/// The bytes spelled by `s`, two characters each; `None` if a pair is not a byte or a
/// character is left over.
pub open spec fn hex_bytes(s: Seq<char>) -> Option<Seq<u8>>
    decreases s.len(),
{
    if s.len() == 0 {
        Some(Seq::empty())
    } else if s.len() == 1 {
        None
    } else {
        match (pair_byte(s[0], s[1]), hex_bytes(s.subrange(2, s.len() as int))) {
            (Some(b), Some(rest)) => Some(seq![b] + rest),
            _ => None,
        }
    }
}

fn hex_digit(c: char) -> (r: Option<u8>)
    ensures
        r == hex_value(c),
{
    if '0' <= c && c <= '9' {
        Some(c as u8 - 48)
    } else if 'a' <= c && c <= 'f' {
        Some(c as u8 - 87)
    } else if 'A' <= c && c <= 'F' {
        Some(c as u8 - 55)
    } else {
        None
    }
}

fn byte_of_pair(a: char, b: char) -> (r: Option<u8>)
    ensures
        r == pair_byte(a, b),
{
    if a == '+' {
        return hex_digit(b);
    }
    match (hex_digit(a), hex_digit(b)) {
        (Some(x), Some(y)) => Some(x * 16 + y),
        _ => None,
    }
}

/// `out` followed by what `rest` holds, if it holds anything.
pub open spec fn prepend(out: Seq<u8>, rest: Option<Seq<u8>>) -> Option<Seq<u8>> {
    match rest {
        Some(r) => Some(out + r),
        None => None,
    }
}

/// The bytes spelled by the hexadecimal digits `s`, two characters each.
pub fn hex_to_bytes(s: &[char]) -> (r: Option<Vec<u8>>)
    ensures
        match hex_bytes(s@) {
            Some(b) => r matches Some(v) && v@ == b,
            None => r is None,
        },
{
    let n = s.len();
    let mut out: Vec<u8> = Vec::new();
    let mut i: usize = 0;
    assert(s@.subrange(0, n as int) =~= s@);
    proof {
        match hex_bytes(s@) {
            Some(b) => {
                assert(out@ + b =~= b);
            },
            None => {},
        }
    }
    while i < n
        invariant
            n == s@.len(),
            i <= n,
            prepend(out@, hex_bytes(s@.subrange(i as int, n as int))) == match hex_bytes(s@) {
                Some(b) => Some(b),
                None => None::<Seq<u8>>,
            },
        decreases n - i,
    {
        let ghost t = s@.subrange(i as int, n as int);
        if i + 1 == n {
            return None;
        }
        let b = byte_of_pair(s[i], s[i + 1]);
        proof {
            assert(t.subrange(2, t.len() as int) =~= s@.subrange(i + 2, n as int));
        }
        match b {
            None => {
                return None;
            },
            Some(byte) => {
                proof {
                    match hex_bytes(s@.subrange(i + 2, n as int)) {
                        Some(rest) => {
                            assert(out@ + (seq![byte] + rest) =~= out@.push(byte) + rest);
                        },
                        None => {},
                    }
                }
                out.push(byte);
                i = i + 2;
            },
        }
    }
    proof {
        assert(s@.subrange(n as int, n as int) =~= Seq::<char>::empty());
        assert(out@ + Seq::<u8>::empty() =~= out@);
    }
    Some(out)
}

/// What `String::from_utf8_lossy` gives for `b`.
pub uninterp spec fn lossy_text(b: Seq<u8>) -> Seq<char>;

/// Relies on `String::from_utf8_lossy`: the UTF-8 decoding of `b`, with each invalid
/// sequence shown as U+FFFD; valid UTF-8 is decoded unchanged.
#[verifier::external_body]
fn from_utf8_lossy(b: &[u8]) -> (r: String)
    ensures
        r@ == lossy_text(b@),
        valid_utf8(b@) ==> r@ == decode_utf8(b@),
{
    String::from_utf8_lossy(b).to_string()
}

/// The text spelled by a PDF hexadecimal string: spaces dropped, then two digits per byte,
/// read as UTF-8.
pub open spec fn hex_text(s: Seq<char>) -> Option<Seq<char>> {
    match hex_bytes(replaced(s, " "@, ""@)) {
        Some(b) => Some(lossy_text(b)),
        None => None,
    }
}

/// Decodes a PDF hexadecimal string; `None` when it is not an even number of hexadecimal
/// digits, spaces aside.
pub fn decode_pdf_hex(hex: &str) -> (r: Option<String>)
    ensures
        match hex_text(hex@) {
            Some(t) => r matches Some(v) && v@ == t,
            None => r is None,
        },
{
    proof {
        reveal_strlit(" ");
        reveal_strlit("");
    }
    let clean = replace(hex, " ", "");
    let cv = chars_of(clean.as_str());
    match hex_to_bytes(cv.as_slice()) {
        Some(bytes) => Some(from_utf8_lossy(bytes.as_slice())),
        None => None,
    }
}

/// The text shown by a line of a PDF content stream: in the trimmed line, what stands between
/// the first `(` and the first `)`, unescaped, or else what stands between the first `<` and
/// the first `>`, read as hexadecimal. `None` where neither pair is present, where the closing
/// mark comes first, or where the hexadecimal is not valid.
pub open spec fn operator_text(line: Seq<char>) -> Option<Seq<char>> {
    let t = trim_of(line);
    let open = index_of(t, '(');
    let close = index_of(t, ')');
    let hex_open = index_of(t, '<');
    let hex_close = index_of(t, '>');
    if open >= 0 && close >= 0 {
        if close < open {
            None
        } else {
            Some(pdf_unescaped(t.subrange(open + 1, close)))
        }
    } else if hex_open >= 0 && hex_close >= 0 {
        if hex_close < hex_open {
            None
        } else {
            hex_text(t.subrange(hex_open + 1, hex_close))
        }
    } else {
        None
    }
}

proof fn lemma_index_of_bounds(s: Seq<char>, c: char)
    ensures
        -1 <= index_of(s, c) < s.len(),
        index_of(s, c) >= 0 ==> s[index_of(s, c)] == c,
    decreases s.len(),
{
    if s.len() > 0 {
        lemma_index_of_bounds(s.drop_first(), c);
    }
}

/// Takes the text out of a text-showing line (`Tj` or `TJ`) of a PDF content stream.
pub fn extract_text_from_operator(line: &str) -> (r: Option<String>)
    ensures
        match operator_text(line@) {
            Some(t) => r matches Some(v) && v@ == t,
            None => r is None,
        },
{
    let t = trim(line);
    let tv = chars_of(t.as_str());
    proof {
        lemma_index_of_bounds(tv@, '(');
        lemma_index_of_bounds(tv@, ')');
        lemma_index_of_bounds(tv@, '<');
        lemma_index_of_bounds(tv@, '>');
    }
    match (find_char(tv.as_slice(), '('), find_char(tv.as_slice(), ')')) {
        (Some(open), Some(close)) => {
            if close < open {
                return None;
            }
            let inner = string_of(slice_chars(tv.as_slice(), open + 1, close).as_slice());
            return Some(decode_pdf_string(inner.as_str()));
        },
        _ => {},
    }
    match (find_char(tv.as_slice(), '<'), find_char(tv.as_slice(), '>')) {
        (Some(open), Some(close)) => {
            if close < open {
                return None;
            }
            let inner = string_of(slice_chars(tv.as_slice(), open + 1, close).as_slice());
            decode_pdf_hex(inner.as_str())
        },
        _ => None,
    }
}

/// The content streams of the pages of the PDF document `bytes`, in page order, as `lopdf`
/// reads them; `None` where the document does not load.
pub uninterp spec fn pdf_pages(bytes: Seq<u8>) -> Option<Seq<Seq<u8>>>;

/// Relies on `lopdf::Document::load_mem`, `Document::get_pages` (pages numbered from 1, in
/// order) and `Document::get_page_content`.
#[verifier::external_body]
fn page_contents(bytes: &[u8]) -> (r: Option<Vec<Vec<u8>>>)
    ensures
        match pdf_pages(bytes@) {
            Some(p) => r matches Some(v) && v@.map_values(|c: Vec<u8>| c@) == p,
            None => r is None,
        },
{
    let doc = lopdf::Document::load_mem(bytes).ok()?;
    Some(doc.get_pages().values().map(|id| doc.get_page_content(*id)).collect())
}

/// The string stored under `key` in the `Info` dictionary of the PDF document `bytes`, as
/// `lopdf` reads it; `None` where there is none.
pub uninterp spec fn pdf_info(bytes: Seq<u8>, key: Seq<char>) -> Option<Seq<u8>>;

/// Relies on `lopdf::Document::load_mem`, the trailer's `Info` reference,
/// `Document::get_object`, `Object::as_dict`, `Dictionary::get` and `Object::as_str`.
#[verifier::external_body]
fn info_values(bytes: &[u8], keys: &[&str]) -> (r: Vec<Option<Vec<u8>>>)
    ensures
        r@.len() == keys@.len(),
        forall|i: int|
            0 <= i < keys@.len() ==> match pdf_info(bytes@, keys@[i]@) {
                Some(v) => #[trigger] r@[i] matches Some(x) && x@ == v,
                None => r@[i] is None,
            },
{
    let doc = lopdf::Document::load_mem(bytes).ok();
    let info = doc.as_ref().and_then(|d| d.get_object(d.trailer.get(b"Info").ok()?.as_reference().ok()?).ok()?.as_dict().ok());
    keys.iter().map(|k| Some(info?.get(k.as_bytes()).ok()?.as_str().ok()?.to_vec())).collect()
}

/// A metadata entry: the `Info` string under `key`, read as UTF-8.
pub open spec fn info_text(bytes: Seq<u8>, key: Seq<char>) -> Option<Seq<char>> {
    match pdf_info(bytes, key) {
        Some(v) => Some(lossy_text(v)),
        None => None,
    }
}

/// The metadata of the PDF document `bytes` as plain values, in the order of `PdfMetadata`.
pub open spec fn metadata_of(bytes: Seq<u8>) -> Seq<Option<Seq<char>>> {
    seq![
        info_text(bytes, "Title"@),
        info_text(bytes, "Author"@),
        info_text(bytes, "Subject"@),
        info_text(bytes, "Creator"@),
        info_text(bytes, "Producer"@),
        info_text(bytes, "CreationDate"@),
        info_text(bytes, "ModDate"@),
    ]
}

/// The plain values of metadata, in field order.
pub open spec fn metadata_view(m: PdfMetadata) -> Seq<Option<Seq<char>>> {
    seq![
        opt_view(m.title),
        opt_view(m.author),
        opt_view(m.subject),
        opt_view(m.creator),
        opt_view(m.producer),
        opt_view(m.creation_date),
        opt_view(m.modification_date),
    ]
}

fn lossy_opt(v: &Option<Vec<u8>>) -> (r: Option<String>)
    ensures
        opt_view(r) == match *v {
            Some(b) => Some(lossy_text(b@)),
            None => None,
        },
{
    match v {
        Some(b) => Some(from_utf8_lossy(b.as_slice())),
        None => None,
    }
}

fn pdf_metadata(bytes: &[u8]) -> (r: PdfMetadata)
    ensures
        metadata_view(r) == metadata_of(bytes@),
{
    let keys: [&str; 7] = ["Title", "Author", "Subject", "Creator", "Producer", "CreationDate", "ModDate"];
    let v = info_values(bytes, keys.as_slice());
    assert(keys@[0]@ == "Title"@ && keys@[1]@ == "Author"@ && keys@[2]@ == "Subject"@);
    assert(keys@[3]@ == "Creator"@ && keys@[4]@ == "Producer"@ && keys@[5]@ == "CreationDate"@);
    assert(keys@[6]@ == "ModDate"@);
    let m = PdfMetadata {
        title: lossy_opt(&v[0]),
        author: lossy_opt(&v[1]),
        subject: lossy_opt(&v[2]),
        creator: lossy_opt(&v[3]),
        producer: lossy_opt(&v[4]),
        creation_date: lossy_opt(&v[5]),
        modification_date: lossy_opt(&v[6]),
    };
    assert(metadata_view(m) =~= metadata_of(bytes@));
    m
}

/// Whether a content-stream line shows text (`Tj` or `TJ`).
pub open spec fn shows_text(line: Seq<char>) -> bool {
    contains_seq(line, "Tj"@) || contains_seq(line, "TJ"@)
}

/// The text shown by the first `n` lines, each piece followed by a space.
pub open spec fn shown_text(ls: Seq<Seq<char>>, n: int) -> Seq<char>
    decreases n,
{
    if n <= 0 {
        Seq::empty()
    } else {
        let prev = shown_text(ls, n - 1);
        if shows_text(ls[n - 1]) {
            match operator_text(ls[n - 1]) {
                Some(t) => prev + t + " "@,
                None => prev,
            }
        } else {
            prev
        }
    }
}

/// The text of a page: what its content stream, read as UTF-8, shows line by line, trimmed.
pub open spec fn page_text_of(content: Seq<u8>) -> Seq<char> {
    let ls = lines_of(lossy_text(content));
    trim_of(shown_text(ls, ls.len() as int))
}

fn page_text(content: &Vec<u8>) -> (r: String)
    ensures
        r@ == page_text_of(content@),
{
    let s = from_utf8_lossy(content.as_slice());
    let ls = lines(s.as_str());
    let ghost lv = ls@.map_values(|l: Vec<char>| l@);
    let mut text = String::new();
    let mut i: usize = 0;
    while i < ls.len()
        invariant
            i <= ls@.len(),
            lv == ls@.map_values(|l: Vec<char>| l@),
            lv == lines_of(lossy_text(content@)),
            text@ == shown_text(lv, i as int),
        decreases ls@.len() - i,
    {
        let line = &ls[i];
        assert(line@ == lv[i as int]);
        if contains(line.as_slice(), "Tj") || contains(line.as_slice(), "TJ") {
            let ls_text = string_of(line.as_slice());
            match extract_text_from_operator(ls_text.as_str()) {
                Some(t) => {
                    text.append(t.as_str());
                    text.append(" ");
                },
                None => {},
            }
        }
        i = i + 1;
    }
    trim(text.as_str())
}

/// The text of the first `k` pages, each followed by a blank line.
pub open spec fn pages_text(pages: Seq<Seq<u8>>, k: int) -> Seq<char>
    decreases k,
{
    if k <= 0 {
        Seq::empty()
    } else {
        pages_text(pages, k - 1) + page_text_of(pages[k - 1]) + "\n\n"@
    }
}

/// Extracts the text of at most `max_pages` pages (all by default) of a PDF document, with its
/// page count and metadata: each page's text-showing lines, the pages apart by a blank line,
/// the whole trimmed.
pub fn extract_pdf_text(pdf_bytes: &[u8], max_pages: Option<usize>) -> (r: Result<PdfInfo, PdfError>)
    ensures
        pdf_pages(pdf_bytes@) is None ==> r == Err::<PdfInfo, PdfError>(PdfError::Load),
        pdf_pages(pdf_bytes@) matches Some(pages) ==> (r matches Ok(info) && {
            let k = match max_pages {
                Some(m) => if m < pages.len() {
                    m as int
                } else {
                    pages.len() as int
                },
                None => pages.len() as int,
            };
            &&& info.num_pages == pages.len()
            &&& info.text@ == trim_of(pages_text(pages, k))
            &&& metadata_view(info.metadata) == metadata_of(pdf_bytes@)
        }),
{
    let pages = match page_contents(pdf_bytes) {
        Some(pages) => pages,
        None => {
            return Err(PdfError::Load);
        },
    };
    let ghost pv = pages@.map_values(|c: Vec<u8>| c@);
    let num_pages = pages.len();
    let k = match max_pages {
        Some(m) => if m < num_pages {
            m
        } else {
            num_pages
        },
        None => num_pages,
    };
    let mut all_text = String::new();
    let mut i: usize = 0;
    while i < k
        invariant
            k <= pages@.len(),
            i <= k,
            pv == pages@.map_values(|c: Vec<u8>| c@),
            all_text@ == pages_text(pv, i as int),
        decreases k - i,
    {
        assert(pages@[i as int]@ == pv[i as int]);
        let t = page_text(&pages[i]);
        all_text.append(t.as_str());
        all_text.append("\n\n");
        i = i + 1;
    }
    let metadata = pdf_metadata(pdf_bytes);
    Ok(PdfInfo { text: trim(all_text.as_str()), num_pages, metadata })
}

} // verus!
