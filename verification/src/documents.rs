//! Files that are kept as documents: spreadsheets, PDFs and pictures,
//! told apart by their names.

use crate::base::{new_id, AuditMetadata};
use crate::calendar::Date;
use crate::locale::{parse_iso_date, parsed_iso_date};
use crate::text::{chars_of, contains, contains_seq, lowercase_of, string_of_range};
use vstd::prelude::*;

verus! {

/// The index of the last dot in `name`, or -1 where it has none.
pub open spec fn last_dot(name: Seq<char>) -> int
    decreases name.len(),
{
    if name.len() == 0 {
        -1
    } else if name.last() == '.' {
        name.len() - 1
    } else {
        last_dot(name.drop_last())
    }
}

/// The extension of a file name: what follows its last dot. A name
/// without a dot has none, nor has one whose only dot stands first, nor
/// has the name `..`.
pub open spec fn extension_of(name: Seq<char>) -> Option<Seq<char>> {
    let dot = last_dot(name);
    if dot <= 0 || name == seq!['.', '.'] {
        None
    } else {
        Some(name.skip(dot + 1))
    }
}

/// `c`, in lower case if it is an ASCII capital.
pub open spec fn ascii_lower(c: char) -> char {
    if 'A' <= c && c <= 'Z' {
        ((c as u8) + 32) as char
    } else {
        c
    }
}

/// `a` and `b` are the same but for the case of ASCII letters.
pub open spec fn same_ignoring_ascii_case(a: Seq<char>, b: Seq<char>) -> bool {
    a.len() == b.len() && forall|i: int|
        0 <= i < a.len() ==> ascii_lower(#[trigger] a[i]) == ascii_lower(b[i])
}

/// The extension of a spreadsheet.
pub open spec fn is_excel_extension(ext: Seq<char>) -> bool {
    same_ignoring_ascii_case(ext, "xlsx"@) || same_ignoring_ascii_case(ext, "xls"@)
}

/// The kind of document that a file name in lower case tells of.
pub open spec fn document_kind(lower: Seq<char>) -> Seq<char> {
    if contains_seq(lower, "cte"@) || contains_seq(lower, "ct-e"@) {
        "CT-e"@
    } else if contains_seq(lower, "nfe"@) || contains_seq(lower, "nf-e"@) {
        "NF-e"@
    } else if contains_seq(lower, "minuta"@) {
        "Minuta"@
    } else if contains_seq(lower, "comprovante"@) {
        "Comprovante"@
    } else if contains_seq(lower, "embarque"@) {
        "Pre-Embarque"@
    } else if contains_seq(lower, "fatura"@) {
        "Fatura"@
    } else if contains_seq(lower, "relatorio"@) || contains_seq(lower, "report"@) {
        "Relatorio"@
    } else {
        "PDF"@
    }
}

proof fn lemma_last_dot(name: Seq<char>, k: int)
    requires
        -1 <= k < name.len(),
        k >= 0 ==> name[k] == '.',
        forall|j: int| k < j < name.len() ==> #[trigger] name[j] != '.',
    ensures
        last_dot(name) == k,
    decreases name.len(),
{
    if name.len() > 0 && k < name.len() - 1 {
        lemma_last_dot(name.drop_last(), k);
    }
}

/// The extension of a file name.
pub fn file_extension(name: &str) -> (r: Option<String>)
    ensures
        crate::text::optional_text(r) == extension_of(name@),
{
    let v = chars_of(name);
    let n = v.len();
    let mut i: usize = n;
    while i > 0 && v[i - 1] != '.'
        invariant
            i <= n == v.len(),
            forall|j: int| i <= j < n ==> #[trigger] v@[j] != '.',
        decreases i,
    {
        i -= 1;
    }
    proof {
        lemma_last_dot(v@, i - 1);
    }
    if i <= 1 {
        return None;
    }
    if n == 2 && v[0] == '.' {
        assert(v@ =~= seq!['.', '.']);
        return None;
    }
    proof {
        if v@ == seq!['.', '.'] {
            assert(v@.len() == 2);
            assert(v@[0] == '.');
        }
        assert(v@.skip(i as int) =~= v@.subrange(i as int, n as int));
    }
    Some(string_of_range(&v, i, n))
}

fn to_ascii_lower(c: char) -> (r: char)
    ensures
        r == ascii_lower(c),
{
    if c >= 'A' && c <= 'Z' {
        ((c as u8) + 32) as char
    } else {
        c
    }
}

/// Whether `a` and `b` are the same but for the case of ASCII letters.
pub fn eq_ignore_ascii_case(a: &str, b: &str) -> (r: bool)
    ensures
        r == same_ignoring_ascii_case(a@, b@),
{
    let x = chars_of(a);
    let y = chars_of(b);
    if x.len() != y.len() {
        return false;
    }
    let mut i: usize = 0;
    while i < x.len()
        invariant
            i <= x.len() == y.len(),
            x@ == a@,
            y@ == b@,
            forall|k: int| 0 <= k < i ==> ascii_lower(#[trigger] x@[k]) == ascii_lower(y@[k]),
        decreases x.len() - i,
    {
        if to_ascii_lower(x[i]) != to_ascii_lower(y[i]) {
            return false;
        }
        i += 1;
    }
    true
}

/// Whether `list` holds `s`.
fn lists(list: &Vec<String>, s: &String) -> (b: bool)
    ensures
        b == list.deep_view().contains(s@),
{
    let mut i: usize = 0;
    while i < list.len()
        invariant
            i <= list.len(),
            forall|k: int| 0 <= k < i ==> list.deep_view()[k] != s@,
        decreases list.len() - i,
    {
        if list[i] == *s {
            assert(list.deep_view()[i as int] == s@);
            return true;
        }
        i += 1;
    }
    false
}

/// Knows a spreadsheet by its name.
pub struct ExcelImporter {}

/// What is known of a spreadsheet file.
#[derive(Debug, Clone)]
pub struct ExcelMetadata {
    pub filename: String,
    pub file_size: u64,
    pub sheet_count: usize,
}

impl ExcelImporter {
    pub fn new() -> (r: ExcelImporter) {
        ExcelImporter {  }
    }

    /// Whether a file of this name is a spreadsheet: its extension is
    /// `xlsx` or `xls`, in any case.
    pub fn is_excel(&self, file_name: &str) -> (b: bool)
        ensures
            b == match extension_of(file_name@) {
                Some(ext) => is_excel_extension(ext),
                None => false,
            },
    {
        match file_extension(file_name) {
            Some(ext) => eq_ignore_ascii_case(ext.as_str(), "xlsx") || eq_ignore_ascii_case(
                ext.as_str(),
                "xls",
            ),
            None => false,
        }
    }

    /// What is known of a spreadsheet file before it is opened: its name
    /// and size, and no sheet yet.
    pub fn describe(&self, filename: String, file_size: u64) -> (r: ExcelMetadata)
        ensures
            r.filename == filename,
            r.file_size == file_size,
            r.sheet_count == 0,
    {
        ExcelMetadata { filename, file_size, sheet_count: 0 }
    }
}

/// Knows a PDF by its name, and what kind of document it is.
pub struct PdfImporter {
    supported_formats: Vec<String>,
}

/// What is known of a PDF file. The time is in milliseconds since the
/// Unix epoch.
#[derive(Debug, Clone)]
pub struct PdfMetadata {
    pub id: String,
    pub path: String,
    pub filename: String,
    pub file_size: u64,
    pub document_type: String,
    pub imported_at: i64,
    pub page_count: Option<usize>,
    pub text_content: Option<String>,
}

impl PdfImporter {
    /// The extensions that are taken for a PDF, in lower case.
    pub closed spec fn formats(&self) -> Seq<Seq<char>> {
        self.supported_formats.deep_view()
    }

    pub fn new() -> (r: PdfImporter)
        ensures
            r.formats() == seq!["pdf"@],
    {
        let mut supported_formats: Vec<String> = Vec::new();
        supported_formats.push("pdf".to_owned());
        assert(supported_formats.deep_view() =~= seq!["pdf"@]);
        PdfImporter { supported_formats }
    }

    /// Whether a file of this name is a PDF: its extension in lower case
    /// is among the formats.
    pub fn is_pdf(&self, file_name: &str) -> (b: bool)
        ensures
            b == match extension_of(file_name@) {
                Some(ext) => self.formats().contains(lowercase_of(ext)),
                None => false,
            },
    {
        match file_extension(file_name) {
            Some(ext) => {
                let lower = ext.as_str().to_lowercase();
                lists(&self.supported_formats, &lower)
            },
            None => false,
        }
    }

    /// The kind of document that a file name in lower case tells of.
    pub fn classify_lowercased(&self, lower: &str) -> (r: String)
        ensures
            r@ == document_kind(lower@),
    {
        if contains(lower, "cte") || contains(lower, "ct-e") {
            "CT-e".to_owned()
        } else if contains(lower, "nfe") || contains(lower, "nf-e") {
            "NF-e".to_owned()
        } else if contains(lower, "minuta") {
            "Minuta".to_owned()
        } else if contains(lower, "comprovante") {
            "Comprovante".to_owned()
        } else if contains(lower, "embarque") {
            "Pre-Embarque".to_owned()
        } else if contains(lower, "fatura") {
            "Fatura".to_owned()
        } else if contains(lower, "relatorio") || contains(lower, "report") {
            "Relatorio".to_owned()
        } else {
            "PDF".to_owned()
        }
    }

    /// The kind of document that a file name tells of, whatever its
    /// case.
    pub fn detect_document_type(&self, filename: &str) -> (r: String)
        ensures
            r@ == document_kind(lowercase_of(filename@)),
    {
        let lower = filename.to_lowercase();
        self.classify_lowercased(lower.as_str())
    }

    /// What is known of a PDF file before it is opened: where it is, its
    /// size, and the kind of document that its name tells of.
    pub fn describe(&self, path: String, filename: String, file_size: u64) -> (r: PdfMetadata)
        ensures
            r.path == path,
            r.filename == filename,
            r.file_size == file_size,
            r.document_type@ == document_kind(lowercase_of(filename@)),
            r.page_count is None,
            r.text_content is None,
    {
        let document_type = self.detect_document_type(filename.as_str());
        let imported_at = AuditMetadata::now().created_at;
        PdfMetadata {
            id: new_id(),
            path,
            filename,
            file_size,
            document_type,
            imported_at,
            page_count: None,
            text_content: None,
        }
    }
}

/// Knows a picture by its name, and the day that its name tells of.
pub struct PhotoImporter {
    supported_formats: Vec<String>,
}

/// What is known of a picture. The time is in milliseconds since the
/// Unix epoch.
#[derive(Debug, Clone)]
pub struct PhotoMetadata {
    pub id: String,
    pub path: String,
    pub filename: String,
    pub file_size: u64,
    pub captured_at: Option<Date>,
    pub imported_at: i64,
    pub description: Option<String>,
    pub tags: Vec<String>,
}

impl PhotoImporter {
    /// The extensions that are taken for a picture, in lower case.
    pub closed spec fn formats(&self) -> Seq<Seq<char>> {
        self.supported_formats.deep_view()
    }

    pub fn new() -> (r: PhotoImporter)
        ensures
            r.formats() == seq!["png"@, "jpg"@, "jpeg"@, "bmp"@, "gif"@, "webp"@],
    {
        let mut supported_formats: Vec<String> = Vec::new();
        supported_formats.push("png".to_owned());
        supported_formats.push("jpg".to_owned());
        supported_formats.push("jpeg".to_owned());
        supported_formats.push("bmp".to_owned());
        supported_formats.push("gif".to_owned());
        supported_formats.push("webp".to_owned());
        assert(supported_formats.deep_view() =~= seq![
            "png"@,
            "jpg"@,
            "jpeg"@,
            "bmp"@,
            "gif"@,
            "webp"@,
        ]);
        PhotoImporter { supported_formats }
    }

    /// Whether a file of this name is a picture: its extension in lower
    /// case is among the formats.
    pub fn is_image(&self, file_name: &str) -> (b: bool)
        ensures
            b == match extension_of(file_name@) {
                Some(ext) => self.formats().contains(lowercase_of(ext)),
                None => false,
            },
    {
        match file_extension(file_name) {
            Some(ext) => {
                let lower = ext.as_str().to_lowercase();
                lists(&self.supported_formats, &lower)
            },
            None => false,
        }
    }

    /// The day that a file name tells of: the first `YYYY-MM-DD` in it.
    pub fn extract_date_from_filename(&self, filename: &str) -> (r: Option<Date>)
        ensures
            r == parsed_iso_date(filename@),
            r matches Some(d) ==> d.wf(),
    {
        parse_iso_date(filename)
    }

    /// What is known of a picture before it is opened: where it is, its
    /// size, and the day that its name tells of.
    pub fn describe(&self, path: String, filename: String, file_size: u64) -> (r: PhotoMetadata)
        ensures
            r.path == path,
            r.filename == filename,
            r.file_size == file_size,
            r.captured_at == parsed_iso_date(filename@),
            r.description is None,
            r.tags@.len() == 0,
    {
        let captured_at = self.extract_date_from_filename(filename.as_str());
        let imported_at = AuditMetadata::now().created_at;
        PhotoMetadata {
            id: new_id(),
            path,
            filename,
            file_size,
            captured_at,
            imported_at,
            description: None,
            tags: Vec::new(),
        }
    }
}

} // verus!
