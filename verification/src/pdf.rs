//! Exporting a file to PDF: the document handed to the browser that prints
//! it, the browser's command line, and the reply that carries the PDF.
//!
//! Writing the document, running the browser and reading the PDF back are
//! done by the caller.

use vstd::prelude::*;
use crate::html::{escape_spec, html_escape};
use crate::http::{html_response, http_response};
use crate::markdown::{markdown_spec, markdown_to_html};
use crate::number::{decimal, push_decimal};
use crate::pages::{
    ascii_lowered, extension_lowered, extension_spec, file_not_found_response, is_ascii_text,
    lower_extension, not_found_spec, part_or, part_or_default, FILE_MISSING,
};
use crate::paths::{dotted_extension, has_dotted_name, parts_of, path_parts, views, PathParts};
use crate::text::{
    append_string, chars_of, find_char, first_index_of, replace_char, replace_char_spec, str_eq,
    string_from_range, strip_prefix,
};

verus! {

/// The start of a document printed to PDF, up to its title.
pub const PDF_OPEN: &'static str = r##"<!DOCTYPE html><html><head><meta charset=utf-8><title>"##;

/// The print style sheet, between the title and the body.
pub const PDF_MIDDLE: &'static str = r##"</title><style>body{font:12pt/1.6 'Times New Roman',serif;color:#000;padding:30px;max-width:210mm;margin:auto;}pre{background:#f5f5f5;padding:12px;border-radius:4px;overflow-x:auto;white-space:pre-wrap;}table{border-collapse:collapse;width:100%;margin:12px 0;}th,td{border:1px solid #999;padding:6px 10px;}img{max-width:100%;}h1,h2,h3{page-break-after:avoid;}@media print{@page{margin:15mm 20mm;}}</style></head><body>"##;

/// The end of a document printed to PDF.
pub const PDF_CLOSE: &'static str = r##"</body></html>"##;

/// The body of the reply when the PDF could not be made.
pub const PDF_FAILED_BODY: &'static str = "<h1>500</h1><p>PDF generation failed</p>";

/// The browser that prints documents to PDF.
pub const CHROME_PATH: &'static str = r"C:\Program Files\Google\Chrome\Application\chrome.exe";

/// The file an export request names: what follows `/pdf/` up to the first
/// `?`, with `\` separators.
pub open spec fn pdf_fs_path_spec(raw: Seq<char>) -> Seq<char> {
    let rest = if "/pdf/"@.is_prefix_of(raw) {
        raw.skip(5)
    } else {
        seq![]
    };
    let clean = match first_index_of(rest, '?') {
        Some(i) => rest.take(i),
        None => rest,
    };
    replace_char_spec(clean, '/', '\\')
}

/// The file an export request names.
pub fn pdf_fs_path(raw: &str) -> (r: String)
    ensures
        r@ == pdf_fs_path_spec(raw@),
{
    proof {
        reveal_strlit("/pdf/");
        reveal_strlit("");
    }
    let rest = match strip_prefix(raw, "/pdf/") {
        Some(t) => t,
        None => String::new(),
    };
    let cs = chars_of(rest.as_str());
    let clean = match find_char(&cs, '?') {
        Some(i) => string_from_range(&cs, 0, i),
        None => string_from_range(&cs, 0, cs.len()),
    };
    assert(cs@.subrange(0, cs@.len() as int) == cs@);
    replace_char(clean.as_str(), '/', '\\')
}

/// The reply when the file to export does not exist: `404` with a way back,
/// as for a missing file to preview.
pub fn pdf_not_found_response(fs_path: &str) -> (r: String)
    ensures
        r@ == html_response(404, "Not Found"@, not_found_spec(FILE_MISSING@, fs_path@)),
{
    file_not_found_response(fs_path)
}

/// The reply when the PDF could not be made.
pub fn pdf_failure_response() -> (r: String)
    ensures
        r@ == html_response(500, "Internal Server Error"@, PDF_FAILED_BODY@),
{
    http_response(500, "Internal Server Error", PDF_FAILED_BODY)
}

/// The title of an exported document: the file name, or `document`.
pub open spec fn pdf_title_spec(parts: PathParts) -> Seq<char> {
    part_or(parts.file_name, "document"@)
}

/// The document printed to PDF: the escaped title, the print style sheet,
/// and the file rendered from Markdown (for `.md`) or escaped.
pub open spec fn pdf_document_spec(parts: PathParts, content: Seq<char>) -> Seq<char> {
    let body = if extension_spec(parts) == "md"@ {
        markdown_spec(content)
    } else {
        escape_spec(content)
    };
    PDF_OPEN@ + escape_spec(pdf_title_spec(parts)) + PDF_MIDDLE@ + body + PDF_CLOSE@
}

/// The document printed to PDF for a file with the given parts and text.
pub fn pdf_document(parts: &PathParts, content: &str) -> (r: String)
    ensures
        r@ == pdf_document_spec(*parts, content@),
        extension_lowered(*parts),
{
    let ext = lower_extension(parts);
    let body = if str_eq(ext.as_str(), "md") {
        markdown_to_html(content)
    } else {
        html_escape(content)
    };
    let title = part_or_default(&parts.file_name, "document");
    let esc = html_escape(title.as_str());
    let mut out = String::new();
    out.append(PDF_OPEN);
    append_string(&mut out, &esc);
    out.append(PDF_MIDDLE);
    append_string(&mut out, &body);
    out.append(PDF_CLOSE);
    out
}

/// The name of the temporary document of process `pid`.
pub fn pdf_temp_file_name(pid: u32) -> (r: String)
    ensures
        r@ == "md2pdf_"@ + decimal(pid as nat) + ".html"@,
{
    let mut out = String::new();
    out.append("md2pdf_");
    push_decimal(&mut out, pid as u128);
    out.append(".html");
    out
}

/// The directory the PDF is written to: the file's own directory, or `.`.
pub fn pdf_output_dir(parts: &PathParts) -> (r: String)
    ensures
        r@ == part_or(parts.parent, "."@),
{
    part_or_default(&parts.parent, ".")
}

/// The name of the PDF: the file's stem (or `output`) and `.pdf`.
pub fn pdf_output_file_name(parts: &PathParts) -> (r: String)
    ensures
        r@ == part_or(parts.file_stem, "output"@) + ".pdf"@,
{
    let mut out = part_or_default(&parts.file_stem, "output");
    out.append(".pdf");
    out
}

/// The arguments that make the browser print `html_path` to `pdf_path`.
pub fn chrome_args(pdf_path: &str, html_path: &str) -> (r: Vec<String>)
    ensures
        views(r@) == seq![
            "--headless"@,
            "--disable-gpu"@,
            "--no-margins"@,
            "--print-to-pdf="@ + pdf_path@,
            html_path@,
        ],
{
    let mut args: Vec<String> = Vec::new();
    args.push("--headless".to_owned());
    args.push("--disable-gpu".to_owned());
    args.push("--no-margins".to_owned());
    let mut print = "--print-to-pdf=".to_owned();
    print.append(pdf_path);
    args.push(print);
    args.push(html_path.to_owned());
    assert(views(args@) =~= seq![
        "--headless"@,
        "--disable-gpu"@,
        "--no-margins"@,
        "--print-to-pdf="@ + pdf_path@,
        html_path@,
    ]);
    args
}

/// The head of the reply that carries a PDF of `len` bytes, offered for
/// download under the escaped title and `.pdf`.
pub open spec fn pdf_head_spec(len: nat, parts: PathParts) -> Seq<char> {
    "HTTP/1.1 200 OK\r\nContent-Length: "@ + decimal(len)
        + "\r\nContent-Type: application/pdf\r\nContent-Disposition: attachment; filename=\""@
        + escape_spec(pdf_title_spec(parts)) + ".pdf\"\r\nConnection: close\r\n\r\n"@
}

/// The head of the reply that carries a PDF of `len` bytes.
pub fn pdf_response_head(len: usize, parts: &PathParts) -> (r: String)
    ensures
        r@ == pdf_head_spec(len as nat, *parts),
{
    let title = part_or_default(&parts.file_name, "document");
    let esc = html_escape(title.as_str());
    let mut out = String::new();
    out.append("HTTP/1.1 200 OK\r\nContent-Length: ");
    push_decimal(&mut out, len as u128);
    out.append(
        "\r\nContent-Type: application/pdf\r\nContent-Disposition: attachment; filename=\"",
    );
    append_string(&mut out, &esc);
    out.append(".pdf\"\r\nConnection: close\r\n\r\n");
    out
}

/// What an export request needs after the file was looked up and read.
pub enum PdfNext {
    /// Send this reply.
    Reply(String),
    /// Write `document` to the temporary file `temp_name`, have the browser
    /// print it to `output_name` in `output_dir`, then finish with
    /// `pdf_after_print`.
    Print {
        parts: PathParts,
        document: String,
        temp_name: String,
        output_dir: String,
        output_name: String,
    },
}

/// The printing step of an export for a file with the given parts and text,
/// from process `pid`.
pub open spec fn print_step(parts: PathParts, content: Seq<char>, pid: u32, r: PdfNext) -> bool {
    r matches PdfNext::Print { parts: p, document, temp_name, output_dir, output_name }
        && p == parts && document@ == pdf_document_spec(parts, content) && temp_name@ == "md2pdf_"@
        + decimal(pid as nat) + ".html"@ && output_dir@ == part_or(parts.parent, "."@)
        && output_name@ == part_or(parts.file_stem, "output"@) + ".pdf"@
}

/// The printing step of an export of the found file `fs_path` with text
/// `content`, for the parts `std::path` gives for it (see `print_step`).
pub open spec fn pdf_printed(fs_path: Seq<char>, content: Seq<char>, pid: u32, r: PdfNext) -> bool {
    exists|parts: PathParts|
        parts_of(fs_path, parts) && extension_lowered(parts) && #[trigger] print_step(
            parts,
            content,
            pid,
            r,
        )
}

/// The document printed holds, between the head (with some title) and the
/// end, the text rendered from Markdown when `markdown`, else the text
/// escaped.
pub open spec fn printed_as(markdown: bool, content: Seq<char>, r: PdfNext) -> bool {
    r matches PdfNext::Print { document, .. } && exists|title: Seq<char>|
        #[trigger] (PDF_OPEN@ + title) + PDF_MIDDLE@ + (if markdown {
            markdown_spec(content)
        } else {
            escape_spec(content)
        }) + PDF_CLOSE@ == document@
}

/// An exported file is printed by the real extension of its path, whatever
/// directory it is in: when the path's last name has an ASCII extension, the
/// document holds the text rendered from Markdown exactly when that
/// extension is `md` in any case, and the text escaped otherwise.
pub proof fn lemma_pdf_body_by_extension(fs_path: Seq<char>, content: Seq<char>, pid: u32, r: PdfNext)
    requires
        pdf_printed(fs_path, content, pid, r),
        has_dotted_name(fs_path),
        is_ascii_text(dotted_extension(fs_path)),
    ensures
        printed_as(ascii_lowered(dotted_extension(fs_path)) == "md"@, content, r),
{
    let parts = choose|parts: PathParts|
        parts_of(fs_path, parts) && extension_lowered(parts) && #[trigger] print_step(
            parts,
            content,
            pid,
            r,
        );
    assert(part_or(parts.extension, ""@) == dotted_extension(fs_path));
    let title = escape_spec(pdf_title_spec(parts));
    assert((PDF_OPEN@ + title) + PDF_MIDDLE@ + (if ascii_lowered(dotted_extension(fs_path))
        == "md"@ {
        markdown_spec(content)
    } else {
        escape_spec(content)
    }) + PDF_CLOSE@ == pdf_document_spec(parts, content));
}

/// The step of an export once `fs_path` was looked up: `404` with a way back
/// when it is not a file, else the document to print and where, for its
/// parts (as `std::path` splits it) and its text `content`.
pub fn pdf_step(fs_path: &str, found: bool, content: &str, pid: u32) -> (r: PdfNext)
    ensures
        !found ==> (r matches PdfNext::Reply(s) && s@ == html_response(
            404,
            "Not Found"@,
            not_found_spec(FILE_MISSING@, fs_path@),
        )),
        found ==> pdf_printed(fs_path@, content@, pid, r),
        found && has_dotted_name(fs_path@) && is_ascii_text(dotted_extension(fs_path@))
            ==> printed_as(ascii_lowered(dotted_extension(fs_path@)) == "md"@, content@, r),
{
    if !found {
        return PdfNext::Reply(pdf_not_found_response(fs_path));
    }
    let parts = path_parts(fs_path);
    let ghost gp = parts;
    let document = pdf_document(&parts, content);
    let temp_name = pdf_temp_file_name(pid);
    let output_dir = pdf_output_dir(&parts);
    let output_name = pdf_output_file_name(&parts);
    let r = PdfNext::Print { parts, document, temp_name, output_dir, output_name };
    assert(print_step(gp, content@, pid, r));
    assert(pdf_printed(fs_path@, content@, pid, r));
    proof {
        if has_dotted_name(fs_path@) && is_ascii_text(dotted_extension(fs_path@)) {
            lemma_pdf_body_by_extension(fs_path@, content@, pid, r);
        }
    }
    r
}

/// The reply once the browser has run: the head of the reply carrying the
/// PDF when one of `printed` bytes was read back, else `500`.
pub fn pdf_after_print(parts: &PathParts, printed: Option<usize>) -> (r: String)
    ensures
        match printed {
            Some(len) => r@ == pdf_head_spec(len as nat, *parts),
            None => r@ == html_response(500, "Internal Server Error"@, PDF_FAILED_BODY@),
        },
{
    match printed {
        Some(len) => pdf_response_head(len, parts),
        None => pdf_failure_response(),
    }
}

} // verus!
