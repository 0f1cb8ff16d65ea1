use mdviz::pdf::{
    chrome_args, pdf_after_print, pdf_document, pdf_failure_response, pdf_fs_path,
    pdf_not_found_response, pdf_output_dir, pdf_output_file_name, pdf_response_head, pdf_step,
    pdf_temp_file_name, PdfNext, CHROME_PATH,
};
use mdviz::paths::PathParts;

fn reference_escape(s: &str) -> String {
    s.replace('&', "&amp;").replace('<', "&lt;").replace('>', "&gt;").replace('"', "&quot;")
}

fn reference_pdf_document(title: &str, body_html: &str) -> String {
    format!(
        "<!DOCTYPE html><html><head><meta charset=utf-8><title>{}</title>\
        <style>body{{font:12pt/1.6 'Times New Roman',serif;color:#000;padding:30px;max-width:210mm;margin:auto;}}\
        pre{{background:#f5f5f5;padding:12px;border-radius:4px;overflow-x:auto;white-space:pre-wrap;}}\
        table{{border-collapse:collapse;width:100%;margin:12px 0;}}th,td{{border:1px solid #999;padding:6px 10px;}}\
        img{{max-width:100%;}}h1,h2,h3{{page-break-after:avoid;}}\
        @media print{{@page{{margin:15mm 20mm;}}}}</style></head><body>{}</body></html>",
        reference_escape(title), body_html
    )
}

fn parts(parent: Option<&str>, name: Option<&str>, ext: Option<&str>, stem: Option<&str>) -> PathParts {
    PathParts {
        parent: parent.map(|s| s.to_string()),
        file_name: name.map(|s| s.to_string()),
        extension: ext.map(|s| s.to_string()),
        file_stem: stem.map(|s| s.to_string()),
    }
}

#[test]
fn pdf_paths() {
    assert_eq!(pdf_fs_path("/pdf/D:/docs/a.md?x=1"), "D:\\docs\\a.md");
    assert_eq!(pdf_fs_path("/pdf/a/b"), "a\\b");
    assert_eq!(pdf_fs_path("/x"), "");
}

#[test]
fn pdf_documents() {
    let md = parts(Some("D:\\docs"), Some("r&d.md"), Some("Md"), Some("r&d"));
    assert_eq!(pdf_document(&md, "*hi*"), reference_pdf_document("r&d.md", "<p><em>hi</em></p>\n"));
    let txt = parts(None, None, Some("txt"), None);
    assert_eq!(pdf_document(&txt, "a<b"), reference_pdf_document("document", "a&lt;b"));
}

#[test]
fn pdf_output_names() {
    let p = parts(Some("D:\\docs"), Some("a.md"), Some("md"), Some("a"));
    assert_eq!(pdf_output_dir(&p), "D:\\docs");
    assert_eq!(pdf_output_file_name(&p), "a.pdf");
    let q = parts(None, None, None, None);
    assert_eq!(pdf_output_dir(&q), ".");
    assert_eq!(pdf_output_file_name(&q), "output.pdf");
    assert_eq!(pdf_temp_file_name(4242), "md2pdf_4242.html");
}

#[test]
fn chrome_command_line() {
    assert_eq!(CHROME_PATH, r"C:\Program Files\Google\Chrome\Application\chrome.exe");
    assert_eq!(
        chrome_args("D:\\docs\\a.pdf", "/tmp/md2pdf_1.html"),
        vec![
            "--headless".to_string(),
            "--disable-gpu".to_string(),
            "--no-margins".to_string(),
            "--print-to-pdf=D:\\docs\\a.pdf".to_string(),
            "/tmp/md2pdf_1.html".to_string(),
        ]
    );
}

#[test]
fn pdf_replies() {
    let p = parts(None, Some("a\"b.md"), None, None);
    assert_eq!(
        pdf_response_head(1234, &p),
        "HTTP/1.1 200 OK\r\nContent-Length: 1234\r\nContent-Type: application/pdf\r\nContent-Disposition: attachment; filename=\"a&quot;b.md.pdf\"\r\nConnection: close\r\n\r\n"
    );
    let missing = pdf_not_found_response("D:\\x<y>.md");
    assert!(missing.starts_with("HTTP/1.1 404 Not Found\r\n"));
    assert!(missing.contains("文件不存在: D:\\x&lt;y&gt;.md"));
    assert!(missing.contains("<a href='javascript:history.back()'"));
    assert!(pdf_failure_response().starts_with("HTTP/1.1 500 Internal Server Error\r\n"));
    assert!(pdf_failure_response().ends_with("<h1>500</h1><p>PDF generation failed</p>"));
}

#[test]
fn pdf_steps() {
    match pdf_step("gone.md", false, "", 7) {
        PdfNext::Reply(r) => {
            assert_eq!(r, pdf_not_found_response("gone.md"));
            assert!(r.contains("history.back()"));
        }
        _ => panic!("expected a reply"),
    }
    match pdf_step("notes.MD", true, "# T", 99) {
        PdfNext::Print { parts, document, temp_name, output_dir, output_name } => {
            assert_eq!(parts.file_name.as_deref(), Some("notes.MD"));
            assert_eq!(document, reference_pdf_document("notes.MD", "<h1>T</h1>\n"));
            assert_eq!(temp_name, "md2pdf_99.html");
            assert_eq!(output_dir, "");
            assert_eq!(output_name, "notes.pdf");
        }
        _ => panic!("expected a print step"),
    }
    let p = parts(None, Some("a.md"), Some("md"), Some("a"));
    assert_eq!(pdf_after_print(&p, Some(10)), pdf_response_head(10, &p));
    assert_eq!(pdf_after_print(&p, None), pdf_failure_response());
}
