//! The HTML pages: directory pages, file previews and the error pages.

use vstd::prelude::*;
use crate::html::{escape_spec, html_escape};
use crate::http::{html_response, http_response};
use crate::markdown::{markdown_spec, markdown_to_html};
use crate::number::{format_size, format_size_spec};
use crate::paths::{dotted_extension, has_dotted_name, parts_of, path_parts, PathParts};
use crate::sidebar::{ascii_lower, is_ascii_char, lowercase, opt_view, to_lowercase};
use crate::text::{
    append_string, replace_char, replace_char_spec, str_eq, strip_prefix, trim_end_char,
    trim_end_spec, trim_start_char, trim_start_spec,
};
use crate::url::{url_encode_path, url_encode_spec};

verus! {

/// The start of every page, up to its title.
pub const PAGE_OPEN: &'static str = r##"<!DOCTYPE html><html lang="zh-CN"><head><meta charset="utf-8">
        <title>"##;

/// The rest of a directory page's head (styles and scripts), up to the sidebar.
pub const LIST_HEAD: &'static str = r##"</title>
        <style>
        * {margin:0;padding:0;box-sizing:border-box;}
        body {display:flex;height:100vh;font:15px/1.6 -apple-system,sans-serif;background:var(--bg);color:var(--fg);}
        .sidebar {width:260px;min-width:260px;background:var(--sidebar-bg);overflow-y:auto;border-right:1px solid var(--sidebar-bg);padding:8px;}
        .entry a {display:block;padding:4px 8px;border-radius:4px;text-decoration:none;color:var(--fg);font-size:13px;}
        .entry a:hover {background:var(--sidebar-hover);}
        .entry.up {margin-bottom:6px;border-bottom:1px solid var(--sidebar-bg);padding-bottom:6px;}
        .main {flex:1;display:flex;flex-direction:column;overflow:hidden;}
        .toolbar {display:flex;align-items:center;gap:8px;padding:6px 12px;background:var(--toolbar-bg);border-bottom:1px solid var(--sidebar-bg);flex-wrap:wrap;}
        .toolbar button {padding:4px 10px;border:1px solid var(--sidebar-bg);border-radius:4px;background:var(--toolbar-bg);color:var(--fg);cursor:pointer;font-size:13px;}
        .toolbar button:hover {background:var(--sidebar-hover);}
        .theme-group {display:flex;gap:2px;}
        .theme-group button {width:26px;height:26px;padding:0;border-radius:50%;font-size:10px;line-height:26px;text-align:center;border:1px solid var(--sidebar-bg);}
        .nav-input {display:flex;flex:1;gap:4px;}
        .nav-input input {flex:1;padding:4px 8px;border:1px solid var(--sidebar-bg);border-radius:4px;font-size:13px;background:var(--toolbar-bg);color:var(--fg);}
        .content {flex:1;overflow-y:auto;padding:20px 30px;max-width:900px;}
        .content h1 {font-size:22px;margin:0 0 12px;}
        .content h2 {font-size:18px;margin:16px 0 8px;border-bottom:1px solid var(--sidebar-bg);padding-bottom:4px;}
        .content h3 {font-size:16px;margin:12px 0 6px;}
        .content p,li {margin:6px 0;line-height:1.7;}
        .content pre {background:var(--code-bg);padding:12px;border-radius:6px;overflow-x:auto;font-size:13px;}
        .content code {font-family:'Cascadia Code','JetBrains Mono',monospace;font-size:13px;}
        .content table {border-collapse:collapse;width:100%;margin:12px 0;}
        .content th,.content td {border:1px solid var(--table-border);padding:6px 10px;text-align:left;}
        .content th {background:var(--table-header);font-weight:600;}
        .content img {max-width:100%;border-radius:4px;}
        .content a {color:var(--accent);}
        .content blockquote {border-left:3px solid var(--accent);padding:4px 12px;margin:8px 0;background:var(--code-bg);border-radius:0 4px 4px 0;}
        .empty-preview {display:flex;flex-direction:column;align-items:center;justify-content:center;height:60vh;color:var(--muted);}
        .empty-icon {font-size:64px;margin-bottom:16px;opacity:0.5;}
        .empty-text {font-size:18px;color:var(--muted);margin-bottom:8px;}
        .empty-hint {font-size:13px;color:var(--muted);}
        .footer {padding:8px 30px;font-size:12px;color:var(--muted);border-top:1px solid var(--sidebar-bg);}
        @media print {.sidebar,.toolbar,.footer {display:none!important;}}
        </style>
        <script>
        var themes={light:{bg:'#fafafa',fg:'#2c3e50',side:'#eef0f4',accent:'#e94560',muted:'#999',code:'#f5f5f5',tbl:'#ddd',thdr:'#eee'},
                        dark:{bg:'#1e1e2e',fg:'#cdd6f4',side:'#181825',accent:'#89b4fa',muted:'#6c7086',code:'#313244',tbl:'#45475a',thdr:'#313244'},
                        sepia:{bg:'#fbf3e8',fg:'#5b4636',side:'#efe4d0',accent:'#aa6f3d',muted:'#b8956a',code:'#e8dcc8',tbl:'#d4c5a9',thdr:'#e0d0b8'},
                        sepiadark:{bg:'#2b2416',fg:'#d4b88c',side:'#1f1a10',accent:'#e6a65d',muted:'#8a7355',code:'#3a3020',tbl:'#4a3d28',thdr:'#3a3020'}};
        function exportPDF(){
            var path=window.location.pathname;
            var active=document.querySelector('.entry.active a');
            if(active)path=active.getAttribute('href');
            var pdfUrl='/pdf'+path;
            var a=document.createElement('a');
            a.href=pdfUrl; a.download='';
            document.body.appendChild(a); a.click();
            document.body.removeChild(a);
        }
        function exportHTML(){
            var c=document.querySelector('.content');
            if(!c)c=document.body;
            var clone=document.documentElement.cloneNode(true);
            var toRm=clone.querySelector('.sidebar,.toolbar,.footer');
            if(toRm)toRm.remove();
            var h='<!DOCTYPE html>'+clone.outerHTML;
            var b=new Blob([h],{type:'text/html'});
            var u=URL.createObjectURL(b);var a=document.createElement('a');
            a.href=u;a.download=document.title.replace(/[<>:"/\\\\|?*]/g,'_')+'.html';
            document.body.appendChild(a);a.click();
            document.body.removeChild(a);URL.revokeObjectURL(u);
        }
        function exportDOC(){
            var c=document.querySelector('.content');
            if(!c)c=document.body;
            var t=localStorage.getItem('theme')||'light';
            var th=themes[t];
            var s='<style>body{font:14px/1.6 -apple-system,sans-serif;padding:20px 30px;max-width:900px;margin:0 auto;background:'+th.bg+';color:'+th.fg+';}'+
                'pre,code{font-family:monospace;font-size:13px;}'+
                'pre{background:'+th.code+';padding:12px;border-radius:4px;overflow-x:auto;}'+
                'table{border-collapse:collapse;width:100%;margin:12px 0;}'+
                'th,td{border:1px solid '+th.tbl+';padding:6px 10px;text-align:left;}'+
                'th{background:'+th.thdr+';font-weight:600;}'+
                'a{color:'+th.accent+';text-decoration:none;}'+
                'img{max-width:100%;border-radius:4px;}'+
                '</style>';
            var h='<html><meta charset=utf-8><head>'+s+'</head><body>'+c.innerHTML+'</body></html>';
            var b=new Blob([h],{type:'application/msword'});
            var u=URL.createObjectURL(b);var a=document.createElement('a');
            a.href=u;a.download=document.title.replace(/[<>:"/\\|?*]/g,'_')+'.doc';
            document.body.appendChild(a);a.click();
            document.body.removeChild(a);URL.revokeObjectURL(u);
        }
        function applyTheme(){
            var t=localStorage.getItem('theme')||'light';
            var th=themes[t]||themes.light;
            var r=document.documentElement.style;
            r.setProperty('--bg',th.bg);r.setProperty('--fg',th.fg);
            r.setProperty('--sidebar-bg',th.side);
            r.setProperty('--sidebar-hover','color-mix(in srgb,'+th.side+' 80%, '+th.fg+')');
            r.setProperty('--accent',th.accent);r.setProperty('--muted',th.muted);
            r.setProperty('--code-bg',th.code);r.setProperty('--table-border',th.tbl);
            r.setProperty('--table-header',th.thdr);
        }
        applyTheme();
        </script>
        </head><body>
        "##;

/// The rest of a file page's head (styles and scripts), up to the sidebar.
pub const FILE_HEAD: &'static str = r##"</title>
        <style>
        * {margin:0;padding:0;box-sizing:border-box;}
        body {display:flex;height:100vh;font:15px/1.6 -apple-system,sans-serif;background:var(--bg);color:var(--fg);}
        .sidebar {width:260px;min-width:260px;background:var(--sidebar-bg);overflow-y:auto;border-right:1px solid var(--sidebar-bg);padding:8px;}
        .sidebar-header {padding:8px;font-weight:bold;font-size:14px;color:var(--fg);border-bottom:1px solid var(--sidebar-bg);margin-bottom:8px;}
        .entry a {display:block;padding:4px 8px;border-radius:4px;text-decoration:none;color:var(--fg);font-size:13px;}
        .entry a:hover {background:var(--sidebar-hover);}
        .entry.up {margin-bottom:6px;border-bottom:1px solid var(--sidebar-bg);padding-bottom:6px;}
        .main {flex:1;display:flex;flex-direction:column;overflow:hidden;}
        .toolbar {display:flex;align-items:center;gap:8px;padding:6px 12px;background:var(--toolbar-bg);border-bottom:1px solid var(--sidebar-bg);flex-wrap:wrap;}
        .toolbar button {padding:4px 10px;border:1px solid var(--sidebar-bg);border-radius:4px;background:var(--toolbar-bg);color:var(--fg);cursor:pointer;font-size:13px;}
        .toolbar button:hover {background:var(--sidebar-hover);}
        .theme-group {display:flex;gap:2px;}
        .theme-group button {width:26px;height:26px;padding:0;border-radius:50%;font-size:10px;line-height:26px;text-align:center;border:1px solid var(--sidebar-bg);}
        .nav-input {display:flex;flex:1;gap:4px;}
        .nav-input input {flex:1;padding:4px 8px;border:1px solid var(--sidebar-bg);border-radius:4px;font-size:13px;background:var(--toolbar-bg);color:var(--fg);}
        .content {flex:1;overflow-y:auto;padding:20px 30px;max-width:900px;}
        .content h1 {font-size:22px;margin:0 0 12px;}
        .content h2 {font-size:18px;margin:16px 0 8px;border-bottom:1px solid var(--sidebar-bg);padding-bottom:4px;}
        .content h3 {font-size:16px;margin:12px 0 6px;}
        .content p,li {margin:6px 0;line-height:1.7;}
        .content pre {background:var(--code-bg);padding:12px;border-radius:6px;overflow-x:auto;font-size:13px;}
        .content code {font-family:'Cascadia Code','JetBrains Mono',monospace;font-size:13px;}
        .content table {border-collapse:collapse;width:100%;margin:12px 0;}
        .content th,.content td {border:1px solid var(--table-border);padding:6px 10px;text-align:left;}
        .content th {background:var(--table-header);font-weight:600;}
        .content img {max-width:100%;border-radius:4px;}
        .content a {color:var(--accent);}
        .content blockquote {border-left:3px solid var(--accent);padding:4px 12px;margin:8px 0;background:var(--code-bg);border-radius:0 4px 4px 0;}
        .nav a {color:var(--accent);text-decoration:none;}
        .footer {padding:8px 30px;font-size:12px;color:var(--muted);border-top:1px solid var(--sidebar-bg);}
        @media print {.sidebar,.toolbar,.footer {display:none!important;}}
        </style>
        <script>
        var themes={light:{bg:'#fafafa',fg:'#2c3e50',side:'#eef0f4',accent:'#e94560',muted:'#999',code:'#f5f5f5',tbl:'#ddd',thdr:'#eee'},
                        dark:{bg:'#1e1e2e',fg:'#cdd6f4',side:'#181825',accent:'#89b4fa',muted:'#6c7086',code:'#313244',tbl:'#45475a',thdr:'#313244'},
                        sepia:{bg:'#fbf3e8',fg:'#5b4636',side:'#efe4d0',accent:'#aa6f3d',muted:'#b8956a',code:'#e8dcc8',tbl:'#d4c5a9',thdr:'#e0d0b8'},
                        sepiadark:{bg:'#2b2416',fg:'#d4b88c',side:'#1f1a10',accent:'#e6a65d',muted:'#8a7355',code:'#3a3020',tbl:'#4a3d28',thdr:'#3a3020'}};
        function exportPDF(){
            var path=window.location.pathname;
            var active=document.querySelector('.entry.active a');
            if(active)path=active.getAttribute('href');
            var pdfUrl='/pdf'+path;
            var a=document.createElement('a');
            a.href=pdfUrl; a.download='';
            document.body.appendChild(a); a.click();
            document.body.removeChild(a);
        }
        function exportHTML(){
            var c=document.querySelector('.content');
            if(!c)c=document.body;
            var clone=document.documentElement.cloneNode(true);
            var sidebar=clone.querySelector('.sidebar');
            var toolbar=clone.querySelector('.toolbar');
            var footer=clone.querySelector('.footer');
            if(sidebar)sidebar.remove();if(toolbar)toolbar.remove();if(footer)footer.remove();
            var h='<!DOCTYPE html>'+clone.outerHTML;
            var b=new Blob([h],{type:'text/html'});
            var u=URL.createObjectURL(b);var a=document.createElement('a');
            a.href=u;a.download=document.title.replace(/[<>:"/\\\\|?*]/g,'_')+'.html';
            document.body.appendChild(a);a.click();
            document.body.removeChild(a);URL.revokeObjectURL(u);
        }
        function exportDOC(){
            var c=document.querySelector('.content');
            if(!c)c=document.body;
            var t=localStorage.getItem('theme')||'light';
            var th=themes[t];
            var s='<style>body{font:14px/1.6 -apple-system,sans-serif;padding:20px 30px;max-width:900px;margin:0 auto;background:'+th.bg+';color:'+th.fg+';}'+
                'pre,code{font-family:monospace;font-size:13px;}'+
                'pre{background:'+th.code+';padding:12px;border-radius:4px;overflow-x:auto;}'+
                'table{border-collapse:collapse;width:100%;margin:12px 0;}'+
                'th,td{border:1px solid '+th.tbl+';padding:6px 10px;text-align:left;}'+
                'th{background:'+th.thdr+';font-weight:600;}'+
                'a{color:'+th.accent+';text-decoration:none;}'+
                'img{max-width:100%;border-radius:4px;}'+
                '</style>';
            var h='<html><meta charset=utf-8><head>'+s+'</head><body>'+c.innerHTML+'</body></html>';
            var b=new Blob([h],{type:'application/msword'});
            var u=URL.createObjectURL(b);var a=document.createElement('a');
            a.href=u;a.download=document.title.replace(/[<>:"/\\|?*]/g,'_')+'.doc';
            document.body.appendChild(a);a.click();
            document.body.removeChild(a);URL.revokeObjectURL(u);
        }
        function applyTheme(){
            var t=localStorage.getItem('theme')||'light';
            var th=themes[t]||themes.light;
            var r=document.documentElement.style;
            r.setProperty('--bg',th.bg);r.setProperty('--fg',th.fg);
            r.setProperty('--sidebar-bg',th.side);
            r.setProperty('--sidebar-hover','color-mix(in srgb,'+th.side+' 80%, '+th.fg+')');
            r.setProperty('--accent',th.accent);r.setProperty('--muted',th.muted);
            r.setProperty('--code-bg',th.code);r.setProperty('--table-border',th.tbl);
            r.setProperty('--table-header',th.thdr);
        }
        applyTheme();
        </script>
        </head><body>
        "##;

/// The toolbar, up to the value of the path box.
pub const TOOLBAR_OPEN: &'static str = r##"
        <div class='main'>
        <div class='toolbar'>
            <button onclick='exportPDF()' title='导出为PDF(完整页面)'>📥 PDF</button>
            <button onclick='exportHTML()' title='导出为HTML文件'>📄 HTML</button>
            <button onclick='exportDOC()' title='导出为Word(.doc)'>📄 DOC</button>
            <div class='nav-input'>
                <input id='navPath' type='text' placeholder='输入路径如 C:\\' value='"##;

/// The rest of the toolbar, up to the content.
pub const TOOLBAR_CLOSE: &'static str = r##"' onkeydown="if(event.key==='Enter'){window.location.href='/navigate?path='+encodeURIComponent(this.value)}"/>
                <button onclick="window.location.href='/navigate?path='+encodeURIComponent(document.getElementById('navPath').value)">跳转</button>
            </div>
            <div class='theme-group'>
                <button onclick="localStorage.setItem('theme','light');applyTheme()" style='background:#fafafa;color:#2c3e50;border:1px solid #ddd;' title='亮色'>☀</button>
                <button onclick="localStorage.setItem('theme','dark');applyTheme()" style='background:#1a1a2e;color:#e6e6e6;' title='暗色'>🌙</button>
                <button onclick="localStorage.setItem('theme','sepia');applyTheme()" style='background:#efe4d0;color:#5b4636;' title='羊皮纸'>📜</button>
                <button onclick="localStorage.setItem('theme','sepiadark');applyTheme()" style='background:#1f1a10;color:#d4b88c;' title='暗羊皮纸'>🌃</button>
            </div>
        </div>
        <div class='content'>"##;

/// The end of a directory page.
pub const LIST_PAGE_END: &'static str = r##"</div>
        </div></body></html>"##;

/// The end of a file page's content, before the footer.
pub const FILE_CONTENT_END: &'static str = r##"</div>
        "##;

/// The end of a file page.
pub const FILE_PAGE_END: &'static str = r##"
        </div></body></html>"##;

/// The content of a directory page: a prompt to pick a file.
pub const EMPTY_PREVIEW: &'static str = r##"<div class='empty-preview'><div class='empty-icon'>📖</div><div class='empty-text'>请在左侧选择文件</div><div class='empty-hint'>支持 Markdown / 代码 / 文本文件预览</div></div>"##;

/// The start of a not-found page.
pub const NOT_FOUND_OPEN: &'static str = r##"<div style='text-align:center;padding:40px;font-family:sans-serif;'><h1>404</h1><p>"##;

/// The label of a missing file.
pub const FILE_MISSING: &'static str = r##"文件不存在: "##;

/// The label of a missing path.
pub const PATH_MISSING: &'static str = r##"路径不存在: "##;

/// The paragraph break before the way back.
pub const BACK_PARAGRAPH: &'static str = r##"</p><p>"##;

/// The link back to the previous page.
pub const BACK_LINK: &'static str = r##"<a href='javascript:history.back()'"##;

/// The rest of the link back, and the end of a not-found page.
pub const BACK_LINK_REST: &'static str = r##" style='color:#e94560;text-decoration:none;font-size:16px;'>↩ 返回</a></p></div>"##;

/// The start of the frame that shows an HTML file.
pub const IFRAME_OPEN: &'static str = r##"<iframe srcdoc=""##;

/// The end of that frame.
pub const IFRAME_CLOSE: &'static str = r##"" style='width:100%;height:calc(100vh - 44px);border:none;background:#fff;' sandbox='allow-scripts'></iframe>"##;

/// The body of the reply to a file of a kind that is not shown.
pub const FORBIDDEN_BODY: &'static str = r##"<h1>403</h1><p>不支持的文件类型</p>"##;

/// The start of a file page's footer.
pub const FOOTER_OPEN: &'static str = r##"<div class='footer'>"##;

/// Between the file's name and size in the footer.
pub const FOOTER_SEPARATOR: &'static str = r##" &middot; "##;

/// The end of the footer.
pub const FOOTER_CLOSE: &'static str = r##"</div>"##;

/// The link back to the directory of a source file, up to its target.
pub const CODE_NAV_OPEN: &'static str = r##"<div class='nav'><a href='/list/"##;

/// The rest of that link and the start of the code block, up to its language.
pub const CODE_NAV_CLOSE: &'static str = r##"/'>↩ 返回目录</a></div>
            <pre><code class='language-"##;

/// The end of the code block's opening tags.
pub const CODE_OPEN: &'static str = r##"'>"##;

/// The end of the code block.
pub const CODE_CLOSE: &'static str = r##"</code></pre>"##;

/// The directory a directory page shows: nothing for `/` and `/list/`, else
/// what follows `/list/` without trailing slashes.
pub open spec fn list_current_spec(raw: Seq<char>) -> Seq<char> {
    if raw == "/"@ || raw == "/list/"@ {
        seq![]
    } else if "/list/"@.is_prefix_of(raw) {
        trim_end_spec(raw.skip(6), '/')
    } else {
        seq![]
    }
}

/// A directory page: title and path box hold the escaped directory.
pub open spec fn list_page_spec(current: Seq<char>, sidebar: Seq<char>) -> Seq<char> {
    PAGE_OPEN@ + escape_spec(current) + LIST_HEAD@ + sidebar + TOOLBAR_OPEN@ + escape_spec(current)
        + TOOLBAR_CLOSE@ + EMPTY_PREVIEW@ + LIST_PAGE_END@
}

/// The directory that the request path of a directory page names.
pub fn list_current_path(raw: &str) -> (r: String)
    ensures
        r@ == list_current_spec(raw@),
{
    proof {
        reveal_strlit("/list/");
        reveal_strlit("");
        assert("/list/"@.len() == 6);
        assert(trim_end_spec(""@, '/') == ""@);
    }
    if str_eq(raw, "/") || str_eq(raw, "/list/") {
        String::new()
    } else {
        match strip_prefix(raw, "/list/") {
            Some(rest) => trim_end_char(rest.as_str(), '/'),
            None => trim_end_char("", '/'),
        }
    }
}

/// The directory page of `current` with the given sidebar.
pub fn list_page(current: &str, sidebar: &str) -> (r: String)
    ensures
        r@ == list_page_spec(current@, sidebar@),
{
    let esc = html_escape(current);
    let mut out = String::new();
    out.append(PAGE_OPEN);
    append_string(&mut out, &esc);
    out.append(LIST_HEAD);
    out.append(sidebar);
    out.append(TOOLBAR_OPEN);
    append_string(&mut out, &esc);
    out.append(TOOLBAR_CLOSE);
    out.append(EMPTY_PREVIEW);
    out.append(LIST_PAGE_END);
    out
}

/// The reply to a directory request: `200 OK` with the directory page.
pub fn list_response(current: &str, sidebar: &str) -> (r: String)
    ensures
        r@ == html_response(200, "OK"@, list_page_spec(current@, sidebar@)),
{
    let page = list_page(current, sidebar);
    http_response(200, "OK", page.as_str())
}

/// A not-found page: the label, the escaped path, and a link back.
pub open spec fn not_found_spec(label: Seq<char>, path: Seq<char>) -> Seq<char> {
    NOT_FOUND_OPEN@ + label + escape_spec(path) + BACK_PARAGRAPH@ + BACK_LINK@ + BACK_LINK_REST@
}

/// The not-found page for a path, with a label.
fn not_found_page(label: &str, path: &str) -> (r: String)
    ensures
        r@ == not_found_spec(label@, path@),
{
    let mut out = String::new();
    out.append(NOT_FOUND_OPEN);
    out.append(label);
    let esc = html_escape(path);
    append_string(&mut out, &esc);
    out.append(BACK_PARAGRAPH);
    out.append(BACK_LINK);
    out.append(BACK_LINK_REST);
    out
}

/// Every not-found page (those of a missing file, of a missing file to
/// export and of a missing path to go to) offers the link back to the
/// previous page.
pub proof fn lemma_not_found_links_back(label: Seq<char>, path: Seq<char>)
    ensures
        crate::paths::is_piece_of(BACK_LINK@, not_found_spec(label, path)),
{
    let page = not_found_spec(label, path);
    let i = (NOT_FOUND_OPEN@ + label + escape_spec(path) + BACK_PARAGRAPH@).len() as int;
    assert(page == (NOT_FOUND_OPEN@ + label + escape_spec(path) + BACK_PARAGRAPH@) + BACK_LINK@
        + BACK_LINK_REST@);
    assert(page.skip(i).subrange(0, BACK_LINK@.len() as int) == BACK_LINK@);
}

/// The file a preview request names: the request path without leading
/// slashes, with `\` separators.
pub open spec fn file_fs_path_spec(raw: Seq<char>) -> Seq<char> {
    replace_char_spec(trim_start_spec(raw, '/'), '/', '\\')
}

/// The file a preview request names.
pub fn file_fs_path(raw: &str) -> (r: String)
    ensures
        r@ == file_fs_path_spec(raw@),
{
    let clean = trim_start_char(raw, '/');
    replace_char(clean.as_str(), '/', '\\')
}

/// The reply when the requested file does not exist: `404` with a way back.
pub fn file_not_found_response(fs_path: &str) -> (r: String)
    ensures
        r@ == html_response(404, "Not Found"@, not_found_spec(FILE_MISSING@, fs_path@)),
{
    let page = not_found_page(FILE_MISSING, fs_path);
    http_response(404, "Not Found", page.as_str())
}

/// The reply to a file of a kind that is not shown.
pub fn forbidden_response() -> (r: String)
    ensures
        r@ == html_response(403, "Forbidden"@, FORBIDDEN_BODY@),
{
    http_response(403, "Forbidden", FORBIDDEN_BODY)
}

/// How a file is shown, by its lower-cased extension.
pub enum FileKind {
    /// Rendered from Markdown.
    Markdown,
    /// Shown in a sandboxed frame.
    Html,
    /// Shown as a code block.
    Code,
    /// Not shown.
    Unsupported,
}

/// The kind of a file with the lower-cased extension `ext`.
pub open spec fn kind_of_extension(ext: Seq<char>) -> FileKind {
    if ext == "md"@ {
        FileKind::Markdown
    } else if ext == "html"@ {
        FileKind::Html
    } else if ext == "json"@ || ext == "py"@ || ext == "log"@ || ext == "txt"@ || ext == "rs"@
        || ext == "toml"@ || ext == "yaml"@ || ext == "yml"@ || ext == "js"@ || ext == "css"@ {
        FileKind::Code
    } else {
        FileKind::Unsupported
    }
}

/// The kind of a file with the lower-cased extension `ext`.
pub fn file_kind(ext: &str) -> (r: FileKind)
    ensures
        r == kind_of_extension(ext@),
{
    if str_eq(ext, "md") {
        FileKind::Markdown
    } else if str_eq(ext, "html") {
        FileKind::Html
    } else if str_eq(ext, "json") || str_eq(ext, "py") || str_eq(ext, "log") || str_eq(ext, "txt")
        || str_eq(ext, "rs") || str_eq(ext, "toml") || str_eq(ext, "yaml") || str_eq(ext, "yml")
        || str_eq(ext, "js") || str_eq(ext, "css") {
        FileKind::Code
    } else {
        FileKind::Unsupported
    }
}

/// The text of an optional part, or a default.
pub open spec fn part_or(o: Option<String>, d: Seq<char>) -> Seq<char> {
    match o {
        Some(s) => s@,
        None => d,
    }
}

/// The text of an optional part, or a default.
pub fn part_or_default(o: &Option<String>, d: &str) -> (r: String)
    ensures
        r@ == part_or(*o, d@),
{
    match o {
        Some(s) => s.clone(),
        None => d.to_owned(),
    }
}

/// The lower-cased extension of a file, from its parts.
pub open spec fn extension_spec(parts: PathParts) -> Seq<char> {
    lowercase(part_or(parts.extension, ""@))
}

/// Whether every character of `e` is ASCII.
pub open spec fn is_ascii_text(e: Seq<char>) -> bool {
    forall|i: int| 0 <= i < e.len() ==> is_ascii_char(#[trigger] e[i])
}

/// The ASCII lower-casing of `e`: `A` to `Z` become `a` to `z`.
pub open spec fn ascii_lowered(e: Seq<char>) -> Seq<char> {
    e.map_values(|c: char| ascii_lower(c))
}

/// The lower-cased extension of `parts`, when ASCII, is its ASCII
/// lower-casing.
pub open spec fn extension_lowered(parts: PathParts) -> bool {
    let e = part_or(parts.extension, ""@);
    is_ascii_text(e) ==> extension_spec(parts) == ascii_lowered(e)
}

/// The lower-cased extension of a file, from its parts.
pub fn lower_extension(parts: &PathParts) -> (r: String)
    ensures
        r@ == extension_spec(*parts),
        extension_lowered(*parts),
        ({
            let e = part_or(parts.extension, ""@);
            (forall|i: int| 0 <= i < e.len() ==> is_ascii_char(#[trigger] e[i])) ==> r@
                == e.map_values(|c: char| ascii_lower(c))
        }),
{
    let ext = part_or_default(&parts.extension, "");
    to_lowercase(ext.as_str())
}

/// The content shown for a file, or nothing for a kind that is not shown.
pub open spec fn file_body_spec(parts: PathParts, content: Seq<char>) -> Option<Seq<char>> {
    let ext = extension_spec(parts);
    match kind_of_extension(ext) {
        FileKind::Markdown => Some(markdown_spec(content)),
        FileKind::Html => Some(IFRAME_OPEN@ + escape_spec(content) + IFRAME_CLOSE@),
        FileKind::Code => Some(
            CODE_NAV_OPEN@ + url_encode_spec(replace_char_spec(part_or(parts.parent, ""@), '\\', '/'))
                + CODE_NAV_CLOSE@ + ext + CODE_OPEN@ + escape_spec(content) + CODE_CLOSE@,
        ),
        FileKind::Unsupported => None,
    }
}

/// The content shown for a file with the given parts and text: Markdown
/// rendered, HTML in a sandboxed frame, source and text files as an escaped
/// code block under a link to their directory; nothing for other kinds.
pub fn file_body(parts: &PathParts, content: &str) -> (r: Option<String>)
    ensures
        opt_view(r) == file_body_spec(*parts, content@),
        extension_lowered(*parts),
{
    let ext = lower_extension(parts);
    match file_kind(ext.as_str()) {
        FileKind::Markdown => Some(markdown_to_html(content)),
        FileKind::Html => {
            let mut out = String::new();
            out.append(IFRAME_OPEN);
            let esc = html_escape(content);
            append_string(&mut out, &esc);
            out.append(IFRAME_CLOSE);
            Some(out)
        },
        FileKind::Code => {
            let dir = part_or_default(&parts.parent, "");
            let link = replace_char(dir.as_str(), '\\', '/');
            let enc = url_encode_path(link.as_str());
            let esc = html_escape(content);
            let mut out = String::new();
            out.append(CODE_NAV_OPEN);
            append_string(&mut out, &enc);
            out.append(CODE_NAV_CLOSE);
            append_string(&mut out, &ext);
            out.append(CODE_OPEN);
            append_string(&mut out, &esc);
            out.append(CODE_CLOSE);
            Some(out)
        },
        FileKind::Unsupported => None,
    }
}

/// The directory of a file, whose sidebar the file page shows.
pub fn file_dir(parts: &PathParts) -> (r: String)
    ensures
        r@ == part_or(parts.parent, ""@),
{
    part_or_default(&parts.parent, "")
}

/// A file page: the escaped file name as title, the sidebar, the file's
/// directory (escaped, `/` separators) in the path box, the content, and a
/// footer with the name and size.
pub open spec fn file_page_spec(parts: PathParts, body: Seq<char>, size: u64, sidebar: Seq<char>) -> Seq<char> {
    let name = part_or(parts.file_name, "file"@);
    let list_link = replace_char_spec(part_or(parts.parent, ""@), '\\', '/');
    PAGE_OPEN@ + escape_spec(name) + FILE_HEAD@ + sidebar + TOOLBAR_OPEN@ + escape_spec(list_link)
        + TOOLBAR_CLOSE@ + body + FILE_CONTENT_END@ + FOOTER_OPEN@ + name + FOOTER_SEPARATOR@
        + format_size_spec(size) + FOOTER_CLOSE@ + FILE_PAGE_END@
}

/// The page of a file with the given parts, shown content, size in bytes
/// and sidebar.
pub fn file_page(parts: &PathParts, body: &str, size: u64, sidebar: &str) -> (r: String)
    ensures
        r@ == file_page_spec(*parts, body@, size, sidebar@),
{
    let name = part_or_default(&parts.file_name, "file");
    let dir = part_or_default(&parts.parent, "");
    let list_link = replace_char(dir.as_str(), '\\', '/');
    let title = html_escape(name.as_str());
    let path_esc = html_escape(list_link.as_str());
    let size_text = format_size(size);
    let mut out = String::new();
    out.append(PAGE_OPEN);
    append_string(&mut out, &title);
    out.append(FILE_HEAD);
    out.append(sidebar);
    out.append(TOOLBAR_OPEN);
    append_string(&mut out, &path_esc);
    out.append(TOOLBAR_CLOSE);
    out.append(body);
    out.append(FILE_CONTENT_END);
    out.append(FOOTER_OPEN);
    append_string(&mut out, &name);
    out.append(FOOTER_SEPARATOR);
    append_string(&mut out, &size_text);
    out.append(FOOTER_CLOSE);
    out.append(FILE_PAGE_END);
    out
}

/// The reply to a file preview: `200 OK` with the file page.
pub fn file_response(parts: &PathParts, body: &str, size: u64, sidebar: &str) -> (r: String)
    ensures
        r@ == html_response(200, "OK"@, file_page_spec(*parts, body@, size, sidebar@)),
{
    let page = file_page(parts, body, size, sidebar);
    http_response(200, "OK", page.as_str())
}

/// What a file preview needs after the file was looked up and read.
pub enum FileNext {
    /// Send this reply.
    Reply(String),
    /// Show the file: render the sidebar of `dir`, then send
    /// `file_response(parts, body, size, sidebar)`.
    Show { parts: PathParts, body: String, dir: String },
}

/// The step of a file preview for a file with the given parts and text:
/// `403` for a kind that is not shown, else the page's content and the
/// directory whose sidebar it shows.
pub open spec fn shown_step(parts: PathParts, content: Seq<char>, r: FileNext) -> bool {
    match file_body_spec(parts, content) {
        None => r matches FileNext::Reply(s) && s@ == html_response(
            403,
            "Forbidden"@,
            FORBIDDEN_BODY@,
        ),
        Some(b) => r matches FileNext::Show { parts: p, body, dir } && p == parts && body@ == b
            && dir@ == part_or(parts.parent, ""@),
    }
}

/// The step of a found file `fs_path` with text `content`, for the parts
/// `std::path` gives for it (see `shown_step`).
pub open spec fn file_shown(fs_path: Seq<char>, content: Seq<char>, r: FileNext) -> bool {
    exists|parts: PathParts|
        parts_of(fs_path, parts) && extension_lowered(parts) && #[trigger] shown_step(
            parts,
            content,
            r,
        )
}

/// What a file of kind `k` with text `content` is answered: `403` for a kind
/// that is not shown, else a page whose content is the Markdown rendered, the
/// HTML framed, or the source in a code block.
pub open spec fn shown_by_kind(k: FileKind, content: Seq<char>, r: FileNext) -> bool {
    match k {
        FileKind::Unsupported => r matches FileNext::Reply(s) && s@ == html_response(
            403,
            "Forbidden"@,
            FORBIDDEN_BODY@,
        ),
        FileKind::Markdown => r matches FileNext::Show { body, .. } && body@ == markdown_spec(
            content,
        ),
        FileKind::Html => r matches FileNext::Show { body, .. } && body@ == IFRAME_OPEN@
            + escape_spec(content) + IFRAME_CLOSE@,
        FileKind::Code => r is Show,
    }
}

/// A found file is answered by the real extension of its path, whatever
/// directory it is in: when the path's last name has an ASCII extension, the
/// reply is `403` exactly for a kind that is not shown, a Markdown file
/// (`.md` in any case) is rendered, an HTML file is framed, and a source or
/// text file is shown.
pub proof fn lemma_file_kind_by_extension(fs_path: Seq<char>, content: Seq<char>, r: FileNext)
    requires
        file_shown(fs_path, content, r),
        has_dotted_name(fs_path),
        is_ascii_text(dotted_extension(fs_path)),
    ensures
        shown_by_kind(kind_of_extension(ascii_lowered(dotted_extension(fs_path))), content, r),
{
    let parts = choose|parts: PathParts|
        parts_of(fs_path, parts) && extension_lowered(parts) && #[trigger] shown_step(
            parts,
            content,
            r,
        );
    assert(part_or(parts.extension, ""@) == dotted_extension(fs_path));
}

/// The step of a file preview once `fs_path` was looked up: `404` with a way
/// back when it is not a file, else the step for its parts (as `std::path`
/// splits it) and its text `content` (see `shown_step`).
pub fn file_step(fs_path: &str, found: bool, content: &str) -> (r: FileNext)
    ensures
        !found ==> (r matches FileNext::Reply(s) && s@ == html_response(
            404,
            "Not Found"@,
            not_found_spec(FILE_MISSING@, fs_path@),
        )),
        found ==> file_shown(fs_path@, content@, r),
        found && has_dotted_name(fs_path@) && is_ascii_text(dotted_extension(fs_path@))
            ==> shown_by_kind(kind_of_extension(ascii_lowered(dotted_extension(fs_path@))), content@, r),
{
    if !found {
        return FileNext::Reply(file_not_found_response(fs_path));
    }
    let parts = path_parts(fs_path);
    let ghost gp = parts;
    let r = match file_body(&parts, content) {
        None => FileNext::Reply(forbidden_response()),
        Some(body) => {
            let dir = file_dir(&parts);
            FileNext::Show { parts, body, dir }
        },
    };
    assert(shown_step(gp, content@, r));
    assert(file_shown(fs_path@, content@, r));
    proof {
        if has_dotted_name(fs_path@) && is_ascii_text(dotted_extension(fs_path@)) {
            lemma_file_kind_by_extension(fs_path@, content@, r);
        }
    }
    r
}

} // verus!
