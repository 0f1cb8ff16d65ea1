use mdviz::pages::{
    file_body, file_dir, file_fs_path, file_kind, file_not_found_response, file_page,
    file_response, file_step, forbidden_response, list_current_path, list_page, list_response,
    lower_extension, FileKind, FileNext,
};
use mdviz::paths::PathParts;

fn reference_response(status: u16, reason: &str, body: &str) -> String {
    format!(
        "HTTP/1.1 {} {}\r\nContent-Length: {}\r\nContent-Type: text/html; charset=utf-8\r\nCache-Control: no-cache, no-store, must-revalidate\r\nPragma: no-cache\r\nExpires: 0\r\nConnection: close\r\n\r\n{}",
        status, reason, body.len(), body
    )
}

const EMPTY: &str = "<div class='empty-preview'><div class='empty-icon'>📖</div><div class='empty-text'>请在左侧选择文件</div><div class='empty-hint'>支持 Markdown / 代码 / 文本文件预览</div></div>";

fn reference_list_page(sidebar: &str, path_esc: &str, content: &str) -> String {
    format!(
        r#"<!DOCTYPE html><html lang="zh-CN"><head><meta charset="utf-8">
        <title>{path_esc}</title>
        <style>
        * {{margin:0;padding:0;box-sizing:border-box;}}
        body {{display:flex;height:100vh;font:15px/1.6 -apple-system,sans-serif;background:var(--bg);color:var(--fg);}}
        .sidebar {{width:260px;min-width:260px;background:var(--sidebar-bg);overflow-y:auto;border-right:1px solid var(--sidebar-bg);padding:8px;}}
        .entry a {{display:block;padding:4px 8px;border-radius:4px;text-decoration:none;color:var(--fg);font-size:13px;}}
        .entry a:hover {{background:var(--sidebar-hover);}}
        .entry.up {{margin-bottom:6px;border-bottom:1px solid var(--sidebar-bg);padding-bottom:6px;}}
        .main {{flex:1;display:flex;flex-direction:column;overflow:hidden;}}
        .toolbar {{display:flex;align-items:center;gap:8px;padding:6px 12px;background:var(--toolbar-bg);border-bottom:1px solid var(--sidebar-bg);flex-wrap:wrap;}}
        .toolbar button {{padding:4px 10px;border:1px solid var(--sidebar-bg);border-radius:4px;background:var(--toolbar-bg);color:var(--fg);cursor:pointer;font-size:13px;}}
        .toolbar button:hover {{background:var(--sidebar-hover);}}
        .theme-group {{display:flex;gap:2px;}}
        .theme-group button {{width:26px;height:26px;padding:0;border-radius:50%;font-size:10px;line-height:26px;text-align:center;border:1px solid var(--sidebar-bg);}}
        .nav-input {{display:flex;flex:1;gap:4px;}}
        .nav-input input {{flex:1;padding:4px 8px;border:1px solid var(--sidebar-bg);border-radius:4px;font-size:13px;background:var(--toolbar-bg);color:var(--fg);}}
        .content {{flex:1;overflow-y:auto;padding:20px 30px;max-width:900px;}}
        .content h1 {{font-size:22px;margin:0 0 12px;}}
        .content h2 {{font-size:18px;margin:16px 0 8px;border-bottom:1px solid var(--sidebar-bg);padding-bottom:4px;}}
        .content h3 {{font-size:16px;margin:12px 0 6px;}}
        .content p,li {{margin:6px 0;line-height:1.7;}}
        .content pre {{background:var(--code-bg);padding:12px;border-radius:6px;overflow-x:auto;font-size:13px;}}
        .content code {{font-family:'Cascadia Code','JetBrains Mono',monospace;font-size:13px;}}
        .content table {{border-collapse:collapse;width:100%;margin:12px 0;}}
        .content th,.content td {{border:1px solid var(--table-border);padding:6px 10px;text-align:left;}}
        .content th {{background:var(--table-header);font-weight:600;}}
        .content img {{max-width:100%;border-radius:4px;}}
        .content a {{color:var(--accent);}}
        .content blockquote {{border-left:3px solid var(--accent);padding:4px 12px;margin:8px 0;background:var(--code-bg);border-radius:0 4px 4px 0;}}
        .empty-preview {{display:flex;flex-direction:column;align-items:center;justify-content:center;height:60vh;color:var(--muted);}}
        .empty-icon {{font-size:64px;margin-bottom:16px;opacity:0.5;}}
        .empty-text {{font-size:18px;color:var(--muted);margin-bottom:8px;}}
        .empty-hint {{font-size:13px;color:var(--muted);}}
        .footer {{padding:8px 30px;font-size:12px;color:var(--muted);border-top:1px solid var(--sidebar-bg);}}
        @media print {{.sidebar,.toolbar,.footer {{display:none!important;}}}}
        </style>
        <script>
        var themes={{light:{{bg:'#fafafa',fg:'#2c3e50',side:'#eef0f4',accent:'#e94560',muted:'#999',code:'#f5f5f5',tbl:'#ddd',thdr:'#eee'}},
                        dark:{{bg:'#1e1e2e',fg:'#cdd6f4',side:'#181825',accent:'#89b4fa',muted:'#6c7086',code:'#313244',tbl:'#45475a',thdr:'#313244'}},
                        sepia:{{bg:'#fbf3e8',fg:'#5b4636',side:'#efe4d0',accent:'#aa6f3d',muted:'#b8956a',code:'#e8dcc8',tbl:'#d4c5a9',thdr:'#e0d0b8'}},
                        sepiadark:{{bg:'#2b2416',fg:'#d4b88c',side:'#1f1a10',accent:'#e6a65d',muted:'#8a7355',code:'#3a3020',tbl:'#4a3d28',thdr:'#3a3020'}}}};
        function exportPDF(){{
            var path=window.location.pathname;
            var active=document.querySelector('.entry.active a');
            if(active)path=active.getAttribute('href');
            var pdfUrl='/pdf'+path;
            var a=document.createElement('a');
            a.href=pdfUrl; a.download='';
            document.body.appendChild(a); a.click();
            document.body.removeChild(a);
        }}
        function exportHTML(){{
            var c=document.querySelector('.content');
            if(!c)c=document.body;
            var clone=document.documentElement.cloneNode(true);
            var toRm=clone.querySelector('.sidebar,.toolbar,.footer');
            if(toRm)toRm.remove();
            var h='<!DOCTYPE html>'+clone.outerHTML;
            var b=new Blob([h],{{type:'text/html'}});
            var u=URL.createObjectURL(b);var a=document.createElement('a');
            a.href=u;a.download=document.title.replace(/[<>:"/\\\\|?*]/g,'_')+'.html';
            document.body.appendChild(a);a.click();
            document.body.removeChild(a);URL.revokeObjectURL(u);
        }}
        function exportDOC(){{
            var c=document.querySelector('.content');
            if(!c)c=document.body;
            var t=localStorage.getItem('theme')||'light';
            var th=themes[t];
            var s='<style>body{{font:14px/1.6 -apple-system,sans-serif;padding:20px 30px;max-width:900px;margin:0 auto;background:'+th.bg+';color:'+th.fg+';}}'+
                'pre,code{{font-family:monospace;font-size:13px;}}'+
                'pre{{background:'+th.code+';padding:12px;border-radius:4px;overflow-x:auto;}}'+
                'table{{border-collapse:collapse;width:100%;margin:12px 0;}}'+
                'th,td{{border:1px solid '+th.tbl+';padding:6px 10px;text-align:left;}}'+
                'th{{background:'+th.thdr+';font-weight:600;}}'+
                'a{{color:'+th.accent+';text-decoration:none;}}'+
                'img{{max-width:100%;border-radius:4px;}}'+
                '</style>';
            var h='<html><meta charset=utf-8><head>'+s+'</head><body>'+c.innerHTML+'</body></html>';
            var b=new Blob([h],{{type:'application/msword'}});
            var u=URL.createObjectURL(b);var a=document.createElement('a');
            a.href=u;a.download=document.title.replace(/[<>:"/\\|?*]/g,'_')+'.doc';
            document.body.appendChild(a);a.click();
            document.body.removeChild(a);URL.revokeObjectURL(u);
        }}
        function applyTheme(){{
            var t=localStorage.getItem('theme')||'light';
            var th=themes[t]||themes.light;
            var r=document.documentElement.style;
            r.setProperty('--bg',th.bg);r.setProperty('--fg',th.fg);
            r.setProperty('--sidebar-bg',th.side);
            r.setProperty('--sidebar-hover','color-mix(in srgb,'+th.side+' 80%, '+th.fg+')');
            r.setProperty('--accent',th.accent);r.setProperty('--muted',th.muted);
            r.setProperty('--code-bg',th.code);r.setProperty('--table-border',th.tbl);
            r.setProperty('--table-header',th.thdr);
        }}
        applyTheme();
        </script>
        </head><body>
        {sidebar}
        <div class='main'>
        <div class='toolbar'>
            <button onclick='exportPDF()' title='导出为PDF(完整页面)'>📥 PDF</button>
            <button onclick='exportHTML()' title='导出为HTML文件'>📄 HTML</button>
            <button onclick='exportDOC()' title='导出为Word(.doc)'>📄 DOC</button>
            <div class='nav-input'>
                <input id='navPath' type='text' placeholder='输入路径如 C:\\' value='{path_esc}' onkeydown="if(event.key==='Enter'){{window.location.href='/navigate?path='+encodeURIComponent(this.value)}}"/>
                <button onclick="window.location.href='/navigate?path='+encodeURIComponent(document.getElementById('navPath').value)">跳转</button>
            </div>
            <div class='theme-group'>
                <button onclick="localStorage.setItem('theme','light');applyTheme()" style='background:#fafafa;color:#2c3e50;border:1px solid #ddd;' title='亮色'>☀</button>
                <button onclick="localStorage.setItem('theme','dark');applyTheme()" style='background:#1a1a2e;color:#e6e6e6;' title='暗色'>🌙</button>
                <button onclick="localStorage.setItem('theme','sepia');applyTheme()" style='background:#efe4d0;color:#5b4636;' title='羊皮纸'>📜</button>
                <button onclick="localStorage.setItem('theme','sepiadark');applyTheme()" style='background:#1f1a10;color:#d4b88c;' title='暗羊皮纸'>🌃</button>
            </div>
        </div>
        <div class='content'>{content}</div>
        </div></body></html>"#,
        sidebar = sidebar, path_esc = path_esc, content = content
    )
}

fn reference_file_page(title: &str, sidebar: &str, path_esc: &str, body_html: &str, footer: &str) -> String {
    format!(
        r#"<!DOCTYPE html><html lang="zh-CN"><head><meta charset="utf-8">
        <title>{title}</title>
        <style>
        * {{margin:0;padding:0;box-sizing:border-box;}}
        body {{display:flex;height:100vh;font:15px/1.6 -apple-system,sans-serif;background:var(--bg);color:var(--fg);}}
        .sidebar {{width:260px;min-width:260px;background:var(--sidebar-bg);overflow-y:auto;border-right:1px solid var(--sidebar-bg);padding:8px;}}
        .sidebar-header {{padding:8px;font-weight:bold;font-size:14px;color:var(--fg);border-bottom:1px solid var(--sidebar-bg);margin-bottom:8px;}}
        .entry a {{display:block;padding:4px 8px;border-radius:4px;text-decoration:none;color:var(--fg);font-size:13px;}}
        .entry a:hover {{background:var(--sidebar-hover);}}
        .entry.up {{margin-bottom:6px;border-bottom:1px solid var(--sidebar-bg);padding-bottom:6px;}}
        .main {{flex:1;display:flex;flex-direction:column;overflow:hidden;}}
        .toolbar {{display:flex;align-items:center;gap:8px;padding:6px 12px;background:var(--toolbar-bg);border-bottom:1px solid var(--sidebar-bg);flex-wrap:wrap;}}
        .toolbar button {{padding:4px 10px;border:1px solid var(--sidebar-bg);border-radius:4px;background:var(--toolbar-bg);color:var(--fg);cursor:pointer;font-size:13px;}}
        .toolbar button:hover {{background:var(--sidebar-hover);}}
        .theme-group {{display:flex;gap:2px;}}
        .theme-group button {{width:26px;height:26px;padding:0;border-radius:50%;font-size:10px;line-height:26px;text-align:center;border:1px solid var(--sidebar-bg);}}
        .nav-input {{display:flex;flex:1;gap:4px;}}
        .nav-input input {{flex:1;padding:4px 8px;border:1px solid var(--sidebar-bg);border-radius:4px;font-size:13px;background:var(--toolbar-bg);color:var(--fg);}}
        .content {{flex:1;overflow-y:auto;padding:20px 30px;max-width:900px;}}
        .content h1 {{font-size:22px;margin:0 0 12px;}}
        .content h2 {{font-size:18px;margin:16px 0 8px;border-bottom:1px solid var(--sidebar-bg);padding-bottom:4px;}}
        .content h3 {{font-size:16px;margin:12px 0 6px;}}
        .content p,li {{margin:6px 0;line-height:1.7;}}
        .content pre {{background:var(--code-bg);padding:12px;border-radius:6px;overflow-x:auto;font-size:13px;}}
        .content code {{font-family:'Cascadia Code','JetBrains Mono',monospace;font-size:13px;}}
        .content table {{border-collapse:collapse;width:100%;margin:12px 0;}}
        .content th,.content td {{border:1px solid var(--table-border);padding:6px 10px;text-align:left;}}
        .content th {{background:var(--table-header);font-weight:600;}}
        .content img {{max-width:100%;border-radius:4px;}}
        .content a {{color:var(--accent);}}
        .content blockquote {{border-left:3px solid var(--accent);padding:4px 12px;margin:8px 0;background:var(--code-bg);border-radius:0 4px 4px 0;}}
        .nav a {{color:var(--accent);text-decoration:none;}}
        .footer {{padding:8px 30px;font-size:12px;color:var(--muted);border-top:1px solid var(--sidebar-bg);}}
        @media print {{.sidebar,.toolbar,.footer {{display:none!important;}}}}
        </style>
        <script>
        var themes={{light:{{bg:'#fafafa',fg:'#2c3e50',side:'#eef0f4',accent:'#e94560',muted:'#999',code:'#f5f5f5',tbl:'#ddd',thdr:'#eee'}},
                        dark:{{bg:'#1e1e2e',fg:'#cdd6f4',side:'#181825',accent:'#89b4fa',muted:'#6c7086',code:'#313244',tbl:'#45475a',thdr:'#313244'}},
                        sepia:{{bg:'#fbf3e8',fg:'#5b4636',side:'#efe4d0',accent:'#aa6f3d',muted:'#b8956a',code:'#e8dcc8',tbl:'#d4c5a9',thdr:'#e0d0b8'}},
                        sepiadark:{{bg:'#2b2416',fg:'#d4b88c',side:'#1f1a10',accent:'#e6a65d',muted:'#8a7355',code:'#3a3020',tbl:'#4a3d28',thdr:'#3a3020'}}}};
        function exportPDF(){{
            var path=window.location.pathname;
            var active=document.querySelector('.entry.active a');
            if(active)path=active.getAttribute('href');
            var pdfUrl='/pdf'+path;
            var a=document.createElement('a');
            a.href=pdfUrl; a.download='';
            document.body.appendChild(a); a.click();
            document.body.removeChild(a);
        }}
        function exportHTML(){{
            var c=document.querySelector('.content');
            if(!c)c=document.body;
            var clone=document.documentElement.cloneNode(true);
            var sidebar=clone.querySelector('.sidebar');
            var toolbar=clone.querySelector('.toolbar');
            var footer=clone.querySelector('.footer');
            if(sidebar)sidebar.remove();if(toolbar)toolbar.remove();if(footer)footer.remove();
            var h='<!DOCTYPE html>'+clone.outerHTML;
            var b=new Blob([h],{{type:'text/html'}});
            var u=URL.createObjectURL(b);var a=document.createElement('a');
            a.href=u;a.download=document.title.replace(/[<>:"/\\\\|?*]/g,'_')+'.html';
            document.body.appendChild(a);a.click();
            document.body.removeChild(a);URL.revokeObjectURL(u);
        }}
        function exportDOC(){{
            var c=document.querySelector('.content');
            if(!c)c=document.body;
            var t=localStorage.getItem('theme')||'light';
            var th=themes[t];
            var s='<style>body{{font:14px/1.6 -apple-system,sans-serif;padding:20px 30px;max-width:900px;margin:0 auto;background:'+th.bg+';color:'+th.fg+';}}'+
                'pre,code{{font-family:monospace;font-size:13px;}}'+
                'pre{{background:'+th.code+';padding:12px;border-radius:4px;overflow-x:auto;}}'+
                'table{{border-collapse:collapse;width:100%;margin:12px 0;}}'+
                'th,td{{border:1px solid '+th.tbl+';padding:6px 10px;text-align:left;}}'+
                'th{{background:'+th.thdr+';font-weight:600;}}'+
                'a{{color:'+th.accent+';text-decoration:none;}}'+
                'img{{max-width:100%;border-radius:4px;}}'+
                '</style>';
            var h='<html><meta charset=utf-8><head>'+s+'</head><body>'+c.innerHTML+'</body></html>';
            var b=new Blob([h],{{type:'application/msword'}});
            var u=URL.createObjectURL(b);var a=document.createElement('a');
            a.href=u;a.download=document.title.replace(/[<>:"/\\|?*]/g,'_')+'.doc';
            document.body.appendChild(a);a.click();
            document.body.removeChild(a);URL.revokeObjectURL(u);
        }}
        function applyTheme(){{
            var t=localStorage.getItem('theme')||'light';
            var th=themes[t]||themes.light;
            var r=document.documentElement.style;
            r.setProperty('--bg',th.bg);r.setProperty('--fg',th.fg);
            r.setProperty('--sidebar-bg',th.side);
            r.setProperty('--sidebar-hover','color-mix(in srgb,'+th.side+' 80%, '+th.fg+')');
            r.setProperty('--accent',th.accent);r.setProperty('--muted',th.muted);
            r.setProperty('--code-bg',th.code);r.setProperty('--table-border',th.tbl);
            r.setProperty('--table-header',th.thdr);
        }}
        applyTheme();
        </script>
        </head><body>
        {sidebar}
        <div class='main'>
        <div class='toolbar'>
            <button onclick='exportPDF()' title='导出为PDF(完整页面)'>📥 PDF</button>
            <button onclick='exportHTML()' title='导出为HTML文件'>📄 HTML</button>
            <button onclick='exportDOC()' title='导出为Word(.doc)'>📄 DOC</button>
            <div class='nav-input'>
                <input id='navPath' type='text' placeholder='输入路径如 C:\\' value='{path_esc}' onkeydown="if(event.key==='Enter'){{window.location.href='/navigate?path='+encodeURIComponent(this.value)}}"/>
                <button onclick="window.location.href='/navigate?path='+encodeURIComponent(document.getElementById('navPath').value)">跳转</button>
            </div>
            <div class='theme-group'>
                <button onclick="localStorage.setItem('theme','light');applyTheme()" style='background:#fafafa;color:#2c3e50;border:1px solid #ddd;' title='亮色'>☀</button>
                <button onclick="localStorage.setItem('theme','dark');applyTheme()" style='background:#1a1a2e;color:#e6e6e6;' title='暗色'>🌙</button>
                <button onclick="localStorage.setItem('theme','sepia');applyTheme()" style='background:#efe4d0;color:#5b4636;' title='羊皮纸'>📜</button>
                <button onclick="localStorage.setItem('theme','sepiadark');applyTheme()" style='background:#1f1a10;color:#d4b88c;' title='暗羊皮纸'>🌃</button>
            </div>
        </div>
        <div class='content'>{body_html}</div>
        {footer}
        </div></body></html>"#,
        title = title,
        sidebar = sidebar,
        path_esc = path_esc,
        body_html = body_html,
        footer = footer,
    )
}

fn parts(parent: Option<&str>, name: Option<&str>, ext: Option<&str>, stem: Option<&str>) -> PathParts {
    PathParts {
        parent: parent.map(|s| s.to_string()),
        file_name: name.map(|s| s.to_string()),
        extension: ext.map(|s| s.to_string()),
        file_stem: stem.map(|s| s.to_string()),
    }
}

#[test]
fn list_current_paths() {
    assert_eq!(list_current_path("/"), "");
    assert_eq!(list_current_path("/list/"), "");
    assert_eq!(list_current_path("/list/D:/"), "D:");
    assert_eq!(list_current_path("/list/D:/docs//"), "D:/docs");
    assert_eq!(list_current_path("/list//"), "");
}

#[test]
fn list_page_matches_template() {
    let sidebar = "<nav class='sidebar'></nav>";
    assert_eq!(list_page("D:/a&b", sidebar), reference_list_page(sidebar, "D:/a&amp;b", EMPTY));
    assert_eq!(
        list_response("", sidebar),
        reference_response(200, "OK", &reference_list_page(sidebar, "", EMPTY))
    );
}

#[test]
fn file_paths_and_missing_files() {
    assert_eq!(file_fs_path("/D:/docs/a.md"), "D:\\docs\\a.md");
    assert_eq!(file_fs_path("///x/y"), "x\\y");
    let r = file_not_found_response("D:\\<x>");
    assert!(r.starts_with("HTTP/1.1 404 Not Found\r\n"));
    assert!(r.contains("<a href='javascript:history.back()'"));
    assert!(r.contains("文件不存在: D:\\&lt;x&gt;"));
    assert_eq!(forbidden_response(), reference_response(403, "Forbidden", "<h1>403</h1><p>不支持的文件类型</p>"));
}

#[test]
fn file_kinds() {
    assert!(matches!(file_kind("md"), FileKind::Markdown));
    assert!(matches!(file_kind("html"), FileKind::Html));
    for e in ["json", "py", "log", "txt", "rs", "toml", "yaml", "yml", "js", "css"] {
        assert!(matches!(file_kind(e), FileKind::Code));
    }
    assert!(matches!(file_kind("exe"), FileKind::Unsupported));
    assert!(matches!(file_kind("MD"), FileKind::Unsupported));
    assert!(matches!(file_kind(""), FileKind::Unsupported));
}

#[test]
fn markdown_body() {
    let p = parts(Some("D:\\docs"), Some("a.MD"), Some("MD"), Some("a"));
    assert_eq!(file_body(&p, "# Title\n\n| a |\n|---|\n| 1 |\n").unwrap(),
        "<h1>Title</h1>\n<table><thead><tr><th>a</th></tr></thead><tbody>\n<tr><td>1</td></tr>\n</tbody></table>\n");
}

#[test]
fn html_body_is_framed() {
    let p = parts(Some("D:\\docs"), Some("x.html"), Some("html"), Some("x"));
    assert_eq!(
        file_body(&p, "<b class=\"c\">&</b>").unwrap(),
        "<iframe srcdoc=\"&lt;b class=&quot;c&quot;&gt;&amp;&lt;/b&gt;\" style='width:100%;height:calc(100vh - 44px);border:none;background:#fff;' sandbox='allow-scripts'></iframe>"
    );
}

#[test]
fn code_body_links_to_directory() {
    let p = parts(Some("D:\\my docs"), Some("m.Py"), Some("Py"), Some("m"));
    assert_eq!(
        file_body(&p, "if a < b:\n    pass").unwrap(),
        "<div class='nav'><a href='/list/D:/my%20docs/'>↩ 返回目录</a></div>\n            <pre><code class='language-py'>if a &lt; b:\n    pass</code></pre>"
    );
    let p = parts(None, Some("x.exe"), Some("exe"), Some("x"));
    assert!(file_body(&p, "MZ").is_none());
    let p = parts(None, Some("Makefile"), None, Some("Makefile"));
    assert!(file_body(&p, "all:").is_none());
}

#[test]
fn file_page_matches_template() {
    let p = parts(Some("D:\\docs"), Some("a<1>.md"), Some("md"), Some("a<1>"));
    let sidebar = "<nav class='sidebar'></nav>";
    let footer = "<div class='footer'>a<1>.md &middot; 1.5 KB</div>";
    assert_eq!(
        file_page(&p, "<p>x</p>", 1536, sidebar),
        reference_file_page("a&lt;1&gt;.md", sidebar, "D:/docs", "<p>x</p>", footer)
    );
    let q = parts(None, None, None, None);
    let footer = "<div class='footer'>file &middot; 0 B</div>";
    assert_eq!(
        file_response(&q, "", 0, sidebar),
        reference_response(200, "OK", &reference_file_page("file", sidebar, "", "", footer))
    );
    assert_eq!(file_dir(&p), "D:\\docs");
    assert_eq!(file_dir(&q), "");
}

#[test]
fn pages_carry_the_toolbar_and_themes() {
    let sidebar = "<nav class='sidebar'></nav>";
    let p = parts(Some("D:\\docs"), Some("a.md"), Some("md"), Some("a"));
    for page in [list_page("D:", sidebar), file_page(&p, "", 1, sidebar)] {
        for needle in [
            "exportPDF()",
            "exportHTML()",
            "exportDOC()",
            "id='navPath'",
            "onkeydown=\"if(event.key==='Enter')",
            "/navigate?path=",
            "light:{",
            "dark:{",
            "sepia:{",
            "sepiadark:{",
            "localStorage.setItem('theme','sepiadark');applyTheme()",
            "var th=themes[t];",
            "<nav class='sidebar'>",
        ] {
            assert!(page.contains(needle), "missing {}", needle);
        }
    }
}

#[test]
fn file_steps() {
    match file_step("gone.md", false, "") {
        FileNext::Reply(r) => assert_eq!(r, file_not_found_response("gone.md")),
        _ => panic!("expected a reply"),
    }
    match file_step("tool.exe", true, "MZ") {
        FileNext::Reply(r) => assert_eq!(r, forbidden_response()),
        _ => panic!("expected a reply"),
    }
    match file_step("notes.MD", true, "*x*") {
        FileNext::Show { parts, body, dir } => {
            assert_eq!(parts.file_name.as_deref(), Some("notes.MD"));
            assert_eq!(body, "<p><em>x</em></p>\n");
            assert_eq!(dir, "");
        }
        _ => panic!("expected a page"),
    }
}

#[test]
fn extensions_are_lower_cased() {
    assert_eq!(lower_extension(&parts(None, None, Some("MD"), None)), "md");
    assert_eq!(lower_extension(&parts(None, None, Some("Json"), None)), "json");
    assert_eq!(lower_extension(&parts(None, None, None, None)), "");
}
