use mdviz::http::{parse_request_text, route, Route};
use mdviz::pages::list_current_path;
use mdviz::url::url_encode_path;
use mdviz::navigate::{
    navigate_after_parent, navigate_after_probe, navigate_missing,
    navigate_plan, navigate_target, path_parameter, NavigateNext, NavigatePlan,
};

fn q(s: &str) -> Option<String> {
    Some(s.to_string())
}

#[test]
fn path_parameters() {
    assert_eq!(path_parameter("path=abc").as_deref(), Some("abc"));
    assert_eq!(path_parameter("x=1&path=a%20b&path=c").as_deref(), Some("a%20b"));
    assert_eq!(path_parameter("pathx=1&&path=").as_deref(), Some(""));
    assert_eq!(path_parameter("pat=1"), None);
    assert_eq!(path_parameter(""), None);
}

#[test]
fn navigate_targets() {
    assert_eq!(navigate_target(&None), "");
    assert_eq!(navigate_target(&q("path=D%3A%5C")), "D:\\");
    assert_eq!(navigate_target(&q("path=%E4%B8%AD%E6%96%87")), "中文");
}

#[test]
fn missing_path_is_bad_request() {
    match navigate_plan(&None) {
        NavigatePlan::Reply(r) => {
            assert!(r.starts_with("HTTP/1.1 400 Bad Request\r\n"));
            assert!(r.ends_with("\r\n\r\n<h1>400</h1><p>缺少 path 参数</p>"));
        }
        _ => panic!("expected a reply"),
    }
    assert!(matches!(navigate_plan(&q("path=")), NavigatePlan::Reply(_)));
}

#[test]
fn drive_paths_are_probed_as_roots() {
    match navigate_plan(&q("path=D:\\")) {
        NavigatePlan::Probe { target, normalized, fs_path } => {
            assert_eq!(target, "D:\\");
            assert_eq!(normalized, "D:");
            assert_eq!(fs_path, "D:\\");
        }
        _ => panic!("expected a probe"),
    }
    match navigate_plan(&q("path=D:/docs\\sub//")) {
        NavigatePlan::Probe { normalized, fs_path, .. } => {
            assert_eq!(normalized, "D:/docs/sub");
            assert_eq!(fs_path, "D:\\docs\\sub");
        }
        _ => panic!("expected a probe"),
    }
    match navigate_plan(&q("path=%E4%B8%AD%3A")) {
        NavigatePlan::Probe { target, normalized, fs_path } => {
            assert_eq!(target, "中:");
            assert_eq!(normalized, "中:");
            assert_eq!(fs_path, "中:\\");
        }
        _ => panic!("expected a probe"),
    }
}

#[test]
fn probe_outcomes() {
    match navigate_after_probe("D:\\", "D:", "D:\\", true, false) {
        NavigateNext::Reply(r) => assert_eq!(
            r,
            "HTTP/1.1 302 Found\r\nLocation: /list/D:/\r\nContent-Length: 0\r\nConnection: close\r\n\r\n"
        ),
        _ => panic!("expected a redirect"),
    }
    match navigate_after_probe("D:/a b.md", "D:/a b.md", "D:\\a b.md", false, true) {
        NavigateNext::Reply(r) => assert!(r.contains("Location: /D:/a%20b.md\r\n")),
        _ => panic!("expected a redirect"),
    }
}

#[test]
fn missing_paths() {
    match navigate_missing("D:/x/y", &Some("D:\\x".to_string())) {
        NavigateNext::CheckParent(p) => assert_eq!(p, "D:\\x"),
        _ => panic!("expected a parent check"),
    }
    match navigate_missing("nowhere", &None) {
        NavigateNext::Reply(r) => {
            assert!(r.starts_with("HTTP/1.1 404 Not Found\r\n"));
            assert!(r.contains("路径不存在: nowhere"));
            assert!(r.contains("javascript:history.back()"));
        }
        _ => panic!("expected a reply"),
    }
    match navigate_missing("nonexistent", &Some(String::new())) {
        NavigateNext::Reply(r) => assert_eq!(
            r,
            "HTTP/1.1 302 Found\r\nLocation: /\r\nContent-Length: 0\r\nConnection: close\r\n\r\n"
        ),
        _ => panic!("expected a redirect"),
    }
    assert!(navigate_after_parent("D:/x/y", "D:\\x", true).contains("Location: /list/D:/x/\r\n"));
    assert!(navigate_after_parent("<y>", "D:\\x", false).contains("路径不存在: &lt;y&gt;"));
}

#[test]
fn directory_redirect_lands_on_its_listing() {
    for typed in ["D:\\报告 2024\\", "D:/a+b/c#d//", "/"] {
        let query = format!("path={}", url_encode_path(typed));
        match navigate_plan(&q(&query)) {
            NavigatePlan::Probe { target, normalized, fs_path } => {
                match navigate_after_probe(&target, &normalized, &fs_path, true, false) {
                    NavigateNext::Reply(r) => {
                        let location = r.split("Location: ").nth(1).unwrap().split("\r\n").next().unwrap();
                        let request = parse_request_text(&format!("GET {} HTTP/1.1", location));
                        assert!(matches!(route(&request.method, &request.path), Route::List));
                        assert_eq!(list_current_path(&request.path), normalized);
                    }
                    _ => panic!("expected a redirect"),
                }
            }
            _ => panic!("expected a probe"),
        }
    }
}

#[test]
fn missing_bare_name_redirects_to_the_top_listing() {
    match navigate_plan(&q("path=nonexistent")) {
        NavigatePlan::Probe { target, normalized, fs_path } => {
            match navigate_after_probe(&target, &normalized, &fs_path, false, false) {
                NavigateNext::Reply(r) => {
                    assert!(r.starts_with("HTTP/1.1 302 Found\r\n"));
                    assert!(r.contains("Location: /\r\n"));
                }
                _ => panic!("expected a redirect"),
            }
        }
        _ => panic!("expected a probe"),
    }
}

#[test]
fn missing_root_is_not_found() {
    match navigate_after_probe("/", "", "", false, false) {
        NavigateNext::Reply(r) => {
            assert!(r.starts_with("HTTP/1.1 404 Not Found\r\n"));
            assert!(r.contains("javascript:history.back()"));
        }
        _ => panic!("expected a reply"),
    }
}

#[test]
fn missing_relative_path_checks_its_parent() {
    match navigate_after_probe("docs/gone", "docs/gone", "docs/gone", false, false) {
        NavigateNext::CheckParent(p) => assert_eq!(p, "docs"),
        _ => panic!("expected a parent check"),
    }
}
