use mdviz::text::{
    chars_of, ends_with_char, find_char, replace_char, starts_with, str_eq, string_from_chars,
    strip_prefix, trim_end_char, trim_start_char,
};

#[test]
fn trimming_and_replacing() {
    assert_eq!(trim_end_char("D:/docs///", '/'), "D:/docs");
    assert_eq!(trim_end_char("///", '/'), "");
    assert_eq!(trim_start_char("//x/y", '/'), "x/y");
    assert_eq!(replace_char("a/b/c", '/', '\\'), "a\\b\\c");
    assert_eq!(replace_char("报告/数据", '/', '\\'), "报告\\数据");
}

#[test]
fn prefixes_and_comparisons() {
    assert!(starts_with("/list/D:/", "/list/"));
    assert!(!starts_with("/lis", "/list/"));
    assert_eq!(strip_prefix("/pdf/a.md", "/pdf/").as_deref(), Some("a.md"));
    assert_eq!(strip_prefix("/x", "/pdf/"), None);
    assert!(str_eq("中文", "中文"));
    assert!(!str_eq("a", "ab"));
    assert!(ends_with_char("D:", ':'));
    assert!(!ends_with_char("", ':'));
}

#[test]
fn characters() {
    let cs = chars_of("a中b");
    assert_eq!(cs, vec!['a', '中', 'b']);
    assert_eq!(find_char(&cs, '中'), Some(1));
    assert_eq!(find_char(&cs, 'z'), None);
    assert_eq!(string_from_chars(&cs), "a中b");
}
