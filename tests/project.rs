use make_vestnik::project::{
    fragment_name, inclusion_block, insert_inclusions, is_ignored, media_file_name, watch_step,
    WatchEvent,
};

#[test]
fn fragment_names_padded() {
    assert_eq!(fragment_name(1), "001.tex");
    assert_eq!(fragment_name(42), "042.tex");
    assert_eq!(fragment_name(1234), "1234.tex");
}

#[test]
fn inclusion_lines_in_order() {
    assert_eq!(inclusion_block("p", 2), "\\input{src/p/001.tex}\n\\input{src/p/002.tex}\n");
    assert_eq!(inclusion_block("p", 0), "");
}

#[test]
fn inclusions_after_first_sentinel() {
    let doc = "a\n  % Main content  \nb\n% Main content";
    assert_eq!(
        insert_inclusions(doc, &inclusion_block("p", 2)),
        "a\n  % Main content  \n\\input{src/p/001.tex}\n\\input{src/p/002.tex}\nb\n% Main content"
    );
}

#[test]
fn inclusions_keep_following_lines() {
    let out = insert_inclusions("a\n% Main content\nb\n", &inclusion_block("p", 2));
    let lines: Vec<&str> = out.lines().filter(|l| !l.trim().is_empty()).collect();
    assert_eq!(
        lines,
        vec!["a", "% Main content", "\\input{src/p/001.tex}", "\\input{src/p/002.tex}", "b"]
    );
    assert!(out.ends_with("b\n"));
}

#[test]
fn sentinel_on_last_line_without_newline() {
    assert_eq!(insert_inclusions("a\n% Main content", "X\n"), "a\n% Main content\nX\n");
}

#[test]
fn sentinel_with_crlf_keeps_line_ends() {
    assert_eq!(insert_inclusions("% Main content\r\nb\r\n", "X\n"), "% Main content\r\nX\nb\r\n");
}

#[test]
fn no_sentinel_document_unchanged() {
    assert_eq!(insert_inclusions("a\r\nb", "X\n"), "a\r\nb");
    assert_eq!(insert_inclusions("", "X\n"), "");
}

#[test]
fn ignored_files() {
    let none: Vec<String> = vec![];
    assert!(is_ignored(".#main.tex", &none));
    assert!(is_ignored("main.tex~", &none));
    assert!(is_ignored("x.undo-tree.y", &none));
    assert!(is_ignored("a.swp", &none));
    assert!(is_ignored("a.tmp", &none));
    assert!(!is_ignored("main.tex", &vec!["src".to_string(), "main.tex".to_string()]));
    assert!(is_ignored("main.pdf", &vec!["build".to_string(), "main.pdf".to_string()]));
}

#[test]
fn debounce_decisions() {
    assert_eq!(watch_step(false, WatchEvent::Changed), (true, false));
    assert_eq!(watch_step(true, WatchEvent::Other), (true, false));
    assert_eq!(watch_step(true, WatchEvent::Quiet { quiet_ms: 100 }), (true, false));
    assert_eq!(watch_step(true, WatchEvent::Quiet { quiet_ms: 500 }), (false, true));
    assert_eq!(watch_step(false, WatchEvent::Quiet { quiet_ms: 900 }), (false, false));
}

#[test]
fn media_entries_named_by_file_name() {
    assert_eq!(media_file_name("word/media/image1.png"), Some("image1.png".to_string()));
    assert_eq!(media_file_name("word/media/sub/pic.emf"), Some("pic.emf".to_string()));
    assert_eq!(media_file_name("word/document.xml"), None);
    assert_eq!(media_file_name("word/media/sub/"), Some("sub".to_string()));
    assert_eq!(media_file_name("word/media/"), Some("media".to_string()));
    assert_eq!(media_file_name("word/media/a//b/./"), Some("b".to_string()));
    assert_eq!(media_file_name("word/media/.."), None);
    assert_eq!(media_file_name("media/image1.png"), None);
}
