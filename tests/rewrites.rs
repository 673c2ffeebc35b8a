use make_vestnik::articles::split_at_markers;
use make_vestnik::latex_ext::LatexStringExt;
use make_vestnik::pattern::{check_pattern, match_starts, rewrite};
use make_vestnik::pipeline::{check_rules, convert_document};
use make_vestnik::tags::remove_tag;

fn s(text: &str) -> String {
    text.to_string()
}

#[test]
fn number_spacing_after_outline_number() {
    let mut t = s("\n1.2.3.   text");
    assert!(t.fix_number_spacing().is_ok());
    assert_eq!(t, "\n1.2.3. text");
}

#[test]
fn number_spacing_inside_code() {
    let mut t = s("foo. 5");
    assert!(t.fix_number_spacing().is_ok());
    assert_eq!(t, "foo.5");
}

#[test]
fn short_bold_single_letter_collapses() {
    let mut t = s("{\\bfseries A}");
    assert!(t.remove_short_bfseries().is_ok());
    assert_eq!(t, "A");
}

#[test]
fn short_bold_digit_kept() {
    let mut t = s("{\\bfseries 5}");
    assert!(t.remove_short_bfseries().is_ok());
    assert_eq!(t, "{\\bfseries 5}");
}

#[test]
fn short_bold_two_letters_kept() {
    let mut t = s("{\\bfseries AB}");
    assert!(t.remove_short_bfseries().is_ok());
    assert_eq!(t, "{\\bfseries AB}");
}

#[test]
fn bold_command_becomes_group() {
    let mut t = s("x \\textbf{y} \\textbf{z}");
    t.replace_textbf();
    assert_eq!(t, "x {\\bfseries y} {\\bfseries z}");
}

#[test]
fn bold_then_short_collapse() {
    let mut t = s("a\\textbf{:}b\\textbf{7}");
    t.replace_textbf();
    assert!(t.remove_short_bfseries().is_ok());
    assert_eq!(t, "a:b{\\bfseries 7}");
}

#[test]
fn tag_removed_with_nested_braces() {
    assert_eq!(remove_tag("a\\ul{b{c}d}e", "ul"), "ae");
}

#[test]
fn tag_removal_twice_same_as_once() {
    let once = remove_tag("x \\hl{marked {inner}} y \\hl{z}", "hl");
    assert_eq!(once, "x  y ");
    assert_eq!(remove_tag(&once, "hl"), once);
}

#[test]
fn tag_absent_text_unchanged() {
    assert_eq!(remove_tag("no \\ulx{tag} here", "ul"), "no \\ulx{tag} here");
}

#[test]
fn tag_unclosed_runs_to_end() {
    assert_eq!(remove_tag("keep \\pandocbounded{lost {to} the end", "pandocbounded"), "keep ");
}

#[test]
fn tag_removal_can_join_a_new_tag() {
    assert_eq!(remove_tag("\\u\\ul{x}l{y}", "ul"), "\\ul{y}");
}

#[test]
fn tag_method_on_string() {
    let mut t = s("p\\ul{q}r");
    t.remove_tag("ul");
    assert_eq!(t, "pr");
}

#[test]
fn ordered_list_with_bare_item() {
    let mut t = s("\\begin{enumerate}\n\\item first\n\\item\nsecond\n\\end{enumerate}");
    t.fix_lists();
    assert_eq!(t, "\n1. first\n\n2. second\n");
    assert!(t.lines().any(|l| l == "1. first"));
    assert!(t.lines().any(|l| l == "2. second"));
    assert!(!t.contains("\\begin") && !t.contains("\\end") && !t.contains("\\item"));
}

#[test]
fn unordered_list_dashes_in_order() {
    let mut t = s("\\begin{itemize}\n\\item alpha\n\\item beta\n\\end{itemize}");
    t.fix_lists();
    assert_eq!(t, "\n- alpha\n\n- beta\n");
    let items: Vec<&str> = t.lines().filter(|l| !l.is_empty()).collect();
    assert_eq!(items, vec!["- alpha", "- beta"]);
}

#[test]
fn list_keeps_surrounding_text_and_drops_outline_style() {
    let mut t = s("before\n  \\def\\labelenumi{\\arabic{enumi}.}\n  \\begin{enumerate}\n  \\item one\n  note\n  \\end{enumerate}\nafter");
    t.fix_lists();
    assert_eq!(t, "before\n\n1. one\n  note\nafter\n");
}

#[test]
fn list_close_of_other_kind_is_held() {
    let mut t = s("\\begin{itemize}\n\\item a\n\\end{enumerate}\n\\end{itemize}");
    t.fix_lists();
    assert_eq!(t, "\n- a\n\\end{enumerate}\n");
}

#[test]
fn list_counter_restarts_per_block() {
    let mut t = s("\\begin{enumerate}\n\\item a\n\\end{enumerate}\n\\begin{enumerate}\n\\item b\n\\end{enumerate}");
    t.fix_lists();
    assert_eq!(t, "\n1. a\n\n1. b\n");
}

#[test]
fn list_of_empty_text() {
    let mut t = s("");
    t.fix_lists();
    assert_eq!(t, "");
}

#[test]
fn tables_commented_out() {
    let mut t = s("a\n\\begin{longtable}[]{@{}ll@{}}\nx & y\n\\end{longtable}\nb");
    t.comment_out_tables();
    assert_eq!(t, "a\n%% \\begin{longtable}[]{@{}ll@{}}\n%% x & y\n%% \\end{longtable}\nb");
}

#[test]
fn table_close_outside_table_kept() {
    let mut t = s("\\end{longtable}\nz\n");
    t.comment_out_tables();
    assert_eq!(t, "\\end{longtable}\nz");
}

#[test]
fn quotes_become_plain() {
    let mut t = s("it\\textquotesingle s \\textquotedbl x\\textquotedbl");
    t.change_latex_quotes();
    assert_eq!(t, "it' s \" x\"");
}

#[test]
fn envelopes_named() {
    let mut t = s("a🖂 b\\textsuperscript{🖂} c{\\bfseries 🖂}");
    t.replace_envelopes();
    assert_eq!(t, "a\\envelope  b\\envelope  c\\envelope ");
}

#[test]
fn tight_lists_removed() {
    let mut t = s("\\tightlist\nx\\tightlist");
    t.remove_tightlists();
    assert_eq!(t, "\nx");
}

#[test]
fn unindent_every_line() {
    let mut t = s("  a\r\n\tb\n\n   \nc  ");
    t.unindent();
    assert_eq!(t, "a\nb\n\n\nc  ");
}

#[test]
fn unindent_empty() {
    let mut t = s("");
    t.unindent();
    assert_eq!(t, "");
}

#[test]
fn bullets_become_dashes() {
    let mut t = s("• one\n  • two\nthree • four");
    t.replace_bullets();
    assert_eq!(t, "- one\n  - two\nthree • four");
}

#[test]
fn image_reference_scoped_to_part() {
    let mut t = s("\\includegraphics[options]{media/fig1.png}");
    t.fix_images("partA");
    assert_eq!(t, "\\fig{partA/fig1}{}");
}

#[test]
fn image_reference_unknown_extension_kept() {
    let mut t = s("\\includegraphics[width=2in]{media/chart.svg}");
    t.fix_images("p");
    assert_eq!(t, "\\fig{p/chart.svg}{}");
}

#[test]
fn scripts_renamed() {
    let mut t = s("x\\textsuperscript{2} H\\textsubscript{2}O");
    t.replace_super_sub_scripts();
    assert_eq!(t, "x\\tsp{2} H\\tsb{2}O");
}

#[test]
fn mail_link_simplified() {
    let mut t = s("\\href{mailto:a@b.com}{\\nolinkurl{a@b.com}}");
    t.fix_email_links();
    assert_eq!(t, "a@b.com");
}

#[test]
fn split_two_markers() {
    let t = s("IRSTI 1.2 first text\nIRSTI 3.4 second text");
    let a = t.split_articles();
    assert_eq!(a, vec!["\\id{IRSTI 1.2 }{}first text", "\\id{IRSTI 3.4 }{}second text"]);
}

#[test]
fn split_markers_on_own_lines() {
    let t = s("IRSTI 10.01\nFirst text\nIRSTI 20.02\nSecond tail");
    let a = t.split_articles();
    assert_eq!(a, vec!["\\id{IRSTI 10.01}{}\nFirst text", "\\id{IRSTI 20.02}{}\nSecond tail"]);
}

#[test]
fn split_bold_marker_and_preamble_dropped() {
    let t = s("preamble\n{\\bfseries МРНТИ 06.01} body");
    let a = t.split_articles();
    assert_eq!(a, vec!["\\id{МРНТИ 06.01}{} body"]);
}

#[test]
fn split_zero_markers_whole_text() {
    let t = s("  just some text \n");
    assert_eq!(t.split_articles(), vec!["just some text"]);
}

#[test]
fn split_empty_text_one_article() {
    assert_eq!(s("").split_articles(), vec![""]);
}

#[test]
fn split_at_given_markers() {
    let a = split_at_markers("M1 aaa M2 bbb tail ", &vec![0, 7]);
    assert_eq!(a, vec!["M1 aaa", "M2 bbb tail"]);
}

#[test]
fn split_at_no_markers() {
    assert_eq!(split_at_markers(" x ", &vec![]), vec!["x"]);
}

#[test]
fn split_at_marker_at_end() {
    assert_eq!(split_at_markers("ab", &vec![0, 2]), vec!["ab"]);
}

#[test]
fn rewrite_reports_bad_pattern() {
    let e = rewrite("(", "abc", "x").unwrap_err();
    assert_eq!(e.pattern, "(");
    let e = check_pattern("[z-a]").unwrap_err();
    assert_eq!(e.pattern, "[z-a]");
    assert!(match_starts("(", "abc").is_err());
}

#[test]
fn rewrite_and_starts_in_characters() {
    assert_eq!(rewrite("b+", "abbcb", "-").unwrap(), "a-c-");
    assert_eq!(match_starts("x", "ҒxҒx").unwrap(), vec![1, 3]);
}

#[test]
fn all_rules_compile() {
    assert!(check_rules().is_ok());
}

#[test]
fn conversion_is_deterministic() {
    let doc = "\\begin{itemize}\n\\item a\n\\end{itemize}\nIRSTI 1 one \\ul{x}\n  IRSTI 2 two \\textbf{!}";
    let a = convert_document(doc, "p").unwrap();
    let b = convert_document(doc, "p").unwrap();
    assert_eq!(a, b);
}

#[test]
fn conversion_end_to_end() {
    let doc = "IRSTI 1 A \\textbf{:} \\hl{gone}\n\\includegraphics[w]{media/f.jpg}\nIRSTI 2 B";
    let a = convert_document(doc, "part").unwrap();
    assert_eq!(a, vec!["\\id{IRSTI 1 }{}A : \n\\fig{part/f}{}", "\\id{IRSTI 2 }{}B"]);
}
