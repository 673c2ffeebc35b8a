//! The whole conversion: every rewrite in its fixed order, then the split
//! into articles.
use vstd::prelude::*;
use crate::articles::{articles, splitter_compiles, MARKER, MARKER_NOISY};
use crate::latex_ext::{
    bold_normalized, bullets_dashed, envelopes_named, images_scoped, mail_links_simplified,
    numbers_spaced, quotes_plain, scripts_renamed, short_bold_collapsed, tight_lists_removed,
    LatexStringExt, BULLET, DOT_SPACE_DIGIT, IMAGE, MAIL_LINK, OUTLINE_NUMBER, SHORT_BOLD,
    SUBSCRIPT, SUPERSCRIPT,
};
use crate::layout::{tables_commented, unindented};
use crate::lists::lists_fixed;
use crate::pattern::{check_pattern, pattern_compiles, PatternError};
use crate::tags::tag_removed;
use crate::text::string_views;

verus! {

pub const UNDERLINE: &'static str = "ul";
pub const HIGHLIGHT: &'static str = "hl";
pub const BOUNDED: &'static str = "pandocbounded";

/// Every rule of the conversion compiles.
pub open spec fn rules_compile() -> bool {
    &&& pattern_compiles(SHORT_BOLD@)
    &&& pattern_compiles(OUTLINE_NUMBER@)
    &&& pattern_compiles(DOT_SPACE_DIGIT@)
    &&& pattern_compiles(BULLET@)
    &&& pattern_compiles(IMAGE@)
    &&& pattern_compiles(SUPERSCRIPT@)
    &&& pattern_compiles(SUBSCRIPT@)
    &&& pattern_compiles(MAIL_LINK@)
    &&& splitter_compiles()
}

/// The converted text `s` of part `part` after every rewrite, in order.
pub open spec fn transformed(s: Seq<char>, part: Seq<char>) -> Seq<char> {
    let s = bold_normalized(s);
    let s = short_bold_collapsed(s);
    let s = lists_fixed(s);
    let s = numbers_spaced(s);
    let s = tag_removed(s, UNDERLINE@);
    let s = tag_removed(s, HIGHLIGHT@);
    let s = tag_removed(s, BOUNDED@);
    let s = tables_commented(s);
    let s = quotes_plain(s);
    let s = envelopes_named(s);
    let s = tight_lists_removed(s);
    let s = unindented(s);
    let s = bullets_dashed(s);
    let s = images_scoped(s, part);
    let s = scripts_renamed(s);
    mail_links_simplified(s)
}

/// The articles of the converted text `s` of part `part`.
pub open spec fn document_articles(s: Seq<char>, part: Seq<char>) -> Seq<Seq<char>> {
    articles(transformed(s, part))
}

/// The output depends on the text and the part name alone: the same input
/// gives the same articles.
pub proof fn lemma_conversion_deterministic(
    s1: Seq<char>,
    part1: Seq<char>,
    s2: Seq<char>,
    part2: Seq<char>,
)
    requires
        s1 == s2,
        part1 == part2,
    ensures
        document_articles(s1, part1) == document_articles(s2, part2),
{
}

/// Checks that every rule of the conversion compiles; the error names the
/// first that does not.
pub fn check_rules() -> (r: Result<(), PatternError>)
    ensures
        r is Ok <==> rules_compile(),
        r matches Err(e) ==> !pattern_compiles(e.pattern@),
{
    check_pattern(SHORT_BOLD)?;
    check_pattern(OUTLINE_NUMBER)?;
    check_pattern(DOT_SPACE_DIGIT)?;
    check_pattern(BULLET)?;
    check_pattern(IMAGE)?;
    check_pattern(SUPERSCRIPT)?;
    check_pattern(SUBSCRIPT)?;
    check_pattern(MAIL_LINK)?;
    check_pattern(MARKER_NOISY)?;
    check_pattern(MARKER)?;
    Ok(())
}

/// The articles of the converted text `text` of the part `part_name`; or,
/// before any rewrite, the first rule that does not compile.
pub fn convert_document(text: &str, part_name: &str) -> (r: Result<Vec<String>, PatternError>)
    ensures
        r is Ok <==> rules_compile(),
        r matches Ok(v) ==> string_views(v@) == document_articles(text@, part_name@),
        r matches Err(e) ==> !pattern_compiles(e.pattern@),
{
    check_rules()?;
    let mut s = String::from_str(text);
    s.replace_textbf();
    s.remove_short_bfseries()?;
    s.fix_lists();
    s.fix_number_spacing()?;
    s.remove_tag(UNDERLINE);
    s.remove_tag(HIGHLIGHT);
    s.remove_tag(BOUNDED);
    s.comment_out_tables();
    s.change_latex_quotes();
    s.replace_envelopes();
    s.remove_tightlists();
    s.unindent();
    s.replace_bullets();
    s.fix_images(part_name);
    s.replace_super_sub_scripts();
    s.fix_email_links();
    Ok(s.split_articles())
}

} // verus!
