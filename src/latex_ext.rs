//! The rewrites of a converted document, as methods on its text.
use vstd::prelude::*;
use crate::articles::{articles, split_articles_text, splitter_compiles};
use crate::layout::{comment_out_tables_text, tables_commented, unindent_text, unindented};
use crate::lists::{fix_lists_text, lists_fixed};
use crate::pattern::{pattern_compiles, regex_replaced, rewrite, PatternError};
use crate::tags::{remove_tag, tag_removed};
use crate::text::{replace_str, replaced, string_views};

verus! {

pub const BOLD_COMMAND: &'static str = "\\textbf{";
pub const BOLD_GROUP: &'static str = "{\\bfseries ";
/// A bold group around one character that is neither whitespace nor a digit.
pub const SHORT_BOLD: &'static str = r"\{\\bfseries ([^\s0-9])}";
pub const SHORT_BOLD_KEPT: &'static str = "$1";
/// An outline number after a line break, with the spaces that follow it.
pub const OUTLINE_NUMBER: &'static str = r"\n((?:\d+\.)+)\s*";
pub const OUTLINE_NUMBER_SPACED: &'static str = "\n$1 ";
/// A period, one space and a digit.
pub const DOT_SPACE_DIGIT: &'static str = r"\.( )(\d)";
pub const DOT_DIGIT: &'static str = ".$2";
pub const QUOTE_SINGLE: &'static str = r"\textquotesingle";
pub const QUOTE_DOUBLE: &'static str = r"\textquotedbl";
pub const ENVELOPE_GLYPH: &'static str = "🖂";
pub const ENVELOPE: &'static str = r"\envelope ";
pub const ENVELOPE_RAISED: &'static str = r"\textsuperscript{\envelope }";
pub const ENVELOPE_BOLD: &'static str = r"{\bfseries \envelope }";
pub const TIGHT_LIST: &'static str = r"\tightlist";
/// A bullet glyph at the start of a line, after optional whitespace.
pub const BULLET: &'static str = r"(?m)^(\s*)•";
pub const BULLET_DASH: &'static str = "$1-";
/// An embedded image under `media/`, its extension (if a known one) apart.
pub const IMAGE: &'static str = r"\\includegraphics\[[^]]*\]\{media/([^}/\\]+?)(?:\.(?:png|jpe?g|pdf|webp|wmf|emf))?\}";
pub const SUPERSCRIPT: &'static str = r"\\textsuperscript\{([^}]*)\}";
pub const SUPERSCRIPT_SHORT: &'static str = r"\tsp{$1}";
pub const SUBSCRIPT: &'static str = r"\\textsubscript\{([^}]*)\}";
pub const SUBSCRIPT_SHORT: &'static str = r"\tsb{$1}";
/// A mail link whose text is the address again.
pub const MAIL_LINK: &'static str = r"\\href\{mailto:([^}]+)\}\{\\nolinkurl\{[^}]+\}\}";
pub const MAIL_ADDRESS: &'static str = "$1";

pub open spec fn bold_normalized(s: Seq<char>) -> Seq<char> {
    replaced(s, BOLD_COMMAND@, BOLD_GROUP@)
}

pub open spec fn short_bold_collapsed(s: Seq<char>) -> Seq<char> {
    regex_replaced(SHORT_BOLD@, s, SHORT_BOLD_KEPT@)
}

pub open spec fn numbers_spaced(s: Seq<char>) -> Seq<char> {
    regex_replaced(
        DOT_SPACE_DIGIT@,
        regex_replaced(OUTLINE_NUMBER@, s, OUTLINE_NUMBER_SPACED@),
        DOT_DIGIT@,
    )
}

pub open spec fn quotes_plain(s: Seq<char>) -> Seq<char> {
    replaced(replaced(s, QUOTE_SINGLE@, "'"@), QUOTE_DOUBLE@, "\""@)
}

pub open spec fn envelopes_named(s: Seq<char>) -> Seq<char> {
    replaced(
        replaced(replaced(s, ENVELOPE_GLYPH@, ENVELOPE@), ENVELOPE_RAISED@, ENVELOPE@),
        ENVELOPE_BOLD@,
        ENVELOPE@,
    )
}

pub open spec fn tight_lists_removed(s: Seq<char>) -> Seq<char> {
    replaced(s, TIGHT_LIST@, ""@)
}

pub open spec fn bullets_dashed(s: Seq<char>) -> Seq<char> {
    regex_replaced(BULLET@, s, BULLET_DASH@)
}

/// The template that an image reference of part `part` becomes.
pub open spec fn figure_template(part: Seq<char>) -> Seq<char> {
    "\\fig{"@ + part + "/$1}{}"@
}

pub open spec fn images_scoped(s: Seq<char>, part: Seq<char>) -> Seq<char> {
    regex_replaced(IMAGE@, s, figure_template(part))
}

pub open spec fn scripts_renamed(s: Seq<char>) -> Seq<char> {
    regex_replaced(SUBSCRIPT@, regex_replaced(SUPERSCRIPT@, s, SUPERSCRIPT_SHORT@), SUBSCRIPT_SHORT@)
}

pub open spec fn mail_links_simplified(s: Seq<char>) -> Seq<char> {
    regex_replaced(MAIL_LINK@, s, MAIL_ADDRESS@)
}

/// The template for image references of part `part`.
pub fn figure_template_for(part: &str) -> (r: String)
    ensures
        r@ == figure_template(part@),
{
    let t = String::from_str("\\fig{");
    let t = t.concat(part);
    t.concat("/$1}{}")
}

/// The rewrites of a converted document, each applied in place.
pub trait LatexStringExt: View<V = Seq<char>> + Sized {
    /// Bold commands become bold groups.
    fn replace_textbf(&mut self)
        ensures
            final(self)@ == bold_normalized(old(self)@),
    ;

    /// A bold group around one character that is neither whitespace nor a
    /// digit becomes the character.
    fn remove_short_bfseries(&mut self) -> (r: Result<(), PatternError>)
        ensures
            r is Ok <==> pattern_compiles(SHORT_BOLD@),
            r is Ok ==> final(self)@ == short_bold_collapsed(old(self)@),
            r matches Err(e) ==> final(self)@ == old(self)@ && e.pattern@ == SHORT_BOLD@,
    ;

    /// List blocks become plain numbered or dashed lines.
    fn fix_lists(&mut self)
        ensures
            final(self)@ == lists_fixed(old(self)@),
    ;

    /// One space after an outline number at a line start; no space between
    /// a period and a digit.
    fn fix_number_spacing(&mut self) -> (r: Result<(), PatternError>)
        ensures
            r is Ok <==> pattern_compiles(OUTLINE_NUMBER@) && pattern_compiles(DOT_SPACE_DIGIT@),
            r is Ok ==> final(self)@ == numbers_spaced(old(self)@),
            r matches Err(e) ==> final(self)@ == old(self)@ && !pattern_compiles(e.pattern@),
    ;

    /// Every `\tag{...}` removed with its argument.
    fn remove_tag(&mut self, tag: &str)
        ensures
            final(self)@ == tag_removed(old(self)@, tag@),
    ;

    /// Tables commented out, line by line.
    fn comment_out_tables(&mut self)
        ensures
            final(self)@ == tables_commented(old(self)@),
    ;

    /// Quote commands become plain quote characters.
    fn change_latex_quotes(&mut self)
        ensures
            final(self)@ == quotes_plain(old(self)@),
    ;

    /// The envelope glyph, bare or wrapped, becomes the envelope command.
    fn replace_envelopes(&mut self)
        ensures
            final(self)@ == envelopes_named(old(self)@),
    ;

    /// The tight-list command removed.
    fn remove_tightlists(&mut self)
        ensures
            final(self)@ == tight_lists_removed(old(self)@),
    ;

    /// Leading whitespace removed from every line.
    fn unindent(&mut self)
        ensures
            final(self)@ == unindented(old(self)@),
    ;

    /// The text split into articles at its classification markers.
    fn split_articles(&self) -> (r: Vec<String>)
        requires
            splitter_compiles(),
        ensures
            string_views(r@) == articles(self@),
    ;

    /// Bullet glyphs at line starts become dashes.
    fn replace_bullets(&mut self)
        requires
            pattern_compiles(BULLET@),
        ensures
            final(self)@ == bullets_dashed(old(self)@),
    ;

    /// Image references become figures of the part, without extension.
    fn fix_images(&mut self, part_name: &str)
        requires
            pattern_compiles(IMAGE@),
        ensures
            final(self)@ == images_scoped(old(self)@, part_name@),
    ;

    /// Superscript and subscript commands get their short names.
    fn replace_super_sub_scripts(&mut self)
        requires
            pattern_compiles(SUPERSCRIPT@),
            pattern_compiles(SUBSCRIPT@),
        ensures
            final(self)@ == scripts_renamed(old(self)@),
    ;

    /// A mail link that shows its own address becomes the address.
    fn fix_email_links(&mut self)
        requires
            pattern_compiles(MAIL_LINK@),
        ensures
            final(self)@ == mail_links_simplified(old(self)@),
    ;
}

impl LatexStringExt for String {
    fn replace_textbf(&mut self) {
        *self = replace_str(self.as_str(), BOLD_COMMAND, BOLD_GROUP);
    }

    fn remove_short_bfseries(&mut self) -> (r: Result<(), PatternError>) {
        match rewrite(SHORT_BOLD, self.as_str(), SHORT_BOLD_KEPT) {
            Ok(s) => {
                *self = s;
                Ok(())
            },
            Err(e) => Err(e),
        }
    }

    fn fix_lists(&mut self) {
        *self = fix_lists_text(self.as_str());
    }

    fn fix_number_spacing(&mut self) -> (r: Result<(), PatternError>) {
        let spaced = match rewrite(OUTLINE_NUMBER, self.as_str(), OUTLINE_NUMBER_SPACED) {
            Ok(s) => s,
            Err(e) => return Err(e),
        };
        match rewrite(DOT_SPACE_DIGIT, spaced.as_str(), DOT_DIGIT) {
            Ok(s) => {
                *self = s;
                Ok(())
            },
            Err(e) => Err(e),
        }
    }

    fn remove_tag(&mut self, tag: &str) {
        *self = remove_tag(self.as_str(), tag);
    }

    fn comment_out_tables(&mut self) {
        *self = comment_out_tables_text(self.as_str());
    }

    fn change_latex_quotes(&mut self) {
        let s = replace_str(self.as_str(), QUOTE_SINGLE, "'");
        *self = replace_str(s.as_str(), QUOTE_DOUBLE, "\"");
    }

    fn replace_envelopes(&mut self) {
        let s = replace_str(self.as_str(), ENVELOPE_GLYPH, ENVELOPE);
        let s = replace_str(s.as_str(), ENVELOPE_RAISED, ENVELOPE);
        *self = replace_str(s.as_str(), ENVELOPE_BOLD, ENVELOPE);
    }

    fn remove_tightlists(&mut self) {
        *self = replace_str(self.as_str(), TIGHT_LIST, "");
    }

    fn unindent(&mut self) {
        *self = unindent_text(self.as_str());
    }

    fn split_articles(&self) -> (r: Vec<String>) {
        match split_articles_text(self.as_str()) {
            Ok(v) => v,
            Err(_) => Vec::new(),
        }
    }

    fn replace_bullets(&mut self) {
        if let Ok(s) = rewrite(BULLET, self.as_str(), BULLET_DASH) {
            *self = s;
        }
    }

    fn fix_images(&mut self, part_name: &str) {
        let template = figure_template_for(part_name);
        if let Ok(s) = rewrite(IMAGE, self.as_str(), template.as_str()) {
            *self = s;
        }
    }

    fn replace_super_sub_scripts(&mut self) {
        if let Ok(s) = rewrite(SUPERSCRIPT, self.as_str(), SUPERSCRIPT_SHORT) {
            *self = s;
        }
        if let Ok(s) = rewrite(SUBSCRIPT, self.as_str(), SUBSCRIPT_SHORT) {
            *self = s;
        }
    }

    fn fix_email_links(&mut self) {
        if let Ok(s) = rewrite(MAIL_LINK, self.as_str(), MAIL_ADDRESS) {
            *self = s;
        }
    }
}

} // verus!
