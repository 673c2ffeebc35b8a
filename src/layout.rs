//! Line-oriented rewrites: commenting out tables, removing indentation.
use vstd::prelude::*;
use crate::text::{
    extend_range, from_chars, join_lines, join_lines_exec, lines, rest_starts_with, skip_space,
    split_lines, starts_with, to_chars, trim_start, views,
};

verus! {

pub const TABLE_OPEN: &'static str = "\\begin{longtable}[]{@{}";
pub const TABLE_CLOSE: &'static str = "\\end{longtable}";

/// A line turned into a comment.
pub open spec fn commented(l: Seq<char>) -> Seq<char> {
    seq!['%', '%', ' '] + l
}

/// The lines `ls` with every table commented out, and whether the last of
/// them lies inside a table.
pub open spec fn table_scan(ls: Seq<Seq<char>>) -> (Seq<Seq<char>>, bool)
    decreases ls.len(),
{
    if ls.len() == 0 {
        (Seq::empty(), false)
    } else {
        let (out, inside) = table_scan(ls.drop_last());
        let l = ls.last();
        if starts_with(l, TABLE_OPEN@) {
            (out.push(commented(l)), true)
        } else if inside && starts_with(l, TABLE_CLOSE@) {
            (out.push(commented(l)), false)
        } else if inside {
            (out.push(commented(l)), true)
        } else {
            (out.push(l), false)
        }
    }
}

/// `s` with each line from a table's opening line to its closing line,
/// both included, turned into a comment; lines joined by newlines.
pub open spec fn tables_commented(s: Seq<char>) -> Seq<char> {
    join_lines(table_scan(lines(s)).0)
}

/// `s` with the leading whitespace of every line removed; lines joined by
/// newlines.
pub open spec fn unindented(s: Seq<char>) -> Seq<char> {
    join_lines(lines(s).map_values(|l: Seq<char>| trim_start(l)))
}

fn comment_line(l: &Vec<char>) -> (r: Vec<char>)
    ensures
        r@ == commented(l@),
{
    let mut r: Vec<char> = Vec::new();
    r.push('%');
    r.push('%');
    r.push(' ');
    extend_range(&mut r, l, 0, l.len());
    assert(l@.subrange(0, l@.len() as int) == l@);
    assert(r@ =~= commented(l@));
    r
}

/// `text` with its tables commented out (see `tables_commented`).
pub fn comment_out_tables_text(text: &str) -> (r: String)
    ensures
        r@ == tables_commented(text@),
{
    let chars = to_chars(text);
    let ls = split_lines(&chars);
    let open = to_chars(TABLE_OPEN);
    let close = to_chars(TABLE_CLOSE);
    let ghost lv = views(ls@);
    let mut out: Vec<Vec<char>> = Vec::new();
    let mut inside = false;
    let mut k: usize = 0;
    assert(lv.take(0) == Seq::<Seq<char>>::empty());
    assert(views(out@) =~= Seq::<Seq<char>>::empty());
    while k < ls.len()
        invariant
            k <= ls@.len(),
            lv == views(ls@),
            lv == lines(text@),
            open@ == TABLE_OPEN@,
            close@ == TABLE_CLOSE@,
            table_scan(lv.take(k as int)) == (views(out@), inside),
        decreases ls.len() - k,
    {
        let line = &ls[k];
        assert(lv.take(k + 1).drop_last() == lv.take(k as int));
        assert(lv.take(k + 1).last() == line@);
        assert(line@.subrange(0, line@.len() as int) == line@);
        let ghost o0 = views(out@);
        if rest_starts_with(line, 0, &open) {
            out.push(comment_line(line));
            inside = true;
        } else if inside && rest_starts_with(line, 0, &close) {
            out.push(comment_line(line));
            inside = false;
        } else if inside {
            out.push(comment_line(line));
        } else {
            out.push(line.clone());
        }
        assert(views(out@) =~= o0.push(views(out@).last()));
        k += 1;
    }
    assert(lv.take(ls@.len() as int) == lv);
    from_chars(&join_lines_exec(&out))
}

/// `text` with the leading whitespace of every line removed.
pub fn unindent_text(text: &str) -> (r: String)
    ensures
        r@ == unindented(text@),
{
    let chars = to_chars(text);
    let ls = split_lines(&chars);
    let ghost lv = views(ls@);
    let mut out: Vec<Vec<char>> = Vec::new();
    let mut k: usize = 0;
    while k < ls.len()
        invariant
            k <= ls@.len(),
            lv == views(ls@),
            lv == lines(text@),
            views(out@) =~= lv.take(k as int).map_values(|l: Seq<char>| trim_start(l)),
        decreases ls.len() - k,
    {
        let line = &ls[k];
        let a = skip_space(line, 0, line.len());
        assert(line@.subrange(0, line@.len() as int) == line@);
        let mut t: Vec<char> = Vec::new();
        extend_range(&mut t, line, a, line.len());
        let ghost o0 = views(out@);
        out.push(t);
        assert(views(out@) =~= o0.push(trim_start(lv[k as int])));
        assert(lv.take(k + 1) =~= lv.take(k as int).push(lv[k as int]));
        k += 1;
    }
    assert(lv.take(ls@.len() as int) == lv);
    from_chars(&join_lines_exec(&out))
}

} // verus!
