//! Block lists rewritten as plain numbered or dashed lines.
use vstd::prelude::*;
use crate::text::{
    decimal, extend, extend_range, from_chars, lines, push_decimal, replace_all_chars, replaced,
    rest_equals, rest_starts_with, skip_space, split_lines, starts_with, to_chars, trim_start,
    views,
};

verus! {

pub const OUTLINE_STYLE: &'static str = "\\def\\labelenumi{\\arabic{enumi}.}";
pub const BEGIN_UNORDERED: &'static str = "\\begin{itemize}";
pub const END_UNORDERED: &'static str = "\\end{itemize}";
pub const BEGIN_ORDERED: &'static str = "\\begin{enumerate}";
pub const END_ORDERED: &'static str = "\\end{enumerate}";
pub const ITEM: &'static str = "\\item";

/// Where the scan stands: outside any list, or inside one of either kind.
#[derive(Clone, Copy, Debug, PartialEq, Eq, Structural)]
pub enum ListMode {
    Plain,
    Unordered,
    Ordered,
}

/// What the scan has after some lines: the text written so far, the mode,
/// and the lines held back for the open list.
pub type ListScan = (Seq<char>, ListMode, Seq<Seq<char>>);

/// One item: a blank line, then the number and a period (or a dash), a
/// space, and the item's text, on a line of its own.
pub open spec fn item_entry(ordered: bool, counter: nat, body: Seq<char>) -> Seq<char> {
    seq!['\n'] + (if ordered {
        decimal(counter) + seq!['.', ' ']
    } else {
        seq!['-', ' ']
    }) + body + seq!['\n']
}

/// The held-back lines of a list, written out item by item, numbering from
/// `counter`. A bare item marker takes its text from the next line.
pub open spec fn replay(buf: Seq<Seq<char>>, ordered: bool, counter: nat) -> Seq<char>
    decreases buf.len(),
{
    if buf.len() == 0 {
        Seq::<char>::empty()
    } else {
        let b = trim_start(buf[0]);
        if b == ITEM@ {
            if buf.len() >= 2 {
                item_entry(ordered, counter, trim_start(buf[1])) + replay(
                    buf.skip(2),
                    ordered,
                    counter + 1,
                )
            } else {
                item_entry(ordered, counter, Seq::<char>::empty())
            }
        } else if starts_with(b, ITEM@) {
            item_entry(ordered, counter, trim_start(b.skip(ITEM@.len() as int))) + replay(
                buf.skip(1),
                ordered,
                counter + 1,
            )
        } else {
            buf[0] + seq!['\n'] + replay(buf.skip(1), ordered, counter)
        }
    }
}

/// The text of a list item written on one line with its marker.
pub open spec fn inline_item_text(line: Seq<char>) -> Seq<char> {
    trim_start(trim_start(line).skip(ITEM@.len() as int))
}

/// A line that holds an item marker and the item's text.
pub open spec fn is_inline_item(line: Seq<char>) -> bool {
    starts_with(trim_start(line), ITEM@) && trim_start(line) != ITEM@
}

/// Items of an unordered list, each on one line with its marker, written
/// as dashed lines in their order.
pub open spec fn dashed(items: Seq<Seq<char>>) -> Seq<char>
    decreases items.len(),
{
    if items.len() == 0 {
        Seq::empty()
    } else {
        seq!['\n', '-', ' '] + inline_item_text(items[0]) + seq!['\n'] + dashed(items.skip(1))
    }
}

/// A line that, once its leading whitespace is trimmed, opens or closes a
/// list or sets the outline style.
pub open spec fn is_control_line(line: Seq<char>) -> bool {
    let t = trim_start(line);
    t == OUTLINE_STYLE@ || t == BEGIN_UNORDERED@ || t == BEGIN_ORDERED@ || t == END_UNORDERED@
        || t == END_ORDERED@
}

/// Held-back items of an unordered list, each on one line with its marker,
/// come out as dashed lines in their order, without numbers.
pub proof fn lemma_replay_unordered_dashed(items: Seq<Seq<char>>, counter: nat)
    requires
        forall|i: int| 0 <= i < items.len() ==> is_inline_item(#[trigger] items[i]),
    ensures
        replay(items, false, counter) == dashed(items),
    decreases items.len(),
{
    if items.len() > 0 {
        lemma_replay_unordered_dashed(items.skip(1), counter + 1);
        assert(replay(items, false, counter) =~= dashed(items));
    }
}

/// While an unordered list is open, lines that neither open nor close a
/// list are held back in their order.
proof fn lemma_scan_holds_lines(b: Seq<char>, items: Seq<Seq<char>>, k: int)
    requires
        trim_start(b) == BEGIN_UNORDERED@,
        forall|i: int| 0 <= i < items.len() ==> !is_control_line(#[trigger] items[i]),
        0 <= k <= items.len(),
    ensures
        scan_lines(seq![b] + items.take(k)) == (Seq::<char>::empty(), ListMode::Unordered, items.take(k)),
    decreases k,
{
    reveal_strlit("\\def\\labelenumi{\\arabic{enumi}.}");
    reveal_strlit("\\begin{itemize}");
    if k == 0 {
        let ls = seq![b] + items.take(0);
        assert(ls.drop_last() =~= Seq::<Seq<char>>::empty());
        assert(ls.last() == b);
        assert(BEGIN_UNORDERED@[1] != OUTLINE_STYLE@[1]);
        assert(items.take(0) =~= Seq::<Seq<char>>::empty());
        assert(scan_lines(ls.drop_last()) == (Seq::<char>::empty(), ListMode::Plain, Seq::<Seq<char>>::empty()));
        assert(scan_lines(ls) == scan_step(scan_lines(ls.drop_last()), b));
    } else {
        lemma_scan_holds_lines(b, items, k - 1);
        let ls = seq![b] + items.take(k);
        assert(ls.drop_last() =~= seq![b] + items.take(k - 1));
        assert(ls.last() == items[k - 1]);
        assert(!is_control_line(items[k - 1]));
        assert(items.take(k) =~= items.take(k - 1).push(items[k - 1]));
        assert(scan_lines(ls) == scan_step(scan_lines(ls.drop_last()), items[k - 1]));
    }
}

/// An unordered list whose items each stand on one line with their marker
/// is written as dashed lines, in their order, without numbers.
pub proof fn lemma_unordered_block_dashed(b: Seq<char>, items: Seq<Seq<char>>, e: Seq<char>)
    requires
        trim_start(b) == BEGIN_UNORDERED@,
        trim_start(e) == END_UNORDERED@,
        forall|i: int| 0 <= i < items.len() ==> is_inline_item(#[trigger] items[i]),
        forall|i: int| 0 <= i < items.len() ==> !is_control_line(#[trigger] items[i]),
    ensures
        scan_lines(seq![b] + items + seq![e]) == (dashed(items), ListMode::Plain, Seq::<Seq<char>>::empty()),
{
    reveal_strlit("\\def\\labelenumi{\\arabic{enumi}.}");
    reveal_strlit("\\begin{itemize}");
    reveal_strlit("\\begin{enumerate}");
    reveal_strlit("\\end{itemize}");
    lemma_scan_holds_lines(b, items, items.len() as int);
    lemma_replay_unordered_dashed(items, 1);
    let ls = seq![b] + items + seq![e];
    assert(items.take(items.len() as int) == items);
    assert(ls.drop_last() =~= seq![b] + items.take(items.len() as int));
    assert(ls.last() == e);
    assert(END_UNORDERED@[1] != OUTLINE_STYLE@[1]);
    assert(END_UNORDERED@[1] != BEGIN_UNORDERED@[1]);
    assert(END_UNORDERED@[1] != BEGIN_ORDERED@[1]);
}

/// No three newlines in a row.
pub open spec fn no_triple_newline(s: Seq<char>) -> bool {
    forall|i: int|
        0 <= i && i + 2 < s.len() ==> !(#[trigger] s[i] == '\n' && s[i + 1] == '\n' && s[i + 2]
            == '\n')
}

/// Text without three newlines in a row keeps its runs of newlines.
proof fn lemma_collapse_without_triple(s: Seq<char>)
    requires
        no_triple_newline(s),
    ensures
        replaced(s, seq!['\n', '\n', '\n'], seq!['\n', '\n']) == s,
    decreases s.len(),
{
    let pat = seq!['\n', '\n', '\n'];
    if s.len() >= 3 {
        if s.take(3) == pat {
            assert(s[0] == s.take(3)[0] && s[1] == s.take(3)[1] && s[2] == s.take(3)[2]);
            assert(false);
        }
        assert forall|i: int| 0 <= i && i + 2 < s.skip(1).len() implies !(#[trigger] s.skip(1)[i]
            == '\n' && s.skip(1)[i + 1] == '\n' && s.skip(1)[i + 2] == '\n') by {
            assert(s.skip(1)[i] == s[i + 1]);
        }
        lemma_collapse_without_triple(s.skip(1));
        assert(s =~= seq![s[0]] + s.skip(1));
    }
}

/// Dashed items whose texts hold no newline have no three newlines in a
/// row, and start with a newline and a dash.
proof fn lemma_dashed_no_triple(items: Seq<Seq<char>>)
    requires
        forall|i: int, j: int|
            0 <= i < items.len() && 0 <= j < inline_item_text(items[i]).len()
                ==> #[trigger] inline_item_text(items[i])[j] != '\n',
    ensures
        no_triple_newline(dashed(items)),
        dashed(items).len() == 0 || (dashed(items)[0] == '\n' && dashed(items)[1] == '-'),
    decreases items.len(),
{
    if items.len() > 0 {
        let t = inline_item_text(items[0]);
        assert forall|i: int, j: int|
            0 <= i < items.skip(1).len() && 0 <= j < inline_item_text(items.skip(1)[i]).len()
                implies #[trigger] inline_item_text(items.skip(1)[i])[j] != '\n' by {
            assert(items.skip(1)[i] == items[i + 1]);
        }
        lemma_dashed_no_triple(items.skip(1));
        let d = dashed(items.skip(1));
        let a = seq!['\n', '-', ' '] + t + seq!['\n'];
        let x = dashed(items);
        assert(x == a + d);
        let n = a.len();
        assert forall|k: int| 0 <= k < n implies #[trigger] x[k] == a[k] by {}
        assert forall|k: int| n <= k < x.len() implies #[trigger] x[k] == d[k - n] by {}
        assert forall|k: int| 3 <= k < n - 1 implies #[trigger] a[k] == t[k - 3] by {}
        assert forall|i: int| 0 <= i && i + 2 < x.len() implies !(#[trigger] x[i] == '\n' && x[i
            + 1] == '\n' && x[i + 2] == '\n') by {
            if i >= n {
                assert(x[i] == d[i - n] && x[i + 1] == d[i + 1 - n] && x[i + 2] == d[i + 2 - n]);
            } else if i == n - 1 {
                assert(x[i + 2] == d[1]);
            } else if i + 1 == n - 1 {
                if i >= 3 {
                    assert(x[i] == t[i - 3]);
                } else {
                    assert(x[i] == a[i]);
                }
            } else if i == 0 {
                assert(x[1] == '-');
            } else {
                assert(x[i + 1] == a[i + 1]);
                if i + 1 >= 3 {
                    assert(a[i + 1] == t[i + 1 - 3]);
                }
            }
        }
    }
}

/// A text whose lines are an unordered list, each item on one line with its
/// marker and without a newline in its text, is rewritten to the items'
/// dashed lines, in their order, without numbers.
pub proof fn lemma_unordered_text_dashed(s: Seq<char>, b: Seq<char>, items: Seq<Seq<char>>, e: Seq<char>)
    requires
        lines(s) == seq![b] + items + seq![e],
        trim_start(b) == BEGIN_UNORDERED@,
        trim_start(e) == END_UNORDERED@,
        forall|i: int| 0 <= i < items.len() ==> is_inline_item(#[trigger] items[i]),
        forall|i: int| 0 <= i < items.len() ==> !is_control_line(#[trigger] items[i]),
        forall|i: int, j: int|
            0 <= i < items.len() && 0 <= j < inline_item_text(items[i]).len()
                ==> #[trigger] inline_item_text(items[i])[j] != '\n',
    ensures
        lists_fixed(s) == dashed(items),
{
    lemma_unordered_block_dashed(b, items, e);
    lemma_dashed_no_triple(items);
    lemma_collapse_without_triple(dashed(items));
}

/// The scan after one more line.
pub open spec fn scan_step(st: ListScan, line: Seq<char>) -> ListScan {
    let t = trim_start(line);
    if t == OUTLINE_STYLE@ {
        st
    } else if t == BEGIN_UNORDERED@ {
        (st.0, ListMode::Unordered, st.2)
    } else if t == BEGIN_ORDERED@ {
        (st.0, ListMode::Ordered, st.2)
    } else if (st.1 == ListMode::Unordered && t == END_UNORDERED@) || (st.1 == ListMode::Ordered
        && t == END_ORDERED@) {
        (st.0 + replay(st.2, st.1 == ListMode::Ordered, 1), ListMode::Plain, Seq::empty())
    } else if st.1 != ListMode::Plain {
        (st.0, st.1, st.2.push(line))
    } else {
        (st.0 + line + seq!['\n'], st.1, st.2)
    }
}

/// The scan after the lines `ls`.
pub open spec fn scan_lines(ls: Seq<Seq<char>>) -> ListScan
    decreases ls.len(),
{
    if ls.len() == 0 {
        (Seq::empty(), ListMode::Plain, Seq::empty())
    } else {
        scan_step(scan_lines(ls.drop_last()), ls.last())
    }
}

/// `s` with its lists rewritten, and runs of three newlines made two.
pub open spec fn lists_fixed(s: Seq<char>) -> Seq<char> {
    replaced(scan_lines(lines(s)).0, seq!['\n', '\n', '\n'], seq!['\n', '\n'])
}

/// Appends one item to `out`; its text is `v[from..]`.
fn push_item(out: &mut Vec<char>, ordered: bool, counter: usize, v: &Vec<char>, from: usize)
    requires
        from <= v@.len(),
    ensures
        final(out)@ == old(out)@ + item_entry(
            ordered,
            counter as nat,
            v@.subrange(from as int, v@.len() as int),
        ),
{
    out.push('\n');
    if ordered {
        push_decimal(out, counter);
        out.push('.');
    } else {
        out.push('-');
    }
    out.push(' ');
    extend_range(out, v, from, v.len());
    out.push('\n');
    assert(final(out)@ =~= old(out)@ + item_entry(
        ordered,
        counter as nat,
        v@.subrange(from as int, v@.len() as int),
    ));
}

/// Appends the held-back lines `buf` of a list, written out as items.
fn push_items(out: &mut Vec<char>, buf: &Vec<Vec<char>>, ordered: bool, item: &Vec<char>)
    requires
        item@ == ITEM@,
        buf@.len() < usize::MAX,
    ensures
        final(out)@ == old(out)@ + replay(views(buf@), ordered, 1),
{
    let ghost bv = views(buf@);
    let mut j: usize = 0;
    let mut counter: usize = 1;
    assert(bv.skip(0) == bv);
    assert(old(out)@ + replay(bv, ordered, 1) =~= out@ + replay(bv.skip(0), ordered, 1));
    while j < buf.len()
        invariant
            j <= buf@.len() < usize::MAX,
            1 <= counter <= j + 1,
            item@ == ITEM@,
            bv == views(buf@),
            old(out)@ + replay(bv, ordered, 1) == out@ + replay(bv.skip(j as int), ordered, counter as nat),
        decreases buf.len() - j,
    {
        let ghost rest = bv.skip(j as int);
        let ghost o0 = out@;
        let line = &buf[j];
        assert(rest[0] == line@);
        let a = skip_space(line, 0, line.len());
        assert(line@.subrange(0, line@.len() as int) == line@);
        if rest_equals(line, a, item) {
            if j + 1 < buf.len() {
                let next = &buf[j + 1];
                assert(rest[1] == next@);
                let b = skip_space(next, 0, next.len());
                assert(next@.subrange(0, next@.len() as int) == next@);
                push_item(out, ordered, counter, next, b);
                assert(rest.skip(2) == bv.skip(j + 2));
                assert(o0 + replay(rest, ordered, counter as nat) =~= out@ + replay(
                    bv.skip(j + 2),
                    ordered,
                    (counter + 1) as nat,
                ));
                j += 2;
            } else {
                let empty: Vec<char> = Vec::new();
                push_item(out, ordered, counter, &empty, 0);
                assert(empty@.subrange(0, 0) == Seq::<char>::empty());
                assert(bv.skip(j + 1).len() == 0);
                assert(o0 + replay(rest, ordered, counter as nat) =~= out@ + replay(
                    bv.skip(j + 1),
                    ordered,
                    (counter + 1) as nat,
                ));
                j += 1;
            }
            counter += 1;
        } else if rest_starts_with(line, a, item) {
            let ghost b = line@.subrange(a as int, line@.len() as int);
            let c = skip_space(line, a + item.len(), line.len());
            assert(b.skip(item@.len() as int) == line@.subrange(a + item@.len(), line@.len() as int));
            push_item(out, ordered, counter, line, c);
            assert(rest.skip(1) == bv.skip(j + 1));
            assert(o0 + replay(rest, ordered, counter as nat) =~= out@ + replay(
                bv.skip(j + 1),
                ordered,
                (counter + 1) as nat,
            ));
            j += 1;
            counter += 1;
        } else {
            extend(out, line);
            out.push('\n');
            assert(rest.skip(1) == bv.skip(j + 1));
            assert(o0 + replay(rest, ordered, counter as nat) =~= out@ + replay(
                bv.skip(j + 1),
                ordered,
                counter as nat,
            ));
            j += 1;
        }
    }
    assert(bv.skip(j as int).len() == 0);
    assert(out@ + replay(bv.skip(j as int), ordered, counter as nat) =~= out@);
}

/// `text` with each list block rewritten as plain lines: `1. text` for the
/// items of an ordered list, `- text` for those of an unordered one. The
/// lines that open and close a block, and the outline-style definition,
/// are dropped.
pub fn fix_lists_text(text: &str) -> (r: String)
    ensures
        r@ == lists_fixed(text@),
{
    let chars = to_chars(text);
    let ls = split_lines(&chars);
    let outline = to_chars(OUTLINE_STYLE);
    let begin_u = to_chars(BEGIN_UNORDERED);
    let end_u = to_chars(END_UNORDERED);
    let begin_o = to_chars(BEGIN_ORDERED);
    let end_o = to_chars(END_ORDERED);
    let item = to_chars(ITEM);
    let ghost lv = views(ls@);
    let mut out: Vec<char> = Vec::new();
    let mut mode = ListMode::Plain;
    let mut buf: Vec<Vec<char>> = Vec::new();
    let mut k: usize = 0;
    assert(lv.take(0) == Seq::<Seq<char>>::empty());
    assert(views(buf@) =~= Seq::<Seq<char>>::empty());
    while k < ls.len()
        invariant
            k <= ls@.len(),
            lv == views(ls@),
            lv == lines(text@),
            outline@ == OUTLINE_STYLE@,
            begin_u@ == BEGIN_UNORDERED@,
            end_u@ == END_UNORDERED@,
            begin_o@ == BEGIN_ORDERED@,
            end_o@ == END_ORDERED@,
            item@ == ITEM@,
            buf@.len() <= k,
            scan_lines(lv.take(k as int)) == (out@, mode, views(buf@)),
        decreases ls.len() - k,
    {
        let line = &ls[k];
        assert(lv.take(k + 1).drop_last() == lv.take(k as int));
        assert(lv.take(k + 1).last() == line@);
        let a = skip_space(line, 0, line.len());
        assert(line@.subrange(0, line@.len() as int) == line@);
        if rest_equals(line, a, &outline) {
        } else if rest_equals(line, a, &begin_u) {
            mode = ListMode::Unordered;
        } else if rest_equals(line, a, &begin_o) {
            mode = ListMode::Ordered;
        } else if (mode == ListMode::Unordered && rest_equals(line, a, &end_u)) || (mode
            == ListMode::Ordered && rest_equals(line, a, &end_o)) {
            push_items(&mut out, &buf, mode == ListMode::Ordered, &item);
            buf = Vec::new();
            mode = ListMode::Plain;
            assert(views(buf@) =~= Seq::<Seq<char>>::empty());
        } else if mode != ListMode::Plain {
            let ghost b0 = views(buf@);
            buf.push(line.clone());
            assert(views(buf@) =~= b0.push(line@));
        } else {
            extend(&mut out, line);
            out.push('\n');
        }
        k += 1;
    }
    assert(lv.take(ls@.len() as int) == lv);
    let mut nl3: Vec<char> = Vec::new();
    nl3.push('\n');
    nl3.push('\n');
    nl3.push('\n');
    let mut nl2: Vec<char> = Vec::new();
    nl2.push('\n');
    nl2.push('\n');
    assert(nl3@ =~= seq!['\n', '\n', '\n']);
    assert(nl2@ =~= seq!['\n', '\n']);
    let fixed = replace_all_chars(&out, &nl3, &nl2);
    from_chars(&fixed)
}

} // verus!
