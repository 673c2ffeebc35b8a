//! Removal of a command together with its brace-delimited argument.
use vstd::prelude::*;
use crate::text::{contains, occurs_at, occurs_at_exec, starts_with, to_chars, from_chars};

verus! {

/// The token that opens the command `tag`: a backslash, the name, a brace.
pub open spec fn tag_open(tag: Seq<char>) -> Seq<char> {
    seq!['\\'] + tag + seq!['{']
}

/// What is left of `s` after every command that `open` starts is removed up
/// to its matching closing brace. `depth` counts the braces still open in a
/// command being removed; 0 means none is.
pub open spec fn strip_commands(s: Seq<char>, open: Seq<char>, depth: nat) -> Seq<char>
    decreases s.len(),
{
    if s.len() == 0 {
        s
    } else if depth == 0 {
        if open.len() > 0 && starts_with(s, open) {
            strip_commands(s.skip(open.len() as int), open, 1)
        } else {
            seq![s[0]] + strip_commands(s.skip(1), open, 0)
        }
    } else {
        let d: nat = if s[0] == '{' {
            depth + 1
        } else if s[0] == '}' {
            (depth - 1) as nat
        } else {
            depth
        };
        strip_commands(s.skip(1), open, d)
    }
}

/// `s` with every `\tag{...}` removed; one left open runs to the end.
pub open spec fn tag_removed(s: Seq<char>, tag: Seq<char>) -> Seq<char> {
    strip_commands(s, tag_open(tag), 0)
}

/// Text in which the command does not occur is left as it is.
pub proof fn lemma_tag_absent_unchanged(s: Seq<char>, tag: Seq<char>)
    requires
        !contains(s, tag_open(tag)),
    ensures
        tag_removed(s, tag) == s,
    decreases s.len(),
{
    let open = tag_open(tag);
    if s.len() > 0 {
        if starts_with(s, open) {
            assert(occurs_at(s, open, 0));
        }
        assert forall|i: int| !occurs_at(s.skip(1), open, i) by {
            if occurs_at(s.skip(1), open, i) {
                assert(s.skip(1).subrange(i, i + open.len()) == s.subrange(i + 1, i + 1 + open.len()));
                assert(occurs_at(s, open, i + 1));
            }
        }
        lemma_tag_absent_unchanged(s.skip(1), tag);
        assert(s == seq![s[0]] + s.skip(1));
    }
}

/// Removing a command again changes nothing once the first removal left no
/// occurrence of it.
pub proof fn lemma_tag_removal_idempotent(s: Seq<char>, tag: Seq<char>)
    requires
        !contains(tag_removed(s, tag), tag_open(tag)),
    ensures
        tag_removed(tag_removed(s, tag), tag) == tag_removed(s, tag),
{
    lemma_tag_absent_unchanged(tag_removed(s, tag), tag);
}

/// `text` with every `\tag{...}` removed, braces inside the argument
/// counted; a command whose argument is never closed takes the rest of the
/// text with it.
pub fn remove_tag(text: &str, tag: &str) -> (r: String)
    ensures
        r@ == tag_removed(text@, tag@),
{
    let s = to_chars(text);
    let t = to_chars(tag);
    let mut open: Vec<char> = Vec::new();
    open.push('\\');
    let mut k: usize = 0;
    while k < t.len()
        invariant
            k <= t@.len(),
            open@ == seq!['\\'] + t@.take(k as int),
        decreases t.len() - k,
    {
        open.push(t[k]);
        assert(t@.take(k + 1) == t@.take(k as int).push(t@[k as int]));
        k += 1;
    }
    open.push('{');
    assert(t@.take(t@.len() as int) == t@);
    assert(open@ == tag_open(tag@));
    let mut out: Vec<char> = Vec::new();
    let mut i: usize = 0;
    let mut depth: usize = 0;
    assert(s@.skip(0) == s@);
    while i < s.len()
        invariant
            i <= s@.len(),
            depth <= i,
            open@ == tag_open(tag@),
            tag_removed(text@, tag@) == out@ + strip_commands(s@.skip(i as int), open@, depth as nat),
            s@ == text@,
        decreases s.len() - i,
    {
        let ghost rest = s@.skip(i as int);
        if depth == 0 {
            if occurs_at_exec(&s, &open, i) {
                assert(rest.take(open@.len() as int) == s@.subrange(i as int, i + open@.len()));
                assert(rest.skip(open@.len() as int) == s@.skip(i + open@.len()));
                i += open.len();
                depth = 1;
            } else {
                proof {
                    if open@.len() <= rest.len() {
                        assert(rest.take(open@.len() as int) == s@.subrange(i as int, i + open@.len()));
                    }
                    assert(rest.skip(1) == s@.skip(i + 1));
                }
                let ghost o0 = out@;
                out.push(s[i]);
                assert(o0 + (seq![rest[0]] + strip_commands(rest.skip(1), open@, 0)) =~= out@
                    + strip_commands(s@.skip(i + 1), open@, 0));
                i += 1;
            }
        } else {
            assert(rest.skip(1) == s@.skip(i + 1));
            if s[i] == '{' {
                depth += 1;
            } else if s[i] == '}' {
                depth -= 1;
            }
            i += 1;
        }
    }
    assert(s@.skip(s@.len() as int) =~= Seq::<char>::empty());
    assert(out@ + Seq::<char>::empty() =~= out@);
    from_chars(&out)
}

} // verus!
