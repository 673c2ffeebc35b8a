//! What the update of a project computes: the names of the article
//! fragments, the lines that include them in the main document, which
//! changed files to ignore, and when to rebuild.
use vstd::prelude::*;
use crate::text::{
    contains, contains_exec, decimal, ends_with, ends_with_exec, extend, extend_range, from_chars,
    occurs_at_exec, push_decimal, string_of_range, rest_equals, rest_starts_with, starts_with, string_views,
    to_chars, trim, trim_range,
};

verus! {

/// The line of the main document after which the articles are included.
pub const MAIN_CONTENT: &'static str = "% Main content";
/// The folder of a .docx archive that holds its embedded media.
pub const MEDIA_PREFIX: &'static str = "word/media/";
/// How long, in milliseconds, changes must have stopped before a rebuild.
pub const DEBOUNCE_MS: u64 = 500;

/// `n` in decimal, padded with zeros to three digits at least.
pub open spec fn padded3(n: nat) -> Seq<char> {
    let d = decimal(n);
    if d.len() < 3 {
        Seq::new((3 - d.len()) as nat, |i: int| '0') + d
    } else {
        d
    }
}

/// The file name of the article numbered `n`.
pub open spec fn fragment_file(n: nat) -> Seq<char> {
    padded3(n) + ".tex"@
}

/// The line that includes article `n` of part `part`, with its newline.
pub open spec fn inclusion(part: Seq<char>, n: nat) -> Seq<char> {
    "\\input{src/"@ + part + "/"@ + fragment_file(n) + "}\n"@
}

/// The inclusions of articles `1..=count` of part `part`, in order.
pub open spec fn inclusions(part: Seq<char>, count: nat) -> Seq<char>
    decreases count,
{
    if count == 0 {
        Seq::empty()
    } else {
        inclusions(part, (count - 1) as nat) + inclusion(part, count)
    }
}

/// Where the first main-content line of `doc` ends (at its newline, or at
/// the end of the text), scanning from position `i` of a line that began at
/// `start`. A line is the main-content line when it is that once trimmed.
pub open spec fn sentinel_end(doc: Seq<char>, start: int, i: int) -> Option<int>
    decreases doc.len() - i,
{
    if i >= doc.len() {
        if start < doc.len() && trim(doc.subrange(start, doc.len() as int)) == MAIN_CONTENT@ {
            Some(doc.len() as int)
        } else {
            None
        }
    } else if doc[i] == '\n' {
        if trim(doc.subrange(start, i)) == MAIN_CONTENT@ {
            Some(i)
        } else {
            sentinel_end(doc, i + 1, i + 1)
        }
    } else {
        sentinel_end(doc, start, i + 1)
    }
}

/// The document `doc` with `block` inserted after its first main-content
/// line, and the rest left as it is; without such a line, `doc` itself.
pub open spec fn with_inclusions(doc: Seq<char>, block: Seq<char>) -> Seq<char> {
    match sentinel_end(doc, 0, 0) {
        None => doc,
        Some(e) => if e < doc.len() {
            doc.take(e + 1) + block + doc.skip(e + 1)
        } else {
            doc + seq!['\n'] + block
        },
    }
}

/// A changed file that does not trigger a rebuild: an editor's temporary,
/// backup, swap or undo file, or anything under a `build` directory.
pub open spec fn ignored(name: Seq<char>, components: Seq<Seq<char>>) -> bool {
    ||| starts_with(name, ".#"@)
    ||| ends_with(name, "~"@)
    ||| contains(name, "undo-tree"@)
    ||| ends_with(name, ".swp"@)
    ||| ends_with(name, ".tmp"@)
    ||| exists|i: int| 0 <= i < components.len() && components[i] == "build"@
}

/// A path component that names something: neither empty nor `.`.
pub open spec fn named(c: Seq<char>) -> bool {
    c.len() > 0 && c != seq!['.']
}

/// The last component of the path `p + cur` that names something, where
/// `cur` is the part already read, from the right, of a component that `p`
/// may continue; empty if there is none.
pub open spec fn last_named(p: Seq<char>, cur: Seq<char>) -> Seq<char>
    decreases p.len(),
{
    if p.len() == 0 {
        if named(cur) {
            cur
        } else {
            Seq::empty()
        }
    } else if p.last() == '/' {
        if named(cur) {
            cur
        } else {
            last_named(p.drop_last(), Seq::empty())
        }
    } else {
        last_named(p.drop_last(), seq![p.last()] + cur)
    }
}

/// The final component of the path `p`, as `Path::file_name` gives it where
/// `/` is the separator: repeated and trailing separators and `.` components
/// are passed over; a final `..`, or no component, gives none.
pub open spec fn file_name_of(p: Seq<char>) -> Option<Seq<char>> {
    let c = last_named(p, Seq::empty());
    if c.len() > 0 && c != seq!['.', '.'] {
        Some(c)
    } else {
        None
    }
}

/// The file name under which the archive entry `entry` is extracted: the
/// final component of an entry of the media folder.
pub open spec fn media_file(entry: Seq<char>) -> Option<Seq<char>> {
    if starts_with(entry, MEDIA_PREFIX@) {
        file_name_of(entry)
    } else {
        None
    }
}

/// The range of `v` that holds its last component that names something
/// (see `last_named`); an empty range if there is none.
fn last_component(v: &Vec<char>) -> (r: (usize, usize))
    ensures
        r.0 <= r.1 <= v@.len(),
        v@.subrange(r.0 as int, r.1 as int) == last_named(v@, Seq::empty()),
{
    let n = v.len();
    let mut j: usize = n;
    let mut k: usize = n;
    assert(v@.take(n as int) == v@);
    assert(v@.subrange(n as int, n as int) =~= Seq::<char>::empty());
    while j > 0
        invariant
            j <= k <= n == v@.len(),
            last_named(v@, Seq::empty()) == last_named(v@.take(j as int), v@.subrange(j as int, k as int)),
        decreases j,
    {
        let ghost p = v@.take(j as int);
        assert(p.drop_last() == v@.take(j - 1));
        assert(p.last() == v@[j - 1]);
        if v[j - 1] == '/' {
            let named_here = k > j && !(k - j == 1 && v[j] == '.');
            proof {
                let c = v@.subrange(j as int, k as int);
                if k - j == 1 {
                    assert(c =~= seq![v@[j as int]]);
                    assert(c[0] == v@[j as int]);
                    assert(seq!['.'][0] == '.');
                } else {
                    assert(c.len() != seq!['.'].len());
                }
            }
            assert(named_here == named(v@.subrange(j as int, k as int)));
            if named_here {
                return (j, k);
            }
            assert(v@.subrange(j - 1, j - 1) =~= Seq::<char>::empty());
            k = j - 1;
        } else {
            assert(seq![v@[j - 1]] + v@.subrange(j as int, k as int) =~= v@.subrange(j - 1, k as int));
        }
        j -= 1;
    }
    let named_here = k > 0 && !(k == 1 && v[0] == '.');
    proof {
        if k == 1 {
            assert(v@.subrange(0, 1) =~= seq![v@[0]]);
        }
    }
    assert(named_here == named(v@.subrange(0, k as int)));
    if named_here {
        (0, k)
    } else {
        (0, 0)
    }
}

/// The file name under which the archive entry `entry` is extracted, if it
/// is a file of the media folder (see `media_file`).
pub fn media_file_name(entry: &str) -> (r: Option<String>)
    ensures
        r matches Some(s) ==> media_file(entry@) == Some(s@),
        r is None ==> media_file(entry@) is None,
{
    let v = to_chars(entry);
    assert(v@.subrange(0, v@.len() as int) == v@);
    if !rest_starts_with(&v, 0, &to_chars(MEDIA_PREFIX)) {
        return None;
    }
    let (a, b) = last_component(&v);
    if b == a || (b - a == 2 && v[a] == '.' && v[a + 1] == '.') {
        assert(b - a == 2 ==> v@.subrange(a as int, b as int) =~= seq![v@[a as int], v@[a + 1]]);
        return None;
    }
    assert(b - a == 2 ==> v@.subrange(a as int, b as int) =~= seq![v@[a as int], v@[a + 1]]);
    Some(string_of_range(&v, a, b))
}

fn push_padded3(out: &mut Vec<char>, n: usize)
    ensures
        final(out)@ == old(out)@ + padded3(n as nat),
{
    let mut d: Vec<char> = Vec::new();
    push_decimal(&mut d, n);
    assert(d@ =~= decimal(n as nat));
    let mut k: usize = d.len();
    let ghost o0 = out@;
    while k < 3
        invariant
            d@ == decimal(n as nat),
            d@.len() <= k <= 3 || (d@.len() >= 3 && k == d@.len()),
            out@ == o0 + Seq::new((k - d@.len()) as nat, |i: int| '0'),
        decreases 3 - k,
    {
        out.push('0');
        assert(out@ =~= o0 + Seq::new((k + 1 - d@.len()) as nat, |i: int| '0'));
        k += 1;
    }
    extend(out, &d);
    assert(out@ =~= o0 + padded3(n as nat));
}

/// The file name of the article numbered `number`: three digits at least,
/// then `.tex`.
pub fn fragment_name(number: usize) -> (r: String)
    ensures
        r@ == fragment_file(number as nat),
{
    let mut v: Vec<char> = Vec::new();
    push_padded3(&mut v, number);
    let s = from_chars(&v);
    s.concat(".tex")
}

/// The lines that include the articles `1..=count` of part `part_name`.
pub fn inclusion_block(part_name: &str, count: usize) -> (r: String)
    ensures
        r@ == inclusions(part_name@, count as nat),
{
    let mut r = String::new();
    let mut n: usize = 0;
    while n < count
        invariant
            n <= count,
            r@ == inclusions(part_name@, n as nat),
        decreases count - n,
    {
        let line = String::from_str("\\input{src/");
        let line = line.concat(part_name);
        let line = line.concat("/");
        let name = fragment_name(n + 1);
        let line = line.concat(name.as_str());
        let line = line.concat("}\n");
        r = r.concat(line.as_str());
        assert(r@ =~= inclusions(part_name@, (n + 1) as nat));
        n += 1;
    }
    r
}

/// Whether `v[start..end]`, trimmed, is the main-content line.
fn is_main_line(v: &Vec<char>, marker: &Vec<char>, start: usize, end: usize) -> (r: bool)
    requires
        start <= end <= v@.len(),
        marker@ == MAIN_CONTENT@,
    ensures
        r == (trim(v@.subrange(start as int, end as int)) == MAIN_CONTENT@),
{
    let (a, b) = trim_range(v, start, end);
    if b - a != marker.len() {
        return false;
    }
    occurs_at_exec(v, marker, a)
}

/// Where the first main-content line of `v` ends (see `sentinel_end`).
fn find_sentinel(v: &Vec<char>) -> (r: Option<usize>)
    ensures
        match r {
            Some(e) => sentinel_end(v@, 0, 0) == Some(e as int) && e <= v@.len(),
            None => sentinel_end(v@, 0, 0) is None,
        },
{
    let marker = to_chars(MAIN_CONTENT);
    let n = v.len();
    let mut start: usize = 0;
    let mut i: usize = 0;
    while i < n
        invariant
            start <= i <= n == v@.len(),
            marker@ == MAIN_CONTENT@,
            sentinel_end(v@, 0, 0) == sentinel_end(v@, start as int, i as int),
        decreases n - i,
    {
        if v[i] == '\n' {
            if is_main_line(v, &marker, start, i) {
                return Some(i);
            }
            start = i + 1;
        }
        i += 1;
    }
    if start < n && is_main_line(v, &marker, start, n) {
        Some(n)
    } else {
        None
    }
}

/// `doc` with `block` inserted right after the first line that, trimmed, is
/// the main-content line; everything else is left as it is.
pub fn insert_inclusions(doc: &str, block: &str) -> (r: String)
    ensures
        r@ == with_inclusions(doc@, block@),
{
    let chars = to_chars(doc);
    let blk = to_chars(block);
    let n = chars.len();
    match find_sentinel(&chars) {
        None => from_chars(&chars),
        Some(e) => {
            let mut out: Vec<char> = Vec::new();
            if e < n {
                extend_range(&mut out, &chars, 0, e + 1);
                extend(&mut out, &blk);
                extend_range(&mut out, &chars, e + 1, n);
                assert(out@ =~= chars@.take(e + 1) + blk@ + chars@.skip(e + 1));
            } else {
                extend_range(&mut out, &chars, 0, n);
                out.push('\n');
                extend(&mut out, &blk);
                assert(chars@.subrange(0, n as int) == chars@);
                assert(out@ =~= chars@ + seq!['\n'] + blk@);
            }
            from_chars(&out)
        },
    }
}

/// Whether a change to the file `file_name`, whose path has the components
/// `components`, is ignored (see `ignored`).
pub fn is_ignored(file_name: &str, components: &Vec<String>) -> (r: bool)
    ensures
        r == ignored(file_name@, string_views(components@)),
{
    let name = to_chars(file_name);
    let r = rest_starts_with(&name, 0, &to_chars(".#")) || ends_with_exec(&name, &to_chars("~"))
        || contains_exec(&name, &to_chars("undo-tree")) || ends_with_exec(&name, &to_chars(".swp"))
        || ends_with_exec(&name, &to_chars(".tmp"));
    assert(name@.subrange(0, name@.len() as int) == name@);
    if r {
        return true;
    }
    let build = to_chars("build");
    let mut i: usize = 0;
    while i < components.len()
        invariant
            i <= components@.len(),
            build@ == "build"@,
            forall|j: int| 0 <= j < i ==> string_views(components@)[j] != "build"@,
        decreases components.len() - i,
    {
        let c = to_chars(components[i].as_str());
        if c.len() == build.len() && rest_equals(&c, 0, &build) {
            assert(c@.subrange(0, c@.len() as int) == c@);
            assert(string_views(components@)[i as int] == "build"@);
            return true;
        }
        assert(c@.subrange(0, c@.len() as int) == c@);
        i += 1;
    }
    false
}

/// What the watcher saw: changes to files that matter, something else, or
/// a quiet spell that has lasted `quiet_ms` milliseconds since the last
/// change that mattered.
pub enum WatchEvent {
    Changed,
    Other,
    Quiet { quiet_ms: u64 },
}

/// The watcher's next state (whether a rebuild is pending) and whether to
/// rebuild now.
pub open spec fn watch_next(pending: bool, event: WatchEvent) -> (bool, bool) {
    match event {
        WatchEvent::Changed => (true, false),
        WatchEvent::Other => (pending, false),
        WatchEvent::Quiet { quiet_ms } => if pending && quiet_ms >= DEBOUNCE_MS {
            (false, true)
        } else {
            (pending, false)
        },
    }
}

/// One decision of the watch loop: a change makes a rebuild pending; a
/// pending rebuild runs once changes have been quiet long enough.
pub fn watch_step(pending: bool, event: WatchEvent) -> (r: (bool, bool))
    ensures
        r == watch_next(pending, event),
{
    match event {
        WatchEvent::Changed => (true, false),
        WatchEvent::Other => (pending, false),
        WatchEvent::Quiet { quiet_ms } => if pending && quiet_ms >= DEBOUNCE_MS {
            (false, true)
        } else {
            (pending, false)
        },
    }
}

} // verus!
