//! The rewrite of a macOS bundle's metadata descriptor (`Info.plist`): the
//! bundle identifier and name take the project's values, and the
//! exported-type declarations of the generic runtime are cut out. The
//! descriptor is handled as lines of text, in the fixed layout the runtime
//! ships it in: a key on one line, its string value on the next, indented by
//! one tab.
use crate::text::{chars_of, string_from_chars};
use crate::types::{BuildError, Project};
use vstd::prelude::*;

verus! {

/// The lines of `t`, split at each newline; a text with `n` newlines has
/// `n + 1` lines.
pub open spec fn lines_of(t: Seq<char>) -> Seq<Seq<char>>
    decreases t.len(),
{
    if t.len() == 0 {
        seq![Seq::empty()]
    } else {
        let prev = lines_of(t.drop_last());
        if t.last() == '\n' {
            prev.push(Seq::empty())
        } else {
            prev.update(prev.len() - 1, prev.last().push(t.last()))
        }
    }
}

/// The lines joined by newlines.
pub open spec fn join_lines(lines: Seq<Seq<char>>) -> Seq<char>
    decreases lines.len(),
{
    if lines.len() == 0 {
        Seq::empty()
    } else if lines.len() == 1 {
        lines[0]
    } else {
        join_lines(lines.drop_last()) + seq!['\n'] + lines.last()
    }
}

proof fn lemma_lines_of_not_empty(t: Seq<char>)
    ensures
        lines_of(t).len() >= 1,
    decreases t.len(),
{
    if t.len() > 0 {
        lemma_lines_of_not_empty(t.drop_last());
    }
}

/// Joining the lines of a text gives the text back.
pub proof fn lemma_join_lines_of(t: Seq<char>)
    ensures
        join_lines(lines_of(t)) == t,
    decreases t.len(),
{
    if t.len() > 0 {
        let s = t.drop_last();
        lemma_join_lines_of(s);
        lemma_lines_of_not_empty(s);
        let prev = lines_of(s);
        if t.last() == '\n' {
            assert(prev.push(Seq::empty()).drop_last() =~= prev);
            assert(join_lines(prev) + seq!['\n'] + Seq::<char>::empty() =~= t);
        } else {
            let cur = prev.update(prev.len() - 1, prev.last().push(t.last()));
            if prev.len() == 1 {
                assert(cur[0] =~= s.push(t.last()));
            } else {
                assert(cur.drop_last() =~= prev.drop_last());
                assert(join_lines(prev.drop_last()) + seq!['\n'] + prev.last().push(t.last())
                    =~= join_lines(prev).push(t.last()));
            }
            assert(s.push(t.last()) =~= t);
        }
    }
}

pub open spec fn lines_view(lines: Seq<Vec<char>>) -> Seq<Seq<char>> {
    lines.map_values(|l: Vec<char>| l@)
}

/// The lines of `t`.
pub fn split_lines(t: &Vec<char>) -> (r: Vec<Vec<char>>)
    ensures
        lines_view(r@) == lines_of(t@),
{
    let mut done: Vec<Vec<char>> = Vec::new();
    let mut cur: Vec<char> = Vec::new();
    for i in 0..t.len()
        invariant
            lines_view(done@).push(cur@) == lines_of(t@.take(i as int)),
    {
        let ghost before = t@.take(i as int);
        proof {
            assert(t@.take(i + 1).drop_last() =~= before);
            lemma_lines_of_not_empty(before);
        }
        let c = t[i];
        if c == '\n' {
            let finished = cur;
            done.push(finished);
            cur = Vec::new();
            assert(lines_view(done@).push(cur@) =~= lines_of(before).push(Seq::empty()));
        } else {
            cur.push(c);
            assert(lines_view(done@).push(cur@) =~= lines_of(before).update(
                lines_of(before).len() - 1,
                lines_of(before).last().push(c),
            ));
        }
    }
    done.push(cur);
    assert(t@.take(t@.len() as int) =~= t@);
    assert(lines_view(done@) =~= lines_of(t@));
    done
}

/// The lines joined by newlines.
pub fn join_line_vecs(lines: &Vec<Vec<char>>) -> (r: Vec<char>)
    ensures
        r@ == join_lines(lines_view(lines@)),
{
    let mut r: Vec<char> = Vec::new();
    let ghost all = lines_view(lines@);
    for i in 0..lines.len()
        invariant
            all == lines_view(lines@),
            r@ == join_lines(all.take(i as int)),
    {
        let ghost next = all.take(i + 1);
        proof {
            assert(next.drop_last() =~= all.take(i as int));
        }
        if i > 0 {
            r.push('\n');
        }
        let line = &lines[i];
        let ghost start = r@;
        for k in 0..line.len()
            invariant
                r@ == start + line@.take(k as int),
        {
            r.push(line[k]);
            assert(r@ =~= start + line@.take(k + 1));
        }
        proof {
            assert(line@.take(line@.len() as int) =~= line@);
            if i == 0 {
                assert(r@ =~= next[0]);
            }
        }
    }
    assert(all.take(lines@.len() as int) =~= all);
    r
}

/// The first index in `[s, n)` that satisfies `p`.
pub open spec fn first_from(n: int, p: spec_fn(int) -> bool, s: int) -> Option<int>
    decreases n - s,
{
    if s >= n {
        None
    } else if p(s) {
        Some(s)
    } else {
        first_from(n, p, s + 1)
    }
}

pub proof fn lemma_first_from(n: int, p: spec_fn(int) -> bool, s: int)
    ensures
        match first_from(n, p, s) {
            Some(i) => s <= i < n && p(i) && forall|k: int| s <= k < i ==> !#[trigger] p(k),
            None => forall|k: int| s <= k < n ==> !#[trigger] p(k),
        },
    decreases n - s,
{
    if s < n && !p(s) {
        lemma_first_from(n, p, s + 1);
    }
}

/// Whether `pat` occurs in `s` at position `p`.
pub open spec fn occurs_at(s: Seq<char>, pat: Seq<char>, p: int) -> bool {
    0 <= p && p + pat.len() <= s.len() && s.subrange(p, p + pat.len()) == pat
}

pub open spec fn contains_text(s: Seq<char>, pat: Seq<char>) -> bool {
    exists|p: int| occurs_at(s, pat, p)
}

pub open spec fn open_tag() -> Seq<char> {
    "\t<string>"@
}

pub open spec fn close_tag() -> Seq<char> {
    "</string>"@
}

pub open spec fn identifier_key() -> Seq<char> {
    "CFBundleIdentifier"@
}

pub open spec fn name_key() -> Seq<char> {
    "CFBundleName"@
}

pub open spec fn block_key() -> Seq<char> {
    "\t<key>UTExportedTypeDeclarations"@
}

pub open spec fn block_close() -> Seq<char> {
    "\t</array>"@
}

/// The last position below `q` where a closing tag starts after the opening one.
pub open spec fn last_close_below(l: Seq<char>, q: int) -> Option<int>
    decreases q,
{
    if q <= open_tag().len() {
        None
    } else if occurs_at(l, close_tag(), q - 1) {
        Some(q - 1)
    } else {
        last_close_below(l, q - 1)
    }
}

pub proof fn lemma_last_close_below(l: Seq<char>, q: int)
    ensures
        match last_close_below(l, q) {
            Some(c) => open_tag().len() <= c < q && occurs_at(l, close_tag(), c) && forall|k: int|
                c < k < q ==> !#[trigger] occurs_at(l, close_tag(), k),
            None => forall|k: int| open_tag().len() <= k < q ==> !#[trigger] occurs_at(l, close_tag(), k),
        },
    decreases q,
{
    if q > open_tag().len() && !occurs_at(l, close_tag(), q - 1) {
        lemma_last_close_below(l, q - 1);
    }
}

/// Where the value of a string line ends: its last closing tag.
pub open spec fn last_close(l: Seq<char>) -> Option<int> {
    last_close_below(l, l.len() as int)
}

/// A line that holds a string value: one tab, the opening tag, the value,
/// the closing tag.
pub open spec fn is_value_line(l: Seq<char>) -> bool {
    occurs_at(l, open_tag(), 0) && last_close(l) is Some
}

/// The string line `l` with its value replaced by `v`.
pub open spec fn with_value(l: Seq<char>, v: Seq<char>) -> Seq<char> {
    open_tag() + v + l.skip(last_close(l).unwrap())
}

/// Whether line `i` names `key` and the next line holds its value.
pub open spec fn field_at(lines: Seq<Seq<char>>, key: Seq<char>, i: int) -> bool {
    0 <= i && i + 1 < lines.len() && contains_text(lines[i], key) && is_value_line(lines[i + 1])
}

/// The first line that names `key` with its value on the next line.
pub open spec fn first_field(lines: Seq<Seq<char>>, key: Seq<char>) -> Option<int> {
    first_from(lines.len() as int, |i: int| field_at(lines, key, i), 0)
}

proof fn lemma_first_field(lines: Seq<Seq<char>>, key: Seq<char>)
    ensures
        match first_field(lines, key) {
            Some(i) => field_at(lines, key, i) && forall|k: int| 0 <= k < i ==> !#[trigger] field_at(lines, key, k),
            None => forall|k: int| !#[trigger] field_at(lines, key, k),
        },
{
    let pred = |i: int| field_at(lines, key, i);
    lemma_first_from(lines.len() as int, pred, 0);
    if first_field(lines, key) is None {
        assert forall|k: int| !#[trigger] field_at(lines, key, k) by {
            if 0 <= k < lines.len() {
                assert(!pred(k));
            }
        }
    } else {
        let i = first_field(lines, key).unwrap();
        assert(pred(i));
        assert forall|k: int| 0 <= k < i implies !#[trigger] field_at(lines, key, k) by {
            assert(!pred(k));
        }
    }
}

/// The lines with the value of the first `key` field set to `value`, or
/// `None` where there is no such field.
pub open spec fn set_field(lines: Seq<Seq<char>>, key: Seq<char>, value: Seq<char>) -> Option<
    Seq<Seq<char>>,
> {
    match first_field(lines, key) {
        Some(i) => Some(lines.update(i + 1, with_value(lines[i + 1], value))),
        None => None,
    }
}

pub open spec fn block_start(l: Seq<char>) -> bool {
    occurs_at(l, block_key(), 0)
}

/// Whether line `j` closes a block, with a newline after it.
pub open spec fn block_end_at(lines: Seq<Seq<char>>, j: int) -> bool {
    0 <= j && j + 1 < lines.len() && lines[j] == block_close()
}

/// The lines from `s` on, with each exported-type block cut out: from a line
/// that starts with the declaration key through the first later line that
/// closes the top-level array.
pub open spec fn remove_blocks_from(lines: Seq<Seq<char>>, s: int) -> Seq<Seq<char>>
    decreases lines.len() - s,
{
    if s < 0 || s >= lines.len() {
        Seq::empty()
    } else {
        match first_from(lines.len() as int, |i: int| block_start(lines[i]), s) {
            None => lines.skip(s),
            Some(i) => match first_from(lines.len() as int, |j: int| block_end_at(lines, j), i + 1) {
                None => lines.skip(s),
                Some(j) => if s <= i < j < lines.len() {
                    lines.subrange(s, i) + remove_blocks_from(lines, j + 1)
                } else {
                    lines.skip(s)
                },
            },
        }
    }
}

pub open spec fn remove_blocks(lines: Seq<Seq<char>>) -> Seq<Seq<char>> {
    remove_blocks_from(lines, 0)
}

/// The lines of a rewritten descriptor: the first bundle identifier set to
/// `uti`, then the first bundle name set to `title`, then the exported-type
/// blocks cut out. `None` where either field is missing.
pub open spec fn rewritten_lines(lines: Seq<Seq<char>>, uti: Seq<char>, title: Seq<char>) -> Option<
    Seq<Seq<char>>,
> {
    match set_field(lines, identifier_key(), uti) {
        None => None,
        Some(a) => match set_field(a, name_key(), title) {
            None => None,
            Some(b) => Some(remove_blocks(b)),
        },
    }
}

/// The rewritten descriptor text.
pub open spec fn rewritten_descriptor(text: Seq<char>, uti: Seq<char>, title: Seq<char>) -> Option<
    Seq<char>,
> {
    match rewritten_lines(lines_of(text), uti, title) {
        Some(ls) => Some(join_lines(ls)),
        None => None,
    }
}

/// Whether `pat` occurs in `s` at position `p`.
fn occurs_at_exec(s: &Vec<char>, pat: &Vec<char>, p: usize) -> (r: bool)
    ensures
        r == occurs_at(s@, pat@, p as int),
{
    let n = s.len();
    if p > n || pat.len() > n - p {
        return false;
    }
    for k in 0..pat.len()
        invariant
            n == s@.len(),
            p + pat@.len() <= s@.len(),
            forall|j: int| 0 <= j < k ==> s@[p + j] == pat@[j],
    {
        if s[p + k] != pat[k] {
            assert(s@.subrange(p as int, p + pat@.len())[k as int] != pat@[k as int]);
            return false;
        }
    }
    assert(s@.subrange(p as int, p + pat@.len()) =~= pat@);
    true
}

/// Whether `a` and `b` hold the same characters.
fn same_chars(a: &Vec<char>, b: &Vec<char>) -> (r: bool)
    ensures
        r == (a@ == b@),
{
    if a.len() != b.len() {
        return false;
    }
    let r = occurs_at_exec(a, b, 0);
    assert(a@.subrange(0, a@.len() as int) =~= a@);
    r
}

/// Whether `pat` occurs somewhere in `s`.
fn contains_exec(s: &Vec<char>, pat: &Vec<char>) -> (r: bool)
    ensures
        r == contains_text(s@, pat@),
{
    if pat.len() > s.len() {
        return false;
    }
    let last = s.len() - pat.len();
    for p in 0..last
        invariant
            last == s@.len() - pat@.len(),
            forall|q: int| 0 <= q < p ==> !#[trigger] occurs_at(s@, pat@, q),
    {
        if occurs_at_exec(s, pat, p) {
            return true;
        }
    }
    if occurs_at_exec(s, pat, last) {
        return true;
    }
    assert forall|q: int| !#[trigger] occurs_at(s@, pat@, q) by {
        if q > last {
            assert(!(q + pat@.len() <= s@.len()));
        }
    }
    false
}

/// The position of the last closing tag of `l` that follows the opening tag.
fn last_close_exec(l: &Vec<char>, open_len: usize, close: &Vec<char>) -> (r: Option<usize>)
    requires
        open_len == open_tag().len(),
        close@ == close_tag(),
    ensures
        match r {
            Some(c) => last_close(l@) == Some(c as int),
            None => last_close(l@) is None,
        },
{
    let mut q = l.len();
    while q > open_len
        invariant
            q <= l@.len(),
            open_len == open_tag().len(),
            close@ == close_tag(),
            last_close(l@) == last_close_below(l@, q as int),
        decreases q,
    {
        if occurs_at_exec(l, close, q - 1) {
            return Some(q - 1);
        }
        q = q - 1;
    }
    None
}

/// The tags and keys of the descriptor's layout, as characters.
struct Tags {
    open: Vec<char>,
    close: Vec<char>,
    identifier: Vec<char>,
    name: Vec<char>,
    block_key: Vec<char>,
    block_close: Vec<char>,
}

impl Tags {
    spec fn wf(&self) -> bool {
        &&& self.open@ == open_tag()
        &&& self.close@ == close_tag()
        &&& self.identifier@ == identifier_key()
        &&& self.name@ == name_key()
        &&& self.block_key@ == block_key()
        &&& self.block_close@ == block_close()
    }

    fn new() -> (r: Tags)
        ensures
            r.wf(),
    {
        Tags {
            open: chars_of("\t<string>"),
            close: chars_of("</string>"),
            identifier: chars_of("CFBundleIdentifier"),
            name: chars_of("CFBundleName"),
            block_key: chars_of("\t<key>UTExportedTypeDeclarations"),
            block_close: chars_of("\t</array>"),
        }
    }
}

/// The first line that names `key` with its value on the next line.
fn find_field(lines: &Vec<Vec<char>>, key: &Vec<char>, tags: &Tags) -> (r: Option<usize>)
    requires
        tags.wf(),
    ensures
        match r {
            Some(i) => first_field(lines_view(lines@), key@) == Some(i as int),
            None => first_field(lines_view(lines@), key@) is None,
        },
{
    let ghost ls = lines_view(lines@);
    let ghost pred = |i: int| field_at(ls, key@, i);
    let n = lines.len();
    for i in 0..n
        invariant
            n == lines@.len(),
            ls == lines_view(lines@),
            pred == (|i: int| field_at(ls, key@, i)),
            tags.wf(),
            first_field(ls, key@) == first_from(n as int, pred, i as int),
    {
        if i + 1 < n && contains_exec(&lines[i], key) && occurs_at_exec(&lines[i + 1], &tags.open, 0)
            && last_close_exec(&lines[i + 1], tags.open.len(), &tags.close).is_some() {
            assert(pred(i as int));
            return Some(i);
        }
        assert(!pred(i as int));
    }
    None
}

/// The string line `l` with its value replaced by `value`.
fn with_value_exec(l: &Vec<char>, value: &Vec<char>, tags: &Tags) -> (r: Vec<char>)
    requires
        tags.wf(),
        is_value_line(l@),
    ensures
        r@ == with_value(l@, value@),
{
    let c = match last_close_exec(l, tags.open.len(), &tags.close) {
        Some(c) => c,
        None => {
            assert(false);
            0
        },
    };
    proof {
        lemma_last_close_below(l@, l@.len() as int);
    }
    let mut r: Vec<char> = Vec::new();
    for k in 0..tags.open.len()
        invariant
            tags.wf(),
            r@ == open_tag().take(k as int),
    {
        r.push(tags.open[k]);
        assert(r@ =~= open_tag().take(k + 1));
    }
    assert(open_tag().take(open_tag().len() as int) =~= open_tag());
    for k in 0..value.len()
        invariant
            r@ == open_tag() + value@.take(k as int),
    {
        r.push(value[k]);
        assert(r@ =~= open_tag() + value@.take(k + 1));
    }
    assert(value@.take(value@.len() as int) =~= value@);
    for k in c..l.len()
        invariant
            c <= l@.len(),
            r@ == open_tag() + value@ + l@.subrange(c as int, k as int),
    {
        r.push(l[k]);
        assert(r@ =~= open_tag() + value@ + l@.subrange(c as int, k + 1));
    }
    assert(l@.subrange(c as int, l@.len() as int) =~= l@.skip(c as int));
    r
}

/// The lines with the value of the first `key` field set to `value`.
fn set_field_exec(lines: Vec<Vec<char>>, key: &Vec<char>, value: &Vec<char>, tags: &Tags) -> (r:
    Option<Vec<Vec<char>>>)
    requires
        tags.wf(),
    ensures
        match r {
            Some(ls) => set_field(lines_view(lines@), key@, value@) == Some(lines_view(ls@)),
            None => set_field(lines_view(lines@), key@, value@) is None,
        },
{
    let mut lines = lines;
    let ghost ls = lines_view(lines@);
    let n = lines.len();
    match find_field(&lines, key, tags) {
        None => None,
        Some(i) => {
            proof {
                lemma_first_field(ls, key@);
            }
            let line = with_value_exec(&lines[i + 1], value, tags);
            lines.set(i + 1, line);
            assert(lines_view(lines@) =~= ls.update(i + 1, with_value(ls[i + 1], value@)));
            Some(lines)
        },
    }
}

fn copy_line(l: &Vec<char>) -> (r: Vec<char>)
    ensures
        r@ == l@,
{
    let r = l.clone();
    assert(r@ =~= l@);
    r
}

/// Appends copies of `lines[s..e]` to `out`.
fn append_lines(out: &mut Vec<Vec<char>>, lines: &Vec<Vec<char>>, s: usize, e: usize)
    requires
        s <= e <= lines@.len(),
    ensures
        lines_view(final(out)@) == lines_view(old(out)@) + lines_view(lines@).subrange(s as int, e as int),
{
    let ghost start = lines_view(out@);
    for k in s..e
        invariant
            s <= e <= lines@.len(),
            lines_view(out@) == start + lines_view(lines@).subrange(s as int, k as int),
    {
        let line = copy_line(&lines[k]);
        assert(line@ == lines_view(lines@)[k as int]);
        let ghost prev = out@;
        out.push(line);
        assert(lines_view(out@) =~= lines_view(prev).push(line@));
        assert(lines_view(out@) =~= start + lines_view(lines@).subrange(s as int, k + 1));
    }
}

/// The lines with each exported-type block cut out.
fn remove_blocks_exec(lines: &Vec<Vec<char>>, tags: &Tags) -> (r: Vec<Vec<char>>)
    requires
        tags.wf(),
    ensures
        lines_view(r@) == remove_blocks(lines_view(lines@)),
{
    let ghost ls = lines_view(lines@);
    let ghost starts = |i: int| block_start(ls[i]);
    let ghost ends = |j: int| block_end_at(ls, j);
    let n = lines.len();
    let mut out: Vec<Vec<char>> = Vec::new();
    let mut s: usize = 0;
    while s < n
        invariant
            n == lines@.len(),
            ls == lines_view(lines@),
            starts == (|i: int| block_start(ls[i])),
            ends == (|j: int| block_end_at(ls, j)),
            tags.wf(),
            s <= n,
            remove_blocks(ls) == lines_view(out@) + remove_blocks_from(ls, s as int),
        decreases n - s,
    {
        let mut i = s;
        while i < n && !occurs_at_exec(&lines[i], &tags.block_key, 0)
            invariant
                n == lines@.len(),
                ls == lines_view(lines@),
                starts == (|i: int| block_start(ls[i])),
                tags.wf(),
                s <= i <= n,
                first_from(n as int, starts, s as int) == first_from(n as int, starts, i as int),
            decreases n - i,
        {
            i = i + 1;
        }
        let ghost before = lines_view(out@);
        if i == n {
            append_lines(&mut out, lines, s, n);
            assert(ls.subrange(s as int, n as int) =~= ls.skip(s as int));
            assert(lines_view(out@) =~= before + remove_blocks_from(ls, s as int));
            s = n;
        } else {
            assert(starts(i as int));
            let mut j = i + 1;
            while j < n && !(j + 1 < n && same_chars(&lines[j], &tags.block_close))
                invariant
                    n == lines@.len(),
                    ls == lines_view(lines@),
                    ends == (|j: int| block_end_at(ls, j)),
                    tags.wf(),
                    i < j <= n,
                    first_from(n as int, ends, i + 1) == first_from(n as int, ends, j as int),
                decreases n - j,
            {
                j = j + 1;
            }
            if j == n {
                append_lines(&mut out, lines, s, n);
                assert(ls.subrange(s as int, n as int) =~= ls.skip(s as int));
                assert(lines_view(out@) =~= before + remove_blocks_from(ls, s as int));
                s = n;
            } else {
                assert(ends(j as int));
                append_lines(&mut out, lines, s, i);
                assert(remove_blocks_from(ls, s as int) == ls.subrange(s as int, i as int)
                    + remove_blocks_from(ls, j + 1));
                assert(lines_view(out@) + remove_blocks_from(ls, j + 1) =~= before
                    + remove_blocks_from(ls, s as int));
                s = j + 1;
            }
        }
    }
    assert(remove_blocks_from(ls, n as int) =~= Seq::<Seq<char>>::empty());
    assert(lines_view(out@) + Seq::<Seq<char>>::empty() =~= lines_view(out@));
    out
}

/// Rewrites the bundle's metadata descriptor `descriptor` for `project`: the
/// first bundle identifier takes the project's UTI, the first bundle name its
/// title, and the exported-type declaration blocks are cut out. A descriptor
/// without either field is a `MetadataRewriteError`.
pub fn rewrite_app_files(project: &Project, descriptor: &str) -> (r: Result<String, BuildError>)
    ensures
        match rewritten_descriptor(descriptor@, project.uti@, project.title@) {
            Some(t) => r matches Ok(s) && s@ == t,
            None => r matches Err(BuildError::MetadataRewriteError),
        },
{
    let tags = Tags::new();
    let text = chars_of(descriptor);
    let lines = split_lines(&text);
    let uti = chars_of(project.uti.as_str());
    let title = chars_of(project.title.as_str());
    let with_uti = match set_field_exec(lines, &tags.identifier, &uti, &tags) {
        Some(ls) => ls,
        None => return Err(BuildError::MetadataRewriteError),
    };
    let with_title = match set_field_exec(with_uti, &tags.name, &title, &tags) {
        Some(ls) => ls,
        None => return Err(BuildError::MetadataRewriteError),
    };
    let kept = remove_blocks_exec(&with_title, &tags);
    let out = join_line_vecs(&kept);
    Ok(string_from_chars(&out))
}

/// Whether some line starts an exported-type block that a later line closes.
pub open spec fn has_block(lines: Seq<Seq<char>>) -> bool {
    exists|k: int, j: int| 0 <= k < j && #[trigger] block_start(lines[k]) && #[trigger] block_end_at(lines, j)
}

proof fn lemma_no_block_left(lines: Seq<Seq<char>>, s: int)
    ensures
        !has_block(remove_blocks_from(lines, s)),
    decreases lines.len() - s,
{
    let r = remove_blocks_from(lines, s);
    let n = lines.len() as int;
    if 0 <= s < n {
        let starts = |i: int| block_start(lines[i]);
        let ends = |j: int| block_end_at(lines, j);
        lemma_first_from(n, starts, s);
        match first_from(n, starts, s) {
            None => {
                if has_block(r) {
                    let (k, j) = choose|k: int, j: int| 0 <= k < j && #[trigger] block_start(r[k])
                        && #[trigger] block_end_at(r, j);
                    assert(r[k] == lines[s + k]);
                    assert(!starts(s + k));
                }
            },
            Some(i) => {
                lemma_first_from(n, ends, i + 1);
                match first_from(n, ends, i + 1) {
                    None => {
                        if has_block(r) {
                            let (k, j) = choose|k: int, j: int| 0 <= k < j && #[trigger] block_start(r[k])
                                && #[trigger] block_end_at(r, j);
                            assert(r[k] == lines[s + k]);
                            if s + k < i {
                                assert(!starts(s + k));
                            }
                            assert(r[j] == lines[s + j]);
                            assert(ends(s + j));
                        }
                    },
                    Some(j0) => {
                        let head = lines.subrange(s, i);
                        let tail = remove_blocks_from(lines, j0 + 1);
                        lemma_no_block_left(lines, j0 + 1);
                        assert(r == head + tail);
                        if has_block(r) {
                            let (k, j) = choose|k: int, j: int| 0 <= k < j && #[trigger] block_start(r[k])
                                && #[trigger] block_end_at(r, j);
                            if k < head.len() {
                                assert(r[k] == lines[s + k]);
                                assert(!starts(s + k));
                            } else {
                                let hl = head.len() as int;
                                assert(r[k] == tail[k - hl]);
                                assert(r[j] == tail[j - hl]);
                                assert(block_start(tail[k - hl]));
                                assert(block_end_at(tail, j - hl));
                            }
                        }
                    },
                }
            },
        }
    }
}

/// The lines before the first exported-type block start are kept, in place.
proof fn lemma_head_kept(lines: Seq<Seq<char>>, k: int)
    requires
        0 <= k < lines.len(),
        forall|m: int| 0 <= m <= k ==> !block_start(#[trigger] lines[m]),
    ensures
        k < remove_blocks(lines).len(),
        remove_blocks(lines)[k] == lines[k],
{
    let n = lines.len() as int;
    let starts = |i: int| block_start(lines[i]);
    let ends = |j: int| block_end_at(lines, j);
    lemma_first_from(n, starts, 0);
    if let Some(i) = first_from(n, starts, 0) {
        assert(starts(i));
        lemma_first_from(n, ends, i + 1);
    }
}

/// Rewriting a descriptor that has a bundle identifier and a bundle name
/// (its lines joined give the text back, and the result is the rewritten
/// lines joined): before the blocks are cut, only the value line of the first identifier
/// field and that of the first name field change, and the identifier's value
/// line holds exactly the UTI between its tags; lines before the first
/// exported-type block are kept in place, so an identifier field that comes
/// before it (and does not share its line with the name field) ends up with
/// the UTI as its value; and no exported-type block is left.
pub proof fn descriptor_rewrite_law(text: Seq<char>, uti: Seq<char>, title: Seq<char>)
    requires
        rewritten_descriptor(text, uti, title) is Some,
    ensures
        ({
            let lines = lines_of(text);
            let i = first_field(lines, identifier_key()).unwrap();
            let a = lines.update(i + 1, with_value(lines[i + 1], uti));
            let n = first_field(a, name_key()).unwrap();
            let b = a.update(n + 1, with_value(a[n + 1], title));
            let c = last_close(lines[i + 1]).unwrap();
            let out = rewritten_lines(lines, uti, title).unwrap();
            &&& join_lines(lines) == text
            &&& rewritten_descriptor(text, uti, title) == Some(join_lines(out))
            &&& field_at(lines, identifier_key(), i)
            &&& forall|k: int| 0 <= k < i ==> !#[trigger] field_at(lines, identifier_key(), k)
            &&& field_at(a, name_key(), n)
            &&& out == remove_blocks(b)
            &&& occurs_at(lines[i + 1], close_tag(), c)
            &&& a[i + 1] == open_tag() + uti + lines[i + 1].skip(c)
            &&& b.len() == lines.len()
            &&& forall|k: int| 0 <= k < lines.len() && k != i + 1 && k != n + 1 ==> #[trigger] b[k] == lines[k]
            &&& !has_block(out)
            &&& (n != i && forall|m: int| 0 <= m <= i + 1 ==> !block_start(#[trigger] b[m])) ==> out[i + 1] == open_tag() + uti + lines[i + 1].skip(c)
        }),
{
    let lines = lines_of(text);
    lemma_join_lines_of(text);
    lemma_first_field(lines, identifier_key());
    let i = first_field(lines, identifier_key()).unwrap();
    let a = lines.update(i + 1, with_value(lines[i + 1], uti));
    lemma_first_field(a, name_key());
    let n = first_field(a, name_key()).unwrap();
    let b = a.update(n + 1, with_value(a[n + 1], title));
    lemma_last_close_below(lines[i + 1], lines[i + 1].len() as int);
    lemma_no_block_left(b, 0);
    if n != i && forall|m: int| 0 <= m <= i + 1 ==> !block_start(#[trigger] b[m]) {
        lemma_head_kept(b, i + 1);
    }
}

} // verus!
