use vstd::prelude::*;

use crate::browse::{
    browse_dir, joined_path, listed_names, path_has_extension, path_join,
    path_with_extension, shown_names, sorted_strings, unreadable_message, with_extension,
    has_extension, DirEntry,
};
use crate::keys::{is_control, is_control_char, is_digit_char, KeyCode};
use crate::text::{chars_of, copy_string, pop_char, push_char, push_str, strings_view, trim, trimmed};

verus! {

/// What the file dialog is doing.
#[derive(Debug, Clone, Copy, PartialEq, Eq, Structural)]
pub enum FileOpsMode {
    Idle,
    SaveAs,
    Open,
}

/// How many recent files are kept.
pub const RECENT_FILES_MAX: usize = 10;

/// The most recently used font paths, newest first.
pub struct RecentFiles {
    files: Vec<String>,
    max: usize,
}

impl View for RecentFiles {
    type V = Seq<Seq<char>>;

    closed spec fn view(&self) -> Seq<Seq<char>> {
        strings_view(self.files@)
    }
}

/// The components `Path::components` yields for the path `p`, as paths
/// compare them.
pub uninterp spec fn path_components(p: Seq<char>) -> Seq<Seq<char>>;

/// `a` and `b` name the same path: their components agree (so `dir/` and
/// `dir` do, as do `a//b` and `a/b`).
pub open spec fn same_path(a: Seq<char>, b: Seq<char>) -> bool {
    path_components(a) == path_components(b)
}

/// `Path::new(a) == Path::new(b)`: std compares two paths by their
/// components, so the answer is whether the components of `a` and `b`
/// agree (see `path_components`).
#[verifier::external_body]
fn paths_equal(a: &str, b: &str) -> (r: bool)
    ensures
        r == (path_components(a@) == path_components(b@)),
{
    std::path::Path::new(a) == std::path::Path::new(b)
}

/// Some entry of `s` names the same path as `x`.
pub open spec fn holds_path(s: Seq<Seq<char>>, x: Seq<char>) -> bool {
    exists|i: int| 0 <= i < s.len() && same_path(#[trigger] s[i], x)
}

/// No two entries of `s` name the same path.
pub open spec fn distinct_paths(s: Seq<Seq<char>>) -> bool {
    forall|i: int, j: int| 0 <= i < s.len() && 0 <= j < s.len() && i != j ==> !same_path(#[trigger] s[i], #[trigger] s[j])
}

/// The first position in `s` of an entry naming the same path as `x`
/// (meaningful when there is one).
pub open spec fn first_index(s: Seq<Seq<char>>, x: Seq<char>) -> int
    decreases s.len(),
{
    if s.len() == 0 {
        0
    } else if same_path(s[0], x) {
        0
    } else {
        1 + first_index(s.drop_first(), x)
    }
}

/// `s` without the first entry naming the same path as `x`.
pub open spec fn without_first(s: Seq<Seq<char>>, x: Seq<char>) -> Seq<Seq<char>> {
    if holds_path(s, x) {
        s.remove(first_index(s, x))
    } else {
        s
    }
}

/// The list after `p` is used: `p` moved to the front (in place of the
/// entry naming the same path, if any) or added there, the list cut to
/// `max` entries.
pub open spec fn pushed_recent(s: Seq<Seq<char>>, p: Seq<char>, max: nat) -> Seq<Seq<char>> {
    let l = seq![p] + without_first(s, p);
    if l.len() > max {
        l.take(max as int)
    } else {
        l
    }
}

/// The entries of `s` whose flag in `keep` is set, in order.
pub open spec fn kept(s: Seq<Seq<char>>, keep: Seq<bool>) -> Seq<Seq<char>>
    decreases s.len(),
{
    if s.len() == 0 {
        Seq::empty()
    } else {
        let rest = kept(s.drop_last(), keep);
        if keep[s.len() - 1] {
            rest.push(s.last())
        } else {
            rest
        }
    }
}

/// `t` keeps some of the entries of `s`, in their order.
pub open spec fn is_subsequence(t: Seq<Seq<char>>, s: Seq<Seq<char>>) -> bool {
    exists|keep: Seq<bool>| keep.len() == s.len() && t == kept(s, keep)
}

proof fn lemma_first_index(s: Seq<Seq<char>>, x: Seq<char>)
    requires
        holds_path(s, x),
    ensures
        0 <= first_index(s, x) < s.len(),
        same_path(s[first_index(s, x)], x),
        forall|j: int| 0 <= j < first_index(s, x) ==> !same_path(#[trigger] s[j], x),
    decreases s.len(),
{
    if !same_path(s[0], x) {
        let k = choose|k: int| 0 <= k < s.len() && same_path(#[trigger] s[k], x);
        assert(s.drop_first()[k - 1] == s[k]);
        assert(holds_path(s.drop_first(), x));
        lemma_first_index(s.drop_first(), x);
        assert forall|j: int| 0 <= j < first_index(s, x) implies !same_path(#[trigger] s[j], x) by {
            if j > 0 {
                assert(s[j] == s.drop_first()[j - 1]);
            }
        }
    }
}

/// The pieces of `s` between `\n` characters (one more than there are
/// newlines; the last one is what follows the last newline).
pub open spec fn segments(s: Seq<char>) -> Seq<Seq<char>>
    decreases s.len(),
{
    if s.len() == 0 {
        seq![Seq::<char>::empty()]
    } else {
        let r = segments(s.drop_last());
        if s.last() == '\n' {
            r.push(Seq::empty())
        } else {
            r.update(r.len() - 1, r.last().push(s.last()))
        }
    }
}

/// `l` without one trailing `\r`.
pub open spec fn strip_cr(l: Seq<char>) -> Seq<char> {
    if l.len() > 0 && l.last() == '\r' {
        l.drop_last()
    } else {
        l
    }
}

/// Line `i` of the pieces `segs`, as `str::lines` yields it: a piece that
/// ended at a newline loses a trailing `\r`.
pub open spec fn line_of(segs: Seq<Seq<char>>, i: int) -> Seq<char> {
    if i < segs.len() - 1 {
        strip_cr(segs[i])
    } else {
        segs[i]
    }
}

/// The non-empty lines among the first `n` pieces.
pub open spec fn nonempty_lines(segs: Seq<Seq<char>>, n: int) -> Seq<Seq<char>>
    decreases n,
{
    if n <= 0 {
        Seq::empty()
    } else {
        let rest = nonempty_lines(segs, n - 1);
        if line_of(segs, n - 1).len() > 0 {
            rest.push(line_of(segs, n - 1))
        } else {
            rest
        }
    }
}

/// The paths a saved list of recent files holds: its non-empty lines.
pub open spec fn stored_paths(text: Seq<char>) -> Seq<Seq<char>> {
    nonempty_lines(segments(text), segments(text).len() as int)
}

/// The saved form of a list of paths: one per line.
pub open spec fn joined_lines(s: Seq<Seq<char>>) -> Seq<char>
    decreases s.len(),
{
    if s.len() == 0 {
        Seq::empty()
    } else if s.len() == 1 {
        s[0]
    } else {
        joined_lines(s.drop_last()) + seq!['\n'] + s.last()
    }
}

fn split_segments(text: &str) -> (r: Vec<String>)
    ensures
        strings_view(r@) == segments(text@),
{
    let cs = chars_of(text);
    let mut r: Vec<String> = Vec::new();
    r.push(String::new());
    let mut i: usize = 0;
    assert(strings_view(r@) =~= segments(text@.take(0)));
    while i < cs.len()
        invariant
            cs@ == text@,
            i <= cs@.len(),
            r@.len() >= 1,
            strings_view(r@) == segments(text@.take(i as int)),
        decreases cs@.len() - i,
    {
        let c = cs[i];
        assert(text@.take(i + 1).drop_last() =~= text@.take(i as int));
        assert(text@.take(i + 1).last() == c);
        let ghost prev = r@;
        if c == '\n' {
            r.push(String::new());
            assert forall|k: int| 0 <= k < r@.len() implies #[trigger] strings_view(r@)[k] == segments(text@.take(i + 1))[k] by {
                if k < prev.len() {
                    assert(strings_view(prev)[k] == segments(text@.take(i as int))[k]);
                }
            }
            assert(strings_view(r@) =~= segments(text@.take(i + 1)));
        } else {
            let last = r.len() - 1;
            let mut tail = r.pop().unwrap();
            push_char(&mut tail, c);
            r.push(tail);
            assert forall|k: int| 0 <= k < r@.len() implies #[trigger] strings_view(r@)[k] == segments(text@.take(i + 1))[k] by {
                assert(strings_view(prev)[k] == segments(text@.take(i as int))[k]);
            }
            assert(strings_view(r@) =~= segments(text@.take(i + 1)));
        }
        i = i + 1;
    }
    assert(text@.take(i as int) =~= text@);
    r
}

impl RecentFiles {
    /// The list keeps at most `RECENT_FILES_MAX` paths.
    #[verifier::type_invariant]
    spec fn keeps_max(self) -> bool {
        self.max == RECENT_FILES_MAX
    }

    /// An empty list keeping up to ten paths.
    pub fn new() -> (r: RecentFiles)
        ensures
            r@.len() == 0,
    {
        RecentFiles { files: Vec::new(), max: RECENT_FILES_MAX }
    }

    /// The list saved as `text`, one path per line (empty lines skipped).
    pub fn from_text(text: &str) -> (r: RecentFiles)
        ensures
            r@ == stored_paths(text@),
    {
        let segs = split_segments(text);
        let n = segs.len();
        let mut files: Vec<String> = Vec::new();
        let mut i: usize = 0;
        while i < n
            invariant
                n == segs@.len(),
                strings_view(segs@) == segments(text@),
                i <= n,
                strings_view(files@) == nonempty_lines(segments(text@), i as int),
            decreases n - i,
        {
            let seg = &segs[i];
            assert(seg@ == segments(text@)[i as int]);
            let mut line = copy_string(seg.as_str());
            if i + 1 < n && line.unicode_len() > 0 && line.get_char(line.unicode_len() - 1) == '\r' {
                pop_char(&mut line);
            }
            assert(line@ == line_of(segments(text@), i as int));
            if line.unicode_len() > 0 {
                let ghost prev = files@;
                files.push(line);
                assert forall|k: int| 0 <= k < files@.len() implies #[trigger] strings_view(files@)[k] == nonempty_lines(segments(text@), i + 1)[k] by {
                    if k < prev.len() {
                        assert(strings_view(prev)[k] == nonempty_lines(segments(text@), i as int)[k]);
                    }
                }
                assert(strings_view(files@) =~= nonempty_lines(segments(text@), i + 1));
            }
            i = i + 1;
        }
        RecentFiles { files, max: RECENT_FILES_MAX }
    }

    /// The saved form of the list: the paths, one per line.
    pub fn to_text(&self) -> (t: String)
        ensures
            t@ == joined_lines(self@),
    {
        let mut t = String::new();
        let mut i: usize = 0;
        while i < self.files.len()
            invariant
                i <= self.files@.len(),
                t@ == joined_lines(self@.take(i as int)),
            decreases self.files@.len() - i,
        {
            assert(self@.take(i + 1).drop_last() =~= self@.take(i as int));
            assert(self@.take(i + 1).last() == self.files@[i as int]@);
            if i > 0 {
                push_char(&mut t, '\n');
            }
            push_str(&mut t, self.files[i].as_str());
            i = i + 1;
            proof {
                if i == 1 {
                    assert(t@ =~= joined_lines(self@.take(i as int)));
                } else {
                    assert(t@ =~= joined_lines(self@.take(i as int)));
                }
            }
        }
        assert(self@.take(i as int) =~= self@);
        t
    }

    /// Record `path` as the most recent: it takes the place of the entry
    /// naming the same path (see `same_path`), moved to the front, or is
    /// added there; the list is cut to its maximum.
    pub fn push(&mut self, path: String)
        ensures
            final(self)@ == pushed_recent(old(self)@, path@, RECENT_FILES_MAX as nat),
    {
        proof {
            use_type_invariant(&*self);
        }
        let ghost s = self@;
        let mut files: Vec<String> = Vec::new();
        std::mem::swap(&mut files, &mut self.files);
        assert(strings_view(files@) == s);
        let mut i: usize = 0;
        let mut found = false;
        while i < files.len() && !found
            invariant
                s == strings_view(files@),
                i <= files@.len(),
                found ==> i < files@.len() && same_path(s[i as int], path@),
                forall|j: int| 0 <= j < i ==> !same_path(#[trigger] s[j], path@),
            decreases files@.len() - i, (if found { 0int } else { 1int }),
        {
            assert(s[i as int] == files@[i as int]@);
            if paths_equal(files[i].as_str(), path.as_str()) {
                found = true;
            } else {
                i = i + 1;
            }
        }
        if found {
            proof {
                assert(same_path(s[i as int], path@));
                assert(holds_path(s, path@));
                lemma_first_index(s, path@);
                let f = first_index(s, path@);
                if f < i {
                    assert(!same_path(s[f], path@));
                }
                assert(f == i);
            }
            files.remove(i);
            assert(strings_view(files@) =~= s.remove(i as int));
        } else {
            assert(!holds_path(s, path@));
        }
        let ghost mid = strings_view(files@);
        assert(mid == without_first(s, path@));
        let ghost pv = path@;
        files.insert(0, path);
        assert(strings_view(files@) =~= seq![pv] + mid);
        if files.len() > RECENT_FILES_MAX {
            files.truncate(RECENT_FILES_MAX);
        }
        self.files = files;
        assert(self@ =~= pushed_recent(s, pv, RECENT_FILES_MAX as nat));
    }

    /// The paths, newest first.
    pub fn list(&self) -> (r: &[String])
        ensures
            strings_view(r@) == self@,
    {
        self.files.as_slice()
    }

    pub fn len(&self) -> (n: usize)
        ensures
            n == self@.len(),
    {
        self.files.len()
    }

    pub fn is_empty(&self) -> (b: bool)
        ensures
            b == (self@.len() == 0),
    {
        self.files.len() == 0
    }

    /// The path at `idx`, if there is one.
    pub fn get(&self, idx: usize) -> (r: Option<&String>)
        ensures
            idx < self@.len() ==> r is Some && r.unwrap()@ == self@[idx as int],
            idx >= self@.len() ==> r is None,
    {
        if idx < self.files.len() {
            Some(&self.files[idx])
        } else {
            None
        }
    }

    /// Keep the paths whose flag in `keep` is set.
    pub fn retain_flagged(&mut self, keep: &Vec<bool>)
        requires
            keep@.len() == old(self)@.len(),
        ensures
            final(self)@ == kept(old(self)@, keep@),
    {
        proof {
            use_type_invariant(&*self);
        }
        let ghost s = self@;
        let mut out: Vec<String> = Vec::new();
        let n = self.files.len();
        let mut i: usize = 0;
        while i < n
            invariant
                n == self.files@.len(),
                s == self@,
                keep@.len() == n,
                self.max == old(self).max,
                i <= n,
                strings_view(out@) == kept(s.take(i as int), keep@),
            decreases n - i,
        {
            assert(s.take(i + 1).drop_last() =~= s.take(i as int));
            assert(s.take(i + 1).last() == self.files@[i as int]@);
            if keep[i] {
                let c = copy_string(self.files[i].as_str());
                let ghost prev = out@;
                out.push(c);
                assert forall|k: int| 0 <= k < out@.len() implies #[trigger] strings_view(out@)[k] == kept(s.take(i + 1), keep@)[k] by {
                    if k < prev.len() {
                        assert(strings_view(prev)[k] == kept(s.take(i as int), keep@)[k]);
                    }
                }
                assert(strings_view(out@) =~= kept(s.take(i + 1), keep@));
            }
            i = i + 1;
        }
        assert(s.take(i as int) =~= s);
        self.files = out;
    }

    /// Drop the path at `idx`; an index past the end changes nothing.
    pub fn remove(&mut self, idx: usize)
        ensures
            final(self)@ == (if idx < old(self)@.len() {
                old(self)@.remove(idx as int)
            } else {
                old(self)@
            }),
    {
        proof {
            use_type_invariant(&*self);
        }
        if idx < self.files.len() {
            let mut files: Vec<String> = Vec::new();
            std::mem::swap(&mut files, &mut self.files);
            files.remove(idx);
            self.files = files;
            assert(self@ =~= old(self)@.remove(idx as int));
        }
    }
}

impl Default for RecentFiles {
    fn default() -> (r: RecentFiles)
        ensures
            r@.len() == 0,
    {
        RecentFiles::new()
    }
}

/// A path the saved form of the list gives back as it is: non-empty, with
/// no newline, not ending in a carriage return.
pub open spec fn storable_path(p: Seq<char>) -> bool {
    &&& p.len() > 0
    &&& !p.contains('\n')
    &&& p.last() != '\r'
}

proof fn lemma_segments_nonempty(s: Seq<char>)
    ensures
        segments(s).len() >= 1,
    decreases s.len(),
{
    if s.len() > 0 {
        lemma_segments_nonempty(s.drop_last());
    }
}

proof fn lemma_segments_append_plain(x: Seq<char>, b: Seq<char>)
    requires
        !b.contains('\n'),
    ensures
        segments(x + b) == segments(x).update(segments(x).len() - 1, segments(x).last() + b),
    decreases b.len(),
{
    lemma_segments_nonempty(x);
    if b.len() == 0 {
        assert(x + b =~= x);
        assert(segments(x).last() + b =~= segments(x).last());
        assert(segments(x).update(segments(x).len() - 1, segments(x).last()) =~= segments(x));
    } else {
        let b0 = b.drop_last();
        assert(!b0.contains('\n')) by {
            if b0.contains('\n') {
                let k = choose|k: int| 0 <= k < b0.len() && b0[k] == '\n';
                assert(b[k] == '\n');
            }
        }
        lemma_segments_append_plain(x, b0);
        assert((x + b).drop_last() =~= x + b0);
        assert((x + b).last() == b.last());
        assert(b.last() != '\n') by {
            assert(b[b.len() - 1] == b.last());
        }
        let r = segments(x + b0);
        lemma_segments_nonempty(x + b0);
        assert(r.last() == segments(x).last() + b0);
        assert((segments(x).last() + b0).push(b.last()) =~= segments(x).last() + b);
        assert(r.update(r.len() - 1, r.last().push(b.last())) =~= segments(x).update(
            segments(x).len() - 1,
            segments(x).last() + b,
        ));
    }
}

proof fn lemma_segments_joined(s: Seq<Seq<char>>)
    requires
        s.len() >= 1,
        forall|i: int| 0 <= i < s.len() ==> !(#[trigger] s[i]).contains('\n'),
    ensures
        segments(joined_lines(s)) == s,
    decreases s.len(),
{
    let e = Seq::<char>::empty();
    if s.len() == 1 {
        lemma_segments_append_plain(e, s[0]);
        assert(e + s[0] =~= s[0]);
        assert(segments(e) == seq![e]);
        assert(e + s[0] =~= s[0]);
        assert(seq![e].update(0, e + s[0]) =~= s);
    } else {
        let front = s.drop_last();
        assert forall|i: int| 0 <= i < front.len() implies !(#[trigger] front[i]).contains('\n') by {
            assert(front[i] == s[i]);
        }
        lemma_segments_joined(front);
        let j = joined_lines(front);
        let x = j + seq!['\n'];
        assert(x.drop_last() =~= j);
        assert(x.last() == '\n');
        assert(segments(x) == front.push(e));
        assert(!s.last().contains('\n')) by {
            assert(s[s.len() - 1] == s.last());
        }
        lemma_segments_append_plain(x, s.last());
        assert(joined_lines(s) == x + s.last());
        assert(e + s.last() =~= s.last());
        assert(front.push(e).update(s.len() - 1, e + s.last()) =~= s);
    }
}

proof fn lemma_nonempty_lines_all(s: Seq<Seq<char>>, n: int)
    requires
        0 <= n <= s.len(),
        forall|i: int| 0 <= i < s.len() ==> storable_path(#[trigger] s[i]),
    ensures
        nonempty_lines(s, n) == s.take(n),
    decreases n,
{
    if n > 0 {
        lemma_nonempty_lines_all(s, n - 1);
        let p = s[n - 1];
        assert(storable_path(p));
        assert(line_of(s, n - 1) == p) by {
            if n - 1 < s.len() - 1 {
                assert(strip_cr(p) == p);
            }
        }
        assert(s.take(n - 1).push(p) =~= s.take(n));
    }
}

/// Saving a list of recent files (`to_text`) and reading the text back
/// (`from_text`) gives the same paths in the same order, for paths that are
/// non-empty, hold no newline and do not end in a carriage return.
pub proof fn law_recent_files_text_round_trip(paths: Seq<Seq<char>>)
    requires
        forall|i: int| 0 <= i < paths.len() ==> storable_path(#[trigger] paths[i]),
    ensures
        stored_paths(joined_lines(paths)) == paths,
{
    if paths.len() == 0 {
        let e = Seq::<char>::empty();
        assert(segments(e) == seq![e]);
        assert(joined_lines(paths) == e);
        assert(segments(e).len() == 1);
        assert(line_of(seq![e], 0) == e);
        assert(nonempty_lines(seq![e], 0) == Seq::<Seq<char>>::empty());
        assert(nonempty_lines(seq![e], 1) == nonempty_lines(seq![e], 0));
        assert(paths =~= Seq::<Seq<char>>::empty());
    } else {
        assert forall|i: int| 0 <= i < paths.len() implies !(#[trigger] paths[i]).contains('\n') by {
            assert(storable_path(paths[i]));
        }
        lemma_segments_joined(paths);
        lemma_nonempty_lines_all(paths, paths.len() as int);
        assert(paths.take(paths.len() as int) =~= paths);
    }
}

proof fn lemma_filter_keeps_all(s: Seq<Seq<char>>, p: Seq<char>)
    requires
        !holds_path(s, p),
    ensures
        s.filter(|x: Seq<char>| !same_path(x, p)) == s,
    decreases s.len(),
{
    reveal(Seq::filter);
    if s.len() > 0 {
        assert(!holds_path(s.drop_last(), p)) by {
            if holds_path(s.drop_last(), p) {
                let k = choose|k: int| 0 <= k < s.drop_last().len() && same_path(#[trigger] s.drop_last()[k], p);
                assert(s[k] == s.drop_last()[k]);
            }
        }
        lemma_filter_keeps_all(s.drop_last(), p);
        assert(!same_path(s.last(), p)) by {
            if same_path(s.last(), p) {
                assert(same_path(s[s.len() - 1], p));
            }
        }
        assert(s.drop_last().push(s.last()) =~= s);
    }
}

/// Using a path when no two listed paths name the same file keeps the
/// other paths in their old order after it: the new list is the path
/// followed by the old list without the entry naming the same path, cut to
/// the maximum.
pub proof fn law_recent_files_push_keeps_order(s: Seq<Seq<char>>, p: Seq<char>, max: nat)
    requires
        distinct_paths(s),
    ensures
        pushed_recent(s, p, max) == ({
            let l = seq![p] + s.filter(|x: Seq<char>| !same_path(x, p));
            if l.len() > max { l.take(max as int) } else { l }
        }),
{
    let pred = |x: Seq<char>| !same_path(x, p);
    if holds_path(s, p) {
        lemma_first_index(s, p);
        let i = first_index(s, p);
        let q = s[i];
        let a = s.take(i);
        let b = s.skip(i + 1);
        assert(s =~= a + seq![q] + b);
        assert(s.remove(i) =~= a + b);
        assert(!holds_path(a, p)) by {
            if holds_path(a, p) {
                let k = choose|k: int| 0 <= k < a.len() && same_path(#[trigger] a[k], p);
                assert(a[k] == s[k]);
                assert(!same_path(s[k], p));
            }
        }
        assert(!holds_path(b, p)) by {
            if holds_path(b, p) {
                let k = choose|k: int| 0 <= k < b.len() && same_path(#[trigger] b[k], p);
                assert(b[k] == s[i + 1 + k]);
                assert(same_path(s[i + 1 + k], s[i]));
            }
        }
        lemma_filter_keeps_all(a, p);
        lemma_filter_keeps_all(b, p);
        Seq::filter_distributes_over_add(a + seq![q], b, pred);
        Seq::filter_distributes_over_add(a, seq![q], pred);
        reveal(Seq::filter);
        assert(seq![q].drop_last() =~= Seq::<Seq<char>>::empty());
        assert(Seq::<Seq<char>>::empty().filter(pred) == Seq::<Seq<char>>::empty());
        assert(seq![q].drop_last().filter(pred) == Seq::<Seq<char>>::empty());
        assert(seq![q].last() == q);
        assert(!pred(q));
        assert(seq![q].filter(pred) =~= Seq::<Seq<char>>::empty());
        assert(s.filter(pred) =~= a + b);
    } else {
        lemma_filter_keeps_all(s, p);
    }
}

/// Using a path puts it first, keeps the listed paths naming different
/// files when they did before, never grows the list past its maximum, and
/// brings in no path but the one used.
pub proof fn law_recent_files_push(s: Seq<Seq<char>>, p: Seq<char>, max: nat)
    requires
        max >= 1,
    ensures
        pushed_recent(s, p, max)[0] == p,
        pushed_recent(s, p, max).len() <= max,
        pushed_recent(s, p, max).len() <= s.len() + 1,
        distinct_paths(s) ==> distinct_paths(pushed_recent(s, p, max)),
        forall|i: int| 0 <= i < pushed_recent(s, p, max).len() ==> #[trigger] pushed_recent(s, p, max)[i] == p || s.contains(pushed_recent(s, p, max)[i]),
{
    let w = without_first(s, p);
    let l = seq![p] + w;
    let r = pushed_recent(s, p, max);
    if holds_path(s, p) {
        lemma_first_index(s, p);
    }
    // Where each kept entry came from.
    assert forall|k: int| 0 <= k < w.len() implies #[trigger] w[k] == s[if holds_path(s, p) && k >= first_index(s, p) { k + 1 } else { k }] by {
    }
    assert forall|k: int| 0 <= k < w.len() implies s.contains(#[trigger] w[k]) by {
        let j = if holds_path(s, p) && k >= first_index(s, p) { k + 1 } else { k };
        assert(w[k] == s[j]);
    }
    if distinct_paths(s) {
        assert forall|k: int| 0 <= k < w.len() implies !same_path(#[trigger] w[k], p) by {
            if holds_path(s, p) {
                let f = first_index(s, p);
                if k >= f {
                    assert(w[k] == s[k + 1]);
                    assert(!same_path(s[k + 1], s[f]));
                } else {
                    assert(w[k] == s[k]);
                }
            } else {
                assert(w[k] == s[k]);
            }
        }
        assert forall|x: int, y: int| 0 <= x < w.len() && 0 <= y < w.len() && x != y implies !same_path(#[trigger] w[x], #[trigger] w[y]) by {
            let ix = if holds_path(s, p) && x >= first_index(s, p) { x + 1 } else { x };
            let iy = if holds_path(s, p) && y >= first_index(s, p) { y + 1 } else { y };
            assert(w[x] == s[ix]);
            assert(w[y] == s[iy]);
        }
        assert forall|x: int, y: int| 0 <= x < r.len() && 0 <= y < r.len() && x != y implies !same_path(#[trigger] r[x], #[trigger] r[y]) by {
            assert(r[x] == l[x]);
            assert(r[y] == l[y]);
            if x == 0 {
                assert(l[y] == w[y - 1]);
            } else if y == 0 {
                assert(l[x] == w[x - 1]);
            } else {
                assert(l[x] == w[x - 1]);
                assert(l[y] == w[y - 1]);
            }
        }
    }
    assert(w.len() <= s.len());
    assert forall|i: int| 0 <= i < r.len() implies #[trigger] r[i] == p || s.contains(r[i]) by {
        assert(r[i] == l[i]);
        if i > 0 {
            assert(l[i] == w[i - 1]);
        }
    }
}


/// The file dialog: the typed path, the listing of its directory and the
/// recent files offered when opening. `refresh_pending` asks the caller to
/// list the directory again (see `apply_listing`).
pub struct FileOpsDialog {
    pub mode: FileOpsMode,
    pub path_buffer: String,
    pub directory_entries: Vec<String>,
    pub selected_entry: usize,
    pub error_message: String,
    pub hide_dotfiles: bool,
    pub recent_files_for_display: Vec<String>,
    pub refresh_pending: bool,
}

/// The listing was dropped and a new one asked for.
pub open spec fn refresh_requested(d: FileOpsDialog) -> bool {
    &&& d.directory_entries@.len() == 0
    &&& d.selected_entry == 0
    &&& d.refresh_pending
}

/// The path the dialog gives for its typed text: `untitled.flf` when blank,
/// else the trimmed text, with the extension `flf` when it has none.
pub open spec fn chosen_path(text: Seq<char>) -> Seq<char> {
    let t = trimmed(text);
    if t.len() == 0 {
        "untitled.flf"@
    } else if !has_extension(t) {
        with_extension(t, "flf"@)
    } else {
        t
    }
}

/// The selection after Up in a listing of `n` entries.
pub open spec fn selection_up(n: nat, sel: usize) -> usize {
    if n > 0 && sel > 0 {
        (sel - 1) as usize
    } else {
        sel
    }
}

/// The selection after Down in a listing of `n` entries.
pub open spec fn selection_down(n: nat, sel: usize) -> usize {
    if n > 0 && sel < n - 1 {
        (sel + 1) as usize
    } else {
        sel
    }
}

/// The dialog after a key; `path_is_dir` tells whether the typed path names
/// a directory (it decides where a chosen entry is joined).
pub open spec fn file_key_post(pre: FileOpsDialog, post: FileOpsDialog, code: KeyCode, path_is_dir: bool, used: bool) -> bool {
    let n = pre.directory_entries@.len();
    let list_same = post.directory_entries == pre.directory_entries && post.refresh_pending == pre.refresh_pending;
    let others = post.hide_dotfiles == pre.hide_dotfiles && post.recent_files_for_display == pre.recent_files_for_display;
    let moved = used && post.mode == pre.mode && post.path_buffer == pre.path_buffer && post.error_message == pre.error_message && list_same && others;
    let entry_chosen = if n > 0 {
        &&& post.path_buffer@ == joined_path(browse_dir(pre.path_buffer@, path_is_dir), pre.directory_entries@[pre.selected_entry as int]@)
        &&& post.error_message@.len() == 0
        &&& refresh_requested(post)
    } else {
        post.path_buffer == pre.path_buffer && post.error_message == pre.error_message && list_same && post.selected_entry == pre.selected_entry
    };
    let closed = post.mode == FileOpsMode::Idle && post.path_buffer@.len() == 0 && post.directory_entries@.len() == 0 && post.selected_entry == 0 && post.error_message@.len() == 0 && post.recent_files_for_display@.len() == 0 && !post.refresh_pending && post.hide_dotfiles == pre.hide_dotfiles;
    match pre.mode {
        FileOpsMode::Idle => !used && post == pre,
        FileOpsMode::Open => match code {
            KeyCode::Char(c) => if !is_control_char(c) && !is_digit_char(c) {
                used && post.mode == pre.mode && post.path_buffer@ == pre.path_buffer@.push(c) && post.error_message@.len() == 0 && refresh_requested(post) && others
            } else if is_digit_char(c) && c != '0' {
                let idx = c as u32 - '1' as u32;
                if idx < pre.recent_files_for_display@.len() {
                    used && post.mode == pre.mode && post.path_buffer@ == pre.recent_files_for_display@[idx as int]@ && post.error_message@.len() == 0 && refresh_requested(post) && others
                } else {
                    used && post == pre
                }
            } else {
                !used && post == pre
            },
            KeyCode::Backspace => used && post.mode == pre.mode && post.path_buffer@ == crate::font_editor::popped(pre.path_buffer@) && post.error_message@.len() == 0 && refresh_requested(post) && others,
            KeyCode::Up => moved && post.selected_entry == selection_up(n, pre.selected_entry),
            KeyCode::Down => moved && post.selected_entry == selection_down(n, pre.selected_entry),
            KeyCode::Tab => used && post.mode == pre.mode && others && entry_chosen,
            KeyCode::Enter => used && post == (FileOpsDialog { mode: FileOpsMode::Idle, ..pre }),
            KeyCode::Esc => used && closed,
            _ => !used && post == pre,
        },
        FileOpsMode::SaveAs => match code {
            KeyCode::Char(c) => used && post.mode == pre.mode && post.path_buffer@ == pre.path_buffer@.push(c) && post.error_message@.len() == 0 && list_same && post.selected_entry == pre.selected_entry && others,
            KeyCode::Backspace => used && post.mode == pre.mode && post.path_buffer@ == crate::font_editor::popped(pre.path_buffer@) && post.error_message@.len() == 0 && list_same && post.selected_entry == pre.selected_entry && others,
            KeyCode::Up => moved && post.selected_entry == selection_up(n, pre.selected_entry),
            KeyCode::Down => moved && post.selected_entry == selection_down(n, pre.selected_entry),
            KeyCode::Tab => used && post.mode == pre.mode && others && entry_chosen,
            KeyCode::Enter => used && post == (FileOpsDialog { mode: FileOpsMode::Idle, ..pre }),
            KeyCode::Esc => used && closed,
            _ => !used && post == pre,
        },
    }
}

impl FileOpsDialog {
    /// An idle dialog with nothing typed or listed, hiding dotfiles.
    pub fn new() -> (d: FileOpsDialog)
        ensures
            d.mode == FileOpsMode::Idle,
            d.path_buffer@.len() == 0,
            d.directory_entries@.len() == 0,
            d.selected_entry == 0,
            d.error_message@.len() == 0,
            d.hide_dotfiles,
            d.recent_files_for_display@.len() == 0,
            !d.refresh_pending,
    {
        FileOpsDialog {
            mode: FileOpsMode::Idle,
            path_buffer: String::new(),
            directory_entries: Vec::new(),
            selected_entry: 0,
            error_message: String::new(),
            hide_dotfiles: true,
            recent_files_for_display: Vec::new(),
            refresh_pending: false,
        }
    }

    fn request_refresh(&mut self)
        ensures
            refresh_requested(*final(self)),
            final(self).mode == old(self).mode,
            final(self).path_buffer == old(self).path_buffer,
            final(self).error_message == old(self).error_message,
            final(self).hide_dotfiles == old(self).hide_dotfiles,
            final(self).recent_files_for_display == old(self).recent_files_for_display,
    {
        self.directory_entries = Vec::new();
        self.selected_entry = 0;
        self.refresh_pending = true;
    }

    /// The directory to list for the typed path; `path_is_dir` tells whether
    /// the typed path names a directory.
    pub fn listing_dir(&self, path_is_dir: bool) -> (r: String)
        ensures
            r@ == browse_dir(self.path_buffer@, path_is_dir),
    {
        crate::browse::browse_directory(self.path_buffer.as_str(), path_is_dir)
    }

    /// Take the entries read from the listed directory: directories and
    /// fonts, without dotfiles when they are hidden, sorted.
    pub fn apply_listing(&mut self, entries: &Vec<DirEntry>)
        ensures
            sorted_strings(strings_view(final(self).directory_entries@)),
            strings_view(final(self).directory_entries@).to_multiset() == shown_names(entries@, old(self).hide_dotfiles).to_multiset(),
            final(self).selected_entry == 0,
            !final(self).refresh_pending,
            final(self).mode == old(self).mode,
            final(self).path_buffer == old(self).path_buffer,
            final(self).error_message == old(self).error_message,
            final(self).hide_dotfiles == old(self).hide_dotfiles,
            final(self).recent_files_for_display == old(self).recent_files_for_display,
    {
        self.directory_entries = listed_names(entries, self.hide_dotfiles);
        self.selected_entry = 0;
        self.refresh_pending = false;
    }

    /// The directory `dir` could not be read: the listing stays empty and
    /// the message says so.
    pub fn listing_failed(&mut self, dir: &str)
        ensures
            final(self).error_message@ == "Cannot read directory: "@ + dir@,
            final(self).directory_entries@.len() == 0,
            final(self).selected_entry == 0,
            !final(self).refresh_pending,
            final(self).mode == old(self).mode,
            final(self).path_buffer == old(self).path_buffer,
            final(self).hide_dotfiles == old(self).hide_dotfiles,
            final(self).recent_files_for_display == old(self).recent_files_for_display,
    {
        self.directory_entries = Vec::new();
        self.selected_entry = 0;
        self.error_message = unreadable_message(dir);
        self.refresh_pending = false;
    }

    /// Start opening a font: empty path, no message, `recent` offered by
    /// number, the working directory to be listed.
    pub fn enter_open(&mut self, recent: &[String])
        ensures
            final(self).mode == FileOpsMode::Open,
            final(self).path_buffer@.len() == 0,
            final(self).error_message@.len() == 0,
            strings_view(final(self).recent_files_for_display@) == strings_view(recent@),
            refresh_requested(*final(self)),
            final(self).hide_dotfiles == old(self).hide_dotfiles,
    {
        self.mode = FileOpsMode::Open;
        self.path_buffer = String::new();
        self.selected_entry = 0;
        self.error_message = String::new();
        let mut shown: Vec<String> = Vec::new();
        let mut i: usize = 0;
        while i < recent.len()
            invariant
                i <= recent@.len(),
                shown@.len() == i,
                strings_view(shown@) == strings_view(recent@.take(i as int)),
            decreases recent@.len() - i,
        {
            let c = copy_string(recent[i].as_str());
            let ghost prev = shown@;
            shown.push(c);
            i = i + 1;
            assert forall|k: int| 0 <= k < i implies #[trigger] strings_view(shown@)[k] == strings_view(recent@.take(i as int))[k] by {
                if k < i - 1 {
                    assert(strings_view(prev)[k] == strings_view(recent@.take(i - 1))[k]);
                }
            }
            assert(strings_view(shown@) =~= strings_view(recent@.take(i as int)));
        }
        assert(recent@.take(i as int) =~= recent@);
        self.recent_files_for_display = shown;
        self.request_refresh();
    }

    /// Start saving: the path starts from `current` (empty when there is
    /// none), no message, its directory to be listed.
    pub fn enter_save_as(&mut self, current: Option<&str>)
        ensures
            final(self).mode == FileOpsMode::SaveAs,
            final(self).path_buffer@ == (match current {
                Some(c) => c@,
                None => Seq::<char>::empty(),
            }),
            final(self).error_message@.len() == 0,
            refresh_requested(*final(self)),
            final(self).hide_dotfiles == old(self).hide_dotfiles,
            final(self).recent_files_for_display == old(self).recent_files_for_display,
    {
        self.mode = FileOpsMode::SaveAs;
        self.path_buffer = match current {
            Some(c) => copy_string(c),
            None => String::new(),
        };
        self.selected_entry = 0;
        self.error_message = String::new();
        self.request_refresh();
    }

    /// Close the dialog and forget what it held.
    pub fn close(&mut self)
        ensures
            final(self).mode == FileOpsMode::Idle,
            final(self).path_buffer@.len() == 0,
            final(self).directory_entries@.len() == 0,
            final(self).selected_entry == 0,
            final(self).error_message@.len() == 0,
            final(self).recent_files_for_display@.len() == 0,
            !final(self).refresh_pending,
            final(self).hide_dotfiles == old(self).hide_dotfiles,
    {
        self.mode = FileOpsMode::Idle;
        self.path_buffer = String::new();
        self.directory_entries = Vec::new();
        self.selected_entry = 0;
        self.error_message = String::new();
        self.recent_files_for_display = Vec::new();
        self.refresh_pending = false;
    }

    /// Append pasted text to the path (ignored while idle).
    pub fn handle_paste(&mut self, text: &str)
        ensures
            old(self).mode == FileOpsMode::Idle ==> *final(self) == *old(self),
            old(self).mode != FileOpsMode::Idle ==> {
                &&& final(self).path_buffer@ == old(self).path_buffer@ + text@
                &&& final(self).error_message@.len() == 0
                &&& refresh_requested(*final(self))
                &&& final(self).mode == old(self).mode
                &&& final(self).hide_dotfiles == old(self).hide_dotfiles
                &&& final(self).recent_files_for_display == old(self).recent_files_for_display
            },
    {
        if self.mode == FileOpsMode::Idle {
            return;
        }
        push_str(&mut self.path_buffer, text);
        self.error_message = String::new();
        self.selected_entry = 0;
        self.request_refresh();
    }

    /// The path to save to or open: see `chosen_path`.
    pub fn selected_path(&self) -> (p: String)
        ensures
            p@ == chosen_path(self.path_buffer@),
    {
        let t = trim(self.path_buffer.as_str());
        if t.unicode_len() == 0 {
            return copy_string("untitled.flf");
        }
        if !path_has_extension(t.as_str()) {
            proof {
                reveal_strlit("flf");
                assert(!"flf"@.contains('/')) by {
                    if "flf"@.contains('/') {
                        let k = choose|k: int| 0 <= k < "flf"@.len() && "flf"@[k] == '/';
                    }
                }
                assert(!"flf"@.contains('\\')) by {
                    if "flf"@.contains('\\') {
                        let k = choose|k: int| 0 <= k < "flf"@.len() && "flf"@[k] == '\\';
                    }
                }
            }
            path_with_extension(t.as_str(), "flf")
        } else {
            t
        }
    }

    /// Put the selected entry, joined to the listed directory, in the path.
    pub fn select_entry(&mut self, path_is_dir: bool)
        requires
            old(self).selected_entry < old(self).directory_entries@.len(),
        ensures
            final(self).path_buffer@ == joined_path(browse_dir(old(self).path_buffer@, path_is_dir), old(self).directory_entries@[old(self).selected_entry as int]@),
            final(self).error_message@.len() == 0,
            refresh_requested(*final(self)),
            final(self).mode == old(self).mode,
            final(self).hide_dotfiles == old(self).hide_dotfiles,
            final(self).recent_files_for_display == old(self).recent_files_for_display,
    {
        let parent = crate::browse::browse_directory(self.path_buffer.as_str(), path_is_dir);
        let joined = path_join(parent.as_str(), self.directory_entries[self.selected_entry].as_str());
        self.path_buffer = joined;
        self.selected_entry = 0;
        self.error_message = String::new();
        self.request_refresh();
    }

    /// A key: see `file_key_post`.
    pub fn handle_key(&mut self, code: KeyCode, path_is_dir: bool) -> (used: bool)
        requires
            code == KeyCode::Tab && old(self).directory_entries@.len() > 0 ==> old(self).selected_entry < old(self).directory_entries@.len(),
        ensures
            file_key_post(*old(self), *final(self), code, path_is_dir, used),
    {
        match self.mode {
            FileOpsMode::Idle => false,
            FileOpsMode::Open => self.handle_key_open(code, path_is_dir),
            FileOpsMode::SaveAs => self.handle_key_save_as(code, path_is_dir),
        }
    }

    fn move_or_choose(&mut self, code: KeyCode, path_is_dir: bool)
        requires
            code == KeyCode::Up || code == KeyCode::Down || code == KeyCode::Tab,
            code == KeyCode::Tab && old(self).directory_entries@.len() > 0 ==> old(self).selected_entry < old(self).directory_entries@.len(),
        ensures
            file_key_post(*old(self), *final(self), code, path_is_dir, true) || old(self).mode == FileOpsMode::Idle,
            old(self).mode != FileOpsMode::Idle ==> file_key_post(*old(self), *final(self), code, path_is_dir, true),
    {
        let n = self.directory_entries.len();
        match code {
            KeyCode::Up => {
                if n > 0 && self.selected_entry > 0 {
                    self.selected_entry = self.selected_entry - 1;
                }
            },
            KeyCode::Down => {
                if n > 0 && self.selected_entry < n - 1 {
                    self.selected_entry = self.selected_entry + 1;
                }
            },
            _ => {
                if n > 0 {
                    self.select_entry(path_is_dir);
                }
            },
        }
    }

    fn handle_key_open(&mut self, code: KeyCode, path_is_dir: bool) -> (used: bool)
        requires
            old(self).mode == FileOpsMode::Open,
            code == KeyCode::Tab && old(self).directory_entries@.len() > 0 ==> old(self).selected_entry < old(self).directory_entries@.len(),
        ensures
            file_key_post(*old(self), *final(self), code, path_is_dir, used),
    {
        match code {
            KeyCode::Char(c) => {
                if !is_control(c) && !crate::keys::is_ascii_digit(c) {
                    push_char(&mut self.path_buffer, c);
                    self.error_message = String::new();
                    self.selected_entry = 0;
                    self.request_refresh();
                    true
                } else if crate::keys::is_ascii_digit(c) && c != '0' {
                    let idx = (c as u32 - '1' as u32) as usize;
                    if idx < self.recent_files_for_display.len() {
                        self.path_buffer = copy_string(self.recent_files_for_display[idx].as_str());
                        self.selected_entry = 0;
                        self.error_message = String::new();
                        self.request_refresh();
                    }
                    true
                } else {
                    false
                }
            },
            KeyCode::Backspace => {
                pop_char(&mut self.path_buffer);
                self.error_message = String::new();
                self.selected_entry = 0;
                self.request_refresh();
                true
            },
            KeyCode::Up | KeyCode::Down | KeyCode::Tab => {
                self.move_or_choose(code, path_is_dir);
                true
            },
            KeyCode::Enter => {
                self.mode = FileOpsMode::Idle;
                true
            },
            KeyCode::Esc => {
                self.close();
                true
            },
            _ => false,
        }
    }

    fn handle_key_save_as(&mut self, code: KeyCode, path_is_dir: bool) -> (used: bool)
        requires
            old(self).mode == FileOpsMode::SaveAs,
            code == KeyCode::Tab && old(self).directory_entries@.len() > 0 ==> old(self).selected_entry < old(self).directory_entries@.len(),
        ensures
            file_key_post(*old(self), *final(self), code, path_is_dir, used),
    {
        match code {
            KeyCode::Char(c) => {
                push_char(&mut self.path_buffer, c);
                self.error_message = String::new();
                true
            },
            KeyCode::Backspace => {
                pop_char(&mut self.path_buffer);
                self.error_message = String::new();
                true
            },
            KeyCode::Up | KeyCode::Down | KeyCode::Tab => {
                self.move_or_choose(code, path_is_dir);
                true
            },
            KeyCode::Enter => {
                self.mode = FileOpsMode::Idle;
                true
            },
            KeyCode::Esc => {
                self.close();
                true
            },
            _ => false,
        }
    }
}

impl Default for FileOpsDialog {
    fn default() -> (d: FileOpsDialog)
        ensures
            d.mode == FileOpsMode::Idle,
            d.path_buffer@.len() == 0,
            d.hide_dotfiles,
    {
        FileOpsDialog::new()
    }
}


/// The name of the file at `p` without its extension, as `Path::file_stem`
/// gives it.
pub uninterp spec fn file_stem(p: Seq<char>) -> Option<Seq<char>>;

/// `Path::file_stem`: the last component of the path without its
/// extension; `None` when the path ends in `..` or has no file name.
#[verifier::external_body]
fn path_file_stem(p: &str) -> (r: Option<String>)
    ensures
        match r {
            Some(s) => file_stem(p@) == Some(s@),
            None => file_stem(p@) is None,
        },
{
    std::path::Path::new(p).file_stem().and_then(|s| s.to_str()).map(|s| s.to_string())
}

/// Where a font is written before it replaces the file at `path`: the
/// hidden file `.<stem>.tmp` beside it (stem `font` when the path has
/// none; the working directory when it has no parent).
pub open spec fn save_temp_path(path: Seq<char>) -> Seq<char> {
    let dir = match crate::browse::parent_path(path) {
        Some(q) => q,
        None => "."@,
    };
    let stem = match file_stem(path) {
        Some(s) => s,
        None => "font"@,
    };
    joined_path(dir, "."@ + stem + ".tmp"@)
}

/// The temporary file a font is saved to before it is renamed to `path`:
/// see `save_temp_path`.
pub fn temp_path_for(path: &str) -> (r: String)
    ensures
        r@ == save_temp_path(path@),
{
    let dir = match crate::browse::path_parent(path) {
        Some(q) => q,
        None => copy_string("."),
    };
    let stem = match path_file_stem(path) {
        Some(s) => s,
        None => copy_string("font"),
    };
    let mut name = copy_string(".");
    push_str(&mut name, stem.as_str());
    push_str(&mut name, ".tmp");
    path_join(dir.as_str(), name.as_str())
}
} // verus!
