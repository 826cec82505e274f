use vstd::prelude::*;

use crate::text::{chars_of, copy_string, push_str, strings_view};

verus! {

/// `a` comes before `b` in the order `str`'s `<` uses: the first position
/// where they differ holds a smaller character in `a`, or `a` is a proper
/// prefix of `b`. (UTF-8 keeps the order of code points, so comparing the
/// bytes and comparing the characters agree.)
pub open spec fn lex_lt(a: Seq<char>, b: Seq<char>) -> bool {
    exists|k: int| #[trigger] lex_lt_at(a, b, k)
}

/// `a` and `b` agree before position `k`, where `a` ends early or holds the
/// smaller character.
pub open spec fn lex_lt_at(a: Seq<char>, b: Seq<char>, k: int) -> bool {
    &&& 0 <= k <= a.len()
    &&& k <= b.len()
    &&& forall|j: int| 0 <= j < k ==> a[j] == b[j]
    &&& ((k == a.len() && k < b.len()) || (k < a.len() && k < b.len() && a[k] < b[k]))
}

/// `a` equals `b` or comes before it.
pub open spec fn lex_le(a: Seq<char>, b: Seq<char>) -> bool {
    a == b || lex_lt(a, b)
}

/// The strings are in increasing order.
pub open spec fn sorted_strings(s: Seq<Seq<char>>) -> bool {
    forall|i: int, j: int| 0 <= i < j < s.len() ==> lex_le(s[i], s[j])
}

proof fn lemma_lex_lt_transitive(a: Seq<char>, b: Seq<char>, c: Seq<char>)
    requires
        lex_lt(a, b),
        lex_lt(b, c),
    ensures
        lex_lt(a, c),
{
    let k1 = choose|k: int| #[trigger] lex_lt_at(a, b, k);
    let k2 = choose|k: int| #[trigger] lex_lt_at(b, c, k);
    if k1 < k2 {
        assert(lex_lt_at(a, c, k1));
    } else if k2 < k1 {
        assert(a[k2] == b[k2]);
        assert(lex_lt_at(a, c, k2));
    } else {
        assert(lex_lt_at(a, c, k1));
    }
}

pub(crate) proof fn lemma_lex_le_transitive(a: Seq<char>, b: Seq<char>, c: Seq<char>)
    requires
        lex_le(a, b),
        lex_le(b, c),
    ensures
        lex_le(a, c),
{
    if a != b && b != c {
        lemma_lex_lt_transitive(a, b, c);
    }
}

proof fn lemma_lex_lt_irreflexive(a: Seq<char>)
    ensures
        !lex_lt(a, a),
{
    if lex_lt(a, a) {
        let k = choose|k: int| #[trigger] lex_lt_at(a, a, k);
    }
}

/// How two strings compare: -1 when `a` comes first, 0 when equal, 1 when
/// `b` comes first.
pub fn compare_strings(a: &str, b: &str) -> (r: i8)
    ensures
        r == -1 <==> lex_lt(a@, b@),
        r == 0 <==> a@ == b@,
        r == 1 <==> lex_lt(b@, a@),
        r == -1 || r == 0 || r == 1,
{
    let ac = chars_of(a);
    let bc = chars_of(b);
    let mut k: usize = 0;
    while k < ac.len() && k < bc.len() && ac[k] == bc[k]
        invariant
            ac@ == a@,
            bc@ == b@,
            k <= ac@.len(),
            k <= bc@.len(),
            forall|j: int| 0 <= j < k ==> ac@[j] == bc@[j],
        decreases ac@.len() - k,
    {
        k = k + 1;
    }
    proof {
        lemma_lex_lt_irreflexive(a@);
        lemma_lex_lt_irreflexive(b@);
    }
    if k == ac.len() && k == bc.len() {
        assert(a@ =~= b@);
        0
    } else if k == ac.len() {
        assert(lex_lt_at(a@, b@, k as int));
        proof {
            if lex_lt(b@, a@) {
                lemma_lex_lt_transitive(a@, b@, a@);
            }
        }
        -1
    } else if k == bc.len() {
        assert(lex_lt_at(b@, a@, k as int));
        proof {
            if lex_lt(a@, b@) {
                lemma_lex_lt_transitive(a@, b@, a@);
            }
        }
        1
    } else if ac[k] < bc[k] {
        assert(lex_lt_at(a@, b@, k as int));
        assert(a@ != b@) by {
            assert(a@[k as int] != b@[k as int]);
        }
        proof {
            if lex_lt(b@, a@) {
                lemma_lex_lt_transitive(a@, b@, a@);
            }
        }
        -1
    } else {
        assert(ac@[k as int] != bc@[k as int]);
        assert(lex_lt_at(b@, a@, k as int));
        assert(a@ != b@) by {
            assert(a@[k as int] != b@[k as int]);
        }
        proof {
            if lex_lt(a@, b@) {
                lemma_lex_lt_transitive(a@, b@, a@);
            }
        }
        1
    }
}

/// One entry of a directory: its file name and whether it is a directory.
pub struct DirEntry {
    pub name: String,
    pub is_dir: bool,
}

/// `s` ends with `p`.
pub open spec fn has_suffix(s: Seq<char>, p: Seq<char>) -> bool {
    p.len() <= s.len() && s.subrange(s.len() - p.len(), s.len() as int) == p
}

/// Whether `s` ends with `p` (`str::ends_with`).
pub fn ends_with(s: &str, p: &str) -> (r: bool)
    ensures
        r == has_suffix(s@, p@),
{
    let sc = chars_of(s);
    let pc = chars_of(p);
    if pc.len() > sc.len() {
        return false;
    }
    let sl = sc.len();
    let off = sl - pc.len();
    let mut i: usize = 0;
    while i < pc.len()
        invariant
            sl == sc@.len(),
            sc@ == s@,
            pc@ == p@,
            pc@.len() <= sc@.len(),
            off == sc@.len() - pc@.len(),
            i <= pc@.len(),
            forall|j: int| 0 <= j < i ==> sc@[off + j] == pc@[j],
        decreases pc@.len() - i,
    {
        if sc[off + i] != pc[i] {
            assert(s@.subrange(off as int, s@.len() as int)[i as int] != p@[i as int]);
            return false;
        }
        i = i + 1;
    }
    assert(s@.subrange(off as int, s@.len() as int) =~= p@);
    true
}

/// A directory entry is listed: it is not hidden (a name starting with `.`
/// while dotfiles are hidden) and it is a directory or a `.flf` or `.tlf`
/// font.
pub open spec fn shown_entry(name: Seq<char>, is_dir: bool, hide_dotfiles: bool) -> bool {
    &&& !(hide_dotfiles && name.len() > 0 && name[0] == '.')
    &&& (is_dir || has_suffix(name, ".flf"@) || has_suffix(name, ".tlf"@))
}

/// The names of the listed entries of `entries`, in the order given.
pub open spec fn shown_names(entries: Seq<DirEntry>, hide_dotfiles: bool) -> Seq<Seq<char>>
    decreases entries.len(),
{
    if entries.len() == 0 {
        Seq::empty()
    } else {
        let rest = shown_names(entries.drop_last(), hide_dotfiles);
        let e = entries.last();
        if shown_entry(e.name@, e.is_dir, hide_dotfiles) {
            rest.push(e.name@)
        } else {
            rest
        }
    }
}

fn is_shown(e: &DirEntry, hide_dotfiles: bool) -> (r: bool)
    ensures
        r == shown_entry(e.name@, e.is_dir, hide_dotfiles),
{
    proof {
        reveal_strlit(".flf");
        reveal_strlit(".tlf");
    }
    let hidden = hide_dotfiles && e.name.unicode_len() > 0 && e.name.get_char(0) == '.';
    !hidden && (e.is_dir || ends_with(e.name.as_str(), ".flf") || ends_with(e.name.as_str(), ".tlf"))
}

/// Insert `x` into the increasing `v`, after the entries not greater than it.
fn insert_string_sorted(v: &mut Vec<String>, x: String)
    requires
        sorted_strings(crate::text::strings_view(old(v)@)),
    ensures
        sorted_strings(crate::text::strings_view(final(v)@)),
        crate::text::strings_view(final(v)@).to_multiset() == crate::text::strings_view(old(v)@).to_multiset().insert(x@),
{
    let ghost sv = crate::text::strings_view(v@);
    let mut i: usize = 0;
    while i < v.len() && compare_strings(v[i].as_str(), x.as_str()) != 1
        invariant
            sv == crate::text::strings_view(v@),
            i <= v@.len(),
            forall|j: int| 0 <= j < i ==> lex_le(sv[j], x@),
        decreases v@.len() - i,
    {
        assert(sv[i as int] == v@[i as int]@);
        i = i + 1;
    }
    proof {
        if i < v@.len() {
            assert(sv[i as int] == v@[i as int]@);
            assert(lex_lt(x@, sv[i as int]));
        }
    }
    let ghost xv = x@;
    v.insert(i, x);
    proof {
        let nv = crate::text::strings_view(v@);
        assert(nv =~= sv.insert(i as int, xv));
        assert forall|a: int, b: int| 0 <= a < b < nv.len() implies lex_le(nv[a], nv[b]) by {
            if b < i {
            } else if b == i {
            } else if a < i {
                assert(nv[b] == sv[b - 1]);
                assert(lex_le(sv[a], xv));
                assert(lex_lt(xv, sv[i as int]));
                if b - 1 > i {
                    assert(lex_le(sv[i as int], sv[b - 1]));
                }
                lemma_lex_le_transitive(sv[a], xv, sv[i as int]);
                lemma_lex_le_transitive(sv[a], sv[i as int], sv[b - 1]);
            } else if a == i {
                assert(lex_lt(xv, sv[i as int]));
                if b - 1 > i {
                    assert(lex_le(sv[i as int], sv[b - 1]));
                    lemma_lex_le_transitive(xv, sv[i as int], sv[b - 1]);
                }
            } else {
                assert(nv[a] == sv[a - 1]);
                assert(nv[b] == sv[b - 1]);
            }
        }
        vstd::seq_lib::to_multiset_insert(sv, i as int, xv);
    }
}

/// The same names in increasing order.
pub fn sorted_names(names: &Vec<String>) -> (r: Vec<String>)
    ensures
        sorted_strings(crate::text::strings_view(r@)),
        crate::text::strings_view(r@).to_multiset() == crate::text::strings_view(names@).to_multiset(),
{
    let mut r: Vec<String> = Vec::new();
    let mut i: usize = 0;
    assert(crate::text::strings_view(r@) =~= Seq::<Seq<char>>::empty());
    assert(crate::text::strings_view(names@.take(0)) =~= Seq::<Seq<char>>::empty());
    while i < names.len()
        invariant
            i <= names@.len(),
            sorted_strings(crate::text::strings_view(r@)),
            crate::text::strings_view(r@).to_multiset() == crate::text::strings_view(names@.take(i as int)).to_multiset(),
        decreases names@.len() - i,
    {
        let name = copy_string(names[i].as_str());
        insert_string_sorted(&mut r, name);
        proof {
            assert(crate::text::strings_view(names@.take(i + 1)) =~= crate::text::strings_view(names@.take(i as int)).push(names@[i as int]@));
            vstd::seq_lib::to_multiset_build(crate::text::strings_view(names@.take(i as int)), names@[i as int]@);
        }
        i = i + 1;
    }
    assert(names@.take(i as int) =~= names@);
    r
}

/// The names of the entries a file browser lists: directories and `.flf`
/// and `.tlf` fonts, without hidden names when `hide_dotfiles` is set,
/// sorted.
pub fn listed_names(entries: &Vec<DirEntry>, hide_dotfiles: bool) -> (r: Vec<String>)
    ensures
        sorted_strings(crate::text::strings_view(r@)),
        crate::text::strings_view(r@).to_multiset() == shown_names(entries@, hide_dotfiles).to_multiset(),
{
    let mut names: Vec<String> = Vec::new();
    let mut i: usize = 0;
    while i < entries.len()
        invariant
            i <= entries@.len(),
            crate::text::strings_view(names@) == shown_names(entries@.take(i as int), hide_dotfiles),
        decreases entries@.len() - i,
    {
        let e = &entries[i];
        assert(entries@.take(i + 1).drop_last() =~= entries@.take(i as int));
        assert(entries@.take(i + 1).last() == entries@[i as int]);
        if is_shown(e, hide_dotfiles) {
            let ghost prev = names@;
            names.push(copy_string(e.name.as_str()));
            assert(crate::text::strings_view(names@) =~= crate::text::strings_view(prev).push(e.name@));
        }
        i = i + 1;
    }
    assert(entries@.take(i as int) =~= entries@);
    sorted_names(&names)
}

/// The parent of a path, as `Path::parent` gives it.
pub uninterp spec fn parent_path(p: Seq<char>) -> Option<Seq<char>>;

/// `Path::parent`: the path without its last component; `None` for a root
/// or an empty path.
#[verifier::external_body]
pub(crate) fn path_parent(p: &str) -> (r: Option<String>)
    ensures
        match r {
            Some(s) => parent_path(p@) == Some(s@),
            None => parent_path(p@) is None,
        },
{
    std::path::Path::new(p).parent().map(|q| q.to_string_lossy().to_string())
}

/// `base` joined with `entry`, as `Path::join` gives it.
pub uninterp spec fn joined_path(base: Seq<char>, entry: Seq<char>) -> Seq<char>;

/// `Path::join`: `entry` appended to `base` as a new component (an absolute
/// `entry` replaces `base`).
#[verifier::external_body]
pub(crate) fn path_join(base: &str, entry: &str) -> (r: String)
    ensures
        r@ == joined_path(base@, entry@),
{
    std::path::Path::new(base).join(entry).to_string_lossy().to_string()
}

/// The directory a browser shows for the typed path: the working directory
/// for an empty path, the path itself when it is a directory, else its
/// parent (the working directory when it has none).
pub open spec fn browse_dir(path: Seq<char>, path_is_dir: bool) -> Seq<char> {
    if path.len() == 0 {
        "."@
    } else if path_is_dir {
        path
    } else {
        match parent_path(path) {
            Some(q) => q,
            None => "."@,
        }
    }
}

/// The directory a browser shows for `path`; `path_is_dir` tells whether
/// `path` names a directory.
pub fn browse_directory(path: &str, path_is_dir: bool) -> (r: String)
    ensures
        r@ == browse_dir(path@, path_is_dir),
{
    if path.unicode_len() == 0 {
        copy_string(".")
    } else if path_is_dir {
        copy_string(path)
    } else {
        match path_parent(path) {
            Some(q) => q,
            None => copy_string("."),
        }
    }
}

/// What the file system says of the paths that a key in a file browser
/// may look at.
#[derive(Debug, Clone, Copy, PartialEq, Eq, Structural)]
pub struct PathFacts {
    /// The typed path names a directory.
    pub path_is_dir: bool,
    /// The typed path, trimmed, names a directory.
    pub trimmed_is_dir: bool,
    /// The typed path, trimmed, names a regular file.
    pub trimmed_is_file: bool,
    /// Something exists at the typed path, trimmed.
    pub trimmed_exists: bool,
    /// The selected entry, joined to the listed directory, names a
    /// directory.
    pub entry_is_dir: bool,
}

/// What Enter does in a file browser.
#[derive(Debug, Clone, Copy, PartialEq, Eq, Structural)]
pub enum EnterStep {
    /// The typed path is a directory: list it again.
    Relist,
    /// The typed path is a file: open it.
    OpenTyped,
    /// The selected entry is a directory: go into it.
    Descend,
    /// The selected entry is not a directory: take it as the file.
    OpenEntry,
    /// Nothing is typed that exists and nothing is listed.
    Stay,
}

/// The step Enter takes for the typed `path` over a listing of
/// `n_entries` names.
pub open spec fn enter_step(path: Seq<char>, n_entries: nat, facts: PathFacts) -> EnterStep {
    let t = crate::text::trimmed(path);
    if t.len() > 0 && facts.trimmed_is_dir {
        EnterStep::Relist
    } else if t.len() > 0 && facts.trimmed_is_file {
        EnterStep::OpenTyped
    } else if n_entries > 0 {
        if facts.entry_is_dir {
            EnterStep::Descend
        } else {
            EnterStep::OpenEntry
        }
    } else {
        EnterStep::Stay
    }
}

/// The path of listed entry `sel`: its name joined to the directory listed
/// for `path`.
pub open spec fn entry_path(path: Seq<char>, entries: Seq<Seq<char>>, sel: int, path_is_dir: bool) -> Seq<char> {
    joined_path(browse_dir(path, path_is_dir), entries[sel])
}

/// The step Enter takes: see `enter_step`.
pub fn enter_step_of(path: &str, n_entries: usize, facts: PathFacts) -> (r: EnterStep)
    ensures
        r == enter_step(path@, n_entries as nat, facts),
{
    let t = crate::text::trim(path);
    let typed = t.unicode_len() > 0;
    if typed && facts.trimmed_is_dir {
        EnterStep::Relist
    } else if typed && facts.trimmed_is_file {
        EnterStep::OpenTyped
    } else if n_entries > 0 {
        if facts.entry_is_dir {
            EnterStep::Descend
        } else {
            EnterStep::OpenEntry
        }
    } else {
        EnterStep::Stay
    }
}

/// The path of the selected entry (see `entry_path`), `None` when the
/// selection is past the listing.
pub fn selected_entry_path(path: &str, entries: &Vec<String>, sel: usize, path_is_dir: bool) -> (r: Option<String>)
    ensures
        sel < entries@.len() ==> (r matches Some(p) && p@ == entry_path(path@, strings_view(entries@), sel as int, path_is_dir)),
        sel >= entries@.len() ==> r is None,
{
    if sel >= entries.len() {
        return None;
    }
    let dir = browse_directory(path, path_is_dir);
    Some(path_join(dir.as_str(), entries[sel].as_str()))
}

/// "Cannot read directory: " and the directory.
pub fn unreadable_message(dir: &str) -> (m: String)
    ensures
        m@ == "Cannot read directory: "@ + dir@,
{
    let mut m = String::new();
    push_str(&mut m, "Cannot read directory: ");
    push_str(&mut m, dir);
    m
}


/// Whether the file name of a path has an extension, as `Path::extension`
/// reports it.
pub uninterp spec fn has_extension(p: Seq<char>) -> bool;

/// `Path::extension` is `Some`: the file name has a dot that is not its
/// first character.
#[verifier::external_body]
pub(crate) fn path_has_extension(p: &str) -> (r: bool)
    ensures
        r == has_extension(p@),
{
    std::path::Path::new(p).extension().is_some()
}

/// The path with its extension set to `ext`, as `Path::with_extension`
/// gives it.
pub uninterp spec fn with_extension(p: Seq<char>, ext: Seq<char>) -> Seq<char>;

/// `Path::with_extension`: the path with the extension of its file name
/// replaced by (or extended with) `ext`. It panics on an extension that
/// holds a path separator (`/`, and also `\\` on Windows), which
/// `requires` leaves out.
#[verifier::external_body]
pub(crate) fn path_with_extension(p: &str, ext: &str) -> (r: String)
    requires
        !ext@.contains('/'),
        !ext@.contains('\\'),
    ensures
        r@ == with_extension(p@, ext@),
{
    std::path::Path::new(p).with_extension(ext).to_string_lossy().to_string()
}

} // verus!
