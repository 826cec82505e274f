use vstd::prelude::*;

use std::collections::HashMap;

use vstd::std_specs::iter::IteratorSpec;

use crate::text::{push_char, repeat_char, strings_view};

verus! {

broadcast use vstd::std_specs::hash::group_hash_axioms;

/// One glyph of a FIGfont: its rows of sub-characters, top to bottom.
#[derive(Debug)]
pub struct FIGcharacter {
    rows: Vec<String>,
}

impl View for FIGcharacter {
    type V = Seq<Seq<char>>;

    closed spec fn view(&self) -> Seq<Seq<char>> {
        strings_view(self.rows@)
    }
}

/// The widest row of a glyph, in characters (0 for a glyph without rows).
pub open spec fn glyph_width(rows: Seq<Seq<char>>) -> nat
    decreases rows.len(),
{
    if rows.len() == 0 {
        0
    } else {
        let w = glyph_width(rows.drop_last());
        if rows.last().len() > w {
            rows.last().len()
        } else {
            w
        }
    }
}

/// `h` rows of `w` spaces each.
pub open spec fn blank_rows(h: nat, w: nat) -> Seq<Seq<char>> {
    Seq::new(h, |i: int| Seq::new(w, |j: int| ' '))
}

impl FIGcharacter {
    /// A glyph made of the given rows.
    pub fn new(rows: Vec<String>) -> (c: FIGcharacter)
        ensures
            c@ == strings_view(rows@),
    {
        FIGcharacter { rows }
    }

    /// The rows of the glyph.
    pub fn rows(&self) -> (r: &[String])
        ensures
            strings_view(r@) == self@,
    {
        self.rows.as_slice()
    }

    /// A copy of the rows of the glyph.
    pub fn rows_vec(&self) -> (r: Vec<String>)
        ensures
            strings_view(r@) == self@,
    {
        copy_rows(&self.rows)
    }

    /// Replace the rows of the glyph.
    pub fn set_rows(&mut self, rows: Vec<String>)
        ensures
            final(self)@ == strings_view(rows@),
    {
        self.rows = rows;
    }

    /// The number of rows.
    pub fn height(&self) -> (n: usize)
        ensures
            n == self@.len(),
    {
        self.rows.len()
    }

    /// The widest row, in characters.
    pub fn width(&self) -> (w: usize)
        ensures
            w == glyph_width(self@),
    {
        let mut w: usize = 0;
        let mut i: usize = 0;
        while i < self.rows.len()
            invariant
                i <= self.rows@.len(),
                w == glyph_width(self@.take(i as int)),
            decreases self.rows@.len() - i,
        {
            let n = self.rows[i].unicode_len();
            proof {
                assert(self@.take(i + 1).drop_last() =~= self@.take(i as int));
                assert(self@.take(i + 1).last() == self.rows@[i as int]@);
            }
            if n > w {
                w = n;
            }
            i = i + 1;
        }
        assert(self@.take(i as int) =~= self@);
        w
    }

    /// A copy of the glyph.
    pub fn duplicate(&self) -> (c: FIGcharacter)
        ensures
            c@ == self@,
    {
        FIGcharacter { rows: copy_rows(&self.rows) }
    }

    /// A glyph of `h` rows of `w` spaces.
    pub fn blank(h: u32, w: u32) -> (c: FIGcharacter)
        ensures
            c@ == blank_rows(h as nat, w as nat),
    {
        let mut rows: Vec<String> = Vec::new();
        let mut i: u32 = 0;
        while i < h
            invariant
                i <= h,
                rows@.len() == i,
                strings_view(rows@) == blank_rows(i as nat, w as nat),
            decreases h - i,
        {
            let r = repeat_char(' ', w as usize);
            let ghost prev = rows@;
            rows.push(r);
            i = i + 1;
            assert forall|k: int| 0 <= k < i implies #[trigger] strings_view(rows@)[k] == blank_rows(i as nat, w as nat)[k] by {
                if k < i - 1 {
                    assert(rows@[k] == prev[k]);
                    assert(strings_view(prev)[k] == blank_rows((i - 1) as nat, w as nat)[k]);
                } else {
                    assert(r@ =~= blank_rows(i as nat, w as nat)[k]);
                }
            }
            assert(strings_view(rows@) =~= blank_rows(i as nat, w as nat));
        }
        FIGcharacter { rows }
    }
}

impl From<Vec<String>> for FIGcharacter {
    fn from(rows: Vec<String>) -> (c: FIGcharacter) {
        FIGcharacter { rows }
    }
}

impl vstd::std_specs::convert::FromSpecImpl<Vec<String>> for FIGcharacter {
    open spec fn obeys_from_spec() -> bool {
        true
    }

    closed spec fn from_spec(v: Vec<String>) -> FIGcharacter {
        FIGcharacter { rows: v }
    }
}

/// A copy of each string.
pub fn copy_rows(rows: &Vec<String>) -> (r: Vec<String>)
    ensures
        strings_view(r@) == strings_view(rows@),
{
    let mut r: Vec<String> = Vec::new();
    let mut i: usize = 0;
    while i < rows.len()
        invariant
            i <= rows@.len(),
            r@.len() == i,
            strings_view(r@) == strings_view(rows@.take(i as int)),
        decreases rows@.len() - i,
    {
        let s = crate::text::copy_string(rows[i].as_str());
        let ghost prev = r@;
        r.push(s);
        i = i + 1;
        assert forall|k: int| 0 <= k < i implies #[trigger] strings_view(r@)[k] == strings_view(rows@.take(i as int))[k] by {
            if k < i - 1 {
                assert(r@[k] == prev[k]);
                assert(strings_view(prev)[k] == strings_view(rows@.take(i - 1))[k]);
            }
        }
        assert(strings_view(r@) =~= strings_view(rows@.take(i as int)));
    }
    assert(rows@.take(i as int) =~= rows@);
    r
}

/// A FIGlet font: its header values and its glyphs keyed by code point.
#[derive(Debug)]
pub struct FIGfont {
    pub hardblank: char,
    pub charheight: u32,
    pub baseline: u32,
    pub maxlength: u32,
    pub old_layout: i32,
    pub comment_lines: u32,
    pub print_direction: i32,
    pub full_layout: i32,
    pub codetag_count: u32,
    pub comment: String,
    pub chars: HashMap<u32, FIGcharacter>,
}

impl Default for FIGfont {
    fn default() -> (f: FIGfont)
        ensures
            f.hardblank == '\0',
            f.charheight == 0,
            f.baseline == 0,
            f.maxlength == 0,
            f.old_layout == 0,
            f.comment_lines == 0,
            f.print_direction == 0,
            f.full_layout == 0,
            f.codetag_count == 0,
            f.comment@ == Seq::<char>::empty(),
            f.chars@ == Map::<u32, FIGcharacter>::empty(),
    {
        FIGfont {
            hardblank: '\0',
            charheight: 0,
            baseline: 0,
            maxlength: 0,
            old_layout: 0,
            comment_lines: 0,
            print_direction: 0,
            full_layout: 0,
            codetag_count: 0,
            comment: String::new(),
            chars: HashMap::new(),
        }
    }
}

/// The glyph views of a font's character map.
pub open spec fn glyphs(m: Map<u32, FIGcharacter>) -> Map<u32, Seq<Seq<char>>> {
    Map::new(|k: u32| m.dom().contains(k), |k: u32| m[k]@)
}

/// The code points of `m`, each once.
pub fn collect_codes(m: &HashMap<u32, FIGcharacter>) -> (r: Vec<u32>)
    ensures
        r@.to_set() == m@.dom(),
        r@.no_duplicates(),
        r@.len() == m@.dom().len(),
{
    let ghost ks = vstd::std_specs::hash::spec_keys_iter(m).remaining().unref();
    let mut r: Vec<u32> = Vec::new();
    for k in it: m.keys()
        invariant
            it.seq().unref() == ks,
            r@ == ks.take(it.index() as int),
    {
        r.push(*k);
        proof {
            assert(ks.take(it.index() as int + 1) =~= ks.take(it.index() as int).push(*k));
        }
    }
    assert(r@ =~= ks);
    r
}

/// `s` is strictly increasing.
pub open spec fn strictly_increasing(s: Seq<u32>) -> bool {
    forall|i: int, j: int| 0 <= i < j < s.len() ==> s[i] < s[j]
}

/// `s` lists the members of `d` in increasing order.
pub open spec fn sorted_codes(s: Seq<u32>, d: Set<u32>) -> bool {
    &&& strictly_increasing(s)
    &&& s.to_set() == d
}

/// Insert `x`, which `v` lacks, keeping `v` increasing.
fn insert_sorted(v: &mut Vec<u32>, x: u32)
    requires
        strictly_increasing(old(v)@),
        !old(v)@.contains(x),
    ensures
        strictly_increasing(final(v)@),
        final(v)@.to_set() == old(v)@.to_set().insert(x),
        final(v)@.len() == old(v)@.len() + 1,
{
    let mut i: usize = 0;
    while i < v.len() && v[i] < x
        invariant
            i <= v@.len(),
            forall|k: int| 0 <= k < i ==> v@[k] < x,
        decreases v@.len() - i,
    {
        i = i + 1;
    }
    proof {
        if i < v@.len() {
            assert(v@[i as int] != x);
        }
    }
    let ghost before = v@;
    v.insert(i, x);
    proof {
        assert forall|a: int, b: int| 0 <= a < b < v@.len() implies v@[a] < v@[b] by {
            if b < i {
            } else if b == i {
            } else if a < i {
                assert(before[b - 1] > x || before[b - 1] == x || before[b - 1] < x);
                if i < before.len() {
                    assert(before[i as int] >= x);
                }
            } else if a == i {
                assert(before[i as int] >= x);
                assert(before[i as int] != x) by {
                    assert(before.contains(before[i as int]));
                }
            }
        }
        assert(v@.to_set() =~= before.to_set().insert(x)) by {
            assert forall|y: u32| v@.to_set().contains(y) implies before.to_set().insert(x).contains(y) by {
                let k = choose|k: int| 0 <= k < v@.len() && v@[k] == y;
                if k < i {
                    assert(before[k] == y);
                } else if k > i {
                    assert(before[k - 1] == y);
                }
            }
            assert forall|y: u32| before.to_set().insert(x).contains(y) implies v@.to_set().contains(y) by {
                if y == x {
                    assert(v@[i as int] == x);
                } else {
                    let k = choose|k: int| 0 <= k < before.len() && before[k] == y;
                    if k < i {
                        assert(v@[k] == y);
                    } else {
                        assert(v@[k + 1] == y);
                    }
                }
            }
        }
    }
}

/// The code points of `m` in increasing order.
pub fn sorted_codes_of(m: &HashMap<u32, FIGcharacter>) -> (r: Vec<u32>)
    ensures
        sorted_codes(r@, m@.dom()),
{
    let keys = collect_codes(m);
    let mut r: Vec<u32> = Vec::new();
    let mut i: usize = 0;
    while i < keys.len()
        invariant
            i <= keys@.len(),
            keys@.no_duplicates(),
            strictly_increasing(r@),
            r@.to_set() == keys@.take(i as int).to_set(),
        decreases keys@.len() - i,
    {
        let x = keys[i];
        proof {
            if r@.contains(x) {
                assert(r@.to_set().contains(x));
                let k = choose|k: int| 0 <= k < i && keys@.take(i as int)[k] == x;
                assert(keys@[k] == keys@[i as int]);
            }
        }
        insert_sorted(&mut r, x);
        proof {
            assert(keys@.take(i + 1) =~= keys@.take(i as int).push(x));
            broadcast use vstd::seq_lib::group_seq_properties;
            assert(keys@.take(i + 1).to_set() =~= keys@.take(i as int).to_set().insert(x));
        }
        i = i + 1;
    }
    assert(keys@.take(i as int) =~= keys@);
    r
}

} // verus!
