use crate::color::Rgba;
use crate::color_space::{lemma_ratio_le_trans, ratio_le, ratio_leq};
use crate::keys::{in_range, key_of, lemma_key_den_pos, ratio_in_range, sort_key, SortBy, ThresholdRange};
use crate::raster::Image;
use crate::text::{spells, spells_keyword, ParseError};
use vstd::multiset::group_multiset_axioms;
use vstd::prelude::*;
use vstd::seq_lib::{group_to_multiset_ensures, lemma_multiset_commutative};

verus! {

broadcast use {group_to_multiset_ensures, group_multiset_axioms};

/// Whether the sorter works along rows or along columns.
#[derive(Clone, Copy, PartialEq, Eq, Debug, Structural)]
pub enum Direction {
    Vertical,
    Horizontal,
}

/// The direction named by a token (`vertical`/`v`, `horizontal`/`h`), in any
/// ASCII case.
pub open spec fn direction_of_name(s: Seq<char>) -> Option<Direction> {
    if spells(s, "vertical"@) || spells(s, "v"@) {
        Some(Direction::Vertical)
    } else if spells(s, "horizontal"@) || spells(s, "h"@) {
        Some(Direction::Horizontal)
    } else {
        None
    }
}

impl Direction {
    /// Reads a direction token.
    pub fn parse(s: &str) -> (r: Result<Direction, ParseError>)
        ensures
            r == match direction_of_name(s@) {
                Some(d) => Ok(d),
                None => Err(ParseError::InvalidDirection),
            },
    {
        if spells_keyword(s, "vertical") || spells_keyword(s, "v") {
            Ok(Direction::Vertical)
        } else if spells_keyword(s, "horizontal") || spells_keyword(s, "h") {
            Ok(Direction::Horizontal)
        } else {
            Err(ParseError::InvalidDirection)
        }
    }
}

impl std::str::FromStr for Direction {
    type Err = ParseError;

    fn from_str(s: &str) -> Result<Direction, ParseError> {
        Direction::parse(s)
    }
}

/// A pixel takes part in the sort when its key lies strictly inside `t`.
pub open spec fn selects(by: SortBy, t: ThresholdRange, p: Rgba) -> bool {
    in_range(key_of(by, p), t)
}

/// The pixels of `s` that take part in the sort, in their order in `s`.
pub open spec fn selected(by: SortBy, t: ThresholdRange, s: Seq<Rgba>) -> Seq<Rgba>
    decreases s.len(),
{
    if s.len() == 0 {
        Seq::empty()
    } else {
        let rest = selected(by, t, s.drop_last());
        if selects(by, t, s.last()) {
            rest.push(s.last())
        } else {
            rest
        }
    }
}

/// `a` may come before `b`: ascending key order, or descending when
/// `reversed`.
pub open spec fn precedes(by: SortBy, reversed: bool, a: Rgba, b: Rgba) -> bool {
    if reversed {
        ratio_le(key_of(by, b), key_of(by, a))
    } else {
        ratio_le(key_of(by, a), key_of(by, b))
    }
}

/// `s` is in key order.
pub open spec fn sorted_by(by: SortBy, reversed: bool, s: Seq<Rgba>) -> bool {
    forall|i: int, j: int| 0 <= i < j < s.len() ==> precedes(by, reversed, #[trigger] s[i], #[trigger] s[j])
}

/// `after` is what sorting the line `before` gives: the same length; the
/// pixels outside the range stay where they were; the pixels inside it keep
/// their positions as a set and their multiset of values, and now stand in
/// key order; a line whose selected pixels are already in order is left as it
/// is.
pub open spec fn line_sorted(
    by: SortBy,
    t: ThresholdRange,
    reversed: bool,
    before: Seq<Rgba>,
    after: Seq<Rgba>,
) -> bool {
    &&& after.len() == before.len()
    &&& forall|i: int|
        0 <= i < before.len() ==> (selects(by, t, #[trigger] before[i]) <==> selects(by, t, after[i]))
    &&& forall|i: int|
        0 <= i < before.len() && !selects(by, t, #[trigger] before[i]) ==> after[i] == before[i]
    &&& selected(by, t, after).to_multiset() == selected(by, t, before).to_multiset()
    &&& sorted_by(by, reversed, selected(by, t, after))
    &&& sorted_by(by, reversed, selected(by, t, before)) ==> after == before
}

proof fn lemma_precedes_trans(by: SortBy, reversed: bool, a: Rgba, b: Rgba, c: Rgba)
    requires
        precedes(by, reversed, a, b),
        precedes(by, reversed, b, c),
    ensures
        precedes(by, reversed, a, c),
{
    lemma_key_den_pos(by, a);
    lemma_key_den_pos(by, b);
    lemma_key_den_pos(by, c);
    if reversed {
        lemma_ratio_le_trans(key_of(by, c), key_of(by, b), key_of(by, a));
    } else {
        lemma_ratio_le_trans(key_of(by, a), key_of(by, b), key_of(by, c));
    }
}

proof fn lemma_precedes_total(by: SortBy, reversed: bool, a: Rgba, b: Rgba)
    ensures
        precedes(by, reversed, a, b) || precedes(by, reversed, b, a),
        precedes(by, reversed, a, a),
{
}

fn precedes_exec(by: SortBy, reversed: bool, a: Rgba, b: Rgba) -> (r: bool)
    ensures
        r == precedes(by, reversed, a, b),
{
    if reversed {
        ratio_leq(sort_key(by, b), sort_key(by, a))
    } else {
        ratio_leq(sort_key(by, a), sort_key(by, b))
    }
}

/// Merges two sorted runs; on equal keys the pixel of `a` comes first.
fn merge(a: &Vec<Rgba>, b: &Vec<Rgba>, by: SortBy, reversed: bool) -> (r: Vec<Rgba>)
    requires
        sorted_by(by, reversed, a@),
        sorted_by(by, reversed, b@),
    ensures
        r@.to_multiset() == a@.to_multiset().add(b@.to_multiset()),
        sorted_by(by, reversed, r@),
        sorted_by(by, reversed, a@ + b@) ==> r@ == a@ + b@,
{
    let mut r: Vec<Rgba> = Vec::new();
    let mut i: usize = 0;
    let mut j: usize = 0;
    let ghost ab = a@ + b@;
    while i < a.len() || j < b.len()
        invariant
            i <= a@.len(),
            j <= b@.len(),
            ab == a@ + b@,
            sorted_by(by, reversed, a@),
            sorted_by(by, reversed, b@),
            r@.to_multiset() == a@.subrange(0, i as int).to_multiset().add(
                b@.subrange(0, j as int).to_multiset(),
            ),
            sorted_by(by, reversed, r@),
            r@.len() > 0 && i < a@.len() ==> precedes(by, reversed, r@.last(), a@[i as int]),
            r@.len() > 0 && j < b@.len() ==> precedes(by, reversed, r@.last(), b@[j as int]),
            sorted_by(by, reversed, ab) ==> r@ == a@.subrange(0, i as int) + b@.subrange(0, j as int)
                && (j > 0 ==> i == a@.len()),
        decreases a@.len() + b@.len() - i - j,
    {
        let take_a = j >= b.len() || (i < a.len() && precedes_exec(by, reversed, a[i], b[j]));
        let x = if take_a {
            a[i]
        } else {
            b[j]
        };
        proof {
            if !take_a && i < a@.len() {
                lemma_precedes_total(by, reversed, a@[i as int], b@[j as int]);
            }
            assert forall|k: int| 0 <= k < r@.len() implies precedes(by, reversed, r@[k], x) by {
                if k < r@.len() - 1 {
                    lemma_precedes_trans(by, reversed, r@[k], r@.last(), x);
                }
            }
            if sorted_by(by, reversed, ab) && i < a@.len() && j < b@.len() {
                assert(ab[i as int] == a@[i as int]);
                assert(ab[a@.len() + j] == b@[j as int]);
            }
            if take_a {
                assert(a@.subrange(0, i + 1) =~= a@.subrange(0, i as int).push(x));
            } else {
                assert(b@.subrange(0, j + 1) =~= b@.subrange(0, j as int).push(x));
            }
        }
        r.push(x);
        if take_a {
            i = i + 1;
        } else {
            j = j + 1;
        }
        proof {
            assert(a@.subrange(0, i as int).to_multiset().add(b@.subrange(0, j as int).to_multiset())
                =~= r@.to_multiset());
            if sorted_by(by, reversed, ab) {
                assert(r@ =~= a@.subrange(0, i as int) + b@.subrange(0, j as int));
            }
        }
    }
    proof {
        assert(a@.subrange(0, a@.len() as int) =~= a@);
        assert(b@.subrange(0, b@.len() as int) =~= b@);
    }
    r
}

proof fn lemma_sorted_sub(by: SortBy, reversed: bool, s: Seq<Rgba>, lo: int, hi: int)
    requires
        sorted_by(by, reversed, s),
        0 <= lo <= hi <= s.len(),
    ensures
        sorted_by(by, reversed, s.subrange(lo, hi)),
{
    let u = s.subrange(lo, hi);
    assert forall|i: int, j: int| 0 <= i < j < u.len() implies precedes(by, reversed, #[trigger] u[i], #[trigger] u[j]) by {
        assert(u[i] == s[lo + i] && u[j] == s[lo + j]);
    }
}

/// A stably sorted copy of `v[lo..hi]`.
fn merge_sort(v: &Vec<Rgba>, lo: usize, hi: usize, by: SortBy, reversed: bool) -> (r: Vec<Rgba>)
    requires
        lo <= hi <= v@.len(),
    ensures
        r@.to_multiset() == v@.subrange(lo as int, hi as int).to_multiset(),
        sorted_by(by, reversed, r@),
        sorted_by(by, reversed, v@.subrange(lo as int, hi as int)) ==> r@ == v@.subrange(
            lo as int,
            hi as int,
        ),
    decreases hi - lo,
{
    if hi - lo <= 1 {
        let mut r: Vec<Rgba> = Vec::new();
        if hi > lo {
            r.push(v[lo]);
        }
        proof {
            assert(r@ =~= v@.subrange(lo as int, hi as int));
        }
        r
    } else {
        let mid = lo + (hi - lo) / 2;
        let left = merge_sort(v, lo, mid, by, reversed);
        let right = merge_sort(v, mid, hi, by, reversed);
        let r = merge(&left, &right, by, reversed);
        proof {
            let whole = v@.subrange(lo as int, hi as int);
            let a = v@.subrange(lo as int, mid as int);
            let b = v@.subrange(mid as int, hi as int);
            assert(whole =~= a + b);
            lemma_multiset_commutative(a, b);
            if sorted_by(by, reversed, whole) {
                lemma_sorted_sub(by, reversed, whole, 0, (mid - lo) as int);
                lemma_sorted_sub(by, reversed, whole, (mid - lo) as int, (hi - lo) as int);
                assert(whole.subrange(0, (mid - lo) as int) =~= a);
                assert(whole.subrange((mid - lo) as int, (hi - lo) as int) =~= b);
            }
        }
        r
    }
}

proof fn lemma_selected_concat(by: SortBy, t: ThresholdRange, s: Seq<Rgba>, u: Seq<Rgba>)
    ensures
        selected(by, t, s + u) == selected(by, t, s) + selected(by, t, u),
    decreases u.len(),
{
    if u.len() == 0 {
        assert(s + u =~= s);
        assert(selected(by, t, s) + selected(by, t, u) =~= selected(by, t, s));
    } else {
        lemma_selected_concat(by, t, s, u.drop_last());
        assert((s + u).drop_last() =~= s + u.drop_last());
        assert((s + u).last() == u.last());
        assert(selected(by, t, s + u) =~= selected(by, t, s) + selected(by, t, u));
    }
}

proof fn lemma_selected_selects(by: SortBy, t: ThresholdRange, s: Seq<Rgba>)
    ensures
        forall|k: int|
            0 <= k < selected(by, t, s).len() ==> selects(by, t, #[trigger] selected(by, t, s)[k]),
    decreases s.len(),
{
    if s.len() > 0 {
        let r = selected(by, t, s.drop_last());
        lemma_selected_selects(by, t, s.drop_last());
        assert forall|k: int| 0 <= k < selected(by, t, s).len() implies selects(by, t, #[trigger] selected(by, t, s)[k]) by {
            if k < r.len() {
                assert(selected(by, t, s)[k] == r[k]);
            }
        }
    }
}

proof fn lemma_selected_len(by: SortBy, t: ThresholdRange, s: Seq<Rgba>)
    ensures
        selected(by, t, s).len() <= s.len(),
    decreases s.len(),
{
    if s.len() > 0 {
        lemma_selected_len(by, t, s.drop_last());
    }
}

fn selects_exec(by: SortBy, t: ThresholdRange, p: Rgba) -> (r: bool)
    ensures
        r == selects(by, t, p),
{
    ratio_in_range(sort_key(by, p), t)
}

/// Sorts one line: the pixels whose key lies strictly inside `t` are put in
/// key order (ascending, or descending when `reversed`; equal keys keep their
/// order) in the positions such pixels held; every other pixel stays.
pub fn sort_line(line: &Vec<Rgba>, by: SortBy, t: ThresholdRange, reversed: bool) -> (out: Vec<Rgba>)
    ensures
        line_sorted(by, t, reversed, line@, out@),
{
    let n = line.len();
    let mut sel: Vec<Rgba> = Vec::new();
    let mut i: usize = 0;
    while i < n
        invariant
            n == line@.len(),
            i <= n,
            sel@ == selected(by, t, line@.subrange(0, i as int)),
        decreases n - i,
    {
        proof {
            assert(line@.subrange(0, i + 1).drop_last() =~= line@.subrange(0, i as int));
        }
        if selects_exec(by, t, line[i]) {
            sel.push(line[i]);
        }
        i = i + 1;
    }
    proof {
        assert(line@.subrange(0, n as int) =~= line@);
    }
    let sorted = merge_sort(&sel, 0, sel.len(), by, reversed);
    proof {
        assert(sel@.subrange(0, sel@.len() as int) =~= sel@);
        lemma_selected_selects(by, t, line@);
        assert(sorted@.len() == sel@.len()) by {
            assert(sorted@.to_multiset().len() == sel@.to_multiset().len());
        }
    }
    let mut out: Vec<Rgba> = Vec::new();
    let mut i: usize = 0;
    let mut j: usize = 0;
    while i < n
        invariant
            n == line@.len(),
            i <= n,
            out@.len() == i,
            sel@ == selected(by, t, line@),
            sorted@.len() == sel@.len(),
            sorted@.to_multiset() == sel@.to_multiset(),
            sorted_by(by, reversed, sel@) ==> sorted@ == sel@,
            forall|k: int| 0 <= k < sel@.len() ==> selects(by, t, #[trigger] sel@[k]),
            j == selected(by, t, line@.subrange(0, i as int)).len(),
            j <= i,
            j <= sorted@.len(),
            selected(by, t, out@) == sorted@.subrange(0, j as int),
            forall|k: int|
                0 <= k < i ==> (selects(by, t, #[trigger] line@[k]) <==> selects(by, t, out@[k])),
            forall|k: int| 0 <= k < i && !selects(by, t, #[trigger] line@[k]) ==> out@[k] == line@[k],
            sorted@ == sel@ ==> out@ == line@.subrange(0, i as int),
        decreases n - i,
    {
        let p = line[i];
        let ghost pre = line@.subrange(0, i as int);
        let ghost pre1 = line@.subrange(0, i + 1);
        let ghost rest = line@.subrange(i + 1, n as int);
        proof {
            assert(pre1.drop_last() =~= pre);
            assert(pre1 + rest =~= line@);
            lemma_selected_concat(by, t, pre1, rest);
            lemma_selected_len(by, t, pre1);
        }
        if selects_exec(by, t, p) {
            let q = sorted[j];
            proof {
                assert(selected(by, t, pre1) == selected(by, t, pre).push(p));
                assert(sorted@.contains(q));
                assert(sel@.to_multiset().count(q) > 0);
                assert(sel@.contains(q));
                assert(out@.push(q).drop_last() =~= out@);
                assert(sorted@.subrange(0, j + 1) =~= sorted@.subrange(0, j as int).push(q));
                if sorted@ == sel@ {
                    assert(sel@[j as int] == selected(by, t, pre1)[j as int]);
                    assert(out@.push(q) =~= pre1);
                }
            }
            out.push(q);
            j = j + 1;
        } else {
            proof {
                assert(out@.push(p).drop_last() =~= out@);
                if sorted@ == sel@ {
                    assert(out@.push(p) =~= pre1);
                }
            }
            out.push(p);
        }
        i = i + 1;
    }
    proof {
        assert(line@.subrange(0, n as int) =~= line@);
        assert(sorted@.subrange(0, j as int) =~= sorted@);
    }
    out
}

/// The number of lines along `direction`: rows when horizontal, columns when
/// vertical.
pub open spec fn line_count(img: Image, direction: Direction) -> nat {
    match direction {
        Direction::Horizontal => img.spec_height(),
        Direction::Vertical => img.spec_width(),
    }
}

/// The length of each line along `direction`.
pub open spec fn line_len(img: Image, direction: Direction) -> nat {
    match direction {
        Direction::Horizontal => img.spec_width(),
        Direction::Vertical => img.spec_height(),
    }
}

/// Line `k` along `direction`: row `k` left to right, or column `k` top to
/// bottom.
pub open spec fn line_of(img: Image, direction: Direction, k: int) -> Seq<Rgba> {
    match direction {
        Direction::Horizontal => Seq::new(img.spec_width(), |x: int| img.spec_pixel(x, k)),
        Direction::Vertical => Seq::new(img.spec_height(), |y: int| img.spec_pixel(k, y)),
    }
}

/// The line that the pixel at `(x, y)` belongs to, and its place in it.
spec fn line_place(direction: Direction, x: int, y: int) -> (int, int) {
    match direction {
        Direction::Horizontal => (y, x),
        Direction::Vertical => (x, y),
    }
}

fn read_line(img: &Image, direction: Direction, k: u32) -> (r: Vec<Rgba>)
    requires
        img.wf(),
        k < line_count(*img, direction),
    ensures
        r@ == line_of(*img, direction, k as int),
{
    let n = match direction {
        Direction::Horizontal => img.width(),
        Direction::Vertical => img.height(),
    };
    let mut r: Vec<Rgba> = Vec::new();
    let mut i: u32 = 0;
    while i < n
        invariant
            img.wf(),
            k < line_count(*img, direction),
            n == line_len(*img, direction),
            i <= n,
            r@ =~= line_of(*img, direction, k as int).subrange(0, i as int),
        decreases n - i,
    {
        let p = match direction {
            Direction::Horizontal => img.get_pixel(i, k),
            Direction::Vertical => img.get_pixel(k, i),
        };
        r.push(p);
        i = i + 1;
    }
    r
}

fn write_line(img: &mut Image, direction: Direction, k: u32, v: &Vec<Rgba>)
    requires
        old(img).wf(),
        k < line_count(*old(img), direction),
        v@.len() == line_len(*old(img), direction),
    ensures
        final(img).wf(),
        final(img).spec_width() == old(img).spec_width(),
        final(img).spec_height() == old(img).spec_height(),
        line_of(*final(img), direction, k as int) == v@,
        forall|j: int|
            0 <= j < line_count(*old(img), direction) && j != k ==> #[trigger] line_of(
                *final(img),
                direction,
                j,
            ) == line_of(*old(img), direction, j),
{
    let ghost before = *img;
    let n = match direction {
        Direction::Horizontal => img.width(),
        Direction::Vertical => img.height(),
    };
    let mut i: u32 = 0;
    while i < n
        invariant
            img.wf(),
            img.spec_width() == before.spec_width(),
            img.spec_height() == before.spec_height(),
            k < line_count(before, direction),
            n == line_len(before, direction),
            v@.len() == n,
            i <= n,
            forall|x: int, y: int|
                0 <= x < before.spec_width() && 0 <= y < before.spec_height() ==> #[trigger] img.spec_pixel(x, y)
                    == if line_place(direction, x, y).0 == k && line_place(direction, x, y).1 < i {
                    v@[line_place(direction, x, y).1]
                } else {
                    before.spec_pixel(x, y)
                },
        decreases n - i,
    {
        match direction {
            Direction::Horizontal => img.put_pixel(i, k, v[i as usize]),
            Direction::Vertical => img.put_pixel(k, i, v[i as usize]),
        }
        i = i + 1;
    }
    proof {
        assert(line_of(*img, direction, k as int) =~= v@);
        assert forall|j: int|
            0 <= j < line_count(before, direction) && j != k implies #[trigger] line_of(*img, direction, j)
                == line_of(before, direction, j) by {
            assert(line_of(*img, direction, j) =~= line_of(before, direction, j));
        }
    }
}

/// Sorts every row (`Horizontal`) or every column (`Vertical`) of the image
/// independently, as `sort_line` does, with the pixels whose key lies
/// strictly between `min_threshold` and `max_threshold` taking part.
pub fn sort(
    img: Image,
    direction: Direction,
    sort_by: SortBy,
    min_threshold: i32,
    max_threshold: i32,
    reversed: bool,
) -> (out: Image)
    requires
        img.wf(),
    ensures
        out.wf(),
        out.spec_width() == img.spec_width(),
        out.spec_height() == img.spec_height(),
        forall|k: int|
            0 <= k < line_count(img, direction) ==> line_sorted(
                sort_by,
                ThresholdRange { min: min_threshold, max: max_threshold },
                reversed,
                #[trigger] line_of(img, direction, k),
                line_of(out, direction, k),
            ),
{
    let t = ThresholdRange { min: min_threshold, max: max_threshold };
    let count = match direction {
        Direction::Horizontal => img.height(),
        Direction::Vertical => img.width(),
    };
    let ghost orig = img;
    let mut out = img;
    let mut k: u32 = 0;
    while k < count
        invariant
            out.wf(),
            out.spec_width() == orig.spec_width(),
            out.spec_height() == orig.spec_height(),
            count == line_count(orig, direction),
            k <= count,
            forall|j: int|
                0 <= j < k ==> line_sorted(
                    sort_by,
                    t,
                    reversed,
                    #[trigger] line_of(orig, direction, j),
                    line_of(out, direction, j),
                ),
            forall|j: int|
                k <= j < count ==> #[trigger] line_of(out, direction, j) == line_of(orig, direction, j),
        decreases count - k,
    {
        let line = read_line(&out, direction, k);
        let sorted = sort_line(&line, sort_by, t, reversed);
        write_line(&mut out, direction, k, &sorted);
        k = k + 1;
    }
    out
}

} // verus!
