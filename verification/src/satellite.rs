//! What is drawn for a set of satellites.
//!
//! Satellites are known here by their position in the caller's list. The
//! caller measures each satellite's distance to the player, and turns every
//! [`Mark`] of the plan into circles and line strips.

use vstd::prelude::*;

use crate::GraphVisibility;
use crate::Settings;

verus! {

/// One thing to draw.
#[derive(Clone, Copy, Debug, PartialEq, Eq, Structural)]
pub enum Mark {
    /// The range circle of a satellite: centred on it, through the player.
    Range(usize),
    /// The fixed circle that marks the satellite at which the chain of arcs
    /// starts.
    Anchor(usize),
    /// The arcs between two satellites, the first one named first.
    Arcs(usize, usize),
}

/// The arcs between satellites `a` and `b`.
pub open spec fn arcs(a: int, b: int) -> Mark {
    Mark::Arcs(a as usize, b as usize)
}

/// The marks of satellite `i` alone: its range circle where ranges are shown,
/// then, where adjacent arcs are shown, the arcs to the satellite before it, or
/// the anchor for the first satellite.
pub open spec fn marks_at(settings: Settings, i: int) -> Seq<Mark> {
    let range = if settings.ranges_visible {
        seq![Mark::Range(i as usize)]
    } else {
        Seq::empty()
    };
    let link = if settings.graph_visibility != GraphVisibility::Adjacent {
        Seq::empty()
    } else if i == 0 {
        seq![Mark::Anchor(0)]
    } else {
        seq![arcs(i, i - 1)]
    };
    range + link
}

/// The marks of the first `count` satellites, one satellite after the other.
pub open spec fn chain_marks(settings: Settings, count: int) -> Seq<Mark>
    decreases count,
{
    if count <= 0 {
        Seq::empty()
    } else {
        chain_marks(settings, count - 1) + marks_at(settings, count - 1)
    }
}

/// The arcs from satellite `first` to each later satellite below `end`, in
/// rising order.
pub open spec fn row_pairs(first: int, end: int) -> Seq<Mark>
    decreases end - first,
{
    if end <= first + 1 {
        Seq::empty()
    } else {
        row_pairs(first, end - 1).push(arcs(first, end - 1))
    }
}

/// The arcs between every two of `count` satellites whose first is below
/// `rows`, row after row.
pub open spec fn pairs_below(rows: int, count: int) -> Seq<Mark>
    decreases rows,
{
    if rows <= 0 {
        Seq::empty()
    } else {
        pairs_below(rows - 1, count) + row_pairs(rows - 1, count)
    }
}

/// The arcs between every two of `count` satellites, each pair once, the
/// earlier satellite first: (0, 1), (0, 2), .., (1, 2), ..
pub open spec fn all_pairs(count: int) -> Seq<Mark> {
    pairs_below(count, count)
}

/// Everything that is drawn for `count` satellites: the marks of each
/// satellite in turn, then, where all arcs are shown, the arcs of all pairs.
pub open spec fn plan(settings: Settings, count: int) -> Seq<Mark> {
    if settings.graph_visibility == GraphVisibility::All {
        chain_marks(settings, count) + all_pairs(count)
    } else {
        chain_marks(settings, count)
    }
}

/// Lists what to draw for `count` satellites under `settings`, in drawing
/// order.
pub fn satellite_marks(settings: &Settings, count: usize) -> (marks: Vec<Mark>)
    ensures
        marks@ == plan(*settings, count as int),
{
    let mut marks: Vec<Mark> = Vec::new();
    let mut i: usize = 0;
    while i < count
        invariant
            i <= count,
            marks@ == chain_marks(*settings, i as int),
        decreases count - i,
    {
        let ghost before = marks@;
        if settings.ranges_visible {
            marks.push(Mark::Range(i));
        }
        match settings.graph_visibility {
            GraphVisibility::Adjacent => {
                if i == 0 {
                    marks.push(Mark::Anchor(0));
                } else {
                    marks.push(Mark::Arcs(i, i - 1));
                }
            },
            _ => {},
        }
        assert(marks@ == before + marks_at(*settings, i as int));
        i = i + 1;
    }
    match settings.graph_visibility {
        GraphVisibility::All => {},
        _ => {
            return marks;
        },
    }
    let ghost chain = marks@;
    let mut a: usize = 0;
    while a < count
        invariant
            a <= count,
            marks@ == chain + pairs_below(a as int, count as int),
        decreases count - a,
    {
        let ghost rows = marks@;
        let mut b: usize = a + 1;
        while b < count
            invariant
                a < b <= count,
                marks@ == rows + row_pairs(a as int, b as int),
            decreases count - b,
        {
            marks.push(Mark::Arcs(a, b));
            b = b + 1;
        }
        a = a + 1;
    }
    marks
}

/// The number of marks that each satellite gets in the first pass.
pub open spec fn marks_per_satellite(settings: Settings) -> int {
    (if settings.ranges_visible { 1int } else { 0int })
        + (if settings.graph_visibility == GraphVisibility::Adjacent { 1int } else { 0int })
}

/// `x` and `y` are arcs, and the pair of `x` comes before the pair of `y`
/// when pairs are ordered by their first satellite, then by their second.
pub open spec fn arcs_before(x: Mark, y: Mark) -> bool {
    match (x, y) {
        (Mark::Arcs(a, b), Mark::Arcs(c, d)) => a < c || (a == c && b < d),
        _ => false,
    }
}

/// Every satellite gets the same number of marks in the first pass, so the
/// pass is that many times as long as there are satellites.
pub proof fn lemma_chain_marks_len(settings: Settings, count: int)
    requires
        0 <= count,
    ensures
        chain_marks(settings, count).len() == count * marks_per_satellite(settings),
    decreases count,
{
    let each = marks_per_satellite(settings);
    if count > 0 {
        lemma_chain_marks_len(settings, count - 1);
        assert(marks_at(settings, count - 1).len() == each);
        assert((count - 1) * each + each == count * each) by (nonlinear_arith);
    } else {
        assert(count * each == 0) by (nonlinear_arith)
            requires
                count == 0,
        ;
    }
}

/// A row holds the arcs from `first` to `first + 1`, `first + 2`, and so on up
/// to the last satellite below `end`.
pub proof fn lemma_row_pairs(first: int, end: int)
    ensures
        end > first ==> row_pairs(first, end).len() == end - first - 1,
        end <= first ==> row_pairs(first, end).len() == 0,
        forall|k: int|
            0 <= k < row_pairs(first, end).len() ==> #[trigger] row_pairs(first, end)[k] == arcs(
                first,
                first + 1 + k,
            ),
    decreases end - first,
{
    if end > first + 1 {
        lemma_row_pairs(first, end - 1);
    }
}

/// The rows below `rows` hold, in rising order and once each, exactly the
/// pairs whose first satellite is below `rows`.
pub proof fn lemma_pairs_below(rows: int, count: int)
    requires
        0 <= rows <= count <= usize::MAX,
    ensures
        2 * pairs_below(rows, count).len() == rows * (2 * count - rows - 1),
        forall|k: int|
            0 <= k < pairs_below(rows, count).len() ==> (#[trigger] pairs_below(rows, count)[k]
                matches Mark::Arcs(a, b) && a < rows && a < b < count),
        forall|a: int, b: int|
            0 <= a < rows && a < b < count ==> pairs_below(rows, count).contains(
                #[trigger] arcs(a, b),
            ),
        forall|j: int, k: int|
            0 <= j < k < pairs_below(rows, count).len() ==> arcs_before(
                #[trigger] pairs_below(rows, count)[j],
                #[trigger] pairs_below(rows, count)[k],
            ),
    decreases rows,
{
    if rows > 0 {
        let head = pairs_below(rows - 1, count);
        let row = row_pairs(rows - 1, count);
        let all = pairs_below(rows, count);
        lemma_pairs_below(rows - 1, count);
        lemma_row_pairs(rows - 1, count);
        assert(all == head + row);
        assert(2 * all.len() == rows * (2 * count - rows - 1)) by (nonlinear_arith)
            requires
                all.len() == head.len() + (count - rows),
                2 * head.len() == (rows - 1) * (2 * count - (rows - 1) - 1),
        ;
        assert forall|a: int, b: int| 0 <= a < rows && a < b < count implies all.contains(
            #[trigger] arcs(a, b),
        ) by {
            if a < rows - 1 {
                let k = head.index_of(arcs(a, b));
                assert(all[k] == arcs(a, b));
            } else {
                let k = b - rows;
                assert(all[head.len() + k] == row[k]);
            }
        }
        assert forall|j: int, k: int| 0 <= j < k < all.len() implies arcs_before(
            #[trigger] all[j],
            #[trigger] all[k],
        ) by {
            if k < head.len() {
                assert(all[j] == head[j] && all[k] == head[k]);
            } else if j < head.len() {
                assert(all[j] == head[j] && all[k] == row[k - head.len()]);
            } else {
                assert(all[j] == row[j - head.len()] && all[k] == row[k - head.len()]);
            }
        }
        assert forall|k: int| 0 <= k < all.len() implies (#[trigger] all[k] matches Mark::Arcs(
            a,
            b,
        ) && a < rows && a < b < count) by {
            if k < head.len() {
                assert(all[k] == head[k]);
            } else {
                assert(all[k] == row[k - head.len()]);
            }
        }
    } else {
        assert(rows * (2 * count - rows - 1) == 0) by (nonlinear_arith)
            requires
                rows == 0,
        ;
    }
}

/// Between `count` satellites there are `count * (count - 1) / 2` pairs of
/// arcs. Each names an earlier and a later satellite, every such pair is
/// there, and the pairs come ordered by their first satellite, then by their
/// second, so that none comes twice.
pub proof fn lemma_all_pairs(count: int)
    requires
        0 <= count <= usize::MAX,
    ensures
        2 * all_pairs(count).len() == count * (count - 1),
        forall|k: int|
            0 <= k < all_pairs(count).len() ==> (#[trigger] all_pairs(count)[k] matches Mark::Arcs(
                a,
                b,
            ) && a < b < count),
        forall|a: int, b: int|
            0 <= a < b < count ==> all_pairs(count).contains(
                #[trigger] arcs(a, b),
            ),
        forall|j: int, k: int|
            0 <= j < k < all_pairs(count).len() ==> arcs_before(
                #[trigger] all_pairs(count)[j],
                #[trigger] all_pairs(count)[k],
            ),
{
    lemma_pairs_below(count, count);
    assert(count * (2 * count - count - 1) == count * (count - 1)) by (nonlinear_arith);
}

/// The length of the whole plan: the first pass, and half of
/// `count * (count - 1)` more where all arcs are shown.
pub proof fn lemma_plan_len(settings: Settings, count: int)
    requires
        0 <= count <= usize::MAX,
    ensures
        settings.graph_visibility == GraphVisibility::All ==> 2 * plan(settings, count).len() == 2
            * count * marks_per_satellite(settings) + count * (count - 1),
        settings.graph_visibility != GraphVisibility::All ==> plan(settings, count).len() == count
            * marks_per_satellite(settings),
{
    lemma_chain_marks_len(settings, count);
    lemma_all_pairs(count);
    assert(2 * (count * marks_per_satellite(settings)) == 2 * count * marks_per_satellite(
        settings,
    )) by (nonlinear_arith);
}

/// The first line strip of a pair of arcs: it starts at the far point of the
/// first crossing and runs through the near points of all crossings.
pub open spec fn near_strip<P>(crossings: Seq<(P, P)>) -> Seq<P> {
    if crossings.len() == 0 {
        Seq::empty()
    } else {
        seq![crossings[0].1] + crossings.map_values(|c: (P, P)| c.0)
    }
}

/// The second line strip of a pair of arcs: the far points of all crossings.
pub open spec fn far_strip<P>(crossings: Seq<(P, P)>) -> Seq<P> {
    crossings.map_values(|c: (P, P)| c.1)
}

/// Strings the crossing points of a family of circle pairs into two line
/// strips that meet at the far point of the first crossing.
///
/// Each entry of `crossings` holds the two points in which one pair of circles
/// meets, the near point first.
pub fn arc_strips<P: Copy>(crossings: &Vec<(P, P)>) -> (strips: (Vec<P>, Vec<P>))
    ensures
        strips.0@ == near_strip(crossings@),
        strips.1@ == far_strip(crossings@),
{
    let mut near: Vec<P> = Vec::new();
    let mut far: Vec<P> = Vec::new();
    let mut i: usize = 0;
    while i < crossings.len()
        invariant
            i <= crossings.len(),
            near@ == near_strip(crossings@.take(i as int)),
            far@ == far_strip(crossings@.take(i as int)),
        decreases crossings.len() - i,
    {
        let (p1, p2) = crossings[i];
        if near.len() == 0 {
            near.push(p2);
        }
        near.push(p1);
        far.push(p2);
        i = i + 1;
    }
    assert(crossings@.take(i as int) == crossings@);
    (near, far)
}

} // verus!
