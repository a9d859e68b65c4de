use vstd::prelude::*;
use crate::slider::{layout_len, layout_slider, slider_droplets, slider_fruits, slider_layout, SliderPart};

verus! {

/// What a hit object contributes to the catch stream.
#[derive(Clone, Copy, Debug, PartialEq, Eq, Structural)]
pub enum ObjectShape {
    /// A single fruit.
    Circle,
    /// A slider of `repeats` spans with `n_ticks` ticks along each span.
    Slider { repeats: usize, n_ticks: usize },
    /// Produces nothing to catch.
    Spinner,
    /// Produces nothing to catch.
    Hold,
}

/// Object counts of a map.
#[derive(Clone, Copy, Debug, PartialEq, Eq, Structural)]
pub struct ObjectCounts {
    pub n_fruits: usize,
    pub n_droplets: usize,
    pub max_combo: usize,
}

pub open spec fn fruits_of(o: ObjectShape) -> nat {
    match o {
        ObjectShape::Circle => 1,
        ObjectShape::Slider { repeats, .. } => slider_fruits(repeats as nat),
        _ => 0,
    }
}

pub open spec fn droplets_of(o: ObjectShape) -> nat {
    match o {
        ObjectShape::Slider { repeats, n_ticks } => slider_droplets(n_ticks as nat, repeats as nat),
        _ => 0,
    }
}

/// Catchable points of one object.
pub open spec fn points_of(o: ObjectShape) -> nat {
    fruits_of(o) + droplets_of(o)
}

pub open spec fn total_fruits(s: Seq<ObjectShape>) -> nat
    decreases s.len(),
{
    if s.len() == 0 {
        0
    } else {
        total_fruits(s.drop_last()) + fruits_of(s.last())
    }
}

pub open spec fn total_droplets(s: Seq<ObjectShape>) -> nat
    decreases s.len(),
{
    if s.len() == 0 {
        0
    } else {
        total_droplets(s.drop_last()) + droplets_of(s.last())
    }
}

/// The counts reported for a map: nothing for a map of fewer than two
/// objects, else its fruits, its droplets and their sum as the maximum combo.
pub open spec fn counts_of(s: Seq<ObjectShape>) -> ObjectCounts {
    if s.len() < 2 {
        ObjectCounts { n_fruits: 0, n_droplets: 0, max_combo: 0 }
    } else {
        ObjectCounts {
            n_fruits: total_fruits(s) as usize,
            n_droplets: total_droplets(s) as usize,
            max_combo: (total_fruits(s) + total_droplets(s)) as usize,
        }
    }
}

proof fn lemma_totals_grow(s: Seq<ObjectShape>, i: int)
    requires
        0 <= i <= s.len(),
    ensures
        total_fruits(s.take(i)) <= total_fruits(s),
        total_droplets(s.take(i)) <= total_droplets(s),
    decreases s.len() - i,
{
    if i < s.len() {
        lemma_totals_grow(s, i + 1);
        assert(s.take(i + 1).drop_last() =~= s.take(i));
    } else {
        assert(s.take(i) =~= s);
    }
}

/// Slider counts as computed from a layout of the given size.
fn slider_counts(n_ticks: usize, repeats: usize) -> (r: (usize, usize))
    requires
        layout_len(n_ticks as nat, repeats as nat) <= usize::MAX,
    ensures
        r.0 == slider_fruits(repeats as nat),
        r.1 == slider_droplets(n_ticks as nat, repeats as nat),
{
    proof {
        crate::slider::lemma_counts_cover_layout(n_ticks as nat, repeats as nat);
    }
    let len: usize = if repeats <= 1 {
        n_ticks + 2
    } else {
        proof {
            assert(repeats <= repeats * (n_ticks + 1)) by (nonlinear_arith)
                requires
                    repeats > 1,
            ;
        }
        repeats * (n_ticks + 1) + 1
    };
    (1 + repeats, len - 1 - repeats)
}

/// The number of points that the objects expand into, or `None` where it
/// does not fit in a `usize`.
pub fn stream_len(objects: &Vec<ObjectShape>) -> (r: Option<usize>)
    ensures
        total_fruits(objects@) + total_droplets(objects@) <= usize::MAX <==> r is Some,
        r matches Some(n) ==> n == total_fruits(objects@) + total_droplets(objects@),
{
    let ghost s = objects@;
    let mut total: usize = 0;
    let mut i: usize = 0;
    while i < objects.len()
        invariant
            s == objects@,
            i <= s.len(),
            total == total_fruits(s.take(i as int)) + total_droplets(s.take(i as int)),
        decreases s.len() - i,
    {
        proof {
            assert(s.take(i + 1).drop_last() =~= s.take(i as int));
            lemma_totals_grow(s, i + 1);
        }
        let more: usize = match objects[i] {
            ObjectShape::Circle => 1,
            ObjectShape::Slider { repeats, n_ticks } => {
                proof {
                    crate::slider::lemma_counts_cover_layout(n_ticks as nat, repeats as nat);
                    crate::slider::lemma_layout_len(n_ticks as nat, repeats as nat);
                }
                let len: Option<usize> = if repeats <= 1 {
                    n_ticks.checked_add(2)
                } else {
                    match n_ticks.checked_add(1) {
                        Some(per_span) => match repeats.checked_mul(per_span) {
                            Some(spans) => spans.checked_add(1),
                            None => None,
                        },
                        None => None,
                    }
                };
                match len {
                    Some(n) => n,
                    None => {
                        proof {
                            assert(points_of(s[i as int]) > usize::MAX);
                            lemma_totals_grow(s, i + 1);
                        }
                        return None;
                    },
                }
            },
            ObjectShape::Spinner | ObjectShape::Hold => 0,
        };
        match total.checked_add(more) {
            Some(t) => {
                total = t;
            },
            None => {
                proof {
                    lemma_totals_grow(s, i + 1);
                }
                return None;
            },
        }
        i = i + 1;
    }
    assert(s.take(s.len() as int) =~= s);
    Some(total)
}

/// Counts the fruits and droplets of a map and its maximum combo; a map of
/// fewer than two objects has no rating and reports zero counts.
pub fn count_objects(objects: &Vec<ObjectShape>) -> (r: ObjectCounts)
    requires
        total_fruits(objects@) + total_droplets(objects@) <= usize::MAX,
    ensures
        r == counts_of(objects@),
{
    if objects.len() < 2 {
        return ObjectCounts { n_fruits: 0, n_droplets: 0, max_combo: 0 };
    }
    let ghost s = objects@;
    let mut fruits: usize = 0;
    let mut droplets: usize = 0;
    let mut i: usize = 0;
    while i < objects.len()
        invariant
            s == objects@,
            i <= s.len(),
            fruits == total_fruits(s.take(i as int)),
            droplets == total_droplets(s.take(i as int)),
            total_fruits(s) + total_droplets(s) <= usize::MAX,
        decreases s.len() - i,
    {
        proof {
            lemma_totals_grow(s, i + 1);
            assert(s.take(i + 1).drop_last() =~= s.take(i as int));
        }
        match objects[i] {
            ObjectShape::Circle => {
                fruits = fruits + 1;
            },
            ObjectShape::Slider { repeats, n_ticks } => {
                proof {
                    crate::slider::lemma_counts_cover_layout(n_ticks as nat, repeats as nat);
                    crate::slider::lemma_layout_len(n_ticks as nat, repeats as nat);
                }
                let (f, d) = slider_counts(n_ticks, repeats);
                fruits = fruits + f;
                droplets = droplets + d;
            },
            ObjectShape::Spinner | ObjectShape::Hold => {},
        }
        i = i + 1;
    }
    assert(s.take(s.len() as int) =~= s);
    ObjectCounts { n_fruits: fruits, n_droplets: droplets, max_combo: fruits + droplets }
}

/// A catchable point of the stream: the object it comes from, by index, and
/// its place in that object. A circle is caught as a lone head.
#[derive(Clone, Copy, Debug, PartialEq, Eq, Structural)]
pub struct StreamPoint {
    pub object: usize,
    pub part: SliderPart,
}

/// The points of the object at index `object`.
pub open spec fn object_points(o: ObjectShape, object: usize) -> Seq<StreamPoint> {
    match o {
        ObjectShape::Circle => seq![StreamPoint { object, part: SliderPart::Head }],
        ObjectShape::Slider { repeats, n_ticks } => slider_layout(
            n_ticks as nat,
            repeats as nat,
        ).map_values(|p: SliderPart| StreamPoint { object, part: p }),
        _ => Seq::empty(),
    }
}

/// The catch stream of a map: the points of each object in turn, objects in
/// the order given (a slider's points are not interleaved with the objects
/// that follow it, even where their times overlap).
pub open spec fn stream_of(s: Seq<ObjectShape>) -> Seq<StreamPoint>
    decreases s.len(),
{
    if s.len() == 0 {
        Seq::empty()
    } else {
        stream_of(s.drop_last()) + object_points(s.last(), (s.len() - 1) as usize)
    }
}

proof fn lemma_object_points_len(o: ObjectShape, object: usize)
    ensures
        object_points(o, object).len() == points_of(o),
{
    if let ObjectShape::Slider { repeats, n_ticks } = o {
        crate::slider::lemma_counts_cover_layout(n_ticks as nat, repeats as nat);
    }
}

/// Every point of the stream is counted once, as a fruit or as a droplet.
pub proof fn lemma_stream_len(s: Seq<ObjectShape>)
    ensures
        stream_of(s).len() == total_fruits(s) + total_droplets(s),
    decreases s.len(),
{
    if s.len() > 0 {
        lemma_stream_len(s.drop_last());
        lemma_object_points_len(s.last(), (s.len() - 1) as usize);
    }
}

/// Expands the objects of a map into the stream of points to catch.
pub fn expand_objects(objects: &Vec<ObjectShape>) -> (r: Vec<StreamPoint>)
    requires
        total_fruits(objects@) + total_droplets(objects@) <= usize::MAX,
    ensures
        r@ == stream_of(objects@),
{
    let ghost s = objects@;
    let mut out: Vec<StreamPoint> = Vec::new();
    let mut i: usize = 0;
    while i < objects.len()
        invariant
            s == objects@,
            i <= s.len(),
            out@ == stream_of(s.take(i as int)),
            total_fruits(s) + total_droplets(s) <= usize::MAX,
        decreases s.len() - i,
    {
        proof {
            assert(s.take(i + 1).drop_last() =~= s.take(i as int));
            lemma_totals_grow(s, i + 1);
            lemma_object_points_len(s[i as int], i);
        }
        match objects[i] {
            ObjectShape::Circle => {
                out.push(StreamPoint { object: i, part: SliderPart::Head });
            },
            ObjectShape::Slider { repeats, n_ticks } => {
                proof {
                    crate::slider::lemma_counts_cover_layout(n_ticks as nat, repeats as nat);
                    crate::slider::lemma_layout_len(n_ticks as nat, repeats as nat);
                    assert(points_of(s[i as int]) <= total_fruits(s.take(i + 1)) + total_droplets(
                        s.take(i + 1),
                    ));
                }
                let parts = layout_slider(n_ticks, repeats);
                let ghost before = out@;
                let mut k: usize = 0;
                while k < parts.len()
                    invariant
                        k <= parts.len(),
                        out@ == before + parts@.take(k as int).map_values(
                            |p: SliderPart| StreamPoint { object: i, part: p },
                        ),
                    decreases parts.len() - k,
                {
                    out.push(StreamPoint { object: i, part: parts[k] });
                    k = k + 1;
                    assert(parts@.take(k as int).map_values(
                        |p: SliderPart| StreamPoint { object: i, part: p },
                    ) =~= parts@.take((k - 1) as int).map_values(
                        |p: SliderPart| StreamPoint { object: i, part: p },
                    ).push(StreamPoint { object: i, part: parts@[k - 1] }));
                }
                assert(parts@.take(parts.len() as int) =~= parts@);
            },
            ObjectShape::Spinner | ObjectShape::Hold => {},
        }
        i = i + 1;
        assert(out@ =~= stream_of(s.take(i as int)));
    }
    assert(s.take(s.len() as int) =~= s);
    out
}

/// A map of exactly two circles has two fruits, no droplets and a maximum
/// combo of two.
pub proof fn lemma_two_circles(objects: Seq<ObjectShape>)
    requires
        objects.len() == 2,
        objects[0] == ObjectShape::Circle,
        objects[1] == ObjectShape::Circle,
    ensures
        total_fruits(objects) == 2,
        total_droplets(objects) == 0,
        counts_of(objects) == (ObjectCounts { n_fruits: 2, n_droplets: 0, max_combo: 2 }),
{
    let first = objects.drop_last();
    assert(first.drop_last() =~= Seq::<ObjectShape>::empty());
    assert(first.last() == objects[0]);
    assert(total_fruits(first.drop_last()) == 0);
    assert(total_droplets(first.drop_last()) == 0);
    assert(total_fruits(first) == fruits_of(objects[0]));
    assert(total_droplets(first) == droplets_of(objects[0]));
}

} // verus!
