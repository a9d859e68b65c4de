use vstd::prelude::*;

verus! {

/// Whether a point of a slider counts as a fruit: its head, its turns and its
/// tail do, its ticks are droplets.
pub open spec fn part_is_fruit(p: SliderPart) -> bool {
    !(p is Tick)
}

/// The number of fruits among `s`.
pub open spec fn fruit_parts(s: Seq<SliderPart>) -> nat
    decreases s.len(),
{
    if s.len() == 0 {
        0
    } else {
        fruit_parts(s.drop_last()) + if part_is_fruit(s.last()) {
            1nat
        } else {
            0nat
        }
    }
}

/// One catchable point of an expanded slider.
///
/// Ticks refer to the slider's tick list, which is measured once along the
/// first span; later spans walk the same list, backwards on odd spans.
#[derive(Clone, Copy, Debug, PartialEq, Eq, Structural)]
pub enum SliderPart {
    /// The slider's head, at its start position and time.
    Head,
    /// The tick at this index of the tick list.
    Tick(usize),
    /// The turn that starts span `span` (`span >= 1`); `at_end` tells whether
    /// it lies at the far end of the path.
    Turn { span: usize, at_end: bool },
    /// The slider's tail, at its end time.
    Tail { at_end: bool },
}

impl SliderPart {
    /// Whether this point counts as a fruit rather than a droplet.
    pub fn is_fruit(&self) -> (r: bool)
        ensures
            r == part_is_fruit(*self),
    {
        !matches!(self, SliderPart::Tick(_))
    }
}

/// The ticks of span `span`, in the order they are caught.
pub open spec fn span_ticks(n_ticks: nat, span: nat) -> Seq<SliderPart> {
    Seq::new(
        n_ticks,
        |i: int|
            if span % 2 == 0 {
                SliderPart::Tick(i as usize)
            } else {
                SliderPart::Tick((n_ticks - 1 - i) as usize)
            },
    )
}

/// The turns and ticks of spans `1` up to (not including) `n_spans`.
pub open spec fn inner_spans(n_ticks: nat, n_spans: nat) -> Seq<SliderPart>
    decreases n_spans,
{
    if n_spans <= 1 {
        Seq::empty()
    } else {
        inner_spans(n_ticks, (n_spans - 1) as nat) + seq![
            SliderPart::Turn { span: (n_spans - 1) as usize, at_end: (n_spans - 1) % 2 == 1 },
        ] + span_ticks(n_ticks, (n_spans - 1) as nat)
    }
}

/// The points of a slider with `n_ticks` ticks per span and `repeats` spans:
/// the head, the ticks of the first span, each later span as its turn and its
/// ticks, and the tail.
pub open spec fn slider_layout(n_ticks: nat, repeats: nat) -> Seq<SliderPart> {
    seq![SliderPart::Head] + span_ticks(n_ticks, 0) + inner_spans(n_ticks, repeats) + seq![
        SliderPart::Tail { at_end: repeats % 2 == 1 },
    ]
}

/// How many points a slider expands into.
pub open spec fn layout_len(n_ticks: nat, repeats: nat) -> nat {
    if repeats <= 1 {
        n_ticks + 2
    } else {
        repeats * (n_ticks + 1) + 1
    }
}

/// Fruits of a slider: its head, one per turn and its tail.
pub open spec fn slider_fruits(repeats: nat) -> nat {
    1 + repeats
}

/// Droplets of a slider: its points that are not counted as fruits.
pub open spec fn slider_droplets(n_ticks: nat, repeats: nat) -> nat {
    (layout_len(n_ticks, repeats) - 1 - repeats) as nat
}

proof fn lemma_inner_spans_len(n_ticks: nat, n_spans: nat)
    ensures
        n_spans >= 1 ==> inner_spans(n_ticks, n_spans).len() == (n_spans - 1) * (n_ticks + 1),
        n_spans < 1 ==> inner_spans(n_ticks, n_spans).len() == 0,
    decreases n_spans,
{
    if n_spans > 1 {
        let m = (n_spans - 1) as nat;
        lemma_inner_spans_len(n_ticks, m);
        assert(inner_spans(n_ticks, n_spans).len() == inner_spans(n_ticks, m).len() + 1 + n_ticks);
        assert((m - 1) * (n_ticks + 1) + 1 + n_ticks == m * (n_ticks + 1)) by (nonlinear_arith)
            requires
                m >= 1,
        ;
    } else if n_spans == 1 {
        assert((n_spans - 1) * (n_ticks + 1) == 0);
    }
}

/// The layout has the length that the counts are made from.
pub proof fn lemma_layout_len(n_ticks: nat, repeats: nat)
    ensures
        slider_layout(n_ticks, repeats).len() == layout_len(n_ticks, repeats),
{
    lemma_inner_spans_len(n_ticks, repeats);
    if repeats > 1 {
        assert(1 + n_ticks + (repeats - 1) * (n_ticks + 1) + 1 == repeats * (n_ticks + 1) + 1)
            by (nonlinear_arith);
    }
}

/// Every point of a slider is counted once, as a fruit or as a droplet.
pub proof fn lemma_counts_cover_layout(n_ticks: nat, repeats: nat)
    ensures
        slider_fruits(repeats) + slider_droplets(n_ticks, repeats) == slider_layout(
            n_ticks,
            repeats,
        ).len(),
        repeats >= 1 ==> slider_droplets(n_ticks, repeats) == repeats * n_ticks,
{
    lemma_layout_len(n_ticks, repeats);
    if repeats > 1 {
        assert(repeats * (n_ticks + 1) == repeats * n_ticks + repeats) by (nonlinear_arith);
    } else if repeats == 1 {
        assert(repeats * n_ticks == n_ticks);
    }
}

proof fn lemma_fruit_parts_concat(a: Seq<SliderPart>, b: Seq<SliderPart>)
    ensures
        fruit_parts(a + b) == fruit_parts(a) + fruit_parts(b),
    decreases b.len(),
{
    if b.len() == 0 {
        assert(a + b =~= a);
    } else {
        lemma_fruit_parts_concat(a, b.drop_last());
        assert((a + b).drop_last() =~= a + b.drop_last());
    }
}

proof fn lemma_single_part(p: SliderPart)
    ensures
        fruit_parts(seq![p]) == if part_is_fruit(p) {
            1nat
        } else {
            0nat
        },
{
    let s = seq![p];
    assert(s.drop_last() =~= Seq::<SliderPart>::empty());
    assert(fruit_parts(s.drop_last()) == 0);
    assert(s.last() == p);
}

proof fn lemma_all_ticks_no_fruit(s: Seq<SliderPart>)
    requires
        forall|i: int| 0 <= i < s.len() ==> s[i] is Tick,
    ensures
        fruit_parts(s) == 0,
    decreases s.len(),
{
    if s.len() > 0 {
        lemma_all_ticks_no_fruit(s.drop_last());
    }
}

proof fn lemma_inner_spans_fruits(n_ticks: nat, n_spans: nat)
    ensures
        n_spans >= 1 ==> fruit_parts(inner_spans(n_ticks, n_spans)) == n_spans - 1,
        n_spans < 1 ==> fruit_parts(inner_spans(n_ticks, n_spans)) == 0,
    decreases n_spans,
{
    if n_spans > 1 {
        let m = (n_spans - 1) as nat;
        lemma_inner_spans_fruits(n_ticks, m);
        let turn = seq![SliderPart::Turn { span: m as usize, at_end: m % 2 == 1 }];
        lemma_fruit_parts_concat(inner_spans(n_ticks, m), turn);
        lemma_fruit_parts_concat(inner_spans(n_ticks, m) + turn, span_ticks(n_ticks, m));
        lemma_all_ticks_no_fruit(span_ticks(n_ticks, m));
        lemma_single_part(SliderPart::Turn { span: m as usize, at_end: m % 2 == 1 });
    }
}

/// For a slider of at least one span, the fruit count is the number of its
/// points that are fruits, and the droplet count the number of its ticks.
pub proof fn lemma_counts_match_kinds(n_ticks: nat, repeats: nat)
    requires
        repeats >= 1,
    ensures
        fruit_parts(slider_layout(n_ticks, repeats)) == slider_fruits(repeats),
        slider_layout(n_ticks, repeats).len() - fruit_parts(slider_layout(n_ticks, repeats))
            == slider_droplets(n_ticks, repeats),
{
    let head = seq![SliderPart::Head];
    let tail = seq![SliderPart::Tail { at_end: repeats % 2 == 1 }];
    let first = span_ticks(n_ticks, 0);
    let inner = inner_spans(n_ticks, repeats);
    lemma_single_part(SliderPart::Head);
    lemma_single_part(SliderPart::Tail { at_end: repeats % 2 == 1 });
    lemma_all_ticks_no_fruit(first);
    lemma_inner_spans_fruits(n_ticks, repeats);
    lemma_fruit_parts_concat(head, first);
    lemma_fruit_parts_concat(head + first, inner);
    lemma_fruit_parts_concat(head + first + inner, tail);
    lemma_counts_cover_layout(n_ticks, repeats);
}

/// A one-span slider without ticks is its head and its tail, both fruits, and
/// has no droplets.
pub proof fn lemma_single_span_without_ticks()
    ensures
        slider_layout(0, 1) =~= seq![SliderPart::Head, SliderPart::Tail { at_end: true }],
        slider_fruits(1) == 2,
        slider_droplets(0, 1) == 0,
{
}

/// Appends the ticks of span `span` to `out`.
fn push_span_ticks(out: &mut Vec<SliderPart>, n_ticks: usize, span: usize)
    ensures
        final(out)@ == old(out)@ + span_ticks(n_ticks as nat, span as nat),
{
    let ghost start = old(out)@;
    let mut i: usize = 0;
    while i < n_ticks
        invariant
            i <= n_ticks,
            out@ == start + span_ticks(n_ticks as nat, span as nat).take(i as int),
        decreases n_ticks - i,
    {
        let idx: usize = if span % 2 == 0 {
            i
        } else {
            n_ticks - 1 - i
        };
        out.push(SliderPart::Tick(idx));
        i = i + 1;
        assert(span_ticks(n_ticks as nat, span as nat).take(i as int) =~= span_ticks(
            n_ticks as nat,
            span as nat,
        ).take((i - 1) as int).push(SliderPart::Tick(idx)));
    }
    assert(span_ticks(n_ticks as nat, span as nat).take(n_ticks as int) =~= span_ticks(
        n_ticks as nat,
        span as nat,
    ));
}

/// Expands a slider with `n_ticks` ticks per span and `repeats` spans into
/// the points that are caught, in order.
pub fn layout_slider(n_ticks: usize, repeats: usize) -> (r: Vec<SliderPart>)
    requires
        layout_len(n_ticks as nat, repeats as nat) <= usize::MAX,
    ensures
        r@ == slider_layout(n_ticks as nat, repeats as nat),
{
    let mut out: Vec<SliderPart> = Vec::new();
    out.push(SliderPart::Head);
    push_span_ticks(&mut out, n_ticks, 0);
    let mut span: usize = 1;
    while span < repeats
        invariant
            1 <= span,
            span <= repeats || repeats <= 1,
            repeats <= 1 ==> span == 1,
            out@ == seq![SliderPart::Head] + span_ticks(n_ticks as nat, 0) + inner_spans(
                n_ticks as nat,
                span as nat,
            ),
        decreases repeats - span,
    {
        out.push(SliderPart::Turn { span, at_end: span % 2 == 1 });
        push_span_ticks(&mut out, n_ticks, span);
        span = span + 1;
        assert(out@ =~= seq![SliderPart::Head] + span_ticks(n_ticks as nat, 0) + inner_spans(
            n_ticks as nat,
            span as nat,
        ));
    }
    proof {
        if repeats > 1 {
            assert(span == repeats);
        } else {
            assert(inner_spans(n_ticks as nat, repeats as nat) =~= Seq::<SliderPart>::empty());
            assert(inner_spans(n_ticks as nat, span as nat) =~= Seq::<SliderPart>::empty());
        }
    }
    out.push(SliderPart::Tail { at_end: repeats % 2 == 1 });
    out
}

} // verus!
