use fruits::slider::{layout_slider, SliderPart};

#[test]
fn one_span_without_ticks_is_head_and_tail() {
    assert_eq!(
        layout_slider(0, 1),
        vec![SliderPart::Head, SliderPart::Tail { at_end: true }]
    );
}

#[test]
fn one_span_with_ticks() {
    assert_eq!(
        layout_slider(3, 1),
        vec![
            SliderPart::Head,
            SliderPart::Tick(0),
            SliderPart::Tick(1),
            SliderPart::Tick(2),
            SliderPart::Tail { at_end: true },
        ]
    );
}

#[test]
fn repeated_spans_walk_ticks_back_and_forth() {
    assert_eq!(
        layout_slider(2, 3),
        vec![
            SliderPart::Head,
            SliderPart::Tick(0),
            SliderPart::Tick(1),
            SliderPart::Turn { span: 1, at_end: true },
            SliderPart::Tick(1),
            SliderPart::Tick(0),
            SliderPart::Turn { span: 2, at_end: false },
            SliderPart::Tick(0),
            SliderPart::Tick(1),
            SliderPart::Tail { at_end: true },
        ]
    );
}

#[test]
fn two_spans_end_at_the_start() {
    assert_eq!(
        layout_slider(1, 2),
        vec![
            SliderPart::Head,
            SliderPart::Tick(0),
            SliderPart::Turn { span: 1, at_end: true },
            SliderPart::Tick(0),
            SliderPart::Tail { at_end: false },
        ]
    );
}

#[test]
fn zero_repeats_lays_out_one_forward_span() {
    assert_eq!(
        layout_slider(1, 0),
        vec![
            SliderPart::Head,
            SliderPart::Tick(0),
            SliderPart::Tail { at_end: false },
        ]
    );
}

#[test]
fn ticks_are_the_only_droplets() {
    let parts = layout_slider(2, 3);
    let fruits = parts.iter().filter(|p| p.is_fruit()).count();
    assert_eq!(fruits, 4);
    assert_eq!(parts.len() - fruits, 6);
    assert!(SliderPart::Head.is_fruit());
    assert!(SliderPart::Turn { span: 1, at_end: true }.is_fruit());
    assert!(SliderPart::Tail { at_end: false }.is_fruit());
    assert!(!SliderPart::Tick(0).is_fruit());
}
