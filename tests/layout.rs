use ml_gui::layout::{canvas_sections, section_widgets, split_span, LayoutError, Rect, Span};

#[test]
fn split_span_spreads_remainder() {
    let spans = split_span(10, 10, 3, 1).unwrap();
    assert_eq!(
        spans,
        vec![
            Span { start: 11, len: 2 },
            Span { start: 14, len: 2 },
            Span { start: 17, len: 3 },
        ]
    );
    let total: u32 = spans.iter().map(|s| s.len).sum::<u32>() + 3 * 1;
    assert_eq!(total, 10);
}

#[test]
fn split_span_rejects_empty_and_crowded() {
    assert_eq!(split_span(0, 100, 0, 1), Err(LayoutError::Empty));
    assert_eq!(split_span(0, 10, 6, 2), Err(LayoutError::Crowded));
    assert!(split_span(0, 10, 5, 2).is_ok());
}

#[test]
fn two_sections_on_720_by_480() {
    let rects = canvas_sections(720, 480, 2).unwrap();
    assert_eq!(
        rects,
        vec![
            Rect { x: 151, y: 66, w: 281, h: 414 },
            Rect { x: 439, y: 66, w: 281, h: 414 },
        ]
    );
}

#[test]
fn section_widths_and_padding_fill_the_canvas() {
    for n in 1..=20usize {
        let rects = canvas_sections(1080, 480, n).unwrap();
        let sidebar = 1080 * 200 / 1000;
        let pad = 1080 * 10 / 1000;
        let sum: u32 = rects.iter().map(|r| r.w).sum();
        assert_eq!(sum + pad * n as u32, 1080 - sidebar);
        let widest = rects.iter().map(|r| r.w).max().unwrap();
        let narrowest = rects.iter().map(|r| r.w).min().unwrap();
        assert!(widest - narrowest <= 1);
    }
}

#[test]
fn canvas_rejects_empty_and_crowded() {
    assert_eq!(canvas_sections(720, 480, 0), Err(LayoutError::Empty));
    assert_eq!(canvas_sections(720, 480, 83), Err(LayoutError::Crowded));
    assert!(canvas_sections(720, 480, 82).is_ok());
}

#[test]
fn widgets_stack_down_a_section() {
    let section = Rect { x: 151, y: 66, w: 281, h: 414 };
    let rects = section_widgets(section, 1).unwrap();
    assert_eq!(rects, vec![Rect { x: 165, y: 86, w: 253, h: 394 }]);
    let rects = section_widgets(section, 3).unwrap();
    assert_eq!(rects[0], Rect { x: 165, y: 86, w: 253, h: 118 });
    assert_eq!(rects[1], Rect { x: 165, y: 224, w: 253, h: 118 });
    assert_eq!(rects[2], Rect { x: 165, y: 362, w: 253, h: 118 });
}

#[test]
fn widget_heights_and_padding_fill_the_section() {
    let section = Rect { x: 0, y: 7, w: 300, h: 401 };
    for m in 1..=20usize {
        let rects = section_widgets(section, m).unwrap();
        let pad = 401 * 50 / 1000;
        let sum: u32 = rects.iter().map(|r| r.h).sum();
        assert_eq!(sum + pad * m as u32, 401);
    }
}

#[test]
fn section_rejects_empty_and_crowded() {
    let section = Rect { x: 151, y: 66, w: 281, h: 414 };
    assert_eq!(section_widgets(section, 0), Err(LayoutError::Empty));
    assert_eq!(section_widgets(section, 21), Err(LayoutError::Crowded));
    assert!(section_widgets(section, 20).is_ok());
}
