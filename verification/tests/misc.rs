use astra_gui::ids::push_decimal;
use astra_gui::layout::wheel_scrolls_horizontally;
use astra_gui::{DebugOptions, HorizontalAlign, Layout, Overflow, ScrollDirection, VerticalAlign, Wrap};

#[test]
fn debug_options_switches() {
    assert!(!DebugOptions::none().is_enabled());
    assert!(DebugOptions::all().is_enabled());
    assert!(!DebugOptions::default().is_enabled());
    let o = DebugOptions::none().with_gaps(true);
    assert!(o.is_enabled());
    assert!(o.show_gaps && !o.show_margins);
    let o = DebugOptions::all().with_margins(false).with_padding(false);
    assert!(!o.show_margins && !o.show_padding && o.show_borders);
    assert!(DebugOptions::none().with_borders(true).show_borders);
    assert!(DebugOptions::none().with_content_area(true).show_content_area);
    assert!(DebugOptions::none().with_clip_rects(true).show_clip_rects);
    assert!(DebugOptions::none().with_transform_origins(true).show_transform_origins);
    assert!(DebugOptions::none().with_margins(true).is_enabled());
    let text_only = DebugOptions { show_text_bounds: true, ..DebugOptions::none() };
    assert!(text_only.is_enabled());
}

#[test]
fn policy_defaults() {
    assert_eq!(Wrap::default(), Wrap::Word);
    assert_eq!(Overflow::default(), Overflow::Visible);
    assert_eq!(ScrollDirection::default(), ScrollDirection::Inverted);
    assert_eq!(Layout::default(), Layout::Vertical);
    assert_ne!(HorizontalAlign::Left, HorizontalAlign::Right);
    assert_ne!(VerticalAlign::Top, VerticalAlign::Bottom);
}

#[test]
fn decimal_formatting() {
    for n in [0usize, 7, 10, 99, 100, 12345, usize::MAX] {
        let mut s = String::from("n=");
        push_decimal(&mut s, n);
        assert_eq!(s, format!("n={}", n));
    }
}

#[test]
fn test_scroll_axis_routing() {
    // Overflows both axes, no shift -> scrolls Y.
    assert!(!wheel_scrolls_horizontally(false, true, true));
    // Overflows both axes, shift held -> scrolls X.
    assert!(wheel_scrolls_horizontally(true, true, true));
    // Overflows X only -> vertical wheel routed to X without shift.
    assert!(wheel_scrolls_horizontally(false, true, false));
    // Overflows Y only -> Y, with or without shift.
    assert!(!wheel_scrolls_horizontally(false, false, true));
    assert!(!wheel_scrolls_horizontally(true, false, true));
}
