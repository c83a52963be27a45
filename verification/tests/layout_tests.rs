use appcui::control_layout::{ControlLayout, Layout};
use appcui::coordinates::{Coordonate, Coordonate16, Dimension, Dimension16};
use appcui::graphics::{Rect, Size};
use appcui::layout_mode::LayoutMode;
use appcui::layout_params::{LayoutError, LayoutParameters};

fn resolve(text: &str, w: u32, h: u32) -> Rect {
    let layout = Layout::new(text).unwrap();
    let mut cl = ControlLayout::new(layout);
    cl.on_parent_resized(Size::new(w, h));
    cl.resolved_rect()
}

#[test]
fn absolute_passes_values_through_on_any_parent() {
    assert_eq!(resolve("x:5,y:2,w:10,h:3", 100, 50), Rect::new(5, 2, 10, 3));
    assert_eq!(resolve("x:5,y:2,w:10,h:3", 7, 1), Rect::new(5, 2, 10, 3));
    assert_eq!(resolve("x:5,y:2,w:10,h:3", 1, 1000), Rect::new(5, 2, 10, 3));
}

#[test]
fn absolute_negative_positions_count_from_the_far_edge() {
    assert_eq!(resolve("x:-2,y:0,w:2,h:1", 10, 5), Rect::new(8, 0, 2, 1));
    assert_eq!(resolve("x:0,y:-1,w:2,h:1", 10, 5), Rect::new(0, 4, 2, 1));
}

#[test]
fn left_right_stretch_ignores_parent_height() {
    assert_eq!(resolve("left:2,right:2", 20, 5).x, 2);
    assert_eq!(resolve("left:2,right:2", 20, 5).width, 16);
    assert_eq!(resolve("left:2,right:2", 20, 500).x, 2);
    assert_eq!(resolve("left:2,right:2", 20, 500).width, 16);
}

#[test]
fn left_right_negative_inset_reaches_outside() {
    let r = resolve("left:2,right:-2,y:1,h:2", 20, 10);
    assert_eq!(r, Rect::new(2, 1, 20, 2));
}

#[test]
fn percentage_insets_round_half_away_from_zero() {
    let r = resolve("left:25%,right:25%", 40, 10);
    assert_eq!(r.x, 10);
    assert_eq!(r.width, 20);
    // 11 cells at 50%: 5.5 rounds away from zero to 6
    assert_eq!(Dimension::Percentage(5000).resolve(11), 6);
    assert_eq!(Coordonate::Percentage(-5000).resolve(11), -6);
}

#[test]
fn percentage_dimension_never_negative() {
    assert_eq!(Dimension::Percentage(-5000).resolve(100), 0);
    assert_eq!(Dimension::Absolute(7).resolve(3), 7);
}

#[test]
fn three_anchors_stretch_and_default_to_the_parent_extent() {
    // left, top and right pinned on a 30x10 parent: full-width stretch,
    // and the missing height defaults to the whole parent height
    let r = resolve("left:0,top:0,right:0", 30, 10);
    assert_eq!(r, Rect::new(0, 0, 30, 10));
    let r = resolve("left:1,top:2,right:3,h:4", 30, 10);
    assert_eq!(r, Rect::new(1, 2, 26, 4));
}

#[test]
fn remaining_three_anchor_modes() {
    // left, bottom, right: the bottom edge is pinned
    assert_eq!(resolve("left:1,right:1,bottom:0,h:2", 20, 10), Rect::new(1, 8, 18, 2));
    // top, left, bottom: the left edge is pinned
    assert_eq!(resolve("top:0,bottom:2,left:4,w:6", 30, 12), Rect::new(4, 0, 6, 10));
    // top, right, bottom: the right edge is pinned
    assert_eq!(resolve("top:0,bottom:0,right:3,w:5", 20, 10), Rect::new(12, 0, 5, 10));
}

#[test]
fn top_bottom_stretch() {
    assert_eq!(resolve("top:1,bottom:1,x:3,w:5", 30, 10), Rect::new(3, 1, 5, 8));
}

#[test]
fn all_anchors_stretch_both_axes() {
    assert_eq!(resolve("l:1,t:2,r:3,b:4", 30, 20), Rect::new(1, 2, 26, 14));
    // an anchor past its opposite edge floors the extent at zero
    assert_eq!(resolve("l:15,t:0,r:15,b:0", 20, 10).width, 0);
}

#[test]
fn dock_places_against_the_parent() {
    assert_eq!(resolve("d:c,w:78,h:11", 80, 13), Rect::new(1, 1, 78, 11));
    assert_eq!(resolve("d:tl,w:10,h:3", 80, 25), Rect::new(0, 0, 10, 3));
    assert_eq!(resolve("d:r,w:10,h:3", 80, 25), Rect::new(70, 11, 10, 3));
    // no size given: the whole parent
    assert_eq!(resolve("d:c", 80, 25), Rect::new(0, 0, 80, 25));
}

#[test]
fn align_places_at_the_given_point() {
    assert_eq!(resolve("a:c,x:10,y:5,w:4,h:2", 80, 25), Rect::new(8, 4, 4, 2));
    assert_eq!(resolve("a:br,x:10,y:5,w:4,h:2", 80, 25), Rect::new(6, 3, 4, 2));
    assert_eq!(resolve("a:tl,x:10,y:5,w:4,h:2", 80, 25), Rect::new(10, 5, 4, 2));
}

#[test]
fn all_anchors_reject_sizes() {
    match Layout::new("left:0,top:0,right:0,bottom:0,w:10") {
        Err(LayoutError::ConflictingAnchors { first, second }) => {
            assert_eq!(first, "width");
            assert_eq!(second, "right");
        },
        other => panic!("expected a conflict, got {:?}", other.is_ok()),
    }
    match Layout::new("left:0,top:0,right:0,bottom:0,height:1") {
        Err(LayoutError::ConflictingAnchors { first, second }) => {
            assert_eq!(first, "height");
            assert_eq!(second, "bottom");
        },
        other => panic!("expected a conflict, got {:?}", other.is_ok()),
    }
}

#[test]
fn position_and_anchor_conflict_names_both_keys() {
    match Layout::new("x:1,left:1") {
        Err(LayoutError::ConflictingAnchors { first, second }) => {
            assert_eq!(first, "x");
            assert_eq!(second, "left");
        },
        other => panic!("expected a conflict, got {:?}", other.is_ok()),
    }
}

#[test]
fn stretched_axes_reject_sizes() {
    assert!(matches!(
        Layout::new("left:1,right:1,w:5"),
        Err(LayoutError::ConflictingAnchors { .. })
    ));
    assert!(matches!(
        Layout::new("top:1,bottom:1,h:5"),
        Err(LayoutError::ConflictingAnchors { .. })
    ));
}

#[test]
fn each_error_kind_has_an_input() {
    assert!(matches!(
        Layout::new("foo:1"),
        Err(LayoutError::UnknownParameter { .. })
    ));
    assert!(matches!(
        Layout::new(""),
        Err(LayoutError::MissingRequiredCombination)
    ));
    assert!(matches!(
        Layout::new("left:1"),
        Err(LayoutError::MissingRequiredCombination)
    ));
    assert!(matches!(
        Layout::new("x:abc"),
        Err(LayoutError::InvalidPercentageValue { .. })
    ));
    assert!(matches!(
        Layout::new("a:zzz"),
        Err(LayoutError::InvalidAlignmentKeyword { .. })
    ));
    assert!(matches!(
        Layout::new("d:c,a:c"),
        Err(LayoutError::ConflictingAnchors { .. })
    ));
    assert!(matches!(
        Layout::new("d:c,left:1"),
        Err(LayoutError::ConflictingAnchors { .. })
    ));
}

#[test]
fn resolution_is_idempotent() {
    let layout = Layout::new("left:10%,right:10%,y:1,h:2").unwrap();
    let mut cl = ControlLayout::new(layout);
    // before the first parent size arrives the rectangle is all zeroes
    assert_eq!(cl.resolved_rect(), Rect::new(0, 0, 0, 0));
    cl.on_parent_resized(Size::new(33, 7));
    let first = cl.resolved_rect();
    assert_eq!(first, Rect::new(3, 1, 27, 2));
    cl.on_parent_resized(Size::new(33, 7));
    assert_eq!(cl.resolved_rect(), first);
    // a different size re-resolves
    cl.on_parent_resized(Size::new(66, 7));
    assert_ne!(cl.resolved_rect(), first);
}

#[test]
fn set_layout_re_resolves_at_once() {
    let mut cl = ControlLayout::new(Layout::new("x:1,y:1,w:2,h:2").unwrap());
    cl.on_parent_resized(Size::new(40, 20));
    assert_eq!(cl.resolved_rect(), Rect::new(1, 1, 2, 2));
    cl.set_layout(Layout::new("d:c,w:10,h:4").unwrap());
    assert_eq!(cl.resolved_rect(), Rect::new(15, 8, 10, 4));
}

#[test]
fn parameters_expose_their_anchors() {
    let p = LayoutParameters::parse("left:1,top:2,w:3").unwrap();
    let a = p.anchors();
    assert!(a.left && a.top && !a.right && !a.bottom);
    assert_eq!(a.count(), 2);
}

#[test]
fn later_values_override_earlier_ones() {
    assert_eq!(resolve("x:1,x:5,y:0,w:2,h:2", 40, 20).x, 5);
}

#[test]
fn keys_fold_ascii_case() {
    assert_eq!(resolve("X:5,Y:2,W:10,H:3", 100, 50), Rect::new(5, 2, 10, 3));
    assert_eq!(resolve("D:C,w:78,h:11", 80, 13), Rect::new(1, 1, 78, 11));
}

#[test]
fn compact_forms_round_trip_in_range() {
    let c = Coordonate::Absolute(-1234);
    assert_eq!(c.compact().widen(), c);
    let c = Coordonate::Percentage(32767);
    assert_eq!(c.compact().widen(), c);
    let d = Dimension::Absolute(65535);
    assert_eq!(d.compact().widen(), d);
    let d = Dimension::Percentage(-32768);
    assert_eq!(d.compact().widen(), d);
    // saturation outside the compact range
    assert_eq!(Coordonate::Absolute(40000).compact(), Coordonate16::Absolute(32767));
    assert_eq!(Dimension::Absolute(70000).compact(), Dimension16::Absolute(65535));
    assert_eq!(Coordonate::Percentage(-40000).compact(), Coordonate16::Percentage(-32768));
}

#[test]
fn percentage_coordinate_stays_within_the_extent() {
    // the resolved offset of a coordinate within plus or minus 100%
    // lies in [-extent, extent]
    let extents: &[u32] = &[0, 1, 7, 40, 1000, 65535];
    let pcts: &[i32] = &[-10000, -9999, -5000, -1, 0, 1, 2500, 9999, 10000];
    for &e in extents {
        for &p in pcts {
            let v = Coordonate::Percentage(p).resolve(e);
            assert!(-(e as i64) <= v as i64 && (v as i64) <= e as i64);
        }
    }
}

#[test]
fn point_and_size_mode_is_chosen_over_absolute() {
    let p = LayoutParameters::parse("a:c,x:10,y:5,w:4,h:2").unwrap();
    assert!(matches!(
        LayoutMode::classify(&p),
        Ok(LayoutMode::PointAndSize { dock: false, .. })
    ));
    let p = LayoutParameters::parse("x:10,y:5,w:4,h:2").unwrap();
    assert!(matches!(LayoutMode::classify(&p), Ok(LayoutMode::Absolute { .. })));
}
