use libui::navarrows::{decode_drag, pressed_overlay};
use libui::piemenu::{in_ring, wedge_of_turn, FULL_TURN};
use libui::{ClickAction, NavAction, PadOverlay, PieMenuState};

#[test]
fn wedge_index_at_boundaries() {
    let quarter = (FULL_TURN / 4) as u32;
    assert_eq!(wedge_of_turn(0, 4), 0);
    assert_eq!(wedge_of_turn(quarter - 1, 4), 0);
    assert_eq!(wedge_of_turn(quarter, 4), 1);
    assert_eq!(wedge_of_turn(u32::MAX, 4), 3);
    assert_eq!(wedge_of_turn(u32::MAX, 7), 6);
}

#[test]
fn dead_zone_and_outer_radius_give_no_sector() {
    assert!(!in_ring(1, 1, 10, 100));
    assert!(!in_ring(10, 0, 10, 100));
    assert!(in_ring(11, 0, 10, 100));
    assert!(in_ring(0, -100, 10, 100));
    assert!(!in_ring(0, -101, 10, 100));
}

#[test]
fn pad_decodes_directions() {
    assert_eq!(decode_drag(Some((10, 0)), 5), NavAction::Right);
    assert_eq!(decode_drag(Some((0, -10)), 5), NavAction::Up);
    assert_eq!(decode_drag(Some((0, 10)), 5), NavAction::Down);
    assert_eq!(decode_drag(Some((-10, 3)), 5), NavAction::Left);
    assert_eq!(decode_drag(Some((2, 2)), 5), NavAction::Center);
    assert_eq!(decode_drag(None, 5), NavAction::Idle);
    assert_eq!(decode_drag(Some((7, 7)), 5), NavAction::Down);
    assert_eq!(decode_drag(Some((i32::MIN, i32::MIN)), i32::MAX), NavAction::Up);
}

#[test]
fn pad_overlay_points_the_pressed_way() {
    assert_eq!(pressed_overlay(NavAction::Idle), PadOverlay::Nothing);
    assert_eq!(pressed_overlay(NavAction::Center), PadOverlay::CenterButton);
    assert_eq!(pressed_overlay(NavAction::Up), PadOverlay::Arrow(3));
    assert_eq!(pressed_overlay(NavAction::Left), PadOverlay::Arrow(2));
}

#[test]
fn pie_click_latches_only_labelled_sectors() {
    let mut pie = PieMenuState::new(vec![false, true, false, false]);
    assert_eq!(pie.sector_count(), 4);
    assert_eq!(pie.decode(Some(1), true), ClickAction::Hover(1));
    assert_eq!(pie.get_click_result(), None);
    assert_eq!(pie.decode(Some(2), true), ClickAction::Click(2));
    assert_eq!(pie.get_click_result(), Some(2));
    assert_eq!(pie.decode(None, true), ClickAction::Idle);
    assert_eq!(pie.take_click_result(), Some(2));
    assert_eq!(pie.get_click_result(), None);
}

#[test]
fn pie_hover_change_is_reported() {
    let mut pie = PieMenuState::new(vec![false, false]);
    assert!(pie.set_hovered(ClickAction::Hover(0)));
    assert!(!pie.set_hovered(ClickAction::Hover(0)));
    assert!(pie.is_emphasized(0));
    assert!(!pie.is_emphasized(1));
    assert!(pie.set_hovered(ClickAction::Idle));
    assert!(!pie.is_emphasized(0));
}
