use disgreet::layout::{centered_rect, Area};

fn area(x: u16, y: u16, width: u16, height: u16) -> Area {
    Area { x, y, width, height }
}

#[test]
fn box_is_centred_on_a_large_screen() {
    assert!(centered_rect(40, 10, area(0, 0, 100, 30)) == area(30, 10, 40, 10));
}

#[test]
fn odd_spare_space_rounds_down() {
    assert!(centered_rect(40, 10, area(0, 0, 81, 25)) == area(20, 7, 40, 10));
}

#[test]
fn offset_screen_keeps_its_origin() {
    assert!(centered_rect(4, 2, area(5, 7, 10, 6)) == area(8, 9, 4, 2));
}

#[test]
fn small_screen_is_used_whole() {
    assert!(centered_rect(40, 10, area(0, 0, 39, 30)) == area(0, 0, 39, 30));
    assert!(centered_rect(40, 10, area(0, 0, 80, 9)) == area(0, 0, 80, 9));
}

#[test]
fn exact_fit_fills_the_screen() {
    assert!(centered_rect(40, 10, area(0, 0, 40, 10)) == area(0, 0, 40, 10));
}
