use lib::app::App;
use lib::direction::Direction;
use lib::render::{clear_pixel, fill_rect, render, set_pixel, FRAMEBUFFER_SIZE};

#[test]
fn render_writes_a_single_arduboy_framebuffer() {
    let app = App::new();
    let mut framebuffer = [0; FRAMEBUFFER_SIZE];
    render(&app, &mut framebuffer);
    assert!(framebuffer.iter().any(|&byte| byte != 0));
}

#[test]
fn scrolling_changes_the_rendered_frame() {
    let mut app = App::new();
    let mut before = [0; FRAMEBUFFER_SIZE];
    let mut after = [0; FRAMEBUFFER_SIZE];

    render(&app, &mut before);
    app.toggle_camera_mode();
    app.press_direction(Direction::North);
    render(&app, &mut after);

    assert_ne!(before, after);
}

fn lit(framebuffer: &[u8], x: usize, y: usize) -> bool {
    framebuffer[(y / 8) * 128 + x] & (1 << (y % 8)) != 0
}

#[test]
fn pixels_map_to_bits() {
    let mut framebuffer = [0u8; FRAMEBUFFER_SIZE];
    set_pixel(&mut framebuffer, 5, 10);
    assert_eq!(framebuffer[128 + 5], 1 << 2);
    set_pixel(&mut framebuffer, 200, 10);
    set_pixel(&mut framebuffer, -1, 10);
    assert_eq!(framebuffer.iter().filter(|&&b| b != 0).count(), 1);
    clear_pixel(&mut framebuffer, 5, 10);
    assert!(framebuffer.iter().all(|&b| b == 0));
}

#[test]
fn fill_rect_is_clipped_to_the_screen() {
    let mut framebuffer = [0u8; FRAMEBUFFER_SIZE];
    fill_rect(&mut framebuffer, 124, 60, 12, 12);
    let mut count = 0;
    for y in 0..64 {
        for x in 0..128 {
            if lit(&framebuffer, x, y) {
                count += 1;
                assert!(x >= 124 && y >= 60);
            }
        }
    }
    assert_eq!(count, 16);
}

#[test]
fn render_draws_the_player_tile() {
    // Rats level: camera at (-28, 32); the player at tile (3, 6) has its
    // top-left corner at screen (3 * 12 + 28, 6 * 12 - 32) = (64, 40) and is
    // a 6 by 6 block from (67, 43) with the sword pointing north.
    let app = App::new();
    let mut framebuffer = [0u8; FRAMEBUFFER_SIZE];
    render(&app, &mut framebuffer);
    for y in 43..49 {
        for x in 67..73 {
            assert!(lit(&framebuffer, x, y));
        }
    }
    assert!(lit(&framebuffer, 70, 41));
    assert!(lit(&framebuffer, 70, 42));
    assert!(!lit(&framebuffer, 70, 40));
    assert!(!lit(&framebuffer, 64, 40));
    // No status badge while playing, no camera badge in player mode.
    assert!(!lit(&framebuffer, 5, 30));
    assert!(!lit(&framebuffer, 1, 1));
}

#[test]
fn camera_mode_shows_its_badge() {
    let mut app = App::new();
    app.toggle_camera_mode();
    let mut framebuffer = [0u8; FRAMEBUFFER_SIZE];
    render(&app, &mut framebuffer);
    assert!(lit(&framebuffer, 1, 1));
    assert!(lit(&framebuffer, 8, 8));
    assert!(lit(&framebuffer, 4, 3));
    assert!(!lit(&framebuffer, 4, 4));
}

#[test]
fn render_clears_the_whole_buffer_first() {
    let app = App::new();
    let mut framebuffer = [0xffu8; FRAMEBUFFER_SIZE + 4];
    render(&app, &mut framebuffer);
    assert!(framebuffer[FRAMEBUFFER_SIZE..].iter().all(|&b| b == 0));
    assert!(!lit(&framebuffer, 0, 0));
}
