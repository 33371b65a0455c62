use ate_chip::emulator::ACRenderer;
use ate_chip::screen::ACScreen;

const LIT: &str = "\x1b[48;2;000;000;000m\x1b[38;2;105;237;044m██\x1b[39m\x1b[49m";
const DARK: &str = "\x1b[38;2;000;000;000m\x1b[48;2;000;000;000m██\x1b[49m\x1b[39m";

/// The expected text of a frame given as 32 stored rows.
fn expected_text(rows: &[[bool; 64]; 32]) -> String {
    let mut lines = Vec::new();
    for row in rows.iter().rev() {
        let mut line = String::new();
        for px in row.iter() {
            line.push_str(if *px { LIT } else { DARK });
        }
        lines.push(line);
    }
    lines.join("\n")
}

#[test]
fn blank_renderer_renders_dark_cells() {
    let mut r = ACRenderer::new();
    let text = r.render_string();
    assert_eq!(text, expected_text(&[[false; 64]; 32]));
    assert_eq!(text.lines().count(), 32);
}

#[test]
fn set_pixel_shows_in_the_text() {
    let mut r = ACRenderer::new();
    r.set_pixel(0, 31, true);
    let mut rows = [[false; 64]; 32];
    rows[31][0] = true;
    let text = r.render_string();
    assert_eq!(text, expected_text(&rows));
    assert!(text.starts_with(LIT));
}

#[test]
fn set_pixel_wraps_negative_coordinates() {
    let mut r = ACRenderer::new();
    r.set_pixel(-1, -1, true);
    r.set_pixel(70, 40, true);
    let mut rows = [[false; 64]; 32];
    rows[31][63] = true;
    rows[8][6] = true;
    assert_eq!(r.render_string(), expected_text(&rows));
}

#[test]
fn render_cache_follows_changes() {
    let mut r = ACRenderer::new();
    let first = r.render_string();
    let again = r.render_string();
    assert_eq!(first, again);
    r.set_pixel(3, 4, true);
    let changed = r.render_string();
    assert_ne!(first, changed);
    r.set_pixel(3, 4, false);
    assert_eq!(r.render_string(), first);
}

#[test]
fn xor_pixel_counts_rows_from_the_bottom() {
    let mut r = ACRenderer::new();
    let erased = r.xor_pixel(3, 5, true);
    assert!(erased);
    let mut rows = [[false; 64]; 32];
    rows[26][3] = true;
    assert_eq!(r.render_string(), expected_text(&rows));
    // The returned value reads stored row 5, which the call did not touch.
    r.set_pixel(3, 5, true);
    assert!(!r.xor_pixel(3, 5, false));
}

#[test]
fn xor_pixel_twice_restores() {
    let mut r = ACRenderer::new();
    r.xor_pixel(70, 40, true);
    r.xor_pixel(70, 40, true);
    assert_eq!(r.render_string(), expected_text(&[[false; 64]; 32]));
}

#[test]
fn clear_turns_everything_off() {
    let mut r = ACRenderer::new();
    r.set_pixel(10, 10, true);
    r.clear();
    assert_eq!(r.render_string(), expected_text(&[[false; 64]; 32]));
}

#[test]
fn rgb24_frame_scans_the_last_row_first() {
    let mut r = ACRenderer::new();
    r.set_pixel(0, 31, true);
    r.set_pixel(63, 0, true);
    let mut buf = vec![7u8; 6144 + 3];
    r.render_to_rgb24(&mut buf);
    assert_eq!(&buf[0..3], &[255, 255, 255]);
    assert_eq!(&buf[3..6], &[0, 0, 0]);
    assert_eq!(&buf[6141..6144], &[255, 255, 255]);
    assert_eq!(&buf[6144..], &[7, 7, 7]);
    assert_eq!(buf[..6144].iter().filter(|b| **b == 255).count(), 6);
}

#[test]
fn screen_flip_pixel_reports_erasure() {
    let mut s = ACScreen::new();
    assert!(!s.flip_pixel(2, 3));
    assert!(s.flip_pixel(2, 3));
    assert!(!s.flip_pixel(-62, -29));
    let mut rows = [[false; 64]; 32];
    rows[3][2] = true;
    assert_eq!(s.render(), expected_text(&rows));
    s.clear();
    assert_eq!(s.render(), expected_text(&[[false; 64]; 32]));
}

#[test]
fn screen_render_is_stable() {
    let mut s = ACScreen::new();
    s.flip_pixel(0, 0);
    let a = s.render();
    let b = s.render();
    assert_eq!(a, b);
    assert!(a.lines().last().unwrap().starts_with(LIT));
}
