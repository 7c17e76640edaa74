use chip8::keymap::{map_key, HostKey};
use chip8::render::render_scaled;

#[test]
fn map_key_default_layout() {
    assert_eq!(map_key(HostKey::W), Some(0x5));
    assert_eq!(map_key(HostKey::A), Some(0x4));
    assert_eq!(map_key(HostKey::S), Some(0x6));
    assert_eq!(map_key(HostKey::D), Some(0xD));
    assert_eq!(map_key(HostKey::I), Some(0x8));
    assert_eq!(map_key(HostKey::J), Some(0x7));
    assert_eq!(map_key(HostKey::K), Some(0x9));
    assert_eq!(map_key(HostKey::L), Some(0xE));
    assert_eq!(map_key(HostKey::Key1), Some(0x1));
    assert_eq!(map_key(HostKey::Key4), Some(0xC));
    assert_eq!(map_key(HostKey::X), Some(0x0));
    assert_eq!(map_key(HostKey::V), Some(0xF));
    assert_eq!(map_key(HostKey::Other), None);
}

#[test]
fn render_scaled_blocks_and_colors() {
    let mut screen = vec![0u8; 2048];
    screen[0] = 1; // pixel (0, 0)
    screen[31 * 64 + 63] = 1; // pixel (63, 31)
    let buffer = render_scaled(&screen);
    assert_eq!(buffer.len(), 640 * 320);
    // The 10 x 10 block of pixel (0, 0) is white, the next block black.
    assert_eq!(buffer[0], 0xFFFFFF);
    assert_eq!(buffer[9], 0xFFFFFF);
    assert_eq!(buffer[9 * 640 + 9], 0xFFFFFF);
    assert_eq!(buffer[10], 0);
    assert_eq!(buffer[10 * 640], 0);
    // The block of pixel (63, 31) fills the bottom-right corner.
    assert_eq!(buffer[319 * 640 + 639], 0xFFFFFF);
    assert_eq!(buffer[310 * 640 + 630], 0xFFFFFF);
    assert_eq!(buffer[319 * 640 + 629], 0);
}
