use ppu::color::bgr555_to_argb;

#[test]
fn test_black_color() {
    let result = bgr555_to_argb(0x0000);
    assert_eq!(result, 0xFF000000);
}

#[test]
fn test_pure_red() {
    let result = bgr555_to_argb(0x001F);
    assert_eq!(result & 0xFFFFFF, 0xFF0000);
}

#[test]
fn test_pure_green() {
    let result = bgr555_to_argb(0x03E0);
    assert_eq!(result & 0xFFFFFF, 0x00FF00);
}

#[test]
fn test_pure_blue() {
    let result = bgr555_to_argb(0x7C00);
    assert_eq!(result & 0xFFFFFF, 0x0000FF);
}

#[test]
fn test_alpha_is_always_opaque() {
    let colors = [0x0000, 0x7FFF, 0x1234, 0x6B5A];
    for &c in &colors {
        let result = bgr555_to_argb(c);
        assert_eq!(result >> 24, 0xFF);
    }
}

#[test]
fn test_mid_gray() {
    let result = bgr555_to_argb(0x3DEF);
    let r = (result >> 16) & 0xFF;
    let g = (result >> 8) & 0xFF;
    let b = result & 0xFF;
    assert!(r >= 120 && r <= 136);
    assert!(g >= 120 && g <= 136);
    assert!(b >= 120 && b <= 136);
}

// Exact expansion: each 5-bit channel c becomes c * 8 + c / 4, and bit 15
// of the input is ignored.
#[test]
fn color_exact_channel_expansion() {
    assert_eq!(bgr555_to_argb(0x0421), 0xFF080808);
    assert_eq!(bgr555_to_argb(0x7FFF), 0xFFFFFFFF);
    assert_eq!(bgr555_to_argb(0x8000), 0xFF000000);
    assert_eq!(bgr555_to_argb(0x0010), 0xFF840000);
}
