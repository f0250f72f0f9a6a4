use frdm_server::domain::{Color, ColorProps, Dot, Filter, FilterEmpty, FilterLowPass};

#[test]
fn dot_from_takes_x_then_y() {
    let dot = Dot::<usize>::from([3, 7]);
    assert_eq!(Dot::<usize>::from(&[4, 1]), Dot { x: 4, y: 1 });
    assert_eq!(dot, Dot { x: 3, y: 7 });
}

#[test]
fn color_hex_gives_web_values() {
    assert_eq!(Color::Black.hex(), 0x000000);
    assert_eq!(Color::Red.hex(), 0xFF0000);
    assert_eq!(Color::DarkRed.hex(), 0x8B0000);
    assert_eq!(Color::IndianRed.hex(), 0xCD5C5C);
    assert_eq!(Color::Yellow.hex(), 0xFFFF00);
    assert_eq!(Color::LightYellow.hex(), 0xFFFFE0);
    assert_eq!(Color::Snow.hex(), 0xFFFAFA);
}

#[test]
fn color_channels_are_the_bytes_of_hex() {
    let c = Color::IndianRed;
    let r: u8 = c.r();
    let g: u8 = c.g();
    let b: u8 = c.b();
    assert_eq!((r, g, b), (0xCD, 0x5C, 0x5C));
    let rgb: [u8; 3] = c.rgb();
    assert_eq!(rgb, [0xCD, 0x5C, 0x5C]);
    let bgr: [u8; 3] = c.bgr();
    assert_eq!(bgr, [0x5C, 0x5C, 0xCD]);
    let rgba: [u8; 4] = c.rgba(7);
    assert_eq!(rgba, [0xCD, 0x5C, 0x5C, 7]);
    let bgra: [u8; 4] = c.bgra(255);
    assert_eq!(bgra, [0x5C, 0x5C, 0xCD, 255]);
}

#[test]
fn color_bgr_reverses_rgb_for_every_sample() {
    for c in [Color::Navy, Color::Lime, Color::OrangeRed, Color::PaleVioletRed, Color::Teal] {
        let mut rgb: [u8; 3] = c.rgb();
        rgb.reverse();
        let bgr: [u8; 3] = c.bgr();
        assert_eq!(bgr, rgb);
        let [r, g, b]: [u8; 3] = c.rgb();
        assert_eq!((r as usize) << 16 | (g as usize) << 8 | b as usize, c.hex());
    }
}

#[test]
fn filter_empty_passes_values_through() {
    let mut f = FilterEmpty::<i32>::new();
    assert_eq!(f.add(5), Some(5));
    assert_eq!(f.add(-3), Some(-3));
}

#[test]
fn filter_low_pass_averages_into_its_window() {
    let mut f = FilterLowPass::<3, i32>::new(None);
    assert_eq!(f.add(10), Some(10));
    assert_eq!(f.add(20), Some(10));
    assert_eq!(f.add(30), Some(10));
    // window [10, 15, 18]: (43 + 40) / 4 = 20 pushes 10 out
    assert_eq!(f.add(40), Some(15));
}

#[test]
fn filter_low_pass_divides_toward_zero() {
    let mut f = FilterLowPass::<2, i32>::new(Some(-7));
    assert_eq!(f.add(0), Some(-7));
    assert_eq!(f.add(0), Some(-3));
}

#[test]
fn filter_low_pass_without_window_gives_nothing() {
    let mut f = FilterLowPass::<0, i32>::new(Some(4));
    assert_eq!(f.add(9), None);
}
