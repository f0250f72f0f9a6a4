use vstd::prelude::*;

verus! {

/// The named web colors.
#[derive(Debug, Clone, Copy, PartialEq, Eq, Structural, PartialOrd, Ord)]
pub enum Color {
    Black,
    Navy,
    DarkBlue,
    MediumBlue,
    Blue,
    DarkGreen,
    Green,
    Teal,
    DarkCyan,
    DeepSkyBlue,
    DarkTurquoise,
    MediumSpringGreen,
    Lime,
    SpringGreen,
    Aqua,
    Cyan,
    MidnightBlue,
    DodgerBlue,
    LightSeaGreen,
    ForestGreen,
    SeaGreen,
    DarkSlateGray,
    DarkSlateGrey,
    LimeGreen,
    MediumSeaGreen,
    Turquoise,
    RoyalBlue,
    SteelBlue,
    DarkSlateBlue,
    MediumTurquoise,
    Indigo,
    DarkOliveGreen,
    CadetBlue,
    CornflowerBlue,
    RebeccaPurple,
    MediumAquaMarine,
    DimGray,
    DimGrey,
    SlateBlue,
    OliveDrab,
    SlateGray,
    SlateGrey,
    LightSlateGray,
    LightSlateGrey,
    MediumSlateBlue,
    LawnGreen,
    Chartreuse,
    Aquamarine,
    Maroon,
    Purple,
    Olive,
    Gray,
    Grey,
    SkyBlue,
    LightSkyBlue,
    BlueViolet,
    DarkRed,
    DarkMagenta,
    SaddleBrown,
    DarkSeaGreen,
    LightGreen,
    MediumPurple,
    DarkViolet,
    PaleGreen,
    DarkOrchid,
    YellowGreen,
    Sienna,
    Brown,
    DarkGray,
    DarkGrey,
    LightBlue,
    GreenYellow,
    PaleTurquoise,
    LightSteelBlue,
    PowderBlue,
    FireBrick,
    DarkGoldenRod,
    MediumOrchid,
    RosyBrown,
    DarkKhaki,
    Silver,
    MediumVioletRed,
    IndianRed,
    Peru,
    Chocolate,
    Tan,
    LightGray,
    LightGrey,
    Thistle,
    Orchid,
    GoldenRod,
    PaleVioletRed,
    Crimson,
    Gainsboro,
    Plum,
    BurlyWood,
    LightCyan,
    Lavender,
    DarkSalmon,
    Violet,
    PaleGoldenRod,
    LightCoral,
    Khaki,
    AliceBlue,
    HoneyDew,
    Azure,
    SandyBrown,
    Wheat,
    Beige,
    WhiteSmoke,
    MintCream,
    GhostWhite,
    Salmon,
    AntiqueWhite,
    Linen,
    LightGoldenRodYellow,
    OldLace,
    Red,
    Fuchsia,
    Magenta,
    DeepPink,
    OrangeRed,
    Tomato,
    HotPink,
    Coral,
    DarkOrange,
    LightSalmon,
    Orange,
    LightPink,
    Pink,
    Gold,
    PeachPuff,
    NavajoWhite,
    Moccasin,
    Bisque,
    MistyRose,
    BlanchedAlmond,
    PapayaWhip,
    LavenderBlush,
    SeaShell,
    Cornsilk,
    LemonChiffon,
    FloralWhite,
    Snow,
    Yellow,
    LightYellow,
}

/// The `0xRRGGBB` value of a color.
pub open spec fn hex_of(color: Color) -> usize {
    match color {
        Color::Black => 0x000000,
        Color::Navy => 0x000080,
        Color::DarkBlue => 0x00008B,
        Color::MediumBlue => 0x0000CD,
        Color::Blue => 0x0000FF,
        Color::DarkGreen => 0x006400,
        Color::Green => 0x008000,
        Color::Teal => 0x008080,
        Color::DarkCyan => 0x008B8B,
        Color::DeepSkyBlue => 0x00BFFF,
        Color::DarkTurquoise => 0x00CED1,
        Color::MediumSpringGreen => 0x00FA9A,
        Color::Lime => 0x00FF00,
        Color::SpringGreen => 0x00FF7F,
        Color::Aqua => 0x00FFFF,
        Color::Cyan => 0x00FFFF,
        Color::MidnightBlue => 0x191970,
        Color::DodgerBlue => 0x1E90FF,
        Color::LightSeaGreen => 0x20B2AA,
        Color::ForestGreen => 0x228B22,
        Color::SeaGreen => 0x2E8B57,
        Color::DarkSlateGray => 0x2F4F4F,
        Color::DarkSlateGrey => 0x2F4F4F,
        Color::LimeGreen => 0x32CD32,
        Color::MediumSeaGreen => 0x3CB371,
        Color::Turquoise => 0x40E0D0,
        Color::RoyalBlue => 0x4169E1,
        Color::SteelBlue => 0x4682B4,
        Color::DarkSlateBlue => 0x483D8B,
        Color::MediumTurquoise => 0x48D1CC,
        Color::Indigo => 0x4B0082,
        Color::DarkOliveGreen => 0x556B2F,
        Color::CadetBlue => 0x5F9EA0,
        Color::CornflowerBlue => 0x6495ED,
        Color::RebeccaPurple => 0x663399,
        Color::MediumAquaMarine => 0x66CDAA,
        Color::DimGray => 0x696969,
        Color::DimGrey => 0x696969,
        Color::SlateBlue => 0x6A5ACD,
        Color::OliveDrab => 0x6B8E23,
        Color::SlateGray => 0x708090,
        Color::SlateGrey => 0x708090,
        Color::LightSlateGray => 0x778899,
        Color::LightSlateGrey => 0x778899,
        Color::MediumSlateBlue => 0x7B68EE,
        Color::LawnGreen => 0x7CFC00,
        Color::Chartreuse => 0x7FFF00,
        Color::Aquamarine => 0x7FFFD4,
        Color::Maroon => 0x800000,
        Color::Purple => 0x800080,
        Color::Olive => 0x808000,
        Color::Gray => 0x808080,
        Color::Grey => 0x808080,
        Color::SkyBlue => 0x87CEEB,
        Color::LightSkyBlue => 0x87CEFA,
        Color::BlueViolet => 0x8A2BE2,
        Color::DarkRed => 0x8B0000,
        Color::DarkMagenta => 0x8B008B,
        Color::SaddleBrown => 0x8B4513,
        Color::DarkSeaGreen => 0x8FBC8F,
        Color::LightGreen => 0x90EE90,
        Color::MediumPurple => 0x9370DB,
        Color::DarkViolet => 0x9400D3,
        Color::PaleGreen => 0x98FB98,
        Color::DarkOrchid => 0x9932CC,
        Color::YellowGreen => 0x9ACD32,
        Color::Sienna => 0xA0522D,
        Color::Brown => 0xA52A2A,
        Color::DarkGray => 0xA9A9A9,
        Color::DarkGrey => 0xA9A9A9,
        Color::LightBlue => 0xADD8E6,
        Color::GreenYellow => 0xADFF2F,
        Color::PaleTurquoise => 0xAFEEEE,
        Color::LightSteelBlue => 0xB0C4DE,
        Color::PowderBlue => 0xB0E0E6,
        Color::FireBrick => 0xB22222,
        Color::DarkGoldenRod => 0xB8860B,
        Color::MediumOrchid => 0xBA55D3,
        Color::RosyBrown => 0xBC8F8F,
        Color::DarkKhaki => 0xBDB76B,
        Color::Silver => 0xC0C0C0,
        Color::MediumVioletRed => 0xC71585,
        Color::IndianRed => 0xCD5C5C,
        Color::Peru => 0xCD853F,
        Color::Chocolate => 0xD2691E,
        Color::Tan => 0xD2B48C,
        Color::LightGray => 0xD3D3D3,
        Color::LightGrey => 0xD3D3D3,
        Color::Thistle => 0xD8BFD8,
        Color::Orchid => 0xDA70D6,
        Color::GoldenRod => 0xDAA520,
        Color::PaleVioletRed => 0xDB7093,
        Color::Crimson => 0xDC143C,
        Color::Gainsboro => 0xDCDCDC,
        Color::Plum => 0xDDA0DD,
        Color::BurlyWood => 0xDEB887,
        Color::LightCyan => 0xE0FFFF,
        Color::Lavender => 0xE6E6FA,
        Color::DarkSalmon => 0xE9967A,
        Color::Violet => 0xEE82EE,
        Color::PaleGoldenRod => 0xEEE8AA,
        Color::LightCoral => 0xF08080,
        Color::Khaki => 0xF0E68C,
        Color::AliceBlue => 0xF0F8FF,
        Color::HoneyDew => 0xF0FFF0,
        Color::Azure => 0xF0FFFF,
        Color::SandyBrown => 0xF4A460,
        Color::Wheat => 0xF5DEB3,
        Color::Beige => 0xF5F5DC,
        Color::WhiteSmoke => 0xF5F5F5,
        Color::MintCream => 0xF5FFFA,
        Color::GhostWhite => 0xF8F8FF,
        Color::Salmon => 0xFA8072,
        Color::AntiqueWhite => 0xFAEBD7,
        Color::Linen => 0xFAF0E6,
        Color::LightGoldenRodYellow => 0xFAFAD2,
        Color::OldLace => 0xFDF5E6,
        Color::Red => 0xFF0000,
        Color::Fuchsia => 0xFF00FF,
        Color::Magenta => 0xFF00FF,
        Color::DeepPink => 0xFF1493,
        Color::OrangeRed => 0xFF4500,
        Color::Tomato => 0xFF6347,
        Color::HotPink => 0xFF69B4,
        Color::Coral => 0xFF7F50,
        Color::DarkOrange => 0xFF8C00,
        Color::LightSalmon => 0xFFA07A,
        Color::Orange => 0xFFA500,
        Color::LightPink => 0xFFB6C1,
        Color::Pink => 0xFFC0CB,
        Color::Gold => 0xFFD700,
        Color::PeachPuff => 0xFFDAB9,
        Color::NavajoWhite => 0xFFDEAD,
        Color::Moccasin => 0xFFE4B5,
        Color::Bisque => 0xFFE4C4,
        Color::MistyRose => 0xFFE4E1,
        Color::BlanchedAlmond => 0xFFEBCD,
        Color::PapayaWhip => 0xFFEFD5,
        Color::LavenderBlush => 0xFFF0F5,
        Color::SeaShell => 0xFFF5EE,
        Color::Cornsilk => 0xFFF8DC,
        Color::LemonChiffon => 0xFFFACD,
        Color::FloralWhite => 0xFFFAF0,
        Color::Snow => 0xFFFAFA,
        Color::Yellow => 0xFFFF00,
        Color::LightYellow => 0xFFFFE0,
    }
}

/// The red byte of a color: the second of the four big-endian bytes of its value.
pub open spec fn red_of(color: Color) -> u8 {
    ((hex_of(color) / 0x10000) % 0x100) as u8
}

/// The green byte of a color: the third big-endian byte of its value.
pub open spec fn green_of(color: Color) -> u8 {
    ((hex_of(color) / 0x100) % 0x100) as u8
}

/// The blue byte of a color: the last big-endian byte of its value.
pub open spec fn blue_of(color: Color) -> u8 {
    (hex_of(color) % 0x100) as u8
}

/// Every color fits in three bytes.
pub proof fn lemma_hex_fits(color: Color)
    ensures
        hex_of(color) < 0x1000000,
{
}

impl Color {
    /// The `0xRRGGBB` value of the color.
    pub fn hex(&self) -> (res: usize)
        ensures
            res == hex_of(*self),
    {
        match self {
            Color::Black => 0x000000,
            Color::Navy => 0x000080,
            Color::DarkBlue => 0x00008B,
            Color::MediumBlue => 0x0000CD,
            Color::Blue => 0x0000FF,
            Color::DarkGreen => 0x006400,
            Color::Green => 0x008000,
            Color::Teal => 0x008080,
            Color::DarkCyan => 0x008B8B,
            Color::DeepSkyBlue => 0x00BFFF,
            Color::DarkTurquoise => 0x00CED1,
            Color::MediumSpringGreen => 0x00FA9A,
            Color::Lime => 0x00FF00,
            Color::SpringGreen => 0x00FF7F,
            Color::Aqua => 0x00FFFF,
            Color::Cyan => 0x00FFFF,
            Color::MidnightBlue => 0x191970,
            Color::DodgerBlue => 0x1E90FF,
            Color::LightSeaGreen => 0x20B2AA,
            Color::ForestGreen => 0x228B22,
            Color::SeaGreen => 0x2E8B57,
            Color::DarkSlateGray => 0x2F4F4F,
            Color::DarkSlateGrey => 0x2F4F4F,
            Color::LimeGreen => 0x32CD32,
            Color::MediumSeaGreen => 0x3CB371,
            Color::Turquoise => 0x40E0D0,
            Color::RoyalBlue => 0x4169E1,
            Color::SteelBlue => 0x4682B4,
            Color::DarkSlateBlue => 0x483D8B,
            Color::MediumTurquoise => 0x48D1CC,
            Color::Indigo => 0x4B0082,
            Color::DarkOliveGreen => 0x556B2F,
            Color::CadetBlue => 0x5F9EA0,
            Color::CornflowerBlue => 0x6495ED,
            Color::RebeccaPurple => 0x663399,
            Color::MediumAquaMarine => 0x66CDAA,
            Color::DimGray => 0x696969,
            Color::DimGrey => 0x696969,
            Color::SlateBlue => 0x6A5ACD,
            Color::OliveDrab => 0x6B8E23,
            Color::SlateGray => 0x708090,
            Color::SlateGrey => 0x708090,
            Color::LightSlateGray => 0x778899,
            Color::LightSlateGrey => 0x778899,
            Color::MediumSlateBlue => 0x7B68EE,
            Color::LawnGreen => 0x7CFC00,
            Color::Chartreuse => 0x7FFF00,
            Color::Aquamarine => 0x7FFFD4,
            Color::Maroon => 0x800000,
            Color::Purple => 0x800080,
            Color::Olive => 0x808000,
            Color::Gray => 0x808080,
            Color::Grey => 0x808080,
            Color::SkyBlue => 0x87CEEB,
            Color::LightSkyBlue => 0x87CEFA,
            Color::BlueViolet => 0x8A2BE2,
            Color::DarkRed => 0x8B0000,
            Color::DarkMagenta => 0x8B008B,
            Color::SaddleBrown => 0x8B4513,
            Color::DarkSeaGreen => 0x8FBC8F,
            Color::LightGreen => 0x90EE90,
            Color::MediumPurple => 0x9370DB,
            Color::DarkViolet => 0x9400D3,
            Color::PaleGreen => 0x98FB98,
            Color::DarkOrchid => 0x9932CC,
            Color::YellowGreen => 0x9ACD32,
            Color::Sienna => 0xA0522D,
            Color::Brown => 0xA52A2A,
            Color::DarkGray => 0xA9A9A9,
            Color::DarkGrey => 0xA9A9A9,
            Color::LightBlue => 0xADD8E6,
            Color::GreenYellow => 0xADFF2F,
            Color::PaleTurquoise => 0xAFEEEE,
            Color::LightSteelBlue => 0xB0C4DE,
            Color::PowderBlue => 0xB0E0E6,
            Color::FireBrick => 0xB22222,
            Color::DarkGoldenRod => 0xB8860B,
            Color::MediumOrchid => 0xBA55D3,
            Color::RosyBrown => 0xBC8F8F,
            Color::DarkKhaki => 0xBDB76B,
            Color::Silver => 0xC0C0C0,
            Color::MediumVioletRed => 0xC71585,
            Color::IndianRed => 0xCD5C5C,
            Color::Peru => 0xCD853F,
            Color::Chocolate => 0xD2691E,
            Color::Tan => 0xD2B48C,
            Color::LightGray => 0xD3D3D3,
            Color::LightGrey => 0xD3D3D3,
            Color::Thistle => 0xD8BFD8,
            Color::Orchid => 0xDA70D6,
            Color::GoldenRod => 0xDAA520,
            Color::PaleVioletRed => 0xDB7093,
            Color::Crimson => 0xDC143C,
            Color::Gainsboro => 0xDCDCDC,
            Color::Plum => 0xDDA0DD,
            Color::BurlyWood => 0xDEB887,
            Color::LightCyan => 0xE0FFFF,
            Color::Lavender => 0xE6E6FA,
            Color::DarkSalmon => 0xE9967A,
            Color::Violet => 0xEE82EE,
            Color::PaleGoldenRod => 0xEEE8AA,
            Color::LightCoral => 0xF08080,
            Color::Khaki => 0xF0E68C,
            Color::AliceBlue => 0xF0F8FF,
            Color::HoneyDew => 0xF0FFF0,
            Color::Azure => 0xF0FFFF,
            Color::SandyBrown => 0xF4A460,
            Color::Wheat => 0xF5DEB3,
            Color::Beige => 0xF5F5DC,
            Color::WhiteSmoke => 0xF5F5F5,
            Color::MintCream => 0xF5FFFA,
            Color::GhostWhite => 0xF8F8FF,
            Color::Salmon => 0xFA8072,
            Color::AntiqueWhite => 0xFAEBD7,
            Color::Linen => 0xFAF0E6,
            Color::LightGoldenRodYellow => 0xFAFAD2,
            Color::OldLace => 0xFDF5E6,
            Color::Red => 0xFF0000,
            Color::Fuchsia => 0xFF00FF,
            Color::Magenta => 0xFF00FF,
            Color::DeepPink => 0xFF1493,
            Color::OrangeRed => 0xFF4500,
            Color::Tomato => 0xFF6347,
            Color::HotPink => 0xFF69B4,
            Color::Coral => 0xFF7F50,
            Color::DarkOrange => 0xFF8C00,
            Color::LightSalmon => 0xFFA07A,
            Color::Orange => 0xFFA500,
            Color::LightPink => 0xFFB6C1,
            Color::Pink => 0xFFC0CB,
            Color::Gold => 0xFFD700,
            Color::PeachPuff => 0xFFDAB9,
            Color::NavajoWhite => 0xFFDEAD,
            Color::Moccasin => 0xFFE4B5,
            Color::Bisque => 0xFFE4C4,
            Color::MistyRose => 0xFFE4E1,
            Color::BlanchedAlmond => 0xFFEBCD,
            Color::PapayaWhip => 0xFFEFD5,
            Color::LavenderBlush => 0xFFF0F5,
            Color::SeaShell => 0xFFF5EE,
            Color::Cornsilk => 0xFFF8DC,
            Color::LemonChiffon => 0xFFFACD,
            Color::FloralWhite => 0xFFFAF0,
            Color::Snow => 0xFFFAFA,
            Color::Yellow => 0xFFFF00,
            Color::LightYellow => 0xFFFFE0,
        }
    }
}

/// The channels of a color as values of `T`.
pub trait ColorProps<T> {
    fn r(&self) -> T;
    fn g(&self) -> T;
    fn b(&self) -> T;
    fn rgb(&self) -> [T; 3];
    fn bgr(&self) -> [T; 3];
    fn rgba(&self, alpha: T) -> [T; 4];
    fn bgra(&self, alpha: T) -> [T; 4];
}

impl ColorProps<u8> for Color {
    /// The red byte.
    fn r(&self) -> (res: u8)
        ensures
            res == red_of(*self),
    {
        self.rgb()[0]
    }

    /// The green byte.
    fn g(&self) -> (res: u8)
        ensures
            res == green_of(*self),
    {
        self.rgb()[1]
    }

    /// The blue byte.
    fn b(&self) -> (res: u8)
        ensures
            res == blue_of(*self),
    {
        self.rgb()[2]
    }

    /// The red, green and blue bytes: the last three big-endian bytes of the value.
    fn rgb(&self) -> (res: [u8; 3])
        ensures
            res@ == seq![red_of(*self), green_of(*self), blue_of(*self)],
    {
        let hex = self.hex();
        proof {
            lemma_hex_fits(*self);
        }
        let rgb = [((hex / 0x10000) % 0x100) as u8, ((hex / 0x100) % 0x100) as u8, (hex % 0x100) as u8];
        assert(rgb@ =~= seq![red_of(*self), green_of(*self), blue_of(*self)]);
        rgb
    }

    /// The blue, green and red bytes.
    fn bgr(&self) -> (res: [u8; 3])
        ensures
            res@ == seq![blue_of(*self), green_of(*self), red_of(*self)],
    {
        let rgb = self.rgb();
        let bgr = [rgb[2], rgb[1], rgb[0]];
        assert(bgr@ =~= seq![blue_of(*self), green_of(*self), red_of(*self)]);
        bgr
    }

    /// The red, green and blue bytes, then `alpha`.
    fn rgba(&self, alpha: u8) -> (res: [u8; 4])
        ensures
            res@ == seq![red_of(*self), green_of(*self), blue_of(*self), alpha],
    {
        let rgb = self.rgb();
        let rgba = [rgb[0], rgb[1], rgb[2], alpha];
        assert(rgba@ =~= seq![red_of(*self), green_of(*self), blue_of(*self), alpha]);
        rgba
    }

    /// The blue, green and red bytes, then `alpha`.
    fn bgra(&self, alpha: u8) -> (res: [u8; 4])
        ensures
            res@ == seq![blue_of(*self), green_of(*self), red_of(*self), alpha],
    {
        let rgb = self.rgb();
        let bgra = [rgb[2], rgb[1], rgb[0], alpha];
        assert(bgra@ =~= seq![blue_of(*self), green_of(*self), red_of(*self), alpha]);
        bgra
    }
}

/// The blue-green-red order is the red-green-blue order reversed, for every color.
pub proof fn lemma_bgr_reverses_rgb(color: Color)
    ensures
        seq![blue_of(color), green_of(color), red_of(color)]
            == seq![red_of(color), green_of(color), blue_of(color)].reverse(),
{
    assert(seq![blue_of(color), green_of(color), red_of(color)]
        =~= seq![red_of(color), green_of(color), blue_of(color)].reverse());
}

/// The channels of a color give back its value: `hex == (r << 16) | (g << 8) | b`.
pub proof fn lemma_channels_give_hex(color: Color)
    ensures
        hex_of(color) == red_of(color) * 0x10000 + green_of(color) * 0x100 + blue_of(color),
{
    lemma_hex_fits(color);
}

} // verus!
