use vstd::prelude::*;

verus! {

/// The element types of an image matrix: the depth of a channel (unsigned, signed or
/// floating, and its bits) and the number of channels.
#[derive(Debug, Clone, Copy, PartialEq, Eq, Structural)]
pub enum MatType {
    Cv8uc1,
    Cv8uc2,
    Cv8uc3,
    Cv8uc4,
    Cv8sc1,
    Cv8sc2,
    Cv8sc3,
    Cv8sc4,
    Cv16uc1,
    Cv16uc2,
    Cv16uc3,
    Cv16uc4,
    Cv16sc1,
    Cv16sc2,
    Cv16sc3,
    Cv16sc4,
    Cv32sc1,
    Cv32sc2,
    Cv32sc3,
    Cv32sc4,
    Cv32fc1,
    Cv32fc2,
    Cv32fc3,
    Cv32fc4,
    Cv64fc1,
    Cv64fc2,
    Cv64fc3,
    Cv64fc4,
}

/// The bits of one channel.
pub open spec fn depth_of(typ: MatType) -> u8 {
    match typ {
        MatType::Cv8uc1 => 8,
        MatType::Cv8uc2 => 8,
        MatType::Cv8uc3 => 8,
        MatType::Cv8uc4 => 8,
        MatType::Cv8sc1 => 8,
        MatType::Cv8sc2 => 8,
        MatType::Cv8sc3 => 8,
        MatType::Cv8sc4 => 8,
        MatType::Cv16uc1 => 16,
        MatType::Cv16uc2 => 16,
        MatType::Cv16uc3 => 16,
        MatType::Cv16uc4 => 16,
        MatType::Cv16sc1 => 16,
        MatType::Cv16sc2 => 16,
        MatType::Cv16sc3 => 16,
        MatType::Cv16sc4 => 16,
        MatType::Cv32sc1 => 32,
        MatType::Cv32sc2 => 32,
        MatType::Cv32sc3 => 32,
        MatType::Cv32sc4 => 32,
        MatType::Cv32fc1 => 32,
        MatType::Cv32fc2 => 32,
        MatType::Cv32fc3 => 32,
        MatType::Cv32fc4 => 32,
        MatType::Cv64fc1 => 64,
        MatType::Cv64fc2 => 64,
        MatType::Cv64fc3 => 64,
        MatType::Cv64fc4 => 64,
    }
}

/// The number of channels.
pub open spec fn channels_of(typ: MatType) -> u8 {
    match typ {
        MatType::Cv8uc1 => 1,
        MatType::Cv8uc2 => 2,
        MatType::Cv8uc3 => 3,
        MatType::Cv8uc4 => 4,
        MatType::Cv8sc1 => 1,
        MatType::Cv8sc2 => 2,
        MatType::Cv8sc3 => 3,
        MatType::Cv8sc4 => 4,
        MatType::Cv16uc1 => 1,
        MatType::Cv16uc2 => 2,
        MatType::Cv16uc3 => 3,
        MatType::Cv16uc4 => 4,
        MatType::Cv16sc1 => 1,
        MatType::Cv16sc2 => 2,
        MatType::Cv16sc3 => 3,
        MatType::Cv16sc4 => 4,
        MatType::Cv32sc1 => 1,
        MatType::Cv32sc2 => 2,
        MatType::Cv32sc3 => 3,
        MatType::Cv32sc4 => 4,
        MatType::Cv32fc1 => 1,
        MatType::Cv32fc2 => 2,
        MatType::Cv32fc3 => 3,
        MatType::Cv32fc4 => 4,
        MatType::Cv64fc1 => 1,
        MatType::Cv64fc2 => 2,
        MatType::Cv64fc3 => 3,
        MatType::Cv64fc4 => 4,
    }
}

/// The depth code of a channel: 8-bit unsigned 0, 8-bit signed 1, 16-bit unsigned 2,
/// 16-bit signed 3, 32-bit signed 4, 32-bit float 5, 64-bit float 6.
pub open spec fn depth_code_of(typ: MatType) -> i32 {
    match typ {
        MatType::Cv8uc1 => 0,
        MatType::Cv8uc2 => 0,
        MatType::Cv8uc3 => 0,
        MatType::Cv8uc4 => 0,
        MatType::Cv8sc1 => 1,
        MatType::Cv8sc2 => 1,
        MatType::Cv8sc3 => 1,
        MatType::Cv8sc4 => 1,
        MatType::Cv16uc1 => 2,
        MatType::Cv16uc2 => 2,
        MatType::Cv16uc3 => 2,
        MatType::Cv16uc4 => 2,
        MatType::Cv16sc1 => 3,
        MatType::Cv16sc2 => 3,
        MatType::Cv16sc3 => 3,
        MatType::Cv16sc4 => 3,
        MatType::Cv32sc1 => 4,
        MatType::Cv32sc2 => 4,
        MatType::Cv32sc3 => 4,
        MatType::Cv32sc4 => 4,
        MatType::Cv32fc1 => 5,
        MatType::Cv32fc2 => 5,
        MatType::Cv32fc3 => 5,
        MatType::Cv32fc4 => 5,
        MatType::Cv64fc1 => 6,
        MatType::Cv64fc2 => 6,
        MatType::Cv64fc3 => 6,
        MatType::Cv64fc4 => 6,
    }
}

/// The type code of an image matrix: the depth code plus eight times the number of
/// channels less one.
pub open spec fn type_code(typ: MatType) -> int {
    depth_code_of(typ) + 8 * (channels_of(typ) - 1)
}

impl MatType {
    /// The bits of one channel.
    pub fn depth(&self) -> (res: u8)
        ensures
            res == depth_of(*self),
    {
        match self {
            MatType::Cv8uc1 => 8,
            MatType::Cv8uc2 => 8,
            MatType::Cv8uc3 => 8,
            MatType::Cv8uc4 => 8,
            MatType::Cv8sc1 => 8,
            MatType::Cv8sc2 => 8,
            MatType::Cv8sc3 => 8,
            MatType::Cv8sc4 => 8,
            MatType::Cv16uc1 => 16,
            MatType::Cv16uc2 => 16,
            MatType::Cv16uc3 => 16,
            MatType::Cv16uc4 => 16,
            MatType::Cv16sc1 => 16,
            MatType::Cv16sc2 => 16,
            MatType::Cv16sc3 => 16,
            MatType::Cv16sc4 => 16,
            MatType::Cv32sc1 => 32,
            MatType::Cv32sc2 => 32,
            MatType::Cv32sc3 => 32,
            MatType::Cv32sc4 => 32,
            MatType::Cv32fc1 => 32,
            MatType::Cv32fc2 => 32,
            MatType::Cv32fc3 => 32,
            MatType::Cv32fc4 => 32,
            MatType::Cv64fc1 => 64,
            MatType::Cv64fc2 => 64,
            MatType::Cv64fc3 => 64,
            MatType::Cv64fc4 => 64,
        }
    }

    /// The number of channels.
    pub fn channels(&self) -> (res: u8)
        ensures
            res == channels_of(*self),
    {
        match self {
            MatType::Cv8uc1 => 1,
            MatType::Cv8uc2 => 2,
            MatType::Cv8uc3 => 3,
            MatType::Cv8uc4 => 4,
            MatType::Cv8sc1 => 1,
            MatType::Cv8sc2 => 2,
            MatType::Cv8sc3 => 3,
            MatType::Cv8sc4 => 4,
            MatType::Cv16uc1 => 1,
            MatType::Cv16uc2 => 2,
            MatType::Cv16uc3 => 3,
            MatType::Cv16uc4 => 4,
            MatType::Cv16sc1 => 1,
            MatType::Cv16sc2 => 2,
            MatType::Cv16sc3 => 3,
            MatType::Cv16sc4 => 4,
            MatType::Cv32sc1 => 1,
            MatType::Cv32sc2 => 2,
            MatType::Cv32sc3 => 3,
            MatType::Cv32sc4 => 4,
            MatType::Cv32fc1 => 1,
            MatType::Cv32fc2 => 2,
            MatType::Cv32fc3 => 3,
            MatType::Cv32fc4 => 4,
            MatType::Cv64fc1 => 1,
            MatType::Cv64fc2 => 2,
            MatType::Cv64fc3 => 3,
            MatType::Cv64fc4 => 4,
        }
    }

    /// The type code of the matrix element.
    pub fn code(&self) -> (res: i32)
        ensures
            res == type_code(*self),
    {
        match self {
            MatType::Cv8uc1 => 0,
            MatType::Cv8uc2 => 8,
            MatType::Cv8uc3 => 16,
            MatType::Cv8uc4 => 24,
            MatType::Cv8sc1 => 1,
            MatType::Cv8sc2 => 9,
            MatType::Cv8sc3 => 17,
            MatType::Cv8sc4 => 25,
            MatType::Cv16uc1 => 2,
            MatType::Cv16uc2 => 10,
            MatType::Cv16uc3 => 18,
            MatType::Cv16uc4 => 26,
            MatType::Cv16sc1 => 3,
            MatType::Cv16sc2 => 11,
            MatType::Cv16sc3 => 19,
            MatType::Cv16sc4 => 27,
            MatType::Cv32sc1 => 4,
            MatType::Cv32sc2 => 12,
            MatType::Cv32sc3 => 20,
            MatType::Cv32sc4 => 28,
            MatType::Cv32fc1 => 5,
            MatType::Cv32fc2 => 13,
            MatType::Cv32fc3 => 21,
            MatType::Cv32fc4 => 29,
            MatType::Cv64fc1 => 6,
            MatType::Cv64fc2 => 14,
            MatType::Cv64fc3 => 22,
            MatType::Cv64fc4 => 30,
        }
    }
}

/// Different element types have different codes, and every code is below 32.
pub proof fn lemma_codes_distinct(a: MatType, b: MatType)
    ensures
        0 <= type_code(a) < 32,
        type_code(a) == type_code(b) ==> a == b,
        1 <= channels_of(a) <= 4,
{
}

/// The name of a known type code, `CV_<depth>C<channels>`, with the 16-bit float depth
/// (code 7) too.
pub open spec fn depth_label(depth: i32) -> Option<Seq<char>> {
        if depth == 0 {
            Some("CV_8UC1"@)
        } else if depth == 1 {
            Some("CV_8SC1"@)
        } else if depth == 2 {
            Some("CV_16UC1"@)
        } else if depth == 3 {
            Some("CV_16SC1"@)
        } else if depth == 4 {
            Some("CV_32SC1"@)
        } else if depth == 5 {
            Some("CV_32FC1"@)
        } else if depth == 6 {
            Some("CV_64FC1"@)
        } else if depth == 7 {
            Some("CV_16FC1"@)
        } else if depth == 8 {
            Some("CV_8UC2"@)
        } else if depth == 9 {
            Some("CV_8SC2"@)
        } else if depth == 10 {
            Some("CV_16UC2"@)
        } else if depth == 11 {
            Some("CV_16SC2"@)
        } else if depth == 12 {
            Some("CV_32SC2"@)
        } else if depth == 13 {
            Some("CV_32FC2"@)
        } else if depth == 14 {
            Some("CV_64FC2"@)
        } else if depth == 15 {
            Some("CV_16FC2"@)
        } else if depth == 16 {
            Some("CV_8UC3"@)
        } else if depth == 17 {
            Some("CV_8SC3"@)
        } else if depth == 18 {
            Some("CV_16UC3"@)
        } else if depth == 19 {
            Some("CV_16SC3"@)
        } else if depth == 20 {
            Some("CV_32SC3"@)
        } else if depth == 21 {
            Some("CV_32FC3"@)
        } else if depth == 22 {
            Some("CV_64FC3"@)
        } else if depth == 23 {
            Some("CV_16FC3"@)
        } else if depth == 24 {
            Some("CV_8UC4"@)
        } else if depth == 25 {
            Some("CV_8SC4"@)
        } else if depth == 26 {
            Some("CV_16UC4"@)
        } else if depth == 27 {
            Some("CV_16SC4"@)
        } else if depth == 28 {
            Some("CV_32SC4"@)
        } else if depth == 29 {
            Some("CV_32FC4"@)
        } else if depth == 30 {
            Some("CV_64FC4"@)
        } else if depth == 31 {
            Some("CV_16FC4"@)
        } else {
            None
        }
}

/// The decimal digits of a natural number.
pub open spec fn decimal_digits(n: nat) -> Seq<char>
    decreases n,
{
    let digit = (('0' as u8) + (n % 10) as u8) as char;
    if n < 10 {
        seq![digit]
    } else {
        decimal_digits(n / 10).push(digit)
    }
}

/// An integer written in decimal, with a leading `-` when negative.
pub open spec fn decimal(n: int) -> Seq<char> {
    if n < 0 {
        seq!['-'] + decimal_digits((-n) as nat)
    } else {
        decimal_digits(n as nat)
    }
}

/// The text of an unknown type code.
pub open spec fn unknown_label(depth: i32) -> Seq<char> {
    decimal(depth as int) + " - Unknown color depth"@
}

/// `i32::to_string`: the integer in decimal, with a leading `-` when negative, as
/// `Display` for `i32` writes it.
#[verifier::external_body]
fn i32_decimal(depth: i32) -> (res: String)
    ensures
        res@ == decimal(depth as int),
{
    depth.to_string()
}

/// The name of a type code, as in messages about a matrix.
pub fn depth_name(depth: i32) -> (res: String)
    ensures
        depth_label(depth) matches Some(label) ==> res@ == label,
        depth_label(depth) is None ==> res@ == unknown_label(depth),
{
    match depth {
        0 => "CV_8UC1".to_owned(),
        1 => "CV_8SC1".to_owned(),
        2 => "CV_16UC1".to_owned(),
        3 => "CV_16SC1".to_owned(),
        4 => "CV_32SC1".to_owned(),
        5 => "CV_32FC1".to_owned(),
        6 => "CV_64FC1".to_owned(),
        7 => "CV_16FC1".to_owned(),
        8 => "CV_8UC2".to_owned(),
        9 => "CV_8SC2".to_owned(),
        10 => "CV_16UC2".to_owned(),
        11 => "CV_16SC2".to_owned(),
        12 => "CV_32SC2".to_owned(),
        13 => "CV_32FC2".to_owned(),
        14 => "CV_64FC2".to_owned(),
        15 => "CV_16FC2".to_owned(),
        16 => "CV_8UC3".to_owned(),
        17 => "CV_8SC3".to_owned(),
        18 => "CV_16UC3".to_owned(),
        19 => "CV_16SC3".to_owned(),
        20 => "CV_32SC3".to_owned(),
        21 => "CV_32FC3".to_owned(),
        22 => "CV_64FC3".to_owned(),
        23 => "CV_16FC3".to_owned(),
        24 => "CV_8UC4".to_owned(),
        25 => "CV_8SC4".to_owned(),
        26 => "CV_16UC4".to_owned(),
        27 => "CV_16SC4".to_owned(),
        28 => "CV_32SC4".to_owned(),
        29 => "CV_32FC4".to_owned(),
        30 => "CV_64FC4".to_owned(),
        31 => "CV_16FC4".to_owned(),
        _ => i32_decimal(depth).concat(" - Unknown color depth"),
    }
}

} // verus!
