//! The outfit color palette.
//!
//! Thirty fixed colors, stored in a save file as a single color index per
//! dyeable part (see `PlayerPart2`). Each variant is named after the RGB
//! value it renders as; `code` gives a color's index, `from_code` the color
//! of an index, and `rgb` its channel values.

use vstd::prelude::*;

verus! {

/// One of the thirty outfit colors, in palette order.
#[derive(Clone, Copy, Debug, PartialEq, Eq, Structural)]
pub enum OutfitColor {
    _2C1D1D,
    _2E2226,
    _574753,
    _959595,
    _CACACA,
    _E4E4E4,
    _931317,
    _CD2627,
    _DA4E3D,
    _8C3612,
    _B0521C,
    _CB6C17,
    _DE930D,
    _DDB818,
    _EFDC40,
    _3B971A,
    _6FB620,
    _9DD016,
    _255C7A,
    _42B8D3,
    _A2D2DC,
    _252C7A,
    _656CCF,
    _7D8BF4,
    _6C2191,
    _A630D4,
    _C267F2,
    _912174,
    _E320BD,
    _EC7BD9,
}

impl OutfitColor {
    /// The palette index this color is stored as.
    pub open spec fn spec_code(self) -> u8 {
        match self {
            OutfitColor::_2C1D1D => 0,
            OutfitColor::_2E2226 => 1,
            OutfitColor::_574753 => 2,
            OutfitColor::_959595 => 3,
            OutfitColor::_CACACA => 4,
            OutfitColor::_E4E4E4 => 5,
            OutfitColor::_931317 => 6,
            OutfitColor::_CD2627 => 7,
            OutfitColor::_DA4E3D => 8,
            OutfitColor::_8C3612 => 9,
            OutfitColor::_B0521C => 10,
            OutfitColor::_CB6C17 => 11,
            OutfitColor::_DE930D => 12,
            OutfitColor::_DDB818 => 13,
            OutfitColor::_EFDC40 => 14,
            OutfitColor::_3B971A => 15,
            OutfitColor::_6FB620 => 16,
            OutfitColor::_9DD016 => 17,
            OutfitColor::_255C7A => 18,
            OutfitColor::_42B8D3 => 19,
            OutfitColor::_A2D2DC => 20,
            OutfitColor::_252C7A => 21,
            OutfitColor::_656CCF => 22,
            OutfitColor::_7D8BF4 => 23,
            OutfitColor::_6C2191 => 24,
            OutfitColor::_A630D4 => 25,
            OutfitColor::_C267F2 => 26,
            OutfitColor::_912174 => 27,
            OutfitColor::_E320BD => 28,
            OutfitColor::_EC7BD9 => 29,
        }
    }

    pub fn code(&self) -> (r: u8)
        ensures
            r == self.spec_code(),
    {
        match self {
            OutfitColor::_2C1D1D => 0,
            OutfitColor::_2E2226 => 1,
            OutfitColor::_574753 => 2,
            OutfitColor::_959595 => 3,
            OutfitColor::_CACACA => 4,
            OutfitColor::_E4E4E4 => 5,
            OutfitColor::_931317 => 6,
            OutfitColor::_CD2627 => 7,
            OutfitColor::_DA4E3D => 8,
            OutfitColor::_8C3612 => 9,
            OutfitColor::_B0521C => 10,
            OutfitColor::_CB6C17 => 11,
            OutfitColor::_DE930D => 12,
            OutfitColor::_DDB818 => 13,
            OutfitColor::_EFDC40 => 14,
            OutfitColor::_3B971A => 15,
            OutfitColor::_6FB620 => 16,
            OutfitColor::_9DD016 => 17,
            OutfitColor::_255C7A => 18,
            OutfitColor::_42B8D3 => 19,
            OutfitColor::_A2D2DC => 20,
            OutfitColor::_252C7A => 21,
            OutfitColor::_656CCF => 22,
            OutfitColor::_7D8BF4 => 23,
            OutfitColor::_6C2191 => 24,
            OutfitColor::_A630D4 => 25,
            OutfitColor::_C267F2 => 26,
            OutfitColor::_912174 => 27,
            OutfitColor::_E320BD => 28,
            OutfitColor::_EC7BD9 => 29,
        }
    }

    /// The color stored as palette index `code`; an index past the palette
    /// is no color.
    pub fn from_code(code: u8) -> (r: Option<OutfitColor>)
        ensures
            code <= 29 ==> (r matches Some(c) && c.spec_code() == code),
            code > 29 ==> r is None,
    {
        if code == 0 {
            Some(OutfitColor::_2C1D1D)
        } else if code == 1 {
            Some(OutfitColor::_2E2226)
        } else if code == 2 {
            Some(OutfitColor::_574753)
        } else if code == 3 {
            Some(OutfitColor::_959595)
        } else if code == 4 {
            Some(OutfitColor::_CACACA)
        } else if code == 5 {
            Some(OutfitColor::_E4E4E4)
        } else if code == 6 {
            Some(OutfitColor::_931317)
        } else if code == 7 {
            Some(OutfitColor::_CD2627)
        } else if code == 8 {
            Some(OutfitColor::_DA4E3D)
        } else if code == 9 {
            Some(OutfitColor::_8C3612)
        } else if code == 10 {
            Some(OutfitColor::_B0521C)
        } else if code == 11 {
            Some(OutfitColor::_CB6C17)
        } else if code == 12 {
            Some(OutfitColor::_DE930D)
        } else if code == 13 {
            Some(OutfitColor::_DDB818)
        } else if code == 14 {
            Some(OutfitColor::_EFDC40)
        } else if code == 15 {
            Some(OutfitColor::_3B971A)
        } else if code == 16 {
            Some(OutfitColor::_6FB620)
        } else if code == 17 {
            Some(OutfitColor::_9DD016)
        } else if code == 18 {
            Some(OutfitColor::_255C7A)
        } else if code == 19 {
            Some(OutfitColor::_42B8D3)
        } else if code == 20 {
            Some(OutfitColor::_A2D2DC)
        } else if code == 21 {
            Some(OutfitColor::_252C7A)
        } else if code == 22 {
            Some(OutfitColor::_656CCF)
        } else if code == 23 {
            Some(OutfitColor::_7D8BF4)
        } else if code == 24 {
            Some(OutfitColor::_6C2191)
        } else if code == 25 {
            Some(OutfitColor::_A630D4)
        } else if code == 26 {
            Some(OutfitColor::_C267F2)
        } else if code == 27 {
            Some(OutfitColor::_912174)
        } else if code == 28 {
            Some(OutfitColor::_E320BD)
        } else if code == 29 {
            Some(OutfitColor::_EC7BD9)
        } else {
            None
        }
    }

    /// The red, green and blue channels this color renders as.
    pub open spec fn spec_rgb(self) -> (u8, u8, u8) {
        match self {
            OutfitColor::_2C1D1D => (0x2Cu8, 0x1Du8, 0x1Du8),
            OutfitColor::_2E2226 => (0x2Eu8, 0x22u8, 0x26u8),
            OutfitColor::_574753 => (0x57u8, 0x47u8, 0x53u8),
            OutfitColor::_959595 => (0x95u8, 0x95u8, 0x95u8),
            OutfitColor::_CACACA => (0xCAu8, 0xCAu8, 0xCAu8),
            OutfitColor::_E4E4E4 => (0xE4u8, 0xE4u8, 0xE4u8),
            OutfitColor::_931317 => (0x93u8, 0x13u8, 0x17u8),
            OutfitColor::_CD2627 => (0xCDu8, 0x26u8, 0x27u8),
            OutfitColor::_DA4E3D => (0xDAu8, 0x4Eu8, 0x3Du8),
            OutfitColor::_8C3612 => (0x8Cu8, 0x36u8, 0x12u8),
            OutfitColor::_B0521C => (0xB0u8, 0x52u8, 0x1Cu8),
            OutfitColor::_CB6C17 => (0xCBu8, 0x6Cu8, 0x17u8),
            OutfitColor::_DE930D => (0xDEu8, 0x93u8, 0x0Du8),
            OutfitColor::_DDB818 => (0xDDu8, 0xB8u8, 0x18u8),
            OutfitColor::_EFDC40 => (0xEFu8, 0xDCu8, 0x40u8),
            OutfitColor::_3B971A => (0x3Bu8, 0x97u8, 0x1Au8),
            OutfitColor::_6FB620 => (0x6Fu8, 0xB6u8, 0x20u8),
            OutfitColor::_9DD016 => (0x9Du8, 0xD0u8, 0x16u8),
            OutfitColor::_255C7A => (0x25u8, 0x5Cu8, 0x7Au8),
            OutfitColor::_42B8D3 => (0x42u8, 0xB8u8, 0xD3u8),
            OutfitColor::_A2D2DC => (0xA2u8, 0xD2u8, 0xDCu8),
            OutfitColor::_252C7A => (0x25u8, 0x2Cu8, 0x7Au8),
            OutfitColor::_656CCF => (0x65u8, 0x6Cu8, 0xCFu8),
            OutfitColor::_7D8BF4 => (0x7Du8, 0x8Bu8, 0xF4u8),
            OutfitColor::_6C2191 => (0x6Cu8, 0x21u8, 0x91u8),
            OutfitColor::_A630D4 => (0xA6u8, 0x30u8, 0xD4u8),
            OutfitColor::_C267F2 => (0xC2u8, 0x67u8, 0xF2u8),
            OutfitColor::_912174 => (0x91u8, 0x21u8, 0x74u8),
            OutfitColor::_E320BD => (0xE3u8, 0x20u8, 0xBDu8),
            OutfitColor::_EC7BD9 => (0xECu8, 0x7Bu8, 0xD9u8),
        }
    }

    pub fn rgb(&self) -> (r: (u8, u8, u8))
        ensures
            r == self.spec_rgb(),
    {
        match self {
            OutfitColor::_2C1D1D => (0x2Cu8, 0x1Du8, 0x1Du8),
            OutfitColor::_2E2226 => (0x2Eu8, 0x22u8, 0x26u8),
            OutfitColor::_574753 => (0x57u8, 0x47u8, 0x53u8),
            OutfitColor::_959595 => (0x95u8, 0x95u8, 0x95u8),
            OutfitColor::_CACACA => (0xCAu8, 0xCAu8, 0xCAu8),
            OutfitColor::_E4E4E4 => (0xE4u8, 0xE4u8, 0xE4u8),
            OutfitColor::_931317 => (0x93u8, 0x13u8, 0x17u8),
            OutfitColor::_CD2627 => (0xCDu8, 0x26u8, 0x27u8),
            OutfitColor::_DA4E3D => (0xDAu8, 0x4Eu8, 0x3Du8),
            OutfitColor::_8C3612 => (0x8Cu8, 0x36u8, 0x12u8),
            OutfitColor::_B0521C => (0xB0u8, 0x52u8, 0x1Cu8),
            OutfitColor::_CB6C17 => (0xCBu8, 0x6Cu8, 0x17u8),
            OutfitColor::_DE930D => (0xDEu8, 0x93u8, 0x0Du8),
            OutfitColor::_DDB818 => (0xDDu8, 0xB8u8, 0x18u8),
            OutfitColor::_EFDC40 => (0xEFu8, 0xDCu8, 0x40u8),
            OutfitColor::_3B971A => (0x3Bu8, 0x97u8, 0x1Au8),
            OutfitColor::_6FB620 => (0x6Fu8, 0xB6u8, 0x20u8),
            OutfitColor::_9DD016 => (0x9Du8, 0xD0u8, 0x16u8),
            OutfitColor::_255C7A => (0x25u8, 0x5Cu8, 0x7Au8),
            OutfitColor::_42B8D3 => (0x42u8, 0xB8u8, 0xD3u8),
            OutfitColor::_A2D2DC => (0xA2u8, 0xD2u8, 0xDCu8),
            OutfitColor::_252C7A => (0x25u8, 0x2Cu8, 0x7Au8),
            OutfitColor::_656CCF => (0x65u8, 0x6Cu8, 0xCFu8),
            OutfitColor::_7D8BF4 => (0x7Du8, 0x8Bu8, 0xF4u8),
            OutfitColor::_6C2191 => (0x6Cu8, 0x21u8, 0x91u8),
            OutfitColor::_A630D4 => (0xA6u8, 0x30u8, 0xD4u8),
            OutfitColor::_C267F2 => (0xC2u8, 0x67u8, 0xF2u8),
            OutfitColor::_912174 => (0x91u8, 0x21u8, 0x74u8),
            OutfitColor::_E320BD => (0xE3u8, 0x20u8, 0xBDu8),
            OutfitColor::_EC7BD9 => (0xECu8, 0x7Bu8, 0xD9u8),
        }
    }
}

} // verus!
