//! Speaker positions a channel map can assign to the channels of a stream.

use vstd::prelude::*;

verus! {

/// The largest channel count a channel map or volume can carry.
pub const CHANNELS_MAX: usize = 32;

/// One speaker position inside a channel map.
#[allow(non_camel_case_types)]
#[derive(Debug, Clone, Copy, PartialEq, Eq, Structural)]
pub enum ChannelPosition {
    Mono,
    FrontLeft,
    FrontRight,
    FrontCenter,
    RearCenter,
    RearLeft,
    RearRight,
    /// Low-frequency effects
    Lfe,
    FrontLeftOfCenter,
    FrontRightOfCenter,
    SideLeft,
    SideRight,
    Aux0,
    Aux1,
    Aux2,
    Aux3,
    Aux4,
    Aux5,
    Aux6,
    Aux7,
    Aux8,
    Aux9,
    Aux10,
    Aux11,
    Aux12,
    Aux13,
    Aux14,
    Aux15,
    Aux16,
    Aux17,
    Aux18,
    Aux19,
    Aux20,
    Aux21,
    Aux22,
    Aux23,
    Aux24,
    Aux25,
    Aux26,
    Aux27,
    Aux28,
    Aux29,
    Aux30,
    Aux31,
    TopCenter,
    TopFrontLeft,
    TopFrontRight,
    TopFrontCenter,
    TopRearLeft,
    TopRearRight,
    TopRearCenter,
    /// An invalid position
    Invalid,
}

impl ChannelPosition {
    /// The code that stands for this value on the wire.
    pub open spec fn code(self) -> u8 {
        match self {
            ChannelPosition::Mono => 0,
            ChannelPosition::FrontLeft => 1,
            ChannelPosition::FrontRight => 2,
            ChannelPosition::FrontCenter => 3,
            ChannelPosition::RearCenter => 4,
            ChannelPosition::RearLeft => 5,
            ChannelPosition::RearRight => 6,
            ChannelPosition::Lfe => 7,
            ChannelPosition::FrontLeftOfCenter => 8,
            ChannelPosition::FrontRightOfCenter => 9,
            ChannelPosition::SideLeft => 10,
            ChannelPosition::SideRight => 11,
            ChannelPosition::Aux0 => 12,
            ChannelPosition::Aux1 => 13,
            ChannelPosition::Aux2 => 14,
            ChannelPosition::Aux3 => 15,
            ChannelPosition::Aux4 => 16,
            ChannelPosition::Aux5 => 17,
            ChannelPosition::Aux6 => 18,
            ChannelPosition::Aux7 => 19,
            ChannelPosition::Aux8 => 20,
            ChannelPosition::Aux9 => 21,
            ChannelPosition::Aux10 => 22,
            ChannelPosition::Aux11 => 23,
            ChannelPosition::Aux12 => 24,
            ChannelPosition::Aux13 => 25,
            ChannelPosition::Aux14 => 26,
            ChannelPosition::Aux15 => 27,
            ChannelPosition::Aux16 => 28,
            ChannelPosition::Aux17 => 29,
            ChannelPosition::Aux18 => 30,
            ChannelPosition::Aux19 => 31,
            ChannelPosition::Aux20 => 32,
            ChannelPosition::Aux21 => 33,
            ChannelPosition::Aux22 => 34,
            ChannelPosition::Aux23 => 35,
            ChannelPosition::Aux24 => 36,
            ChannelPosition::Aux25 => 37,
            ChannelPosition::Aux26 => 38,
            ChannelPosition::Aux27 => 39,
            ChannelPosition::Aux28 => 40,
            ChannelPosition::Aux29 => 41,
            ChannelPosition::Aux30 => 42,
            ChannelPosition::Aux31 => 43,
            ChannelPosition::TopCenter => 44,
            ChannelPosition::TopFrontLeft => 45,
            ChannelPosition::TopFrontRight => 46,
            ChannelPosition::TopFrontCenter => 47,
            ChannelPosition::TopRearLeft => 48,
            ChannelPosition::TopRearRight => 49,
            ChannelPosition::TopRearCenter => 50,
            ChannelPosition::Invalid => 0xFF,
        }
    }

    /// The value a wire code stands for, if any.
    pub open spec fn from_code(c: u8) -> Option<ChannelPosition> {
        match c {
            0 => Some(ChannelPosition::Mono),
            1 => Some(ChannelPosition::FrontLeft),
            2 => Some(ChannelPosition::FrontRight),
            3 => Some(ChannelPosition::FrontCenter),
            4 => Some(ChannelPosition::RearCenter),
            5 => Some(ChannelPosition::RearLeft),
            6 => Some(ChannelPosition::RearRight),
            7 => Some(ChannelPosition::Lfe),
            8 => Some(ChannelPosition::FrontLeftOfCenter),
            9 => Some(ChannelPosition::FrontRightOfCenter),
            10 => Some(ChannelPosition::SideLeft),
            11 => Some(ChannelPosition::SideRight),
            12 => Some(ChannelPosition::Aux0),
            13 => Some(ChannelPosition::Aux1),
            14 => Some(ChannelPosition::Aux2),
            15 => Some(ChannelPosition::Aux3),
            16 => Some(ChannelPosition::Aux4),
            17 => Some(ChannelPosition::Aux5),
            18 => Some(ChannelPosition::Aux6),
            19 => Some(ChannelPosition::Aux7),
            20 => Some(ChannelPosition::Aux8),
            21 => Some(ChannelPosition::Aux9),
            22 => Some(ChannelPosition::Aux10),
            23 => Some(ChannelPosition::Aux11),
            24 => Some(ChannelPosition::Aux12),
            25 => Some(ChannelPosition::Aux13),
            26 => Some(ChannelPosition::Aux14),
            27 => Some(ChannelPosition::Aux15),
            28 => Some(ChannelPosition::Aux16),
            29 => Some(ChannelPosition::Aux17),
            30 => Some(ChannelPosition::Aux18),
            31 => Some(ChannelPosition::Aux19),
            32 => Some(ChannelPosition::Aux20),
            33 => Some(ChannelPosition::Aux21),
            34 => Some(ChannelPosition::Aux22),
            35 => Some(ChannelPosition::Aux23),
            36 => Some(ChannelPosition::Aux24),
            37 => Some(ChannelPosition::Aux25),
            38 => Some(ChannelPosition::Aux26),
            39 => Some(ChannelPosition::Aux27),
            40 => Some(ChannelPosition::Aux28),
            41 => Some(ChannelPosition::Aux29),
            42 => Some(ChannelPosition::Aux30),
            43 => Some(ChannelPosition::Aux31),
            44 => Some(ChannelPosition::TopCenter),
            45 => Some(ChannelPosition::TopFrontLeft),
            46 => Some(ChannelPosition::TopFrontRight),
            47 => Some(ChannelPosition::TopFrontCenter),
            48 => Some(ChannelPosition::TopRearLeft),
            49 => Some(ChannelPosition::TopRearRight),
            50 => Some(ChannelPosition::TopRearCenter),
            0xFF => Some(ChannelPosition::Invalid),
            _ => None,
        }
    }

    pub fn to_u8(self) -> (c: u8)
        ensures
            c == self.code(),
    {
        match self {
            ChannelPosition::Mono => 0,
            ChannelPosition::FrontLeft => 1,
            ChannelPosition::FrontRight => 2,
            ChannelPosition::FrontCenter => 3,
            ChannelPosition::RearCenter => 4,
            ChannelPosition::RearLeft => 5,
            ChannelPosition::RearRight => 6,
            ChannelPosition::Lfe => 7,
            ChannelPosition::FrontLeftOfCenter => 8,
            ChannelPosition::FrontRightOfCenter => 9,
            ChannelPosition::SideLeft => 10,
            ChannelPosition::SideRight => 11,
            ChannelPosition::Aux0 => 12,
            ChannelPosition::Aux1 => 13,
            ChannelPosition::Aux2 => 14,
            ChannelPosition::Aux3 => 15,
            ChannelPosition::Aux4 => 16,
            ChannelPosition::Aux5 => 17,
            ChannelPosition::Aux6 => 18,
            ChannelPosition::Aux7 => 19,
            ChannelPosition::Aux8 => 20,
            ChannelPosition::Aux9 => 21,
            ChannelPosition::Aux10 => 22,
            ChannelPosition::Aux11 => 23,
            ChannelPosition::Aux12 => 24,
            ChannelPosition::Aux13 => 25,
            ChannelPosition::Aux14 => 26,
            ChannelPosition::Aux15 => 27,
            ChannelPosition::Aux16 => 28,
            ChannelPosition::Aux17 => 29,
            ChannelPosition::Aux18 => 30,
            ChannelPosition::Aux19 => 31,
            ChannelPosition::Aux20 => 32,
            ChannelPosition::Aux21 => 33,
            ChannelPosition::Aux22 => 34,
            ChannelPosition::Aux23 => 35,
            ChannelPosition::Aux24 => 36,
            ChannelPosition::Aux25 => 37,
            ChannelPosition::Aux26 => 38,
            ChannelPosition::Aux27 => 39,
            ChannelPosition::Aux28 => 40,
            ChannelPosition::Aux29 => 41,
            ChannelPosition::Aux30 => 42,
            ChannelPosition::Aux31 => 43,
            ChannelPosition::TopCenter => 44,
            ChannelPosition::TopFrontLeft => 45,
            ChannelPosition::TopFrontRight => 46,
            ChannelPosition::TopFrontCenter => 47,
            ChannelPosition::TopRearLeft => 48,
            ChannelPosition::TopRearRight => 49,
            ChannelPosition::TopRearCenter => 50,
            ChannelPosition::Invalid => 0xFF,
        }
    }

    pub fn from_u8(c: u8) -> (r: Option<ChannelPosition>)
        ensures
            r == ChannelPosition::from_code(c),
    {
        match c {
            0 => Some(ChannelPosition::Mono),
            1 => Some(ChannelPosition::FrontLeft),
            2 => Some(ChannelPosition::FrontRight),
            3 => Some(ChannelPosition::FrontCenter),
            4 => Some(ChannelPosition::RearCenter),
            5 => Some(ChannelPosition::RearLeft),
            6 => Some(ChannelPosition::RearRight),
            7 => Some(ChannelPosition::Lfe),
            8 => Some(ChannelPosition::FrontLeftOfCenter),
            9 => Some(ChannelPosition::FrontRightOfCenter),
            10 => Some(ChannelPosition::SideLeft),
            11 => Some(ChannelPosition::SideRight),
            12 => Some(ChannelPosition::Aux0),
            13 => Some(ChannelPosition::Aux1),
            14 => Some(ChannelPosition::Aux2),
            15 => Some(ChannelPosition::Aux3),
            16 => Some(ChannelPosition::Aux4),
            17 => Some(ChannelPosition::Aux5),
            18 => Some(ChannelPosition::Aux6),
            19 => Some(ChannelPosition::Aux7),
            20 => Some(ChannelPosition::Aux8),
            21 => Some(ChannelPosition::Aux9),
            22 => Some(ChannelPosition::Aux10),
            23 => Some(ChannelPosition::Aux11),
            24 => Some(ChannelPosition::Aux12),
            25 => Some(ChannelPosition::Aux13),
            26 => Some(ChannelPosition::Aux14),
            27 => Some(ChannelPosition::Aux15),
            28 => Some(ChannelPosition::Aux16),
            29 => Some(ChannelPosition::Aux17),
            30 => Some(ChannelPosition::Aux18),
            31 => Some(ChannelPosition::Aux19),
            32 => Some(ChannelPosition::Aux20),
            33 => Some(ChannelPosition::Aux21),
            34 => Some(ChannelPosition::Aux22),
            35 => Some(ChannelPosition::Aux23),
            36 => Some(ChannelPosition::Aux24),
            37 => Some(ChannelPosition::Aux25),
            38 => Some(ChannelPosition::Aux26),
            39 => Some(ChannelPosition::Aux27),
            40 => Some(ChannelPosition::Aux28),
            41 => Some(ChannelPosition::Aux29),
            42 => Some(ChannelPosition::Aux30),
            43 => Some(ChannelPosition::Aux31),
            44 => Some(ChannelPosition::TopCenter),
            45 => Some(ChannelPosition::TopFrontLeft),
            46 => Some(ChannelPosition::TopFrontRight),
            47 => Some(ChannelPosition::TopFrontCenter),
            48 => Some(ChannelPosition::TopRearLeft),
            49 => Some(ChannelPosition::TopRearRight),
            50 => Some(ChannelPosition::TopRearCenter),
            0xFF => Some(ChannelPosition::Invalid),
            _ => None,
        }
    }

    /// Decoding the code of a value gives that value back.
    pub proof fn lemma_code_round_trip(self)
        ensures
            ChannelPosition::from_code(self.code()) == Some(self),
    {
    }

    /// Encoding a decoded code gives that code back.
    pub proof fn lemma_from_code_round_trip(c: u8)
        ensures
            ChannelPosition::from_code(c) matches Some(v) ==> v.code() == c,
    {
    }


}

} // verus!
