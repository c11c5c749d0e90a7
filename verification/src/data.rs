use vstd::prelude::*;
use crate::conf::ConfError;
use crate::traits::{AsData, FromData, TryFromData};

verus! {

/// The greatest year the library works with; far below the limit of the
/// calendar crate the weekday primitive comes from.
pub const YEAR_MAX: i32 = 200000;

/// Whether `y` is a leap year of the proleptic Gregorian calendar.
pub open spec fn leap_year(y: int) -> bool {
    y % 4 == 0 && (y % 100 != 0 || y % 400 == 0)
}

/// The number of days of month `m` of year `y`.
pub open spec fn month_length_spec(y: int, m: int) -> int {
    if m == 2 {
        if leap_year(y) {
            29
        } else {
            28
        }
    } else if m == 4 || m == 6 || m == 9 || m == 11 {
        30
    } else {
        31
    }
}

/// A day of the week, Monday = 1 through Sunday = 7.
#[derive(Copy, Clone, Debug, Eq, PartialEq, Structural)]
pub enum WeekDay {
    W1, W2, W3, W4, W5, W6, W7,
}

impl AsData for WeekDay {
    open spec fn data_spec(&self) -> u64 {
        match *self {
            WeekDay::W1 => 1,
            WeekDay::W2 => 2,
            WeekDay::W3 => 3,
            WeekDay::W4 => 4,
            WeekDay::W5 => 5,
            WeekDay::W6 => 6,
            WeekDay::W7 => 7,
        }
    }

    fn as_data(self) -> (r: u64) {
        match self {
            WeekDay::W1 => 1,
            WeekDay::W2 => 2,
            WeekDay::W3 => 3,
            WeekDay::W4 => 4,
            WeekDay::W5 => 5,
            WeekDay::W6 => 6,
            WeekDay::W7 => 7,
        }
    }
}

impl FromData for WeekDay {
    open spec fn valid_data(v: u64) -> bool {
        1 <= v <= 7
    }

    proof fn lemma_data_valid(&self) {
        match *self {
            WeekDay::W1 => {},
            WeekDay::W2 => {},
            WeekDay::W3 => {},
            WeekDay::W4 => {},
            WeekDay::W5 => {},
            WeekDay::W6 => {},
            WeekDay::W7 => {},
        }
    }

    fn from_data(val: u64) -> (r: Self) {
        match val {
            1 => WeekDay::W1,
            2 => WeekDay::W2,
            3 => WeekDay::W3,
            4 => WeekDay::W4,
            5 => WeekDay::W5,
            6 => WeekDay::W6,
            7 => WeekDay::W7,
            _ => WeekDay::W1,
        }
    }
}

impl TryFromData for WeekDay {
    fn try_from_data(val: u64) -> (r: Result<Self, ConfError>) {
        if val >= 1 && val <= 7 {
            Ok(Self::from_data(val))
        } else {
            Err(ConfError::OutOfRange)
        }
    }
}

/// A day of the month, in [1, 31].
#[derive(Copy, Clone, Debug, Eq, PartialEq, Structural)]
pub enum MonthDay {
    D1, D2, D3, D4, D5, D6, D7, D8, D9, D10, D11, D12, D13, D14, D15, D16, D17, D18, D19, D20, D21, D22, D23, D24, D25, D26, D27, D28, D29, D30, D31,
}

impl AsData for MonthDay {
    open spec fn data_spec(&self) -> u64 {
        match *self {
            MonthDay::D1 => 1,
            MonthDay::D2 => 2,
            MonthDay::D3 => 3,
            MonthDay::D4 => 4,
            MonthDay::D5 => 5,
            MonthDay::D6 => 6,
            MonthDay::D7 => 7,
            MonthDay::D8 => 8,
            MonthDay::D9 => 9,
            MonthDay::D10 => 10,
            MonthDay::D11 => 11,
            MonthDay::D12 => 12,
            MonthDay::D13 => 13,
            MonthDay::D14 => 14,
            MonthDay::D15 => 15,
            MonthDay::D16 => 16,
            MonthDay::D17 => 17,
            MonthDay::D18 => 18,
            MonthDay::D19 => 19,
            MonthDay::D20 => 20,
            MonthDay::D21 => 21,
            MonthDay::D22 => 22,
            MonthDay::D23 => 23,
            MonthDay::D24 => 24,
            MonthDay::D25 => 25,
            MonthDay::D26 => 26,
            MonthDay::D27 => 27,
            MonthDay::D28 => 28,
            MonthDay::D29 => 29,
            MonthDay::D30 => 30,
            MonthDay::D31 => 31,
        }
    }

    fn as_data(self) -> (r: u64) {
        match self {
            MonthDay::D1 => 1,
            MonthDay::D2 => 2,
            MonthDay::D3 => 3,
            MonthDay::D4 => 4,
            MonthDay::D5 => 5,
            MonthDay::D6 => 6,
            MonthDay::D7 => 7,
            MonthDay::D8 => 8,
            MonthDay::D9 => 9,
            MonthDay::D10 => 10,
            MonthDay::D11 => 11,
            MonthDay::D12 => 12,
            MonthDay::D13 => 13,
            MonthDay::D14 => 14,
            MonthDay::D15 => 15,
            MonthDay::D16 => 16,
            MonthDay::D17 => 17,
            MonthDay::D18 => 18,
            MonthDay::D19 => 19,
            MonthDay::D20 => 20,
            MonthDay::D21 => 21,
            MonthDay::D22 => 22,
            MonthDay::D23 => 23,
            MonthDay::D24 => 24,
            MonthDay::D25 => 25,
            MonthDay::D26 => 26,
            MonthDay::D27 => 27,
            MonthDay::D28 => 28,
            MonthDay::D29 => 29,
            MonthDay::D30 => 30,
            MonthDay::D31 => 31,
        }
    }
}

impl FromData for MonthDay {
    open spec fn valid_data(v: u64) -> bool {
        1 <= v <= 31
    }

    proof fn lemma_data_valid(&self) {
        match *self {
            MonthDay::D1 => {},
            MonthDay::D2 => {},
            MonthDay::D3 => {},
            MonthDay::D4 => {},
            MonthDay::D5 => {},
            MonthDay::D6 => {},
            MonthDay::D7 => {},
            MonthDay::D8 => {},
            MonthDay::D9 => {},
            MonthDay::D10 => {},
            MonthDay::D11 => {},
            MonthDay::D12 => {},
            MonthDay::D13 => {},
            MonthDay::D14 => {},
            MonthDay::D15 => {},
            MonthDay::D16 => {},
            MonthDay::D17 => {},
            MonthDay::D18 => {},
            MonthDay::D19 => {},
            MonthDay::D20 => {},
            MonthDay::D21 => {},
            MonthDay::D22 => {},
            MonthDay::D23 => {},
            MonthDay::D24 => {},
            MonthDay::D25 => {},
            MonthDay::D26 => {},
            MonthDay::D27 => {},
            MonthDay::D28 => {},
            MonthDay::D29 => {},
            MonthDay::D30 => {},
            MonthDay::D31 => {},
        }
    }

    fn from_data(val: u64) -> (r: Self) {
        match val {
            1 => MonthDay::D1,
            2 => MonthDay::D2,
            3 => MonthDay::D3,
            4 => MonthDay::D4,
            5 => MonthDay::D5,
            6 => MonthDay::D6,
            7 => MonthDay::D7,
            8 => MonthDay::D8,
            9 => MonthDay::D9,
            10 => MonthDay::D10,
            11 => MonthDay::D11,
            12 => MonthDay::D12,
            13 => MonthDay::D13,
            14 => MonthDay::D14,
            15 => MonthDay::D15,
            16 => MonthDay::D16,
            17 => MonthDay::D17,
            18 => MonthDay::D18,
            19 => MonthDay::D19,
            20 => MonthDay::D20,
            21 => MonthDay::D21,
            22 => MonthDay::D22,
            23 => MonthDay::D23,
            24 => MonthDay::D24,
            25 => MonthDay::D25,
            26 => MonthDay::D26,
            27 => MonthDay::D27,
            28 => MonthDay::D28,
            29 => MonthDay::D29,
            30 => MonthDay::D30,
            31 => MonthDay::D31,
            _ => MonthDay::D1,
        }
    }
}

impl TryFromData for MonthDay {
    fn try_from_data(val: u64) -> (r: Result<Self, ConfError>) {
        if val >= 1 && val <= 31 {
            Ok(Self::from_data(val))
        } else {
            Err(ConfError::OutOfRange)
        }
    }
}

/// An hour of the day, in [0, 23].
#[derive(Copy, Clone, Debug, Eq, PartialEq, Structural)]
pub enum Hour {
    H0, H1, H2, H3, H4, H5, H6, H7, H8, H9, H10, H11, H12, H13, H14, H15, H16, H17, H18, H19, H20, H21, H22, H23,
}

impl AsData for Hour {
    open spec fn data_spec(&self) -> u64 {
        match *self {
            Hour::H0 => 0,
            Hour::H1 => 1,
            Hour::H2 => 2,
            Hour::H3 => 3,
            Hour::H4 => 4,
            Hour::H5 => 5,
            Hour::H6 => 6,
            Hour::H7 => 7,
            Hour::H8 => 8,
            Hour::H9 => 9,
            Hour::H10 => 10,
            Hour::H11 => 11,
            Hour::H12 => 12,
            Hour::H13 => 13,
            Hour::H14 => 14,
            Hour::H15 => 15,
            Hour::H16 => 16,
            Hour::H17 => 17,
            Hour::H18 => 18,
            Hour::H19 => 19,
            Hour::H20 => 20,
            Hour::H21 => 21,
            Hour::H22 => 22,
            Hour::H23 => 23,
        }
    }

    fn as_data(self) -> (r: u64) {
        match self {
            Hour::H0 => 0,
            Hour::H1 => 1,
            Hour::H2 => 2,
            Hour::H3 => 3,
            Hour::H4 => 4,
            Hour::H5 => 5,
            Hour::H6 => 6,
            Hour::H7 => 7,
            Hour::H8 => 8,
            Hour::H9 => 9,
            Hour::H10 => 10,
            Hour::H11 => 11,
            Hour::H12 => 12,
            Hour::H13 => 13,
            Hour::H14 => 14,
            Hour::H15 => 15,
            Hour::H16 => 16,
            Hour::H17 => 17,
            Hour::H18 => 18,
            Hour::H19 => 19,
            Hour::H20 => 20,
            Hour::H21 => 21,
            Hour::H22 => 22,
            Hour::H23 => 23,
        }
    }
}

impl FromData for Hour {
    open spec fn valid_data(v: u64) -> bool {
        v <= 23
    }

    proof fn lemma_data_valid(&self) {
        match *self {
            Hour::H0 => {},
            Hour::H1 => {},
            Hour::H2 => {},
            Hour::H3 => {},
            Hour::H4 => {},
            Hour::H5 => {},
            Hour::H6 => {},
            Hour::H7 => {},
            Hour::H8 => {},
            Hour::H9 => {},
            Hour::H10 => {},
            Hour::H11 => {},
            Hour::H12 => {},
            Hour::H13 => {},
            Hour::H14 => {},
            Hour::H15 => {},
            Hour::H16 => {},
            Hour::H17 => {},
            Hour::H18 => {},
            Hour::H19 => {},
            Hour::H20 => {},
            Hour::H21 => {},
            Hour::H22 => {},
            Hour::H23 => {},
        }
    }

    fn from_data(val: u64) -> (r: Self) {
        match val {
            0 => Hour::H0,
            1 => Hour::H1,
            2 => Hour::H2,
            3 => Hour::H3,
            4 => Hour::H4,
            5 => Hour::H5,
            6 => Hour::H6,
            7 => Hour::H7,
            8 => Hour::H8,
            9 => Hour::H9,
            10 => Hour::H10,
            11 => Hour::H11,
            12 => Hour::H12,
            13 => Hour::H13,
            14 => Hour::H14,
            15 => Hour::H15,
            16 => Hour::H16,
            17 => Hour::H17,
            18 => Hour::H18,
            19 => Hour::H19,
            20 => Hour::H20,
            21 => Hour::H21,
            22 => Hour::H22,
            23 => Hour::H23,
            _ => Hour::H0,
        }
    }
}

impl TryFromData for Hour {
    fn try_from_data(val: u64) -> (r: Result<Self, ConfError>) {
        if val <= 23 {
            Ok(Self::from_data(val))
        } else {
            Err(ConfError::OutOfRange)
        }
    }
}

/// A minute of the hour, in [0, 59].
#[derive(Copy, Clone, Debug, Eq, PartialEq, Structural)]
pub enum Minuter {
    M0, M1, M2, M3, M4, M5, M6, M7, M8, M9, M10, M11, M12, M13, M14, M15, M16, M17, M18, M19, M20, M21, M22, M23, M24, M25, M26, M27, M28, M29, M30, M31, M32, M33, M34, M35, M36, M37, M38, M39, M40, M41, M42, M43, M44, M45, M46, M47, M48, M49, M50, M51, M52, M53, M54, M55, M56, M57, M58, M59,
}

impl AsData for Minuter {
    open spec fn data_spec(&self) -> u64 {
        match *self {
            Minuter::M0 => 0,
            Minuter::M1 => 1,
            Minuter::M2 => 2,
            Minuter::M3 => 3,
            Minuter::M4 => 4,
            Minuter::M5 => 5,
            Minuter::M6 => 6,
            Minuter::M7 => 7,
            Minuter::M8 => 8,
            Minuter::M9 => 9,
            Minuter::M10 => 10,
            Minuter::M11 => 11,
            Minuter::M12 => 12,
            Minuter::M13 => 13,
            Minuter::M14 => 14,
            Minuter::M15 => 15,
            Minuter::M16 => 16,
            Minuter::M17 => 17,
            Minuter::M18 => 18,
            Minuter::M19 => 19,
            Minuter::M20 => 20,
            Minuter::M21 => 21,
            Minuter::M22 => 22,
            Minuter::M23 => 23,
            Minuter::M24 => 24,
            Minuter::M25 => 25,
            Minuter::M26 => 26,
            Minuter::M27 => 27,
            Minuter::M28 => 28,
            Minuter::M29 => 29,
            Minuter::M30 => 30,
            Minuter::M31 => 31,
            Minuter::M32 => 32,
            Minuter::M33 => 33,
            Minuter::M34 => 34,
            Minuter::M35 => 35,
            Minuter::M36 => 36,
            Minuter::M37 => 37,
            Minuter::M38 => 38,
            Minuter::M39 => 39,
            Minuter::M40 => 40,
            Minuter::M41 => 41,
            Minuter::M42 => 42,
            Minuter::M43 => 43,
            Minuter::M44 => 44,
            Minuter::M45 => 45,
            Minuter::M46 => 46,
            Minuter::M47 => 47,
            Minuter::M48 => 48,
            Minuter::M49 => 49,
            Minuter::M50 => 50,
            Minuter::M51 => 51,
            Minuter::M52 => 52,
            Minuter::M53 => 53,
            Minuter::M54 => 54,
            Minuter::M55 => 55,
            Minuter::M56 => 56,
            Minuter::M57 => 57,
            Minuter::M58 => 58,
            Minuter::M59 => 59,
        }
    }

    fn as_data(self) -> (r: u64) {
        match self {
            Minuter::M0 => 0,
            Minuter::M1 => 1,
            Minuter::M2 => 2,
            Minuter::M3 => 3,
            Minuter::M4 => 4,
            Minuter::M5 => 5,
            Minuter::M6 => 6,
            Minuter::M7 => 7,
            Minuter::M8 => 8,
            Minuter::M9 => 9,
            Minuter::M10 => 10,
            Minuter::M11 => 11,
            Minuter::M12 => 12,
            Minuter::M13 => 13,
            Minuter::M14 => 14,
            Minuter::M15 => 15,
            Minuter::M16 => 16,
            Minuter::M17 => 17,
            Minuter::M18 => 18,
            Minuter::M19 => 19,
            Minuter::M20 => 20,
            Minuter::M21 => 21,
            Minuter::M22 => 22,
            Minuter::M23 => 23,
            Minuter::M24 => 24,
            Minuter::M25 => 25,
            Minuter::M26 => 26,
            Minuter::M27 => 27,
            Minuter::M28 => 28,
            Minuter::M29 => 29,
            Minuter::M30 => 30,
            Minuter::M31 => 31,
            Minuter::M32 => 32,
            Minuter::M33 => 33,
            Minuter::M34 => 34,
            Minuter::M35 => 35,
            Minuter::M36 => 36,
            Minuter::M37 => 37,
            Minuter::M38 => 38,
            Minuter::M39 => 39,
            Minuter::M40 => 40,
            Minuter::M41 => 41,
            Minuter::M42 => 42,
            Minuter::M43 => 43,
            Minuter::M44 => 44,
            Minuter::M45 => 45,
            Minuter::M46 => 46,
            Minuter::M47 => 47,
            Minuter::M48 => 48,
            Minuter::M49 => 49,
            Minuter::M50 => 50,
            Minuter::M51 => 51,
            Minuter::M52 => 52,
            Minuter::M53 => 53,
            Minuter::M54 => 54,
            Minuter::M55 => 55,
            Minuter::M56 => 56,
            Minuter::M57 => 57,
            Minuter::M58 => 58,
            Minuter::M59 => 59,
        }
    }
}

impl FromData for Minuter {
    open spec fn valid_data(v: u64) -> bool {
        v <= 59
    }

    proof fn lemma_data_valid(&self) {
        match *self {
            Minuter::M0 => {},
            Minuter::M1 => {},
            Minuter::M2 => {},
            Minuter::M3 => {},
            Minuter::M4 => {},
            Minuter::M5 => {},
            Minuter::M6 => {},
            Minuter::M7 => {},
            Minuter::M8 => {},
            Minuter::M9 => {},
            Minuter::M10 => {},
            Minuter::M11 => {},
            Minuter::M12 => {},
            Minuter::M13 => {},
            Minuter::M14 => {},
            Minuter::M15 => {},
            Minuter::M16 => {},
            Minuter::M17 => {},
            Minuter::M18 => {},
            Minuter::M19 => {},
            Minuter::M20 => {},
            Minuter::M21 => {},
            Minuter::M22 => {},
            Minuter::M23 => {},
            Minuter::M24 => {},
            Minuter::M25 => {},
            Minuter::M26 => {},
            Minuter::M27 => {},
            Minuter::M28 => {},
            Minuter::M29 => {},
            Minuter::M30 => {},
            Minuter::M31 => {},
            Minuter::M32 => {},
            Minuter::M33 => {},
            Minuter::M34 => {},
            Minuter::M35 => {},
            Minuter::M36 => {},
            Minuter::M37 => {},
            Minuter::M38 => {},
            Minuter::M39 => {},
            Minuter::M40 => {},
            Minuter::M41 => {},
            Minuter::M42 => {},
            Minuter::M43 => {},
            Minuter::M44 => {},
            Minuter::M45 => {},
            Minuter::M46 => {},
            Minuter::M47 => {},
            Minuter::M48 => {},
            Minuter::M49 => {},
            Minuter::M50 => {},
            Minuter::M51 => {},
            Minuter::M52 => {},
            Minuter::M53 => {},
            Minuter::M54 => {},
            Minuter::M55 => {},
            Minuter::M56 => {},
            Minuter::M57 => {},
            Minuter::M58 => {},
            Minuter::M59 => {},
        }
    }

    fn from_data(val: u64) -> (r: Self) {
        match val {
            0 => Minuter::M0,
            1 => Minuter::M1,
            2 => Minuter::M2,
            3 => Minuter::M3,
            4 => Minuter::M4,
            5 => Minuter::M5,
            6 => Minuter::M6,
            7 => Minuter::M7,
            8 => Minuter::M8,
            9 => Minuter::M9,
            10 => Minuter::M10,
            11 => Minuter::M11,
            12 => Minuter::M12,
            13 => Minuter::M13,
            14 => Minuter::M14,
            15 => Minuter::M15,
            16 => Minuter::M16,
            17 => Minuter::M17,
            18 => Minuter::M18,
            19 => Minuter::M19,
            20 => Minuter::M20,
            21 => Minuter::M21,
            22 => Minuter::M22,
            23 => Minuter::M23,
            24 => Minuter::M24,
            25 => Minuter::M25,
            26 => Minuter::M26,
            27 => Minuter::M27,
            28 => Minuter::M28,
            29 => Minuter::M29,
            30 => Minuter::M30,
            31 => Minuter::M31,
            32 => Minuter::M32,
            33 => Minuter::M33,
            34 => Minuter::M34,
            35 => Minuter::M35,
            36 => Minuter::M36,
            37 => Minuter::M37,
            38 => Minuter::M38,
            39 => Minuter::M39,
            40 => Minuter::M40,
            41 => Minuter::M41,
            42 => Minuter::M42,
            43 => Minuter::M43,
            44 => Minuter::M44,
            45 => Minuter::M45,
            46 => Minuter::M46,
            47 => Minuter::M47,
            48 => Minuter::M48,
            49 => Minuter::M49,
            50 => Minuter::M50,
            51 => Minuter::M51,
            52 => Minuter::M52,
            53 => Minuter::M53,
            54 => Minuter::M54,
            55 => Minuter::M55,
            56 => Minuter::M56,
            57 => Minuter::M57,
            58 => Minuter::M58,
            59 => Minuter::M59,
            _ => Minuter::M0,
        }
    }
}

impl TryFromData for Minuter {
    fn try_from_data(val: u64) -> (r: Result<Self, ConfError>) {
        if val <= 59 {
            Ok(Self::from_data(val))
        } else {
            Err(ConfError::OutOfRange)
        }
    }
}

/// A second of the minute, in [0, 59].
#[derive(Copy, Clone, Debug, Eq, PartialEq, Structural)]
pub enum Second {
    S0, S1, S2, S3, S4, S5, S6, S7, S8, S9, S10, S11, S12, S13, S14, S15, S16, S17, S18, S19, S20, S21, S22, S23, S24, S25, S26, S27, S28, S29, S30, S31, S32, S33, S34, S35, S36, S37, S38, S39, S40, S41, S42, S43, S44, S45, S46, S47, S48, S49, S50, S51, S52, S53, S54, S55, S56, S57, S58, S59,
}

impl AsData for Second {
    open spec fn data_spec(&self) -> u64 {
        match *self {
            Second::S0 => 0,
            Second::S1 => 1,
            Second::S2 => 2,
            Second::S3 => 3,
            Second::S4 => 4,
            Second::S5 => 5,
            Second::S6 => 6,
            Second::S7 => 7,
            Second::S8 => 8,
            Second::S9 => 9,
            Second::S10 => 10,
            Second::S11 => 11,
            Second::S12 => 12,
            Second::S13 => 13,
            Second::S14 => 14,
            Second::S15 => 15,
            Second::S16 => 16,
            Second::S17 => 17,
            Second::S18 => 18,
            Second::S19 => 19,
            Second::S20 => 20,
            Second::S21 => 21,
            Second::S22 => 22,
            Second::S23 => 23,
            Second::S24 => 24,
            Second::S25 => 25,
            Second::S26 => 26,
            Second::S27 => 27,
            Second::S28 => 28,
            Second::S29 => 29,
            Second::S30 => 30,
            Second::S31 => 31,
            Second::S32 => 32,
            Second::S33 => 33,
            Second::S34 => 34,
            Second::S35 => 35,
            Second::S36 => 36,
            Second::S37 => 37,
            Second::S38 => 38,
            Second::S39 => 39,
            Second::S40 => 40,
            Second::S41 => 41,
            Second::S42 => 42,
            Second::S43 => 43,
            Second::S44 => 44,
            Second::S45 => 45,
            Second::S46 => 46,
            Second::S47 => 47,
            Second::S48 => 48,
            Second::S49 => 49,
            Second::S50 => 50,
            Second::S51 => 51,
            Second::S52 => 52,
            Second::S53 => 53,
            Second::S54 => 54,
            Second::S55 => 55,
            Second::S56 => 56,
            Second::S57 => 57,
            Second::S58 => 58,
            Second::S59 => 59,
        }
    }

    fn as_data(self) -> (r: u64) {
        match self {
            Second::S0 => 0,
            Second::S1 => 1,
            Second::S2 => 2,
            Second::S3 => 3,
            Second::S4 => 4,
            Second::S5 => 5,
            Second::S6 => 6,
            Second::S7 => 7,
            Second::S8 => 8,
            Second::S9 => 9,
            Second::S10 => 10,
            Second::S11 => 11,
            Second::S12 => 12,
            Second::S13 => 13,
            Second::S14 => 14,
            Second::S15 => 15,
            Second::S16 => 16,
            Second::S17 => 17,
            Second::S18 => 18,
            Second::S19 => 19,
            Second::S20 => 20,
            Second::S21 => 21,
            Second::S22 => 22,
            Second::S23 => 23,
            Second::S24 => 24,
            Second::S25 => 25,
            Second::S26 => 26,
            Second::S27 => 27,
            Second::S28 => 28,
            Second::S29 => 29,
            Second::S30 => 30,
            Second::S31 => 31,
            Second::S32 => 32,
            Second::S33 => 33,
            Second::S34 => 34,
            Second::S35 => 35,
            Second::S36 => 36,
            Second::S37 => 37,
            Second::S38 => 38,
            Second::S39 => 39,
            Second::S40 => 40,
            Second::S41 => 41,
            Second::S42 => 42,
            Second::S43 => 43,
            Second::S44 => 44,
            Second::S45 => 45,
            Second::S46 => 46,
            Second::S47 => 47,
            Second::S48 => 48,
            Second::S49 => 49,
            Second::S50 => 50,
            Second::S51 => 51,
            Second::S52 => 52,
            Second::S53 => 53,
            Second::S54 => 54,
            Second::S55 => 55,
            Second::S56 => 56,
            Second::S57 => 57,
            Second::S58 => 58,
            Second::S59 => 59,
        }
    }
}

impl FromData for Second {
    open spec fn valid_data(v: u64) -> bool {
        v <= 59
    }

    proof fn lemma_data_valid(&self) {
        match *self {
            Second::S0 => {},
            Second::S1 => {},
            Second::S2 => {},
            Second::S3 => {},
            Second::S4 => {},
            Second::S5 => {},
            Second::S6 => {},
            Second::S7 => {},
            Second::S8 => {},
            Second::S9 => {},
            Second::S10 => {},
            Second::S11 => {},
            Second::S12 => {},
            Second::S13 => {},
            Second::S14 => {},
            Second::S15 => {},
            Second::S16 => {},
            Second::S17 => {},
            Second::S18 => {},
            Second::S19 => {},
            Second::S20 => {},
            Second::S21 => {},
            Second::S22 => {},
            Second::S23 => {},
            Second::S24 => {},
            Second::S25 => {},
            Second::S26 => {},
            Second::S27 => {},
            Second::S28 => {},
            Second::S29 => {},
            Second::S30 => {},
            Second::S31 => {},
            Second::S32 => {},
            Second::S33 => {},
            Second::S34 => {},
            Second::S35 => {},
            Second::S36 => {},
            Second::S37 => {},
            Second::S38 => {},
            Second::S39 => {},
            Second::S40 => {},
            Second::S41 => {},
            Second::S42 => {},
            Second::S43 => {},
            Second::S44 => {},
            Second::S45 => {},
            Second::S46 => {},
            Second::S47 => {},
            Second::S48 => {},
            Second::S49 => {},
            Second::S50 => {},
            Second::S51 => {},
            Second::S52 => {},
            Second::S53 => {},
            Second::S54 => {},
            Second::S55 => {},
            Second::S56 => {},
            Second::S57 => {},
            Second::S58 => {},
            Second::S59 => {},
        }
    }

    fn from_data(val: u64) -> (r: Self) {
        match val {
            0 => Second::S0,
            1 => Second::S1,
            2 => Second::S2,
            3 => Second::S3,
            4 => Second::S4,
            5 => Second::S5,
            6 => Second::S6,
            7 => Second::S7,
            8 => Second::S8,
            9 => Second::S9,
            10 => Second::S10,
            11 => Second::S11,
            12 => Second::S12,
            13 => Second::S13,
            14 => Second::S14,
            15 => Second::S15,
            16 => Second::S16,
            17 => Second::S17,
            18 => Second::S18,
            19 => Second::S19,
            20 => Second::S20,
            21 => Second::S21,
            22 => Second::S22,
            23 => Second::S23,
            24 => Second::S24,
            25 => Second::S25,
            26 => Second::S26,
            27 => Second::S27,
            28 => Second::S28,
            29 => Second::S29,
            30 => Second::S30,
            31 => Second::S31,
            32 => Second::S32,
            33 => Second::S33,
            34 => Second::S34,
            35 => Second::S35,
            36 => Second::S36,
            37 => Second::S37,
            38 => Second::S38,
            39 => Second::S39,
            40 => Second::S40,
            41 => Second::S41,
            42 => Second::S42,
            43 => Second::S43,
            44 => Second::S44,
            45 => Second::S45,
            46 => Second::S46,
            47 => Second::S47,
            48 => Second::S48,
            49 => Second::S49,
            50 => Second::S50,
            51 => Second::S51,
            52 => Second::S52,
            53 => Second::S53,
            54 => Second::S54,
            55 => Second::S55,
            56 => Second::S56,
            57 => Second::S57,
            58 => Second::S58,
            59 => Second::S59,
            _ => Second::S0,
        }
    }
}

impl TryFromData for Second {
    fn try_from_data(val: u64) -> (r: Result<Self, ConfError>) {
        if val <= 59 {
            Ok(Self::from_data(val))
        } else {
            Err(ConfError::OutOfRange)
        }
    }
}

/// A calendar instant, broken down into the fields the recurrence engine
/// reads, at one-second resolution.
#[derive(Copy, Clone, Debug, Eq, PartialEq, Structural)]
pub struct DateTime {
    pub year: i32,
    pub month: u8,
    pub month_day: MonthDay,
    pub week_day: WeekDay,
    pub hour: Hour,
    pub minuter: Minuter,
    pub second: Second,
}

/// Lexicographic order on broken-down instants, as six-field keys.
pub open spec fn key_le(
    a: (int, int, int, int, int, int),
    b: (int, int, int, int, int, int),
) -> bool {
    if a.0 != b.0 {
        a.0 < b.0
    } else if a.1 != b.1 {
        a.1 < b.1
    } else if a.2 != b.2 {
        a.2 < b.2
    } else if a.3 != b.3 {
        a.3 < b.3
    } else if a.4 != b.4 {
        a.4 < b.4
    } else {
        a.5 <= b.5
    }
}

/// Strict lexicographic order on six-field keys.
pub open spec fn key_lt(
    a: (int, int, int, int, int, int),
    b: (int, int, int, int, int, int),
) -> bool {
    !key_le(b, a)
}

impl DateTime {
    /// The instant as an ordered six-field key; the derived weekday takes no
    /// part in it.
    pub open spec fn key(self) -> (int, int, int, int, int, int) {
        (
            self.year as int,
            self.month as int,
            self.month_day.data_spec() as int,
            self.hour.data_spec() as int,
            self.minuter.data_spec() as int,
            self.second.data_spec() as int,
        )
    }

    /// A well-formed instant: a real date of the supported year range. The
    /// weekday field is derived data and not constrained here.
    pub open spec fn wf(self) -> bool {
        &&& 0 <= self.year <= YEAR_MAX
        &&& 1 <= self.month <= 12
        &&& self.month_day.data_spec() <= month_length_spec(self.year as int, self.month as int)
    }

    /// Whether `self` lies at or before `other`, in calendar order.
    pub fn le(&self, other: &DateTime) -> (r: bool)
        ensures
            r == key_le(self.key(), other.key()),
    {
        if self.year != other.year {
            self.year < other.year
        } else if self.month != other.month {
            self.month < other.month
        } else if self.month_day.as_data() != other.month_day.as_data() {
            self.month_day.as_data() < other.month_day.as_data()
        } else if self.hour.as_data() != other.hour.as_data() {
            self.hour.as_data() < other.hour.as_data()
        } else if self.minuter.as_data() != other.minuter.as_data() {
            self.minuter.as_data() < other.minuter.as_data()
        } else {
            self.second.as_data() <= other.second.as_data()
        }
    }
}

/// The number of days of year `y`.
pub open spec fn year_length_spec(y: int) -> int {
    if leap_year(y) {
        366
    } else {
        365
    }
}

/// The days of year `y` that lie before month `m`.
pub open spec fn days_before_month(y: int, m: int) -> int {
    let leap: int = if leap_year(y) {
        1
    } else {
        0
    };
    if m <= 1 {
        0
    } else if m == 2 {
        31
    } else if m == 3 {
        59 + leap
    } else if m == 4 {
        90 + leap
    } else if m == 5 {
        120 + leap
    } else if m == 6 {
        151 + leap
    } else if m == 7 {
        181 + leap
    } else if m == 8 {
        212 + leap
    } else if m == 9 {
        243 + leap
    } else if m == 10 {
        273 + leap
    } else if m == 11 {
        304 + leap
    } else if m == 12 {
        334 + leap
    } else {
        365 + leap
    }
}

/// Each month adds exactly its length to the running day count.
pub proof fn lemma_days_before_month_step(y: int, m: int)
    requires
        1 <= m <= 12,
    ensures
        days_before_month(y, m + 1) == days_before_month(y, m) + month_length_spec(y, m),
        days_before_month(y, m) + month_length_spec(y, m) <= year_length_spec(y),
        0 <= days_before_month(y, m),
{
}

/// The days of the years before `y`, counted from year 0.
pub open spec fn days_before_year(y: int) -> int
    decreases y,
{
    if y <= 0 {
        0
    } else {
        days_before_year(y - 1) + year_length_spec(y - 1)
    }
}

/// Years accumulate between 365 and 366 days each.
pub proof fn lemma_days_before_year_monotone(y1: int, y2: int)
    requires
        0 <= y1 <= y2,
    ensures
        days_before_year(y1) + 365 * (y2 - y1) <= days_before_year(y2) <= days_before_year(y1)
            + 366 * (y2 - y1),
    decreases y2 - y1,
{
    if y1 < y2 {
        lemma_days_before_year_monotone(y1, y2 - 1);
    }
}

/// The instant's distance, in seconds, from the start of year 0.
pub open spec fn dt_seconds_spec(dt: DateTime) -> int {
    (days_before_year(dt.year as int) + days_before_month(dt.year as int, dt.month as int)
        + dt.month_day.data_spec() - 1) * 86400 + dt.hour.data_spec() * 3600
        + dt.minuter.data_spec() * 60 + dt.second.data_spec()
}

/// The day of its year an instant falls on, counted from zero.
pub open spec fn day_of_year_spec(dt: DateTime) -> int {
    days_before_month(dt.year as int, dt.month as int) + dt.month_day.data_spec() - 1
}

/// The seconds of its year that lie before an instant.
pub open spec fn seconds_of_year_spec(dt: DateTime) -> int {
    day_of_year_spec(dt) * 86400 + dt.hour.data_spec() * 3600 + dt.minuter.data_spec() * 60
        + dt.second.data_spec()
}

/// An instant lies within its own year's span of seconds.
pub proof fn lemma_seconds_of_year_bounds(dt: DateTime)
    requires
        dt.wf(),
    ensures
        0 <= seconds_of_year_spec(dt) < year_length_spec(dt.year as int) * 86400,
{
    dt.month_day.lemma_data_valid();
    dt.hour.lemma_data_valid();
    dt.minuter.lemma_data_valid();
    dt.second.lemma_data_valid();
    lemma_days_before_month_step(dt.year as int, dt.month as int);
}

/// Calendar order is the order of the second counts: a strictly earlier
/// well-formed instant lies strictly fewer seconds from the epoch.
pub proof fn lemma_dt_seconds_strict_monotone(a: DateTime, b: DateTime)
    requires
        a.wf(),
        b.wf(),
        key_lt(a.key(), b.key()),
    ensures
        dt_seconds_spec(a) < dt_seconds_spec(b),
{
    a.month_day.lemma_data_valid();
    a.hour.lemma_data_valid();
    a.minuter.lemma_data_valid();
    a.second.lemma_data_valid();
    b.month_day.lemma_data_valid();
    b.hour.lemma_data_valid();
    b.minuter.lemma_data_valid();
    b.second.lemma_data_valid();
    lemma_seconds_of_year_bounds(a);
    lemma_seconds_of_year_bounds(b);
    assert(dt_seconds_spec(a) == days_before_year(a.year as int) * 86400 + seconds_of_year_spec(a));
    assert(dt_seconds_spec(b) == days_before_year(b.year as int) * 86400 + seconds_of_year_spec(b));
    if a.year < b.year {
        lemma_days_before_year_monotone(a.year as int, (a.year + 1) as int);
        lemma_days_before_year_monotone((a.year + 1) as int, b.year as int);
    } else {
        assert(a.year == b.year);
        if a.month < b.month {
            lemma_days_before_month_step(a.year as int, a.month as int);
            lemma_days_before_month_monotone(a.year as int, (a.month + 1) as int, b.month as int);
        }
    }
}

/// The day count before a month never shrinks as the month grows.
pub proof fn lemma_days_before_month_monotone(y: int, m1: int, m2: int)
    requires
        m1 <= m2,
    ensures
        days_before_month(y, m1) <= days_before_month(y, m2),
{
}

/// The number of days of year `year`.
pub fn year_length(year: i32) -> (r: u64)
    requires
        0 <= year,
    ensures
        r as int == year_length_spec(year as int),
{
    if year % 4 == 0 && (year % 100 != 0 || year % 400 == 0) {
        366
    } else {
        365
    }
}

/// The seconds of its year that lie before the instant `dt`.
fn seconds_of_year(dt: &DateTime) -> (r: u64)
    requires
        dt.wf(),
    ensures
        r as int == seconds_of_year_spec(*dt),
{
    proof {
        dt.month_day.lemma_data_valid();
        dt.hour.lemma_data_valid();
        dt.minuter.lemma_data_valid();
        dt.second.lemma_data_valid();
        lemma_seconds_of_year_bounds(*dt);
    }
    let leap: u64 = if dt.year % 4 == 0 && (dt.year % 100 != 0 || dt.year % 400 == 0) {
        1
    } else {
        0
    };
    let before: u64 = match dt.month {
        1 => 0,
        2 => 31,
        3 => 59 + leap,
        4 => 90 + leap,
        5 => 120 + leap,
        6 => 151 + leap,
        7 => 181 + leap,
        8 => 212 + leap,
        9 => 243 + leap,
        10 => 273 + leap,
        11 => 304 + leap,
        _ => 334 + leap,
    };
    (before + dt.month_day.as_data() - 1) * 86400 + dt.hour.as_data() * 3600
        + dt.minuter.as_data() * 60 + dt.second.as_data()
}

/// The number of seconds from instant `a` to the later instant `b`.
pub fn seconds_between(a: &DateTime, b: &DateTime) -> (r: u64)
    requires
        a.wf(),
        b.wf(),
        key_le(a.key(), b.key()),
    ensures
        r as int == dt_seconds_spec(*b) - dt_seconds_spec(*a),
{
    let mut days: u64 = 0;
    let mut y: i32 = a.year;
    proof {
        assert(a.year <= b.year);
    }
    while y < b.year
        invariant
            a.year <= y <= b.year,
            0 <= a.year,
            b.year <= YEAR_MAX,
            days as int == days_before_year(y as int) - days_before_year(a.year as int),
            days as int <= 366 * (y - a.year),
        decreases b.year - y,
    {
        proof {
            lemma_days_before_year_monotone(a.year as int, y as int);
        }
        days = days + year_length(y);
        y = y + 1;
    }
    let sa = seconds_of_year(a);
    let sb = seconds_of_year(b);
    proof {
        lemma_seconds_of_year_bounds(*a);
        lemma_seconds_of_year_bounds(*b);
        assert(dt_seconds_spec(*a) == days_before_year(a.year as int) * 86400
            + seconds_of_year_spec(*a));
        assert(dt_seconds_spec(*b) == days_before_year(b.year as int) * 86400
            + seconds_of_year_spec(*b));
        if a.year < b.year {
            lemma_days_before_year_monotone(a.year as int, (a.year + 1) as int);
            lemma_days_before_year_monotone((a.year + 1) as int, b.year as int);
        } else {
            if key_lt(a.key(), b.key()) {
                lemma_dt_seconds_strict_monotone(*a, *b);
            } else {
                assert(a.key().1 == b.key().1 && a.key().2 == b.key().2 && a.key().3 == b.key().3
                    && a.key().4 == b.key().4 && a.key().5 == b.key().5);
            }
        }
    }
    days * 86400 + sb - sa
}

} // verus!
