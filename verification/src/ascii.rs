//! The ASCII letters and digits that tags and operation codes are made of.
use vstd::prelude::*;

verus! {

pub const DIGIT_1: u8 = 0x31;

pub const DIGIT_3: u8 = 0x33;

pub const LOWER_A: u8 = 0x61;

pub const LOWER_D: u8 = 0x64;

pub const LOWER_E: u8 = 0x65;

pub const LOWER_F: u8 = 0x66;

pub const LOWER_G: u8 = 0x67;

pub const LOWER_L: u8 = 0x6c;

pub const LOWER_M: u8 = 0x6d;

pub const LOWER_O: u8 = 0x6f;

pub const LOWER_P: u8 = 0x70;

pub const LOWER_Q: u8 = 0x71;

pub const LOWER_R: u8 = 0x72;

pub const LOWER_S: u8 = 0x73;

pub const LOWER_T: u8 = 0x74;

pub const LOWER_U: u8 = 0x75;

pub const LOWER_V: u8 = 0x76;

pub const LOWER_W: u8 = 0x77;

pub const UPPER_H: u8 = 0x48;

pub const UPPER_E: u8 = 0x45;

pub const UPPER_L: u8 = 0x4c;

pub const UPPER_O: u8 = 0x4f;

pub const UPPER_S: u8 = 0x53;

pub const UPPER_T: u8 = 0x54;

pub const UPPER_A: u8 = 0x41;

pub const UPPER_B: u8 = 0x42;

pub const UPPER_Y: u8 = 0x59;

pub const BANG: u8 = 0x21;

} // verus!
