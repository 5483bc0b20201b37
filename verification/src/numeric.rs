//! The supported sample kinds: the unsigned 8-, 16- and 32-bit integers,
//! each equipped with the capability contract the mapping routine needs.

use vstd::prelude::*;
use crate::affine::scaled_index;
use crate::image::{CastAsUsize, ColorRegression};

verus! {

impl CastAsUsize for u8 {
    open spec fn as_int(self) -> int {
        self as int
    }

    open spec fn max_val() -> int {
        u8::MAX as int
    }

    fn from_usize(x: usize) -> (r: u8) {
        x as u8
    }

    fn to_usize(x: u8) -> (r: usize) {
        x as usize
    }
}

impl ColorRegression for u8 {
    fn le(self, other: u8) -> (r: bool) {
        self <= other
    }

    fn table_index(self, lo: u8, hi: u8, last: usize) -> (i: usize) {
        scaled_index(self as u64, lo as u64, hi as u64, last)
    }
}

impl CastAsUsize for u16 {
    open spec fn as_int(self) -> int {
        self as int
    }

    open spec fn max_val() -> int {
        u16::MAX as int
    }

    fn from_usize(x: usize) -> (r: u16) {
        x as u16
    }

    fn to_usize(x: u16) -> (r: usize) {
        x as usize
    }
}

impl ColorRegression for u16 {
    fn le(self, other: u16) -> (r: bool) {
        self <= other
    }

    fn table_index(self, lo: u16, hi: u16, last: usize) -> (i: usize) {
        scaled_index(self as u64, lo as u64, hi as u64, last)
    }
}

impl CastAsUsize for u32 {
    open spec fn as_int(self) -> int {
        self as int
    }

    open spec fn max_val() -> int {
        u32::MAX as int
    }

    fn from_usize(x: usize) -> (r: u32) {
        x as u32
    }

    fn to_usize(x: u32) -> (r: usize) {
        x as usize
    }
}

impl ColorRegression for u32 {
    fn le(self, other: u32) -> (r: bool) {
        self <= other
    }

    fn table_index(self, lo: u32, hi: u32, last: usize) -> (i: usize) {
        scaled_index(self as u64, lo as u64, hi as u64, last)
    }
}

} // verus!
