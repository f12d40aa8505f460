//! The effect classes that a track can be asked about.
//!
//! An effect class is named by one byte. The plain effects are named by their
//! command byte. The extended effects share a command byte within a family and
//! are told apart by the upper nibble of the parameter; the lower nibble is
//! then the value.

use vstd::prelude::*;

verus! {

pub const XM_FX_0XX: u8 = 0;
pub const XM_FX_1XX: u8 = 1;
pub const XM_FX_2XX: u8 = 2;
pub const XM_FX_3XX: u8 = 3;
pub const XM_FX_4XX: u8 = 4;
pub const XM_FX_5XX: u8 = 5;
pub const XM_FX_6XX: u8 = 6;
pub const XM_FX_7XX: u8 = 7;
pub const XM_FX_8XX: u8 = 8;
pub const XM_FX_9XX: u8 = 9;
pub const XM_FX_AXX: u8 = 0xa;
pub const XM_FX_BXX: u8 = 0xb;
pub const XM_FX_CXX: u8 = 0xc;
pub const XM_FX_DXX: u8 = 0xd;
pub const XM_FX_E1X: u8 = 0xe1;
pub const XM_FX_E2X: u8 = 0xe2;
pub const XM_FX_E3X: u8 = 0xe3;
pub const XM_FX_E4X: u8 = 0xe4;
pub const XM_FX_E5X: u8 = 0xe5;
pub const XM_FX_E6X: u8 = 0xe6;
pub const XM_FX_E7X: u8 = 0xe7;
pub const XM_FX_E8X: u8 = 0xe8;
pub const XM_FX_E9X: u8 = 0xe9;
pub const XM_FX_EAX: u8 = 0xea;
pub const XM_FX_EBX: u8 = 0xeb;
pub const XM_FX_ECX: u8 = 0xec;
pub const XM_FX_EDX: u8 = 0xed;
pub const XM_FX_EEX: u8 = 0xee;
pub const XM_FX_FXX: u8 = 0xf;
pub const XM_FX_GXX: u8 = 0x10;
pub const XM_FX_HXX: u8 = 0x11;
pub const XM_FX_KXX: u8 = 0x14;
pub const XM_FX_LXX: u8 = 0x15;
pub const XM_FX_PXX: u8 = 0x19;
pub const XM_FX_RXX: u8 = 0x1b;
pub const XM_FX_TXX: u8 = 0x1d;
pub const XM_FX_X1X: u8 = 0x22;
pub const XM_FX_X2X: u8 = 0x23;

/// The command byte that the E family shares.
pub const XM_COMMAND_E: u8 = 0x0e;

/// The command byte that the X family shares.
pub const XM_COMMAND_X: u8 = 0x21;

/// Whether `fx` names an effect class.
pub open spec fn spec_is_effect(fx: u8) -> bool {
    ||| fx <= 0x0d
    ||| fx == 0x0f
    ||| fx == 0x10
    ||| fx == 0x11
    ||| fx == 0x14
    ||| fx == 0x15
    ||| fx == 0x19
    ||| fx == 0x1b
    ||| fx == 0x1d
    ||| fx == 0x22
    ||| fx == 0x23
    ||| 0xe1 <= fx <= 0xee
}

/// Whether `fx` names an effect class.
#[verifier::when_used_as_spec(spec_is_effect)]
pub fn is_effect(fx: u8) -> (b: bool)
    ensures
        b == spec_is_effect(fx),
{
    fx <= 0x0d || fx == 0x0f || fx == 0x10 || fx == 0x11 || fx == 0x14 || fx == 0x15 || fx == 0x19
        || fx == 0x1b || fx == 0x1d || fx == 0x22 || fx == 0x23 || (0xe1 <= fx && fx <= 0xee)
}

/// Whether the class `fx` keeps its value over rows that do not set it.
pub open spec fn spec_has_memory(fx: u8) -> bool {
    ||| 1 <= fx <= 7
    ||| fx == 0x09
    ||| fx == 0x0a
    ||| fx == 0x11
    ||| fx == 0x19
    ||| fx == 0x1b
    ||| fx == 0x1d
    ||| fx == 0x22
    ||| fx == 0x23
    ||| fx == 0xe1
    ||| fx == 0xe2
    ||| fx == 0xea
    ||| fx == 0xeb
}

/// Whether the class `fx` keeps its value over rows that do not set it.
#[verifier::when_used_as_spec(spec_has_memory)]
pub fn has_memory(fx: u8) -> (b: bool)
    ensures
        b == spec_has_memory(fx),
{
    (1 <= fx && fx <= 7) || fx == 0x09 || fx == 0x0a || fx == 0x11 || fx == 0x19 || fx == 0x1b
        || fx == 0x1d || fx == 0x22 || fx == 0x23 || fx == 0xe1 || fx == 0xe2 || fx == 0xea
        || fx == 0xeb
}

/// The value that the class `fx` falls back to.
pub open spec fn spec_default_param(fx: u8) -> u8 {
    if fx == 0xe5 {
        8
    } else {
        0
    }
}

/// The value that the class `fx` falls back to.
#[verifier::when_used_as_spec(spec_default_param)]
pub fn default_param(fx: u8) -> (p: u8)
    ensures
        p == spec_default_param(fx),
{
    if fx == XM_FX_E5X {
        8
    } else {
        0
    }
}

/// The command byte under which the class `fx` is stored in a pattern.
pub open spec fn spec_command_byte(fx: u8) -> u8 {
    if fx <= 0x1d {
        fx
    } else if fx <= 0x23 {
        0x21
    } else {
        0x0e
    }
}

/// The command byte under which the class `fx` is stored in a pattern.
#[verifier::when_used_as_spec(spec_command_byte)]
pub fn command_byte(fx: u8) -> (c: u8)
    ensures
        c == spec_command_byte(fx),
{
    if fx <= XM_FX_TXX {
        fx
    } else if fx <= XM_FX_X2X {
        XM_COMMAND_X
    } else {
        XM_COMMAND_E
    }
}

/// Whether a parameter byte `p`, stored under the command byte of `fx`,
/// belongs to the class `fx`. For a plain effect every parameter does. In the
/// X family the upper nibble is 1 for X1 and 2 for X2; in the E family it is
/// the lower nibble of the identifier.
pub open spec fn spec_selects(fx: u8, p: u8) -> bool {
    if fx <= 0x1d {
        true
    } else if fx <= 0x23 {
        p / 16 + 0x21 == fx
    } else {
        p / 16 == fx % 16
    }
}

/// Whether a parameter byte `p`, stored under the command byte of `fx`,
/// belongs to the class `fx`.
#[verifier::when_used_as_spec(spec_selects)]
pub fn selects(fx: u8, p: u8) -> (b: bool)
    ensures
        b == spec_selects(fx, p),
{
    if fx <= XM_FX_TXX {
        true
    } else if fx <= XM_FX_X2X {
        p / 16 + XM_COMMAND_X == fx
    } else {
        p / 16 == fx % 16
    }
}

/// The value that a parameter byte `p` gives to the class `fx`: the whole
/// byte for a plain effect, the lower nibble for an extended one.
pub open spec fn spec_value_of(fx: u8, p: u8) -> u8 {
    if fx <= 0x1d {
        p
    } else {
        p % 16
    }
}

/// The value that a parameter byte `p` gives to the class `fx`.
#[verifier::when_used_as_spec(spec_value_of)]
pub fn value_of(fx: u8, p: u8) -> (v: u8)
    ensures
        v == spec_value_of(fx, p),
{
    if fx <= XM_FX_TXX {
        p
    } else {
        p % 16
    }
}

} // verus!
