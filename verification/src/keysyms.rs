//! X11 keysym values used by the keyboard monitors.

use vstd::prelude::*;

verus! {

/// The keysym `xkeysym::key::space`.
#[verifier::external_body]
pub(crate) fn key_space() -> (k: u32)
    ensures
        k == 0x20,
{
    xkeysym::key::space
}

/// The keysym `xkeysym::key::KP_Space`.
#[verifier::external_body]
pub(crate) fn key_kp_space() -> (k: u32)
    ensures
        k == 0xff80,
{
    xkeysym::key::KP_Space
}

/// The keysym `xkeysym::key::Tab`.
#[verifier::external_body]
pub(crate) fn key_tab() -> (k: u32)
    ensures
        k == 0xff09,
{
    xkeysym::key::Tab
}

/// The keysym `xkeysym::key::KP_Tab`.
#[verifier::external_body]
pub(crate) fn key_kp_tab() -> (k: u32)
    ensures
        k == 0xff89,
{
    xkeysym::key::KP_Tab
}

/// The keysym `xkeysym::key::Return`.
#[verifier::external_body]
pub(crate) fn key_return_key() -> (k: u32)
    ensures
        k == 0xff0d,
{
    xkeysym::key::Return
}

/// The keysym `xkeysym::key::KP_Enter`.
#[verifier::external_body]
pub(crate) fn key_kp_enter() -> (k: u32)
    ensures
        k == 0xff8d,
{
    xkeysym::key::KP_Enter
}

/// The keysym `xkeysym::key::Escape`.
#[verifier::external_body]
pub(crate) fn key_escape() -> (k: u32)
    ensures
        k == 0xff1b,
{
    xkeysym::key::Escape
}

/// The keysym `xkeysym::key::BackSpace`.
#[verifier::external_body]
pub(crate) fn key_backspace() -> (k: u32)
    ensures
        k == 0xff08,
{
    xkeysym::key::BackSpace
}

/// The keysym `xkeysym::key::Delete`.
#[verifier::external_body]
pub(crate) fn key_delete() -> (k: u32)
    ensures
        k == 0xffff,
{
    xkeysym::key::Delete
}

/// The keysym `xkeysym::key::KP_Delete`.
#[verifier::external_body]
pub(crate) fn key_kp_delete() -> (k: u32)
    ensures
        k == 0xff9f,
{
    xkeysym::key::KP_Delete
}

/// The keysym `xkeysym::key::Left`.
#[verifier::external_body]
pub(crate) fn key_left() -> (k: u32)
    ensures
        k == 0xff51,
{
    xkeysym::key::Left
}

/// The keysym `xkeysym::key::Right`.
#[verifier::external_body]
pub(crate) fn key_right() -> (k: u32)
    ensures
        k == 0xff53,
{
    xkeysym::key::Right
}

/// The keysym `xkeysym::key::Up`.
#[verifier::external_body]
pub(crate) fn key_up() -> (k: u32)
    ensures
        k == 0xff52,
{
    xkeysym::key::Up
}

/// The keysym `xkeysym::key::Down`.
#[verifier::external_body]
pub(crate) fn key_down() -> (k: u32)
    ensures
        k == 0xff54,
{
    xkeysym::key::Down
}

/// The keysym `xkeysym::key::Control_L`.
#[verifier::external_body]
pub(crate) fn key_control_l() -> (k: u32)
    ensures
        k == 0xffe3,
{
    xkeysym::key::Control_L
}

/// The keysym `xkeysym::key::Control_R`.
#[verifier::external_body]
pub(crate) fn key_control_r() -> (k: u32)
    ensures
        k == 0xffe4,
{
    xkeysym::key::Control_R
}

/// The keysym `xkeysym::key::F1`.
#[verifier::external_body]
pub(crate) fn key_f1() -> (k: u32)
    ensures
        k == 0xffbe,
{
    xkeysym::key::F1
}

/// The keysym `xkeysym::key::F2`.
#[verifier::external_body]
pub(crate) fn key_f2() -> (k: u32)
    ensures
        k == 0xffbf,
{
    xkeysym::key::F2
}

/// The keysym `xkeysym::key::F3`.
#[verifier::external_body]
pub(crate) fn key_f3() -> (k: u32)
    ensures
        k == 0xffc0,
{
    xkeysym::key::F3
}

/// The keysym `xkeysym::key::F4`.
#[verifier::external_body]
pub(crate) fn key_f4() -> (k: u32)
    ensures
        k == 0xffc1,
{
    xkeysym::key::F4
}

/// The keysym `xkeysym::key::F5`.
#[verifier::external_body]
pub(crate) fn key_f5() -> (k: u32)
    ensures
        k == 0xffc2,
{
    xkeysym::key::F5
}

/// The keysym `xkeysym::key::F6`.
#[verifier::external_body]
pub(crate) fn key_f6() -> (k: u32)
    ensures
        k == 0xffc3,
{
    xkeysym::key::F6
}

/// The keysym `xkeysym::key::F7`.
#[verifier::external_body]
pub(crate) fn key_f7() -> (k: u32)
    ensures
        k == 0xffc4,
{
    xkeysym::key::F7
}

/// The keysym `xkeysym::key::F8`.
#[verifier::external_body]
pub(crate) fn key_f8() -> (k: u32)
    ensures
        k == 0xffc5,
{
    xkeysym::key::F8
}

/// The keysym `xkeysym::key::F9`.
#[verifier::external_body]
pub(crate) fn key_f9() -> (k: u32)
    ensures
        k == 0xffc6,
{
    xkeysym::key::F9
}

/// The keysym `xkeysym::key::F10`.
#[verifier::external_body]
pub(crate) fn key_f10() -> (k: u32)
    ensures
        k == 0xffc7,
{
    xkeysym::key::F10
}

/// The keysym `xkeysym::key::F11`.
#[verifier::external_body]
pub(crate) fn key_f11() -> (k: u32)
    ensures
        k == 0xffc8,
{
    xkeysym::key::F11
}

/// The keysym `xkeysym::key::F12`.
#[verifier::external_body]
pub(crate) fn key_f12() -> (k: u32)
    ensures
        k == 0xffc9,
{
    xkeysym::key::F12
}

} // verus!
