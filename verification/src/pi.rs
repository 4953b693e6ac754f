//! What the device's controller board is told and tells: pins, pin modes and
//! result codes. The calls themselves are made elsewhere.

use vstd::prelude::*;

verus! {

/// The pins that drive the high-voltage shift register.
#[derive(PartialEq, Eq, Structural, Clone, Copy, Debug)]
pub enum GpioPin {
    /// Blank: physical pin 11.
    Blank,
    /// Latch enable: physical pin 27.
    LatchEnable,
    /// Clock: physical pin 22.
    Clock,
    /// Data: physical pin 23.
    Data,
}

impl GpioPin {
    /// The number by which the board knows the pin.
    pub open spec fn spec_number(self) -> u32 {
        match self {
            GpioPin::Blank => 17,
            GpioPin::LatchEnable => 13,
            GpioPin::Clock => 15,
            GpioPin::Data => 16,
        }
    }

    /// The number by which the board knows the pin.
    pub fn number(&self) -> (n: u32)
        ensures
            n == self.spec_number(),
    {
        match self {
            GpioPin::Blank => 17,
            GpioPin::LatchEnable => 13,
            GpioPin::Clock => 15,
            GpioPin::Data => 16,
        }
    }
}

/// What a pin is used for.
#[derive(PartialEq, Eq, Structural, Clone, Copy, Debug)]
pub enum GpioMode {
    Input,
    Output,
    Alt0,
    Alt1,
    Alt2,
    Alt3,
    Alt4,
    Alt5,
}

impl GpioMode {
    /// The number by which the board knows the mode.
    pub open spec fn spec_number(self) -> u32 {
        match self {
            GpioMode::Input => 0,
            GpioMode::Output => 1,
            GpioMode::Alt0 => 4,
            GpioMode::Alt1 => 5,
            GpioMode::Alt2 => 6,
            GpioMode::Alt3 => 7,
            GpioMode::Alt4 => 3,
            GpioMode::Alt5 => 2,
        }
    }

    /// The number by which the board knows the mode.
    pub fn number(&self) -> (n: u32)
        ensures
            n == self.spec_number(),
    {
        match self {
            GpioMode::Input => 0,
            GpioMode::Output => 1,
            GpioMode::Alt0 => 4,
            GpioMode::Alt1 => 5,
            GpioMode::Alt2 => 6,
            GpioMode::Alt3 => 7,
            GpioMode::Alt4 => 3,
            GpioMode::Alt5 => 2,
        }
    }
}

/// A failure that the board reported: its code, which is negative, and what
/// the board says of it.
#[derive(Debug)]
pub struct PiError {
    msg: String,
    code: i32,
}

impl PiError {
    pub closed spec fn spec_code(self) -> i32 {
        self.code
    }

    pub closed spec fn spec_message(self) -> String {
        self.msg
    }

    /// The failure with the code `code`, of which the board says `msg`.
    pub fn from_code(code: i32, msg: String) -> (e: PiError)
        requires
            code < 0,
        ensures
            e.spec_code() == code,
            e.spec_message() == msg,
    {
        PiError { msg, code }
    }

    /// The code, which is negative.
    pub fn code(&self) -> (code: i32)
        ensures
            code == self.spec_code(),
    {
        self.code
    }

    /// What the board says of the failure.
    pub fn description(&self) -> (msg: &String)
        ensures
            *msg == self.spec_message(),
    {
        &self.msg
    }
}

/// Whether the board reported a failure: its result codes are negative
/// exactly then.
pub fn failed(code: i32) -> (failure: bool)
    ensures
        failure == (code < 0),
{
    code < 0
}

/// Whether a read that was to fill `wanted` bytes and reported `code` filled
/// them all.
pub fn read_filled(code: i32, wanted: usize) -> (filled: bool)
    ensures
        filled == (code >= 0 && code as int == wanted as int),
{
    code >= 0 && code as u64 == wanted as u64
}

} // verus!
