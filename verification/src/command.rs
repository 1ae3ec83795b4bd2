//! Setup commands and the frames that carry them to the device.
//!
//! Every command travels as `[opcode, length_hi, length_lo, payload...]`, the
//! length being that of the payload, big-endian.

use crate::config::DebounceType;
use vstd::prelude::*;

verus! {

/// The commands the host sends while it configures the device.
#[derive(Copy, Clone, Debug, PartialEq, Eq, Hash, Structural)]
pub enum SetupCommand {
    Finish,
    AddKey,
    SetDebounce,
    AwaitSmoothness,
    Reset,
    EnableInterrupts,
}

/// The largest debounce the device takes, in microseconds.
pub const MAX_DEBOUNCE_US: u32 = 0xFFFF_FFFF;

/// The frame of a command: opcode, payload length in two bytes, payload.
pub open spec fn frame(cmd: SetupCommand, payload: Seq<u8>) -> Seq<u8> {
    seq![cmd.opcode(), (payload.len() / 256) as u8, (payload.len() % 256) as u8] + payload
}

/// A debounce in microseconds, brought into the range the device takes.
pub open spec fn clamp_micros(micros: int) -> int {
    if micros < 0 {
        0
    } else if micros > MAX_DEBOUNCE_US {
        MAX_DEBOUNCE_US as int
    } else {
        micros
    }
}

/// The four bytes of a 32-bit value, most significant first.
pub open spec fn be_bytes(value: int) -> Seq<u8> {
    seq![
        (value / 0x100_0000 % 256) as u8,
        (value / 0x1_0000 % 256) as u8,
        (value / 0x100 % 256) as u8,
        (value % 256) as u8,
    ]
}

/// The value that four bytes spell, most significant first.
pub open spec fn be_value(bytes: Seq<u8>) -> int {
    bytes[0] * 0x100_0000 + bytes[1] * 0x1_0000 + bytes[2] * 0x100 + bytes[3]
}

/// The payload of `AwaitSmoothness`.
pub open spec fn smoothness_flag(kind: DebounceType) -> u8 {
    match kind {
        DebounceType::FirstChange => 0,
        DebounceType::LastChange => 1,
    }
}

/// The payload of `EnableInterrupts`.
pub open spec fn interrupts_flag(enabled: bool) -> u8 {
    if enabled {
        1
    } else {
        0
    }
}

impl SetupCommand {
    /// The opcode of each command.
    pub open spec fn opcode(self) -> u8 {
        match self {
            SetupCommand::Finish => 0x0F,
            SetupCommand::AddKey => 0xAD,
            SetupCommand::SetDebounce => 0xDB,
            SetupCommand::AwaitSmoothness => 0xAE,
            SetupCommand::Reset => 0xEE,
            SetupCommand::EnableInterrupts => 0xEA,
        }
    }

    /// The byte that opens this command's frame.
    pub fn code(self) -> (c: u8)
        ensures
            c == self.opcode(),
    {
        match self {
            SetupCommand::Finish => 0x0F,
            SetupCommand::AddKey => 0xAD,
            SetupCommand::SetDebounce => 0xDB,
            SetupCommand::AwaitSmoothness => 0xAE,
            SetupCommand::Reset => 0xEE,
            SetupCommand::EnableInterrupts => 0xEA,
        }
    }

    /// Frames this command around `payload`. The length field has 16 bits.
    pub fn encode(self, payload: &[u8]) -> (bytes: Vec<u8>)
        requires
            payload@.len() <= 0xFFFF,
        ensures
            bytes@ == frame(self, payload@),
    {
        let len: usize = payload.len();
        let mut bytes: Vec<u8> = Vec::with_capacity(3);
        bytes.push(self.code());
        bytes.push((len / 256) as u8);
        bytes.push((len % 256) as u8);
        let mut i: usize = 0;
        while i < len
            invariant
                len == payload@.len(),
                i <= len,
                bytes@ == frame(self, payload@).subrange(0, 3 + i),
            decreases len - i,
        {
            bytes.push(payload[i]);
            i += 1;
        }
        bytes
    }
}

/// `Reset`: the device drops any session it is in.
pub fn reset_frame() -> (bytes: Vec<u8>)
    ensures
        bytes@ == frame(SetupCommand::Reset, seq![]),
        bytes@ == seq![0xEEu8, 0, 0],
{
    SetupCommand::Reset.encode(&[])
}

/// `Finish`: the configuration is complete.
pub fn finish_frame() -> (bytes: Vec<u8>)
    ensures
        bytes@ == frame(SetupCommand::Finish, seq![]),
        bytes@ == seq![0x0Fu8, 0, 0],
{
    SetupCommand::Finish.encode(&[])
}

/// `AddKey`: the key on `pin` gets the next free key index.
pub fn add_key_frame(pin: u8) -> (bytes: Vec<u8>)
    ensures
        bytes@ == frame(SetupCommand::AddKey, seq![pin]),
        bytes@ == seq![0xADu8, 0, 1, pin],
{
    SetupCommand::AddKey.encode(&[pin])
}

/// `AwaitSmoothness`: 0 measures the debounce from the first change, 1 from
/// the last.
pub fn await_smoothness_frame(kind: DebounceType) -> (bytes: Vec<u8>)
    ensures
        bytes@ == frame(SetupCommand::AwaitSmoothness, seq![smoothness_flag(kind)]),
        bytes@ == seq![0xAEu8, 0, 1, smoothness_flag(kind)],
{
    let flag: u8 = match kind {
        DebounceType::FirstChange => 0,
        DebounceType::LastChange => 1,
    };
    SetupCommand::AwaitSmoothness.encode(&[flag])
}

/// `EnableInterrupts`: 1 switches interrupts on, 0 off.
pub fn enable_interrupts_frame(enabled: bool) -> (bytes: Vec<u8>)
    ensures
        bytes@ == frame(SetupCommand::EnableInterrupts, seq![interrupts_flag(enabled)]),
        bytes@ == seq![0xEAu8, 0, 1, interrupts_flag(enabled)],
{
    let flag: u8 = if enabled { 1 } else { 0 };
    SetupCommand::EnableInterrupts.encode(&[flag])
}

/// The debounce the device is given for `micros`: negative values count as
/// zero, values beyond 32 bits as the largest.
pub fn debounce_micros(micros: i64) -> (value: u32)
    ensures
        value == clamp_micros(micros as int),
{
    if micros < 0 {
        0
    } else if micros > MAX_DEBOUNCE_US as i64 {
        MAX_DEBOUNCE_US
    } else {
        micros as u32
    }
}

/// `SetDebounce`: the clamped debounce in microseconds, big-endian.
pub fn set_debounce_frame(micros: i64) -> (bytes: Vec<u8>)
    ensures
        bytes@ == frame(SetupCommand::SetDebounce, be_bytes(clamp_micros(micros as int))),
        bytes@.len() == 7,
        bytes@.subrange(0, 3) == seq![0xDBu8, 0, 4],
        be_value(bytes@.subrange(3, 7)) == clamp_micros(micros as int),
{
    let value: u32 = debounce_micros(micros);
    let b3: u8 = ((value >> 24) & 0xFF) as u8;
    let b2: u8 = ((value >> 16) & 0xFF) as u8;
    let b1: u8 = ((value >> 8) & 0xFF) as u8;
    let b0: u8 = (value & 0xFF) as u8;
    proof {
        assert((value >> 24) & 0xFF == value / 0x100_0000 % 256) by (bit_vector);
        assert((value >> 16) & 0xFF == value / 0x1_0000 % 256) by (bit_vector);
        assert((value >> 8) & 0xFF == value / 0x100 % 256) by (bit_vector);
        assert(value & 0xFF == value % 256) by (bit_vector);
        lemma_be_round_trip(value as int);
    }
    let bytes = SetupCommand::SetDebounce.encode(&[b3, b2, b1, b0]);
    assert(bytes@.subrange(3, 7) == be_bytes(value as int));
    bytes
}

/// Four big-endian bytes spell the value they were made from.
pub proof fn lemma_be_round_trip(value: int)
    requires
        0 <= value <= MAX_DEBOUNCE_US,
    ensures
        be_bytes(value).len() == 4,
        be_value(be_bytes(value)) == value,
{
}

} // verus!
