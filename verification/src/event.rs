//! Events of the device and the key presses they stand for.
//!
//! The device reports each key transition in one byte: bit 7 is set when the
//! key went down, bits 0 to 6 hold the key index.

use crate::config::{Config, KeyMap};
use vstd::prelude::*;

verus! {

/// One transition of a key, named by its key index.
#[derive(Copy, Clone, Debug, PartialEq, Eq, Structural)]
pub enum Event {
    KeyDown(u8),
    KeyUp(u8),
}

/// One call to the key injector.
#[derive(Copy, Clone, Debug, PartialEq, Eq, Structural)]
pub enum Injection {
    /// Press the key with this keycode.
    Down(u16),
    /// Release the key with this keycode.
    Up(u16),
}

impl Event {
    /// The key index that the event names.
    pub open spec fn index(self) -> u8 {
        match self {
            Event::KeyDown(idx) => idx,
            Event::KeyUp(idx) => idx,
        }
    }

    /// The event that a byte of the device stands for.
    pub open spec fn decode(raw: u8) -> Event {
        if raw >= 128 {
            Event::KeyDown((raw % 128) as u8)
        } else {
            Event::KeyUp((raw % 128) as u8)
        }
    }

    /// The byte that stands for an event whose index has seven bits.
    pub open spec fn raw(self) -> int {
        match self {
            Event::KeyDown(idx) => idx + 128,
            Event::KeyUp(idx) => idx as int,
        }
    }

    /// The injector calls an event stands for under `key_maps`: one for each
    /// keycode of the key it names, in their order; none where no key has
    /// that index.
    pub open spec fn injections(self, key_maps: Seq<KeyMap>) -> Seq<Injection> {
        if self.index() < key_maps.len() {
            let keycodes = key_maps[self.index() as int].keycodes@;
            match self {
                Event::KeyDown(_) => keycodes.map_values(|code: u16| Injection::Down(code)),
                Event::KeyUp(_) => keycodes.map_values(|code: u16| Injection::Up(code)),
            }
        } else {
            Seq::empty()
        }
    }

    /// Decodes one byte of the device. Every byte is an event.
    pub fn from_raw(ev_byte: u8) -> (ev: Event)
        ensures
            ev == Event::decode(ev_byte),
            ev.index() == ev_byte & 0x7F,
            ev is KeyDown <==> ev_byte & 0x80 != 0,
    {
        let idx: u8 = ev_byte & 0x7F;
        let state: bool = (ev_byte & 0x80) != 0;
        proof {
            lemma_decode_bits(ev_byte);
        }
        if state {
            Event::KeyDown(idx)
        } else {
            Event::KeyUp(idx)
        }
    }

    /// The injector calls to make for this event, in the order to make them.
    /// An event whose index names no key of `cfg` is dropped.
    pub fn consume(self, cfg: &Config) -> (calls: Vec<Injection>)
        ensures
            calls@ == self.injections(cfg.key_maps@),
    {
        let mut calls: Vec<Injection> = Vec::new();
        let idx: usize = match self {
            Event::KeyDown(idx) => idx as usize,
            Event::KeyUp(idx) => idx as usize,
        };
        if idx < cfg.key_maps.len() {
            let keycodes = &cfg.key_maps[idx].keycodes;
            let mut i: usize = 0;
            while i < keycodes.len()
                invariant
                    i <= keycodes@.len(),
                    idx == self.index(),
                    idx < cfg.key_maps@.len(),
                    keycodes@ == cfg.key_maps@[idx as int].keycodes@,
                    calls@ == self.injections(cfg.key_maps@).take(i as int),
                decreases keycodes@.len() - i,
            {
                let code: u16 = keycodes[i];
                match self {
                    Event::KeyDown(_) => calls.push(Injection::Down(code)),
                    Event::KeyUp(_) => calls.push(Injection::Up(code)),
                }
                i += 1;
            }
        }
        calls
    }
}

/// The two fields of an event byte, read as bits: the low seven are the key
/// index, the eighth is the direction.
pub proof fn lemma_decode_bits(raw: u8)
    ensures
        Event::decode(raw).index() == raw & 0x7F,
        Event::decode(raw) is KeyDown <==> raw & 0x80 != 0,
        Event::decode(raw) is KeyUp <==> raw & 0x80 == 0,
        Event::decode(raw).index() < 128,
{
    assert(raw & 0x7F == raw % 128) by (bit_vector);
    assert((raw & 0x80 != 0) == (raw >= 128)) by (bit_vector);
}

/// No two bytes stand for the same event.
pub proof fn lemma_decode_injective(a: u8, b: u8)
    requires
        Event::decode(a) == Event::decode(b),
    ensures
        a == b,
{
}

/// Each direction with each seven-bit index is the event of exactly the byte
/// `raw()`, and decoding a byte and spelling it again gives the byte back.
pub proof fn lemma_decode_onto(ev: Event, byte: u8)
    ensures
        ev.index() < 128 ==> 0 <= ev.raw() < 256 && Event::decode(ev.raw() as u8) == ev,
        Event::decode(byte).raw() == byte,
{
}

} // verus!
