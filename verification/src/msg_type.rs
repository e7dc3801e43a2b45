//! Message type identifiers (opcodes).

use vstd::prelude::*;

verus! {

pub const VIBE_UPDATE: u8 = 0x01;

pub const CONSERVATION_CHECK: u8 = 0x02;

pub const AGENT_ACTION: u8 = 0x03;

pub const ROOM_EVENT: u8 = 0x04;

pub const WORLD_SNAPSHOT: u8 = 0x05;

pub const PING: u8 = 0x06;

pub const PONG: u8 = 0x07;

} // verus!
