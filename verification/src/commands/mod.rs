//! The commands that an editor can ask for.

pub mod encode_decode;
pub mod send_message;

use vstd::prelude::*;

verus! {

pub const CMD_SET_TO_NOW: &'static str = "hl7.setTimestampToNow";

pub const CMD_SEND_MESSAGE: &'static str = "hl7.sendMessage";

pub const CMD_GENERATE_CONTROL_ID: &'static str = "hl7.generateControlId";

pub const CMD_ENCODE_TEXT: &'static str = "hl7.encodeText";

pub const CMD_DECODE_TEXT: &'static str = "hl7.decodeText";

pub const CMD_ENCODE_SELECTION: &'static str = "hl7.encodeSelection";

pub const CMD_DECODE_SELECTION: &'static str = "hl7.decodeSelection";

} // verus!
