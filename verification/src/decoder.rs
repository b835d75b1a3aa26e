//! The binary container format and its decoder.
//!
//! A buffer starts with the three magic bytes `N`, `C`, `O` and a version byte.
//! The instruction stream follows: one opcode byte, then the operands of that
//! opcode. A stream that ends inside a record decodes to the records before it.

use crate::program::{
    instruction_views, property_views, Instruction, InstructionView, Program, ProgramView,
    Property, PropertyView,
};
use vstd::prelude::*;
use vstd::slice::slice_subrange;
use vstd::utf8::{decode_utf8, encode_utf8, encode_utf8_decode_utf8, valid_utf8};

verus! {

/// The first magic byte, `N`.
pub const MAGIC_0: u8 = 0x4E;

/// The second magic byte, `C`.
pub const MAGIC_1: u8 = 0x43;

/// The third magic byte, `O`.
pub const MAGIC_2: u8 = 0x4F;

/// `Let`: a register and a value.
pub const OP_LET: u8 = 0x01;

/// `Assign`: a register and a value.
pub const OP_ASSIGN: u8 = 0x02;

/// `Print`: a register.
pub const OP_PRINT: u8 = 0x03;

/// `Add`: the destination and the two sources.
pub const OP_ADD: u8 = 0x04;

/// `CreateUI`: an element type, an element id, a property count, and the
/// property list.
pub const OP_CREATE_UI: u8 = 0x10;

/// `SetUIProperty`: an element id, a property id and a value.
pub const OP_SET_UI_PROPERTY: u8 = 0x11;

/// `OnUIEvent`: an element id, an event type and a handler id.
pub const OP_ON_UI_EVENT: u8 = 0x12;

/// `ShowUI`, without operands.
pub const OP_SHOW_UI: u8 = 0x13;

/// `CheckForUpdate`, without operands.
pub const OP_CHECK_FOR_UPDATE: u8 = 0x20;

/// `ApplyUpdate`, without operands.
pub const OP_APPLY_UPDATE: u8 = 0x21;

/// The property id whose payload is length-prefixed UTF-8 text.
pub const TEXT_PROPERTY: u8 = 1;

/// Why a buffer was not decoded.
#[derive(Debug, Clone, Copy, PartialEq, Eq)]
pub enum DecodeError {
    /// The buffer is shorter than four bytes or does not start with the magic.
    InvalidHeader,
}

/// The buffer holds the magic and a version byte.
pub open spec fn valid_header(bytes: Seq<u8>) -> bool {
    &&& bytes.len() >= 4
    &&& bytes[0] == MAGIC_0
    &&& bytes[1] == MAGIC_1
    &&& bytes[2] == MAGIC_2
}

/// The number of fixed operand bytes that follow an opcode. For `CreateUI`
/// these are the element type, the element id and the declared property count.
pub open spec fn operand_count(op: u8) -> nat {
    if op == OP_LET || op == OP_ASSIGN {
        2
    } else if op == OP_PRINT {
        1
    } else if op == OP_ADD || op == OP_CREATE_UI || op == OP_SET_UI_PROPERTY || op
        == OP_ON_UI_EVENT {
        3
    } else {
        0
    }
}

/// The instruction at the head of `s`, for every opcode but `CreateUI`.
pub open spec fn plain_instruction(s: Seq<u8>) -> InstructionView
    recommends
        s.len() > operand_count(s[0]),
        s[0] != OP_CREATE_UI,
{
    let op = s[0];
    if op == OP_LET {
        InstructionView::Let { var_id: s[1], value: s[2] }
    } else if op == OP_ASSIGN {
        InstructionView::Assign { var_id: s[1], value: s[2] }
    } else if op == OP_PRINT {
        InstructionView::Print { var_id: s[1] }
    } else if op == OP_ADD {
        InstructionView::Add { dest_id: s[1], src1_id: s[2], src2_id: s[3] }
    } else if op == OP_SET_UI_PROPERTY {
        InstructionView::SetUIProperty { element_id: s[1], property_id: s[2], value: s[3] }
    } else if op == OP_ON_UI_EVENT {
        InstructionView::OnUIEvent { element_id: s[1], event_type: s[2], handler_id: s[3] }
    } else if op == OP_SHOW_UI {
        InstructionView::ShowUI
    } else if op == OP_CHECK_FOR_UPDATE {
        InstructionView::CheckForUpdate
    } else if op == OP_APPLY_UPDATE {
        InstructionView::ApplyUpdate
    } else {
        InstructionView::Unknown(op)
    }
}

/// What a property list decodes to.
pub struct PropertyList {
    /// The entries that were read, in order. A text entry whose payload is not
    /// UTF-8 is read and left out.
    pub properties: Seq<PropertyView>,
    /// The bytes that remain to be decoded after the list: empty when an entry
    /// is cut short by the end of the buffer.
    pub rest: Seq<u8>,
}

/// The property list at the head of `s`, of at most `count` entries. An entry
/// is a property id followed either, for [`TEXT_PROPERTY`], by a length byte
/// and that many bytes of text, or by one numeric byte.
pub open spec fn decode_properties(s: Seq<u8>, count: nat) -> PropertyList
    decreases count,
{
    if count == 0 || s.len() == 0 {
        PropertyList { properties: Seq::empty(), rest: s }
    } else if s.len() < 2 {
        PropertyList { properties: Seq::empty(), rest: Seq::empty() }
    } else if s[0] == TEXT_PROPERTY {
        let len = s[1] as int;
        if s.len() < 2 + len {
            PropertyList { properties: Seq::empty(), rest: Seq::empty() }
        } else {
            let payload = s.subrange(2, 2 + len);
            let tail = decode_properties(s.skip(2 + len), (count - 1) as nat);
            let head = if valid_utf8(payload) {
                seq![PropertyView::Text { property_id: s[0], text: decode_utf8(payload) }]
            } else {
                Seq::empty()
            };
            PropertyList { properties: head + tail.properties, rest: tail.rest }
        }
    } else {
        let tail = decode_properties(s.skip(2), (count - 1) as nat);
        PropertyList {
            properties: seq![PropertyView::Number { property_id: s[0], value: s[1] }]
                + tail.properties,
            rest: tail.rest,
        }
    }
}

/// A property list leaves no more bytes than it was given.
pub proof fn lemma_properties_rest(s: Seq<u8>, count: nat)
    ensures
        decode_properties(s, count).rest.len() <= s.len(),
    decreases count,
{
    if count == 0 || s.len() < 2 {
    } else if s[0] == TEXT_PROPERTY {
        let len = s[1] as int;
        if s.len() >= 2 + len {
            lemma_properties_rest(s.skip(2 + len), (count - 1) as nat);
        }
    } else {
        lemma_properties_rest(s.skip(2), (count - 1) as nat);
    }
}

/// The instructions that an instruction stream decodes to.
pub open spec fn decode_stream(s: Seq<u8>) -> Seq<InstructionView>
    decreases s.len(),
{
    if s.len() == 0 || s.len() <= operand_count(s[0]) {
        Seq::empty()
    } else if s[0] == OP_CREATE_UI {
        let list = decode_properties(s.skip(4), s[3] as nat);
        proof {
            lemma_properties_rest(s.skip(4), s[3] as nat);
        }
        seq![
            InstructionView::CreateUI {
                element_type: s[1],
                element_id: s[2],
                property_count: s[3],
                properties: list.properties,
            },
        ] + decode_stream(list.rest)
    } else {
        seq![plain_instruction(s)] + decode_stream(s.skip(1 + operand_count(s[0]) as int))
    }
}

/// What a whole buffer decodes to.
pub open spec fn decode(bytes: Seq<u8>) -> Result<ProgramView, DecodeError> {
    if valid_header(bytes) {
        Ok(ProgramView { version: bytes[3], instructions: decode_stream(bytes.skip(4)) })
    } else {
        Err(DecodeError::InvalidHeader)
    }
}

/// `std::str::from_utf8`: the bytes as a string slice when they are valid
/// UTF-8, and nothing otherwise. The slice, when there is one, is made of
/// exactly the bytes given.
#[verifier::external_body]
fn str_from_utf8<'a>(bytes: &'a [u8]) -> (r: Option<&'a str>)
    ensures
        r is Some <==> valid_utf8(bytes@),
        r matches Some(s) ==> encode_utf8(s@) == bytes@,
{
    match std::str::from_utf8(bytes) {
        Ok(s) => Some(s),
        Err(_) => None,
    }
}

/// The text that a payload holds, if it is UTF-8.
fn read_text(payload: &[u8]) -> (r: Option<String>)
    ensures
        r is Some <==> valid_utf8(payload@),
        r matches Some(text) ==> text@ == decode_utf8(payload@),
{
    match str_from_utf8(payload) {
        Some(s) => {
            proof {
                encode_utf8_decode_utf8(s@);
            }
            Some(s.to_owned())
        },
        None => None,
    }
}

/// Reads the property list that starts at `start`. Returns the entries and the
/// position at which decoding goes on: the end of the buffer when an entry is
/// cut short.
fn read_properties(buf: &[u8], start: usize, count: u8) -> (r: (Vec<Property>, usize))
    requires
        start <= buf.len(),
    ensures
        start <= r.1 <= buf.len(),
        property_views(r.0@) == decode_properties(buf@.skip(start as int), count as nat).properties,
        buf@.skip(r.1 as int) == decode_properties(buf@.skip(start as int), count as nat).rest,
{
    let mut properties: Vec<Property> = Vec::new();
    let mut read: u8 = 0;
    let mut idx: usize = start;
    let ghost whole = decode_properties(buf@.skip(start as int), count as nat);
    while read < count && idx < buf.len()
        invariant
            start <= idx <= buf.len(),
            read <= count,
            whole == decode_properties(buf@.skip(start as int), count as nat),
            whole.properties == property_views(properties@) + decode_properties(
                buf@.skip(idx as int),
                (count - read) as nat,
            ).properties,
            whole.rest == decode_properties(buf@.skip(idx as int), (count - read) as nat).rest,
        ensures
            read == count || idx == buf.len(),
        decreases count - read,
    {
        let ghost s = buf@.skip(idx as int);
        let remaining: usize = buf.len() - idx;
        let property_id: u8 = buf[idx];
        if remaining < 2 {
            idx = buf.len();
            break ;
        }
        let second: u8 = buf[idx + 1];
        if property_id == TEXT_PROPERTY {
            let len: usize = second as usize;
            if remaining - 2 < len {
                idx = buf.len();
                break ;
            }
            let payload = slice_subrange(buf, idx + 2, idx + 2 + len);
            assert(payload@ =~= s.subrange(2, 2 + len));
            assert(s.skip(2 + len) =~= buf@.skip(idx + 2 + len));
            match read_text(payload) {
                Some(text) => {
                    properties.push(Property::Text { property_id, text });
                },
                None => {},
            }
            idx = idx + 2 + len;
        } else {
            assert(s.skip(2) =~= buf@.skip(idx + 2));
            properties.push(Property::Number { property_id, value: second });
            idx = idx + 2;
        }
        read = read + 1;
    }
    (properties, idx)
}

/// The number of fixed operand bytes that follow an opcode.
fn operands(op: u8) -> (n: usize)
    ensures
        n == operand_count(op),
{
    if op == OP_LET || op == OP_ASSIGN {
        2
    } else if op == OP_PRINT {
        1
    } else if op == OP_ADD || op == OP_CREATE_UI || op == OP_SET_UI_PROPERTY || op
        == OP_ON_UI_EVENT {
        3
    } else {
        0
    }
}

/// Reads the instruction at `at`, whose operands the buffer holds.
fn read_plain(buf: &[u8], at: usize) -> (r: Instruction)
    requires
        at < buf.len(),
        buf.len() - at > operand_count(buf[at as int]),
        buf[at as int] != OP_CREATE_UI,
    ensures
        r@ == plain_instruction(buf@.skip(at as int)),
{
    let op: u8 = buf[at];
    if op == OP_LET {
        Instruction::Let { var_id: buf[at + 1], value: buf[at + 2] }
    } else if op == OP_ASSIGN {
        Instruction::Assign { var_id: buf[at + 1], value: buf[at + 2] }
    } else if op == OP_PRINT {
        Instruction::Print { var_id: buf[at + 1] }
    } else if op == OP_ADD {
        Instruction::Add { dest_id: buf[at + 1], src1_id: buf[at + 2], src2_id: buf[at + 3] }
    } else if op == OP_SET_UI_PROPERTY {
        Instruction::SetUIProperty {
            element_id: buf[at + 1],
            property_id: buf[at + 2],
            value: buf[at + 3],
        }
    } else if op == OP_ON_UI_EVENT {
        Instruction::OnUIEvent {
            element_id: buf[at + 1],
            event_type: buf[at + 2],
            handler_id: buf[at + 3],
        }
    } else if op == OP_SHOW_UI {
        Instruction::ShowUI
    } else if op == OP_CHECK_FOR_UPDATE {
        Instruction::CheckForUpdate
    } else if op == OP_APPLY_UPDATE {
        Instruction::ApplyUpdate
    } else {
        Instruction::Unknown(op)
    }
}

/// Decodes the contents of a KBJ file.
///
/// Fails only on the header. A stream that ends inside a record is no error:
/// the records before it are returned, and the property list of a `CreateUI`
/// that the end of the buffer cuts short holds the entries read up to there.
pub fn parse_kbj_file(buf: &[u8]) -> (r: Result<Program, DecodeError>)
    ensures
        r is Ok <==> valid_header(buf@),
        r matches Ok(program) ==> decode(buf@) == Ok::<ProgramView, DecodeError>(program@),
        r matches Err(e) ==> e == DecodeError::InvalidHeader,
{
    if buf.len() < 4 || buf[0] != MAGIC_0 || buf[1] != MAGIC_1 || buf[2] != MAGIC_2 {
        return Err(DecodeError::InvalidHeader);
    }
    let version: u8 = buf[3];
    let mut instructions: Vec<Instruction> = Vec::new();
    let mut i: usize = 4;
    while i < buf.len()
        invariant
            4 <= i <= buf.len(),
            decode_stream(buf@.skip(4)) == instruction_views(instructions@) + decode_stream(
                buf@.skip(i as int),
            ),
        decreases buf.len() - i,
    {
        let ghost s = buf@.skip(i as int);
        let op: u8 = buf[i];
        let width: usize = operands(op);
        if buf.len() - i <= width {
            i = buf.len();
        } else if op == OP_CREATE_UI {
            let element_type: u8 = buf[i + 1];
            let element_id: u8 = buf[i + 2];
            let property_count: u8 = buf[i + 3];
            assert(s.skip(4) =~= buf@.skip(i + 4));
            let (properties, next) = read_properties(buf, i + 4, property_count);
            instructions.push(
                Instruction::CreateUI { element_type, element_id, property_count, properties },
            );
            i = next;
        } else {
            let instruction = read_plain(buf, i);
            assert(s.skip(1 + width) =~= buf@.skip(i + 1 + width));
            instructions.push(instruction);
            i = i + 1 + width;
        }
    }
    Ok(Program { version, instructions })
}

} // verus!
