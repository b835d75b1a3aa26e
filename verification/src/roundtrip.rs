//! What the assembler writes, the decoder reads back.

use crate::assembler::{
    assemble, command_bytes, commands, commands_bytes, property_list_bytes, text_entries_bytes,
    text_entry_bytes, Command, ASSEMBLED_VERSION, LABEL_ELEMENT_TYPE,
};
use crate::decoder::{
    decode, decode_properties, decode_stream, operand_count, plain_instruction, valid_header,
    DecodeError, PropertyList, OP_CREATE_UI, OP_SHOW_UI, TEXT_PROPERTY,
};
use crate::program::{InstructionView, ProgramView, PropertyView};
use vstd::prelude::*;
use vstd::utf8::{decode_utf8, encode_utf8, encode_utf8_decode_utf8, encode_utf8_valid_utf8, valid_utf8};

verus! {

/// The text entries that a list of text values stands for.
pub open spec fn text_entries(texts: Seq<Seq<char>>) -> Seq<PropertyView> {
    texts.map_values(|text: Seq<char>| PropertyView::Text { property_id: TEXT_PROPERTY, text })
}

/// The instruction that a command stands for.
pub open spec fn command_instruction(command: Command) -> InstructionView {
    match command {
        Command::Label { element_id, texts } => InstructionView::CreateUI {
            element_type: LABEL_ELEMENT_TYPE,
            element_id,
            property_count: texts.len() as u8,
            properties: text_entries(texts),
        },
        Command::ShowUi => InstructionView::ShowUI,
    }
}

/// The instructions that a list of commands stands for.
pub open spec fn command_instructions(commands: Seq<Command>) -> Seq<InstructionView> {
    commands.map_values(|command: Command| command_instruction(command))
}

/// Each text value fits the length byte of its entry.
pub open spec fn texts_fit(texts: Seq<Seq<char>>) -> bool {
    forall|i: int| 0 <= i < texts.len() ==> encode_utf8(#[trigger] texts[i]).len() <= 255
}

/// The record of the command holds what the command says: the number of its
/// text values fits the count byte, and each value the length byte.
pub open spec fn fits_record(command: Command) -> bool {
    match command {
        Command::Label { texts, .. } => texts.len() <= 255 && texts_fit(texts),
        Command::ShowUi => true,
    }
}

/// Every command of the source fits its record.
pub open spec fn well_formed_source(source: Seq<char>) -> bool {
    forall|i: int| 0 <= i < commands(source).len() ==> fits_record(#[trigger] commands(source)[i])
}

/// The entries of text values that fit decode to these values, and leave what
/// follows them.
pub proof fn lemma_text_entries_decode(texts: Seq<Seq<char>>, rest: Seq<u8>)
    requires
        texts_fit(texts),
    ensures
        decode_properties(text_entries_bytes(texts) + rest, texts.len()) == (PropertyList {
            properties: text_entries(texts),
            rest,
        }),
    decreases texts.len(),
{
    let s = text_entries_bytes(texts) + rest;
    if texts.len() == 0 {
        assert(text_entries(texts) =~= Seq::<PropertyView>::empty());
    } else {
        let text = texts.first();
        let tail = texts.drop_first();
        let payload = encode_utf8(text);
        let len = payload.len() as int;
        assert forall|i: int| 0 <= i < tail.len() implies encode_utf8(#[trigger] tail[i]).len()
            <= 255 by {}
        lemma_text_entries_decode(tail, rest);
        let after = text_entries_bytes(tail) + rest;
        assert(s.subrange(2, 2 + len) =~= payload);
        assert(s.skip(2 + len) =~= after);
        encode_utf8_valid_utf8(text);
        encode_utf8_decode_utf8(text);
        assert(text_entries(texts) =~= seq![
            PropertyView::Text { property_id: TEXT_PROPERTY, text },
        ] + text_entries(tail));
    }
}

/// The record of a command that fits it decodes to the instruction of the
/// command, and decoding goes on with what follows the record.
pub proof fn lemma_command_decodes(command: Command, rest: Seq<u8>)
    requires
        fits_record(command),
    ensures
        decode_stream(command_bytes(command) + rest) == seq![command_instruction(command)]
            + decode_stream(rest),
{
    let s = command_bytes(command) + rest;
    match command {
        Command::Label { element_id, texts } => {
            let after = text_entries_bytes(texts) + rest;
            assert(s.skip(4) =~= after);
            lemma_text_entries_decode(texts, rest);
        },
        Command::ShowUi => {
            assert(s.skip(1) =~= rest);
        },
    }
}

/// The records of commands that fit them decode to the instructions of the
/// commands.
pub proof fn lemma_commands_decode(commands: Seq<Command>)
    requires
        forall|i: int| 0 <= i < commands.len() ==> fits_record(#[trigger] commands[i]),
    ensures
        decode_stream(commands_bytes(commands)) == command_instructions(commands),
    decreases commands.len(),
{
    if commands.len() > 0 {
        let tail = commands.drop_first();
        assert forall|i: int| 0 <= i < tail.len() implies fits_record(#[trigger] tail[i]) by {}
        lemma_commands_decode(tail);
        lemma_command_decodes(commands.first(), commands_bytes(tail));
    }
}

/// Round trip: the buffer that a well-formed source assembles to decodes, and
/// it decodes to the instructions that the lines of the source stand for, in
/// the order of the lines.
pub proof fn assembled_source_decodes(source: Seq<char>)
    requires
        well_formed_source(source),
    ensures
        decode(assemble(source)) == Ok::<ProgramView, DecodeError>(
            ProgramView {
                version: ASSEMBLED_VERSION,
                instructions: command_instructions(commands(source)),
            },
        ),
{
    let bytes = assemble(source);
    assert(bytes.skip(4) =~= commands_bytes(commands(source)));
    lemma_commands_decode(commands(source));
}

/// Apart from the header, decoding has no error: every buffer that starts
/// with the magic and a version byte decodes to a program with that version.
pub proof fn decoding_fails_on_the_header_only(bytes: Seq<u8>)
    ensures
        valid_header(bytes) ==> decode(bytes) is Ok && decode(bytes)->Ok_0.version == bytes[3],
        !valid_header(bytes) ==> decode(bytes) == Err::<ProgramView, DecodeError>(
            DecodeError::InvalidHeader,
        ),
{
}

} // verus!
