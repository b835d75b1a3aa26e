//! The text assembler: a line-oriented source text to a KBJ buffer.
//!
//! Each line is trimmed. Blank lines and lines that start with `#` are
//! skipped. `label <id> [key="value" ...]` declares an element with one text
//! property for each `text` key; `show_ui` shows what was declared. Any other
//! line is ignored.

use crate::decoder::{MAGIC_0, MAGIC_1, MAGIC_2, OP_CREATE_UI, OP_SHOW_UI, TEXT_PROPERTY};
use crate::text::{
    collect_chars, count_leading_white_space, count_word, find, leading_white_space,
    lemma_leading_white_space_bound, lemma_position_of_bound, lemma_word_after_white_space,
    lemma_word_length_bound, position_of, same_text, starts_with, trim, trimmed, utf8_bytes,
    word_length,
};
use vstd::prelude::*;
use vstd::slice::slice_subrange;
use vstd::utf8::encode_utf8;

verus! {

/// The version byte that the assembler writes.
pub const ASSEMBLED_VERSION: u8 = 1;

/// The element type that a `label` line declares.
pub const LABEL_ELEMENT_TYPE: u8 = 1;

/// What a source line asks for.
pub enum Command {
    /// `label <id> ...`: an element with the text values of its `text` keys.
    Label { element_id: u8, texts: Seq<Seq<char>> },
    /// `show_ui`.
    ShowUi,
}

/// `value` without one double quote at its start and one at its end, where
/// they are there.
pub open spec fn unquoted(value: Seq<char>) -> Seq<char> {
    let opened = if value.len() > 0 && value[0] == '"' {
        value.drop_first()
    } else {
        value
    };
    if opened.len() > 0 && opened.last() == '"' {
        opened.drop_last()
    } else {
        opened
    }
}

/// The text value that a word of a property list gives: the word has the form
/// `text=value`, split at its first `=`.
pub open spec fn word_text(word: Seq<char>) -> Option<Seq<char>> {
    let split = position_of(word, '=');
    if split < word.len() && word.take(split) == "text"@ {
        Some(unquoted(word.skip(split + 1)))
    } else {
        None
    }
}

/// The text values of a property list, in order. The list is a run of words
/// separated by white space.
pub open spec fn text_values(props: Seq<char>) -> Seq<Seq<char>>
    decreases props.len(),
{
    let start = leading_white_space(props);
    let length = word_length(props.skip(start));
    if start >= props.len() {
        Seq::empty()
    } else {
        proof {
            lemma_leading_white_space_bound(props);
            lemma_word_after_white_space(props);
            lemma_word_length_bound(props.skip(start));
        }
        let word = props.subrange(start, start + length);
        let head = match word_text(word) {
            Some(text) => seq![text],
            None => Seq::empty(),
        };
        head + text_values(props.skip(start + length))
    }
}

/// The ASCII decimal digits.
pub open spec fn is_digit(c: char) -> bool {
    0x30 <= c as u32 <= 0x39
}

/// Every character of `s` is a decimal digit.
pub open spec fn all_digits(s: Seq<char>) -> bool {
    forall|i: int| 0 <= i < s.len() ==> is_digit(#[trigger] s[i])
}

/// The number that a run of decimal digits writes.
pub open spec fn decimal_value(digits: Seq<char>) -> nat
    decreases digits.len(),
{
    if digits.len() == 0 {
        0
    } else {
        decimal_value(digits.drop_last()) * 10 + (digits.last() as u32 - 0x30) as nat
    }
}

/// The element id that a word writes: a decimal number of at most 255, with an
/// optional `+` before it. Any other word stands for 0.
pub open spec fn element_id_of(word: Seq<char>) -> u8 {
    let digits = if word.len() > 0 && word[0] == '+' {
        word.drop_first()
    } else {
        word
    };
    if digits.len() > 0 && all_digits(digits) && decimal_value(digits) <= 255 {
        decimal_value(digits) as u8
    } else {
        0
    }
}

/// What a source line asks for, if anything.
pub open spec fn parse_line(line: Seq<char>) -> Option<Command> {
    let t = trimmed(line);
    if t.len() == 0 || t[0] == '#' {
        None
    } else if "label "@.is_prefix_of(t) {
        let rest = t.skip("label "@.len() as int);
        let split = position_of(rest, ' ');
        let props = if split < rest.len() {
            rest.skip(split + 1)
        } else {
            Seq::empty()
        };
        Some(
            Command::Label {
                element_id: element_id_of(rest.take(split)),
                texts: text_values(props),
            },
        )
    } else if t == "show_ui"@ {
        Some(Command::ShowUi)
    } else {
        None
    }
}

/// The commands of a source text, line by line.
pub open spec fn commands(source: Seq<char>) -> Seq<Command>
    decreases source.len(),
{
    if source.len() == 0 {
        Seq::empty()
    } else {
        let end = position_of(source, '\n');
        let head = match parse_line(source.take(end)) {
            Some(command) => seq![command],
            None => Seq::empty(),
        };
        if end < source.len() {
            proof {
                lemma_position_of_bound(source, '\n');
            }
            head + commands(source.skip(end + 1))
        } else {
            head
        }
    }
}

/// One text entry of a property list: the text property id, the low eight
/// bits of the payload's length, and the payload.
pub open spec fn text_entry_bytes(text: Seq<char>) -> Seq<u8> {
    let payload = encode_utf8(text);
    seq![TEXT_PROPERTY, (payload.len() % 256) as u8] + payload
}

/// The text entries of a property list, one after the other.
pub open spec fn text_entries_bytes(texts: Seq<Seq<char>>) -> Seq<u8>
    decreases texts.len(),
{
    if texts.len() == 0 {
        Seq::empty()
    } else {
        text_entry_bytes(texts.first()) + text_entries_bytes(texts.drop_first())
    }
}

/// A property list: the low eight bits of the number of entries, then the
/// entries.
pub open spec fn property_list_bytes(texts: Seq<Seq<char>>) -> Seq<u8> {
    seq![(texts.len() % 256) as u8] + text_entries_bytes(texts)
}

/// The record that a command assembles to.
pub open spec fn command_bytes(command: Command) -> Seq<u8> {
    match command {
        Command::Label { element_id, texts } => seq![
            OP_CREATE_UI,
            LABEL_ELEMENT_TYPE,
            element_id,
        ] + property_list_bytes(texts),
        Command::ShowUi => seq![OP_SHOW_UI],
    }
}

/// The records of a list of commands, one after the other.
pub open spec fn commands_bytes(commands: Seq<Command>) -> Seq<u8>
    decreases commands.len(),
{
    if commands.len() == 0 {
        Seq::empty()
    } else {
        command_bytes(commands.first()) + commands_bytes(commands.drop_first())
    }
}

/// The bytes that a source line adds to the buffer.
pub open spec fn line_bytes(line: Seq<char>) -> Seq<u8> {
    match parse_line(line) {
        Some(command) => command_bytes(command),
        None => Seq::empty(),
    }
}

/// The buffer that a source text assembles to.
pub open spec fn assemble(source: Seq<char>) -> Seq<u8> {
    seq![MAGIC_0, MAGIC_1, MAGIC_2, ASSEMBLED_VERSION] + commands_bytes(commands(source))
}

/// The entries of a list of texts are those of all but the last, followed by
/// the entry of the last.
pub proof fn lemma_text_entries_bytes_push(texts: Seq<Seq<char>>, text: Seq<char>)
    ensures
        text_entries_bytes(texts.push(text)) == text_entries_bytes(texts) + text_entry_bytes(text),
    decreases texts.len(),
{
    if texts.len() == 0 {
        assert(texts.push(text).drop_first() =~= Seq::<Seq<char>>::empty());
        assert(text_entries_bytes(texts.push(text)) =~= text_entry_bytes(text)
            + text_entries_bytes(Seq::<Seq<char>>::empty()));
    } else {
        lemma_text_entries_bytes_push(texts.drop_first(), text);
        assert(texts.push(text).drop_first() =~= texts.drop_first().push(text));
    }
}

/// The records of a list of commands are those of all but the last, followed
/// by the record of the last.
pub proof fn lemma_commands_bytes_push(commands: Seq<Command>, command: Command)
    ensures
        commands_bytes(commands.push(command)) == commands_bytes(commands) + command_bytes(command),
    decreases commands.len(),
{
    if commands.len() == 0 {
        assert(commands.push(command).drop_first() =~= Seq::<Command>::empty());
        assert(commands_bytes(commands.push(command)) =~= command_bytes(command) + commands_bytes(
            Seq::<Command>::empty(),
        ));
    } else {
        lemma_commands_bytes_push(commands.drop_first(), command);
        assert(commands.push(command).drop_first() =~= commands.drop_first().push(command));
    }
}

/// A run of digits writes at least what any of its prefixes writes.
pub proof fn lemma_decimal_value_prefix(digits: Seq<char>, k: int)
    requires
        all_digits(digits),
        0 <= k <= digits.len(),
    ensures
        decimal_value(digits.take(k)) <= decimal_value(digits),
    decreases digits.len(),
{
    if k == digits.len() {
        assert(digits.take(k) =~= digits);
    } else {
        assert(digits.drop_last().take(k) =~= digits.take(k));
        lemma_decimal_value_prefix(digits.drop_last(), k);
    }
}

/// Reads the element id that a word writes.
fn parse_element_id(word: &[char]) -> (id: u8)
    ensures
        id == element_id_of(word@),
{
    let digits = if word.len() > 0 && word[0] == '+' {
        slice_subrange(word, 1, word.len())
    } else {
        word
    };
    if digits.len() == 0 {
        return 0;
    }
    let mut value: u32 = 0;
    let mut i: usize = 0;
    while i < digits.len()
        invariant
            i <= digits.len(),
            digits.len() > 0,
            digits@ == if word@.len() > 0 && word@[0] == '+' {
                word@.drop_first()
            } else {
                word@
            },
            value <= 255,
            all_digits(digits@.take(i as int)),
            value == decimal_value(digits@.take(i as int)),
        decreases digits.len() - i,
    {
        let v: u32 = digits[i] as u32;
        if v < 0x30 || v > 0x39 {
            return 0;
        }
        let next: u32 = value * 10 + (v - 0x30);
        assert(digits@.take(i + 1).drop_last() =~= digits@.take(i as int));
        if next > 255 {
            proof {
                if all_digits(digits@) {
                    lemma_decimal_value_prefix(digits@, i + 1);
                }
            }
            return 0;
        }
        value = next;
        i = i + 1;
    }
    assert(digits@.take(digits.len() as int) =~= digits@);
    value as u8
}

/// Strips one double quote from each end of a value.
fn unquote<'a>(value: &'a [char]) -> (r: &'a [char])
    ensures
        r@ == unquoted(value@),
{
    let opened = if value.len() > 0 && value[0] == '"' {
        slice_subrange(value, 1, value.len())
    } else {
        value
    };
    if opened.len() > 0 && opened[opened.len() - 1] == '"' {
        slice_subrange(opened, 0, opened.len() - 1)
    } else {
        opened
    }
}

/// The text value that a word of a property list gives, if it gives one.
fn text_of_word<'a>(word: &'a [char]) -> (r: Option<&'a [char]>)
    ensures
        match r {
            Some(text) => word_text(word@) == Some(text@),
            None => word_text(word@) is None,
        },
{
    let split = find(word, '=');
    if split < word.len() && same_text(slice_subrange(word, 0, split), "text") {
        Some(unquote(slice_subrange(word, split + 1, word.len())))
    } else {
        None
    }
}

/// The property list that a run of words writes.
fn encode_properties(props: &[char]) -> (bytes: Vec<u8>)
    ensures
        bytes@ == property_list_bytes(text_values(props@)),
{
    let mut count: u8 = 0;
    let mut entries: Vec<u8> = Vec::new();
    let mut pos: usize = 0;
    let ghost mut done: Seq<Seq<char>> = Seq::empty();
    assert(props@.skip(0) =~= props@);
    loop
        invariant
            pos <= props.len(),
            text_values(props@) == done + text_values(props@.skip(pos as int)),
            entries@ == text_entries_bytes(done),
            count == done.len() % 256,
        ensures
            text_values(props@) == done,
            entries@ == text_entries_bytes(done),
            count == done.len() % 256,
        decreases props.len() - pos,
    {
        let rest = slice_subrange(props, pos, props.len());
        let start = count_leading_white_space(rest);
        if start >= rest.len() {
            break ;
        }
        let tail = slice_subrange(rest, start, rest.len());
        let length = count_word(tail);
        proof {
            lemma_word_after_white_space(rest@);
        }
        let word = slice_subrange(tail, 0, length);
        assert(word@ =~= rest@.subrange(start as int, start + length));
        assert(rest@.skip(start + length) =~= props@.skip(pos + start + length));
        match text_of_word(word) {
            Some(text) => {
                let mut payload = utf8_bytes(text);
                entries.push(TEXT_PROPERTY);
                entries.push((payload.len() % 256) as u8);
                entries.append(&mut payload);
                count = count.wrapping_add(1);
                proof {
                    lemma_text_entries_bytes_push(done, text@);
                    done = done.push(text@);
                }
            },
            None => {},
        }
        pos = pos + start + length;
    }
    let mut bytes: Vec<u8> = Vec::new();
    bytes.push(count);
    bytes.append(&mut entries);
    bytes
}

/// The property list of a `label` line, as the bytes that follow the element
/// id: the number of text entries, then each entry. Only words of the form
/// `text=value` give an entry. The count byte and each length byte hold the
/// low eight bits of what they count.
pub fn parse_properties(props: &str) -> (bytes: Vec<u8>)
    ensures
        bytes@ == property_list_bytes(text_values(props@)),
{
    let chars = collect_chars(props);
    encode_properties(chars.as_slice())
}

/// Appends what a source line assembles to.
fn assemble_line(line: &[char], out: &mut Vec<u8>)
    ensures
        final(out)@ == old(out)@ + line_bytes(line@),
{
    let t = trim(line);
    proof {
        reveal_strlit("label ");
    }
    if t.len() == 0 || t[0] == '#' {
        return ;
    }
    if starts_with(t, "label ") {
        let rest = slice_subrange(t, 6, t.len());
        let split = find(rest, ' ');
        let element_id = parse_element_id(slice_subrange(rest, 0, split));
        let props = if split < rest.len() {
            slice_subrange(rest, split + 1, rest.len())
        } else {
            slice_subrange(rest, 0, 0)
        };
        out.push(OP_CREATE_UI);
        out.push(LABEL_ELEMENT_TYPE);
        out.push(element_id);
        let mut list = encode_properties(props);
        out.append(&mut list);
    } else if same_text(t, "show_ui") {
        out.push(OP_SHOW_UI);
    }
}

/// Assembles the contents of a source file.
///
/// The length byte of a text entry and the count byte of a property list hold
/// the low eight bits of the length and of the count: a value of more than 255
/// bytes, or a line with more than 255 text values, gives a buffer that does
/// not decode to what the line says.
pub fn parse_text_file(source: &str) -> (bytes: Vec<u8>)
    ensures
        bytes@ == assemble(source@),
{
    let chars = collect_chars(source);
    let src = chars.as_slice();
    let mut out: Vec<u8> = Vec::new();
    out.push(MAGIC_0);
    out.push(MAGIC_1);
    out.push(MAGIC_2);
    out.push(ASSEMBLED_VERSION);
    let ghost header = out@;
    let mut pos: usize = 0;
    let ghost mut done: Seq<Command> = Seq::empty();
    assert(src@.skip(0) =~= src@);
    while pos < src.len()
        invariant
            pos <= src.len(),
            src@ == source@,
            commands(src@) == done + commands(src@.skip(pos as int)),
            out@ == header + commands_bytes(done),
        decreases src.len() - pos,
    {
        let rest = slice_subrange(src, pos, src.len());
        let end = find(rest, '\n');
        let line = slice_subrange(rest, 0, end);
        assemble_line(line, &mut out);
        proof {
            match parse_line(line@) {
                Some(command) => {
                    lemma_commands_bytes_push(done, command);
                    done = done.push(command);
                },
                None => {},
            }
        }
        if end < rest.len() {
            assert(rest@.skip(end + 1) =~= src@.skip(pos + end + 1));
            pos = pos + end + 1;
        } else {
            pos = src.len();
        }
    }
    out
}

} // verus!
