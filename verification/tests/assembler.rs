use nodeco::{
    parse_kbj_file, parse_properties, parse_text_file, Instruction, Program, Property,
};

fn label(id: u8, texts: &[&str]) -> Instruction {
    Instruction::CreateUI {
        element_type: 1,
        element_id: id,
        property_count: texts.len() as u8,
        properties: texts
            .iter()
            .map(|t| Property::Text { property_id: 1, text: String::from(*t) })
            .collect(),
    }
}

#[test]
fn properties_of_one_text() {
    assert_eq!(parse_properties("text=\"Hi\""), vec![1, 1, 2, b'H', b'i']);
}

#[test]
fn properties_without_quotes() {
    assert_eq!(parse_properties("text=Hi"), vec![1, 1, 2, b'H', b'i']);
}

#[test]
fn properties_empty() {
    assert_eq!(parse_properties(""), vec![0]);
    assert_eq!(parse_properties("   \t "), vec![0]);
}

#[test]
fn properties_skip_unknown_keys_and_bare_words() {
    assert_eq!(parse_properties("color=red text=a size width=3"), vec![1, 1, 1, b'a']);
}

#[test]
fn properties_split_at_first_equals() {
    assert_eq!(parse_properties("text=a=b"), vec![1, 1, 3, b'a', b'=', b'b']);
}

#[test]
fn properties_quotes_are_stripped_once() {
    assert_eq!(parse_properties("text=\"\"a\"\""), vec![1, 1, 3, b'"', b'a', b'"']);
    assert_eq!(parse_properties("text=\""), vec![1, 1, 0]);
    assert_eq!(parse_properties("text="), vec![1, 1, 0]);
}

#[test]
fn properties_value_ends_at_white_space() {
    assert_eq!(
        parse_properties("text=\"Hello World\""),
        vec![1, 1, 5, b'H', b'e', b'l', b'l', b'o']
    );
}

#[test]
fn properties_split_on_unicode_white_space() {
    assert_eq!(
        parse_properties("text=a\u{3000}text=b\u{a0}\u{2003}text=c"),
        vec![3, 1, 1, b'a', 1, 1, b'b', 1, 1, b'c']
    );
}

#[test]
fn properties_zero_width_space_is_no_separator() {
    let bytes = parse_properties("text=a\u{200b}b");
    assert_eq!(bytes, vec![1, 1, 5, b'a', 0xE2, 0x80, 0x8B, b'b']);
}

#[test]
fn properties_text_is_utf8() {
    assert_eq!(
        parse_properties("text=\u{e9}\u{20ac}\u{1f600}"),
        vec![1, 1, 9, 0xC3, 0xA9, 0xE2, 0x82, 0xAC, 0xF0, 0x9F, 0x98, 0x80]
    );
}

#[test]
fn properties_length_byte_wraps() {
    let value = "x".repeat(300);
    let bytes = parse_properties(&format!("text={}", value));
    assert_eq!(bytes.len(), 3 + 300);
    assert_eq!(&bytes[..3], &[1, 1, 44]);
}

#[test]
fn properties_count_byte_wraps() {
    let props = "text=a ".repeat(257);
    let bytes = parse_properties(&props);
    assert_eq!(bytes[0], 1);
    assert_eq!(bytes.len(), 1 + 257 * 3);
}

#[test]
fn assembles_header_only() {
    assert_eq!(parse_text_file(""), vec![0x4E, 0x43, 0x4F, 0x01]);
}

#[test]
fn assembles_label_and_show() {
    let source = "# a comment\n\nlabel 0 text=\"HI!\"\n  show_ui  \nnonsense line\n";
    assert_eq!(
        parse_text_file(source),
        vec![0x4E, 0x43, 0x4F, 0x01, 0x10, 0x01, 0x00, 0x01, 0x01, 0x03, b'H', b'I', b'!', 0x13]
    );
}

#[test]
fn assembles_with_carriage_returns_and_no_final_newline() {
    assert_eq!(
        parse_text_file("label 7\r\nshow_ui"),
        vec![0x4E, 0x43, 0x4F, 0x01, 0x10, 0x01, 0x07, 0x00, 0x13]
    );
}

#[test]
fn label_ids() {
    let id_of = |line: &str| parse_text_file(line)[6];
    assert_eq!(id_of("label 255"), 255);
    assert_eq!(id_of("label 256"), 0);
    assert_eq!(id_of("label +12"), 12);
    assert_eq!(id_of("label -1"), 0);
    assert_eq!(id_of("label 007"), 7);
    assert_eq!(id_of("label 0000000000000000000000012"), 12);
    assert_eq!(id_of("label x"), 0);
    assert_eq!(id_of("label +"), 0);
    assert_eq!(id_of("label 1x text=a"), 0);
    assert_eq!(id_of("label  5"), 0);
}

#[test]
fn label_with_empty_id_takes_the_rest_as_properties() {
    assert_eq!(
        parse_text_file("label  text=a"),
        vec![0x4E, 0x43, 0x4F, 0x01, 0x10, 0x01, 0x00, 0x01, 0x01, 0x01, b'a']
    );
}

#[test]
fn lines_that_are_no_commands() {
    let header = vec![0x4E, 0x43, 0x4F, 0x01];
    assert_eq!(parse_text_file("label"), header);
    assert_eq!(parse_text_file("label\t1"), header);
    assert_eq!(parse_text_file("show_ui now"), header);
    assert_eq!(parse_text_file("Show_UI"), header);
    assert_eq!(parse_text_file("#label 1"), header);
    assert_eq!(parse_text_file("  # show_ui"), header);
}

#[test]
fn round_trip_of_labels_and_show() {
    let source = "label 0 text=\"Root\"\nlabel 1 text=one text=\u{e9}t\u{e9}\nlabel 2\nshow_ui\n";
    let program = parse_kbj_file(&parse_text_file(source)).unwrap();
    assert_eq!(
        program,
        Program {
            version: 1,
            instructions: vec![
                label(0, &["Root"]),
                label(1, &["one", "\u{e9}t\u{e9}"]),
                label(2, &[]),
                Instruction::ShowUI,
            ],
        }
    );
}

#[test]
fn round_trip_at_the_limits() {
    let value = "y".repeat(255);
    let props = format!("text={} ", value).repeat(255);
    let source = format!("label 9 {}\nshow_ui", props);
    let program = parse_kbj_file(&parse_text_file(&source)).unwrap();
    assert_eq!(program.instructions.len(), 2);
    let texts: Vec<&str> = std::iter::repeat(value.as_str()).take(255).collect();
    assert_eq!(program.instructions[0], label(9, &texts));
    assert_eq!(program.instructions[1], Instruction::ShowUI);
}
