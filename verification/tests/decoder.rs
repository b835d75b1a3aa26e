use nodeco::{parse_kbj_file, DecodeError, Instruction, Program, Property};

#[test]
fn decodes_let_and_print() {
    let bytes = [0x4E, 0x43, 0x4F, 0x01, 0x01, 0x05, 0x2A, 0x03, 0x05];
    let program = parse_kbj_file(&bytes).unwrap();
    assert_eq!(
        program,
        Program {
            version: 1,
            instructions: vec![
                Instruction::Let { var_id: 5, value: 42 },
                Instruction::Print { var_id: 5 },
            ],
        }
    );
}

#[test]
fn decodes_label_with_text() {
    let bytes = [
        0x4E, 0x43, 0x4F, 0x01, 0x10, 0x02, 0x00, 0x01, 0x01, 0x03, 0x48, 0x49, 0x21, 0x13,
    ];
    let program = parse_kbj_file(&bytes).unwrap();
    assert_eq!(
        program.instructions,
        vec![
            Instruction::CreateUI {
                element_type: 2,
                element_id: 0,
                property_count: 1,
                properties: vec![Property::Text { property_id: 1, text: String::from("HI!") }],
            },
            Instruction::ShowUI,
        ]
    );
}

#[test]
fn rejects_short_buffer() {
    assert_eq!(parse_kbj_file(&[0x4E, 0x43, 0x4F]), Err(DecodeError::InvalidHeader));
}

fn decoded(stream: &[u8]) -> Vec<Instruction> {
    let mut bytes = vec![0x4E, 0x43, 0x4F, 0x07];
    bytes.extend_from_slice(stream);
    let program = parse_kbj_file(&bytes).unwrap();
    assert_eq!(program.version, 7);
    program.instructions
}

#[test]
fn rejects_wrong_magic() {
    assert_eq!(parse_kbj_file(&[]), Err(DecodeError::InvalidHeader));
    assert_eq!(parse_kbj_file(&[0x4E, 0x43, 0x4E, 0x01]), Err(DecodeError::InvalidHeader));
    assert_eq!(parse_kbj_file(&[0x4F, 0x43, 0x4F, 0x01, 0x13]), Err(DecodeError::InvalidHeader));
    assert_eq!(parse_kbj_file(&[0x4E, 0x44, 0x4F, 0x01]), Err(DecodeError::InvalidHeader));
}

#[test]
fn accepts_any_version() {
    for version in [0u8, 1, 2, 0x7F, 0xFF] {
        let program = parse_kbj_file(&[0x4E, 0x43, 0x4F, version]).unwrap();
        assert_eq!(program, Program { version, instructions: vec![] });
    }
}

#[test]
fn decodes_every_opcode() {
    assert_eq!(
        decoded(&[
            0x01, 1, 2, 0x02, 3, 4, 0x03, 5, 0x04, 6, 7, 8, 0x11, 9, 10, 11, 0x12, 12, 13, 14,
            0x13, 0x20, 0x21, 0x22, 0x00, 0xFF,
        ]),
        vec![
            Instruction::Let { var_id: 1, value: 2 },
            Instruction::Assign { var_id: 3, value: 4 },
            Instruction::Print { var_id: 5 },
            Instruction::Add { dest_id: 6, src1_id: 7, src2_id: 8 },
            Instruction::SetUIProperty { element_id: 9, property_id: 10, value: 11 },
            Instruction::OnUIEvent { element_id: 12, event_type: 13, handler_id: 14 },
            Instruction::ShowUI,
            Instruction::CheckForUpdate,
            Instruction::ApplyUpdate,
            Instruction::Unknown(0x22),
            Instruction::Unknown(0x00),
            Instruction::Unknown(0xFF),
        ]
    );
}

#[test]
fn truncated_operands_end_the_stream() {
    assert_eq!(decoded(&[0x13, 0x01, 5]), vec![Instruction::ShowUI]);
    assert_eq!(decoded(&[0x13, 0x02]), vec![Instruction::ShowUI]);
    assert_eq!(decoded(&[0x13, 0x03]), vec![Instruction::ShowUI]);
    assert_eq!(decoded(&[0x13, 0x04, 1, 2]), vec![Instruction::ShowUI]);
    assert_eq!(decoded(&[0x13, 0x10, 1, 2]), vec![Instruction::ShowUI]);
    assert_eq!(decoded(&[0x13, 0x11, 1, 2]), vec![Instruction::ShowUI]);
    assert_eq!(decoded(&[0x13, 0x12, 1, 2]), vec![Instruction::ShowUI]);
}

fn create(count: u8, properties: Vec<Property>) -> Instruction {
    Instruction::CreateUI { element_type: 3, element_id: 9, property_count: count, properties }
}

#[test]
fn create_ui_with_mixed_properties() {
    assert_eq!(
        decoded(&[0x10, 3, 9, 3, 2, 50, 1, 2, b'o', b'k', 7, 1, 0x13]),
        vec![
            create(
                3,
                vec![
                    Property::Number { property_id: 2, value: 50 },
                    Property::Text { property_id: 1, text: String::from("ok") },
                    Property::Number { property_id: 7, value: 1 },
                ]
            ),
            Instruction::ShowUI,
        ]
    );
}

#[test]
fn create_ui_without_properties() {
    assert_eq!(decoded(&[0x10, 3, 9, 0, 0x13]), vec![create(0, vec![]), Instruction::ShowUI]);
}

#[test]
fn create_ui_with_empty_text() {
    assert_eq!(
        decoded(&[0x10, 3, 9, 1, 1, 0, 0x13]),
        vec![
            create(1, vec![Property::Text { property_id: 1, text: String::new() }]),
            Instruction::ShowUI,
        ]
    );
}

#[test]
fn create_ui_list_ends_with_the_buffer() {
    assert_eq!(
        decoded(&[0x10, 3, 9, 5, 2, 50]),
        vec![create(5, vec![Property::Number { property_id: 2, value: 50 }])]
    );
    assert_eq!(decoded(&[0x10, 3, 9, 5]), vec![create(5, vec![])]);
}

#[test]
fn create_ui_cut_inside_an_entry_ends_the_stream() {
    // a numeric entry without its value
    assert_eq!(
        decoded(&[0x10, 3, 9, 2, 2, 50, 0x13]),
        vec![create(2, vec![Property::Number { property_id: 2, value: 50 }])]
    );
    // a text entry without its length
    assert_eq!(decoded(&[0x10, 3, 9, 1, 1]), vec![create(1, vec![])]);
    // a text entry whose length runs past the end
    assert_eq!(decoded(&[0x10, 3, 9, 1, 1, 4, b'a', b'b', 0x13]), vec![create(1, vec![])]);
}

#[test]
fn create_ui_drops_text_that_is_not_utf8() {
    assert_eq!(
        decoded(&[0x10, 3, 9, 3, 1, 2, 0xFF, 0xFE, 1, 1, b'a', 4, 5, 0x13]),
        vec![
            create(
                3,
                vec![
                    Property::Text { property_id: 1, text: String::from("a") },
                    Property::Number { property_id: 4, value: 5 },
                ]
            ),
            Instruction::ShowUI,
        ]
    );
}

#[test]
fn create_ui_text_of_full_length() {
    let mut stream = vec![0x10, 3, 9, 1, 1, 255];
    stream.extend(std::iter::repeat(b'z').take(255));
    stream.push(0x21);
    assert_eq!(
        decoded(&stream),
        vec![
            create(1, vec![Property::Text { property_id: 1, text: "z".repeat(255) }]),
            Instruction::ApplyUpdate,
        ]
    );
}

#[test]
fn decoding_any_tail_after_a_valid_header_succeeds() {
    let mut seed: u32 = 12345;
    for round in 0..200 {
        let mut bytes = vec![0x4E, 0x43, 0x4F, round as u8];
        let length = (round * 7) % 61;
        for _ in 0..length {
            seed = seed.wrapping_mul(1664525).wrapping_add(1013904223);
            bytes.push((seed >> 24) as u8 % 0x24);
        }
        let program = parse_kbj_file(&bytes).unwrap();
        assert_eq!(program.version, round as u8);
        assert!(program.instructions.len() <= length);
    }
}
