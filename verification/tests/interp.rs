use nodeco::{execute_program, parse_kbj_file, Event, Instruction, Program, Property, ScalarInterpreter};

fn printed(value: u8) -> Event {
    Event::Print { value, text: value.to_string() }
}

fn run(instructions: Vec<Instruction>) -> Vec<Event> {
    execute_program(&Program { version: 1, instructions })
}

#[test]
fn prints_what_was_let() {
    let program = parse_kbj_file(&[0x4E, 0x43, 0x4F, 0x01, 0x01, 0x05, 0x2A, 0x03, 0x05]).unwrap();
    assert_eq!(execute_program(&program), vec![printed(42)]);
}

#[test]
fn registers_start_at_zero() {
    assert_eq!(
        run(vec![Instruction::Print { var_id: 0 }, Instruction::Print { var_id: 255 }]),
        vec![printed(0), printed(0)]
    );
    let interpreter = ScalarInterpreter::new();
    for id in 0..=255u8 {
        assert_eq!(interpreter.register(id), 0);
    }
}

#[test]
fn add_wraps() {
    let events = run(vec![
        Instruction::Let { var_id: 1, value: 250 },
        Instruction::Let { var_id: 2, value: 10 },
        Instruction::Add { dest_id: 3, src1_id: 1, src2_id: 2 },
        Instruction::Print { var_id: 3 },
    ]);
    assert_eq!(events, vec![printed(4)]);
}

#[test]
fn add_in_either_order() {
    for (a, b) in [(250u8, 10u8), (0, 0), (255, 255), (1, 2), (128, 128)] {
        let mut left = ScalarInterpreter::new();
        let mut right = ScalarInterpreter::new();
        for machine in [&mut left, &mut right] {
            machine.step(&Instruction::Let { var_id: 1, value: a });
            machine.step(&Instruction::Assign { var_id: 2, value: b });
        }
        left.step(&Instruction::Add { dest_id: 3, src1_id: 1, src2_id: 2 });
        right.step(&Instruction::Add { dest_id: 3, src1_id: 2, src2_id: 1 });
        assert_eq!(left.register(3), right.register(3));
        assert_eq!(left.register(3), a.wrapping_add(b));
    }
}

#[test]
fn add_may_read_its_destination() {
    let mut machine = ScalarInterpreter::new();
    machine.step(&Instruction::Let { var_id: 9, value: 200 });
    machine.step(&Instruction::Add { dest_id: 9, src1_id: 9, src2_id: 9 });
    assert_eq!(machine.register(9), 144);
}

#[test]
fn assign_overwrites() {
    let events = run(vec![
        Instruction::Let { var_id: 7, value: 1 },
        Instruction::Print { var_id: 7 },
        Instruction::Assign { var_id: 7, value: 2 },
        Instruction::Print { var_id: 7 },
        Instruction::Let { var_id: 7, value: 3 },
        Instruction::Print { var_id: 7 },
    ]);
    assert_eq!(
        events,
        vec![printed(1), printed(2), printed(3)]
    );
}

#[test]
fn ui_and_update_instructions_are_only_reported() {
    let create = Instruction::CreateUI {
        element_type: 2,
        element_id: 0,
        property_count: 2,
        properties: vec![
            Property::Number { property_id: 3, value: 4 },
            Property::Text { property_id: 1, text: String::from("t") },
        ],
    };
    let others = vec![
        Instruction::SetUIProperty { element_id: 1, property_id: 2, value: 3 },
        Instruction::OnUIEvent { element_id: 1, event_type: 2, handler_id: 3 },
        Instruction::ShowUI,
        Instruction::CheckForUpdate,
        Instruction::ApplyUpdate,
    ];
    let mut instructions = vec![create.clone()];
    instructions.extend(others.iter().cloned());
    instructions.push(Instruction::Print { var_id: 1 });
    let mut expected = vec![Event::Log(create)];
    expected.extend(others.into_iter().map(Event::Log));
    expected.push(printed(0));
    assert_eq!(run(instructions), expected);
}

#[test]
fn unknown_opcode_warns_and_the_run_goes_on() {
    assert_eq!(
        run(vec![
            Instruction::Unknown(0x99),
            Instruction::Let { var_id: 0, value: 5 },
            Instruction::Print { var_id: 0 },
        ]),
        vec![Event::Warning { opcode: 0x99 }, printed(5)]
    );
}

#[test]
fn runs_do_not_share_registers() {
    let first = run(vec![Instruction::Let { var_id: 4, value: 9 }, Instruction::Print { var_id: 4 }]);
    let second = run(vec![Instruction::Print { var_id: 4 }]);
    assert_eq!(first, vec![printed(9)]);
    assert_eq!(second, vec![printed(0)]);
}

#[test]
fn printed_text_is_decimal() {
    let events = run(vec![
        Instruction::Print { var_id: 0 },
        Instruction::Let { var_id: 0, value: 7 },
        Instruction::Print { var_id: 0 },
        Instruction::Let { var_id: 0, value: 42 },
        Instruction::Print { var_id: 0 },
        Instruction::Let { var_id: 0, value: 255 },
        Instruction::Print { var_id: 0 },
    ]);
    let texts: Vec<&str> = events
        .iter()
        .map(|event| match event {
            Event::Print { text, .. } => text.as_str(),
            _ => unreachable!(),
        })
        .collect();
    assert_eq!(texts, vec!["0", "7", "42", "255"]);
}
