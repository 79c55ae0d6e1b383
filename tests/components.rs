use goldasm::decoder::{encode, parse_instruction, Address, DecodeError, Instruction};
use goldasm::disassembler::disassemble;
use goldasm::instruction::{postprocess, preprocess, Includes, Instruction as Source};
use goldasm::operand::{
    Address as SourceAddress, AddressMode, Immediate, NonZeroPageAddress, Number, NumberSize, NumberType, ParseError,
    PointerAddress, Register,
};
use goldasm::parser::{module_stem, parse, LineError};

fn decode_bytes(bytes: &[u8]) -> Result<(Instruction, u8), DecodeError> {
    let mut memory = vec![0u8; 65536];
    memory[..bytes.len()].copy_from_slice(bytes);
    parse_instruction(&memory, 0)
}

#[test]
fn decode_round_trip_every_form() {
    let samples = vec![
        Instruction::Noop,
        Instruction::Add(Some(3), None),
        Instruction::Nand(None, Some((1, 7))),
        Instruction::PopRegisterFromStack(2),
        Instruction::LoadAccumulator(Some(Address::new_absolute(0x12, 0x34)), None),
        Instruction::LoadAccumulator(Some(Address::new_indexed(0x12, 0x34, 5)), None),
        Instruction::LoadAccumulator(Some(Address::new_zeropage(0x56)), None),
        Instruction::LoadAccumulator(Some(Address::new_zeropage_indexed(0x56, 6)), None),
        Instruction::LoadAccumulator(None, Some(0x2A)),
        Instruction::StoreAccumulator(Address::new_zeropage_indexed(0x10, 1)),
        Instruction::BranchZero(Address::new_indexed(0xAB, 0xCD, 2)),
        Instruction::BranchLess(4, Address::new_indexed(0x01, 0x02, 3)),
        Instruction::BranchGreater(4, Address::new_absolute(0x01, 0x02)),
        Instruction::Jump(Address::new_absolute(0xFF, 0x00)),
        Instruction::PopProgramCounterSubroutine,
    ];
    for i in samples {
        let bytes = encode(&i);
        let (decoded, n) = decode_bytes(&bytes).unwrap();
        assert_eq!(decoded, i);
        assert_eq!(n as usize, bytes.len() - 1);
    }
}

#[test]
fn encode_is_big_endian() {
    let bytes = encode(&Instruction::Jump(Address::new_absolute(0x12, 0x34)));
    assert_eq!(bytes, vec![0x52, 0x12, 0x34]);
    assert_eq!(Address::new_absolute(0x12, 0x34).address, 0x1234);
}

#[test]
fn decode_accepts_any_register_byte() {
    assert_eq!(decode_bytes(&[0x01, 0x09]), Ok((Instruction::Add(Some(9), None), 1)));
    assert_eq!(decode_bytes(&[0x4B, 0x02, 0x12, 0x34, 0x08]), Ok((Instruction::BranchEqual(2, Address::new_indexed(0x12, 0x34, 8)), 4)));
    assert_eq!(decode_bytes(&[0x30]), Err(DecodeError::UnknownOpcode(0x30)));
    assert_eq!(decode_bytes(&[0x56]), Err(DecodeError::UnknownOpcode(0x56)));
}

#[test]
fn step_rejects_a_register_beyond_the_eight() {
    let mut image = vec![0u8; 65536];
    image[0] = 0x02;
    image[1] = 0x01;
    image[2] = 0x08;
    let mut cpu = goldasm::executor::Processor::with_image(&image);
    assert_eq!(cpu.step(), Err(DecodeError::InvalidRegister(8)));
    assert_eq!(cpu.program_counter, 0);
    assert_eq!(cpu.accumulator, 0);
    let lines = disassemble(vec![Instruction::Add(None, Some((1, 8)))], vec![2]);
    assert_eq!(lines, vec!["add 01, 08", "", ""]);
}

#[test]
fn decode_wraps_at_end_of_memory() {
    let mut memory = vec![0u8; 65536];
    memory[0xFFFF] = 0x27;
    memory[0] = 0x44;
    assert_eq!(parse_instruction(&memory, 0xFFFF), Ok((Instruction::LoadAccumulator(None, Some(0x44)), 1)));
}

#[test]
fn disassemble_collapses_calls() {
    let lines = disassemble(
        vec![
            Instruction::PushProgramCounter,
            Instruction::Jump(Address::new_absolute(0x12, 0x34)),
            Instruction::Add(None, Some((1, 2))),
            Instruction::LoadAccumulator(Some(Address::new_zeropage_indexed(0x0a, 3)), None),
        ],
        vec![0, 2, 2, 2],
    );
    assert_eq!(lines, vec!["jsr %1234", "", "", "", "add 01, 02", "", "", "lda $0a, 03", "", ""]);
}

#[test]
fn disassemble_plain_lines() {
    let lines = disassemble(vec![Instruction::LoadAccumulator(None, Some(0xAB)), Instruction::BranchEqual(1, Address::new_indexed(0x20, 0x00, 4))], vec![1, 4]);
    assert_eq!(lines, vec!["lda #ab", "", "beq 01, $2000, 04", "", "", "", ""]);
    assert_eq!(Address::new_zeropage(0x7f).to_text(), "%7f");
}

#[test]
fn numbers_parse_by_width_and_base() {
    assert_eq!(Number::from_str("2A"), Ok(Number { value: 0x2A, size: NumberSize::EightBit, number_type: NumberType::Hex }));
    assert_eq!(Number::from_str("012A"), Ok(Number { value: 0x12A, size: NumberSize::SixteenBit, number_type: NumberType::Hex }));
    assert_eq!(Number::from_str("^00000101"), Ok(Number { value: 5, size: NumberSize::EightBit, number_type: NumberType::Binary }));
    assert_eq!(Number::from_str("12G4"), Err(ParseError::InvalidNumber));
    assert_eq!(Number::from_str("10000"), Err(ParseError::InvalidNumber));
    assert_eq!(Number::from_str("^"), Err(ParseError::InvalidNumber));
    assert_eq!(Number::from_str("1234").unwrap().to_bytes(), vec![0x12, 0x34]);
    assert_eq!(Number::from_str("ff").unwrap().to_decimal(), 255);
}

#[test]
fn registers_and_immediates() {
    assert_eq!(Register::from_str("07"), Ok(Register { address: 7 }));
    assert_eq!(Register::from_str("08"), Err(ParseError::InvalidRegister));
    assert_eq!(Register::from_str("0007"), Err(ParseError::InvalidRegister));
    assert_eq!(Immediate::from_str("#2A").unwrap().value.value, 0x2A);
    assert_eq!(Immediate::from_str("2A"), Err(ParseError::InvalidImmediate));
}

#[test]
fn addresses_by_sigil() {
    let a = SourceAddress::from_str("$12, 03").unwrap();
    assert_eq!(a.mode, AddressMode::ZeroPageIndexed);
    assert_eq!(a.index, Some(Register { address: 3 }));
    let a = SourceAddress::from_str("%1234").unwrap();
    assert_eq!(a.mode, AddressMode::Absolute);
    let a = SourceAddress::from_str("$*p, 01").unwrap();
    assert_eq!(a.pointer, Some("p".to_string()));
    assert_eq!(a.mode, AddressMode::Indexed);
    assert_eq!(SourceAddress::from_str("1234"), Err(ParseError::InvalidAddress));
    assert_eq!(NonZeroPageAddress::from_str("%12"), Err(ParseError::ZeroPageTarget));
    assert_eq!(PointerAddress::from_str("%12").unwrap().mode, AddressMode::ZeroPage);
}

#[test]
fn parser_errors_carry_the_line() {
    assert_eq!(
        parse("m", "noop\nlda 12").err(),
        Some(LineError { line: 2, error: ParseError::InvalidAddress, name: None })
    );
    assert_eq!(
        parse("m", "x:\nx:").err(),
        Some(LineError { line: 2, error: ParseError::DuplicateLabel, name: Some("m.x".to_string()) })
    );
    assert_eq!(parse("m", "add 01 02").err(), Some(LineError { line: 1, error: ParseError::WrongOperandCount, name: None }));
    assert_eq!(parse("m", "jmp %12").err(), Some(LineError { line: 1, error: ParseError::ZeroPageTarget, name: None }));
    assert_eq!(parse("m", ".org %12").err(), Some(LineError { line: 1, error: ParseError::InvalidOrigin, name: None }));
    assert_eq!(parse("m", "a:b").err(), Some(LineError { line: 1, error: ParseError::MalformedLabel, name: None }));
    assert_eq!(parse("m", "bcs 12").err(), Some(LineError { line: 1, error: ParseError::InvalidAddress, name: None }));
    assert_eq!(parse("m", "bcs x~").err(), Some(LineError { line: 1, error: ParseError::InvalidTarget, name: None }));
}

#[test]
fn duplicate_definitions_name_the_label() {
    assert_eq!(
        parse("m", "L:\nnoop\nL:").err(),
        Some(LineError { line: 3, error: ParseError::DuplicateLabel, name: Some("m.L".to_string()) })
    );
    assert_eq!(
        parse("m", "sr f:\nf: // again").err(),
        Some(LineError { line: 2, error: ParseError::DuplicateLabel, name: Some("m.f".to_string()) })
    );
    assert_eq!(
        parse("m", "g:\nsr g:").err(),
        Some(LineError { line: 2, error: ParseError::DuplicateLabel, name: Some("m.g".to_string()) })
    );
}

#[test]
fn parser_names_and_comments() {
    let parsed = parse("lib", "  // only a comment\nJMP ~other.x // far\nfoo\n#include util.gasm\nsr s:").unwrap();
    assert_eq!(parsed.skipped, vec![3]);
    assert_eq!(parsed.includes, vec!["util.gasm".to_string()]);
    match &parsed.instructions[0] {
        Source::Jump(None, Some(l)) => assert_eq!(l.name, "other.x"),
        other => panic!("unexpected {:?}", other),
    }
    assert_eq!(parsed.instructions[1], Source::Subroutine("lib.s".to_string()));
    assert_eq!(module_stem("util.gasm"), Some("util".to_string()));
    assert_eq!(module_stem("util.txt"), None);
}

#[test]
fn preprocess_lowers_subroutines() {
    let parsed = parse("m", "sr f:\nrts f\njsr ~f").unwrap();
    let lowered = preprocess(parsed.instructions);
    assert_eq!(lowered.len(), 6);
    assert_eq!(lowered[1], Source::Label("m.f_Subroutine".to_string()));
    assert_eq!(lowered[2], Source::PopProgramCounterSubroutine);
    assert_eq!(lowered[3], Source::Label("m.f_EndSubroutine".to_string()));
    assert_eq!(lowered[4], Source::PushProgramCounter);
}

#[test]
fn includes_are_requested_once_and_appended_in_order() {
    let mut includes = Includes::new();
    assert_eq!(includes.parse_include("#include  a.gasm "), Some("a.gasm".to_string()));
    assert_eq!(includes.parse_include("#include a.gasm"), None);
    includes.add_instructions(vec![Source::SetCarry]);
    includes.add_instructions(vec![Source::Not, Source::Noop]);
    let all = postprocess(vec![Source::ClearCarry], includes);
    assert_eq!(all, vec![Source::ClearCarry, Source::SetCarry, Source::Not, Source::Noop]);
}

#[test]
fn live_window_skips_undecodable_bytes() {
    let mut memory = vec![0u8; 65536];
    memory[0x200] = 0xEE;
    memory[0x201] = 0x27;
    memory[0x202] = 0x05;
    memory[0x203] = 0x52;
    memory[0x204] = 0x12;
    memory[0x205] = 0x34;
    let found = goldasm::disassembler::window(&memory, 0x201, 0x203);
    assert_eq!(
        found,
        vec![
            (Instruction::LoadAccumulator(None, Some(5)), 1, 0x201),
            (Instruction::Jump(Address::new_absolute(0x12, 0x34)), 2, 0x203),
        ]
    );
}

#[test]
fn default_processor_is_powered_on() {
    let cpu = goldasm::executor::Processor::default();
    assert_eq!(cpu.status_register, 0x40);
    assert_eq!(cpu.memory.len(), 65536);
    assert_eq!(cpu.program_counter, 0);
}

#[test]
fn decorate_marks_definitions_and_uses() {
    let (_, table) = {
        let parsed = parse("m", "sr f:\nrts f\njsr ~f\n#define p %1234\nlda *p").unwrap();
        goldasm::assembler::assemble(parsed.instructions, 65535).unwrap()
    };
    let line: Vec<char> = "jmp %0006".chars().collect();
    let start: String = goldasm::disassembler::decorate(&line, 2, &table).into_iter().collect();
    assert_eq!(start, "sr m.f: jmp %0006 ~m.f_EndSubroutine: %0004");
    let line: Vec<char> = "lda %0000".chars().collect();
    let used: String = goldasm::disassembler::decorate(&line, 10, &table).into_iter().collect();
    assert_eq!(used, "lda %0000 *p: %1234");
    let call: String = goldasm::disassembler::decorate(&Vec::new(), 6, &table).into_iter().collect();
    assert_eq!(call, " ~m.f: %0003");
}

#[test]
fn include_walk_is_depth_first_and_skips_repeats() {
    let mut includes = Includes::new();
    assert!(includes.request("main.gasm".to_string()));
    includes.queue(vec!["x.gasm".to_string(), "y.gasm".to_string()]);
    assert_eq!(includes.next_file(), Some("x.gasm".to_string()));
    includes.queue(vec!["a.gasm".to_string(), "main.gasm".to_string()]);
    assert_eq!(includes.next_file(), Some("a.gasm".to_string()));
    includes.queue(vec!["y.gasm".to_string()]);
    assert_eq!(includes.next_file(), Some("y.gasm".to_string()));
    assert_eq!(includes.next_file(), None);
    assert_eq!(includes.files, vec!["main.gasm", "x.gasm", "a.gasm", "y.gasm"]);
}
