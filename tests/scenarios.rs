use goldasm::assembler::{assemble, AsmError};
use goldasm::executor::Processor;
use goldasm::parser::parse;
use goldasm::symbols::{SymbolTable, SymbolType};

fn build(source: &str) -> (Vec<u8>, SymbolTable) {
    let parsed = parse("main", source).unwrap();
    assemble(parsed.instructions, 65535).unwrap()
}

fn build_error(source: &str) -> AsmError {
    let parsed = parse("main", source).unwrap();
    assemble(parsed.instructions, 65535).unwrap_err()
}

#[test]
fn empty_program() {
    let (image, table) = build("");
    assert_eq!(image.len(), 65536);
    assert!(image.iter().all(|b| *b == 0));
    assert!(table.symbols.is_empty());
    assert!(table.symbol_uses.is_empty());
    let cpu = Processor::with_image(&image);
    assert_eq!(cpu.program_counter, 0x0000);
}

#[test]
fn immediate_load() {
    let (image, _) = build("lda #2A");
    assert_eq!(&image[0..3], &[0x27, 0x2A, 0x00]);
}

#[test]
fn add_two_registers() {
    let (image, _) = build("add 01, 02");
    assert_eq!(&image[0..3], &[0x02, 0x01, 0x02]);
}

#[test]
fn label_forward_jump() {
    let (image, table) = build("jmp ~done\ndone:");
    assert_eq!(&image[0..3], &[0x52, 0x00, 0x03]);
    let used = table.symbol_uses.get(&2).unwrap();
    assert_eq!(used.name, "main.done");
    assert_eq!(used.value, 3);
    assert_eq!(used.symbol_type, SymbolType::Label);
    let defined = table.symbols.get(&3).unwrap();
    assert_eq!(defined.name, "main.done");
}

#[test]
fn subroutine_call() {
    let (image, _) = build("sr S:\nlda #01\nrts S\njsr ~S");
    // jmp around the body, the body, the return, then the lowered call
    assert_eq!(&image[0..10], &[0x52, 0x00, 0x06, 0x27, 0x01, 0x57, 0x54, 0x52, 0x00, 0x03]);
    let mut cpu = Processor::with_image(&image);
    cpu.program_counter = 6;
    cpu.step().unwrap(); // push the program counter
    assert_eq!(cpu.program_counter, 7);
    cpu.step().unwrap(); // jump into S
    assert_eq!(cpu.program_counter, 3);
    cpu.step().unwrap(); // lda #01
    assert_eq!(cpu.accumulator, 1);
    cpu.step().unwrap(); // rts
    assert_eq!(cpu.program_counter, 10);
    assert_eq!(cpu.stack_pointer, 0);
}

#[test]
fn pointer_relocation() {
    let (image, table) = build("#define p %1234\nlda *p");
    assert_eq!(&image[0..3], &[0x23, 0x12, 0x34]);
    let used = table.symbol_uses.get(&2).unwrap();
    assert_eq!(used.name, "p");
    assert_eq!(used.value, 0x1234);
    assert_eq!(used.symbol_type, SymbolType::Pointer);
    let defined = table.symbols.get(&0x1234).unwrap();
    assert_eq!(defined.symbol_type, SymbolType::Define);
}

fn run(source: &str, steps: usize) -> Processor {
    let (image, _) = build(source);
    let mut cpu = Processor::with_image(&image);
    for _ in 0..steps {
        cpu.step().unwrap();
    }
    cpu
}

#[test]
fn flags_add_carry_out() {
    let cpu = run("clc\nlda #FF\ncpa 00\nlda #01\nadd 00", 5);
    assert_eq!(cpu.accumulator, 0x00);
    assert_ne!(cpu.status_register & 0x80, 0);
    assert_ne!(cpu.status_register & 0x40, 0);
}

#[test]
fn flags_add_carry_in_negative() {
    let cpu = run("sc\nlda #7F\nadd 00", 3);
    assert_eq!(cpu.accumulator, 0x80);
    assert_eq!(cpu.status_register & 0x80, 0);
    assert_ne!(cpu.status_register & 0x04, 0);
}

#[test]
fn subtract_borrows() {
    let cpu = run("clc\nlda #03\ncpa 01\nlda #05\ncpa 02\nsub 01, 02", 6);
    assert_eq!(cpu.accumulator, 0xFE);
    assert_ne!(cpu.status_register & 0x80, 0);
    assert_ne!(cpu.status_register & 0x10, 0);
}

#[test]
fn shifts_go_through_carry() {
    let cpu = run("sc\nlda #02\nshr", 3);
    assert_eq!(cpu.accumulator, 0x81);
    assert_eq!(cpu.status_register & 0x80, 0);
    let cpu = run("clc\nlda #81\nshl", 3);
    assert_eq!(cpu.accumulator, 0x02);
    assert_ne!(cpu.status_register & 0x80, 0);
}

#[test]
fn rotates_ignore_carry() {
    let cpu = run("sc\nlda #01\nror", 3);
    assert_eq!(cpu.accumulator, 0x80);
    let cpu = run("lda #80\nrol", 2);
    assert_eq!(cpu.accumulator, 0x01);
}

#[test]
fn store_and_load_indexed() {
    let cpu = run("lda #05\ncpa 03\nlda #2A\nsta $1000, 03\nlda #00\nlda %1005", 6);
    assert_eq!(cpu.memory[0x1005], 0x2A);
    assert_eq!(cpu.accumulator, 0x2A);
}

#[test]
fn compare_branch_taken() {
    let cpu = run("lda #01\ncpa 02\nbeq 02, ~same\nnoop\nsame:\nlda #07", 4);
    assert_eq!(cpu.accumulator, 7);
}

#[test]
fn push_and_pop_register() {
    let cpu = run("lda #09\ncpa 04\nphr 04\nplr 05", 4);
    assert_eq!(cpu.registers[5], 9);
    assert_eq!(cpu.stack_pointer, 0);
    assert_eq!(cpu.memory[0x100], 9);
}

#[test]
fn unknown_opcode_is_a_step_error() {
    let mut image = vec![0u8; 65536];
    image[0] = 0xEE;
    let mut cpu = Processor::with_image(&image);
    let err = cpu.step().unwrap_err();
    assert_eq!(err, goldasm::decoder::DecodeError::UnknownOpcode(0xEE));
    assert_eq!(cpu.program_counter, 0);
}

#[test]
fn reset_vector_is_read_big_endian() {
    let (image, _) = build(".org %FFFC\n.word #12\n.word #34");
    let cpu = Processor::with_image(&image);
    assert_eq!(cpu.program_counter, 0x1234);
}

#[test]
fn serial_output_and_input() {
    let mut image = vec![0u8; 65536];
    image[0xFF00] = b'A';
    image[0xFF01] = 1;
    let mut cpu = Processor::with_image(&image);
    let (out, delivered) = cpu.exchange_serial(Some(b'z'), false);
    assert_eq!(out, Some(b'A'));
    assert!(delivered);
    assert_eq!(cpu.memory[0xFF01], 0);
    assert_eq!(cpu.memory[0xFF08], b'z');
    assert_eq!(cpu.memory[0xFF09], 1);
    let (out, delivered) = cpu.exchange_serial(Some(b'y'), false);
    assert_eq!(out, None);
    assert!(!delivered);
}

#[test]
fn undefined_label_is_reported() {
    match build_error("jmp ~nowhere") {
        AsmError::UndefinedLabel(name) => assert_eq!(name, "main.nowhere"),
        other => panic!("unexpected {:?}", other),
    }
}

#[test]
fn missing_return_is_reported() {
    match build_error("sr S:\nlda #01") {
        AsmError::MissingReturn(name) => assert_eq!(name, "main.S_EndSubroutine"),
        other => panic!("unexpected {:?}", other),
    }
}

#[test]
fn undefined_pointer_is_reported() {
    match build_error("lda *q") {
        AsmError::UndefinedPointer(name) => assert_eq!(name, "q"),
        other => panic!("unexpected {:?}", other),
    }
}

#[test]
fn resume_without_origins_is_reported() {
    assert_eq!(build_error(".org"), AsmError::MissingOrigin);
}

#[test]
fn overlapping_segments_are_reported() {
    assert_eq!(build_error(".org %8000\nnoop\n.org %8002\nnoop\n.org\nlda %1234"), AsmError::Overlap(0x8002));
}

#[test]
fn resumed_segment_running_past_its_end_is_reported() {
    assert_eq!(build_error(".org %8000\nnoop\n.org %8002\n.org\nlda %1234"), AsmError::Overlap(0x8004));
}

#[test]
fn image_overflow_is_reported() {
    let parsed = parse("main", "lda %1234\nlda %1234").unwrap();
    assert_eq!(assemble(parsed.instructions, 4).unwrap_err(), AsmError::ImageOverflow(3));
}

#[test]
fn origin_resumes_after_first_segment() {
    let (image, _) = build(".org %8000\nnoop\n.org %9000\nsc\n.org\nclc");
    assert_eq!(image[0x8000], 0x00);
    assert_eq!(image[0x8001], 0x06);
    assert_eq!(image[0x9000], 0x05);
}

#[test]
fn subroutine_symbols_sit_one_byte_early() {
    let (_, table) = build("sr S:\nrts S\njsr ~S");
    let start = table.symbols.get(&2).unwrap();
    assert_eq!(start.name, "main.S_Subroutine");
    assert_eq!(start.symbol_type, SymbolType::Subroutine);
    let call = table.symbol_uses.get(&6).unwrap();
    assert_eq!(call.symbol_type, SymbolType::Subroutine);
}

#[test]
fn eight_bit_pointer_is_spliced() {
    let (image, _) = build("#define z %12\nlda *z\nnoop");
    assert_eq!(image.len(), 65535);
    assert_eq!(&image[0..3], &[0x23, 0x12, 0x00]);
}

#[test]
fn origin_inside_earlier_segment_is_an_overlap() {
    assert_eq!(build_error(".org %0100\nnoop\nnoop\nnoop\n.org %0101\nnoop"), AsmError::Overlap(0x0101));
}

#[test]
fn origin_back_over_the_start_is_an_overlap() {
    assert_eq!(build_error("lda %1234\n.org %0001\nsc"), AsmError::Overlap(0x0001));
}

#[test]
fn adjacent_segments_do_not_overlap() {
    let (image, _) = build(".org %0100\nnoop\nsc\n.org %0102\nclc");
    assert_eq!(&image[0x100..0x103], &[0x00, 0x05, 0x06]);
}

#[test]
fn blank_and_comment_only_file_is_empty() {
    let parsed = parse("m", "\n   \n// nothing here\n\t// or here\n").unwrap();
    assert!(parsed.instructions.is_empty());
    assert!(parsed.includes.is_empty());
    assert!(parsed.skipped.is_empty());
}
