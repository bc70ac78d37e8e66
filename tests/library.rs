use spectool::{
    check_outcome, has_dangling_label, initial_state, parse_riscv_test_line, split_lines,
    AssembleError, OutcomeError, MalformedTestLine, PresetPcUnsupported, DEFAULT_GAS,
    assemble_source, expected_final_pc, extract_chunks, find_export, initial_memory,
    initial_page_map, join_lines, on_interrupt, parse_pre_post, post_mismatches, split_source,
    trim, DirectiveError, ExpectedPcError, Export, Interrupt, Isa, MemoryChunk, MemoryLayout,
    Mismatch, Page, PrePost, ProgramCounterRef, RunAction, Status,
};

fn chars(s: &str) -> Vec<char> {
    s.chars().collect()
}

fn lines(s: &str) -> Vec<Vec<char>> {
    s.lines().map(chars).collect()
}

fn parse(line: &str) -> (Result<(), DirectiveError>, PrePost) {
    let mut p = PrePost::default();
    let r = parse_pre_post(&chars(line), &mut p);
    (r, p)
}

#[test]
fn chunks_of_empty_slice() {
    assert!(extract_chunks(0x1000, &[]).is_empty());
    assert!(extract_chunks(0x1000, &[0, 0, 0]).is_empty());
}

#[test]
fn chunks_split_on_zero_bytes() {
    let r = extract_chunks(0x20000, &[0, 1, 2, 0, 0, 3, 0, 4, 5, 6]);
    assert_eq!(
        r,
        vec![
            MemoryChunk { address: 0x20001, contents: vec![1, 2] },
            MemoryChunk { address: 0x20005, contents: vec![3] },
            MemoryChunk { address: 0x20007, contents: vec![4, 5, 6] },
        ]
    );
}

#[test]
fn chunks_at_top_of_address_space() {
    let r = extract_chunks(0xffff_fffc, &[9, 9, 0, 7]);
    assert_eq!(
        r,
        vec![
            MemoryChunk { address: 0xffff_fffc, contents: vec![9, 9] },
            MemoryChunk { address: 0xffff_ffff, contents: vec![7] },
        ]
    );
}

#[test]
fn trim_removes_unicode_white_space() {
    assert_eq!(trim(&chars(" \t a b \u{3000}")), chars("a b"));
    assert_eq!(trim(&chars("   ")), chars(""));
}

#[test]
fn directive_sets_gas() {
    let (r, p) = parse(" gas = -17 ");
    assert_eq!(r, Ok(()));
    assert_eq!(p.gas, Some(-17));
    assert!(p.pc.is_none());
    assert!(p.regs.iter().all(|r| r.is_none()));
}

#[test]
fn directive_sets_registers_by_either_name() {
    let (r, p) = parse("a0 = 0x10");
    assert_eq!(r, Ok(()));
    assert_eq!(p.regs[7], Some(0x10));
    let (r, p) = parse("r12 = -1");
    assert_eq!(r, Ok(()));
    assert_eq!(p.regs[12], Some(u64::MAX));
    let (r, p) = parse("ra=0b101");
    assert_eq!(r, Ok(()));
    assert_eq!(p.regs[0], Some(5));
}

#[test]
fn directive_sets_pc_by_label() {
    let (r, p) = parse("pc = @ loop[3]  ");
    assert_eq!(r, Ok(()));
    match p.pc {
        Some(ProgramCounterRef::ByLabel { label, instruction_offset }) => {
            assert_eq!(label, chars("loop"));
            assert_eq!(instruction_offset, 3);
        },
        _ => panic!("expected a label"),
    }
}

#[test]
fn directive_errors() {
    assert_eq!(parse("gas 10").0, Err(DirectiveError::MissingEquals));
    assert_eq!(parse("gas = ten").0, Err(DirectiveError::InvalidGas));
    assert_eq!(parse("pc = main[0]").0, Err(DirectiveError::MissingAt));
    assert_eq!(parse("pc = @main").0, Err(DirectiveError::MissingOpenBracket));
    assert_eq!(parse("pc = @main[0").0, Err(DirectiveError::MissingCloseBracket));
    assert_eq!(parse("pc = @main[-1]").0, Err(DirectiveError::InvalidOffset));
    assert_eq!(parse("pc = @main[1] x").0, Err(DirectiveError::TrailingText));
    assert_eq!(parse("r13 = 1").0, Err(DirectiveError::InvalidRegister));
    assert_eq!(parse("a1 = zz").0, Err(DirectiveError::InvalidValue));
}

#[test]
fn refused_directive_leaves_state() {
    let mut p = PrePost::default();
    assert_eq!(parse_pre_post(&chars("gas = 5"), &mut p), Ok(()));
    assert_eq!(parse_pre_post(&chars("a0 = nope"), &mut p), Err(DirectiveError::InvalidValue));
    assert_eq!(p.gas, Some(5));
    assert!(p.regs.iter().all(|r| r.is_none()));
}

#[test]
fn source_split_keeps_line_numbers() {
    let src = lines("pre: a0 = 1\npub @main:\npost: gas = 9\n    ret\npre: gas = 3");
    let f = split_source(&src).unwrap();
    assert_eq!(f.body, vec![chars(""), chars("pub @main:"), chars(""), chars("    ret"), chars("")]);
    assert_eq!(f.pre.regs[7], Some(1));
    assert_eq!(f.pre.gas, Some(3));
    assert_eq!(f.post.gas, Some(9));
    assert_eq!(join_lines(&f.body), chars("\npub @main:\n\n    ret\n"));
}

#[test]
fn source_split_reports_first_refusal() {
    let src = lines("pre: gas = x\npost: q = 1");
    assert!(matches!(split_source(&src), Err(DirectiveError::InvalidGas)));
}

#[test]
fn assembling_gives_a_blob() {
    let f = split_source(&lines("pub @main:\n    ret")).unwrap();
    let blob = assemble_source(&f, Isa::Latest64).unwrap();
    assert!(!blob.is_empty());
    assert!(polkavm::ProgramBlob::parse(blob.into()).is_ok());
    let bad = split_source(&lines("pub @main:\n    frobnicate a0")).unwrap();
    assert!(matches!(assemble_source(&bad, Isa::Latest64), Err(AssembleError::Rejected(_))));
}

#[test]
fn page_map_skips_empty_regions() {
    let m = MemoryLayout {
        ro_data_address: 0x10000,
        ro_data_size: 0x1000,
        rw_data_address: 0x30000,
        rw_data_size: 0,
        stack_address_low: 0xfffd0000,
        stack_size: 0x2000,
    };
    assert_eq!(
        initial_page_map(&m),
        vec![
            Page { address: 0x10000, length: 0x1000, is_writable: false },
            Page { address: 0xfffd0000, length: 0x2000, is_writable: true },
        ]
    );
}

#[test]
fn initial_memory_of_both_regions() {
    let m = MemoryLayout {
        ro_data_address: 0x10000,
        ro_data_size: 0x1000,
        rw_data_address: 0x30000,
        rw_data_size: 0x1000,
        stack_address_low: 0,
        stack_size: 0,
    };
    let r = initial_memory(&m, &[0, 5], &[6, 0, 7]);
    assert_eq!(
        r,
        vec![
            MemoryChunk { address: 0x10001, contents: vec![5] },
            MemoryChunk { address: 0x30000, contents: vec![6] },
            MemoryChunk { address: 0x30002, contents: vec![7] },
        ]
    );
    let m = MemoryLayout { ro_data_size: 0, ..m };
    assert_eq!(initial_memory(&m, &[0, 5], &[]), vec![]);
}

fn exports() -> Vec<Export> {
    vec![
        Export { symbol: chars("main"), program_counter: 0 },
        Export { symbol: chars("loop"), program_counter: 6 },
        Export { symbol: chars("main"), program_counter: 9 },
    ]
}

#[test]
fn export_lookup_takes_first() {
    assert_eq!(find_export(&exports(), &chars("main")), Some(0));
    assert_eq!(find_export(&exports(), &chars("loop")), Some(6));
    assert_eq!(find_export(&exports(), &chars("nope")), None);
}

#[test]
fn expected_pc_cases() {
    let offsets = vec![0, 2, 6, 8, 11];
    assert_eq!(expected_final_pc(&exports(), &offsets, 14, &None), Ok(14));
    assert_eq!(expected_final_pc(&exports(), &offsets, 14, &Some(ProgramCounterRef::Preset(8))), Ok(8));
    let by = |l: &str, n: u32| Some(ProgramCounterRef::ByLabel { label: chars(l), instruction_offset: n });
    assert_eq!(expected_final_pc(&exports(), &offsets, 14, &by("loop", 2)), Ok(11));
    assert_eq!(expected_final_pc(&exports(), &offsets, 14, &by("loop", 3)), Err(ExpectedPcError::OffsetOutOfBounds));
    assert_eq!(expected_final_pc(&exports(), &offsets, 14, &by("gone", 0)), Err(ExpectedPcError::MissingLabel));
    let odd = vec![Export { symbol: chars("x"), program_counter: 5 }];
    assert_eq!(expected_final_pc(&odd, &offsets, 14, &by("x", 0)), Err(ExpectedPcError::LabelNotAnInstruction));
    let mut with_exit = exports();
    with_exit.push(Export { symbol: chars("expected_exit"), program_counter: 8 });
    assert_eq!(expected_final_pc(&with_exit, &offsets, 14, &None), Ok(8));
    assert_eq!(expected_final_pc(&with_exit, &offsets, 14, &by("loop", 0)), Err(ExpectedPcError::ConflictingExit));
}

#[test]
fn interrupt_decisions() {
    assert_eq!(on_interrupt(4, Interrupt::Step, Some(6)), RunAction::Resume { final_pc: 6 });
    assert_eq!(on_interrupt(4, Interrupt::Ecalli(0), Some(2)), RunAction::Resume { final_pc: 2 });
    assert_eq!(
        on_interrupt(4, Interrupt::Finished, None),
        RunAction::Stop { status: Status::Halt, final_pc: 4, page_fault_address: None }
    );
    assert_eq!(
        on_interrupt(4, Interrupt::Trap, Some(5)),
        RunAction::Stop { status: Status::Panic, final_pc: 5, page_fault_address: None }
    );
    assert_eq!(
        on_interrupt(4, Interrupt::NotEnoughGas, Some(2)),
        RunAction::Stop { status: Status::OutOfGas, final_pc: 2, page_fault_address: None }
    );
    assert_eq!(
        on_interrupt(4, Interrupt::Segfault { page_address: 0x20000 }, Some(3)),
        RunAction::Stop { status: Status::PageFault, final_pc: 3, page_fault_address: Some(0x20000) }
    );
}

#[test]
fn post_checks_report_differences() {
    let mut post = PrePost::default();
    post.regs[1] = Some(7);
    post.regs[3] = Some(0);
    post.gas = Some(100);
    let mut regs = [0u64; 13];
    regs[1] = 8;
    assert_eq!(
        post_mismatches(&regs, 90, &post),
        vec![Mismatch::Reg { index: 1, actual: 8, expected: 7 }, Mismatch::Gas { actual: 90, expected: 100 }]
    );
    regs[1] = 7;
    assert_eq!(post_mismatches(&regs, 100, &post), vec![]);
}

#[test]
fn riscv_list_lines() {
    let line = chars("riscv_test!(riscv_unoptimized_rv64_add, \"../../../guest-programs/add.elf\", O0);");
    let (name, path) = parse_riscv_test_line(&line).unwrap().unwrap();
    assert_eq!(name, chars("_add"));
    assert_eq!(path, chars("../../../guest-programs/add.elf"));
    let line = chars("riscv_test!(riscv_unoptimized_rv64sub,  \"x.elf\" , O1);");
    let (name, path) = parse_riscv_test_line(&line).unwrap().unwrap();
    assert_eq!(name, chars("sub"));
    assert_eq!(path, chars("x.elf"));
    assert!(parse_riscv_test_line(&chars("riscv_test!(riscv_optimized_rv64_add, \"a\");")).unwrap().is_none());
    assert!(parse_riscv_test_line(&chars("// nothing here")).unwrap().is_none());
    assert_eq!(parse_riscv_test_line(&chars("riscv_test!(riscv_unoptimized_rv64_add")), Err(MalformedTestLine));
    assert_eq!(parse_riscv_test_line(&chars("riscv_test!(riscv_unoptimized_rv64_add, )")), Err(MalformedTestLine));
}

#[test]
fn initial_state_defaults() {
    let (gas, regs) = initial_state(&PrePost::default()).unwrap();
    assert_eq!(gas, DEFAULT_GAS);
    assert_eq!(gas, 10000);
    assert_eq!(regs, [0; 13]);
    let mut pre = PrePost::default();
    pre.gas = Some(3);
    pre.regs[12] = Some(9);
    assert_eq!(initial_state(&pre), Ok((3, [0, 0, 0, 0, 0, 0, 0, 0, 0, 0, 0, 0, 9])));
    pre.pc = Some(ProgramCounterRef::Preset(0));
    assert_eq!(initial_state(&pre), Err(PresetPcUnsupported));
}

#[test]
fn dangling_labels_are_refused_before_assembling() {
    let f = split_source(&lines("pub @main:\n    jump @end\n@end:")).unwrap();
    assert!(matches!(assemble_source(&f, Isa::Latest64), Err(AssembleError::DanglingLabel)));
    let f = split_source(&lines("pub @main:\n    jump @end\n@end:\n  // done\n\n")).unwrap();
    assert!(matches!(assemble_source(&f, Isa::Latest64), Err(AssembleError::DanglingLabel)));
    let f = split_source(&lines("pub @main:\n    jump @end\n@end:\n    ret")).unwrap();
    assert!(assemble_source(&f, Isa::Latest64).is_ok());
    assert!(has_dangling_label(&chars("pub @main:")));
    assert!(!has_dangling_label(&chars("@a:\n@b:\ntrap\n%stack_size = 0")));
    assert!(!has_dangling_label(&chars("")));
}

#[test]
fn lines_split_at_newlines() {
    assert_eq!(split_lines(&chars("a\n\nbc\n")), vec![chars("a"), chars(""), chars("bc"), chars("")]);
    assert_eq!(split_lines(&chars("")), vec![chars("")]);
}

#[test]
fn outcome_checks() {
    assert_eq!(check_outcome(None, Status::Panic, 3, 3), Ok(()));
    assert_eq!(check_outcome(Some(Status::Halt), Status::Halt, 3, 3), Ok(()));
    assert_eq!(
        check_outcome(Some(Status::Halt), Status::Panic, 3, 4),
        Err(OutcomeError::UnexpectedStatus { expected: Status::Halt, actual: Status::Panic })
    );
    assert_eq!(check_outcome(None, Status::Halt, 3, 4), Err(OutcomeError::UnexpectedPc { expected: 3, actual: 4 }));
}

#[test]
fn empty_region_needs_no_room() {
    let m = MemoryLayout {
        ro_data_address: 0xffff_ff00,
        ro_data_size: 0,
        rw_data_address: 0x30000,
        rw_data_size: 0x1000,
        stack_address_low: 0,
        stack_size: 0,
    };
    let r = initial_memory(&m, &[1u8; 0x200], &[0, 2]);
    assert_eq!(r, vec![MemoryChunk { address: 0x30001, contents: vec![2] }]);
}

#[test]
fn stated_parsers_on_fixed_text() {
    let (r, p) = parse("gas = +12");
    assert_eq!(r, Ok(()));
    assert_eq!(p.gas, Some(12));
    assert_eq!(parse("gas = 9223372036854775808").0, Err(DirectiveError::InvalidGas));
    assert_eq!(parse("pc = @main[ 3]").0, Err(DirectiveError::InvalidOffset));
    assert_eq!(parse("pc = @main[4294967296]").0, Err(DirectiveError::InvalidOffset));
    let (r, p) = parse("\u{2003}s1\u{2003}= 1");
    assert_eq!(r, Ok(()));
    assert_eq!(p.regs[6], Some(1));
}
