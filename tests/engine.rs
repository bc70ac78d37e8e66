use polkavm::{Engine, GasMeteringKind, InterruptKind, Module, ModuleConfig, ProgramBlob, RawInstance, Reg};
use spectool::{assemble_source, on_interrupt, split_source, Interrupt, Isa, RunAction, Status};

fn source_lines(s: &str) -> Vec<Vec<char>> {
    s.lines().map(|l| l.chars().collect()).collect()
}

fn engine() -> Engine {
    let mut config = polkavm::Config::new();
    config.set_backend(Some(polkavm::BackendKind::Interpreter));
    config.set_allow_dynamic_paging(true);
    Engine::new(&config).unwrap()
}

fn build(engine: &Engine, text: &str, strict: bool) -> (Module, ProgramBlob) {
    let source = split_source(&source_lines(text)).unwrap();
    let bytes = assemble_source(&source, Isa::Latest64).unwrap();
    let blob = ProgramBlob::parse(bytes.into()).unwrap();
    let mut config = ModuleConfig::new();
    config.set_strict(strict);
    config.set_gas_metering(Some(GasMeteringKind::Sync));
    config.set_dynamic_paging(true);
    (Module::from_blob(engine, &config, blob.clone()).unwrap(), blob)
}

fn main_pc(blob: &ProgramBlob) -> polkavm::ProgramCounter {
    blob.exports().find(|e| e.symbol().as_bytes() == b"main").unwrap().program_counter()
}

fn to_interrupt(kind: InterruptKind) -> Interrupt {
    match kind {
        InterruptKind::Finished => Interrupt::Finished,
        InterruptKind::Trap => Interrupt::Trap,
        InterruptKind::Ecalli(index) => Interrupt::Ecalli(index),
        InterruptKind::NotEnoughGas => Interrupt::NotEnoughGas,
        InterruptKind::Segfault(fault) => Interrupt::Segfault { page_address: fault.page_address },
        InterruptKind::Step => Interrupt::Step,
    }
}

fn start(module: &Module, blob: &ProgramBlob, gas: i64) -> RawInstance {
    let mut instance = module.instantiate().unwrap();
    instance.set_gas(gas);
    instance.set_reg(Reg::RA, polkavm::RETURN_TO_HOST);
    instance.set_next_program_counter(main_pc(blob));
    instance
}

const HALT: &str = "pub @main:\n    ret";

#[test]
fn halting_program_finishes() {
    let engine = engine();
    let (module, blob) = build(&engine, HALT, true);
    let mut instance = start(&module, &blob, 10000);
    let before: Vec<u64> = Reg::ALL.iter().map(|r| instance.reg(*r)).collect();
    let interrupt = to_interrupt(instance.run().unwrap());
    assert_eq!(interrupt, Interrupt::Finished);
    let action = on_interrupt(main_pc(&blob).0, interrupt, instance.program_counter().map(|pc| pc.0));
    assert!(matches!(action, RunAction::Stop { status: Status::Halt, .. }));
    let after: Vec<u64> = Reg::ALL.iter().map(|r| instance.reg(*r)).collect();
    assert_eq!(before, after);
    assert!(instance.gas() <= 10000);
}

#[test]
fn halting_program_without_gas() {
    let engine = engine();
    let (module, blob) = build(&engine, HALT, true);
    let mut instance = start(&module, &blob, 0);
    let interrupt = to_interrupt(instance.run().unwrap());
    assert_eq!(interrupt, Interrupt::NotEnoughGas);
    assert_eq!(instance.gas(), 0);
    let pc = instance.program_counter().map(|pc| pc.0);
    assert_eq!(pc, Some(main_pc(&blob).0));
    let action = on_interrupt(main_pc(&blob).0, interrupt, pc);
    assert!(matches!(action, RunAction::Stop { status: Status::OutOfGas, .. }));
}

#[test]
fn store_to_unmapped_page_faults_then_resumes() {
    let engine = engine();
    let text = "%rw_data_size = 4096\npub @main:\n    u32 [a0] = a1\n    ret";
    let (module, blob) = build(&engine, text, true);
    let page_size = module.memory_map().page_size();
    let target = module.memory_map().rw_data_address() + 8;
    let mut instance = start(&module, &blob, 10000);
    instance.set_reg(Reg::A0, u64::from(target));
    instance.set_reg(Reg::A1, 0x11223344);
    let interrupt = to_interrupt(instance.run().unwrap());
    let page = target - target % page_size;
    assert_eq!(interrupt, Interrupt::Segfault { page_address: page });
    instance.zero_memory_with_memory_protection(page, page_size, polkavm::MemoryProtection::ReadWrite).unwrap();
    assert_eq!(to_interrupt(instance.run().unwrap()), Interrupt::Finished);
    assert_eq!(instance.read_memory(target, 4).unwrap(), vec![0x44, 0x33, 0x22, 0x11]);
    assert_eq!(instance.read_memory(target + 4, 4).unwrap(), vec![0, 0, 0, 0]);
}

#[test]
fn host_call_suspends_then_finishes() {
    let engine = engine();
    let (module, blob) = build(&engine, "pub @main:\n    ecalli 0\n    ret", false);
    let mut instance = start(&module, &blob, 10000);
    assert_eq!(to_interrupt(instance.run().unwrap()), Interrupt::Ecalli(0));
    assert_eq!(to_interrupt(instance.run().unwrap()), Interrupt::Finished);
}

#[test]
fn two_runs_agree() {
    let engine = engine();
    let text = "%rw_data_size = 4096\npub @main:\n    u32 [a0] = a1\n    ecalli 0\n    ret";
    let (module, blob) = build(&engine, text, false);
    let trace = |gas: i64| {
        let mut instance = start(&module, &blob, gas);
        let target = module.memory_map().rw_data_address();
        instance.set_reg(Reg::A0, u64::from(target));
        instance.set_reg(Reg::A1, 7);
        let mut seen = Vec::new();
        loop {
            let interrupt = to_interrupt(instance.run().unwrap());
            seen.push(interrupt);
            match interrupt {
                Interrupt::Segfault { page_address } => {
                    instance
                        .zero_memory_with_memory_protection(page_address, module.memory_map().page_size(), polkavm::MemoryProtection::ReadWrite)
                        .unwrap();
                },
                Interrupt::Ecalli(_) => {},
                _ => break,
            }
        }
        let regs: Vec<u64> = Reg::ALL.iter().map(|r| instance.reg(*r)).collect();
        (seen, regs, instance.gas(), instance.read_memory(target, 4).unwrap())
    };
    let first = trace(10000);
    assert_eq!(first, trace(10000));
    assert_eq!(first.0.last(), Some(&Interrupt::Finished));
    assert!(first.2 < 10000);
}

#[test]
fn code_section_round_trips() {
    let f = split_source(&source_lines("pub @main:\n    a0 = 1\n    jump @end\n@end:\n    ret")).unwrap();
    let bytes = assemble_source(&f, Isa::Latest64).unwrap();
    let parts = polkavm_common::program::ProgramParts::from_bytes(bytes.clone().into()).unwrap();
    let section = parts.code_and_jump_table.to_vec();
    assert!(!section.is_empty());
    assert!(bytes.windows(section.len()).any(|w| w == &section[..]));
    let again = polkavm_common::program::ProgramParts::from_bytes(bytes.clone().into()).unwrap();
    assert_eq!(again.code_and_jump_table.to_vec(), section);
    let from_parts = ProgramBlob::from_parts(parts).unwrap();
    let parsed = ProgramBlob::parse(bytes.into()).unwrap();
    assert_eq!(from_parts.code(), parsed.code());
}

#[test]
fn gas_runs_out_exactly_at_block_cost() {
    let engine = engine();
    let (module, blob) = build(&engine, "pub @main:\n    a0 = 5\n    ret", true);
    let mut instance = start(&module, &blob, 10000);
    assert_eq!(to_interrupt(instance.run().unwrap()), Interrupt::Finished);
    let cost = 10000 - instance.gas();
    assert!(cost > 0);

    let mut instance = start(&module, &blob, cost);
    assert_eq!(to_interrupt(instance.run().unwrap()), Interrupt::Finished);
    assert_eq!(instance.gas(), 0);

    let mut instance = start(&module, &blob, cost - 1);
    assert_eq!(to_interrupt(instance.run().unwrap()), Interrupt::NotEnoughGas);
    assert_eq!(instance.gas(), cost - 1);
    assert_eq!(instance.reg(Reg::A0), 0);
}

#[test]
fn fixture_with_host_call_is_recorded_as_halt() {
    let engine = engine();
    let (module, blob) = build(&engine, "pub @main:\n    ecalli 0\n    ret", false);
    let mut instance = start(&module, &blob, 10000);
    let mut final_pc = main_pc(&blob).0;
    let status = loop {
        let interrupt = to_interrupt(instance.run().unwrap());
        match on_interrupt(final_pc, interrupt, instance.program_counter().map(|pc| pc.0)) {
            RunAction::Resume { final_pc: pc } => final_pc = pc,
            RunAction::Stop { status, .. } => break status,
        }
    };
    assert_eq!(status, Status::Halt);
}
