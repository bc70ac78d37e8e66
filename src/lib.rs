//! Building blocks of a generator of virtual-machine test fixtures: the
//! `pre:` / `post:` directives of a fixture source, the chunking of memory
//! into non-zero runs, the decisions taken while a fixture is run, and the
//! human-readable index of all fixtures.

mod chunks;
mod directive;
mod fixture;
mod index;
mod source;
mod text;

pub use chunks::{chunk_views, chunks_at, extract_chunks, nonzero_run, MemoryChunk};
pub use directive::{
    apply_directive, directive_of, parse_pre_post, DirectiveError, DirectiveSpec, PcRefSpec,
    PrePost, PrePostSpec, ProgramCounterRef,
};
pub use fixture::{
    check_outcome, OutcomeError,
    expected_final_pc, expected_pc_spec, find_export, initial_memory, initial_page_map, initial_state,
    main_test, on_interrupt, post_mismatches, run_action_spec, Export, ExpectedPcError, Interrupt,
    MemoryLayout, Mismatch, Page, PresetPcUnsupported, RunAction, Status, Unsupported, DEFAULT_GAS,
};
pub use index::{
    chunks_equal, entry_ok, entry_spec, index_header, render_entry, render_index, status_name,
    status_spec, IndexEntry,
};
pub use source::{
    assemble_source, ends_with_label, has_dangling_label, join_lines, split_lines, split_nl,
    AssembleError, parse_riscv_test_line, riscv_line_spec, split_source, FixtureSource,
    Isa, MalformedTestLine,
};
pub use text::{trim, trim_spec};
