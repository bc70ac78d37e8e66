use vstd::prelude::*;

verus! {

/// A run of bytes of guest memory, placed at `address`.
#[derive(Clone, Debug, PartialEq, Eq)]
pub struct MemoryChunk {
    pub address: u32,
    pub contents: Vec<u8>,
}

impl View for MemoryChunk {
    type V = (int, Seq<u8>);

    open spec fn view(&self) -> (int, Seq<u8>) {
        (self.address as int, self.contents@)
    }
}

/// The number of non-zero bytes of `s` in a row from `p` on.
pub open spec fn nonzero_run(s: Seq<u8>, p: int) -> nat
    decreases s.len() - p,
{
    if p < 0 || p >= s.len() || s[p] == 0 {
        0
    } else {
        1 + nonzero_run(s, p + 1)
    }
}

/// The maximal runs of non-zero bytes of `s` that start at `p` or later, in
/// order, each with its position shifted by `base`.
pub open spec fn chunks_at(base: int, s: Seq<u8>, p: int) -> Seq<(int, Seq<u8>)>
    decreases s.len() - p,
    via chunks_at_decreases
{
    if p < 0 || p >= s.len() {
        seq![]
    } else if s[p] == 0 {
        chunks_at(base, s, p + 1)
    } else {
        let end = p + 1 + nonzero_run(s, p + 1);
        seq![(base + p, s.subrange(p, end))] + chunks_at(base, s, end)
    }
}

proof fn lemma_run_in_bounds(s: Seq<u8>, p: int)
    requires
        0 <= p <= s.len(),
    ensures
        p + nonzero_run(s, p) <= s.len(),
    decreases s.len() - p,
{
    if p < s.len() && s[p] != 0 {
        lemma_run_in_bounds(s, p + 1);
    }
}

#[via_fn]
proof fn chunks_at_decreases(base: int, s: Seq<u8>, p: int) {
    if 0 <= p < s.len() && s[p] != 0 {
        lemma_run_in_bounds(s, p + 1);
    }
}

pub open spec fn chunk_views(cs: Seq<MemoryChunk>) -> Seq<(int, Seq<u8>)> {
    cs.map_values(|c: MemoryChunk| c@)
}

/// Splits `slice`, which lies at `base_address`, into its maximal runs of
/// non-zero bytes; zero bytes belong to no chunk.
pub fn extract_chunks(base_address: u32, slice: &[u8]) -> (r: Vec<MemoryChunk>)
    requires
        base_address as int + slice@.len() <= u32::MAX as int + 1,
    ensures
        chunk_views(r@) == chunks_at(base_address as int, slice@, 0),
{
    let ghost s = slice@;
    let ghost base = base_address as int;
    let mut output: Vec<MemoryChunk> = Vec::new();
    let mut position: usize = 0;
    while position < slice.len()
        invariant
            s == slice@,
            base == base_address as int,
            base + s.len() <= u32::MAX as int + 1,
            position <= s.len(),
            chunk_views(output@) + chunks_at(base, s, position as int) == chunks_at(base, s, 0),
        decreases s.len() - position,
    {
        if slice[position] == 0 {
            position = position + 1;
        } else {
            let start = position;
            let mut contents: Vec<u8> = Vec::new();
            contents.push(slice[start]);
            let mut end: usize = start + 1;
            while end < slice.len() && slice[end] != 0
                invariant
                    s == slice@,
                    start < end <= s.len(),
                    s[start as int] != 0,
                    contents@ == s.subrange(start as int, end as int),
                    nonzero_run(s, start + 1) == (end - start - 1) + nonzero_run(s, end as int),
                decreases s.len() - end,
            {
                contents.push(slice[end]);
                end = end + 1;
            }
            assert(nonzero_run(s, end as int) == 0);
            let chunk = MemoryChunk { address: base_address + start as u32, contents };
            let ghost before = output@;
            output.push(chunk);
            assert(chunk_views(output@) =~= chunk_views(before) + seq![chunk@]);
            assert(chunks_at(base, s, start as int) == seq![chunk@] + chunks_at(base, s, end as int));
            assert(chunk_views(before) + chunks_at(base, s, start as int) =~= chunk_views(output@)
                + chunks_at(base, s, end as int));
            position = end;
        }
    }
    assert(chunks_at(base, s, position as int) =~= seq![]);
    assert(chunk_views(output@) =~= chunk_views(output@) + chunks_at(base, s, position as int));
    output
}

} // verus!
