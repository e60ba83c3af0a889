//! The caching interpreter: compiles each block once into stubs and replays them.
use vstd::prelude::*;
use std::collections::HashMap;
use crate::console::{Console, physical_address};
use crate::console::r3000::R3000;
use crate::jit::insn::{Insn, taggable, unconditional_jump_spec, branch_delay_spec};
use crate::common::{primary_field, rt_field};
use block::{Block, optimized_stubs};
use stub::Stub;

pub mod block;
pub mod stub;

verus! {

/// The index of the first instruction from `i` on that ends a block, if any.
pub open spec fn first_jump(words: Seq<u32>, i: nat) -> Option<nat>
    decreases words.len() - i,
{
    if i >= words.len() {
        None
    } else if unconditional_jump_spec(words[i as int]) {
        Some(i)
    } else {
        first_jump(words, i + 1)
    }
}

/// How many of `words` the block that starts with them takes: up to its first
/// unconditional jump or SYSCALL, and the delay slot after it when it has one; none
/// when the block does not end within `words`.
pub open spec fn block_size(words: Seq<u32>) -> Option<nat> {
    match first_jump(words, 0) {
        Some(k) => {
            let n = if branch_delay_spec(words[k as int]) { k + 2 } else { k + 1 };
            if n <= words.len() { Some(n as nat) } else { None }
        },
        None => None,
    }
}

proof fn lemma_first_jump_facts(words: Seq<u32>, i: nat)
    ensures
        first_jump(words, i) matches Some(k) ==> i <= k < words.len() && unconditional_jump_spec(words[k as int])
            && forall|j: int| i <= j < k ==> !unconditional_jump_spec(#[trigger] words[j]),
        first_jump(words, i) is None ==> forall|j: int| i <= j < words.len() ==> !unconditional_jump_spec(#[trigger] words[j]),
    decreases words.len() - i,
{
    if i < words.len() {
        lemma_first_jump_facts(words, i + 1);
    }
}

/// The number of words in the block that starts with `words`, if it ends among them.
pub fn block_len(words: &Vec<u32>) -> (r: Option<usize>)
    ensures
        r matches Some(n) ==> block_size(words@) == Some(n as nat),
        r is None ==> block_size(words@) is None,
{
    proof {
        lemma_first_jump_facts(words@, 0);
    }
    let mut k: usize = 0;
    while k < words.len()
        invariant
            k <= words@.len(),
            forall|j: int| 0 <= j < k ==> !unconditional_jump_spec(#[trigger] words@[j]),
            first_jump(words@, 0) == first_jump(words@, k as nat),
        decreases words@.len() - k,
    {
        let op = words[k];
        if Insn::is_unconditional_jump(op) {
            let delay = crate::common::get_primary_field(op) != 0x01 && Insn::has_branch_delay_slot(op);
            let remaining = words.len() - k;
            if !delay {
                return Some(k + 1);
            } else if remaining >= 2 {
                return Some(k + 2);
            } else {
                return None;
            }
        }
        proof {
            lemma_first_jump_step(words@, k as nat);
        }
        k = k + 1;
    }
    None
}

proof fn lemma_first_jump_step(words: Seq<u32>, k: nat)
    requires
        k < words.len(),
        !unconditional_jump_spec(words[k as int]),
    ensures
        first_jump(words, k) == first_jump(words, k + 1),
{
}

/// The first `n` words tagged, the instruction at index `i` with offset `4 * (i + 1)`
/// (the program counter has moved past an instruction when it runs).
pub fn tag_opcodes(words: &Vec<u32>, n: usize) -> (r: Vec<Insn>)
    requires
        n <= words@.len(),
        n < 0x1000_0000,
        forall|i: int| 0 <= i < n ==> taggable(#[trigger] words@[i]),
    ensures
        r@.len() == n,
        forall|i: int|
            0 <= i < n ==> (#[trigger] r@[i]).op_spec() == words@[i] && r@[i].offset_spec() == 4 * (i + 1)
                && r@[i].wf(),
{
    let mut out: Vec<Insn> = Vec::new();
    let mut i: usize = 0;
    while i < n
        invariant
            i <= n,
            n <= words@.len(),
            n < 0x1000_0000,
            forall|k: int| 0 <= k < n ==> taggable(#[trigger] words@[k]),
            out@.len() == i,
            forall|k: int|
                0 <= k < i ==> (#[trigger] out@[k]).op_spec() == words@[k] && out@[k].offset_spec() == 4 * (k + 1)
                    && out@[k].wf(),
        decreases n - i,
    {
        let counter = 4 * (i as u32 + 1);
        out.push(Insn::new(words[i], counter));
        i = i + 1;
    }
    out
}

/// Whether a start address lies below `address`.
pub open spec fn below(address: u32) -> spec_fn(u32) -> bool {
    |s: u32| s < address
}

/// Whether a start address lies above `address`.
pub open spec fn above(address: u32) -> spec_fn(u32) -> bool {
    |s: u32| s > address
}

/// The start addresses in `starts` below `address`, in order.
pub fn starts_below(starts: &Vec<u32>, address: u32) -> (r: Vec<u32>)
    ensures
        r@ == starts@.filter(below(address)),
{
    let mut out: Vec<u32> = Vec::new();
    let mut i: usize = 0;
    while i < starts.len()
        invariant
            i <= starts@.len(),
            out@ == starts@.take(i as int).filter(below(address)),
        decreases starts@.len() - i,
    {
        proof {
            assert(starts@.take(i + 1) =~= starts@.take(i as int).push(starts@[i as int]));
            starts@.take(i as int).lemma_filter_push(starts@[i as int], below(address));
        }
        if starts[i] < address {
            out.push(starts[i]);
        }
        i = i + 1;
    }
    assert(starts@.take(i as int) =~= starts@);
    out
}

/// The start addresses in `starts` above `address`, in order.
pub fn starts_above(starts: &Vec<u32>, address: u32) -> (r: Vec<u32>)
    ensures
        r@ == starts@.filter(above(address)),
{
    let mut out: Vec<u32> = Vec::new();
    let mut i: usize = 0;
    while i < starts.len()
        invariant
            i <= starts@.len(),
            out@ == starts@.take(i as int).filter(above(address)),
        decreases starts@.len() - i,
    {
        proof {
            assert(starts@.take(i + 1) =~= starts@.take(i as int).push(starts@[i as int]));
            starts@.take(i as int).lemma_filter_push(starts@[i as int], above(address));
        }
        if starts[i] > address {
            out.push(starts[i]);
        }
        i = i + 1;
    }
    assert(starts@.take(i as int) =~= starts@);
    out
}

/// The compiled blocks and the range map agree: each end address lists, once each,
/// blocks that end there, and each block is listed under its own end address.
pub open spec fn blocks_agree(blocks: Map<u32, Block>, ranges: Map<u32, Vec<u32>>) -> bool {
    &&& forall|e: u32| #[trigger] ranges.contains_key(e) ==> ranges[e]@.no_duplicates()
    &&& forall|e: u32, k: int|
        #![trigger ranges[e]@[k]]
        ranges.contains_key(e) && 0 <= k < ranges[e]@.len() ==> blocks.contains_key(ranges[e]@[k])
            && blocks[ranges[e]@[k]].final_pc_spec() == e
    &&& forall|s: u32| #[trigger]
        blocks.contains_key(s) ==> ranges.contains_key(blocks[s].final_pc_spec())
            && ranges[blocks[s].final_pc_spec()]@.contains(s)
}

/// Filtering keeps a sequence free of duplicates.
proof fn lemma_filter_no_duplicates(s: Seq<u32>, p: spec_fn(u32) -> bool)
    requires
        s.no_duplicates(),
    ensures
        s.filter(p).no_duplicates(),
    decreases s.len(),
{
    if s.len() > 0 {
        let t = s.drop_last();
        let x = s.last();
        lemma_filter_no_duplicates(t, p);
        assert(s =~= t.push(x));
        t.lemma_filter_push(x, p);
        if p(x) && t.filter(p).contains(x) {
            t.lemma_filter_contains_rev(p, x);
            let j = choose|j: int| 0 <= j < t.len() && t[j] == x;
            assert(s[j] == s[s.len() - 1]);
        }
    }
}

/// Adding a block at a start address that has none keeps the blocks and the range
/// map in agreement.
proof fn lemma_adding_block_agrees(
    blocks0: Map<u32, Block>,
    ranges0: Map<u32, Vec<u32>>,
    blocks1: Map<u32, Block>,
    ranges1: Map<u32, Vec<u32>>,
    start: u32,
    fp: u32,
)
    requires
        blocks_agree(blocks0, ranges0),
        !blocks0.contains_key(start),
        blocks1.dom() == blocks0.dom().insert(start),
        forall|a: u32| a != start && blocks0.contains_key(a) ==> blocks1[a] == blocks0[a],
        blocks1[start].final_pc_spec() == fp,
        ranges1.dom() == ranges0.dom().insert(fp),
        ranges1[fp]@ == (if ranges0.contains_key(fp) {
            ranges0[fp]@.push(start)
        } else {
            seq![start]
        }),
        forall|a: u32| a != fp && ranges0.contains_key(a) ==> ranges1[a] == ranges0[a],
    ensures
        blocks_agree(blocks1, ranges1),
{
    assert forall|e: u32| #[trigger] ranges1.contains_key(e) implies ranges1[e]@.no_duplicates() by {
        if e == fp && ranges0.contains_key(fp) {
            let old_list = ranges0[fp]@;
            assert forall|i: int, j: int| 0 <= i < j < ranges1[e]@.len() implies ranges1[e]@[i]
                != ranges1[e]@[j] by {
                if j == old_list.len() {
                    assert(blocks0.contains_key(old_list[i]));
                }
            }
        }
    }
    assert forall|e: u32, k: int|
        ranges1.contains_key(e) && 0 <= k < ranges1[e]@.len() implies #[trigger] blocks1.contains_key(
        ranges1[e]@[k]) && blocks1[ranges1[e]@[k]].final_pc_spec() == e by {
        if e == fp {
            if ranges0.contains_key(fp) && k < ranges0[fp]@.len() {
                assert(ranges1[e]@[k] == ranges0[fp]@[k]);
                assert(blocks0.contains_key(ranges0[fp]@[k]));
            }
        } else {
            assert(blocks0.contains_key(ranges0[e]@[k]));
        }
    }
    assert forall|s: u32| #[trigger] blocks1.contains_key(s) implies ranges1.contains_key(
        blocks1[s].final_pc_spec()) && ranges1[blocks1[s].final_pc_spec()]@.contains(s) by {
        if s == start {
            assert(ranges1[fp]@[ranges1[fp]@.len() - 1] == start);
        } else {
            let e = blocks0[s].final_pc_spec();
            if e == fp {
                let j = choose|j: int| 0 <= j < ranges0[fp]@.len() && ranges0[fp]@[j] == s;
                assert(ranges1[fp]@[j] == s);
            }
        }
    }
}

/// Dropping a block, the blocks that end where it ends and start below it, and
/// keeping listed under that end only the blocks above it, keeps the blocks and the
/// range map in agreement.
proof fn lemma_invalidation_agrees(
    blocks0: Map<u32, Block>,
    ranges0: Map<u32, Vec<u32>>,
    blocks1: Map<u32, Block>,
    ranges1: Map<u32, Vec<u32>>,
    address: u32,
)
    requires
        blocks_agree(blocks0, ranges0),
        blocks0.contains_key(address),
        ({
            let fp = blocks0[address].final_pc_spec();
            let starts = ranges0[fp]@;
            &&& blocks1 == blocks0.remove(address).remove_keys(starts.filter(below(address)).to_set())
            &&& ranges1.dom() == ranges0.dom()
            &&& ranges1[fp]@ == starts.filter(above(address))
            &&& forall|a: u32| a != fp && ranges0.contains_key(a) ==> ranges1[a] == ranges0[a]
        }),
    ensures
        blocks_agree(blocks1, ranges1),
{
    let fp = blocks0[address].final_pc_spec();
    let starts = ranges0[fp]@;
    let lower = starts.filter(below(address));
    let upper = starts.filter(above(address));
    assert(ranges0.contains_key(fp));
    assert forall|e: u32| #[trigger] ranges1.contains_key(e) implies ranges1[e]@.no_duplicates() by {
        if e == fp {
            lemma_filter_no_duplicates(starts, above(address));
        }
    }
    assert forall|e: u32, k: int|
        ranges1.contains_key(e) && 0 <= k < ranges1[e]@.len() implies #[trigger] blocks1.contains_key(
        ranges1[e]@[k]) && blocks1[ranges1[e]@[k]].final_pc_spec() == e by {
        let s = ranges1[e]@[k];
        if e == fp {
            starts.lemma_filter_pred(above(address), k);
            assert(upper.contains(s));
            starts.lemma_filter_contains_rev(above(address), s);
            let j = choose|j: int| 0 <= j < starts.len() && starts[j] == s;
            assert(blocks0.contains_key(starts[j]));
            if lower.to_set().contains(s) {
                let i = choose|i: int| 0 <= i < lower.len() && lower[i] == s;
                starts.lemma_filter_pred(below(address), i);
            }
        } else {
            assert(blocks0.contains_key(ranges0[e]@[k]));
            assert(s != address);
            if lower.to_set().contains(s) {
                let i = choose|i: int| 0 <= i < lower.len() && lower[i] == s;
                assert(lower.contains(s));
                starts.lemma_filter_contains_rev(below(address), s);
                let j = choose|j: int| 0 <= j < starts.len() && starts[j] == s;
                assert(blocks0[starts[j]].final_pc_spec() == fp);
            }
        }
    }
    assert forall|s: u32| #[trigger] blocks1.contains_key(s) implies ranges1.contains_key(
        blocks1[s].final_pc_spec()) && ranges1[blocks1[s].final_pc_spec()]@.contains(s) by {
        assert(blocks0.contains_key(s));
        assert(s != address);
        assert(!lower.to_set().contains(s));
        let e = blocks0[s].final_pc_spec();
        if e == fp {
            let j = choose|j: int| 0 <= j < starts.len() && starts[j] == s;
            if s < address {
                starts.lemma_filter_contains(below(address), j);
                assert(lower.contains(s));
            }
            starts.lemma_filter_contains(above(address), j);
        }
    }
}

/// What the run loop does at the program counter.
#[derive(Debug, Clone, Copy, PartialEq, Eq, Structural)]
pub enum NextStep {
    /// Runs the block compiled at this physical address.
    RunBlock(u32),
    /// Compiles the block at this physical address first.
    Translate(u32),
}

/// A branch was taken at stub `i` of a block of `len` stubs: the instructions that
/// count as run, and whether the stub after it (the delay slot) runs too before the
/// block is left.
pub fn steps_when_branching(i: usize, len: usize) -> (r: (u32, bool))
    requires
        i < len,
        len < 0x1_0000_0000,
    ensures
        r.1 == (i + 1 != len),
        r.0 == (if r.1 { i + 2 } else { i + 1 }),
{
    if i + 1 != len {
        ((i + 2) as u32, true)
    } else {
        ((i + 1) as u32, false)
    }
}

/// Whether one of the `written` addresses lies in `address ..= end`.
pub open spec fn written_within(written: Set<u32>, address: u32, end: u32) -> bool {
    exists|x: u32| #[trigger] written.contains(x) && address <= x <= end
}

/// The console, the compiled blocks by physical start address, and for each
/// physical end address the start addresses of the blocks that end there.
pub struct CachingInterpreter {
    pub console: Console,
    pub blocks: HashMap<u32, Block>,
    pub ranges_compiled: HashMap<u32, Vec<u32>>,
}

impl CachingInterpreter {
    /// The compiled blocks and the range map agree.
    pub open spec fn wf(&self) -> bool {
        blocks_agree(self.blocks@, self.ranges_compiled@)
    }

    /// A caching interpreter for a console fresh from reset, with nothing compiled.
    pub fn new(gpu_logging: bool, cd_contents: Option<Vec<u8>>) -> (r: Self)
        ensures
            r.console.r3000@ == R3000::new_view(),
            r.console.gpu.logging() == gpu_logging,
            r.console.i == 0,
            r.blocks@.is_empty(),
            r.ranges_compiled@.is_empty(),
            r.wf(),
    {
        CachingInterpreter {
            console: Console::new(gpu_logging, cd_contents),
            blocks: HashMap::new(),
            ranges_compiled: HashMap::new(),
        }
    }

    /// Compiles the block at the program counter, whose words are `words` (exactly
    /// the block), and records it under its physical start address, with the physical
    /// address of its last instruction and its length; the block is also listed among
    /// those that end at that address.
    pub fn translate(&mut self, words: &Vec<u32>, optimize: bool)
        requires
            block_size(words@) == Some(words@.len()),
            words@.len() < 0x1000_0000,
            forall|i: int| 0 <= i < words@.len() ==> taggable(#[trigger] words@[i]),
            old(self).console.r3000@.len() == 35,
        ensures
            ({
                let pc = old(self).console.r3000@[32];
                let start = physical_address(pc);
                let final_pc = physical_address(crate::register::wrap32(pc + 4 * (words@.len() - 1)));
                &&& final(self).blocks@.dom() == old(self).blocks@.dom().insert(start)
                &&& forall|a: u32| a != start && old(self).blocks@.contains_key(a) ==> final(self).blocks@[a] == old(self).blocks@[a]
                &&& final(self).blocks@[start].final_pc_spec() == final_pc
                &&& final(self).blocks@[start].nominal_len_spec() == words@.len()
                &&& final(self).blocks@[start].stubs_spec().len() <= words@.len()
                &&& final(self).ranges_compiled@.dom() == old(self).ranges_compiled@.dom().insert(final_pc)
                &&& final(self).ranges_compiled@[final_pc]@ == (if old(self).ranges_compiled@.contains_key(final_pc) {
                    old(self).ranges_compiled@[final_pc]@.push(start)
                } else {
                    seq![start]
                })
                &&& forall|a: u32| a != final_pc && old(self).ranges_compiled@.contains_key(a)
                    ==> final(self).ranges_compiled@[a] == old(self).ranges_compiled@[a]
            }),
            final(self).console == old(self).console,
            old(self).wf() && !old(self).blocks@.contains_key(
                physical_address(old(self).console.r3000@[32]),
            ) ==> final(self).wf(),
    {
        broadcast use vstd::std_specs::hash::group_hash_axioms;
        let ghost blocks0 = self.blocks@;
        let ghost ranges0 = self.ranges_compiled@;
        let n = words.len();
        let tagged_opcodes = tag_opcodes(words, n);
        let pc = self.console.r3000.pc();
        let start = Console::physical(pc);
        let last = pc.wrapping_add(4 * (n as u32 - 1));
        proof {
            assert(last == crate::register::wrap32(pc + 4 * (n - 1))) by {
                let m: int = 0x1_0000_0000;
                vstd::arithmetic::div_mod::lemma_mod_twice(pc + 4 * (n - 1), m);
            }
        }
        let final_pc = Console::physical(last);
        let block = if optimize {
            Block::new_optimized(&tagged_opcodes, final_pc, n as u32)
        } else {
            Block::new(&tagged_opcodes, final_pc, n as u32)
        };
        proof {
            block::lemma_optimized_stubs_no_longer(tagged_opcodes@, tagged_opcodes@.len());
        }
        self.blocks.insert(start, block);
        let starts = match self.ranges_compiled.remove(&final_pc) {
            Some(v) => {
                let mut v = v;
                v.push(start);
                v
            },
            None => vec![start],
        };
        assert(starts@ =~= (if ranges0.contains_key(final_pc) {
            ranges0[final_pc]@.push(start)
        } else {
            seq![start]
        }));
        self.ranges_compiled.insert(final_pc, starts);
        proof {
            assert(self.ranges_compiled@.dom() =~= ranges0.dom().insert(final_pc));
            assert(self.blocks@.dom() =~= blocks0.dom().insert(start));
            if blocks_agree(blocks0, ranges0) && !blocks0.contains_key(start) {
                lemma_adding_block_agrees(
                    blocks0,
                    ranges0,
                    self.blocks@,
                    self.ranges_compiled@,
                    start,
                    final_pc,
                );
            }
        }
    }

    /// Where the run loop stands: the block compiled at the physical address of the
    /// program counter runs; without one, that block is compiled first.
    pub fn next_step(&self) -> (r: NextStep)
        requires
            self.console.r3000@.len() == 35,
        ensures
            ({
                let address = physical_address(self.console.r3000@[32]);
                r == (if self.blocks@.contains_key(address) {
                    NextStep::RunBlock(address)
                } else {
                    NextStep::Translate(address)
                })
            }),
    {
        broadcast use vstd::std_specs::hash::group_hash_axioms;
        let address = Console::physical(self.console.r3000.pc());
        if self.blocks.contains_key(&address) {
            NextStep::RunBlock(address)
        } else {
            NextStep::Translate(address)
        }
    }

    /// The bookkeeping after the block at `address` ran `steps_taken` instructions:
    /// they are counted; if an address written meanwhile lies between the block's start
    /// and its last instruction, the block is invalidated (and `true` returned); the
    /// written addresses are then forgotten.
    pub fn finish_block(&mut self, address: u32, steps_taken: u32) -> (r: bool)
        requires
            old(self).wf(),
            old(self).blocks@.contains_key(address),
            old(self).console.i + steps_taken <= u32::MAX,
        ensures
            r == written_within(
                old(self).console.overwritten@,
                address,
                old(self).blocks@[address].final_pc_spec(),
            ),
            final(self).wf(),
            r ==> ({
                let fp = old(self).blocks@[address].final_pc_spec();
                let starts = old(self).ranges_compiled@[fp]@;
                &&& final(self).blocks@ == old(self).blocks@.remove(address).remove_keys(
                    starts.filter(below(address)).to_set(),
                )
                &&& final(self).ranges_compiled@.dom() == old(self).ranges_compiled@.dom()
                &&& final(self).ranges_compiled@[fp]@ == starts.filter(above(address))
                &&& forall|a: u32| a != fp && old(self).ranges_compiled@.contains_key(a)
                    ==> final(self).ranges_compiled@[a] == old(self).ranges_compiled@[a]
            }),
            !r ==> final(self).blocks@ == old(self).blocks@ && final(self).ranges_compiled@
                == old(self).ranges_compiled@,
            final(self).console.i == old(self).console.i + steps_taken,
            final(self).console.overwritten@.is_empty(),
            final(self).console.r3000 == old(self).console.r3000,
            final(self).console.cop0 == old(self).console.cop0,
            final(self).console.gpu == old(self).console.gpu,
            final(self).console.gte == old(self).console.gte,
            final(self).console.cd == old(self).console.cd,
            final(self).console.next_pc == old(self).console.next_pc,
            final(self).console.delayed_writes == old(self).console.delayed_writes,
            final(self).console.modified_register == old(self).console.modified_register,
    {
        broadcast use vstd::std_specs::hash::group_hash_axioms;
        let end = match self.blocks.get(&address) {
            Some(b) => b.final_pc(),
            None => 0,
        };
        let written = crate::jit::set_elements(&self.console.overwritten);
        let ghost w = self.console.overwritten@;
        let mut hit = false;
        let mut k: usize = 0;
        while k < written.len()
            invariant
                k <= written@.len(),
                written@.to_set() == w,
                hit == exists|x: u32| #[trigger] written@.take(k as int).contains(x) && address <= x <= end,
            decreases written@.len() - k,
        {
            let x = written[k];
            proof {
                assert(written@.take(k + 1) =~= written@.take(k as int).push(x));
            }
            if address <= x && x <= end {
                hit = true;
            }
            proof {
                let t = written@.take(k as int);
                let t1 = written@.take(k + 1);
                assert(t1[k as int] == x);
                assert forall|y: u32| #[trigger] t1.contains(y) implies t.contains(y) || y == x by {
                    let j = choose|j: int| 0 <= j < t1.len() && t1[j] == y;
                    if j < k {
                        assert(t[j] == y);
                    }
                }
                assert forall|y: u32| #[trigger] t.contains(y) implies t1.contains(y) by {
                    let j = choose|j: int| 0 <= j < t.len() && t[j] == y;
                    assert(t1[j] == y);
                }
                if address <= x && x <= end {
                    assert(t1.contains(x));
                } else if exists|y: u32| #[trigger] t1.contains(y) && address <= y <= end {
                    let y = choose|y: u32| #[trigger] t1.contains(y) && address <= y <= end;
                    assert(t.contains(y));
                }
            }
            k = k + 1;
        }
        proof {
            assert(written@.take(k as int) =~= written@);
            if hit {
                let x = choose|x: u32| #[trigger] written@.contains(x) && address <= x <= end;
                assert(written@.to_set().contains(x));
            }
            if written_within(w, address, end) {
                let x = choose|x: u32| #[trigger] w.contains(x) && address <= x <= end;
                assert(written@.to_set().contains(x));
                assert(written@.contains(x));
            }
        }
        if hit {
            proof {
                let fp = self.blocks@[address].final_pc_spec();
                let starts = self.ranges_compiled@[fp]@;
                let lower = starts.filter(below(address));
                lemma_filter_no_duplicates(starts, below(address));
                assert forall|i: int| 0 <= i < lower.len() implies self.blocks@.contains_key(
                    #[trigger] lower[i],
                ) by {
                    starts.lemma_filter_contains_rev(below(address), lower[i]);
                    let j = choose|j: int| 0 <= j < starts.len() && starts[j] == lower[i];
                    assert(self.blocks@.contains_key(starts[j]));
                }
            }
            self.cache_invalidation(address);
        }
        self.console.i = self.console.i + steps_taken;
        self.console.overwritten.clear();
        hit
    }

    /// After the code of the block at `address` was overwritten: drops that block
    /// and the blocks that end where it ends and start before it, and keeps listed
    /// under that end only the blocks that start after it.
    pub fn cache_invalidation(&mut self, address: u32)
        requires
            old(self).blocks@.contains_key(address),
            old(self).ranges_compiled@.contains_key(old(self).blocks@[address].final_pc_spec()),
            ({
                let lower = old(self).ranges_compiled@[old(self).blocks@[address].final_pc_spec()]@.filter(
                    below(address),
                );
                &&& lower.no_duplicates()
                &&& forall|i: int| 0 <= i < lower.len() ==> old(self).blocks@.contains_key(#[trigger] lower[i])
            }),
        ensures
            ({
                let fp = old(self).blocks@[address].final_pc_spec();
                let starts = old(self).ranges_compiled@[fp]@;
                &&& final(self).blocks@ == old(self).blocks@.remove(address).remove_keys(
                    starts.filter(below(address)).to_set(),
                )
                &&& final(self).ranges_compiled@.dom() == old(self).ranges_compiled@.dom()
                &&& final(self).ranges_compiled@[fp]@ == starts.filter(above(address))
                &&& forall|a: u32| a != fp && old(self).ranges_compiled@.contains_key(a)
                    ==> final(self).ranges_compiled@[a] == old(self).ranges_compiled@[a]
            }),
            final(self).console == old(self).console,
            old(self).wf() ==> final(self).wf(),
    {
        broadcast use vstd::std_specs::hash::group_hash_axioms;
        let ghost fp0 = old(self).blocks@[address].final_pc_spec();
        let deleted = self.blocks.remove(&address);
        let fp = match deleted {
            Some(b) => b.final_pc(),
            None => 0,
        };
        assert(fp == fp0);
        let starts = match self.ranges_compiled.remove(&fp) {
            Some(v) => v,
            None => Vec::new(),
        };
        let lower = starts_below(&starts, address);
        let upper = starts_above(&starts, address);
        proof {
            assert forall|i: int| 0 <= i < lower@.len() implies #[trigger] lower@[i] != address by {
                starts@.lemma_filter_pred(below(address), i);
            }
        }
        let ghost base = old(self).blocks@.remove(address);
        let ghost ranges_mid = self.ranges_compiled@;
        let mut k: usize = 0;
        while k < lower.len()
            invariant
                self.console == old(self).console,
                self.ranges_compiled@ == ranges_mid,
                k <= lower@.len(),
                lower@.no_duplicates(),
                forall|i: int| 0 <= i < lower@.len() ==> base.contains_key(#[trigger] lower@[i]),
                self.blocks@ == base.remove_keys(lower@.take(k as int).to_set()),
            decreases lower@.len() - k,
        {
            let s = lower[k];
            proof {
                assert(!lower@.take(k as int).contains(s)) by {
                    if lower@.take(k as int).contains(s) {
                        let j = choose|j: int| 0 <= j < k && lower@.take(k as int)[j] == s;
                        assert(lower@[j] == lower@[k as int]);
                    }
                }
            }
            self.blocks.remove(&s);
            proof {
                assert(lower@.take(k + 1) =~= lower@.take(k as int).push(s));
                lower@.take(k as int).lemma_push_to_set_commute(s);
                assert(self.blocks@ =~= base.remove_keys(lower@.take(k + 1).to_set()));
            }
            k = k + 1;
        }
        assert(lower@.take(k as int) =~= lower@);
        self.ranges_compiled.insert(fp, upper);
        assert(self.blocks@ =~= old(self).blocks@.remove(address).remove_keys(
            starts@.filter(below(address)).to_set(),
        ));
        proof {
            if blocks_agree(old(self).blocks@, old(self).ranges_compiled@) {
                lemma_invalidation_agrees(
                    old(self).blocks@,
                    old(self).ranges_compiled@,
                    self.blocks@,
                    self.ranges_compiled@,
                    address,
                );
            }
        }
    }
}

} // verus!
