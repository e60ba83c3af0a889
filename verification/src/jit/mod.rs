//! Block compilation: the block-based JIT's state and stubs, instruction tagging,
//! block planning and x86-64 code emission.
use vstd::prelude::*;
use std::collections::{HashMap, HashSet};
use crate::console::{Console, physical_address};
use crate::console::r3000::R3000;
use jumps::ends_block;

pub mod caching_interpreter;
pub mod insn;
pub mod jumps;
pub mod x64_jit;

verus! {

/// A compiled run of instructions: the words it executes, one after the other (the
/// last two being the jump that ends it and its delay slot, or the last one a
/// SYSCALL), and the address of its last instruction.
pub struct Stub {
    operations: Vec<u32>,
    final_pc: u32,
}

impl Stub {
    pub closed spec fn operations_spec(&self) -> Seq<u32> {
        self.operations@
    }

    pub closed spec fn final_pc_spec(&self) -> u32 {
        self.final_pc
    }

    pub fn operations(&self) -> (r: &Vec<u32>)
        ensures
            r@ == self.operations_spec(),
    {
        &self.operations
    }

    pub fn final_pc(&self) -> (r: u32)
        ensures
            r == self.final_pc_spec(),
    {
        self.final_pc
    }
}

/// The index of the first instruction from `i` on that ends a stub, if any.
pub open spec fn first_block_end(words: Seq<u32>, i: nat) -> Option<nat>
    decreases words.len() - i,
{
    if i >= words.len() {
        None
    } else if ends_block(words[i as int]) {
        Some(i)
    } else {
        first_block_end(words, i + 1)
    }
}

/// How many of `words` a stub takes: up to the first jump, branch or SYSCALL, and
/// the delay slot after it unless it is the SYSCALL word 0x0000000C itself; none when
/// the stub does not end within `words`.
pub open spec fn stub_size(words: Seq<u32>) -> Option<nat> {
    match first_block_end(words, 0) {
        Some(k) => {
            let n = if words[k as int] != 0x0c { k + 2 } else { k + 1 };
            if n <= words.len() { Some(n as nat) } else { None }
        },
        None => None,
    }
}

proof fn lemma_first_block_end_step(words: Seq<u32>, k: nat)
    requires
        k < words.len(),
        !ends_block(words[k as int]),
    ensures
        first_block_end(words, k) == first_block_end(words, k + 1),
{
}

/// The number of words in the stub that starts with `words`, if it ends among them.
pub fn stub_len(words: &Vec<u32>) -> (r: Option<usize>)
    ensures
        r matches Some(n) ==> stub_size(words@) == Some(n as nat),
        r is None ==> stub_size(words@) is None,
{
    let mut k: usize = 0;
    while k < words.len()
        invariant
            k <= words@.len(),
            first_block_end(words@, 0) == first_block_end(words@, k as nat),
        decreases words@.len() - k,
    {
        let op = words[k];
        if jumps::is_block_end(op) {
            let remaining = words.len() - k;
            if op == 0x0c {
                return Some(k + 1);
            } else if remaining >= 2 {
                return Some(k + 2);
            } else {
                return None;
            }
        }
        proof {
            lemma_first_block_end_step(words@, k as nat);
        }
        k = k + 1;
    }
    None
}

/// The elements of a set of addresses, each once, in the set's own order.
pub fn set_elements(set: &HashSet<u32>) -> (r: Vec<u32>)
    ensures
        r@.to_set() == set@,
        r@.no_duplicates(),
{
    broadcast use vstd::std_specs::hash::group_hash_axioms;
    let ghost elems = vstd::std_specs::iter::IteratorSpec::remaining(&vstd::std_specs::hash::spec_hash_keys_iter(set)).unref();
    let mut out: Vec<u32> = Vec::new();
    for a in it: set.iter()
        invariant
            it.seq().unref() == elems,
            out@ == elems.take(it.index()),
    {
        proof {
            assert(elems.take(it.index() + 1) =~= elems.take(it.index()).push(*a));
        }
        out.push(*a);
    }
    assert(out@ =~= elems);
    out
}

/// The end addresses listed in a range map, each once, in the map's own order.
pub fn range_ends(ranges: &HashMap<u32, Vec<u32>>) -> (r: Vec<u32>)
    ensures
        r@.to_set() == ranges@.dom(),
        r@.no_duplicates(),
{
    broadcast use vstd::std_specs::hash::group_hash_axioms;
    let ghost ends = vstd::std_specs::iter::IteratorSpec::remaining(&vstd::std_specs::hash::spec_keys_iter(ranges)).unref();
    let mut out: Vec<u32> = Vec::new();
    for e in it: ranges.keys()
        invariant
            it.seq().unref() == ends,
            out@ == ends.take(it.index()),
    {
        proof {
            assert(ends.take(it.index() + 1) =~= ends.take(it.index()).push(*e));
        }
        out.push(*e);
    }
    assert(out@ =~= ends);
    out
}

/// Whether a start address lies at or below `address`.
pub open spec fn at_or_below(address: u32) -> spec_fn(u32) -> bool {
    |s: u32| s <= address
}

/// Appends the start addresses in `starts` at or below `address`, in order.
fn push_starts_at_or_below(out: &mut Vec<u32>, starts: &Vec<u32>, address: u32)
    ensures
        final(out)@ == old(out)@ + starts@.filter(at_or_below(address)),
{
    let mut i: usize = 0;
    while i < starts.len()
        invariant
            i <= starts@.len(),
            out@ == old(out)@ + starts@.take(i as int).filter(at_or_below(address)),
        decreases starts@.len() - i,
    {
        proof {
            assert(starts@.take(i + 1) =~= starts@.take(i as int).push(starts@[i as int]));
            starts@.take(i as int).lemma_filter_push(starts@[i as int], at_or_below(address));
        }
        if starts[i] <= address {
            out.push(starts[i]);
        }
        i = i + 1;
    }
    assert(starts@.take(i as int) =~= starts@);
}

/// Whether the start address listed `k`-th under end address `e` belongs to a stub
/// that covers the overwritten address `a`: the stub starts at or below `a` and ends
/// at or above it.
pub open spec fn covers(overwritten: Set<u32>, ranges: Map<u32, Vec<u32>>, a: u32, e: u32, k: int) -> bool {
    &&& overwritten.contains(a)
    &&& ranges.contains_key(e)
    &&& a <= e
    &&& 0 <= k < ranges[e]@.len()
    &&& ranges[e]@[k] <= a
}

/// Whether the stub starting at `s` and ending at `e` covers `a`.
pub open spec fn stale_under(overwritten: Set<u32>, ranges: Map<u32, Vec<u32>>, a: u32, e: u32, s: u32) -> bool {
    &&& overwritten.contains(a)
    &&& ranges.contains_key(e)
    &&& a <= e
    &&& ranges[e]@.contains(s)
    &&& s <= a
}

/// The final instruction addresses of the stubs that start at `starts`.
pub open spec fn stub_ends(stubs: Map<u32, Stub>, starts: Set<u32>) -> Set<u32> {
    Set::new(|f: u32| exists|s: u32| #[trigger] starts.contains(s) && stubs[s].final_pc_spec() == f)
}

/// The start addresses of the stubs that cover an overwritten address.
pub open spec fn stale_starts(overwritten: Set<u32>, ranges: Map<u32, Vec<u32>>) -> Set<u32> {
    Set::new(|s: u32| exists|a: u32, e: u32| #[trigger] stale_under(overwritten, ranges, a, e, s))
}

/// The start addresses of the stubs that cover an address in `overwritten`, found
/// by walking each overwritten address against each end address of `ranges_map`.
pub fn stale_start_list(overwritten: &HashSet<u32>, ranges_map: &HashMap<u32, Vec<u32>>) -> (r: Vec<u32>)
    ensures
        r@.to_set() == stale_starts(overwritten@, ranges_map@),
{
    broadcast use vstd::std_specs::hash::group_hash_axioms;
    let ghost written = overwritten@;
    let ghost ranges = ranges_map@;
    let addrs = set_elements(overwritten);
    let ends = range_ends(ranges_map);
    let mut stale: Vec<u32> = Vec::new();
    let mut i: usize = 0;
    while i < addrs.len()
        invariant
            i <= addrs@.len(),
            addrs@.to_set() == written,
            ends@.to_set() == ranges.dom(),
            ranges == ranges_map@,
            forall|s: u32|
                stale@.contains(s) <==> exists|a: u32, e: u32|
                    addrs@.take(i as int).contains(a) && #[trigger] stale_under(written, ranges, a, e, s),
        decreases addrs@.len() - i,
    {
        let a = addrs[i];
        let mut j: usize = 0;
        while j < ends.len()
            invariant
                i < addrs@.len(),
                a == addrs@[i as int],
                j <= ends@.len(),
                addrs@.to_set() == written,
                ends@.to_set() == ranges.dom(),
                ranges == ranges_map@,
                forall|s: u32|
                    stale@.contains(s) <==> (exists|a1: u32, e: u32|
                        addrs@.take(i as int).contains(a1) && #[trigger] stale_under(written, ranges, a1, e, s))
                        || (exists|e: u32| ends@.take(j as int).contains(e) && #[trigger] stale_under(written, ranges, a, e, s)),
            decreases ends@.len() - j,
        {
            let e = ends[j];
            let ghost before = stale@;
            proof {
                assert(ends@.to_set().contains(e));
                assert(addrs@.to_set().contains(a));
            }
            if a <= e {
                match ranges_map.get(&e) {
                    Some(starts) => {
                        push_starts_at_or_below(&mut stale, starts, a);
                    },
                    None => {},
                }
            }
            proof {
                assert(ends@.take(j + 1) =~= ends@.take(j as int).push(e));
                assert forall|s: u32|
                    stale@.contains(s) <==> (exists|a1: u32, e1: u32|
                        addrs@.take(i as int).contains(a1) && #[trigger] stale_under(written, ranges, a1, e1, s))
                        || (exists|e1: u32| ends@.take(j + 1).contains(e1) && #[trigger] stale_under(written, ranges, a, e1, s)) by {
                    let added = if a <= e { ranges[e]@.filter(at_or_below(a)) } else { Seq::<u32>::empty() };
                    assert(stale@ =~= before + added);
                    if added.contains(s) {
                        ranges[e]@.filter_lemma(at_or_below(a));
                        ranges[e]@.lemma_filter_contains_rev(at_or_below(a), s);
                        let k = choose|k: int| 0 <= k < added.len() && added[k] == s;
                        assert(at_or_below(a)(added[k]));
                        assert(stale_under(written, ranges, a, e, s));
                        assert(ends@.take(j + 1).contains(e)) by {
                            assert(ends@.take(j + 1)[j as int] == e);
                        }
                    }
                    if a <= e && stale_under(written, ranges, a, e, s) {
                        ranges[e]@.filter_lemma(at_or_below(a));
                        let k = choose|k: int| 0 <= k < ranges[e]@.len() && ranges[e]@[k] == s;
                        assert(at_or_below(a)(ranges[e]@[k]));
                        assert(added.contains(s));
                    }
                    if stale@.contains(s) {
                        if !before.contains(s) {
                            assert(added.contains(s)) by {
                                let k = choose|k: int| 0 <= k < stale@.len() && stale@[k] == s;
                                assert(added[k - before.len()] == s);
                            }
                        }
                    } else {
                        assert(!before.contains(s)) by {
                            if before.contains(s) {
                                let k = choose|k: int| 0 <= k < before.len() && before[k] == s;
                                assert(stale@[k] == s);
                            }
                        }
                        assert(!added.contains(s)) by {
                            if added.contains(s) {
                                let k = choose|k: int| 0 <= k < added.len() && added[k] == s;
                                assert(stale@[before.len() + k] == s);
                            }
                        }
                    }
                    if exists|e1: u32| ends@.take(j + 1).contains(e1) && #[trigger] stale_under(written, ranges, a, e1, s) {
                        let e1 = choose|e1: u32| ends@.take(j + 1).contains(e1) && #[trigger] stale_under(written, ranges, a, e1, s);
                        if e1 != e {
                            let t = ends@.take(j + 1);
                            let k = choose|k: int| 0 <= k < t.len() && t[k] == e1;
                            assert(k < j);
                            assert(ends@.take(j as int).contains(e1)) by {
                                assert(ends@.take(j as int)[k] == e1);
                            }
                        }
                    }
                }
            }
            j = j + 1;
        }
        proof {
            assert(ends@.take(j as int) =~= ends@);
            assert(addrs@.take(i + 1) =~= addrs@.take(i as int).push(a));
            assert forall|s: u32|
                stale@.contains(s) <==> exists|a1: u32, e: u32|
                    addrs@.take(i + 1).contains(a1) && #[trigger] stale_under(written, ranges, a1, e, s) by {
                if exists|a1: u32, e: u32| addrs@.take(i + 1).contains(a1) && #[trigger] stale_under(written, ranges, a1, e, s) {
                    let (a1, e) = choose|a1: u32, e: u32| addrs@.take(i + 1).contains(a1) && #[trigger] stale_under(written, ranges, a1, e, s);
                    if a1 == a {
                        assert(ranges.dom().contains(e));
                        assert(ends@.to_set().contains(e));
                        assert(ends@.contains(e));
                    } else {
                        let t = addrs@.take(i + 1);
                        let k = choose|k: int| 0 <= k < t.len() && t[k] == a1;
                        assert(addrs@.take(i as int).contains(a1)) by {
                            assert(addrs@.take(i as int)[k] == a1);
                        }
                    }
                }
                if exists|e: u32| ends@.contains(e) && #[trigger] stale_under(written, ranges, a, e, s) {
                    let e = choose|e: u32| ends@.contains(e) && #[trigger] stale_under(written, ranges, a, e, s);
                    assert(addrs@.take(i + 1).contains(a)) by {
                        assert(addrs@.take(i + 1)[i as int] == a);
                    }
                }
                if exists|a1: u32, e: u32| addrs@.take(i as int).contains(a1) && #[trigger] stale_under(written, ranges, a1, e, s) {
                    let (a1, e) = choose|a1: u32, e: u32| addrs@.take(i as int).contains(a1) && #[trigger] stale_under(written, ranges, a1, e, s);
                    let t = addrs@.take(i as int);
                    let k = choose|k: int| 0 <= k < t.len() && t[k] == a1;
                    assert(addrs@.take(i + 1)[k] == a1);
                }
            }
        }
        i = i + 1;
    }
    proof {
        assert(addrs@.take(i as int) =~= addrs@);
        assert forall|s: u32| stale@.contains(s) <==> stale_starts(written, ranges).contains(s) by {
            if stale_starts(written, ranges).contains(s) {
                let (a, e) = choose|a: u32, e: u32| #[trigger] stale_under(written, ranges, a, e, s);
                assert(addrs@.to_set().contains(a));
            }
        }
    }
    assert(stale@.to_set() =~= stale_starts(written, ranges));
    stale
}

/// The JIT: the console, the stubs by physical start address, for each physical end
/// address the start addresses of the stubs that end there, and the number of
/// instructions run.
pub struct JIT {
    pub console: Console,
    pub stubs: HashMap<u32, Stub>,
    pub ranges_compiled: HashMap<u32, Vec<u32>>,
    pub i: u32,
}

impl JIT {
    /// A JIT for a console fresh from reset, with nothing compiled.
    pub fn new(gpu_logging: bool, cd_contents: Option<Vec<u8>>) -> (r: Self)
        ensures
            r.console.r3000@ == R3000::new_view(),
            r.console.gpu.logging() == gpu_logging,
            r.stubs@.is_empty(),
            r.ranges_compiled@.is_empty(),
            r.i == 0,
    {
        JIT {
            console: Console::new(gpu_logging, cd_contents),
            stubs: HashMap::new(),
            ranges_compiled: HashMap::new(),
            i: 0,
        }
    }

    /// Compiles the stub at the program counter, whose words are `words` (exactly
    /// the stub), and records it under its physical start address; it is also listed
    /// among the stubs that end at the physical address of its last instruction.
    pub fn compile_stub(&mut self, words: Vec<u32>)
        requires
            stub_size(words@) == Some(words@.len()),
            words@.len() < 0x1000_0000,
            old(self).console.r3000@.len() == 35,
        ensures
            ({
                let pc = old(self).console.r3000@[32];
                let start = physical_address(pc);
                let last = crate::register::wrap32(pc + 4 * (words@.len() - 1));
                let end = physical_address(last);
                &&& final(self).stubs@.dom() == old(self).stubs@.dom().insert(start)
                &&& forall|a: u32| a != start && old(self).stubs@.contains_key(a) ==> final(self).stubs@[a] == old(self).stubs@[a]
                &&& final(self).stubs@[start].operations_spec() == words@
                &&& final(self).stubs@[start].final_pc_spec() == last
                &&& final(self).ranges_compiled@.dom() == old(self).ranges_compiled@.dom().insert(end)
                &&& final(self).ranges_compiled@[end]@ == (if old(self).ranges_compiled@.contains_key(end) {
                    old(self).ranges_compiled@[end]@.push(start)
                } else {
                    seq![start]
                })
                &&& forall|a: u32| a != end && old(self).ranges_compiled@.contains_key(a)
                    ==> final(self).ranges_compiled@[a] == old(self).ranges_compiled@[a]
            }),
            final(self).console == old(self).console,
            final(self).i == old(self).i,
    {
        broadcast use vstd::std_specs::hash::group_hash_axioms;
        let n = words.len();
        let pc = self.console.r3000.pc();
        let start = Console::physical(pc);
        let address = pc.wrapping_add(4 * (n as u32 - 1));
        proof {
            assert(address == crate::register::wrap32(pc + 4 * (n - 1))) by {
                let m: int = 0x1_0000_0000;
                vstd::arithmetic::div_mod::lemma_mod_twice(pc + 4 * (n - 1), m);
            }
        }
        self.stubs.insert(start, Stub { operations: words, final_pc: address });
        let end = Console::physical(address);
        let starts = match self.ranges_compiled.remove(&end) {
            Some(v) => {
                let mut v = v;
                v.push(start);
                v
            },
            None => vec![start],
        };
        self.ranges_compiled.insert(end, starts);
    }

    /// Drops every stub that covers an address written since the last call (it
    /// starts at or below the address and ends at or above it), removes the final
    /// instruction address of each dropped stub from the range map's keys, and
    /// forgets the overwritten addresses.
    pub fn cache_invalidation(&mut self)
        requires
            forall|s: u32|
                stale_starts(old(self).console.overwritten@, old(self).ranges_compiled@).contains(s)
                    ==> old(self).stubs@.contains_key(s),
            forall|a1: u32, e1: u32, k1: int, a2: u32, e2: u32, k2: int|
                #![trigger covers(old(self).console.overwritten@, old(self).ranges_compiled@, a1, e1, k1), covers(old(self).console.overwritten@, old(self).ranges_compiled@, a2, e2, k2)]
                covers(old(self).console.overwritten@, old(self).ranges_compiled@, a1, e1, k1)
                    && covers(old(self).console.overwritten@, old(self).ranges_compiled@, a2, e2, k2)
                    && old(self).ranges_compiled@[e1]@[k1] == old(self).ranges_compiled@[e2]@[k2]
                    ==> a1 == a2 && e1 == e2 && k1 == k2,
        ensures
            ({
                let stale = stale_starts(old(self).console.overwritten@, old(self).ranges_compiled@);
                &&& final(self).stubs@ == old(self).stubs@.remove_keys(stale)
                &&& final(self).ranges_compiled@ == old(self).ranges_compiled@.remove_keys(
                    stub_ends(old(self).stubs@, stale),
                )
            }),
            final(self).console.overwritten@.is_empty(),
            final(self).console.r3000 == old(self).console.r3000,
            final(self).console.cop0 == old(self).console.cop0,
            final(self).console.gpu == old(self).console.gpu,
            final(self).console.gte == old(self).console.gte,
            final(self).console.cd == old(self).console.cd,
            final(self).console.next_pc == old(self).console.next_pc,
            final(self).console.delayed_writes == old(self).console.delayed_writes,
            final(self).console.modified_register == old(self).console.modified_register,
            final(self).console.i == old(self).console.i,
            final(self).i == old(self).i,
    {
        broadcast use vstd::std_specs::hash::group_hash_axioms;
        let ghost written = self.console.overwritten@;
        let ghost ranges = self.ranges_compiled@;
        let ghost stubs0 = self.stubs@;
        let stale = stale_start_list(&self.console.overwritten, &self.ranges_compiled);
        self.console.overwritten.clear();
        let ghost console_mid = self.console;
        let mut k: usize = 0;
        while k < stale.len()
            invariant
                k <= stale@.len(),
                self.console == console_mid,
                self.i == old(self).i,
                forall|s: u32| stale@.contains(s) ==> stubs0.contains_key(s),
                self.stubs@ == stubs0.remove_keys(stale@.take(k as int).to_set()),
                self.ranges_compiled@ == ranges.remove_keys(stub_ends(stubs0, stale@.take(k as int).to_set())),
            decreases stale@.len() - k,
        {
            let s = stale[k];
            let ghost done = stale@.take(k as int).to_set();
            proof {
                assert(stale@.take(k + 1) =~= stale@.take(k as int).push(s));
                stale@.take(k as int).lemma_push_to_set_commute(s);
                assert(stale@.contains(s));
            }
            match self.stubs.remove(&s) {
                Some(stub) => {
                    let fp = stub.final_pc();
                    self.ranges_compiled.remove(&fp);
                    proof {
                        assert(stub == stubs0[s]);
                        assert(stub_ends(stubs0, done.insert(s)) =~= stub_ends(stubs0, done).insert(fp)) by {
                            assert forall|x: u32| stub_ends(stubs0, done.insert(s)).contains(x) implies stub_ends(
                                stubs0,
                                done,
                            ).insert(fp).contains(x) by {
                                let y = choose|y: u32| #[trigger] done.insert(s).contains(y) && stubs0[y].final_pc_spec() == x;
                                if y != s {
                                    assert(done.contains(y));
                                }
                            }
                            assert forall|x: u32| stub_ends(stubs0, done).insert(fp).contains(x) implies stub_ends(
                                stubs0,
                                done.insert(s),
                            ).contains(x) by {
                                if x == fp {
                                    assert(done.insert(s).contains(s));
                                } else {
                                    let y = choose|y: u32| #[trigger] done.contains(y) && stubs0[y].final_pc_spec() == x;
                                    assert(done.insert(s).contains(y));
                                }
                            }
                        }
                        assert(self.ranges_compiled@ =~= ranges.remove_keys(stub_ends(stubs0, done.insert(s))));
                        assert(self.stubs@ =~= stubs0.remove_keys(done.insert(s)));
                    }
                },
                None => {
                    proof {
                        assert(done.contains(s));
                        assert(done.insert(s) =~= done);
                    }
                },
            }
            k = k + 1;
        }
        proof {
            assert(stale@.take(k as int) =~= stale@);
            assert(stale@.to_set() =~= stale_starts(written, ranges));
        }
    }
}

} // verus!
