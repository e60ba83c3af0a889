//! The dummy JIT: caches each straight-line run of instructions as a stub of
//! operations, optionally with constants folded.
use vstd::prelude::*;
use std::collections::HashMap;
use crate::console::Console;
use crate::console::r3000::R3000;
use crate::jit::caching_interpreter::stub::Stub as Operation;
use crate::jit::{covers, stale_starts, stale_start_list};

pub mod insn_ir;
pub mod optimize;

verus! {

/// A cached run of instructions: the operations to execute, the program counter to
/// continue from, and how many instructions it stands for.
pub struct Stub {
    operations: Vec<Operation>,
    final_pc: u32,
    len: u32,
}

impl Stub {
    pub closed spec fn operations_spec(&self) -> Seq<Operation> {
        self.operations@
    }

    pub closed spec fn final_pc_spec(&self) -> u32 {
        self.final_pc
    }

    pub closed spec fn len_spec(&self) -> u32 {
        self.len
    }

    pub fn new(operations: Vec<Operation>, final_pc: u32, len: u32) -> (r: Self)
        ensures
            r.operations_spec() == operations@,
            r.final_pc_spec() == final_pc,
            r.len_spec() == len,
    {
        Stub { operations, final_pc, len }
    }

    pub fn operations(&self) -> (r: &Vec<Operation>)
        ensures
            r@ == self.operations_spec(),
    {
        &self.operations
    }

    pub fn final_pc(&self) -> (r: u32)
        ensures
            r == self.final_pc_spec(),
    {
        self.final_pc
    }

    pub fn len(&self) -> (r: u32)
        ensures
            r == self.len_spec(),
    {
        self.len
    }
}

/// The console, the stubs by physical start address, and for each physical end
/// address the start addresses of the stubs that end there.
/// The final instruction addresses of the stubs that start at `starts`.
pub open spec fn stub_ends(stubs: Map<u32, Stub>, starts: Set<u32>) -> Set<u32> {
    Set::new(|f: u32| exists|s: u32| #[trigger] starts.contains(s) && stubs[s].final_pc_spec() == f)
}

#[allow(non_camel_case_types)]
pub struct Dummy_JIT {
    pub console: Console,
    pub stubs: HashMap<u32, Stub>,
    pub ranges_compiled: HashMap<u32, Vec<u32>>,
}

impl Dummy_JIT {
    /// A dummy JIT for a console fresh from reset, with nothing cached.
    pub fn new(gpu_logging: bool, cd_contents: Option<Vec<u8>>) -> (r: Self)
        ensures
            r.console.r3000@ == R3000::new_view(),
            r.console.gpu.logging() == gpu_logging,
            r.console.i == 0,
            r.stubs@.is_empty(),
            r.ranges_compiled@.is_empty(),
    {
        Dummy_JIT {
            console: Console::new(gpu_logging, cd_contents),
            stubs: HashMap::new(),
            ranges_compiled: HashMap::new(),
        }
    }

    /// Drops every stub that covers an address written since the last call (it
    /// starts at or below the address and ends at or above it), removes each dropped
    /// stub's final address from the range map, and forgets the overwritten addresses.
    pub fn cache_invalidation(&mut self)
        requires
            forall|s: u32|
                stale_starts(old(self).console.overwritten@, old(self).ranges_compiled@).contains(s)
                    ==> old(self).stubs@.contains_key(s),
            forall|a1: u32, e1: u32, k1: int, a2: u32, e2: u32, k2: int|
                #![trigger covers(old(self).console.overwritten@, old(self).ranges_compiled@, a1, e1, k1), covers(old(self).console.overwritten@, old(self).ranges_compiled@, a2, e2, k2)]
                covers(old(self).console.overwritten@, old(self).ranges_compiled@, a1, e1, k1)
                    && covers(old(self).console.overwritten@, old(self).ranges_compiled@, a2, e2, k2)
                    && old(self).ranges_compiled@[e1]@[k1] == old(self).ranges_compiled@[e2]@[k2]
                    ==> a1 == a2 && e1 == e2 && k1 == k2,
            forall|s: u32|
                stale_starts(old(self).console.overwritten@, old(self).ranges_compiled@).contains(s)
                    ==> old(self).ranges_compiled@.contains_key(#[trigger] old(self).stubs@[s].final_pc_spec()),
            forall|s1: u32, s2: u32|
                stale_starts(old(self).console.overwritten@, old(self).ranges_compiled@).contains(s1)
                    && stale_starts(old(self).console.overwritten@, old(self).ranges_compiled@).contains(s2)
                    && s1 != s2
                    ==> #[trigger] old(self).stubs@[s1].final_pc_spec() != #[trigger] old(self).stubs@[s2].final_pc_spec(),
        ensures
            ({
                let stale = stale_starts(old(self).console.overwritten@, old(self).ranges_compiled@);
                &&& final(self).stubs@ == old(self).stubs@.remove_keys(stale)
                &&& final(self).ranges_compiled@ == old(self).ranges_compiled@.remove_keys(
                    stub_ends(old(self).stubs@, stale),
                )
            }),
            final(self).console.overwritten@.is_empty(),
            final(self).console.r3000 == old(self).console.r3000,
            final(self).console.cop0 == old(self).console.cop0,
            final(self).console.gpu == old(self).console.gpu,
            final(self).console.gte == old(self).console.gte,
            final(self).console.cd == old(self).console.cd,
            final(self).console.next_pc == old(self).console.next_pc,
            final(self).console.delayed_writes == old(self).console.delayed_writes,
            final(self).console.modified_register == old(self).console.modified_register,
            final(self).console.i == old(self).console.i,
    {
        broadcast use vstd::std_specs::hash::group_hash_axioms;
        let ghost written = self.console.overwritten@;
        let ghost ranges = self.ranges_compiled@;
        let ghost stubs0 = self.stubs@;
        let stale = stale_start_list(&self.console.overwritten, &self.ranges_compiled);
        self.console.overwritten.clear();
        let ghost console_mid = self.console;
        let mut k: usize = 0;
        while k < stale.len()
            invariant
                k <= stale@.len(),
                self.console == console_mid,
                stale@.to_set() == stale_starts(written, ranges),
                forall|s: u32| stale@.contains(s) ==> stubs0.contains_key(s),
                self.stubs@ == stubs0.remove_keys(stale@.take(k as int).to_set()),
                self.ranges_compiled@ == ranges.remove_keys(stub_ends(stubs0, stale@.take(k as int).to_set())),
            decreases stale@.len() - k,
        {
            let s = stale[k];
            let ghost done = stale@.take(k as int).to_set();
            proof {
                assert(stale@.take(k + 1) =~= stale@.take(k as int).push(s));
                stale@.take(k as int).lemma_push_to_set_commute(s);
                assert(stale@.contains(s));
            }
            match self.stubs.remove(&s) {
                Some(stub) => {
                    let fp = stub.final_pc();
                    self.ranges_compiled.remove(&fp);
                    proof {
                        assert(stub == stubs0[s]);
                        assert(stub_ends(stubs0, done.insert(s)) =~= stub_ends(stubs0, done).insert(fp)) by {
                            assert forall|x: u32| stub_ends(stubs0, done.insert(s)).contains(x) implies stub_ends(
                                stubs0,
                                done,
                            ).insert(fp).contains(x) by {
                                let y = choose|y: u32| #[trigger] done.insert(s).contains(y) && stubs0[y].final_pc_spec() == x;
                                if y != s {
                                    assert(done.contains(y));
                                }
                            }
                            assert forall|x: u32| stub_ends(stubs0, done).insert(fp).contains(x) implies stub_ends(
                                stubs0,
                                done.insert(s),
                            ).contains(x) by {
                                if x == fp {
                                    assert(done.insert(s).contains(s));
                                } else {
                                    let y = choose|y: u32| #[trigger] done.contains(y) && stubs0[y].final_pc_spec() == x;
                                    assert(done.insert(s).contains(y));
                                }
                            }
                        }
                        assert(self.ranges_compiled@ =~= ranges.remove_keys(stub_ends(stubs0, done.insert(s))));
                        assert(self.stubs@ =~= stubs0.remove_keys(done.insert(s)));
                    }
                },
                None => {
                    proof {
                        assert(done.contains(s));
                        assert(done.insert(s) =~= done);
                    }
                },
            }
            k = k + 1;
        }
        assert(stale@.take(k as int) =~= stale@);
    }
}

} // verus!
