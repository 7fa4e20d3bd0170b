//! The machine: the in-memory state the kernel executes against.  It binds
//! the state tree and blockstore collaborators to plain in-memory fixtures
//! with exact contracts: actor records indexed by actor id, and
//! content-addressed blocks whose identifier is the position at which a
//! block was put, offset by one so that the zero identifier stays "unset".

use vstd::prelude::*;

use crate::types::{Address, Cid, KernelError};

verus! {

/// One actor's record in the state tree.
#[derive(Clone, Copy, PartialEq, Eq, Structural, Debug)]
pub struct Actor {
    /// The actor's address, matched during caller validation and when a
    /// message names its sender or receiver.
    pub address: Address,
    /// Identifier of the actor's compiled code in the code registry.
    pub code: Cid,
    /// Identifier of the actor's state block; zero when unset.
    pub state: Cid,
    /// Balance in the smallest token unit.
    pub balance: u128,
    /// The sequence number the next message from this actor must carry.
    pub sequence: u64,
}

/// One host interaction of compiled actor code.  The sandbox interpreter is
/// a black box that calls back into the kernel and burns fuel as it runs;
/// what the host observes of compiled code is the sequence of syscalls it
/// makes, so the registry holds code in exactly that form.
#[derive(Clone, Copy, PartialEq, Eq, Structural, Debug)]
pub enum Instr {
    /// Validate the caller, accepting any immediate caller.
    ValidateAcceptAny,
    /// Validate the caller against the CBOR-encoded address list held at
    /// this region of sandbox memory.
    ValidateCallerAddrs { offset: u32, len: u32 },
    /// Validate the caller's code identifier against the CBOR-encoded list
    /// held at this region of sandbox memory.
    ValidateCallerTypes { offset: u32, len: u32 },
    /// Store this region of sandbox memory as the actor's new state block.
    StatePut { offset: u32, len: u32 },
    /// Send `value` to actor `to`, invoking its method `method`.
    Send { to: u64, method: u64, value: u128 },
    /// Finish successfully, returning this region of sandbox memory.
    Return { offset: u32, len: u32 },
}

/// The machine state one message application executes against.
#[derive(Debug)]
pub struct Machine {
    /// The state tree: actor records indexed by actor id.
    pub actors: Vec<Actor>,
    /// The blockstore: block `i` has identifier `i + 1`.
    pub blocks: Vec<Vec<u8>>,
    /// The code registry: the script of code identifier `c` is `scripts[c - 1]`.
    pub scripts: Vec<Vec<Instr>>,
}

impl Machine {
    /// The actor record under an id, if the id is in the tree.
    pub open spec fn actor_of(self, id: u64) -> Option<Actor> {
        if id < self.actors@.len() {
            Some(self.actors@[id as int])
        } else {
            None
        }
    }

    /// The block under an identifier, if one was put there.
    pub open spec fn block_of(self, c: Cid) -> Option<Seq<u8>> {
        if 1 <= c.value && c.value <= self.blocks@.len() {
            Some(self.blocks@[c.value - 1]@)
        } else {
            None
        }
    }

    /// The script under a code identifier, if the registry holds it.
    pub open spec fn script_of(self, c: Cid) -> Option<Seq<Instr>> {
        if 1 <= c.value && c.value <= self.scripts@.len() {
            Some(self.scripts@[c.value - 1]@)
        } else {
            None
        }
    }

    /// An empty machine.
    pub fn new() -> (r: Machine)
        ensures
            r.actors@.len() == 0,
            r.blocks@.len() == 0,
            r.scripts@.len() == 0,
    {
        Machine { actors: Vec::new(), blocks: Vec::new(), scripts: Vec::new() }
    }

    /// Look up an actor record by id.
    pub fn get_actor(&self, id: u64) -> (r: Option<Actor>)
        ensures
            r == self.actor_of(id),
    {
        if id < self.actors.len() as u64 {
            Some(self.actors[id as usize])
        } else {
            None
        }
    }

    /// Replace the record of an existing actor.
    pub fn set_actor(&mut self, id: u64, a: Actor)
        requires
            old(self).actor_of(id) is Some,
        ensures
            final(self).actors@ == old(self).actors@.update(id as int, a),
            final(self).blocks@ == old(self).blocks@,
            final(self).scripts@ == old(self).scripts@,
    {
        let n: usize = self.actors.len();
        proof {
            assert(id < n);
        }
        let idx: usize = id as usize;
        self.actors.set(idx, a);
    }

    /// Store a block.  The fresh identifier resolves to exactly these
    /// bytes, is never zero, and never reuses an earlier identifier; a
    /// store that has exhausted the identifier space reports a fatal
    /// error and stays unchanged.
    pub fn put_block(&mut self, data: Vec<u8>) -> (r: Result<Cid, KernelError>)
        ensures
            r is Ok <==> old(self).blocks@.len() < u64::MAX,
            r matches Ok(c) ==> {
                &&& c.value == old(self).blocks@.len() + 1
                &&& final(self).blocks@ == old(self).blocks@.push(data)
                &&& final(self).block_of(c) == Some(data@)
            },
            r is Err ==> r == Err::<Cid, KernelError>(KernelError::Fatal) && *final(self) == *old(
                self,
            ),
            final(self).actors@ == old(self).actors@,
            final(self).scripts@ == old(self).scripts@,
            forall|c: Cid|
                c.value <= old(self).blocks@.len() ==> final(self).block_of(c) == old(
                    self,
                ).block_of(c),
    {
        let n = self.blocks.len();
        if (n as u64) < u64::MAX {
            self.blocks.push(data);
            Ok(Cid { value: (n as u64) + 1 })
        } else {
            Err(KernelError::Fatal)
        }
    }

    /// Read a block back out of the store.
    pub fn get_block(&self, c: Cid) -> (r: Option<Vec<u8>>)
        ensures
            r is Some <==> self.block_of(c) is Some,
            r matches Some(b) ==> self.block_of(c) == Some(b@),
    {
        if 1 <= c.value && c.value <= self.blocks.len() as u64 {
            let idx: usize = (c.value - 1) as usize;
            let mut out: Vec<u8> = Vec::new();
            let mut i: usize = 0;
            while i < self.blocks[idx].len()
                invariant
                    idx < self.blocks@.len(),
                    i <= self.blocks@[idx as int]@.len(),
                    out@ == self.blocks@[idx as int]@.take(i as int),
                decreases self.blocks@[idx as int]@.len() - i,
            {
                out.push(self.blocks[idx][i]);
                proof {
                    assert(out@ =~= self.blocks@[idx as int]@.take(i + 1));
                }
                i = i + 1;
            }
            proof {
                assert(out@ =~= self.blocks@[idx as int]@);
            }
            Some(out)
        } else {
            None
        }
    }

    /// Register a script; its code identifier resolves to exactly this
    /// script.
    pub fn register_script(&mut self, script: Vec<Instr>) -> (r: Result<Cid, KernelError>)
        ensures
            r is Ok <==> old(self).scripts@.len() < u64::MAX,
            r matches Ok(c) ==> {
                &&& c.value == old(self).scripts@.len() + 1
                &&& final(self).scripts@ == old(self).scripts@.push(script)
                &&& final(self).script_of(c) == Some(script@)
            },
            r is Err ==> r == Err::<Cid, KernelError>(KernelError::Fatal) && *final(self) == *old(
                self,
            ),
            final(self).actors@ == old(self).actors@,
            final(self).blocks@ == old(self).blocks@,
    {
        let n = self.scripts.len();
        if (n as u64) < u64::MAX {
            self.scripts.push(script);
            Ok(Cid { value: (n as u64) + 1 })
        } else {
            Err(KernelError::Fatal)
        }
    }

    /// Read a script back out of the registry.
    pub fn get_script(&self, c: Cid) -> (r: Option<Vec<Instr>>)
        ensures
            r is Some <==> self.script_of(c) is Some,
            r matches Some(s) ==> self.script_of(c) == Some(s@),
    {
        if 1 <= c.value && c.value <= self.scripts.len() as u64 {
            let idx: usize = (c.value - 1) as usize;
            let mut out: Vec<Instr> = Vec::new();
            let mut i: usize = 0;
            while i < self.scripts[idx].len()
                invariant
                    idx < self.scripts@.len(),
                    i <= self.scripts@[idx as int]@.len(),
                    out@ == self.scripts@[idx as int]@.take(i as int),
                decreases self.scripts@[idx as int]@.len() - i,
            {
                out.push(self.scripts[idx][i]);
                proof {
                    assert(out@ =~= self.scripts@[idx as int]@.take(i + 1));
                }
                i = i + 1;
            }
            proof {
                assert(out@ =~= self.scripts@[idx as int]@);
            }
            Some(out)
        } else {
            None
        }
    }

    /// Append an actor to the tree; its id is the index it lands on.
    pub fn add_actor(&mut self, a: Actor) -> (r: u64)
        requires
            old(self).actors@.len() < u64::MAX,
        ensures
            r == old(self).actors@.len(),
            final(self).actors@ == old(self).actors@.push(a),
            final(self).blocks@ == old(self).blocks@,
            final(self).scripts@ == old(self).scripts@,
    {
        let n = self.actors.len();
        self.actors.push(a);
        n as u64
    }

    /// The id of the first actor holding an address, if any holds it.
    pub open spec fn spec_find_by_address(self, a: Address) -> Option<u64> {
        spec_find_addr(self.actors@, a, 0)
    }

    /// Resolve an address to the id of the first actor that holds it.
    pub fn find_by_address(&self, a: Address) -> (r: Option<u64>)
        ensures
            r == self.spec_find_by_address(a),
            r matches Some(i) ==> i < self.actors@.len() && self.actors@[i as int].address == a,
    {
        let mut i: usize = 0;
        while i < self.actors.len()
            invariant
                i <= self.actors@.len(),
                spec_find_addr(self.actors@, a, 0) == spec_find_addr(self.actors@, a, i as int),
            decreases self.actors@.len() - i,
        {
            if self.actors[i].address == a {
                return Some(i as u64);
            }
            i = i + 1;
        }
        None
    }
}

/// The first index at or after `k` whose actor holds address `a`.
pub open spec fn spec_find_addr(s: Seq<Actor>, a: Address, k: int) -> Option<u64>
    decreases s.len() - k when 0 <= k <= s.len()
{
    if k >= s.len() {
        None
    } else if s[k].address == a {
        Some(k as u64)
    } else {
        spec_find_addr(s, a, k + 1)
    }
}

/// Copy a vector of plain values, element for element.
pub fn copy_vec<T: Copy>(v: &Vec<T>) -> (r: Vec<T>)
    ensures
        r@ == v@,
{
    let mut out: Vec<T> = Vec::new();
    let mut i: usize = 0;
    while i < v.len()
        invariant
            i <= v@.len(),
            out@ == v@.take(i as int),
        decreases v@.len() - i,
    {
        out.push(v[i]);
        proof {
            assert(out@ =~= v@.take(i + 1));
        }
        i = i + 1;
    }
    proof {
        assert(out@ =~= v@);
    }
    out
}

/// Drop blocks back to a store length recorded earlier, undoing the puts
/// made since.
pub fn rollback_blocks(blocks: &mut Vec<Vec<u8>>, n: usize)
    requires
        n <= old(blocks)@.len(),
    ensures
        final(blocks)@ == old(blocks)@.take(n as int),
{
    proof {
        assert(blocks@ =~~= old(blocks)@.take(blocks@.len() as int));
    }
    while blocks.len() > n
        invariant
            n <= blocks@.len(),
            blocks@.len() <= old(blocks)@.len(),
            blocks@ == old(blocks)@.take(blocks@.len() as int),
        decreases blocks@.len(),
    {
        let ghost prev = blocks@;
        blocks.pop();
        proof {
            assert(blocks@ == prev.drop_last());
            assert(blocks@ =~~= old(blocks)@.take(blocks@.len() as int));
        }
    }
}

} // verus!
