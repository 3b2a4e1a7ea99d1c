//! Execution contexts: the isolated per-invocation sandbox state.
//!
//! Each invocation owns a fresh context: a zeroed linear memory of the
//! requested size and an empty resource table. Contexts are never shared
//! between invocations and never reused afterwards.

use vstd::prelude::*;

verus! {

/// The most linear memory the host will grant one invocation.
pub const MEMORY_CEILING: usize = 1048576;

/// The resource budget of one invocation: the linear memory it may
/// address and the fuel it may burn. Fuel is a bounded step budget,
/// consumed one unit per executed instruction, standing in for wall-clock
/// preemption inside the sandbox.
#[derive(Clone, Copy, Debug)]
pub struct Limits {
    pub max_memory: usize,
    pub fuel: u64,
}

/// Why an execution context could not be built.
#[derive(Clone, Copy, Debug, PartialEq, Eq, Structural)]
pub enum InstantiationError {
    /// The host cannot allocate the requested limits.
    ResourceExhausted,
}

/// The isolated state of one invocation: its own linear memory and its
/// own table of granted resource handles. A handle is an index into the
/// table; entries are invalidated with the context itself.
pub struct ExecutionContext {
    pub memory: Vec<u8>,
    pub resources: Vec<u64>,
}

/// Mathematical model of an execution context.
pub struct ContextModel {
    pub memory: Seq<u8>,
    pub resources: Seq<u64>,
}

impl View for ExecutionContext {
    type V = ContextModel;

    open spec fn view(&self) -> ContextModel {
        ContextModel { memory: self.memory@, resources: self.resources@ }
    }
}

/// The zeroed memory of a fresh context of size `n`.
pub open spec fn zeroed_memory(n: nat) -> Seq<u8> {
    Seq::new(n, |i: int| 0u8)
}

/// Build a fresh, isolated execution context for one invocation.
///
/// A fresh context has an empty resource table and all-zero memory: no
/// content of any earlier invocation is reachable from it. The request is
/// refused, and nothing allocated, when it exceeds what the host grants.
pub fn new_context(limits: &Limits) -> (r: Result<ExecutionContext, InstantiationError>)
    ensures
        limits.max_memory <= MEMORY_CEILING <==> r is Ok,
        r matches Ok(c) ==> c@.memory == zeroed_memory(limits.max_memory as nat) && c@.resources
            == Seq::<u64>::empty(),
        r matches Err(e) ==> e == InstantiationError::ResourceExhausted,
{
    if limits.max_memory > MEMORY_CEILING {
        return Err(InstantiationError::ResourceExhausted);
    }
    let mut memory: Vec<u8> = Vec::new();
    let mut i: usize = 0;
    while i < limits.max_memory
        invariant
            i <= limits.max_memory,
            memory@ =~= zeroed_memory(i as nat),
        decreases limits.max_memory - i,
    {
        memory.push(0u8);
        assert(memory@ =~= zeroed_memory((i + 1) as nat));
        i = i + 1;
    }
    assert(memory@ =~= zeroed_memory(limits.max_memory as nat));
    Ok(ExecutionContext { memory, resources: Vec::new() })
}

} // verus!
