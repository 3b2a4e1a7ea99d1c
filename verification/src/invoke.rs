//! The invoker: instantiates a validated module in a fresh execution
//! context, runs one exported function under the invocation's limits, and
//! converts every fault into a typed outcome.
//!
//! The sandbox machine is a value stack over the context's isolated
//! memory. Its meaning is the small-step function [`spec_step`]; a whole
//! invocation is [`spec_run`], and [`invoke`] returns exactly that. Every
//! instruction costs one unit of fuel, so a cancelled or runaway plugin is
//! observed within one budget check. No plugin behaviour can make the
//! invoker panic: the worst a plugin gets is a `Faulted` outcome.

use vstd::prelude::*;

use crate::caps::CapabilityProvider;
use crate::caps::ProviderModel;
use crate::caps::apply_capability;
use crate::caps::host_world;
use crate::caps::spec_apply_capability;
use crate::context::ExecutionContext;
use crate::context::Limits;
use crate::context::MEMORY_CEILING;
use crate::context::new_context;
use crate::context::zeroed_memory;
use crate::iface::DeclModel;
use crate::iface::FuncDecl;
use crate::iface::ValType;
use crate::iface::Value;
use crate::iface::ValueModel;
use crate::iface::args_match;
use crate::iface::bytes_eq;
use crate::iface::type_of;
use crate::module::InstrModel;
use crate::module::ModuleModel;
use crate::module::PluginModule;
use crate::module::decls_view;
use crate::module::instrs_view;
use crate::module::module_binds;
use crate::module::module_wf;

verus! {

/// The sandbox violation that aborted one invocation.
#[derive(Clone, Copy, Debug, PartialEq, Eq, Structural)]
pub enum TrapKind {
    /// A memory access outside the context's allotted region.
    OutOfBoundsMemory,
    /// A value of the wrong type where another was declared.
    TypeMismatch,
    /// An instruction needing more operands than the stack holds.
    StackUnderflow,
    /// A jump to a position outside the code.
    BadJumpTarget,
    /// Execution ran past the end of the code without returning.
    BadInstructionPointer,
    /// A parameter index beyond the supplied arguments.
    NoSuchParam,
    /// The requested export is not declared by the module.
    NoSuchExport,
    /// The supplied arguments do not fit the export's declared parameters.
    ArgumentMismatch,
    /// A return with an empty stack where a value was declared.
    MissingResult,
}

/// An unrecoverable per-invocation failure. The host process survives it.
#[derive(Clone, Copy, Debug, PartialEq, Eq, Structural)]
pub enum Fault {
    /// A sandbox-detected illegal operation.
    Trap(TrapKind),
    /// A call of an import position the module never declared.
    IllegalImport,
    /// A plugin-signalled abort.
    ExplicitAbort,
}

/// The terminal result of one invocation.
pub enum Outcome {
    /// The export returned; a void export completes with `None`.
    Completed(Option<Value>),
    /// The invocation was aborted by a sandbox violation.
    Faulted(Fault),
    /// The fuel budget ran out before the export returned.
    TimedOut,
    /// The execution context could not be allocated.
    ResourceExhausted,
}

/// Mathematical model of an invocation outcome.
pub enum OutcomeModel {
    Completed(Option<ValueModel>),
    Faulted(Fault),
    TimedOut,
    ResourceExhausted,
}

impl View for Outcome {
    type V = OutcomeModel;

    open spec fn view(&self) -> OutcomeModel {
        match self {
            Outcome::Completed(Some(v)) => OutcomeModel::Completed(Some(v@)),
            Outcome::Completed(None) => OutcomeModel::Completed(None),
            Outcome::Faulted(f) => OutcomeModel::Faulted(*f),
            Outcome::TimedOut => OutcomeModel::TimedOut,
            Outcome::ResourceExhausted => OutcomeModel::ResourceExhausted,
        }
    }
}

impl Clone for Outcome {
    fn clone(&self) -> (r: Outcome)
        ensures
            r@ == self@,
    {
        match self {
            Outcome::Completed(Some(v)) => Outcome::Completed(Some(v.clone())),
            Outcome::Completed(None) => Outcome::Completed(None),
            Outcome::Faulted(f) => Outcome::Faulted(*f),
            Outcome::TimedOut => Outcome::TimedOut,
            Outcome::ResourceExhausted => Outcome::ResourceExhausted,
        }
    }
}

/// The model of a sequence of runtime values.
pub open spec fn vals_view(s: Seq<Value>) -> Seq<ValueModel> {
    s.map_values(|v: Value| v@)
}

/// The fixed surroundings of one running invocation: the export's code,
/// the module's declared imports with their resolved binding, the call's
/// arguments, and the export's declared return type.
pub struct RunEnv {
    pub code: Seq<InstrModel>,
    pub imports: Seq<DeclModel>,
    pub binding: Seq<int>,
    pub params: Seq<ValueModel>,
    pub ret: Option<ValType>,
}

/// The changing state of the sandbox machine: instruction position, value
/// stack, the context's memory and resource table, and the fuel left.
pub struct MachineModel {
    pub pc: int,
    pub stack: Seq<ValueModel>,
    pub memory: Seq<u8>,
    pub resources: Seq<u64>,
    pub fuel: u64,
}

/// What one machine step yields: a next state or a terminal outcome.
pub enum StepModel {
    Next(MachineModel, ProviderModel),
    Done(OutcomeModel, ProviderModel),
}

/// The low byte of a machine integer, as stored by `StoreByte`.
pub open spec fn low_byte_of(x: i64) -> u8 {
    (x & 0xFF) as u8
}

/// One step of the sandbox machine.
///
/// Fuel is checked before anything else, so exhaustion is observed within
/// one step. Every violation — an out-of-range instruction position, a
/// missing or ill-typed operand, an out-of-bounds memory access, a call
/// of an undeclared import position — ends the invocation with a typed
/// fault instead of touching anything outside the context.
pub open spec fn spec_step(env: RunEnv, st: MachineModel, p: ProviderModel) -> StepModel {
    if st.fuel == 0 {
        StepModel::Done(OutcomeModel::TimedOut, p)
    } else if !(0 <= st.pc < env.code.len()) {
        StepModel::Done(OutcomeModel::Faulted(Fault::Trap(TrapKind::BadInstructionPointer)), p)
    } else {
        let fuel2 = (st.fuel - 1) as u64;
        match env.code[st.pc] {
            InstrModel::PushI32(x) => StepModel::Next(
                MachineModel {
                    pc: st.pc + 1,
                    stack: st.stack.push(ValueModel::I32(x)),
                    fuel: fuel2,
                    ..st
                },
                p,
            ),
            InstrModel::PushI64(x) => StepModel::Next(
                MachineModel {
                    pc: st.pc + 1,
                    stack: st.stack.push(ValueModel::I64(x)),
                    fuel: fuel2,
                    ..st
                },
                p,
            ),
            InstrModel::PushBool(x) => StepModel::Next(
                MachineModel {
                    pc: st.pc + 1,
                    stack: st.stack.push(ValueModel::Bool(x)),
                    fuel: fuel2,
                    ..st
                },
                p,
            ),
            InstrModel::PushStr(s) => StepModel::Next(
                MachineModel {
                    pc: st.pc + 1,
                    stack: st.stack.push(ValueModel::Str(s)),
                    fuel: fuel2,
                    ..st
                },
                p,
            ),
            InstrModel::PushBytes(s) => StepModel::Next(
                MachineModel {
                    pc: st.pc + 1,
                    stack: st.stack.push(ValueModel::Bytes(s)),
                    fuel: fuel2,
                    ..st
                },
                p,
            ),
            InstrModel::PushParam(i) => {
                if (i as int) < env.params.len() {
                    StepModel::Next(
                        MachineModel {
                            pc: st.pc + 1,
                            stack: st.stack.push(env.params[i as int]),
                            fuel: fuel2,
                            ..st
                        },
                        p,
                    )
                } else {
                    StepModel::Done(OutcomeModel::Faulted(Fault::Trap(TrapKind::NoSuchParam)), p)
                }
            },
            InstrModel::Return => {
                match env.ret {
                    None => StepModel::Done(OutcomeModel::Completed(None), p),
                    Some(t) => {
                        if st.stack.len() == 0 {
                            StepModel::Done(
                                OutcomeModel::Faulted(Fault::Trap(TrapKind::MissingResult)),
                                p,
                            )
                        } else if type_of(st.stack.last()) != t {
                            StepModel::Done(
                                OutcomeModel::Faulted(Fault::Trap(TrapKind::TypeMismatch)),
                                p,
                            )
                        } else {
                            StepModel::Done(OutcomeModel::Completed(Some(st.stack.last())), p)
                        }
                    },
                }
            },
            InstrModel::Abort => StepModel::Done(
                OutcomeModel::Faulted(Fault::ExplicitAbort),
                p,
            ),
            InstrModel::StoreByte => {
                if st.stack.len() < 2 {
                    StepModel::Done(OutcomeModel::Faulted(Fault::Trap(TrapKind::StackUnderflow)), p)
                } else {
                    match (st.stack[st.stack.len() - 2], st.stack.last()) {
                        (ValueModel::I64(addr), ValueModel::I64(v)) => {
                            if 0 <= addr < st.memory.len() {
                                StepModel::Next(
                                    MachineModel {
                                        pc: st.pc + 1,
                                        stack: st.stack.subrange(0, st.stack.len() - 2),
                                        memory: st.memory.update(addr as int, low_byte_of(v)),
                                        fuel: fuel2,
                                        ..st
                                    },
                                    p,
                                )
                            } else {
                                StepModel::Done(
                                    OutcomeModel::Faulted(Fault::Trap(TrapKind::OutOfBoundsMemory)),
                                    p,
                                )
                            }
                        },
                        _ => StepModel::Done(
                            OutcomeModel::Faulted(Fault::Trap(TrapKind::TypeMismatch)),
                            p,
                        ),
                    }
                }
            },
            InstrModel::LoadByte => {
                if st.stack.len() < 1 {
                    StepModel::Done(OutcomeModel::Faulted(Fault::Trap(TrapKind::StackUnderflow)), p)
                } else {
                    match st.stack.last() {
                        ValueModel::I64(addr) => {
                            if 0 <= addr < st.memory.len() {
                                StepModel::Next(
                                    MachineModel {
                                        pc: st.pc + 1,
                                        stack: st.stack.drop_last().push(
                                            ValueModel::I64(st.memory[addr as int] as i64),
                                        ),
                                        fuel: fuel2,
                                        ..st
                                    },
                                    p,
                                )
                            } else {
                                StepModel::Done(
                                    OutcomeModel::Faulted(Fault::Trap(TrapKind::OutOfBoundsMemory)),
                                    p,
                                )
                            }
                        },
                        _ => StepModel::Done(
                            OutcomeModel::Faulted(Fault::Trap(TrapKind::TypeMismatch)),
                            p,
                        ),
                    }
                }
            },
            InstrModel::CallImport(i) => {
                if !((i as int) < env.imports.len()) {
                    StepModel::Done(OutcomeModel::Faulted(Fault::IllegalImport), p)
                } else {
                    let d = env.imports[i as int];
                    let np = d.params.len() as int;
                    if st.stack.len() < np {
                        StepModel::Done(
                            OutcomeModel::Faulted(Fault::Trap(TrapKind::StackUnderflow)),
                            p,
                        )
                    } else {
                        let args = st.stack.subrange(
                            st.stack.len() - np,
                            st.stack.len() as int,
                        );
                        if !args_match(args, d.params) {
                            StepModel::Done(
                                OutcomeModel::Faulted(Fault::Trap(TrapKind::TypeMismatch)),
                                p,
                            )
                        } else {
                            let c = spec_apply_capability(
                                p,
                                st.resources,
                                env.binding[i as int],
                                args,
                            );
                            let stack2 = st.stack.subrange(0, st.stack.len() - np);
                            let stack3 = match c.2 {
                                Some(v) => stack2.push(v),
                                None => stack2,
                            };
                            StepModel::Next(
                                MachineModel {
                                    pc: st.pc + 1,
                                    stack: stack3,
                                    resources: c.1,
                                    fuel: fuel2,
                                    ..st
                                },
                                c.0,
                            )
                        }
                    }
                }
            },
            InstrModel::Jump(t) => {
                if (t as int) < env.code.len() {
                    StepModel::Next(MachineModel { pc: t as int, fuel: fuel2, ..st }, p)
                } else {
                    StepModel::Done(
                        OutcomeModel::Faulted(Fault::Trap(TrapKind::BadJumpTarget)),
                        p,
                    )
                }
            },
        }
    }
}

/// A step never gains fuel: every continuing step burns one unit.
pub proof fn lemma_step_fuel(env: RunEnv, st: MachineModel, p: ProviderModel)
    ensures
        spec_step(env, st, p) matches StepModel::Next(st2, p2) ==> st2.fuel < st.fuel,
{
}

/// A whole run of the sandbox machine: step until a terminal outcome.
pub open spec fn spec_run(env: RunEnv, st: MachineModel, p: ProviderModel) -> (OutcomeModel,
    ProviderModel)
    decreases st.fuel,
    via spec_run_decreases
{
    match spec_step(env, st, p) {
        StepModel::Done(o, p2) => (o, p2),
        StepModel::Next(st2, p2) => spec_run(env, st2, p2),
    }
}

#[via_fn]
proof fn spec_run_decreases(env: RunEnv, st: MachineModel, p: ProviderModel) {
    lemma_step_fuel(env, st, p);
}

proof fn lemma_vals_view_push(s: Seq<Value>, v: Value)
    ensures
        vals_view(s.push(v)) == vals_view(s).push(v@),
{
    assert(vals_view(s.push(v)) =~= vals_view(s).push(v@));
}

/// Whether the argument values fit the parameter list, position by
/// position.
pub fn args_check(args: &Vec<Value>, params: &Vec<ValType>) -> (r: bool)
    ensures
        r == args_match(vals_view(args@), params@),
{
    if args.len() != params.len() {
        return false;
    }
    let mut q: usize = 0;
    let mut ok: bool = true;
    while q < args.len()
        invariant
            q <= args@.len(),
            args@.len() == params@.len(),
            ok <==> (forall|w: int|
                0 <= w < q ==> type_of(#[trigger] vals_view(args@)[w]) == params@[w]),
        decreases args@.len() - q,
    {
        let tq = args[q].value_type();
        proof {
            assert(vals_view(args@)[q as int] == args@[q as int]@);
        }
        if tq != params[q] {
            ok = false;
        }
        q = q + 1;
    }
    ok
}

/// Build a fresh context under the limits and run one export body in it
/// to its outcome.
fn run_export(
    code: &Vec<crate::module::Instr>,
    imports: &Vec<FuncDecl>,
    binding: &Vec<usize>,
    params: &Vec<Value>,
    ret: Option<ValType>,
    limits: &Limits,
    prov: &mut CapabilityProvider,
) -> (r: Outcome)
    requires
        binding@.len() == imports@.len(),
        forall|i: int|
            0 <= i < binding@.len() ==> (#[trigger] binding@[i] as int) < host_world().len(),
    ensures
        limits.max_memory > MEMORY_CEILING ==> r@ == OutcomeModel::ResourceExhausted
            && final(prov)@ == old(prov)@,
        limits.max_memory <= MEMORY_CEILING ==> ({
            let env = RunEnv {
                code: instrs_view(*code),
                imports: decls_view(*imports),
                binding: binding@.map_values(|x: usize| x as int),
                params: vals_view(params@),
                ret: ret,
            };
            let st0 = MachineModel {
                pc: 0,
                stack: Seq::empty(),
                memory: zeroed_memory(limits.max_memory as nat),
                resources: Seq::empty(),
                fuel: limits.fuel,
            };
            (r@, final(prov)@) == spec_run(env, st0, old(prov)@)
        }),
{
    let ghost env = RunEnv {
        code: instrs_view(*code),
        imports: decls_view(*imports),
        binding: binding@.map_values(|x: usize| x as int),
        params: vals_view(params@),
        ret: ret,
    };
    let ctx = match new_context(limits) {
        Err(_) => {
            return Outcome::ResourceExhausted;
        },
        Ok(c) => c,
    };
    let ExecutionContext { memory: mut mem, resources: mut res } = ctx;
    let mut stack: Vec<Value> = Vec::new();
    let mut pc: usize = 0;
    let mut fuel_left: u64 = limits.fuel;
    let ghost st0 = MachineModel {
        pc: 0,
        stack: Seq::empty(),
        memory: zeroed_memory(limits.max_memory as nat),
        resources: Seq::empty(),
        fuel: limits.fuel,
    };
    let ghost p0 = prov@;
    proof {
        assert(vals_view(stack@) =~= Seq::<ValueModel>::empty());
        assert(mem@ == st0.memory);
        assert(res@ == st0.resources);
    }
    loop
        invariant
            env == (RunEnv {
                code: instrs_view(*code),
                imports: decls_view(*imports),
                binding: binding@.map_values(|x: usize| x as int),
                params: vals_view(params@),
                ret: ret,
            }),
            st0 == (MachineModel {
                pc: 0,
                stack: Seq::<ValueModel>::empty(),
                memory: zeroed_memory(limits.max_memory as nat),
                resources: Seq::<u64>::empty(),
                fuel: limits.fuel,
            }),
            p0 == old(prov)@,
            limits.max_memory <= MEMORY_CEILING,
            binding@.len() == imports@.len(),
            forall|i: int|
                0 <= i < binding@.len() ==> (#[trigger] binding@[i] as int) < host_world().len(),
            spec_run(env, st0, p0) == spec_run(
                env,
                (MachineModel {
                    pc: pc as int,
                    stack: vals_view(stack@),
                    memory: mem@,
                    resources: res@,
                    fuel: fuel_left,
                }),
                prov@,
            ),
        decreases fuel_left,
    {
        let ghost cur = MachineModel {
            pc: pc as int,
            stack: vals_view(stack@),
            memory: mem@,
            resources: res@,
            fuel: fuel_left,
        };
        if fuel_left == 0 {
            return Outcome::TimedOut;
        }
        if pc >= code.len() {
            return Outcome::Faulted(Fault::Trap(TrapKind::BadInstructionPointer));
        }
        let fuel2: u64 = fuel_left - 1;
        proof {
            assert(env.code[pc as int] == code@[pc as int]@);
        }
        match &code[pc] {
            crate::module::Instr::PushI32(x) => {
                proof {
                    lemma_vals_view_push(stack@, Value::I32(*x));
                }
                stack.push(Value::I32(*x));
                pc = pc + 1;
                fuel_left = fuel2;
            },
            crate::module::Instr::PushI64(x) => {
                proof {
                    lemma_vals_view_push(stack@, Value::I64(*x));
                }
                stack.push(Value::I64(*x));
                pc = pc + 1;
                fuel_left = fuel2;
            },
            crate::module::Instr::PushBool(x) => {
                proof {
                    lemma_vals_view_push(stack@, Value::Bool(*x));
                }
                stack.push(Value::Bool(*x));
                pc = pc + 1;
                fuel_left = fuel2;
            },
            crate::module::Instr::PushStr(s) => {
                let owned = crate::iface::clone_bytes(s);
                proof {
                    lemma_vals_view_push(stack@, Value::Str(owned));
                }
                stack.push(Value::Str(owned));
                pc = pc + 1;
                fuel_left = fuel2;
            },
            crate::module::Instr::PushBytes(s) => {
                let owned = crate::iface::clone_bytes(s);
                proof {
                    lemma_vals_view_push(stack@, Value::Bytes(owned));
                }
                stack.push(Value::Bytes(owned));
                pc = pc + 1;
                fuel_left = fuel2;
            },
            crate::module::Instr::PushParam(i) => {
                let idx: usize = *i as usize;
                if idx >= params.len() {
                    return Outcome::Faulted(Fault::Trap(TrapKind::NoSuchParam));
                }
                let v = params[idx].clone();
                proof {
                    lemma_vals_view_push(stack@, v);
                    assert(v@ == env.params[idx as int]);
                }
                stack.push(v);
                pc = pc + 1;
                fuel_left = fuel2;
            },
            crate::module::Instr::Return => {
                match ret {
                    None => {
                        return Outcome::Completed(None);
                    },
                    Some(t) => {
                        if stack.len() == 0 {
                            return Outcome::Faulted(Fault::Trap(TrapKind::MissingResult));
                        }
                        let top = &stack[stack.len() - 1];
                        proof {
                            assert(top@ == cur.stack.last());
                        }
                        if top.value_type() != t {
                            return Outcome::Faulted(Fault::Trap(TrapKind::TypeMismatch));
                        }
                        return Outcome::Completed(Some(top.clone()));
                    },
                }
            },
            crate::module::Instr::Abort => {
                return Outcome::Faulted(Fault::ExplicitAbort);
            },
            crate::module::Instr::StoreByte => {
                if stack.len() < 2 {
                    return Outcome::Faulted(Fault::Trap(TrapKind::StackUnderflow));
                }
                let v_opt = stack.pop();
                let a_opt = stack.pop();
                let v = match v_opt {
                    Some(x) => x,
                    None => {
                        return Outcome::Faulted(Fault::Trap(TrapKind::StackUnderflow));
                    },
                };
                let a = match a_opt {
                    Some(x) => x,
                    None => {
                        return Outcome::Faulted(Fault::Trap(TrapKind::StackUnderflow));
                    },
                };
                proof {
                    assert(a@ == cur.stack[cur.stack.len() - 2]);
                    assert(v@ == cur.stack.last());
                }
                match (a, v) {
                    (Value::I64(ai), Value::I64(vi)) => {
                        if ai >= 0 && (ai as u64) < (mem.len() as u64) {
                            let m: i64 = vi & 0xFF;
                            proof {
                                assert(vi & 0xFF >= 0 && vi & 0xFF < 256) by (bit_vector);
                            }
                            let idx: usize = ai as usize;
                            mem[idx] = m as u8;
                            proof {
                                assert(m as u8 == low_byte_of(vi));
                                assert(vals_view(stack@) =~= cur.stack.subrange(
                                    0,
                                    cur.stack.len() - 2,
                                ));
                            }
                            pc = pc + 1;
                            fuel_left = fuel2;
                        } else {
                            return Outcome::Faulted(Fault::Trap(TrapKind::OutOfBoundsMemory));
                        }
                    },
                    _ => {
                        return Outcome::Faulted(Fault::Trap(TrapKind::TypeMismatch));
                    },
                }
            },
            crate::module::Instr::LoadByte => {
                if stack.len() < 1 {
                    return Outcome::Faulted(Fault::Trap(TrapKind::StackUnderflow));
                }
                let a_opt = stack.pop();
                let a = match a_opt {
                    Some(x) => x,
                    None => {
                        return Outcome::Faulted(Fault::Trap(TrapKind::StackUnderflow));
                    },
                };
                proof {
                    assert(a@ == cur.stack.last());
                }
                match a {
                    Value::I64(ai) => {
                        if ai >= 0 && (ai as u64) < (mem.len() as u64) {
                            let idx: usize = ai as usize;
                            let byte: u8 = mem[idx];
                            let loaded = Value::I64(byte as i64);
                            proof {
                                assert(vals_view(stack@) =~= cur.stack.drop_last());
                                lemma_vals_view_push(stack@, loaded);
                            }
                            stack.push(loaded);
                            pc = pc + 1;
                            fuel_left = fuel2;
                        } else {
                            return Outcome::Faulted(Fault::Trap(TrapKind::OutOfBoundsMemory));
                        }
                    },
                    _ => {
                        return Outcome::Faulted(Fault::Trap(TrapKind::TypeMismatch));
                    },
                }
            },
            crate::module::Instr::CallImport(i) => {
                let idx: usize = *i as usize;
                if idx >= imports.len() {
                    return Outcome::Faulted(Fault::IllegalImport);
                }
                let d = &imports[idx];
                let np: usize = d.params.len();
                if stack.len() < np {
                    return Outcome::Faulted(Fault::Trap(TrapKind::StackUnderflow));
                }
                let slen: usize = stack.len();
                let base: usize = slen - np;
                let mut args: Vec<Value> = Vec::new();
                let mut q: usize = 0;
                while q < np
                    invariant
                        q <= np,
                        base + np == slen,
                        slen == stack@.len(),
                        args@.len() == q,
                        forall|w: int| 0 <= w < q ==> (#[trigger] args@[w])@ == stack@[base + w]@,
                    decreases np - q,
                {
                    let v = stack[base + q].clone();
                    args.push(v);
                    q = q + 1;
                }
                proof {
                    assert(vals_view(args@) =~= vals_view(stack@).subrange(
                        base as int,
                        stack@.len() as int,
                    ));
                    assert(d@ == env.imports[idx as int]);
                }
                if !args_check(&args, &d.params) {
                    return Outcome::Faulted(Fault::Trap(TrapKind::TypeMismatch));
                }
                let cap: usize = binding[idx];
                proof {
                    assert(env.binding[idx as int] == binding@[idx as int] as int);
                }
                let rv = apply_capability(prov, &mut res, cap, &args);
                stack.truncate(base);
                proof {
                    assert(vals_view(stack@) =~= cur.stack.subrange(0, base as int));
                }
                match rv {
                    Some(v) => {
                        proof {
                            lemma_vals_view_push(stack@, v);
                        }
                        stack.push(v);
                    },
                    None => {},
                }
                pc = pc + 1;
                fuel_left = fuel2;
            },
            crate::module::Instr::Jump(t) => {
                let target: usize = *t as usize;
                if target >= code.len() {
                    return Outcome::Faulted(Fault::Trap(TrapKind::BadJumpTarget));
                }
                pc = target;
                fuel_left = fuel2;
            },
        }
    }
}

/// The position of the first export named `name`, scanning from `j`.
pub open spec fn spec_export_index_from(exports: Seq<DeclModel>, name: Seq<u8>, j: int) -> Option<
    int,
>
    decreases exports.len() - j,
{
    if j < 0 || j >= exports.len() {
        None
    } else if exports[j].name == name {
        Some(j)
    } else {
        spec_export_index_from(exports, name, j + 1)
    }
}

fn find_export(exports: &Vec<FuncDecl>, name: &Vec<u8>) -> (r: Option<usize>)
    ensures
        match r {
            Some(k) => spec_export_index_from(decls_view(*exports), name@, 0) == Some(k as int)
                && (k as int) < decls_view(*exports).len(),
            None => spec_export_index_from(decls_view(*exports), name@, 0) is None,
        },
{
    let mut j: usize = 0;
    while j < exports.len()
        invariant
            j <= exports@.len(),
            spec_export_index_from(decls_view(*exports), name@, 0) == spec_export_index_from(
                decls_view(*exports),
                name@,
                j as int,
            ),
        decreases exports@.len() - j,
    {
        proof {
            assert(decls_view(*exports)[j as int] == exports@[j as int]@);
        }
        if bytes_eq(&exports[j].name, name) {
            return Some(j);
        }
        j = j + 1;
    }
    None
}

/// What one invocation of `name` on module `m` yields, and the provider
/// it leaves behind: the outcome of running the export's code from a
/// fresh context under the limits, or the typed failure telling why no
/// code ran — an undeclared export, ill-fitting arguments, or limits the
/// host will not allocate.
pub open spec fn spec_invoke(
    m: ModuleModel,
    name: Seq<u8>,
    args: Seq<ValueModel>,
    limits: Limits,
    p: ProviderModel,
) -> (OutcomeModel, ProviderModel) {
    match spec_export_index_from(m.interface.exports, name, 0) {
        None => (OutcomeModel::Faulted(Fault::Trap(TrapKind::NoSuchExport)), p),
        Some(e) => {
            let d = m.interface.exports[e];
            if !args_match(args, d.params) {
                (OutcomeModel::Faulted(Fault::Trap(TrapKind::ArgumentMismatch)), p)
            } else if limits.max_memory > MEMORY_CEILING {
                (OutcomeModel::ResourceExhausted, p)
            } else {
                let env = RunEnv {
                    code: m.code[e],
                    imports: m.interface.imports,
                    binding: m.binding,
                    params: args,
                    ret: d.ret,
                };
                let st0 = MachineModel {
                    pc: 0,
                    stack: Seq::empty(),
                    memory: zeroed_memory(limits.max_memory as nat),
                    resources: Seq::empty(),
                    fuel: limits.fuel,
                };
                spec_run(env, st0, p)
            }
        },
    }
}

/// Invoke one export of a loaded module: build a fresh isolated context,
/// run the export under the limits, and hand back its typed outcome.
///
/// The outcome and the provider afterwards are exactly [`spec_invoke`] of
/// the module, the requested name, the arguments and the limits. Whatever
/// the plugin does, the call returns a terminal outcome: the host process
/// survives every fault, timeout and exhausted allocation.
pub fn invoke(
    module: &PluginModule,
    export_name: &Vec<u8>,
    args: &Vec<Value>,
    limits: &Limits,
    prov: &mut CapabilityProvider,
) -> (r: Outcome)
    requires
        module_binds(module@, host_world()),
        module_wf(module@),
    ensures
        (r@, final(prov)@) == spec_invoke(
            module@,
            export_name@,
            vals_view(args@),
            *limits,
            old(prov)@,
        ),
{
    match find_export(&module.interface.exports, export_name) {
        None => Outcome::Faulted(Fault::Trap(TrapKind::NoSuchExport)),
        Some(k) => {
            let d = &module.interface.exports[k];
            proof {
                assert(d@ == module@.interface.exports[k as int]);
            }
            if !args_check(args, &d.params) {
                return Outcome::Faulted(Fault::Trap(TrapKind::ArgumentMismatch));
            }
            proof {
                assert(module@.code[k as int] == instrs_view(module.code@[k as int]));
                assert forall|i: int| 0 <= i < module.binding@.len() implies (
                #[trigger] module.binding@[i] as int) < host_world().len() by {
                    assert(crate::module::is_first_match(
                        host_world(),
                        module@.interface.imports[i],
                        module@.binding[i],
                    ));
                }
            }
            run_export(
                &module.code[k],
                &module.interface.imports,
                &module.binding,
                args,
                d.ret,
                limits,
                prov,
            )
        },
    }
}

// ------------------------------------------------------------------
// What the machine's meaning guarantees.
// ------------------------------------------------------------------

/// An invocation always ends in a terminal outcome; in particular a
/// machine that only jumps in place can never escape its fuel budget:
/// whatever fuel it is granted, a single self-jump body times out.
pub proof fn lemma_self_loop_times_out(env: RunEnv, st: MachineModel, p: ProviderModel)
    requires
        env.code.len() == 1,
        env.code[0] == InstrModel::Jump(0u16),
        st.pc == 0,
    ensures
        spec_run(env, st, p).0 == OutcomeModel::TimedOut,
    decreases st.fuel,
{
    if st.fuel == 0 {
    } else {
        let st2 = MachineModel { pc: 0, fuel: (st.fuel - 1) as u64, ..st };
        assert(spec_step(env, st, p) == StepModel::Next(st2, p));
        lemma_self_loop_times_out(env, st2, p);
    }
}

/// A plugin exceeding its fuel budget is reported `TimedOut`: invoking
/// any export whose body is a bare self-jump yields `TimedOut` for every
/// fuel budget, however large.
pub proof fn lemma_invoke_times_out(
    m: ModuleModel,
    name: Seq<u8>,
    args: Seq<ValueModel>,
    limits: Limits,
    p: ProviderModel,
    e: int,
)
    requires
        spec_export_index_from(m.interface.exports, name, 0) == Some(e),
        0 <= e < m.interface.exports.len(),
        m.code[e] =~= seq![InstrModel::Jump(0u16)],
        args_match(args, m.interface.exports[e].params),
        limits.max_memory <= MEMORY_CEILING,
    ensures
        spec_invoke(m, name, args, limits, p).0 == OutcomeModel::TimedOut,
{
    let d = m.interface.exports[e];
    let env = RunEnv {
        code: m.code[e],
        imports: m.interface.imports,
        binding: m.binding,
        params: args,
        ret: d.ret,
    };
    let st0 = MachineModel {
        pc: 0,
        stack: Seq::empty(),
        memory: zeroed_memory(limits.max_memory as nat),
        resources: Seq::empty(),
        fuel: limits.fuel,
    };
    lemma_self_loop_times_out(env, st0, p);
}

/// A plugin writing outside its allotted memory region faults with an
/// out-of-bounds trap — for any target address at or past the region's
/// end, any value, and any fuel budget of at least three steps.
pub proof fn lemma_out_of_bounds_write_faults(
    m: ModuleModel,
    name: Seq<u8>,
    limits: Limits,
    p: ProviderModel,
    e: int,
    addr: i64,
    v: i64,
)
    requires
        spec_export_index_from(m.interface.exports, name, 0) == Some(e),
        0 <= e < m.interface.exports.len(),
        m.code[e] =~= seq![
            InstrModel::PushI64(addr),
            InstrModel::PushI64(v),
            InstrModel::StoreByte,
        ],
        m.interface.exports[e].params.len() == 0,
        limits.max_memory <= MEMORY_CEILING,
        addr < 0 || addr >= limits.max_memory,
        limits.fuel >= 3,
    ensures
        spec_invoke(m, name, Seq::empty(), limits, p).0 == OutcomeModel::Faulted(
            Fault::Trap(TrapKind::OutOfBoundsMemory),
        ),
{
    let d = m.interface.exports[e];
    let env = RunEnv {
        code: m.code[e],
        imports: m.interface.imports,
        binding: m.binding,
        params: Seq::empty(),
        ret: d.ret,
    };
    let st0 = MachineModel {
        pc: 0,
        stack: Seq::empty(),
        memory: zeroed_memory(limits.max_memory as nat),
        resources: Seq::empty(),
        fuel: limits.fuel,
    };
    assert(args_match(Seq::empty(), d.params));
    let st1 = MachineModel {
        pc: 1,
        stack: st0.stack.push(ValueModel::I64(addr)),
        fuel: (st0.fuel - 1) as u64,
        ..st0
    };
    assert(spec_step(env, st0, p) == StepModel::Next(st1, p));
    let st2 = MachineModel {
        pc: 2,
        stack: st1.stack.push(ValueModel::I64(v)),
        fuel: (st1.fuel - 1) as u64,
        ..st1
    };
    assert(spec_step(env, st1, p) == StepModel::Next(st2, p));
    assert(st2.stack[st2.stack.len() - 2] == ValueModel::I64(addr));
    assert(st2.stack.last() == ValueModel::I64(v));
    assert(st2.memory.len() == limits.max_memory);
    assert(spec_step(env, st2, p) == StepModel::Done(
        OutcomeModel::Faulted(Fault::Trap(TrapKind::OutOfBoundsMemory)),
        p,
    ));
    assert(spec_run(env, st0, p) == spec_run(env, st1, p));
    assert(spec_run(env, st1, p) == spec_run(env, st2, p));
}

/// An export whose body hands its single parameter straight back returns
/// exactly the input value, whatever that value is — the round trip is
/// the identity for every parameter type.
pub proof fn lemma_identity_round_trip(
    m: ModuleModel,
    name: Seq<u8>,
    limits: Limits,
    p: ProviderModel,
    e: int,
    v: ValueModel,
)
    requires
        spec_export_index_from(m.interface.exports, name, 0) == Some(e),
        0 <= e < m.interface.exports.len(),
        m.code[e] =~= seq![InstrModel::PushParam(0u8), InstrModel::Return],
        m.interface.exports[e].params =~= seq![type_of(v)],
        m.interface.exports[e].ret == Some(type_of(v)),
        limits.max_memory <= MEMORY_CEILING,
        limits.fuel >= 2,
    ensures
        spec_invoke(m, name, seq![v], limits, p) == (
            OutcomeModel::Completed(Some(v)),
            p,
        ),
{
    let d = m.interface.exports[e];
    let env = RunEnv {
        code: m.code[e],
        imports: m.interface.imports,
        binding: m.binding,
        params: seq![v],
        ret: d.ret,
    };
    let st0 = MachineModel {
        pc: 0,
        stack: Seq::empty(),
        memory: zeroed_memory(limits.max_memory as nat),
        resources: Seq::empty(),
        fuel: limits.fuel,
    };
    assert(args_match(seq![v], d.params));
    let st1 = MachineModel {
        pc: 1,
        stack: st0.stack.push(v),
        fuel: (st0.fuel - 1) as u64,
        ..st0
    };
    assert(spec_step(env, st0, p) == StepModel::Next(st1, p));
    assert(st1.stack.last() == v);
    assert(spec_step(env, st1, p) == StepModel::Done(OutcomeModel::Completed(Some(v)), p));
    assert(spec_run(env, st0, p) == spec_run(env, st1, p));
}

} // verus!
