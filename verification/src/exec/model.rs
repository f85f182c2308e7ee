//! The machine as a mathematical value, and what each instruction, the
//! dispatch loop and an invocation make of it.

use vstd::prelude::*;
use super::frame::{current_module_spec, initial_locals, local_get_spec, local_set_spec, FrameView};
use super::stack::{bool_value, pop_i32_pair_spec, pop_i32_spec, pop_spec};
use super::store::{
    effective_address, global_get_spec, global_set_spec, load_spec, same_layout, store_spec, Addr,
    ModuleIdx, StoreView,
};
use super::trap::Trap;
use super::value::Value;
use super::{BlockType, Module, UNRESOLVED};
use crate::parser::types::Instruction;

verus! {

/// One entry of the control stack: a region being executed, its code and
/// the offset of the instruction that runs next.
pub struct RegionView {
    pub kind: BlockType,
    pub instrs: Seq<Instruction>,
    pub cursor: usize,
}

/// The whole runtime as a mathematical value. Each stack is written from
/// the bottom to the top.
#[verifier::ext_equal]
pub struct State {
    pub store: StoreView,
    pub stack: Seq<Value>,
    pub frames: Seq<FrameView>,
    pub modules: Seq<Module>,
    pub ip: Seq<RegionView>,
    /// How many more steps the dispatch loop may take.
    pub fuel: u64,
}

/// Whether `b` has the modules of `a` and a store of the same layout.
pub open spec fn stable(a: State, b: State) -> bool {
    b.modules == a.modules && same_layout(a.store, b.store)
}

/// A cursor moved on by one, as far as the machine's integers go.
pub open spec fn bump(cursor: usize) -> usize {
    if cursor < usize::MAX {
        (cursor + 1) as usize
    } else {
        cursor
    }
}

/// The control stack after the top region has moved on by one instruction.
///
/// Within the region the cursor moves to the next instruction. Past the
/// last instruction a function body keeps its entry, with the cursor behind
/// the end; a block gives up its entry; a loop starts over.
pub open spec fn advance(ip: Seq<RegionView>) -> Seq<RegionView> {
    if ip.len() == 0 {
        ip
    } else {
        let top = ip.last();
        if top.cursor + 1 < top.instrs.len() {
            ip.update(ip.len() - 1, RegionView { cursor: (top.cursor + 1) as usize, ..top })
        } else {
            match top.kind {
                BlockType::Function => ip.update(
                    ip.len() - 1,
                    RegionView { cursor: bump(top.cursor), ..top },
                ),
                BlockType::Block => ip.drop_last(),
                BlockType::Loop => ip.update(ip.len() - 1, RegionView { cursor: 0, ..top }),
            }
        }
    }
}

/// The control stack after a branch to `label`, where label 0 is the
/// innermost region.
///
/// The `label` regions above the target are given up. The target is given
/// up too if it is a block, and starts over if it is a loop. A branch never
/// reaches a function body or past it: that is a trap.
pub open spec fn branch(ip: Seq<RegionView>, label: nat) -> Result<Seq<RegionView>, Trap>
    decreases label,
{
    if ip.len() == 0 {
        Err(Trap::InvalidLabel)
    } else {
        let top = ip.last();
        match top.kind {
            BlockType::Function => Err(Trap::InvalidLabel),
            BlockType::Block => if label == 0 {
                Ok(ip.drop_last())
            } else {
                branch(ip.drop_last(), (label - 1) as nat)
            },
            BlockType::Loop => if label == 0 {
                Ok(ip.update(ip.len() - 1, RegionView { cursor: 0, ..top }))
            } else {
                branch(ip.drop_last(), (label - 1) as nat)
            },
        }
    }
}

/// The control stack without its topmost function body and the regions
/// above it.
pub open spec fn unwind(ip: Seq<RegionView>) -> Seq<RegionView>
    decreases ip.len(),
{
    if ip.len() == 0 {
        ip
    } else if ip.last().kind is Function {
        ip.drop_last()
    } else {
        unwind(ip.drop_last())
    }
}

/// The module that the current frame executes in.
pub open spec fn current_instance(s: State) -> Result<Module, Trap> {
    match current_module_spec(s.frames) {
        Err(t) => Err(t),
        Ok(m) => if m >= s.modules.len() {
            Err(Trap::InvalidModule)
        } else {
            Ok(s.modules[m as int])
        },
    }
}

/// The address of the current module's memory.
pub open spec fn memory_address(s: State) -> Result<Addr, Trap> {
    match current_instance(s) {
        Err(t) => Err(t),
        Ok(m) => if m.mem_addrs@.len() == 0 {
            Err(Trap::NoMemory)
        } else {
            Ok(m.mem_addrs@[0])
        },
    }
}

/// The address of global `idx` of the current module.
pub open spec fn global_address(s: State, idx: u32) -> Result<Addr, Trap> {
    match current_instance(s) {
        Err(t) => Err(t),
        Ok(m) => if idx >= m.global_addrs@.len() {
            Err(Trap::InvalidGlobal)
        } else {
            Ok(m.global_addrs@[idx as int])
        },
    }
}

/// `s` with `v` pushed and the top region moved on.
pub open spec fn push_and_advance(s: State, v: Value) -> State {
    State { stack: s.stack.push(v), ip: advance(s.ip), ..s }
}

/// `local.get`: pushes the local.
pub open spec fn step_local_get(s: State, idx: u32) -> Result<State, Trap> {
    match local_get_spec(s.frames, idx) {
        Err(t) => Err(t),
        Ok(v) => Ok(push_and_advance(s, v)),
    }
}

/// `local.set`: pops a value into the local.
pub open spec fn step_local_set(s: State, idx: u32) -> Result<State, Trap> {
    match pop_spec(s.stack) {
        Err(t) => Err(t),
        Ok((v, rest)) => match local_set_spec(s.frames, idx, v) {
            Err(t) => Err(t),
            Ok(frames) => Ok(State { stack: rest, frames, ip: advance(s.ip), ..s }),
        },
    }
}

/// `local.tee`: pops a value into the local and pushes it again.
pub open spec fn step_local_tee(s: State, idx: u32) -> Result<State, Trap> {
    match pop_spec(s.stack) {
        Err(t) => Err(t),
        Ok((v, rest)) => match local_set_spec(s.frames, idx, v) {
            Err(t) => Err(t),
            Ok(frames) => Ok(State { stack: rest.push(v), frames, ip: advance(s.ip), ..s }),
        },
    }
}

/// `global.get`: pushes the global that the current module has at `idx`.
pub open spec fn step_global_get(s: State, idx: u32) -> Result<State, Trap> {
    match global_address(s, idx) {
        Err(t) => Err(t),
        Ok(a) => match global_get_spec(s.store, a as int) {
            Err(t) => Err(t),
            Ok(v) => Ok(push_and_advance(s, v)),
        },
    }
}

/// `global.set`: pops a value into the global that the current module has
/// at `idx`.
pub open spec fn step_global_set(s: State, idx: u32) -> Result<State, Trap> {
    match global_address(s, idx) {
        Err(t) => Err(t),
        Ok(a) => match pop_spec(s.stack) {
            Err(t) => Err(t),
            Ok((v, rest)) => match global_set_spec(s.store, a as int, v) {
                Err(t) => Err(t),
                Ok(store) => Ok(State { store, stack: rest, ip: advance(s.ip), ..s }),
            },
        },
    }
}

/// `i32.load`: pops an address and pushes the integer stored there.
pub open spec fn step_i32_load(s: State, offset: u32) -> Result<State, Trap> {
    match pop_i32_spec(s.stack) {
        Err(t) => Err(t),
        Ok((addr, rest)) => match memory_address(s) {
            Err(t) => Err(t),
            Ok(a) => match load_spec(s.store, a as int, effective_address(addr, offset)) {
                Err(t) => Err(t),
                Ok(v) => Ok(
                    State { stack: rest.push(Value::I32(v)), ip: advance(s.ip), ..s },
                ),
            },
        },
    }
}

/// `i32.store`: pops an integer and, below it, an address, and stores the
/// integer there.
pub open spec fn step_i32_store(s: State, offset: u32) -> Result<State, Trap> {
    match pop_i32_pair_spec(s.stack) {
        Err(t) => Err(t),
        Ok((addr, v, rest)) => match memory_address(s) {
            Err(t) => Err(t),
            Ok(a) => match store_spec(s.store, a as int, effective_address(addr, offset), v) {
                Err(t) => Err(t),
                Ok(store) => Ok(State { store, stack: rest, ip: advance(s.ip), ..s }),
            },
        },
    }
}

/// `i32.eqz`: pops an integer and pushes whether it is zero.
pub open spec fn step_i32_eqz(s: State) -> Result<State, Trap> {
    match pop_i32_spec(s.stack) {
        Err(t) => Err(t),
        Ok((v, rest)) => Ok(
            State { stack: rest.push(bool_value(v == 0)), ip: advance(s.ip), ..s },
        ),
    }
}

/// `i32.le_u`: pops two integers and pushes whether the one pushed first
/// is at most the one pushed last, both read as unsigned.
pub open spec fn step_i32_le_u(s: State) -> Result<State, Trap> {
    match pop_i32_pair_spec(s.stack) {
        Err(t) => Err(t),
        Ok((left, right, rest)) => Ok(
            State {
                stack: rest.push(bool_value((left as u32) <= (right as u32))),
                ip: advance(s.ip),
                ..s
            },
        ),
    }
}

/// `i32.sub`: pops two integers and pushes the one pushed first less the
/// one pushed last, wrapped to 32 bits.
pub open spec fn step_i32_sub(s: State) -> Result<State, Trap> {
    match pop_i32_pair_spec(s.stack) {
        Err(t) => Err(t),
        Ok((left, right, rest)) => Ok(
            State { stack: rest.push(Value::I32(left.wrapping_sub(right))), ip: advance(s.ip), ..s },
        ),
    }
}

/// `block` and `loop`: the enclosing region moves on, and the new region
/// is entered at its first instruction. The operand stack is untouched.
pub open spec fn step_enter(s: State, kind: BlockType, body: Seq<Instruction>) -> State {
    State { ip: advance(s.ip).push(RegionView { kind, instrs: body, cursor: 0 }), ..s }
}

/// `br_if`: pops a condition; branches to `label` where it is not zero,
/// and moves on where it is.
pub open spec fn step_br_if(s: State, label: u32) -> Result<State, Trap> {
    match pop_i32_spec(s.stack) {
        Err(t) => Err(t),
        Ok((cond, rest)) => if cond != 0 {
            match branch(s.ip, label as nat) {
                Err(t) => Err(t),
                Ok(ip) => Ok(State { stack: rest, ip, ..s }),
            }
        } else {
            Ok(State { stack: rest, ip: advance(s.ip), ..s })
        },
    }
}

/// What one instruction other than `call`, `call_indirect` and `return`
/// makes of the machine. An instruction outside the supported set traps.
pub open spec fn step(s: State, instr: Instruction) -> Result<State, Trap> {
    match instr {
        Instruction::I32Const(i) => Ok(push_and_advance(s, Value::I32(i))),
        Instruction::I64Const(i) => Ok(push_and_advance(s, Value::I64(i))),
        Instruction::F32Const(bits) => Ok(push_and_advance(s, Value::F32(bits))),
        Instruction::F64Const(bits) => Ok(push_and_advance(s, Value::F64(bits))),
        Instruction::LocalGet(idx) => step_local_get(s, idx),
        Instruction::LocalSet(idx) => step_local_set(s, idx),
        Instruction::LocalTee(idx) => step_local_tee(s, idx),
        Instruction::GlobalGet(idx) => step_global_get(s, idx),
        Instruction::GlobalSet(idx) => step_global_set(s, idx),
        Instruction::I32Load(m) => step_i32_load(s, m.offset),
        Instruction::I32Store(m) => step_i32_store(s, m.offset),
        Instruction::I32Eqz => step_i32_eqz(s),
        Instruction::I32LeU => step_i32_le_u(s),
        Instruction::I32Sub => step_i32_sub(s),
        Instruction::Block(b) => Ok(step_enter(s, BlockType::Block, b.instrs@)),
        Instruction::Loop(b) => Ok(step_enter(s, BlockType::Loop, b.instrs@)),
        Instruction::BrIf(label) => step_br_if(s, label),
        _ => Err(Trap::UnsupportedInstruction),
    }
}

/// The store address of function `fun_idx` of module `module_idx`.
pub open spec fn resolve(s: State, module_idx: ModuleIdx, fun_idx: u32) -> Result<Addr, Trap> {
    if module_idx >= s.modules.len() {
        Err(Trap::InvalidModule)
    } else {
        let m = s.modules[module_idx as int];
        if fun_idx >= m.func_addrs@.len() {
            Err(Trap::InvalidFunction)
        } else if m.func_addrs@[fun_idx as int] == UNRESOLVED {
            Err(Trap::UnresolvedImport)
        } else {
            Ok(m.func_addrs@[fun_idx as int])
        }
    }
}

/// The callee of `call fun_idx`: the function that the current module has
/// at that index.
pub open spec fn direct_callee(s: State, fun_idx: u32) -> Result<Addr, Trap> {
    match current_module_spec(s.frames) {
        Err(t) => Err(t),
        Ok(m) => resolve(s, m, fun_idx),
    }
}

/// What slot `index`, read as unsigned, of the table at `table` holds,
/// where it holds a function that was declared with type index `ty`.
pub open spec fn table_lookup(store: StoreView, table: int, index: i32, ty: u32) -> Result<
    Addr,
    Trap,
> {
    let slots = store.tables[table];
    if (index as u32) >= slots.len() {
        Err(Trap::TableOutOfBounds)
    } else {
        match slots[(index as u32) as int] {
            None => Err(Trap::UninitializedElement),
            Some(addr) => if addr >= store.funcs.len() {
                Err(Trap::InvalidFunction)
            } else if store.funcs[addr as int].fun.ty != ty {
                Err(Trap::IndirectCallTypeMismatch)
            } else {
                Ok(addr)
            },
        }
    }
}

/// The callee of `call_indirect ty`, and the operand stack without the
/// table index that was popped. The index is looked up in the current
/// module's first table.
pub open spec fn indirect_callee(s: State, ty: u32) -> Result<(Addr, Seq<Value>), Trap> {
    match current_instance(s) {
        Err(t) => Err(t),
        Ok(m) => if m.table_addrs@.len() == 0 || m.table_addrs@[0] >= s.store.tables.len() {
            Err(Trap::NoTable)
        } else {
            match pop_i32_spec(s.stack) {
                Err(t) => Err(t),
                Ok((index, rest)) => match table_lookup(
                    s.store,
                    m.table_addrs@[0] as int,
                    index,
                    ty,
                ) {
                    Err(t) => Err(t),
                    Ok(addr) => Ok((addr, rest)),
                },
            }
        },
    }
}

/// The machine at the entry of the function at `addr`.
///
/// As many values as the function has parameters are taken off the operand
/// stack and become the first locals, the value pushed first in local 0. A
/// frame with these locals, for the function's own module, is pushed, and
/// a region over the function's body, at its first instruction.
pub open spec fn enter(s: State, addr: Addr) -> Result<State, Trap> {
    if addr >= s.store.funcs.len() {
        Err(Trap::InvalidFunction)
    } else {
        let f = s.store.funcs[addr as int];
        if f.module_idx >= s.modules.len() {
            Err(Trap::InvalidModule)
        } else {
            let types = s.modules[f.module_idx as int].types@;
            if f.fun.ty >= types.len() {
                Err(Trap::InvalidType)
            } else {
                let arity = types[f.fun.ty as int].args@.len();
                if s.stack.len() < arity {
                    Err(Trap::StackUnderflow)
                } else {
                    let kept = s.stack.len() - arity;
                    Ok(
                        State {
                            stack: s.stack.take(kept),
                            frames: s.frames.push(
                                FrameView {
                                    locals: initial_locals(s.stack.skip(kept), f.fun.locals@),
                                    module: f.module_idx,
                                },
                            ),
                            ip: s.ip.push(
                                RegionView {
                                    kind: BlockType::Function,
                                    instrs: f.fun.expr.instrs@,
                                    cursor: 0,
                                },
                            ),
                            ..s
                        },
                    )
                }
            }
        }
    }
}

/// The machine after a function has run: without the current frame, and
/// without the function's region and whatever regions were left open above
/// it.
pub open spec fn leave(s: State) -> State {
    State {
        frames: if s.frames.len() > 0 {
            s.frames.drop_last()
        } else {
            s.frames
        },
        ip: unwind(s.ip),
        ..s
    }
}

/// How a run ended: the machine as it was left, and success or the trap.
pub type Outcome = (State, Result<(), Trap>);

/// The outcome of a run that completed in state `s`.
pub open spec fn done(s: State) -> Outcome {
    (s, Ok(()))
}

/// The outcome of a run that trapped with `t` in state `s`.
pub open spec fn trapped(s: State, t: Trap) -> Outcome {
    (s, Err(t))
}

/// The machine at the entry of the callee of the call instruction `instr`:
/// the callee is found, for `call_indirect` with the table index popped,
/// and entered.
pub open spec fn begin_call(s: State, instr: Instruction) -> Result<State, Trap> {
    match instr {
        Instruction::Call(fun_idx) => match direct_callee(s, fun_idx) {
            Err(t) => Err(t),
            Ok(addr) => enter(s, addr),
        },
        Instruction::CallIndirect(ty) => match indirect_callee(s, ty) {
            Err(t) => Err(t),
            Ok((addr, rest)) => enter(State { stack: rest, ..s }, addr),
        },
        _ => Err(Trap::UnsupportedInstruction),
    }
}

/// What the dispatch loop makes of the machine.
///
/// The loop ends when the control stack is empty, when the top region is a
/// function body with its cursor at or behind the end, or at a `return`.
/// A block or loop with its cursor at or behind the end moves on as
/// `advance` says. Every other turn executes the instruction under the
/// cursor. Each turn that does not end the loop takes one unit of fuel, and
/// a turn that finds none traps.
///
/// An instruction that traps leaves the machine as it found it, but for the
/// unit of fuel: nothing that it did before it failed remains. A trap in a
/// callee leaves the frames and regions of the calls in progress where
/// they are.
pub open spec fn run(s: State) -> Outcome
    decreases s.fuel, 0int,
{
    if s.ip.len() == 0 {
        done(s)
    } else {
        let top = s.ip.last();
        if top.cursor >= top.instrs.len() && top.kind is Function {
            done(State { ip: advance(s.ip), ..s })
        } else if s.fuel == 0 {
            trapped(s, Trap::OutOfFuel)
        } else {
            let s1 = State { fuel: (s.fuel - 1) as u64, ..s };
            if top.cursor >= top.instrs.len() {
                run(State { ip: advance(s1.ip), ..s1 })
            } else {
                match top.instrs[top.cursor as int] {
                    Instruction::Return => done(s1),
                    Instruction::Call(fun_idx) => match begin_call(
                        s1,
                        Instruction::Call(fun_idx),
                    ) {
                        Err(t) => trapped(s1, t),
                        Ok(entered) => resume(s1, finish(entered)),
                    },
                    Instruction::CallIndirect(ty) => match begin_call(
                        s1,
                        Instruction::CallIndirect(ty),
                    ) {
                        Err(t) => trapped(s1, t),
                        Ok(entered) => resume(s1, finish(entered)),
                    },
                    instr => match step(s1, instr) {
                        Err(t) => trapped(s1, t),
                        Ok(s2) => run(s2),
                    },
                }
            }
        }
    }
}

/// What becomes of the machine once a function has been entered: the
/// dispatch loop runs and the function is left. Where the loop traps the
/// function is not left.
pub open spec fn finish(entered: State) -> Outcome
    decreases entered.fuel, 1int,
{
    let ran = run(entered);
    if ran.1 is Err {
        ran
    } else {
        done(leave(ran.0))
    }
}

/// What the dispatch loop makes of the machine once a call made in state
/// `before` has come back with `called`: after a trap nothing more is
/// done; otherwise the calling region moves on and the loop goes on. A call
/// never comes back with more fuel than it was given.
pub open spec fn resume(before: State, called: Outcome) -> Outcome
    decreases before.fuel, 1int,
{
    if called.1 is Err {
        called
    } else if called.0.fuel <= before.fuel {
        run(State { ip: advance(called.0.ip), ..called.0 })
    } else {
        trapped(called.0, Trap::OutOfFuel)
    }
}

/// What an invocation of the function at `addr` makes of the machine.
/// Where the function cannot be entered nothing changes.
pub open spec fn invoke(s: State, addr: Addr) -> Outcome {
    match enter(s, addr) {
        Err(t) => trapped(s, t),
        Ok(entered) => finish(entered),
    }
}

/// What a call of function `fun_idx` of module `module_idx` makes of the
/// machine.
pub open spec fn call_spec(s: State, module_idx: ModuleIdx, fun_idx: u32) -> Outcome {
    match resolve(s, module_idx, fun_idx) {
        Err(t) => trapped(s, t),
        Ok(addr) => invoke(s, addr),
    }
}

} // verus!
