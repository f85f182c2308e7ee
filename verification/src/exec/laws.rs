//! What holds of the machine whatever the program: laws proved of the model
//! in `model`.

use vstd::prelude::*;
use super::allocation::well_formed;
use super::frame::{local_get_spec, FrameView};
use super::model::{
    advance, begin_call, branch, call_spec, direct_callee, enter, finish, global_address,
    indirect_callee, invoke, memory_address, resolve, resume, run, stable, step, unwind,
    RegionView, State,
};
use super::store::{
    effective_address, global_get_spec, global_set_spec, in_bounds, le_byte, le_i32, load_spec,
    store_spec, Addr, ModuleIdx, StoreView,
};
use super::trap::Trap;
use super::value::Value;
use super::{BlockType, PAGE_SIZE};
use crate::parser::types::{Instruction, MemArg};

verus! {

/// The four little-endian bytes of an integer put together give the
/// integer back.
pub proof fn lemma_le_bytes_round_trip(v: i32)
    ensures
        le_i32(le_byte(v, 0), le_byte(v, 1), le_byte(v, 2), le_byte(v, 3)) == v,
{
    let u = v as u32;
    let b0 = ((u >> 0u32) & 0xff) as u8;
    let b1 = ((u >> 8u32) & 0xff) as u8;
    let b2 = ((u >> 16u32) & 0xff) as u8;
    let b3 = ((u >> 24u32) & 0xff) as u8;
    assert((b0 as u32) | ((b1 as u32) << 8u32) | ((b2 as u32) << 16u32) | ((b3 as u32) << 24u32)
        == u) by (bit_vector)
        requires
            b0 == ((u >> 0u32) & 0xff) as u8,
            b1 == ((u >> 8u32) & 0xff) as u8,
            b2 == ((u >> 16u32) & 0xff) as u8,
            b3 == ((u >> 24u32) & 0xff) as u8,
    ;
    assert((v as u32) as i32 == v) by (bit_vector);
}

/// A store followed by a load at the same place gives the stored integer
/// back; and a place whose four bytes do not lie within the memory fails
/// both, with the same trap.
pub proof fn lemma_store_then_load(s: StoreView, mem_addr: int, at: int, v: i32)
    ensures
        match store_spec(s, mem_addr, at, v) {
            Ok(after) => load_spec(after, mem_addr, at) == Ok::<i32, Trap>(v),
            Err(t) => load_spec(s, mem_addr, at) == Err::<i32, Trap>(t),
        },
        store_spec(s, mem_addr, at, v) is Ok <==> 0 <= mem_addr < s.mems.len() && in_bounds(
            s.mems[mem_addr],
            at,
        ),
{
    lemma_le_bytes_round_trip(v);
}

/// `i32.store` followed by `i32.load` with the same address and offset
/// pushes the stored integer, wherever the four bytes lie within the
/// current module's memory; wherever they do not, both instructions trap.
pub proof fn lemma_i32_store_then_load(s: State, m: MemArg, addr: i32, v: i32)
    requires
        s.stack.len() >= 2,
        s.stack[s.stack.len() - 2] == Value::I32(addr),
        s.stack.last() == Value::I32(v),
    ensures
        ({
            let below = s.stack.take(s.stack.len() - 2);
            let reload = State { stack: below.push(Value::I32(addr)), ..s };
            match step(s, Instruction::I32Store(m)) {
                Ok(stored) => {
                    &&& stored.stack == below
                    &&& step(
                        State { stack: stored.stack.push(Value::I32(addr)), ..stored },
                        Instruction::I32Load(m),
                    ) matches Ok(loaded)
                    &&& loaded.stack == below.push(Value::I32(v))
                    &&& loaded.store == stored.store
                },
                Err(t) => step(reload, Instruction::I32Load(m)) == Err::<State, Trap>(t),
            }
        }),
        memory_address(s) matches Ok(a) ==> (step(s, Instruction::I32Store(m)) is Ok <==> a
            < s.store.mems.len() && in_bounds(
            s.store.mems[a as int],
            effective_address(addr, m.offset),
        )),
{
    let below = s.stack.take(s.stack.len() - 2);
    assert(s.stack.drop_last().drop_last() =~= below);
    assert(below.push(Value::I32(addr)).drop_last() =~= below);
    if let Ok(a) = memory_address(s) {
        lemma_store_then_load(s.store, a as int, effective_address(addr, m.offset), v);
    }
}

/// A write to a global followed by a read of it gives the written value
/// back. The write succeeds exactly on a global that exists and is mutable.
pub proof fn lemma_global_set_then_get(s: StoreView, addr: int, v: Value)
    ensures
        global_set_spec(s, addr, v) matches Ok(after) ==> global_get_spec(after, addr) == Ok::<
            Value,
            Trap,
        >(v),
        global_set_spec(s, addr, v) is Ok <==> 0 <= addr < s.globals.len()
            && s.globals[addr].mutable,
{
}

/// `global.set` followed by `global.get` of the same index leaves the
/// operand stack as it was: the value that was popped is pushed again.
pub proof fn lemma_global_set_then_global_get(s: State, idx: u32)
    ensures
        step(s, Instruction::GlobalSet(idx)) matches Ok(written) ==> {
            &&& s.stack.len() > 0
            &&& step(written, Instruction::GlobalGet(idx)) matches Ok(read)
            &&& read.stack == s.stack
            &&& read.store == written.store
        },
{
    if let Ok(written) = step(s, Instruction::GlobalSet(idx)) {
        assert(s.stack.drop_last().push(s.stack.last()) =~= s.stack);
    }
}

/// `local.tee` does what `local.set` does and pushes the value again: the
/// value stays on top of the operand stack and the local holds it.
pub proof fn lemma_local_tee(s: State, idx: u32)
    ensures
        step(s, Instruction::LocalTee(idx)) == (match step(s, Instruction::LocalSet(idx)) {
            Ok(set) => Ok::<State, Trap>(State { stack: set.stack.push(s.stack.last()), ..set }),
            Err(t) => Err::<State, Trap>(t),
        }),
        step(s, Instruction::LocalTee(idx)) matches Ok(teed) ==> {
            &&& teed.stack == s.stack
            &&& local_get_spec(teed.frames, idx) == Ok::<Value, Trap>(s.stack.last())
        },
{
    if let Ok(teed) = step(s, Instruction::LocalTee(idx)) {
        assert(s.stack.drop_last().push(s.stack.last()) =~= s.stack);
    }
}

/// A function entered with `n` parameters finds the `n` values on top of
/// the operand stack in its first `n` locals, the value pushed first in
/// local 0, and the operand stack without them.
pub proof fn lemma_arguments_bound_in_order(s: State, addr: Addr)
    ensures
        enter(s, addr) matches Ok(entered) ==> {
            let f = s.store.funcs[addr as int];
            let n = s.modules[f.module_idx as int].types@[f.fun.ty as int].args@.len();
            &&& n <= s.stack.len()
            &&& entered.stack == s.stack.take(s.stack.len() - n)
            &&& entered.frames.len() == s.frames.len() + 1
            &&& entered.frames.last().module == f.module_idx
            &&& entered.frames.last().locals.len() == n + f.fun.locals@.len()
            &&& forall|i: int|
                0 <= i < n ==> entered.frames.last().locals[i] == s.stack[s.stack.len() - n + i]
        },
{
}

/// After the last instruction of a block its entry is gone from the
/// control stack, and the enclosing region is on top as it was.
pub proof fn lemma_block_falls_through(ip: Seq<RegionView>, body: Seq<Instruction>)
    requires
        body.len() > 0,
        body.len() <= usize::MAX,
    ensures
        advance(
            ip.push(
                RegionView {
                    kind: BlockType::Block,
                    instrs: body,
                    cursor: (body.len() - 1) as usize,
                },
            ),
        ) == ip,
{
    let top = RegionView { kind: BlockType::Block, instrs: body, cursor: (body.len() - 1) as usize };
    assert(ip.push(top).drop_last() =~= ip);
}

/// A taken `br_if 0` inside a block gives up the block: the condition is
/// popped and the enclosing region is on top, where it was left when the
/// block was entered.
pub proof fn lemma_br_if_leaves_block(s: State, cond: i32)
    requires
        s.ip.len() > 0,
        s.ip.last().kind is Block,
        s.stack.len() > 0,
        s.stack.last() == Value::I32(cond),
        cond != 0,
    ensures
        step(s, Instruction::BrIf(0)) == Ok::<State, Trap>(
            State { stack: s.stack.drop_last(), ip: s.ip.drop_last(), ..s },
        ),
{
}

/// A runtime that is well formed stays so through whatever leaves its
/// modules and the layout of its store alone, as all execution does.
pub proof fn lemma_stable_keeps_well_formed(a: State, b: State)
    requires
        well_formed(a),
        stable(a, b),
    ensures
        well_formed(b),
{
    let page = PAGE_SIZE as nat;
    assert forall|i: int| 0 <= i < b.store.mems.len() implies #[trigger] b.store.mems[i].len()
        % page == 0 by {
        assert(b.store.mems[i].len() == a.store.mems[i].len());
    }
}

/// In a well-formed runtime every index that a module resolves is the
/// address of an entry of the store: a function that belongs to a module
/// of the runtime, a memory of whole pages, a global.
pub proof fn lemma_addresses_resolve_into_store(
    s: State,
    module_idx: ModuleIdx,
    fun_idx: u32,
    global_idx: u32,
)
    requires
        well_formed(s),
    ensures
        resolve(s, module_idx, fun_idx) matches Ok(addr) ==> addr < s.store.funcs.len()
            && s.store.funcs[addr as int].module_idx < s.modules.len(),
        memory_address(s) matches Ok(addr) ==> addr < s.store.mems.len()
            && s.store.mems[addr as int].len() % (PAGE_SIZE as nat) == 0,
        global_address(s, global_idx) matches Ok(addr) ==> addr < s.store.globals.len(),
{
}

proof fn lemma_step_keeps_layout(s: State, instr: Instruction)
    ensures
        step(s, instr) matches Ok(after) ==> stable(s, after) && after.fuel == s.fuel,
{
}

proof fn lemma_begin_call_keeps_layout(s: State, instr: Instruction)
    ensures
        begin_call(s, instr) matches Ok(entered) ==> stable(s, entered) && entered.fuel == s.fuel,
{
}

/// However the dispatch loop ends, it leaves the modules and the layout of
/// the store as they were, and no more fuel than it began with.
pub proof fn lemma_run_keeps_layout(s: State)
    ensures
        stable(s, run(s).0),
        run(s).0.fuel <= s.fuel,
    decreases s.fuel, 0int,
{
    if s.ip.len() == 0 {
    } else {
        let top = s.ip.last();
        if top.cursor >= top.instrs.len() && top.kind is Function {
        } else if s.fuel == 0 {
        } else {
            let s1 = State { fuel: (s.fuel - 1) as u64, ..s };
            if top.cursor >= top.instrs.len() {
                lemma_run_keeps_layout(State { ip: advance(s1.ip), ..s1 });
            } else {
                let instr = top.instrs[top.cursor as int];
                match instr {
                    Instruction::Return => {},
                    Instruction::Call(_) | Instruction::CallIndirect(_) => {
                        lemma_begin_call_keeps_layout(s1, instr);
                        if let Ok(entered) = begin_call(s1, instr) {
                            lemma_finish_keeps_layout(entered);
                            let called = finish(entered);
                            assert(run(s) == resume(s1, called));
                            if called.1 is Ok {
                                lemma_run_keeps_layout(
                                    State { ip: advance(called.0.ip), ..called.0 },
                                );
                            }
                        }
                    },
                    _ => {
                        lemma_step_keeps_layout(s1, instr);
                        if let Ok(s2) = step(s1, instr) {
                            lemma_run_keeps_layout(s2);
                        }
                    },
                }
            }
        }
    }
}

/// However a function that was entered ends, it leaves the modules and the
/// layout of the store as they were, and no more fuel than it began with.
/// So the dispatch loop always goes on after a call that completed.
pub proof fn lemma_finish_keeps_layout(entered: State)
    ensures
        stable(entered, finish(entered).0),
        finish(entered).0.fuel <= entered.fuel,
    decreases entered.fuel, 1int,
{
    lemma_run_keeps_layout(entered);
}

/// However a call ends, it leaves the modules and the layout of the store
/// as they were, and no more fuel than it began with.
pub proof fn lemma_call_keeps_layout(s: State, module_idx: ModuleIdx, fun_idx: u32)
    ensures
        stable(s, call_spec(s, module_idx, fun_idx).0),
        call_spec(s, module_idx, fun_idx).0.fuel <= s.fuel,
{
    if let Ok(addr) = resolve(s, module_idx, fun_idx) {
        if let Ok(entered) = enter(s, addr) {
            lemma_finish_keeps_layout(entered);
        }
    }
}

/// Whether `ip` is `base` with a function body on top of it and no other
/// function body above that.
pub open spec fn within_function(ip: Seq<RegionView>, base: Seq<RegionView>) -> bool {
    &&& ip.len() > base.len()
    &&& ip.take(base.len() as int) == base
    &&& ip[base.len() as int].kind is Function
    &&& forall|k: int| base.len() < k < ip.len() ==> !(#[trigger] ip[k].kind is Function)
}

/// Whether `b` has the frames of `a` but for what the current frame holds.
pub open spec fn same_callers(a: Seq<FrameView>, b: Seq<FrameView>) -> bool {
    &&& a.len() > 0
    &&& b.len() == a.len()
    &&& b.drop_last() == a.drop_last()
}

proof fn lemma_advance_within(ip: Seq<RegionView>, base: Seq<RegionView>)
    requires
        within_function(ip, base),
    ensures
        within_function(advance(ip), base),
{
    assert(advance(ip).take(base.len() as int) =~= base);
}

proof fn lemma_branch_within(ip: Seq<RegionView>, base: Seq<RegionView>, label: nat)
    requires
        within_function(ip, base),
    ensures
        branch(ip, label) matches Ok(after) ==> within_function(after, base),
    decreases label,
{
    let top = ip.last();
    if top.kind is Function {
    } else {
        assert(ip.len() > base.len() + 1);
        assert(ip.drop_last().take(base.len() as int) =~= base);
        if label == 0 {
            if top.kind is Loop {
                assert(ip.update(ip.len() - 1, RegionView { cursor: 0, ..top }).take(
                    base.len() as int,
                ) =~= base);
            }
        } else {
            lemma_branch_within(ip.drop_last(), base, (label - 1) as nat);
        }
    }
}

proof fn lemma_unwind_within(ip: Seq<RegionView>, base: Seq<RegionView>)
    requires
        within_function(ip, base),
    ensures
        unwind(ip) == base,
    decreases ip.len(),
{
    if ip.last().kind is Function {
        assert(ip.len() == base.len() + 1);
        assert(ip.drop_last() =~= base);
    } else {
        assert(ip.drop_last().take(base.len() as int) =~= base);
        lemma_unwind_within(ip.drop_last(), base);
    }
}

proof fn lemma_step_within(s: State, instr: Instruction, base: Seq<RegionView>)
    requires
        within_function(s.ip, base),
        s.frames.len() > 0,
    ensures
        step(s, instr) matches Ok(after) ==> {
            &&& within_function(after.ip, base)
            &&& same_callers(s.frames, after.frames)
            &&& after.fuel == s.fuel
        },
{
    lemma_advance_within(s.ip, base);
    match instr {
        Instruction::BrIf(label) => {
            lemma_branch_within(s.ip, base, label as nat);
        },
        Instruction::Block(b) => {
            let region = RegionView { kind: BlockType::Block, instrs: b.instrs@, cursor: 0 };
            assert(advance(s.ip).push(region).take(base.len() as int) =~= base);
        },
        Instruction::Loop(b) => {
            let region = RegionView { kind: BlockType::Loop, instrs: b.instrs@, cursor: 0 };
            assert(advance(s.ip).push(region).take(base.len() as int) =~= base);
        },
        _ => {},
    }
    if let Ok(after) = step(s, instr) {
        assert(after.frames.drop_last() =~= s.frames.drop_last());
    }
}

/// A branch succeeds exactly where its label names a region above the
/// innermost function body. It cuts the control stack off below the
/// target if that is a block, and above it, with its cursor back at the
/// start, if it is a loop.
pub proof fn lemma_branch_closed_form(ip: Seq<RegionView>, label: nat)
    ensures
        branch(ip, label) is Ok <==> label < ip.len() && forall|j: int|
            ip.len() - 1 - label <= j < ip.len() ==> !(#[trigger] ip[j].kind is Function),
        branch(ip, label) matches Ok(after) ==> {
            let target = ip.len() - 1 - label;
            after == (if ip[target].kind is Loop {
                ip.take(target + 1).update(target, RegionView { cursor: 0, ..ip[target] })
            } else {
                ip.take(target)
            })
        },
        branch(ip, label) matches Err(t) ==> t == Trap::InvalidLabel,
    decreases label,
{
    if ip.len() == 0 {
    } else {
        let top = ip.last();
        let target = ip.len() - 1 - label;
        if top.kind is Function {
            assert(ip[ip.len() - 1].kind is Function);
        } else if label == 0 {
            assert(ip.take(target) =~= ip.drop_last());
            assert(ip.take(target + 1) =~= ip);
        } else {
            let rest = ip.drop_last();
            lemma_branch_closed_form(rest, (label - 1) as nat);
            if label < ip.len() {
                assert(rest.take(target) =~= ip.take(target));
                assert(rest.take(target + 1) =~= ip.take(target + 1));
                assert(rest[target] == ip[target]);
            }
            let first = ip.len() - 1 - label;
            if branch(ip, label) is Ok {
                assert forall|j: int| first <= j < ip.len() implies !(
                    #[trigger] ip[j].kind is Function
                ) by {
                    if j < ip.len() - 1 {
                        assert(rest[j] == ip[j]);
                    }
                }
            } else if label < ip.len() && forall|j: int|
                first <= j < ip.len() ==> !(#[trigger] ip[j].kind is Function) {
                assert forall|j: int| first <= j < rest.len() implies !(
                    #[trigger] rest[j].kind is Function
                ) by {
                    assert(rest[j] == ip[j]);
                }
            }
        }
    }
}

/// The dispatch loop, started within a function, stays within it where it
/// completes: it touches no region below the function's own and no frame
/// but the current one. And however it ends, it does not end with more fuel
/// than it began with.
pub proof fn lemma_run_stays_within(s: State, base: Seq<RegionView>)
    requires
        within_function(s.ip, base),
        s.frames.len() > 0,
    ensures
        run(s).1 is Ok ==> within_function(run(s).0.ip, base) && same_callers(
            s.frames,
            run(s).0.frames,
        ),
        run(s).0.fuel <= s.fuel,
    decreases s.fuel, 0int,
{
    let top = s.ip.last();
    lemma_advance_within(s.ip, base);
    if top.cursor >= top.instrs.len() && top.kind is Function {
    } else if s.fuel == 0 {
    } else {
        let s1 = State { fuel: (s.fuel - 1) as u64, ..s };
        if top.cursor >= top.instrs.len() {
            lemma_run_stays_within(State { ip: advance(s1.ip), ..s1 }, base);
        } else {
            let instr = top.instrs[top.cursor as int];
            match instr {
                Instruction::Return => {},
                Instruction::Call(_) | Instruction::CallIndirect(_) => {
                    lemma_begin_call_within(s1, instr);
                    if let Ok(entered) = begin_call(s1, instr) {
                        lemma_resume_stays_within(s1, entered, base);
                    }
                },
                _ => {
                    lemma_step_within(s1, instr, base);
                    if let Ok(s2) = step(s1, instr) {
                        lemma_run_stays_within(s2, base);
                    }
                },
            }
        }
    }
}

proof fn lemma_resume_stays_within(before: State, entered: State, base: Seq<RegionView>)
    requires
        within_function(before.ip, base),
        before.frames.len() > 0,
        within_function(entered.ip, before.ip),
        entered.frames.len() > 0,
        entered.frames.drop_last() == before.frames,
        entered.fuel == before.fuel,
    ensures
        ({
            let after = resume(before, finish(entered));
            &&& after.1 is Ok ==> within_function(after.0.ip, base) && same_callers(
                before.frames,
                after.0.frames,
            )
            &&& after.0.fuel <= before.fuel
        }),
    decreases before.fuel, 2int,
{
    lemma_finish_restores_stacks(entered, before.ip);
    let called = finish(entered);
    if called.1 is Ok {
        lemma_advance_within(called.0.ip, base);
        lemma_run_stays_within(State { ip: advance(called.0.ip), ..called.0 }, base);
    }
}

proof fn lemma_finish_restores_stacks(entered: State, base: Seq<RegionView>)
    requires
        within_function(entered.ip, base),
        entered.frames.len() > 0,
    ensures
        finish(entered).1 is Ok ==> finish(entered).0.ip == base && finish(entered).0.frames
            == entered.frames.drop_last(),
        finish(entered).0.fuel <= entered.fuel,
    decreases entered.fuel, 1int,
{
    lemma_run_stays_within(entered, base);
    let ran = run(entered);
    if ran.1 is Ok {
        lemma_unwind_within(ran.0.ip, base);
    }
}

proof fn lemma_enter_within(s: State, addr: Addr)
    ensures
        enter(s, addr) matches Ok(entered) ==> {
            &&& within_function(entered.ip, s.ip)
            &&& entered.frames.len() > 0
            &&& entered.frames.drop_last() == s.frames
            &&& entered.fuel == s.fuel
        },
{
    if let Ok(entered) = enter(s, addr) {
        assert(entered.ip.take(s.ip.len() as int) =~= s.ip);
        assert(entered.frames.drop_last() =~= s.frames);
    }
}

proof fn lemma_begin_call_within(s: State, instr: Instruction)
    ensures
        begin_call(s, instr) matches Ok(entered) ==> {
            &&& within_function(entered.ip, s.ip)
            &&& entered.frames.len() > 0
            &&& entered.frames.drop_last() == s.frames
            &&& entered.fuel == s.fuel
        },
{
    match instr {
        Instruction::Call(fun_idx) => {
            if let Ok(addr) = direct_callee(s, fun_idx) {
                lemma_enter_within(s, addr);
            }
        },
        Instruction::CallIndirect(ty) => {
            if let Ok((addr, rest)) = indirect_callee(s, ty) {
                lemma_enter_within(State { stack: rest, ..s }, addr);
            }
        },
        _ => {},
    }
}

/// An invocation that completes leaves the frame stack and the control
/// stack exactly as it found them; and however it ends, it leaves no more
/// fuel than it was given.
pub proof fn lemma_invoke_restores_stacks(s: State, addr: Addr)
    ensures
        invoke(s, addr).1 is Ok ==> invoke(s, addr).0.ip == s.ip && invoke(s, addr).0.frames
            == s.frames,
        invoke(s, addr).0.fuel <= s.fuel,
{
    lemma_enter_within(s, addr);
    if let Ok(entered) = enter(s, addr) {
        lemma_finish_restores_stacks(entered, s.ip);
    }
}

/// A call that completes leaves the frame stack and the control stack
/// exactly as it found them: no frame and no region of the call remains.
pub proof fn lemma_call_leaves_no_trace(s: State, module_idx: ModuleIdx, fun_idx: u32)
    ensures
        call_spec(s, module_idx, fun_idx).1 is Ok ==> {
            &&& call_spec(s, module_idx, fun_idx).0.ip == s.ip
            &&& call_spec(s, module_idx, fun_idx).0.frames == s.frames
        },
        call_spec(s, module_idx, fun_idx).0.fuel <= s.fuel,
{
    if let Ok(addr) = resolve(s, module_idx, fun_idx) {
        lemma_invoke_restores_stacks(s, addr);
    }
}

} // verus!
