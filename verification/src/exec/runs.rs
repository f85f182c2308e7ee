//! What the dispatch loop makes of given code: laws on whole runs, each
//! for every state that has fuel for the turns it takes.

use vstd::prelude::*;
use super::frame::{local_get_spec, local_set_spec};
use super::laws::lemma_le_bytes_round_trip;
use super::model::{
    advance, begin_call, call_spec, done, enter, finish, global_address, invoke, leave,
    memory_address, resolve, resume, run, step, trapped, unwind, RegionView, State,
};
use super::stack::bool_value;
use super::store::{
    effective_address, in_bounds, read_i32, write_i32, Global, ModuleIdx, StoreView,
};
use super::BlockType;
use super::trap::Trap;
use super::value::Value;
use crate::parser::types::{Instruction, MemArg};

verus! {

/// `s` with `units` units of fuel less.
pub open spec fn spent(s: State, units: int) -> State {
    State { fuel: (s.fuel - units) as u64, ..s }
}

/// `s` with the cursor of the top region at `cursor`.
pub open spec fn at_cursor(s: State, cursor: usize) -> State {
    State { ip: s.ip.update(s.ip.len() - 1, RegionView { cursor, ..s.ip.last() }), ..s }
}

/// `s` with the top region moved on by one instruction.
pub open spec fn moved_on(s: State) -> State {
    State { ip: advance(s.ip), ..s }
}

/// Whether the top region of `s` is a function body over `code` with the
/// cursor at its start.
pub open spec fn starts(s: State, code: Seq<Instruction>) -> bool {
    &&& s.ip.len() > 0
    &&& s.ip.last().kind is Function
    &&& s.ip.last().instrs == code
    &&& s.ip.last().cursor == 0
}

/// One turn of the dispatch loop on an instruction other than `call`,
/// `call_indirect` and `return`, with fuel left: the instruction is
/// executed for one unit of fuel, and the loop goes on from there or ends
/// with the instruction's trap.
pub proof fn lemma_turn(s: State)
    requires
        s.ip.len() > 0,
        s.ip.last().cursor < s.ip.last().instrs.len(),
        s.fuel > 0,
        !(s.ip.last().instrs[s.ip.last().cursor as int] is Return),
        !(s.ip.last().instrs[s.ip.last().cursor as int] is Call),
        !(s.ip.last().instrs[s.ip.last().cursor as int] is CallIndirect),
    ensures
        run(s) == (match step(spent(s, 1), s.ip.last().instrs[s.ip.last().cursor as int]) {
            Ok(next) => run(next),
            Err(t) => trapped(spent(s, 1), t),
        }),
{
}

/// The loop ends at the end of a function body, for no fuel, with the
/// cursor moved on once more.
pub proof fn lemma_end_of_function(s: State)
    requires
        s.ip.len() > 0,
        s.ip.last().kind is Function,
        s.ip.last().cursor >= s.ip.last().instrs.len(),
    ensures
        run(s) == done(moved_on(s)),
{
}

/// In a function body the cursor moves on by one, at the last instruction
/// as at any other.
pub proof fn lemma_advance_in_function(s: State)
    requires
        s.ip.len() > 0,
        s.ip.last().kind is Function,
        s.ip.last().cursor < usize::MAX,
    ensures
        moved_on(s) == at_cursor(s, (s.ip.last().cursor + 1) as usize),
{
}

/// `global.set` followed by `global.get` of the same index, run as a
/// function body on a mutable global: the global holds the value that was
/// on top of the operand stack, and the stack is as before. No other
/// global, and nothing else, has changed.
pub proof fn lemma_run_global_set_then_get(s: State, idx: u32)
    requires
        starts(s, seq![Instruction::GlobalSet(idx), Instruction::GlobalGet(idx)]),
        global_address(s, idx) is Ok,
        global_address(s, idx)->Ok_0 < s.store.globals.len(),
        s.store.globals[global_address(s, idx)->Ok_0 as int].mutable,
        s.stack.len() > 0,
        s.fuel >= 2,
    ensures
        ({
            let g = global_address(s, idx)->Ok_0 as int;
            let written = Global { value: s.stack.last(), mutable: true };
            run(s) == done(
                State {
                    store: StoreView { globals: s.store.globals.update(g, written), ..s.store },
                    ..at_cursor(spent(s, 2), 3)
                },
            )
        }),
{
    let g = global_address(s, idx)->Ok_0 as int;
    let v = s.stack.last();
    let store = StoreView {
        globals: s.store.globals.update(g, Global { value: v, mutable: true }),
        ..s.store
    };
    let t1 = State { store, stack: s.stack.drop_last(), ..at_cursor(spent(s, 1), 1) };
    let t2 = State { store, ..at_cursor(spent(s, 2), 2) };
    lemma_turn(s);
    lemma_advance_in_function(spent(s, 1));
    assert(step(spent(s, 1), Instruction::GlobalSet(idx)) == Ok::<State, Trap>(t1));
    lemma_turn(t1);
    lemma_advance_in_function(spent(t1, 1));
    assert(s.stack.drop_last().push(v) =~= s.stack);
    assert(at_cursor(spent(t1, 1), 2).ip =~= t2.ip);
    assert(step(spent(t1, 1), Instruction::GlobalGet(idx)) == Ok::<State, Trap>(t2));
    lemma_end_of_function(t2);
    lemma_advance_in_function(t2);
    assert(at_cursor(t2, 3).ip =~= at_cursor(spent(s, 2), 3).ip);
}

/// The code that stores `v` at `addr` and loads it again.
pub open spec fn store_then_load(addr: i32, v: i32, m: MemArg) -> Seq<Instruction> {
    seq![
        Instruction::I32Const(addr),
        Instruction::I32Const(v),
        Instruction::I32Store(m),
        Instruction::I32Const(addr),
        Instruction::I32Load(m),
    ]
}

/// A store followed by a load at the same address and offset, run as a
/// function body where the four bytes lie within the current module's
/// memory: the loaded integer, which is the stored one, is on top of the
/// operand stack; the four bytes hold it in little-endian order; no other
/// byte and no length has changed, and nothing else but the cursor and
/// the fuel.
#[verifier::rlimit(60)]
#[verifier::spinoff_prover]
pub proof fn lemma_run_store_then_load(s: State, addr: i32, v: i32, m: MemArg)
    requires
        starts(s, store_then_load(addr, v, m)),
        memory_address(s) is Ok,
        memory_address(s)->Ok_0 < s.store.mems.len(),
        in_bounds(
            s.store.mems[memory_address(s)->Ok_0 as int],
            effective_address(addr, m.offset),
        ),
        s.fuel >= 5,
    ensures
        ({
            let a = memory_address(s)->Ok_0 as int;
            let at = effective_address(addr, m.offset);
            let mem = write_i32(s.store.mems[a], at, v);
            &&& run(s) == done(
                State {
                    store: StoreView { mems: s.store.mems.update(a, mem), ..s.store },
                    stack: s.stack.push(Value::I32(v)),
                    ..at_cursor(spent(s, 5), 6)
                },
            )
            &&& mem.len() == s.store.mems[a].len()
            &&& read_i32(mem, at) == v
            &&& forall|j: int|
                0 <= j < mem.len() && !(at <= j < at + 4) ==> mem[j] == s.store.mems[a][j]
        }),
{
    let a = memory_address(s)->Ok_0 as int;
    let at = effective_address(addr, m.offset);
    let mem = write_i32(s.store.mems[a], at, v);
    let store = StoreView { mems: s.store.mems.update(a, mem), ..s.store };
    let code = store_then_load(addr, v, m);
    let st1 = s.stack.push(Value::I32(addr));
    let st2 = st1.push(Value::I32(v));
    let t1 = State { stack: st1, ..at_cursor(spent(s, 1), 1) };
    let t2 = State { stack: st2, ..at_cursor(spent(s, 2), 2) };
    let t3 = State { store, ..at_cursor(spent(s, 3), 3) };
    let t4 = State { store, stack: st1, ..at_cursor(spent(s, 4), 4) };
    let t5 = State { store, stack: s.stack.push(Value::I32(v)), ..at_cursor(spent(s, 5), 5) };
    lemma_le_bytes_round_trip(v);

    lemma_turn(s);
    lemma_advance_in_function(spent(s, 1));
    assert(step(spent(s, 1), code[0]) == Ok::<State, Trap>(t1));

    lemma_turn(t1);
    lemma_advance_in_function(spent(t1, 1));
    assert(at_cursor(spent(t1, 1), 2).ip =~= t2.ip);
    assert(step(spent(t1, 1), code[1]) == Ok::<State, Trap>(t2));

    lemma_turn(t2);
    lemma_advance_in_function(spent(t2, 1));
    assert(at_cursor(spent(t2, 1), 3).ip =~= t3.ip);
    assert(st2.drop_last() =~= st1);
    assert(st1.drop_last() =~= s.stack);
    assert(step(spent(t2, 1), code[2]) == Ok::<State, Trap>(t3));

    lemma_turn(t3);
    lemma_advance_in_function(spent(t3, 1));
    assert(at_cursor(spent(t3, 1), 4).ip =~= t4.ip);
    assert(step(spent(t3, 1), code[3]) == Ok::<State, Trap>(t4));

    lemma_turn(t4);
    lemma_advance_in_function(spent(t4, 1));
    assert(at_cursor(spent(t4, 1), 5).ip =~= t5.ip);
    assert(step(spent(t4, 1), code[4]) == Ok::<State, Trap>(t5));

    lemma_end_of_function(t5);
    lemma_advance_in_function(t5);
    assert(at_cursor(t5, 6).ip =~= at_cursor(spent(s, 5), 6).ip);
}

/// `local.tee` under the cursor, with fuel left, a value on the operand
/// stack and the local in the current frame: the loop goes on with the
/// value still on top of the stack, the local holding it, the other
/// locals and the store as they were, and the top region moved on.
pub proof fn lemma_run_local_tee(s: State, idx: u32)
    requires
        s.ip.len() > 0,
        s.ip.last().cursor < s.ip.last().instrs.len(),
        s.ip.last().instrs[s.ip.last().cursor as int] == Instruction::LocalTee(idx),
        s.stack.len() > 0,
        local_get_spec(s.frames, idx) is Ok,
        s.fuel > 0,
    ensures
        ({
            let top = s.frames.last();
            let locals = top.locals.update(idx as int, s.stack.last());
            let frames = s.frames.update(
                s.frames.len() - 1,
                super::frame::FrameView { locals, module: top.module },
            );
            &&& run(s) == run(State { frames, ..moved_on(spent(s, 1)) })
            &&& locals[idx as int] == s.stack.last()
            &&& forall|j: int| 0 <= j < locals.len() && j != idx ==> locals[j] == top.locals[j]
        }),
{
    lemma_turn(s);
    assert(s.stack.drop_last().push(s.stack.last()) =~= s.stack);
}

/// `local.tee` run as a function body ends as `local.set` followed by
/// `local.get` does from the same state: with the same result, the same
/// operand stack and frames where both complete, and the same store.
pub proof fn lemma_run_tee_as_set_then_get(tee: State, set: State, idx: u32)
    requires
        starts(tee, seq![Instruction::LocalTee(idx)]),
        starts(set, seq![Instruction::LocalSet(idx), Instruction::LocalGet(idx)]),
        tee.ip.drop_last() == set.ip.drop_last(),
        tee.store == set.store,
        tee.stack == set.stack,
        tee.frames == set.frames,
        tee.modules == set.modules,
        tee.fuel >= 1,
        set.fuel >= 2,
    ensures
        run(tee).1 == run(set).1,
        run(tee).0.store == run(set).0.store,
        run(tee).0.modules == run(set).0.modules,
        run(tee).1 is Ok ==> run(tee).0.stack == run(set).0.stack
            && run(tee).0.frames == run(set).0.frames,
        run(tee).1 is Ok <==> tee.stack.len() > 0 && local_get_spec(tee.frames, idx) is Ok,
{
    lemma_turn(tee);
    lemma_turn(set);
    if tee.stack.len() > 0 && local_get_spec(tee.frames, idx) is Ok {
        let v = tee.stack.last();
        let frames = local_set_spec(tee.frames, idx, v)->Ok_0;
        assert(tee.stack.drop_last().push(v) =~= tee.stack);
        let t1 = State { frames, ..at_cursor(spent(tee, 1), 1) };
        lemma_advance_in_function(spent(tee, 1));
        assert(step(spent(tee, 1), Instruction::LocalTee(idx)) == Ok::<State, Trap>(t1));
        lemma_end_of_function(t1);

        let u1 = State { frames, stack: set.stack.drop_last(), ..at_cursor(spent(set, 1), 1) };
        let u2 = State { frames, ..at_cursor(spent(set, 2), 2) };
        lemma_advance_in_function(spent(set, 1));
        assert(step(spent(set, 1), Instruction::LocalSet(idx)) == Ok::<State, Trap>(u1));
        lemma_turn(u1);
        lemma_advance_in_function(spent(u1, 1));
        assert(at_cursor(spent(u1, 1), 2).ip =~= u2.ip);
        assert(step(spent(u1, 1), Instruction::LocalGet(idx)) == Ok::<State, Trap>(u2));
        lemma_end_of_function(u2);
    }
}

/// Within a region, before its last instruction, the cursor moves on by
/// one.
pub proof fn lemma_advance_inside(s: State)
    requires
        s.ip.len() > 0,
        s.ip.last().cursor + 1 < s.ip.last().instrs.len(),
    ensures
        moved_on(s) == at_cursor(s, (s.ip.last().cursor + 1) as usize),
{
}

/// The body of the block in a function that counts its argument down to
/// zero by calling itself: it leaves the block if the argument is zero,
/// and calls function `fun_idx` of its own module with the argument less
/// one if it is not.
pub open spec fn countdown_body(fun_idx: u32) -> Seq<Instruction> {
    seq![
        Instruction::LocalGet(0),
        Instruction::I32Eqz,
        Instruction::BrIf(0),
        Instruction::LocalGet(0),
        Instruction::I32Const(1),
        Instruction::I32Sub,
        Instruction::Call(fun_idx),
    ]
}

/// Whether function `fun_idx` of module `module_idx` is such a countdown:
/// it belongs to that module, takes one argument, and its body is one
/// block over `countdown_body(fun_idx)`.
pub open spec fn is_countdown(s: State, module_idx: ModuleIdx, fun_idx: u32) -> bool {
    &&& resolve(s, module_idx, fun_idx) matches Ok(addr)
    &&& addr < s.store.funcs.len()
    &&& s.store.funcs[addr as int].module_idx == module_idx
    &&& s.store.funcs[addr as int].fun.ty < s.modules[module_idx as int].types@.len()
    &&& s.modules[module_idx as int].types@[s.store.funcs[addr as int].fun.ty as int].args@.len()
        == 1
    &&& s.store.funcs[addr as int].fun.expr.instrs@.len() == 1
    &&& s.store.funcs[addr as int].fun.expr.instrs@[0] matches Instruction::Block(b)
    &&& b.instrs@ == countdown_body(fun_idx)
}

/// The fuel that a countdown from `n` takes: eight turns for each call
/// but the last, and four for the last.
pub open spec fn countdown_fuel(n: i32) -> int {
    8 * n + 4
}

/// Whether the top region of `s` is the block of a countdown with the
/// cursor at `cursor`, and local 0 of the current frame holds `n`.
pub open spec fn in_countdown(s: State, fun_idx: u32, cursor: usize, n: i32) -> bool {
    &&& s.ip.len() > 0
    &&& s.ip.last().kind is Block
    &&& s.ip.last().instrs == countdown_body(fun_idx)
    &&& s.ip.last().cursor == cursor
    &&& local_get_spec(s.frames, 0) == Ok::<Value, Trap>(Value::I32(n))
}

/// `s` with `stack` as the operand stack.
pub open spec fn with_stack(s: State, stack: Seq<Value>) -> State {
    State { stack, ..s }
}

proof fn lemma_countdown_test(s: State, fun_idx: u32, n: i32)
    requires
        in_countdown(s, fun_idx, 0, n),
        s.fuel >= 2,
    ensures
        run(s) == run(
            with_stack(at_cursor(spent(s, 2), 2), s.stack.push(bool_value(n == 0))),
        ),
{
    let code = countdown_body(fun_idx);
    let t1 = with_stack(at_cursor(spent(s, 1), 1), s.stack.push(Value::I32(n)));
    let t2 = with_stack(at_cursor(spent(s, 2), 2), s.stack.push(bool_value(n == 0)));
    lemma_turn(s);
    lemma_advance_inside(spent(s, 1));
    assert(step(spent(s, 1), code[0]) == Ok::<State, Trap>(t1));
    lemma_turn(t1);
    lemma_advance_inside(spent(t1, 1));
    assert(at_cursor(spent(t1, 1), 2).ip =~= t2.ip);
    assert(t1.stack.drop_last() =~= s.stack);
    assert(step(spent(t1, 1), code[1]) == Ok::<State, Trap>(t2));
}

proof fn lemma_countdown_leave(s: State, fun_idx: u32, n: i32)
    requires
        in_countdown(s, fun_idx, 2, n),
        s.stack.len() > 0,
        s.stack.last() == bool_value(true),
        s.fuel >= 1,
    ensures
        run(s) == run(
            State { stack: s.stack.drop_last(), ip: s.ip.drop_last(), ..spent(s, 1) },
        ),
{
    let code = countdown_body(fun_idx);
    let t = State { stack: s.stack.drop_last(), ip: s.ip.drop_last(), ..spent(s, 1) };
    lemma_turn(s);
    assert(step(spent(s, 1), code[2]) == Ok::<State, Trap>(t));
}

proof fn lemma_countdown_less(s: State, fun_idx: u32, n: i32)
    requires
        in_countdown(s, fun_idx, 2, n),
        s.stack.len() > 0,
        s.stack.last() == bool_value(false),
        n > 0,
        s.fuel >= 4,
    ensures
        run(s) == run(
            with_stack(
                at_cursor(spent(s, 4), 6),
                s.stack.drop_last().push(Value::I32((n - 1) as i32)),
            ),
        ),
{
    let code = countdown_body(fun_idx);
    let base = s.stack.drop_last();
    let t1 = with_stack(at_cursor(spent(s, 1), 3), base);
    let t2 = with_stack(at_cursor(spent(s, 2), 4), base.push(Value::I32(n)));
    lemma_turn(s);
    lemma_advance_inside(spent(s, 1));
    assert(step(spent(s, 1), code[2]) == Ok::<State, Trap>(t1));
    lemma_turn(t1);
    lemma_advance_inside(spent(t1, 1));
    assert(at_cursor(spent(t1, 1), 4).ip =~= t2.ip);
    assert(step(spent(t1, 1), code[3]) == Ok::<State, Trap>(t2));
    lemma_countdown_subtract(s, t2, fun_idx, n);
}

proof fn lemma_countdown_subtract(s: State, t2: State, fun_idx: u32, n: i32)
    requires
        in_countdown(s, fun_idx, 2, n),
        s.stack.len() > 0,
        n > 0,
        s.fuel >= 4,
        t2 == with_stack(at_cursor(spent(s, 2), 4), s.stack.drop_last().push(Value::I32(n))),
    ensures
        run(t2) == run(
            with_stack(
                at_cursor(spent(s, 4), 6),
                s.stack.drop_last().push(Value::I32((n - 1) as i32)),
            ),
        ),
{
    let code = countdown_body(fun_idx);
    let base = s.stack.drop_last();
    let two = base.push(Value::I32(n)).push(Value::I32(1));
    let t3 = with_stack(at_cursor(spent(s, 3), 5), two);
    let t4 = with_stack(at_cursor(spent(s, 4), 6), base.push(Value::I32((n - 1) as i32)));
    lemma_turn(t2);
    lemma_advance_inside(spent(t2, 1));
    assert(at_cursor(spent(t2, 1), 5).ip =~= t3.ip);
    assert(step(spent(t2, 1), code[4]) == Ok::<State, Trap>(t3));
    lemma_turn(t3);
    lemma_advance_inside(spent(t3, 1));
    assert(at_cursor(spent(t3, 1), 6).ip =~= t4.ip);
    assert(two.drop_last() =~= base.push(Value::I32(n)));
    assert(two.drop_last().drop_last() =~= base);
    assert(n.wrapping_sub(1i32) == (n - 1) as i32);
    assert(step(spent(t3, 1), code[5]) == Ok::<State, Trap>(t4));
}

/// One turn of the dispatch loop on a call, with fuel left: the callee is
/// entered and run for what fuel is left, and the loop goes on behind the
/// call.
pub proof fn lemma_turn_call(s: State)
    requires
        s.ip.len() > 0,
        s.ip.last().cursor < s.ip.last().instrs.len(),
        s.fuel > 0,
        s.ip.last().instrs[s.ip.last().cursor as int] is Call,
    ensures
        run(s) == (match begin_call(spent(s, 1), s.ip.last().instrs[s.ip.last().cursor as int]) {
            Ok(entered) => resume(spent(s, 1), finish(entered)),
            Err(t) => trapped(spent(s, 1), t),
        }),
{
}

/// A countdown from any `n` that is not negative returns, given the fuel
/// for its turns: it takes its argument off the operand stack, leaves
/// nothing there, and leaves the frames, the regions and the store as they
/// were.
#[verifier::rlimit(60)]
#[verifier::spinoff_prover]
pub proof fn lemma_countdown_returns(s: State, module_idx: ModuleIdx, fun_idx: u32, n: i32)
    requires
        is_countdown(s, module_idx, fun_idx),
        s.stack.len() > 0,
        s.stack.last() == Value::I32(n),
        n >= 0,
        s.fuel >= countdown_fuel(n),
    ensures
        call_spec(s, module_idx, fun_idx) == done(
            with_stack(spent(s, countdown_fuel(n)), s.stack.drop_last()),
        ),
    decreases n,
{
    let addr = resolve(s, module_idx, fun_idx)->Ok_0;
    let f = s.store.funcs[addr as int];
    let body = f.fun.expr.instrs@;
    let inner = countdown_body(fun_idx);
    let base = s.stack.drop_last();
    let e = enter(s, addr)->Ok_0;
    assert(s.stack.take(s.stack.len() - 1) =~= base);
    assert(s.stack.skip(s.stack.len() - 1)[0] == Value::I32(n));
    assert(e.frames.last().locals[0] == Value::I32(n));
    let block = RegionView { kind: BlockType::Block, instrs: inner, cursor: 0 };
    // the block is entered
    let e1 = State { ip: at_cursor(e, 1).ip.push(block), ..spent(e, 1) };
    lemma_turn(e);
    assert(advance(e.ip) =~= at_cursor(e, 1).ip);
    assert(step(spent(e, 1), body[0]) == Ok::<State, Trap>(e1));
    // the argument is tested
    lemma_countdown_test(e1, fun_idx, n);
    let e3 = with_stack(at_cursor(spent(e1, 2), 2), base.push(bool_value(n == 0)));
    assert(e3.stack.drop_last() =~= base);
    let after = with_stack(at_cursor(spent(e, countdown_fuel(n)), 1), base);
    if n == 0 {
        lemma_countdown_leave(e3, fun_idx, n);
        assert(e3.ip.drop_last() =~= at_cursor(e, 1).ip);
    } else {
        lemma_countdown_less(e3, fun_idx, n);
        let less = (n - 1) as i32;
        let e7 = with_stack(at_cursor(spent(e3, 4), 6), base.push(Value::I32(less)));
        let e8 = spent(e7, 1);
        lemma_turn_call(e7);
        assert(e8.stack.drop_last() =~= base);
        lemma_countdown_returns(e8, module_idx, fun_idx, less);
        let called = invoke(e8, addr);
        assert(begin_call(e8, inner[6]) == enter(e8, addr));
        assert(run(e7) == resume(e8, called));
        assert(advance(e7.ip) =~= at_cursor(e, 1).ip);
        assert(moved_on(called.0) == after);
    }
    assert(run(e) == run(after));
    // the function body is at its end
    lemma_end_of_function(after);
    assert(advance(after.ip) =~= at_cursor(e, 2).ip);
    assert(unwind(at_cursor(e, 2).ip) =~= s.ip) by {
        assert(at_cursor(e, 2).ip.drop_last() =~= s.ip);
    }
    assert(e.frames.drop_last() =~= s.frames);
    assert(finish(e) == done(leave(moved_on(after))));
}

} // verus!
