//! The runtime and its entry points.

pub mod allocation;
pub mod const_expr;
pub mod frame;
pub mod laws;
pub mod model;
pub mod runs;
pub mod stack;
pub mod store;
pub mod trap;
pub mod value;

use vstd::prelude::*;
use std::rc::Rc;
use crate::parser::types::{Export, FuncIdx, FuncType, Instruction};
use allocation::{
    alloc_error, allocated, count_global_imports, fits, initial_values, unresolved_functions,
    well_formed, AllocError,
};
use frame::{Frame, FrameStack};
use model::{
    advance, begin_call, branch, call_spec, direct_callee, enter, finish, indirect_callee, invoke,
    leave, resolve, resume, run, stable, step, trapped, unwind, RegionView, State,
};
use stack::Stack;
use store::{Addr, ModuleIdx, Store};
use trap::Trap;
use value::Value;

verus! {

/// The size of a memory page in bytes.
pub const PAGE_SIZE: usize = 65536;

/// The address that stands in a module's function table for an import that
/// no function was linked to.
pub const UNRESOLVED: Addr = 0xffff_ffff;

/// An instantiated module: for each index space the store address behind
/// each index, and the module's type table, exports and start function.
#[derive(Debug)]
pub struct Module {
    pub types: Vec<FuncType>,
    pub func_addrs: Vec<Addr>,
    pub table_addrs: Vec<Addr>,
    pub mem_addrs: Vec<Addr>,
    pub global_addrs: Vec<Addr>,
    pub exports: Vec<Export>,
    pub start: Option<FuncIdx>,
}

impl Default for Module {
    fn default() -> (m: Module)
        ensures
            m.types@.len() == 0,
            m.func_addrs@.len() == 0,
            m.table_addrs@.len() == 0,
            m.mem_addrs@.len() == 0,
            m.global_addrs@.len() == 0,
            m.exports@.len() == 0,
            m.start is None,
    {
        Module {
            types: Vec::new(),
            func_addrs: Vec::new(),
            table_addrs: Vec::new(),
            mem_addrs: Vec::new(),
            global_addrs: Vec::new(),
            exports: Vec::new(),
            start: None,
        }
    }
}

/// The kind of a region on the control stack.
#[derive(Clone, Copy, Debug, PartialEq, Eq, Structural)]
pub enum BlockType {
    /// The body of a `block`.
    Block,
    /// The body of a `loop`.
    Loop,
    /// The body of a function.
    Function,
}

/// One entry of the control stack.
#[derive(Debug)]
pub struct Region {
    pub kind: BlockType,
    /// The region's code, shared with the instruction that holds it.
    pub instrs: Rc<Vec<Instruction>>,
    /// The offset of the instruction that runs next.
    pub cursor: usize,
}

impl View for Region {
    type V = RegionView;

    open spec fn view(&self) -> RegionView {
        RegionView { kind: self.kind, instrs: self.instrs@, cursor: self.cursor }
    }
}

/// The runtime: the store, the modules allocated in it, and the three
/// stacks of the machine.
#[derive(Debug)]
pub struct Runtime {
    pub store: Store,
    pub stack: Stack,
    pub frames: FrameStack,
    pub modules: Vec<Module>,
    /// The control stack, the innermost region last.
    pub ip: Vec<Region>,
    /// How many more steps the dispatch loop may take before it traps.
    pub fuel: u64,
}

impl View for Runtime {
    type V = State;

    open spec fn view(&self) -> State {
        State {
            store: self.store@,
            stack: self.stack@,
            frames: self.frames@,
            modules: self.modules@,
            ip: Seq::new(self.ip@.len(), |i: int| self.ip@[i]@),
            fuel: self.fuel,
        }
    }
}

impl Default for Runtime {
    /// An empty runtime with the largest budget there is.
    fn default() -> (rt: Runtime)
        ensures
            rt.store.funcs@.len() == 0,
            rt.store.tables@.len() == 0,
            rt.store.mems@.len() == 0,
            rt.store.globals@.len() == 0,
            rt.stack@.len() == 0,
            rt.frames@.len() == 0,
            rt.modules@.len() == 0,
            rt.ip@.len() == 0,
            rt.fuel == u64::MAX,
            well_formed(rt@),
    {
        Runtime {
            store: Store::default(),
            stack: Stack::default(),
            frames: FrameStack::default(),
            modules: Vec::new(),
            ip: Vec::new(),
            fuel: u64::MAX,
        }
    }
}

/// `Rc::clone`: another handle to the same code. The result is equal to
/// the argument, since no code is copied or changed.
#[verifier::external_body]
fn share(code: &Rc<Vec<Instruction>>) -> (r: Rc<Vec<Instruction>>)
    ensures
        r == *code,
{
    Rc::clone(code)
}

impl Runtime {
    /// The module at `idx`.
    pub fn get_module(&self, idx: ModuleIdx) -> (m: &Module)
        requires
            idx < self.modules@.len(),
        ensures
            *m == self.modules@[idx as int],
    {
        &self.modules[idx]
    }

    /// The start function that the module at `idx` declares, if any.
    pub fn get_module_start(&self, idx: ModuleIdx) -> (start: Option<FuncIdx>)
        requires
            idx < self.modules@.len(),
        ensures
            start == self.modules@[idx as int].start,
    {
        self.modules[idx].start
    }

    /// Moves the top region of the control stack on by one instruction.
    pub fn next_instr(&mut self)
        ensures
            final(self)@ == (State { ip: advance(old(self)@.ip), ..old(self)@ }),
    {
        let n: usize = self.ip.len();
        if n > 0 {
            let cursor: usize = self.ip[n - 1].cursor;
            let len: usize = self.ip[n - 1].instrs.len();
            if cursor < usize::MAX && cursor + 1 < len {
                self.ip[n - 1].cursor = cursor + 1;
            } else {
                match self.ip[n - 1].kind {
                    BlockType::Function => {
                        if cursor < usize::MAX {
                            self.ip[n - 1].cursor = cursor + 1;
                        }
                    },
                    BlockType::Block => {
                        let _ = self.ip.pop();
                    },
                    BlockType::Loop => {
                        self.ip[n - 1].cursor = 0;
                    },
                }
            }
        }
        assert(self@.ip =~= advance(old(self)@.ip));
    }

    /// The address of the current module's memory.
    fn memory_address(&self) -> (r: Result<Addr, Trap>)
        ensures
            r == model::memory_address(self@),
    {
        let m: usize = self.frames.current_module()?;
        if m >= self.modules.len() {
            return Err(Trap::InvalidModule);
        }
        if self.modules[m].mem_addrs.len() == 0 {
            return Err(Trap::NoMemory);
        }
        Ok(self.modules[m].mem_addrs[0])
    }

    /// The address of global `idx` of the current module.
    fn global_address(&self, idx: u32) -> (r: Result<Addr, Trap>)
        ensures
            r == model::global_address(self@, idx),
    {
        let m: usize = self.frames.current_module()?;
        if m >= self.modules.len() {
            return Err(Trap::InvalidModule);
        }
        if idx as usize >= self.modules[m].global_addrs.len() {
            return Err(Trap::InvalidGlobal);
        }
        Ok(self.modules[m].global_addrs[idx as usize])
    }

    /// Enters a nested region: the enclosing region moves on and a region
    /// of `kind` over `body` goes on top.
    fn enter_region(&mut self, kind: BlockType, body: &Rc<Vec<Instruction>>)
        ensures
            final(self)@ == model::step_enter(old(self)@, kind, body@),
    {
        self.next_instr();
        self.ip.push(Region { kind, instrs: share(body), cursor: 0 });
        assert(self@.ip =~= advance(old(self)@.ip).push(
            RegionView { kind, instrs: body@, cursor: 0 },
        ));
    }

    /// Branches to `label`: gives up the regions above the target, and
    /// leaves the target if it is a block or restarts it if it is a loop.
    /// On a trap nothing changes.
    fn branch(&mut self, label: u32) -> (r: Result<(), Trap>)
        ensures
            match branch(old(self)@.ip, label as nat) {
                Ok(ip) => r is Ok && final(self)@ == (State { ip, ..old(self)@ }),
                Err(t) => r == Err::<(), Trap>(t) && final(self)@ == old(self)@,
            },
            final(self).store == old(self).store,
            final(self).modules == old(self).modules,
            final(self).fuel == old(self).fuel,
    {
        proof {
            laws::lemma_branch_closed_form(self@.ip, label as nat);
        }
        let n: usize = self.ip.len();
        let depth: usize = label as usize;
        if depth >= n {
            return Err(Trap::InvalidLabel);
        }
        let mut k: usize = 0;
        while k <= depth
            invariant
                *self == *old(self),
                n == self.ip.len(),
                depth == label,
                depth < n,
                k <= depth + 1,
                forall|j: int| n - k <= j < n ==> !(#[trigger] self@.ip[j].kind is Function),
            decreases depth + 1 - k,
        {
            if self.ip[n - 1 - k].kind == BlockType::Function {
                proof {
                    laws::lemma_branch_closed_form(self@.ip, label as nat);
                    assert(self@.ip[n - 1 - k].kind is Function);
                }
                return Err(Trap::InvalidLabel);
            }
            k = k + 1;
        }
        proof {
            laws::lemma_branch_closed_form(self@.ip, label as nat);
        }
        let target: usize = n - 1 - depth;
        let ghost before = self@.ip;
        if self.ip[target].kind == BlockType::Loop {
            self.ip.truncate(target + 1);
            self.ip[target].cursor = 0;
            assert(self@.ip =~= before.take(target + 1).update(
                target as int,
                RegionView { cursor: 0, ..before[target as int] },
            ));
        } else {
            self.ip.truncate(target);
            assert(self@.ip =~= before.take(target as int));
        }
        Ok(())
    }

    /// The store address of function `fun_idx` of module `module_idx`.
    fn resolve(&self, module_idx: ModuleIdx, fun_idx: u32) -> (r: Result<Addr, Trap>)
        ensures
            r == resolve(self@, module_idx, fun_idx),
    {
        if module_idx >= self.modules.len() {
            return Err(Trap::InvalidModule);
        }
        let module = &self.modules[module_idx];
        if fun_idx as usize >= module.func_addrs.len() {
            return Err(Trap::InvalidFunction);
        }
        let addr: Addr = module.func_addrs[fun_idx as usize];
        if addr == UNRESOLVED {
            return Err(Trap::UnresolvedImport);
        }
        Ok(addr)
    }

    /// The callee of `call fun_idx`.
    fn direct_callee(&self, fun_idx: u32) -> (r: Result<Addr, Trap>)
        ensures
            r == direct_callee(self@, fun_idx),
    {
        let m: usize = self.frames.current_module()?;
        self.resolve(m, fun_idx)
    }

    /// What the slot `index` of the table at `table` holds, where it holds
    /// a function that was declared with type index `ty`.
    fn table_lookup(&self, table: usize, index: i32, ty: u32) -> (r: Result<Addr, Trap>)
        requires
            table < self.store.tables@.len(),
        ensures
            r == model::table_lookup(self@.store, table as int, index, ty),
    {
        let slot: usize = (index as u32) as usize;
        let slots = &self.store.tables[table];
        if slot >= slots.len() {
            return Err(Trap::TableOutOfBounds);
        }
        match slots[slot] {
            None => Err(Trap::UninitializedElement),
            Some(addr) => {
                if addr as usize >= self.store.funcs.len() {
                    return Err(Trap::InvalidFunction);
                }
                if self.store.funcs[addr as usize].fun.ty != ty {
                    return Err(Trap::IndirectCallTypeMismatch);
                }
                Ok(addr)
            },
        }
    }

    /// The callee of `call_indirect ty`, and the table index, which is
    /// popped. On a trap nothing changes.
    fn indirect_callee(&mut self, ty: u32) -> (r: Result<(Addr, i32), Trap>)
        ensures
            match indirect_callee(old(self)@, ty) {
                Ok((addr, rest)) => r is Ok && r->Ok_0.0 == addr && old(self)@.stack == rest.push(
                    Value::I32(r->Ok_0.1),
                ) && final(self)@ == (State { stack: rest, ..old(self)@ }),
                Err(t) => r == Err::<(Addr, i32), Trap>(t) && final(self)@ == old(self)@,
            },
            final(self).store == old(self).store,
            final(self).modules == old(self).modules,
            final(self).fuel == old(self).fuel,
    {
        let m: usize = self.frames.current_module()?;
        if m >= self.modules.len() {
            return Err(Trap::InvalidModule);
        }
        if self.modules[m].table_addrs.len() == 0 {
            return Err(Trap::NoTable);
        }
        let table: usize = self.modules[m].table_addrs[0] as usize;
        if table >= self.store.tables.len() {
            return Err(Trap::NoTable);
        }
        let index: i32 = self.stack.pop_i32()?;
        assert(old(self)@.stack =~= self@.stack.push(Value::I32(index)));
        match self.table_lookup(table, index, ty) {
            Ok(addr) => Ok((addr, index)),
            Err(t) => {
                self.stack.push_i32(index);
                Err(t)
            },
        }
    }

    /// Sets the machine up for the function at `addr`: takes its arguments
    /// off the operand stack into a new frame and pushes a region over its
    /// body. On a trap nothing changes.
    fn enter(&mut self, addr: Addr) -> (r: Result<(), Trap>)
        ensures
            match enter(old(self)@, addr) {
                Ok(s) => r is Ok && final(self)@ == s,
                Err(t) => r == Err::<(), Trap>(t) && final(self)@ == old(self)@,
            },
            final(self).store == old(self).store,
            final(self).modules == old(self).modules,
            final(self).fuel == old(self).fuel,
    {
        let a: usize = addr as usize;
        if a >= self.store.funcs.len() {
            return Err(Trap::InvalidFunction);
        }
        let func = &self.store.funcs[a];
        let m: usize = func.module_idx;
        if m >= self.modules.len() {
            return Err(Trap::InvalidModule);
        }
        let ty: usize = func.fun.ty as usize;
        if ty >= self.modules[m].types.len() {
            return Err(Trap::InvalidType);
        }
        let arity: usize = self.modules[m].types[ty].args.len();
        let args: Vec<Value> = self.stack.pop_many(arity)?;
        let frame = Frame::new(m, args, &func.fun.locals);
        let code = share(&func.fun.expr.instrs);
        self.frames.push(frame);
        self.ip.push(Region { kind: BlockType::Function, instrs: code, cursor: 0 });
        assert(self@.ip =~= old(self)@.ip.push(
            RegionView { kind: BlockType::Function, instrs: code@, cursor: 0 },
        ));
        Ok(())
    }

    /// Tears down what `enter` set up: drops the current frame, the regions
    /// left open above the function's own, and the function's region.
    fn leave(&mut self)
        ensures
            final(self)@ == leave(old(self)@),
            final(self).store == old(self).store,
            final(self).modules == old(self).modules,
            final(self).fuel == old(self).fuel,
    {
        self.frames.pop();
        loop
            invariant
                unwind(self@.ip) == unwind(old(self)@.ip),
                self.store == old(self).store,
                self.stack == old(self).stack,
                self.frames@ == leave(old(self)@).frames,
                self.modules == old(self).modules,
                self.fuel == old(self).fuel,
            decreases self.ip.len(),
        {
            let ghost before = self@.ip;
            let n: usize = self.ip.len();
            if n == 0 {
                return ;
            }
            let kind: BlockType = self.ip[n - 1].kind;
            let _ = self.ip.pop();
            assert(self@.ip =~= before.drop_last());
            if kind == BlockType::Function {
                return ;
            }
        }
    }

    /// Runs the function that was entered to its end: runs the dispatch
    /// loop, and leaves the function where the loop completes.
    fn finish(&mut self) -> (r: Result<(), Trap>)
        ensures
            (final(self)@, r) == finish(old(self)@),
            stable(old(self)@, final(self)@),
            final(self).fuel <= old(self).fuel,
        decreases old(self).fuel, 1int,
    {
        exec(self)?;
        self.leave();
        Ok(())
    }

    /// Runs the function at `addr` to completion: enters it, runs the
    /// dispatch loop, and leaves it.
    ///
    /// Where it completes, the frame stack and the control stack are as
    /// they were. Whatever the outcome, the modules and the layout of the
    /// store are as they were, and the budget has not grown.
    pub fn invoke(&mut self, addr: Addr) -> (r: Result<(), Trap>)
        ensures
            (final(self)@, r) == invoke(old(self)@, addr),
            r is Ok ==> final(self)@.frames == old(self)@.frames
                && final(self)@.ip == old(self)@.ip,
            stable(old(self)@, final(self)@),
            well_formed(old(self)@) ==> well_formed(final(self)@),
            final(self).fuel <= old(self).fuel,
    {
        proof {
            laws::lemma_invoke_restores_stacks(self@, addr);
        }
        self.enter(addr)?;
        let r = self.finish();
        proof {
            if well_formed(old(self)@) {
                laws::lemma_stable_keeps_well_formed(old(self)@, self@);
            }
        }
        r
    }

    /// `local.set`, and `local.tee` where `keep` is set.
    fn local_set(&mut self, idx: u32, keep: bool) -> (r: Result<(), Trap>)
        ensures
            match (if keep {
                model::step_local_tee(old(self)@, idx)
            } else {
                model::step_local_set(old(self)@, idx)
            }) {
                Ok(s) => r is Ok && final(self)@ == s,
                Err(t) => r == Err::<(), Trap>(t) && final(self)@ == old(self)@,
            },
            stable(old(self)@, final(self)@),
            final(self).fuel == old(self).fuel,
    {
        let v: Value = self.stack.pop()?;
        let set = self.frames.set_local(idx, v);
        if keep || set.is_err() {
            self.stack.push(v);
            assert(self@.stack =~= old(self)@.stack);
        }
        set?;
        self.next_instr();
        Ok(())
    }

    /// `global.set`.
    fn global_set(&mut self, idx: u32) -> (r: Result<(), Trap>)
        ensures
            match model::step_global_set(old(self)@, idx) {
                Ok(s) => r is Ok && final(self)@ == s,
                Err(t) => r == Err::<(), Trap>(t) && final(self)@ == old(self)@,
            },
            stable(old(self)@, final(self)@),
            final(self).fuel == old(self).fuel,
    {
        let a: Addr = self.global_address(idx)?;
        let v: Value = self.stack.pop()?;
        if let Err(t) = self.store.global_set(a, v) {
            self.stack.push(v);
            assert(self@.stack =~= old(self)@.stack);
            return Err(t);
        }
        self.next_instr();
        Ok(())
    }

    /// `i32.load`.
    fn i32_load(&mut self, offset: u32) -> (r: Result<(), Trap>)
        ensures
            match model::step_i32_load(old(self)@, offset) {
                Ok(s) => r is Ok && final(self)@ == s,
                Err(t) => r == Err::<(), Trap>(t) && final(self)@ == old(self)@,
            },
            stable(old(self)@, final(self)@),
            final(self).fuel == old(self).fuel,
    {
        let addr: i32 = self.stack.pop_i32()?;
        let loaded = match self.memory_address() {
            Ok(a) => self.store.load_i32(a, addr, offset),
            Err(t) => Err(t),
        };
        match loaded {
            Ok(v) => {
                self.stack.push_i32(v);
                self.next_instr();
                Ok(())
            },
            Err(t) => {
                self.stack.push_i32(addr);
                assert(self@.stack =~= old(self)@.stack);
                Err(t)
            },
        }
    }

    /// `i32.store`.
    fn i32_store(&mut self, offset: u32) -> (r: Result<(), Trap>)
        ensures
            match model::step_i32_store(old(self)@, offset) {
                Ok(s) => r is Ok && final(self)@ == s,
                Err(t) => r == Err::<(), Trap>(t) && final(self)@ == old(self)@,
            },
            stable(old(self)@, final(self)@),
            final(self).fuel == old(self).fuel,
    {
        let (addr, v) = self.stack.pop_i32_pair()?;
        let stored = match self.memory_address() {
            Ok(a) => self.store.store_i32(a, addr, offset, v),
            Err(t) => Err(t),
        };
        if let Err(t) = stored {
            self.stack.push_i32(addr);
            self.stack.push_i32(v);
            assert(self@.stack =~= old(self)@.stack);
            return Err(t);
        }
        self.next_instr();
        Ok(())
    }

    /// `br_if`.
    fn br_if(&mut self, label: u32) -> (r: Result<(), Trap>)
        ensures
            match model::step_br_if(old(self)@, label) {
                Ok(s) => r is Ok && final(self)@ == s,
                Err(t) => r == Err::<(), Trap>(t) && final(self)@ == old(self)@,
            },
            stable(old(self)@, final(self)@),
            final(self).fuel == old(self).fuel,
    {
        let cond: i32 = self.stack.pop_i32()?;
        if cond != 0 {
            if let Err(t) = self.branch(label) {
                self.stack.push_i32(cond);
                assert(self@.stack =~= old(self)@.stack);
                return Err(t);
            }
        } else {
            self.next_instr();
        }
        Ok(())
    }

    /// Executes one instruction other than `call`, `call_indirect` and
    /// `return`. On a trap nothing changes.
    pub fn step(&mut self, instr: &Instruction) -> (r: Result<(), Trap>)
        ensures
            match step(old(self)@, *instr) {
                Ok(s) => r is Ok && final(self)@ == s,
                Err(t) => r == Err::<(), Trap>(t) && final(self)@ == old(self)@,
            },
            stable(old(self)@, final(self)@),
            final(self).fuel == old(self).fuel,
    {
        match instr {
            Instruction::I32Const(i) => {
                self.stack.push_i32(*i);
            },
            Instruction::I64Const(i) => {
                self.stack.push_i64(*i);
            },
            Instruction::F32Const(bits) => {
                self.stack.push_f32(*bits);
            },
            Instruction::F64Const(bits) => {
                self.stack.push_f64(*bits);
            },
            Instruction::LocalGet(idx) => {
                let v: Value = self.frames.get_local(*idx)?;
                self.stack.push(v);
            },
            Instruction::LocalSet(idx) => {
                return self.local_set(*idx, false);
            },
            Instruction::LocalTee(idx) => {
                return self.local_set(*idx, true);
            },
            Instruction::GlobalGet(idx) => {
                let a: Addr = self.global_address(*idx)?;
                let v: Value = self.store.global_get(a)?;
                self.stack.push(v);
            },
            Instruction::GlobalSet(idx) => {
                return self.global_set(*idx);
            },
            Instruction::I32Load(m) => {
                return self.i32_load(m.offset);
            },
            Instruction::I32Store(m) => {
                return self.i32_store(m.offset);
            },
            Instruction::I32Eqz => {
                let v: i32 = self.stack.pop_i32()?;
                self.stack.push_bool(v == 0);
            },
            Instruction::I32LeU => {
                let (left, right) = self.stack.pop_i32_pair()?;
                self.stack.push_bool((left as u32) <= (right as u32));
            },
            Instruction::I32Sub => {
                let (left, right) = self.stack.pop_i32_pair()?;
                self.stack.push_i32(left.wrapping_sub(right));
            },
            Instruction::Block(b) => {
                self.enter_region(BlockType::Block, &b.instrs);
                return Ok(());
            },
            Instruction::Loop(b) => {
                self.enter_region(BlockType::Loop, &b.instrs);
                return Ok(());
            },
            Instruction::BrIf(label) => {
                return self.br_if(*label);
            },
            _ => {
                return Err(Trap::UnsupportedInstruction);
            },
        }
        self.next_instr();
        Ok(())
    }
}

/// Whether `count` more entries fit into a sequence of the store that
/// holds `len`.
fn has_room(len: usize, count: usize) -> (r: bool)
    ensures
        r == fits(len as nat, count as nat),
{
    count <= UNRESOLVED as usize && len <= UNRESOLVED as usize - count
}

/// Allocates `parsed_module` in the runtime and returns the index of the
/// new module.
///
/// The module's functions, tables, memory and globals are appended to the
/// store, and an instance that maps the module's indices to their
/// addresses is appended to the module list. A function import gets a slot
/// with the unresolved address; other imports get nothing. Element and
/// data segments are not applied: tables start empty and memories
/// zero-filled. Where the module cannot be allocated the runtime is
/// unchanged.
pub fn allocate_module(rt: &mut Runtime, parsed_module: crate::parser::types::Module) -> (r:
    Result<ModuleIdx, AllocError>)
    ensures
        match alloc_error(old(rt)@, parsed_module) {
            Some(e) => r == Err::<ModuleIdx, AllocError>(e) && *final(rt) == *old(rt),
            None => r == Ok::<ModuleIdx, AllocError>(old(rt)@.modules.len() as usize)
                && allocated(old(rt)@, parsed_module, final(rt)@),
        },
        well_formed(old(rt)@) ==> well_formed(final(rt)@),
{
    let crate::parser::types::Module {
        types,
        funs,
        tables,
        mem_addrs,
        globals,
        elems: _,
        data: _,
        start,
        imports,
        exports,
    } = parsed_module;
    if mem_addrs.len() > 1 {
        return Err(AllocError::TooManyMemories { declared: mem_addrs.len() });
    }
    if mem_addrs.len() == 1 {
        let pages: u32 = mem_addrs[0].min;
        if pages as u64 * 65536 > usize::MAX as u64 {
            return Err(AllocError::MemoryTooLarge { pages });
        }
    }
    let imported: usize = count_global_imports(&imports);
    let values: Vec<Value> = match initial_values(&globals, imported) {
        Ok(values) => values,
        Err(e) => {
            return Err(e);
        },
    };
    if !(has_room(rt.store.funcs.len(), funs.len()) && has_room(
        rt.store.tables.len(),
        tables.len(),
    ) && has_room(rt.store.mems.len(), mem_addrs.len()) && has_room(
        rt.store.globals.len(),
        globals.len(),
    )) {
        return Err(AllocError::StoreFull);
    }
    let module_idx: usize = rt.modules.len();
    let mut func_addrs: Vec<Addr> = unresolved_functions(&imports);
    let mut own: Vec<Addr> = rt.store.add_functions(module_idx, funs);
    func_addrs.append(&mut own);
    let table_addrs: Vec<Addr> = rt.store.add_tables(&tables);
    let memory_addrs: Vec<Addr> = rt.store.add_memories(&mem_addrs);
    let global_addrs: Vec<Addr> = rt.store.add_globals(&globals, &values);
    rt.modules.push(
        Module {
            types,
            func_addrs,
            table_addrs,
            mem_addrs: memory_addrs,
            global_addrs,
            exports,
            start,
        },
    );
    proof {
        assert(rt@.modules.drop_last() =~= old(rt)@.modules);
        assert(rt@.store.globals =~= old(rt)@.store.globals + allocation::new_globals(
            parsed_module.globals@,
            allocation::global_imports(parsed_module.imports@),
        ));
    }
    Ok(module_idx)
}

/// Runs function `fun_idx` of module `module_idx` to completion.
///
/// The function's arguments are taken from the operand stack and its
/// results are left there. The call works on a frame and on regions of its
/// own: where it completes, the frame stack and the control stack are as
/// they were. Whatever the outcome, the modules and the layout of the store
/// are as they were, and the budget has not grown.
pub fn call(rt: &mut Runtime, module_idx: ModuleIdx, fun_idx: u32) -> (r: Result<(), Trap>)
    ensures
        (final(rt)@, r) == call_spec(old(rt)@, module_idx, fun_idx),
        r is Ok ==> final(rt)@.frames == old(rt)@.frames && final(rt)@.ip == old(rt)@.ip,
        stable(old(rt)@, final(rt)@),
        well_formed(old(rt)@) ==> well_formed(final(rt)@),
        final(rt).fuel <= old(rt).fuel,
{
    let addr: Addr = rt.resolve(module_idx, fun_idx)?;
    rt.invoke(addr)
}

/// The dispatch loop: executes the code on the control stack until the
/// current function is done.
pub fn exec(rt: &mut Runtime) -> (r: Result<(), Trap>)
    ensures
        (final(rt)@, r) == run(old(rt)@),
        stable(old(rt)@, final(rt)@),
        final(rt).fuel <= old(rt).fuel,
    decreases old(rt).fuel, 0int,
{
    loop
        invariant
            run(rt@) == run(old(rt)@),
            stable(old(rt)@, rt@),
            rt.fuel <= old(rt).fuel,
        decreases rt.fuel,
    {
        let ghost s = rt@;
        let n: usize = rt.ip.len();
        if n == 0 {
            return Ok(());
        }
        let code = share(&rt.ip[n - 1].instrs);
        let cursor: usize = rt.ip[n - 1].cursor;
        let done: bool = cursor >= code.len();
        assert(s.ip.last() == rt.ip@[n - 1]@);
        if done && rt.ip[n - 1].kind == BlockType::Function {
            rt.next_instr();
            return Ok(());
        }
        if rt.fuel == 0 {
            return Err(Trap::OutOfFuel);
        }
        rt.fuel = rt.fuel - 1;
        let ghost s1 = rt@;
        assert(s1 == State { fuel: (s.fuel - 1) as u64, ..s });
        if done {
            rt.next_instr();
        } else {
            match &code[cursor] {
                Instruction::Return => {
                    return Ok(());
                },
                Instruction::Call(fun_idx) => {
                    assert(run(s) == match begin_call(s1, Instruction::Call(*fun_idx)) {
                        Err(t) => trapped(s1, t),
                        Ok(entered) => resume(s1, finish(entered)),
                    });
                    let addr: Addr = rt.direct_callee(*fun_idx)?;
                    rt.enter(addr)?;
                    rt.finish()?;
                    rt.next_instr();
                },
                Instruction::CallIndirect(ty) => {
                    assert(run(s) == match begin_call(s1, Instruction::CallIndirect(*ty)) {
                        Err(t) => trapped(s1, t),
                        Ok(entered) => resume(s1, finish(entered)),
                    });
                    let (addr, index) = rt.indirect_callee(*ty)?;
                    if let Err(t) = rt.enter(addr) {
                        rt.stack.push_i32(index);
                        return Err(t);
                    }
                    rt.finish()?;
                    rt.next_instr();
                },
                instr => {
                    assert(run(s) == match step(s1, *instr) {
                        Err(t) => trapped(s1, t),
                        Ok(s2) => run(s2),
                    });
                    rt.step(instr)?;
                },
            }
        }
    }
}

} // verus!
