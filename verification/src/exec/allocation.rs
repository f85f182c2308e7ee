//! What allocating a module makes of the runtime.

use vstd::prelude::*;
use super::const_expr::{const_expr_spec, ConstExpr};
use super::model::State;
use super::store::{Addr, Func, Global, ModuleIdx, Store};
use super::value::Value;
use super::{Module, PAGE_SIZE, UNRESOLVED};
use crate::parser::types::{Fun, Import, ImportDesc, Limits, Mutability, Table};

verus! {

/// Why a module could not be allocated. Each variant names the element of
/// the module that is at fault.
#[derive(Clone, Copy, Debug, PartialEq, Eq, Structural)]
pub enum AllocError {
    /// The module declares more than one memory.
    TooManyMemories { declared: usize },
    /// The memory's minimum size, in bytes, is more than the machine can
    /// address.
    MemoryTooLarge { pages: u32 },
    /// The initializer of the global with this position among the module's
    /// own globals is not a constant expression.
    NotConstant { global: usize },
    /// The initializer of the global with this position reads an imported
    /// global, and imported globals are not linked.
    ImportedGlobal { global: usize },
    /// The store has no addresses left for the module's entries.
    StoreFull,
}

/// The number of function imports among `imports`.
pub open spec fn func_imports(imports: Seq<Import>) -> nat
    decreases imports.len(),
{
    if imports.len() == 0 {
        0
    } else {
        func_imports(imports.drop_last()) + (if imports.last().desc is Func {
            1nat
        } else {
            0nat
        })
    }
}

/// The number of global imports among `imports`.
pub open spec fn global_imports(imports: Seq<Import>) -> nat
    decreases imports.len(),
{
    if imports.len() == 0 {
        0
    } else {
        global_imports(imports.drop_last()) + (if imports.last().desc is Global {
            1nat
        } else {
            0nat
        })
    }
}

/// The value that a global's initializer gives, where it is a literal.
pub open spec fn init_value(g: crate::parser::types::Global, imported_globals: nat) -> Option<
    Value,
> {
    match const_expr_spec(g.expr.instrs@, imported_globals) {
        Some(ConstExpr::Const(v)) => Some(v),
        _ => None,
    }
}

/// What is wrong with the initializer of the global at position `at`,
/// where it gives no value.
pub open spec fn init_error(
    g: crate::parser::types::Global,
    imported_globals: nat,
    at: usize,
) -> AllocError {
    match const_expr_spec(g.expr.instrs@, imported_globals) {
        Some(ConstExpr::GlobalGet(_)) => AllocError::ImportedGlobal { global: at },
        _ => AllocError::NotConstant { global: at },
    }
}

/// The position of the first global from `from` on whose initializer
/// gives no value.
pub open spec fn first_bad_global(
    globals: Seq<crate::parser::types::Global>,
    imported_globals: nat,
    from: int,
) -> Option<int>
    decreases globals.len() - from,
{
    if from < 0 || from >= globals.len() {
        None
    } else if init_value(globals[from], imported_globals) is None {
        Some(from)
    } else {
        first_bad_global(globals, imported_globals, from + 1)
    }
}

/// The size in bytes of a memory with these limits when it is allocated.
pub open spec fn memory_bytes(limits: Limits) -> int {
    limits.min * PAGE_SIZE
}

/// Whether `count` more entries fit behind `len` with all addresses below
/// the one that stands for an unresolved import.
pub open spec fn fits(len: nat, count: nat) -> bool {
    len + count <= UNRESOLVED
}

/// Why `m` cannot be allocated in `s`, if it cannot. The checks are made in
/// this order: the number of memories, the size of the memory, the
/// initializers of the globals from the first on, the room in the store.
pub open spec fn alloc_error(s: State, m: crate::parser::types::Module) -> Option<AllocError> {
    let imported = global_imports(m.imports@);
    if m.mem_addrs@.len() > 1 {
        Some(AllocError::TooManyMemories { declared: m.mem_addrs@.len() as usize })
    } else if m.mem_addrs@.len() == 1 && memory_bytes(m.mem_addrs@[0]) > usize::MAX {
        Some(AllocError::MemoryTooLarge { pages: m.mem_addrs@[0].min })
    } else {
        match first_bad_global(m.globals@, imported, 0) {
            Some(at) => Some(init_error(m.globals@[at], imported, at as usize)),
            None => if fits(s.store.funcs.len(), m.funs@.len()) && fits(
                s.store.tables.len(),
                m.tables@.len(),
            ) && fits(s.store.mems.len(), m.mem_addrs@.len()) && fits(
                s.store.globals.len(),
                m.globals@.len(),
            ) {
                None
            } else {
                Some(AllocError::StoreFull)
            },
        }
    }
}

/// `count` consecutive addresses from `first` on.
pub open spec fn addresses(first: nat, count: nat) -> Seq<Addr> {
    Seq::new(count, |i: int| (first + i) as Addr)
}

/// The function records for `funs` as functions of module `module_idx`.
pub open spec fn new_funcs(module_idx: ModuleIdx, funs: Seq<Fun>) -> Seq<Func> {
    Seq::new(funs.len(), |i: int| Func { module_idx, fun: funs[i] })
}

/// The tables for `tables`: each with as many empty slots as its declared
/// minimum.
pub open spec fn new_tables(tables: Seq<Table>) -> Seq<Seq<Option<Addr>>> {
    Seq::new(
        tables.len(),
        |i: int| Seq::new(tables[i].limits.min as nat, |k: int| None::<Addr>),
    )
}

/// The memories for `mems`: each zero-filled, of its declared minimum
/// number of pages.
pub open spec fn new_mems(mems: Seq<Limits>) -> Seq<Seq<u8>> {
    Seq::new(mems.len(), |i: int| Seq::new(memory_bytes(mems[i]) as nat, |k: int| 0u8))
}

/// The globals for `globals`: each with the value of its initializer and
/// its declared mutability.
pub open spec fn new_globals(
    globals: Seq<crate::parser::types::Global>,
    imported_globals: nat,
) -> Seq<Global> {
    Seq::new(
        globals.len(),
        |i: int|
            Global {
                value: init_value(globals[i], imported_globals)->Some_0,
                mutable: globals[i].ty.mut_ == Mutability::Var,
            },
    )
}

/// Whether `inst` is the instance of `m` allocated in `pre`: it has the
/// module's types, exports and start function, and its address tables give
/// each index the address at which the entry was appended to the store.
/// Function imports come first in the function index space; each has the
/// unresolved address.
pub open spec fn is_instance(inst: Module, pre: State, m: crate::parser::types::Module) -> bool {
    &&& inst.types == m.types
    &&& inst.exports == m.exports
    &&& inst.start == m.start
    &&& inst.func_addrs@ == Seq::new(func_imports(m.imports@), |i: int| UNRESOLVED) + addresses(
        pre.store.funcs.len(),
        m.funs@.len(),
    )
    &&& inst.table_addrs@ == addresses(pre.store.tables.len(), m.tables@.len())
    &&& inst.mem_addrs@ == addresses(pre.store.mems.len(), m.mem_addrs@.len())
    &&& inst.global_addrs@ == addresses(pre.store.globals.len(), m.globals@.len())
}

/// Whether `post` is `pre` with `m` allocated in it: the module's entries
/// are appended to the store, its instance is appended to the module list,
/// and nothing else has changed.
pub open spec fn allocated(pre: State, m: crate::parser::types::Module, post: State) -> bool {
    &&& post.store.funcs == pre.store.funcs + new_funcs(pre.modules.len() as usize, m.funs@)
    &&& post.store.tables == pre.store.tables + new_tables(m.tables@)
    &&& post.store.mems == pre.store.mems + new_mems(m.mem_addrs@)
    &&& post.store.globals == pre.store.globals + new_globals(
        m.globals@,
        global_imports(m.imports@),
    )
    &&& post.modules.len() == pre.modules.len() + 1
    &&& post.modules.drop_last() == pre.modules
    &&& is_instance(post.modules.last(), pre, m)
    &&& post.stack == pre.stack
    &&& post.frames == pre.frames
    &&& post.ip == pre.ip
    &&& post.fuel == pre.fuel
}

/// Whether the store and the modules fit together: every address in a
/// module's tables is the address of an entry, or, for a function, the
/// unresolved address; every function belongs to a module of the runtime;
/// and every memory is a whole number of pages long.
pub open spec fn well_formed(s: State) -> bool {
    &&& forall|m: int, i: int|
        0 <= m < s.modules.len() && 0 <= i < s.modules[m].func_addrs@.len() ==> {
            ||| #[trigger] s.modules[m].func_addrs@[i] == UNRESOLVED
            ||| s.modules[m].func_addrs@[i] < s.store.funcs.len()
        }
    &&& forall|m: int, i: int|
        0 <= m < s.modules.len() && 0 <= i < s.modules[m].table_addrs@.len()
            ==> #[trigger] s.modules[m].table_addrs@[i] < s.store.tables.len()
    &&& forall|m: int, i: int|
        0 <= m < s.modules.len() && 0 <= i < s.modules[m].mem_addrs@.len()
            ==> #[trigger] s.modules[m].mem_addrs@[i] < s.store.mems.len()
    &&& forall|m: int, i: int|
        0 <= m < s.modules.len() && 0 <= i < s.modules[m].global_addrs@.len()
            ==> #[trigger] s.modules[m].global_addrs@[i] < s.store.globals.len()
    &&& forall|a: int|
        0 <= a < s.store.funcs.len() ==> #[trigger] s.store.funcs[a].module_idx < s.modules.len()
    &&& forall|a: int|
        0 <= a < s.store.mems.len() ==> #[trigger] s.store.mems[a].len() % (PAGE_SIZE as nat) == 0
}

/// The number of global imports among `imports`.
pub(crate) fn count_global_imports(imports: &Vec<Import>) -> (n: usize)
    ensures
        n == global_imports(imports@),
{
    let mut n: usize = 0;
    let mut i: usize = 0;
    while i < imports.len()
        invariant
            i <= imports.len(),
            n <= i,
            n == global_imports(imports@.take(i as int)),
        decreases imports.len() - i,
    {
        assert(imports@.take(i + 1).drop_last() =~= imports@.take(i as int));
        match imports[i].desc {
            ImportDesc::Global(_) => {
                n = n + 1;
            },
            _ => {},
        }
        i = i + 1;
    }
    assert(imports@.take(i as int) =~= imports@);
    n
}

/// The start of a module's function address table: the unresolved address
/// for each function import among `imports`.
pub(crate) fn unresolved_functions(imports: &Vec<Import>) -> (addrs: Vec<Addr>)
    ensures
        addrs@ == Seq::new(func_imports(imports@), |i: int| UNRESOLVED),
{
    let mut addrs: Vec<Addr> = Vec::new();
    let mut i: usize = 0;
    while i < imports.len()
        invariant
            i <= imports.len(),
            addrs@ == Seq::new(func_imports(imports@.take(i as int)), |k: int| UNRESOLVED),
        decreases imports.len() - i,
    {
        assert(imports@.take(i + 1).drop_last() =~= imports@.take(i as int));
        match imports[i].desc {
            ImportDesc::Func(_) => {
                addrs.push(UNRESOLVED);
            },
            _ => {},
        }
        i = i + 1;
    }
    assert(imports@.take(i as int) =~= imports@);
    addrs
}

/// The values that the initializers of `globals` give, or what is wrong
/// with the first that gives none.
pub(crate) fn initial_values(globals: &Vec<crate::parser::types::Global>, imported_globals: usize) -> (r:
    Result<Vec<Value>, AllocError>)
    ensures
        match first_bad_global(globals@, imported_globals as nat, 0) {
            Some(at) => r == Err::<Vec<Value>, AllocError>(
                init_error(globals@[at], imported_globals as nat, at as usize),
            ),
            None => r is Ok && r->Ok_0@ == Seq::new(
                globals@.len(),
                |i: int| init_value(globals@[i], imported_globals as nat)->Some_0,
            ),
        },
{
    let mut values: Vec<Value> = Vec::new();
    let mut i: usize = 0;
    while i < globals.len()
        invariant
            i <= globals.len(),
            first_bad_global(globals@, imported_globals as nat, 0) == first_bad_global(
                globals@,
                imported_globals as nat,
                i as int,
            ),
            values@ == Seq::new(
                i as nat,
                |k: int| init_value(globals@[k], imported_globals as nat)->Some_0,
            ),
        decreases globals.len() - i,
    {
        match ConstExpr::from_expr(&globals[i].expr, imported_globals) {
            Some(ConstExpr::Const(v)) => {
                values.push(v);
            },
            Some(ConstExpr::GlobalGet(_)) => {
                return Err(AllocError::ImportedGlobal { global: i });
            },
            None => {
                return Err(AllocError::NotConstant { global: i });
            },
        }
        i = i + 1;
    }
    Ok(values)
}

impl Store {
    /// Appends `funs` as functions of module `module_idx` and returns their
    /// addresses.
    pub(crate) fn add_functions(&mut self, module_idx: ModuleIdx, funs: Vec<Fun>) -> (addrs: Vec<Addr>)
        requires
            fits(old(self).funcs@.len(), funs@.len()),
        ensures
            final(self).funcs@ == old(self).funcs@ + new_funcs(module_idx, funs@),
            addrs@ == addresses(old(self).funcs@.len(), funs@.len()),
            final(self).tables == old(self).tables,
            final(self).mems == old(self).mems,
            final(self).globals == old(self).globals,
    {
        let mut addrs: Vec<Addr> = Vec::new();
        let ghost first = self.funcs@.len();
        for fun in it: funs.into_iter()
            invariant
                first == old(self).funcs@.len(),
                fits(first, funs@.len()),
                self.funcs@ == old(self).funcs@ + new_funcs(module_idx, funs@.take(it.index())),
                addrs@ == addresses(first, it.index() as nat),
                self.tables == old(self).tables,
                self.mems == old(self).mems,
                self.globals == old(self).globals,
        {
            let addr: usize = self.funcs.len();
            self.funcs.push(Func { module_idx, fun });
            addrs.push(addr as Addr);
            assert(self.funcs@ =~= old(self).funcs@ + new_funcs(
                module_idx,
                funs@.take(it.index() + 1),
            ));
            assert(addrs@ =~= addresses(first, (it.index() + 1) as nat));
        }
        assert(funs@.take(funs@.len() as int) =~= funs@);
        addrs
    }

    /// Appends a table for each of `tables` and returns their addresses.
    pub(crate) fn add_tables(&mut self, tables: &Vec<Table>) -> (addrs: Vec<Addr>)
        requires
            fits(old(self).tables@.len(), tables@.len()),
        ensures
            final(self)@.tables == old(self)@.tables + new_tables(tables@),
            addrs@ == addresses(old(self).tables@.len(), tables@.len()),
            final(self).funcs == old(self).funcs,
            final(self).mems == old(self).mems,
            final(self).globals == old(self).globals,
    {
        let mut addrs: Vec<Addr> = Vec::new();
        let ghost first = self.tables@.len();
        let mut i: usize = 0;
        while i < tables.len()
            invariant
                i <= tables.len(),
                first == old(self).tables@.len(),
                fits(first, tables@.len()),
                self@.tables == old(self)@.tables + new_tables(tables@.take(i as int)),
                addrs@ == addresses(first, i as nat),
                self.funcs == old(self).funcs,
                self.mems == old(self).mems,
                self.globals == old(self).globals,
            decreases tables.len() - i,
        {
            let ghost before = self@.tables;
            let addr: usize = self.tables.len();
            let slots: Vec<Option<Addr>> = vec![None; tables[i].limits.min as usize];
            assert(slots@ =~= Seq::new(tables@[i as int].limits.min as nat, |k: int| None::<Addr>));
            self.tables.push(slots);
            addrs.push(addr as Addr);
            assert(self@.tables =~= before.push(slots@));
            assert(new_tables(tables@.take(i + 1)) =~= new_tables(tables@.take(i as int)).push(
                slots@,
            ));
            assert(self@.tables =~= old(self)@.tables + new_tables(tables@.take(i + 1)));
            assert(addrs@ =~= addresses(first, (i + 1) as nat));
            i = i + 1;
        }
        assert(tables@.take(i as int) =~= tables@);
        addrs
    }

    /// Appends a zero-filled memory for each of `mems` and returns their
    /// addresses.
    pub(crate) fn add_memories(&mut self, mems: &Vec<Limits>) -> (addrs: Vec<Addr>)
        requires
            fits(old(self).mems@.len(), mems@.len()),
            forall|i: int| 0 <= i < mems@.len() ==> memory_bytes(#[trigger] mems@[i]) <= usize::MAX,
        ensures
            final(self)@.mems == old(self)@.mems + new_mems(mems@),
            addrs@ == addresses(old(self).mems@.len(), mems@.len()),
            final(self).funcs == old(self).funcs,
            final(self).tables == old(self).tables,
            final(self).globals == old(self).globals,
    {
        let mut addrs: Vec<Addr> = Vec::new();
        let ghost first = self.mems@.len();
        let mut i: usize = 0;
        while i < mems.len()
            invariant
                i <= mems.len(),
                first == old(self).mems@.len(),
                fits(first, mems@.len()),
                forall|i: int|
                    0 <= i < mems@.len() ==> memory_bytes(#[trigger] mems@[i]) <= usize::MAX,
                self@.mems == old(self)@.mems + new_mems(mems@.take(i as int)),
                addrs@ == addresses(first, i as nat),
                self.funcs == old(self).funcs,
                self.tables == old(self).tables,
                self.globals == old(self).globals,
            decreases mems.len() - i,
        {
            let ghost before = self@.mems;
            let addr: usize = self.mems.len();
            assert(memory_bytes(mems@[i as int]) <= usize::MAX);
            let bytes: Vec<u8> = vec![0u8; mems[i].min as usize * PAGE_SIZE];
            assert(bytes@ =~= Seq::new(memory_bytes(mems@[i as int]) as nat, |k: int| 0u8));
            self.mems.push(bytes);
            addrs.push(addr as Addr);
            assert(self@.mems =~= before.push(bytes@));
            assert(new_mems(mems@.take(i + 1)) =~= new_mems(mems@.take(i as int)).push(bytes@));
            assert(self@.mems =~= old(self)@.mems + new_mems(mems@.take(i + 1)));
            assert(addrs@ =~= addresses(first, (i + 1) as nat));
            i = i + 1;
        }
        assert(mems@.take(i as int) =~= mems@);
        addrs
    }

    /// Appends a global for each of `globals`, with `values` as their
    /// values, and returns their addresses.
    pub(crate) fn add_globals(
        &mut self,
        globals: &Vec<crate::parser::types::Global>,
        values: &Vec<Value>,
    ) -> (addrs: Vec<Addr>)
        requires
            fits(old(self).globals@.len(), globals@.len()),
            values@.len() == globals@.len(),
        ensures
            final(self).globals@ == old(self).globals@ + Seq::new(
                globals@.len(),
                |i: int|
                    Global {
                        value: values@[i],
                        mutable: globals@[i].ty.mut_ == Mutability::Var,
                    },
            ),
            addrs@ == addresses(old(self).globals@.len(), globals@.len()),
            final(self).funcs == old(self).funcs,
            final(self).tables == old(self).tables,
            final(self).mems == old(self).mems,
    {
        let mut addrs: Vec<Addr> = Vec::new();
        let ghost first = self.globals@.len();
        let mut i: usize = 0;
        while i < globals.len()
            invariant
                i <= globals.len(),
                first == old(self).globals@.len(),
                fits(first, globals@.len()),
                values@.len() == globals@.len(),
                self.globals@ == old(self).globals@ + Seq::new(
                    i as nat,
                    |k: int|
                        Global {
                            value: values@[k],
                            mutable: globals@[k].ty.mut_ == Mutability::Var,
                        },
                ),
                addrs@ == addresses(first, i as nat),
                self.funcs == old(self).funcs,
                self.tables == old(self).tables,
                self.mems == old(self).mems,
            decreases globals.len() - i,
        {
            let addr: usize = self.globals.len();
            let mutable: bool = globals[i].ty.mut_ == Mutability::Var;
            self.globals.push(Global { value: values[i], mutable });
            addrs.push(addr as Addr);
            assert(addrs@ =~= addresses(first, (i + 1) as nat));
            i = i + 1;
        }
        addrs
    }
}

} // verus!
