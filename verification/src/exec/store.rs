//! The store: every function, table, memory and global of the runtime.

use vstd::prelude::*;
use super::trap::Trap;
use super::value::Value;
use crate::parser::types::Fun;

verus! {

/// The position of a module in the runtime's module list.
pub type ModuleIdx = usize;

/// A position in one of the store's sequences: an address. Addresses are
/// unique over the whole runtime, where indices are local to a module.
pub type Addr = u32;

/// A function record: the definition and the module it belongs to.
#[derive(Debug)]
pub struct Func {
    pub module_idx: ModuleIdx,
    pub fun: Fun,
}

/// A global: its current value and whether it may be written.
#[derive(Clone, Copy, Debug, PartialEq, Eq, Structural)]
pub struct Global {
    pub value: Value,
    pub mutable: bool,
}

/// The store. Each sequence is addressed by position. Entries are only ever
/// appended, so an address, once given out, stays valid and means the same
/// entry for as long as the runtime lives.
#[derive(Debug)]
pub struct Store {
    pub funcs: Vec<Func>,
    /// Each table is a sequence of slots; a slot holds a function address
    /// or nothing.
    pub tables: Vec<Vec<Option<Addr>>>,
    pub mems: Vec<Vec<u8>>,
    pub globals: Vec<Global>,
}

/// The store as a mathematical value.
#[verifier::ext_equal]
pub struct StoreView {
    pub funcs: Seq<Func>,
    pub tables: Seq<Seq<Option<Addr>>>,
    pub mems: Seq<Seq<u8>>,
    pub globals: Seq<Global>,
}

impl View for Store {
    type V = StoreView;

    open spec fn view(&self) -> StoreView {
        StoreView {
            funcs: self.funcs@,
            tables: Seq::new(self.tables@.len(), |i: int| self.tables@[i]@),
            mems: Seq::new(self.mems@.len(), |i: int| self.mems@[i]@),
            globals: self.globals@,
        }
    }
}

impl Default for Store {
    /// A store that holds nothing.
    fn default() -> (s: Store)
        ensures
            s.funcs@.len() == 0,
            s.tables@.len() == 0,
            s.mems@.len() == 0,
            s.globals@.len() == 0,
            s@ == (StoreView {
                funcs: Seq::empty(),
                tables: Seq::empty(),
                mems: Seq::empty(),
                globals: Seq::empty(),
            }),
    {
        Store { funcs: Vec::new(), tables: Vec::new(), mems: Vec::new(), globals: Vec::new() }
    }
}

/// Byte `k` of `v` in little-endian order: bits `8k` to `8k + 7`.
pub open spec fn le_byte(v: i32, k: int) -> u8 {
    (((v as u32) >> ((8 * k) as u32)) & 0xff) as u8
}

/// The 32-bit integer whose little-endian bytes are `b0` to `b3`.
pub open spec fn le_i32(b0: u8, b1: u8, b2: u8, b3: u8) -> i32 {
    ((b0 as u32) | ((b1 as u32) << 8u32) | ((b2 as u32) << 16u32) | ((b3 as u32) << 24u32)) as i32
}

/// The address that a memory instruction touches first: the popped address,
/// read as unsigned, plus the instruction's offset.
pub open spec fn effective_address(addr: i32, offset: u32) -> int {
    (addr as u32) + offset
}

/// Whether the four bytes from `at` on lie within `mem`.
pub open spec fn in_bounds(mem: Seq<u8>, at: int) -> bool {
    0 <= at && at + 4 <= mem.len()
}

/// The 32-bit integer stored at `at`, where `in_bounds(mem, at)`.
pub open spec fn read_i32(mem: Seq<u8>, at: int) -> i32 {
    le_i32(mem[at], mem[at + 1], mem[at + 2], mem[at + 3])
}

/// `mem` with the four little-endian bytes of `v` at `at`, where
/// `in_bounds(mem, at)`.
pub open spec fn write_i32(mem: Seq<u8>, at: int, v: i32) -> Seq<u8> {
    mem.update(at, le_byte(v, 0)).update(at + 1, le_byte(v, 1)).update(
        at + 2,
        le_byte(v, 2),
    ).update(at + 3, le_byte(v, 3))
}

/// What a 32-bit load at `at` from memory `mem_addr` gives.
pub open spec fn load_spec(s: StoreView, mem_addr: int, at: int) -> Result<i32, Trap> {
    if !(0 <= mem_addr < s.mems.len()) {
        Err(Trap::NoMemory)
    } else if !in_bounds(s.mems[mem_addr], at) {
        Err(Trap::MemoryOutOfBounds)
    } else {
        Ok(read_i32(s.mems[mem_addr], at))
    }
}

/// What a 32-bit store of `v` at `at` into memory `mem_addr` makes of the
/// store.
pub open spec fn store_spec(s: StoreView, mem_addr: int, at: int, v: i32) -> Result<
    StoreView,
    Trap,
> {
    if !(0 <= mem_addr < s.mems.len()) {
        Err(Trap::NoMemory)
    } else if !in_bounds(s.mems[mem_addr], at) {
        Err(Trap::MemoryOutOfBounds)
    } else {
        Ok(StoreView { mems: s.mems.update(mem_addr, write_i32(s.mems[mem_addr], at, v)), ..s })
    }
}

/// What reading the global at `addr` gives.
pub open spec fn global_get_spec(s: StoreView, addr: int) -> Result<Value, Trap> {
    if !(0 <= addr < s.globals.len()) {
        Err(Trap::InvalidGlobal)
    } else {
        Ok(s.globals[addr].value)
    }
}

/// What writing `v` to the global at `addr` makes of the store.
pub open spec fn global_set_spec(s: StoreView, addr: int, v: Value) -> Result<StoreView, Trap> {
    if !(0 <= addr < s.globals.len()) {
        Err(Trap::InvalidGlobal)
    } else if !s.globals[addr].mutable {
        Err(Trap::ImmutableGlobal)
    } else {
        Ok(StoreView { globals: s.globals.update(addr, Global { value: v, mutable: true }), ..s })
    }
}

/// Whether `b` has the entries of `a` at the same addresses with the same
/// sizes: the same functions and tables, memories of the same lengths, and
/// globals of the same mutability. Execution changes nothing else.
pub open spec fn same_layout(a: StoreView, b: StoreView) -> bool {
    &&& b.funcs == a.funcs
    &&& b.tables == a.tables
    &&& b.mems.len() == a.mems.len()
    &&& forall|i: int| 0 <= i < a.mems.len() ==> #[trigger] b.mems[i].len() == a.mems[i].len()
    &&& b.globals.len() == a.globals.len()
    &&& forall|i: int|
        0 <= i < a.globals.len() ==> #[trigger] b.globals[i].mutable == a.globals[i].mutable
}

impl Store {
    /// Reads the 32-bit integer at `addr + offset` of memory `mem_addr`.
    pub fn load_i32(&self, mem_addr: Addr, addr: i32, offset: u32) -> (r: Result<i32, Trap>)
        ensures
            r == load_spec(self@, mem_addr as int, effective_address(addr, offset)),
    {
        let a: usize = mem_addr as usize;
        if a >= self.mems.len() {
            return Err(Trap::NoMemory);
        }
        let mem = &self.mems[a];
        let at: u64 = (addr as u32) as u64 + offset as u64;
        if at + 4 > mem.len() as u64 {
            return Err(Trap::MemoryOutOfBounds);
        }
        let i: usize = at as usize;
        let b0: u8 = mem[i];
        let b1: u8 = mem[i + 1];
        let b2: u8 = mem[i + 2];
        let b3: u8 = mem[i + 3];
        Ok(((b0 as u32) | ((b1 as u32) << 8u32) | ((b2 as u32) << 16u32) | ((b3 as u32) << 24u32)) as i32)
    }

    /// Writes the four little-endian bytes of `v` at `addr + offset` of
    /// memory `mem_addr`. On a trap the store is unchanged.
    pub fn store_i32(&mut self, mem_addr: Addr, addr: i32, offset: u32, v: i32) -> (r: Result<
        (),
        Trap,
    >)
        ensures
            match store_spec(old(self)@, mem_addr as int, effective_address(addr, offset), v) {
                Ok(s) => r is Ok && final(self)@ == s,
                Err(t) => r == Err::<(), Trap>(t) && *final(self) == *old(self),
            },
    {
        let a: usize = mem_addr as usize;
        if a >= self.mems.len() {
            return Err(Trap::NoMemory);
        }
        let at: u64 = (addr as u32) as u64 + offset as u64;
        if at + 4 > self.mems[a].len() as u64 {
            return Err(Trap::MemoryOutOfBounds);
        }
        let i: usize = at as usize;
        let u: u32 = v as u32;
        let mem = &mut self.mems[a];
        mem[i] = (u & 0xff) as u8;
        mem[i + 1] = ((u >> 8u32) & 0xff) as u8;
        mem[i + 2] = ((u >> 16u32) & 0xff) as u8;
        mem[i + 3] = ((u >> 24u32) & 0xff) as u8;
        proof {
            assert(u >> 0u32 == u) by (bit_vector);
            assert(final(self)@.mems =~= old(self)@.mems.update(
                a as int,
                write_i32(old(self)@.mems[a as int], at as int, v),
            ));
            assert(final(self)@.tables =~= old(self)@.tables);
        }
        Ok(())
    }

    /// Reads the global at `addr`.
    pub fn global_get(&self, addr: Addr) -> (r: Result<Value, Trap>)
        ensures
            r == global_get_spec(self@, addr as int),
    {
        let a: usize = addr as usize;
        if a >= self.globals.len() {
            return Err(Trap::InvalidGlobal);
        }
        Ok(self.globals[a].value)
    }

    /// Writes `v` to the global at `addr`, where it is mutable. On a trap
    /// the store is unchanged.
    pub fn global_set(&mut self, addr: Addr, v: Value) -> (r: Result<(), Trap>)
        ensures
            match global_set_spec(old(self)@, addr as int, v) {
                Ok(s) => r is Ok && final(self)@ == s,
                Err(t) => r == Err::<(), Trap>(t) && *final(self) == *old(self),
            },
    {
        let a: usize = addr as usize;
        if a >= self.globals.len() {
            return Err(Trap::InvalidGlobal);
        }
        if !self.globals[a].mutable {
            return Err(Trap::ImmutableGlobal);
        }
        self.globals[a].value = v;
        proof {
            assert(final(self)@.globals =~= old(self)@.globals.update(
                a as int,
                Global { value: v, mutable: true },
            ));
        }
        Ok(())
    }
}

} // verus!
