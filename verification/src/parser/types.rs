//! The shape of a decoded module.

use vstd::prelude::*;
use std::rc::Rc;

verus! {

/// A module-local index into the function index space.
pub type FuncIdx = u32;

/// A module-local index into the type table.
pub type TypeIdx = u32;

/// The type of a value.
#[derive(Clone, Copy, Debug, PartialEq, Eq, Structural)]
pub enum ValType {
    I32,
    I64,
    F32,
    F64,
}

/// A function signature.
#[derive(Debug)]
pub struct FuncType {
    pub args: Vec<ValType>,
    pub results: Vec<ValType>,
}

/// The declared size of a table, in slots, or of a memory, in pages.
#[derive(Clone, Copy, Debug, PartialEq, Eq, Structural)]
pub struct Limits {
    pub min: u32,
    pub max: Option<u32>,
}

/// A table declaration.
#[derive(Clone, Copy, Debug, PartialEq, Eq, Structural)]
pub struct Table {
    pub limits: Limits,
}

/// Whether a global can be written after it is initialized.
#[derive(Clone, Copy, Debug, PartialEq, Eq, Structural)]
pub enum Mutability {
    Const,
    Var,
}

/// The type of a global.
#[derive(Clone, Copy, Debug, PartialEq, Eq, Structural)]
pub struct GlobalType {
    pub ty: ValType,
    pub mut_: Mutability,
}

/// The immediate of a memory instruction.
#[derive(Clone, Copy, Debug, PartialEq, Eq, Structural)]
pub struct MemArg {
    pub align: u32,
    pub offset: u32,
}

/// A nested region of code: the body of a `block` or of a `loop`.
#[derive(Debug)]
pub struct Block {
    /// The type of the one result, if the region leaves one.
    pub ty: Option<ValType>,
    /// The body, shared so that entering the region copies nothing.
    pub instrs: Rc<Vec<Instruction>>,
}

/// One instruction. A `block` or a `loop` carries its own body, so code is
/// a tree and a branch names an enclosing region by its depth.
///
/// A floating-point constant holds the bit pattern of the number.
#[derive(Debug)]
pub enum Instruction {
    Unreachable,
    Nop,
    Block(Block),
    Loop(Block),
    If(Block),
    Br(u32),
    BrIf(u32),
    Return,
    Call(FuncIdx),
    CallIndirect(TypeIdx),
    Drop,
    Select,
    LocalGet(u32),
    LocalSet(u32),
    LocalTee(u32),
    GlobalGet(u32),
    GlobalSet(u32),
    I32Load(MemArg),
    I64Load(MemArg),
    I32Store(MemArg),
    I64Store(MemArg),
    MemorySize,
    MemoryGrow,
    I32Const(i32),
    I64Const(i64),
    F32Const(u32),
    F64Const(u64),
    I32Eqz,
    I32Eq,
    I32Ne,
    I32LtS,
    I32LtU,
    I32GtS,
    I32GtU,
    I32LeS,
    I32LeU,
    I32GeS,
    I32GeU,
    I32Add,
    I32Sub,
    I32Mul,
    I64Add,
    I64Sub,
    I64Mul,
}

/// A sequence of instructions: a function body or an initializer.
#[derive(Debug)]
pub struct Expr {
    pub instrs: Rc<Vec<Instruction>>,
}

/// A function definition.
#[derive(Debug)]
pub struct Fun {
    /// The index of the function's signature in the module's type table.
    pub ty: TypeIdx,
    /// The types of the locals declared after the parameters.
    pub locals: Vec<ValType>,
    pub expr: Expr,
}

/// A global definition.
#[derive(Debug)]
pub struct Global {
    pub ty: GlobalType,
    /// The initializer.
    pub expr: Expr,
}

/// An element segment: function indices to place into a table.
#[derive(Debug)]
pub struct Element {
    pub table: u32,
    pub offset: Expr,
    pub init: Vec<FuncIdx>,
}

/// A data segment: bytes to place into a memory.
#[derive(Debug)]
pub struct Data {
    pub mem: u32,
    pub offset: Expr,
    pub init: Vec<u8>,
}

/// What an import brings in.
#[derive(Clone, Copy, Debug, PartialEq, Eq, Structural)]
pub enum ImportDesc {
    Func(TypeIdx),
    Table(Table),
    MemType(Limits),
    Global(GlobalType),
}

/// An import: a two-level name and what is expected under it.
#[derive(Debug)]
pub struct Import {
    pub module: String,
    pub name: String,
    pub desc: ImportDesc,
}

/// What an export names: an index into one of the four index spaces.
#[derive(Clone, Copy, Debug, PartialEq, Eq, Structural)]
pub enum ExportDesc {
    Func(u32),
    Table(u32),
    Mem(u32),
    Global(u32),
}

/// An export: a name and what it stands for.
#[derive(Debug)]
pub struct Export {
    pub nm: String,
    pub desc: ExportDesc,
}

/// A decoded module.
#[derive(Debug)]
pub struct Module {
    pub types: Vec<FuncType>,
    pub funs: Vec<Fun>,
    pub tables: Vec<Table>,
    /// The memory declarations.
    pub mem_addrs: Vec<Limits>,
    pub globals: Vec<Global>,
    pub elems: Vec<Element>,
    pub data: Vec<Data>,
    pub start: Option<FuncIdx>,
    pub imports: Vec<Import>,
    pub exports: Vec<Export>,
}

} // verus!
