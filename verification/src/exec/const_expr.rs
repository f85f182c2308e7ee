//! Constant expressions: what may initialize a global.

use vstd::prelude::*;
use super::value::Value;
use crate::parser::types::{Expr, Instruction};

verus! {

/// A constant expression. It is evaluated before any code runs, so it can
/// only be a literal or the value of a global that an import brought in.
#[derive(Clone, Copy, Debug, PartialEq, Eq, Structural)]
pub enum ConstExpr {
    /// A numeric literal.
    Const(Value),
    /// The value of the imported global with this index.
    GlobalGet(u32),
}

/// The constant expression that `instrs` is, if it is one: exactly one
/// instruction, which is a numeric constant or a `global.get` of one of the
/// module's `imported_globals` imported globals. Imported globals come
/// first in the index space, so a `global.get` of a higher index would read
/// a global that the module defines itself, which is not allowed.
pub open spec fn const_expr_spec(instrs: Seq<Instruction>, imported_globals: nat) -> Option<
    ConstExpr,
> {
    if instrs.len() != 1 {
        None
    } else {
        match instrs[0] {
            Instruction::I32Const(i) => Some(ConstExpr::Const(Value::I32(i))),
            Instruction::I64Const(i) => Some(ConstExpr::Const(Value::I64(i))),
            Instruction::F32Const(bits) => Some(ConstExpr::Const(Value::F32(bits))),
            Instruction::F64Const(bits) => Some(ConstExpr::Const(Value::F64(bits))),
            Instruction::GlobalGet(idx) => if idx < imported_globals {
                Some(ConstExpr::GlobalGet(idx))
            } else {
                None
            },
            _ => None,
        }
    }
}

impl ConstExpr {
    /// Reads `expr` as a constant expression of a module with
    /// `imported_globals` imported globals.
    pub fn from_expr(expr: &Expr, imported_globals: usize) -> (r: Option<ConstExpr>)
        ensures
            r == const_expr_spec(expr.instrs@, imported_globals as nat),
    {
        if expr.instrs.len() != 1 {
            return None;
        }
        match &expr.instrs[0] {
            Instruction::I32Const(i) => Some(ConstExpr::Const(Value::I32(*i))),
            Instruction::I64Const(i) => Some(ConstExpr::Const(Value::I64(*i))),
            Instruction::F32Const(bits) => Some(ConstExpr::Const(Value::F32(*bits))),
            Instruction::F64Const(bits) => Some(ConstExpr::Const(Value::F64(*bits))),
            Instruction::GlobalGet(idx) => {
                if (*idx as usize) < imported_globals {
                    Some(ConstExpr::GlobalGet(*idx))
                } else {
                    None
                }
            },
            _ => None,
        }
    }
}

} // verus!
