//! The operand stack.

use vstd::prelude::*;
use super::trap::Trap;
use super::value::Value;

verus! {

/// What popping one value off `s` gives: the value and the rest, or the
/// trap for an empty stack.
pub open spec fn pop_spec(s: Seq<Value>) -> Result<(Value, Seq<Value>), Trap> {
    if s.len() == 0 {
        Err(Trap::StackUnderflow)
    } else {
        Ok((s.last(), s.drop_last()))
    }
}

/// What popping a 32-bit integer off `s` gives: the integer and the rest,
/// or the trap for an empty stack or for a top value of another variant.
pub open spec fn pop_i32_spec(s: Seq<Value>) -> Result<(i32, Seq<Value>), Trap> {
    if s.len() == 0 {
        Err(Trap::StackUnderflow)
    } else {
        match s.last() {
            Value::I32(i) => Ok((i, s.drop_last())),
            _ => Err(Trap::TypeMismatch),
        }
    }
}

/// What popping two 32-bit integers off `s` gives: the one that was pushed
/// first, the one that was pushed last, and the rest.
pub open spec fn pop_i32_pair_spec(s: Seq<Value>) -> Result<(i32, i32, Seq<Value>), Trap> {
    match pop_i32_spec(s) {
        Err(t) => Err(t),
        Ok((last, rest)) => match pop_i32_spec(rest) {
            Err(t) => Err(t),
            Ok((first, rest)) => Ok((first, last, rest)),
        },
    }
}

/// The value that stands for a boolean: the 32-bit integer 1 or 0.
pub open spec fn bool_value(b: bool) -> Value {
    Value::I32(if b { 1i32 } else { 0i32 })
}

/// A pop right after a push gives the pushed value back and the stack as it
/// was before the push; a typed pop does so where the value is of its type
/// and traps where it is not; and a pop from an empty stack traps.
pub proof fn lemma_push_then_pop(s: Seq<Value>, v: Value)
    ensures
        pop_spec(s.push(v)) == Ok::<(Value, Seq<Value>), Trap>((v, s)),
        v matches Value::I32(i) ==> pop_i32_spec(s.push(v)) == Ok::<(i32, Seq<Value>), Trap>(
            (i, s),
        ),
        !(v is I32) ==> pop_i32_spec(s.push(v)) == Err::<(i32, Seq<Value>), Trap>(
            Trap::TypeMismatch,
        ),
        pop_spec(Seq::empty()) == Err::<(Value, Seq<Value>), Trap>(Trap::StackUnderflow),
        pop_i32_spec(Seq::empty()) == Err::<(i32, Seq<Value>), Trap>(Trap::StackUnderflow),
{
    assert(s.push(v).drop_last() =~= s);
}

/// A last-in-first-out sequence of values. Its view is the sequence from the
/// bottom to the top.
#[derive(Debug)]
pub struct Stack(Vec<Value>);

impl View for Stack {
    type V = Seq<Value>;

    closed spec fn view(&self) -> Seq<Value> {
        self.0@
    }
}

impl Default for Stack {
    fn default() -> (s: Stack)
        ensures
            s@ == Seq::<Value>::empty(),
    {
        Stack(Vec::new())
    }
}

impl Stack {
    /// The number of values on the stack.
    pub fn len(&self) -> (n: usize)
        ensures
            n == self@.len(),
    {
        self.0.len()
    }

    /// Removes the top value and returns it. On an empty stack the result
    /// is the trap and the stack stays empty.
    pub fn pop(&mut self) -> (r: Result<Value, Trap>)
        ensures
            match pop_spec(old(self)@) {
                Ok((v, rest)) => r == Ok::<Value, Trap>(v) && final(self)@ == rest,
                Err(t) => r == Err::<Value, Trap>(t) && final(self)@ == old(self)@,
            },
    {
        match self.0.pop() {
            None => Err(Trap::StackUnderflow),
            Some(val) => Ok(val),
        }
    }

    /// Removes the top value and returns the 32-bit integer it holds. Where
    /// the stack is empty or the top value is of another variant the result
    /// is the trap and the stack is unchanged.
    pub fn pop_i32(&mut self) -> (r: Result<i32, Trap>)
        ensures
            match pop_i32_spec(old(self)@) {
                Ok((i, rest)) => r == Ok::<i32, Trap>(i) && final(self)@ == rest,
                Err(t) => r == Err::<i32, Trap>(t) && final(self)@ == old(self)@,
            },
    {
        let n: usize = self.0.len();
        if n == 0 {
            return Err(Trap::StackUnderflow);
        }
        match self.0[n - 1] {
            Value::I32(val) => {
                let _ = self.0.pop();
                Ok(val)
            },
            _ => Err(Trap::TypeMismatch),
        }
    }

    /// Removes the two top values and returns the 32-bit integers they
    /// hold, the one that was pushed first in front. Where one of the two
    /// is missing or of another variant the result is the trap and the
    /// stack is unchanged.
    pub fn pop_i32_pair(&mut self) -> (r: Result<(i32, i32), Trap>)
        ensures
            match pop_i32_pair_spec(old(self)@) {
                Ok((first, last, rest)) => r == Ok::<(i32, i32), Trap>((first, last))
                    && final(self)@ == rest
                    && old(self)@ == rest.push(Value::I32(first)).push(Value::I32(last)),
                Err(t) => r == Err::<(i32, i32), Trap>(t) && final(self)@ == old(self)@,
            },
    {
        let last: i32 = self.pop_i32()?;
        match self.pop_i32() {
            Ok(first) => {
                assert(old(self)@ =~= self@.push(Value::I32(first)).push(Value::I32(last)));
                Ok((first, last))
            },
            Err(t) => {
                self.0.push(Value::I32(last));
                assert(self@ =~= old(self)@);
                Err(t)
            },
        }
    }

    /// Removes the top `n` values and returns them in the order they were
    /// pushed. Where the stack holds fewer, the result is the trap and the
    /// stack is unchanged.
    pub fn pop_many(&mut self, n: usize) -> (r: Result<Vec<Value>, Trap>)
        ensures
            n <= old(self)@.len() ==> r is Ok && r->Ok_0@ == old(self)@.skip(old(self)@.len() - n)
                && final(self)@ == old(self)@.take(old(self)@.len() - n),
            n > old(self)@.len() ==> r == Err::<Vec<Value>, Trap>(Trap::StackUnderflow)
                && final(self)@ == old(self)@,
    {
        let len: usize = self.0.len();
        if n > len {
            return Err(Trap::StackUnderflow);
        }
        let top: Vec<Value> = self.0.split_off(len - n);
        Ok(top)
    }

    /// Puts `val` on top.
    pub fn push(&mut self, val: Value)
        ensures
            final(self)@ == old(self)@.push(val),
    {
        self.0.push(val)
    }

    /// Puts the 32-bit integer `i` on top.
    pub fn push_i32(&mut self, i: i32)
        ensures
            final(self)@ == old(self)@.push(Value::I32(i)),
    {
        self.0.push(Value::I32(i))
    }

    /// Puts `i` on top as a 32-bit integer with the same bits.
    pub fn push_u32(&mut self, i: u32)
        ensures
            final(self)@ == old(self)@.push(Value::I32(i as i32)),
    {
        self.0.push(Value::I32(i as i32))
    }

    /// Puts the 64-bit integer `i` on top.
    pub fn push_i64(&mut self, i: i64)
        ensures
            final(self)@ == old(self)@.push(Value::I64(i)),
    {
        self.0.push(Value::I64(i))
    }

    /// Puts the 32-bit float with the bit pattern `bits` on top.
    pub fn push_f32(&mut self, bits: u32)
        ensures
            final(self)@ == old(self)@.push(Value::F32(bits)),
    {
        self.0.push(Value::F32(bits))
    }

    /// Puts the 64-bit float with the bit pattern `bits` on top.
    pub fn push_f64(&mut self, bits: u64)
        ensures
            final(self)@ == old(self)@.push(Value::F64(bits)),
    {
        self.0.push(Value::F64(bits))
    }

    /// Puts 1 on top for `true` and 0 for `false`, as a 32-bit integer.
    pub fn push_bool(&mut self, bool: bool)
        ensures
            final(self)@ == old(self)@.push(bool_value(bool)),
    {
        assert(1u32 as i32 == 1i32 && 0u32 as i32 == 0i32) by (bit_vector);
        self.push_u32(if bool { 1 } else { 0 })
    }
}

} // verus!
