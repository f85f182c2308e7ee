//! Call frames.

use vstd::prelude::*;
use super::store::ModuleIdx;
use super::trap::Trap;
use super::value::Value;
use crate::parser::types::ValType;

verus! {

/// The value a local of type `ty` holds before it is first written: zero.
pub open spec fn zero_value(ty: ValType) -> Value {
    match ty {
        ValType::I32 => Value::I32(0),
        ValType::I64 => Value::I64(0),
        ValType::F32 => Value::F32(0),
        ValType::F64 => Value::F64(0),
    }
}

/// The slots of a new frame: the arguments in the order they were pushed,
/// followed by a zero for each declared local.
pub open spec fn initial_locals(args: Seq<Value>, declared: Seq<ValType>) -> Seq<Value> {
    args + Seq::new(declared.len(), |i: int| zero_value(declared[i]))
}

/// The state of one active invocation.
#[derive(Debug)]
pub struct Frame {
    /// The parameters, followed by the declared locals.
    pub locals: Vec<Value>,
    /// The module the function belongs to.
    pub module: ModuleIdx,
}

/// A frame as a mathematical value.
pub struct FrameView {
    pub locals: Seq<Value>,
    pub module: ModuleIdx,
}

impl View for Frame {
    type V = FrameView;

    open spec fn view(&self) -> FrameView {
        FrameView { locals: self.locals@, module: self.module }
    }
}

impl Frame {
    /// A frame for a function of `module` called with `args`, with
    /// `declared` as the types of its further locals.
    pub fn new(module: ModuleIdx, args: Vec<Value>, declared: &Vec<ValType>) -> (f: Frame)
        ensures
            f@ == (FrameView { locals: initial_locals(args@, declared@), module }),
    {
        let mut locals: Vec<Value> = args;
        let mut i: usize = 0;
        while i < declared.len()
            invariant
                i <= declared.len(),
                locals@ == args@ + Seq::new(i as nat, |k: int| zero_value(declared@[k])),
            decreases declared.len() - i,
        {
            let v: Value = match declared[i] {
                ValType::I32 => Value::I32(0),
                ValType::I64 => Value::I64(0),
                ValType::F32 => Value::F32(0),
                ValType::F64 => Value::F64(0),
            };
            locals.push(v);
            i = i + 1;
        }
        Frame { locals, module }
    }
}

/// What reading local `idx` of the top frame gives.
pub open spec fn local_get_spec(frames: Seq<FrameView>, idx: u32) -> Result<Value, Trap> {
    if frames.len() == 0 {
        Err(Trap::NoFrame)
    } else if idx >= frames.last().locals.len() {
        Err(Trap::InvalidLocal)
    } else {
        Ok(frames.last().locals[idx as int])
    }
}

/// What writing `v` to local `idx` of the top frame makes of the frames.
pub open spec fn local_set_spec(frames: Seq<FrameView>, idx: u32, v: Value) -> Result<
    Seq<FrameView>,
    Trap,
> {
    if frames.len() == 0 {
        Err(Trap::NoFrame)
    } else if idx >= frames.last().locals.len() {
        Err(Trap::InvalidLocal)
    } else {
        let top = frames.last();
        Ok(
            frames.update(
                frames.len() - 1,
                FrameView { locals: top.locals.update(idx as int, v), module: top.module },
            ),
        )
    }
}

/// The module of the top frame.
pub open spec fn current_module_spec(frames: Seq<FrameView>) -> Result<ModuleIdx, Trap> {
    if frames.len() == 0 {
        Err(Trap::NoFrame)
    } else {
        Ok(frames.last().module)
    }
}

/// The frames of the active invocations, the current one last. Only the
/// current frame can be read or written.
#[derive(Debug)]
pub struct FrameStack(Vec<Frame>);

impl View for FrameStack {
    type V = Seq<FrameView>;

    closed spec fn view(&self) -> Seq<FrameView> {
        Seq::new(self.0@.len(), |i: int| self.0@[i]@)
    }
}

impl Default for FrameStack {
    fn default() -> (s: FrameStack)
        ensures
            s@ == Seq::<FrameView>::empty(),
    {
        FrameStack(Vec::new())
    }
}

impl FrameStack {
    /// The number of active invocations.
    pub fn len(&self) -> (n: usize)
        ensures
            n == self@.len(),
    {
        self.0.len()
    }

    /// Makes `frame` the current frame.
    pub fn push(&mut self, frame: Frame)
        ensures
            final(self)@ == old(self)@.push(frame@),
    {
        self.0.push(frame);
        assert(self@ =~= old(self)@.push(frame@));
    }

    /// Drops the current frame, if there is one.
    pub fn pop(&mut self)
        ensures
            final(self)@ == (if old(self)@.len() > 0 {
                old(self)@.drop_last()
            } else {
                old(self)@
            }),
    {
        let _ = self.0.pop();
        assert(self@ =~= (if old(self)@.len() > 0 {
            old(self)@.drop_last()
        } else {
            old(self)@
        }));
    }

    /// The module of the current frame.
    pub fn current_module(&self) -> (r: Result<ModuleIdx, Trap>)
        ensures
            r == current_module_spec(self@),
    {
        let n: usize = self.0.len();
        if n == 0 {
            return Err(Trap::NoFrame);
        }
        Ok(self.0[n - 1].module)
    }

    /// Reads local `idx` of the current frame.
    pub fn get_local(&self, idx: u32) -> (r: Result<Value, Trap>)
        ensures
            r == local_get_spec(self@, idx),
    {
        let n: usize = self.0.len();
        if n == 0 {
            return Err(Trap::NoFrame);
        }
        let frame = &self.0[n - 1];
        if idx as usize >= frame.locals.len() {
            return Err(Trap::InvalidLocal);
        }
        Ok(frame.locals[idx as usize])
    }

    /// Writes `v` to local `idx` of the current frame. On a trap nothing
    /// changes.
    pub fn set_local(&mut self, idx: u32, v: Value) -> (r: Result<(), Trap>)
        ensures
            match local_set_spec(old(self)@, idx, v) {
                Ok(frames) => r is Ok && final(self)@ == frames,
                Err(t) => r == Err::<(), Trap>(t) && final(self)@ == old(self)@,
            },
    {
        let n: usize = self.0.len();
        if n == 0 {
            return Err(Trap::NoFrame);
        }
        if idx as usize >= self.0[n - 1].locals.len() {
            return Err(Trap::InvalidLocal);
        }
        self.0[n - 1].locals[idx as usize] = v;
        assert(self@ =~= local_set_spec(old(self)@, idx, v)->Ok_0);
        Ok(())
    }
}

} // verus!
