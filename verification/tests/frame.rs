use wasm_rt::exec::frame::{Frame, FrameStack};
use wasm_rt::exec::trap::Trap;
use wasm_rt::exec::value::Value;
use wasm_rt::exec::Module;
use wasm_rt::parser::types::ValType;

#[test]
fn new_frame_holds_the_arguments_and_zeroed_locals() {
    let frame = Frame::new(
        3,
        vec![Value::I64(7), Value::F32(1)],
        &vec![ValType::F64, ValType::I32, ValType::F32, ValType::I64],
    );
    assert_eq!(frame.module, 3);
    assert_eq!(
        frame.locals,
        vec![
            Value::I64(7),
            Value::F32(1),
            Value::F64(0),
            Value::I32(0),
            Value::F32(0),
            Value::I64(0),
        ]
    );
    assert_eq!(Value::F32(0).as_f32_bits(), Some(0.0f32.to_bits()));
    assert_eq!(Value::F64(0).as_f64_bits(), Some(0.0f64.to_bits()));
}

#[test]
fn new_frame_without_arguments_or_locals_is_empty() {
    let frame = Frame::new(0, vec![], &vec![]);
    assert!(frame.locals.is_empty());
}

#[test]
fn frame_stack_reads_and_writes_the_current_frame_only() {
    let mut frames = FrameStack::default();
    assert_eq!(frames.len(), 0);
    frames.push(Frame { locals: vec![Value::I32(1), Value::I32(2)], module: 4 });
    frames.push(Frame { locals: vec![Value::I32(3)], module: 5 });
    assert_eq!(frames.len(), 2);
    assert_eq!(frames.current_module(), Ok(5));
    assert_eq!(frames.get_local(0), Ok(Value::I32(3)));
    assert_eq!(frames.get_local(1), Err(Trap::InvalidLocal));
    assert_eq!(frames.set_local(0, Value::I64(9)), Ok(()));
    assert_eq!(frames.get_local(0), Ok(Value::I64(9)));
    assert_eq!(frames.set_local(1, Value::I64(9)), Err(Trap::InvalidLocal));

    frames.pop();
    assert_eq!(frames.len(), 1);
    assert_eq!(frames.current_module(), Ok(4));
    assert_eq!(frames.get_local(0), Ok(Value::I32(1)));
    assert_eq!(frames.get_local(1), Ok(Value::I32(2)));
    assert_eq!(frames.set_local(1, Value::I32(-2)), Ok(()));
    assert_eq!(frames.get_local(0), Ok(Value::I32(1)));
    assert_eq!(frames.get_local(1), Ok(Value::I32(-2)));
}

#[test]
fn empty_frame_stack_has_no_current_frame() {
    let mut frames = FrameStack::default();
    assert_eq!(frames.current_module(), Err(Trap::NoFrame));
    assert_eq!(frames.get_local(0), Err(Trap::NoFrame));
    assert_eq!(frames.set_local(0, Value::I32(1)), Err(Trap::NoFrame));
    frames.pop();
    assert_eq!(frames.len(), 0);
}

#[test]
fn default_module_instance_is_empty() {
    let m = Module::default();
    assert!(m.types.is_empty());
    assert!(m.func_addrs.is_empty());
    assert!(m.table_addrs.is_empty());
    assert!(m.mem_addrs.is_empty());
    assert!(m.global_addrs.is_empty());
    assert!(m.exports.is_empty());
    assert_eq!(m.start, None);
}
