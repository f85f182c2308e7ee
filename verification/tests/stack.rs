use wasm_rt::exec::stack::Stack;
use wasm_rt::exec::trap::Trap;
use wasm_rt::exec::value::Value;

#[test]
fn push_then_pop_returns_the_value() {
    let mut s = Stack::default();
    s.push(Value::I64(7));
    assert_eq!(s.pop(), Ok(Value::I64(7)));
    assert_eq!(s.len(), 0);
}

#[test]
fn pop_on_empty_stack_is_underflow() {
    let mut s = Stack::default();
    assert_eq!(s.pop(), Err(Trap::StackUnderflow));
    assert_eq!(s.pop_i32(), Err(Trap::StackUnderflow));
    assert_eq!(s.len(), 0);
}

#[test]
fn pops_come_in_reverse_order_of_pushes() {
    let mut s = Stack::default();
    s.push_i32(1);
    s.push_i64(2);
    s.push_f32(3);
    s.push_f64(4);
    assert_eq!(s.len(), 4);
    assert_eq!(s.pop(), Ok(Value::F64(4)));
    assert_eq!(s.pop(), Ok(Value::F32(3)));
    assert_eq!(s.pop(), Ok(Value::I64(2)));
    assert_eq!(s.pop(), Ok(Value::I32(1)));
    assert_eq!(s.pop(), Err(Trap::StackUnderflow));
}

#[test]
fn pop_i32_returns_the_pushed_integer() {
    let mut s = Stack::default();
    s.push_i32(-5);
    s.push_i32(i32::MAX);
    assert_eq!(s.pop_i32(), Ok(i32::MAX));
    assert_eq!(s.pop_i32(), Ok(-5));
    assert_eq!(s.pop_i32(), Err(Trap::StackUnderflow));
}

#[test]
fn pop_i32_of_another_variant_is_a_mismatch_and_keeps_the_value() {
    let mut s = Stack::default();
    s.push_i64(9);
    assert_eq!(s.pop_i32(), Err(Trap::TypeMismatch));
    assert_eq!(s.len(), 1);
    assert_eq!(s.pop(), Ok(Value::I64(9)));

    s.push_f32(1.5f32.to_bits());
    assert_eq!(s.pop_i32(), Err(Trap::TypeMismatch));
    s.push_f64(1.5f64.to_bits());
    assert_eq!(s.pop_i32(), Err(Trap::TypeMismatch));
}

#[test]
fn push_u32_keeps_the_bits() {
    let mut s = Stack::default();
    s.push_u32(0xffff_ffff);
    s.push_u32(0x8000_0000);
    s.push_u32(17);
    assert_eq!(s.pop_i32(), Ok(17));
    assert_eq!(s.pop_i32(), Ok(i32::MIN));
    assert_eq!(s.pop_i32(), Ok(-1));
}

#[test]
fn push_bool_pushes_one_or_zero() {
    let mut s = Stack::default();
    s.push_bool(true);
    s.push_bool(false);
    assert_eq!(s.pop(), Ok(Value::I32(0)));
    assert_eq!(s.pop(), Ok(Value::I32(1)));
}

#[test]
fn floats_round_trip_bit_for_bit() {
    let mut s = Stack::default();
    s.push_f32((-0.0f32).to_bits());
    s.push_f64(f64::NAN.to_bits());
    let top = s.pop().unwrap();
    assert_eq!(top.as_f64_bits(), Some(f64::NAN.to_bits()));
    assert_eq!(top.as_i32(), None);
    let next = s.pop().unwrap();
    assert_eq!(next.as_f32_bits(), Some(0x8000_0000));
    assert_eq!(next.as_i64(), None);
}

#[test]
fn value_accessors_match_only_their_variant() {
    assert_eq!(Value::I32(3).as_i32(), Some(3));
    assert_eq!(Value::I32(3).as_i64(), None);
    assert_eq!(Value::I64(-3).as_i64(), Some(-3));
    assert_eq!(Value::I64(-3).as_f32_bits(), None);
    assert_eq!(Value::F32(7).as_f32_bits(), Some(7));
    assert_eq!(Value::F32(7).as_f64_bits(), None);
    assert_eq!(Value::F64(8).as_f64_bits(), Some(8));
    assert_eq!(Value::F64(8).as_i32(), None);
}

#[test]
fn pop_many_returns_the_top_values_in_push_order() {
    let mut s = Stack::default();
    s.push_i32(1);
    s.push_i32(2);
    s.push_i32(3);
    assert_eq!(s.pop_many(2), Ok(vec![Value::I32(2), Value::I32(3)]));
    assert_eq!(s.len(), 1);
    assert_eq!(s.pop_many(0), Ok(vec![]));
    assert_eq!(s.pop_many(2), Err(Trap::StackUnderflow));
    assert_eq!(s.len(), 1);
    assert_eq!(s.pop_i32(), Ok(1));
}

#[test]
fn pop_i32_pair_returns_the_first_pushed_in_front() {
    let mut s = Stack::default();
    s.push_i32(10);
    s.push_i32(3);
    assert_eq!(s.pop_i32_pair(), Ok((10, 3)));
    assert_eq!(s.len(), 0);
}

#[test]
fn pop_i32_pair_that_fails_changes_nothing() {
    let mut s = Stack::default();
    assert_eq!(s.pop_i32_pair(), Err(Trap::StackUnderflow));
    s.push_i32(1);
    assert_eq!(s.pop_i32_pair(), Err(Trap::StackUnderflow));
    assert_eq!(s.len(), 1);
    s.push_i64(2);
    assert_eq!(s.pop_i32_pair(), Err(Trap::TypeMismatch));
    s.push_i32(3);
    assert_eq!(s.pop_i32_pair(), Err(Trap::TypeMismatch));
    assert_eq!(s.len(), 3);
    assert_eq!(s.pop(), Ok(Value::I32(3)));
    assert_eq!(s.pop(), Ok(Value::I64(2)));
    assert_eq!(s.pop(), Ok(Value::I32(1)));
}
