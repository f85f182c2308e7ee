use wasm_rt::exec::store::{Global, Store};
use wasm_rt::exec::trap::Trap;
use wasm_rt::exec::value::Value;

fn store_with_memory(len: usize) -> Store {
    let mut store = Store::default();
    store.mems.push(vec![0; len]);
    store
}

#[test]
fn store_then_load_returns_the_integer() {
    let mut store = store_with_memory(64);
    for v in [0, 1, -1, 42, i32::MIN, i32::MAX, 0x0102_0304] {
        assert_eq!(store.store_i32(0, 8, 4, v), Ok(()));
        assert_eq!(store.load_i32(0, 8, 4), Ok(v));
        assert_eq!(store.load_i32(0, 12, 0), Ok(v));
    }
}

#[test]
fn store_writes_four_little_endian_bytes_and_no_other() {
    let mut store = store_with_memory(16);
    store.mems[0] = vec![0xaa; 16];
    assert_eq!(store.store_i32(0, 4, 0, 0x0102_0304), Ok(()));
    let mut expected = vec![0xaa; 16];
    expected[4] = 0x04;
    expected[5] = 0x03;
    expected[6] = 0x02;
    expected[7] = 0x01;
    assert_eq!(store.mems[0], expected);
}

#[test]
fn load_reads_little_endian() {
    let mut store = store_with_memory(8);
    store.mems[0] = vec![0x78, 0x56, 0x34, 0x12, 0xff, 0xff, 0xff, 0xff];
    assert_eq!(store.load_i32(0, 0, 0), Ok(0x1234_5678));
    assert_eq!(store.load_i32(0, 4, 0), Ok(-1));
    assert_eq!(store.load_i32(0, 1, 0), Ok(0xff12_3456u32 as i32));
}

#[test]
fn access_at_the_last_four_bytes_is_in_bounds() {
    let mut store = store_with_memory(16);
    assert_eq!(store.store_i32(0, 12, 0, 7), Ok(()));
    assert_eq!(store.load_i32(0, 10, 2), Ok(7));
}

#[test]
fn access_past_the_end_is_out_of_bounds() {
    let mut store = store_with_memory(16);
    let before = store.mems[0].clone();
    for (addr, offset) in [(13, 0), (12, 1), (16, 0), (0, 13), (-1, 0), (0, u32::MAX), (-1, u32::MAX)] {
        assert_eq!(store.store_i32(0, addr, offset, 5), Err(Trap::MemoryOutOfBounds));
        assert_eq!(store.load_i32(0, addr, offset), Err(Trap::MemoryOutOfBounds));
    }
    assert_eq!(store.mems[0], before);
}

#[test]
fn address_and_offset_do_not_wrap() {
    // 0xffff_fffc + 8 would be 4 with 32-bit wrapping.
    let mut store = store_with_memory(16);
    assert_eq!(store.load_i32(0, -4, 8), Err(Trap::MemoryOutOfBounds));
    assert_eq!(store.store_i32(0, -4, 8, 1), Err(Trap::MemoryOutOfBounds));
}

#[test]
fn access_to_a_memory_that_is_not_there_traps() {
    let mut store = Store::default();
    assert_eq!(store.load_i32(0, 0, 0), Err(Trap::NoMemory));
    assert_eq!(store.store_i32(3, 0, 0, 1), Err(Trap::NoMemory));
}

#[test]
fn empty_memory_has_no_place_in_bounds() {
    let mut store = store_with_memory(0);
    assert_eq!(store.load_i32(0, 0, 0), Err(Trap::MemoryOutOfBounds));
    assert_eq!(store.store_i32(0, 0, 0, 1), Err(Trap::MemoryOutOfBounds));
}

#[test]
fn global_set_then_get_returns_the_value() {
    let mut store = Store::default();
    store.globals.push(Global { value: Value::I32(0), mutable: true });
    store.globals.push(Global { value: Value::I64(5), mutable: true });
    assert_eq!(store.global_set(1, Value::F64(9)), Ok(()));
    assert_eq!(store.global_get(1), Ok(Value::F64(9)));
    assert_eq!(store.global_get(0), Ok(Value::I32(0)));
    assert!(store.globals[1].mutable);
}

#[test]
fn immutable_global_cannot_be_set() {
    let mut store = Store::default();
    store.globals.push(Global { value: Value::I32(3), mutable: false });
    assert_eq!(store.global_set(0, Value::I32(4)), Err(Trap::ImmutableGlobal));
    assert_eq!(store.global_get(0), Ok(Value::I32(3)));
}

#[test]
fn global_that_is_not_there_traps() {
    let mut store = Store::default();
    assert_eq!(store.global_get(0), Err(Trap::InvalidGlobal));
    assert_eq!(store.global_set(0, Value::I32(1)), Err(Trap::InvalidGlobal));
}
