//! Unit tests for the component layer: pointers, memory, the program
//! counter, the stack, variable references, the object tables, and the
//! text decoder.

use rzm::{
    BytePtr, Memory, MemoryMappedObject, MemoryMappedObjectTable, MemoryMappedPropertyTable,
    MockObjectTable, MockObjectTableStorage, PackedAddr, RawPtr, Stack, VariableRef, WordPtr,
    ZObjectTable, PC,
};

#[test]
fn test_bp_convert() {
    let bp = BytePtr::new(10);
    let rp: RawPtr = bp.into();
    assert_eq!(10usize, usize::from(rp));
}

#[test]
fn test_wp_convert() {
    let wp = WordPtr::new(25);
    let rp: RawPtr = wp.into();
    assert_eq!(50usize, usize::from(rp));
}

#[test]
fn test_pa_convert() {
    let pa = PackedAddr::new(83);
    let rp: RawPtr = pa.into();
    assert_eq!(166usize, usize::from(rp));
}

#[test]
fn memory_test_from() {
    let memory = Memory::from(vec![0, 1, 2, 3, 4, 5]);
    assert_eq!(6, memory.size());
}

#[test]
fn test_pc() {
    let mut pc = PC::new(BytePtr::new(54).to_raw());
    assert_eq!(54, pc.pc().ptr());
    pc.set_pc(BytePtr::new(88).to_raw());
    assert_eq!(88, pc.pc().ptr());
    pc.set_pc(PackedAddr::new(64).to_raw());
    assert_eq!(128, pc.pc().ptr());
}

#[test]
fn pc_test_pc() {
    let mut pc = PC::new(BytePtr::new(54).to_raw());
    assert_eq!(54, pc.pc().ptr());
    pc.set_raw_pc(88);
    assert_eq!(88, pc.pc().ptr());
}

#[test]
fn pc_test_memory() {
    let memory: Memory = From::from(vec![0, 1, 2, 3, 4, 5, 6, 7, 8, 9]);

    let mut pc = PC::new(BytePtr::new(2).to_raw());
    assert_eq!(2, pc.next_byte(&memory));
    assert_eq!(3, pc.pc().ptr());

    assert_eq!(0x0304, pc.next_word(&memory));
    assert_eq!(5, pc.pc().ptr());
}

#[test]
fn stack_test_capacity() {
    let stack = Stack::new(100);
    assert_eq!(100, stack.size());

    let mut stack = Stack::new(256);
    assert_eq!(256, stack.size());

    // We should be able to push bytes into this stack up to its size.
    let start = stack.sp();
    for i in 0..((255 - start) as u8) {
        stack.push_u8(i);
    }
}

#[test]
fn stack_test_push_u8() {
    let mut stack = Stack::new(100);
    stack.push_u8(5);
    stack.push_u8(10);
    stack.push_u8(15);
    let base = stack.base_sp();
    assert_eq!(5, stack.byte_at(base));
    assert_eq!(10, stack.byte_at(base + 1));
    assert_eq!(15, stack.byte_at(base + 2));
}

#[test]
fn test_push_pop_u16() {
    let mut stack = Stack::new(100);
    stack.push_u16(5);
    stack.push_u16(10);
    stack.push_u16(15);
    let base = stack.base_sp();
    assert_eq!(
        vec![0, 5, 0, 10, 0, 15],
        (0..6).map(|i| stack.byte_at(base + i)).collect::<Vec<u8>>()
    );

    assert_eq!(15, stack.pop_u16().unwrap());
    stack.push_u16(0xbcaa);
    assert_eq!(0xbcaa, stack.pop_u16().unwrap());
    assert_eq!(10, stack.pop_u16().unwrap());
    assert_eq!(5, stack.pop_u16().unwrap());
}

#[test]
fn test_local() {
    let mut stack = Stack::new(100);
    let num_locals = 5;
    stack.new_frame(0x2345, num_locals, VariableRef::Local(3)).unwrap();

    for i in 0..num_locals {
        assert_eq!(0, stack.read_local(i).unwrap());
    }

    stack.write_local(0, 0xbe55).unwrap();
    assert_eq!(0xbe55, stack.read_local(0).unwrap());

    stack.write_local(4, 0xccee).unwrap();
    assert_eq!(0xccee, stack.read_local(4).unwrap());
}

#[test]
fn test_frames() {
    let mut stack = Stack::new(256);

    // The stack starts with a base frame with no locals.
    assert_eq!(8, stack.sp());
    let old_fp = stack.fp();
    let result_location = VariableRef::Local(3);

    stack.new_frame(0x8888, 5, result_location).unwrap();
    assert_eq!(8, stack.fp());
    assert_eq!(8 * 2 + 5 * 2, stack.sp());
    assert_eq!(stack.sp(), stack.base_sp());

    // The stack contents hold the frame header.
    assert_eq!(
        old_fp,
        stack.byte_at(stack.fp()) as usize * 256 + stack.byte_at(stack.fp() + 1) as usize
    );
    assert_eq!(5, stack.byte_at(stack.fp() + 6));
    assert_eq!(
        VariableRef::encode(result_location),
        stack.byte_at(stack.fp() + 7)
    );

    // Everything is restored after popping.
    let (popped_pc, popped_location) = stack.pop_frame().unwrap();
    assert_eq!(stack.fp(), old_fp);
    assert_eq!(0x8888, popped_pc);
    assert_eq!(result_location, popped_location);
}

#[test]
fn test_eval_stack_lifo() {
    let mut stack = Stack::new(100);
    stack.push_u16(1);
    stack.push_u16(2);
    stack.push_u16(3);
    assert_eq!(3, stack.pop_u16().unwrap());
    assert_eq!(2, stack.pop_u16().unwrap());
    assert_eq!(1, stack.pop_u16().unwrap());
    assert!(stack.pop_u16().is_err());
}

#[test]
fn test_encode() {
    assert_eq!(0x00, VariableRef::encode(VariableRef::Stack));
    assert_eq!(0x01, VariableRef::encode(VariableRef::Local(0x00)));
    assert_eq!(0x0f, VariableRef::encode(VariableRef::Local(0x0e)));
    assert_eq!(0x10, VariableRef::encode(VariableRef::Global(0x00)));
    assert_eq!(0xff, VariableRef::encode(VariableRef::Global(0xef)));
}

#[test]
fn test_decode() {
    assert_eq!(VariableRef::Stack, VariableRef::decode(0x00));
    assert_eq!(VariableRef::Local(0x00), VariableRef::decode(0x01));
    assert_eq!(VariableRef::Local(0x0e), VariableRef::decode(0x0f));
    assert_eq!(VariableRef::Global(0x00), VariableRef::decode(0x10));
    assert_eq!(VariableRef::Global(0xef), VariableRef::decode(0xff));
}

#[test]
fn object_table_test_mm_object_table() {
    let object_table = MemoryMappedObjectTable::new(BytePtr::new(0));
    let object = object_table.object_with_number(1);
    assert_eq!(1, object.number);
    assert_eq!(BytePtr::new(62), object.ptr);

    let object = object_table.object_with_number(2);
    assert_eq!(2, object.number);
    assert_eq!(BytePtr::new(71), object.ptr);

    let object = object_table.object_with_number(3);
    assert_eq!(3, object.number);
    assert_eq!(BytePtr::new(80), object.ptr);

    let object = object_table.object_with_number(6);
    assert_eq!(6, object.number);
    assert_eq!(BytePtr::new(107), object.ptr);
}

#[test]
fn mm_object_table_test_mm_object_table() {
    let object_table = MemoryMappedObjectTable::new(BytePtr::new(0));
    let object = object_table.object_with_number(1);
    assert_eq!(1, object.number);
    assert_eq!(BytePtr::new(62), object.ptr);

    let object = object_table.object_with_number(6);
    assert_eq!(6, object.number);
    assert_eq!(BytePtr::new(107), object.ptr);
}

#[test]
fn test_mm_objects() {
    let mut memory = Memory::from(vec![
        0x00, 0x00, 0x00, 0x00, // some padding
        0x34, 0x56, 0x78, 0x9a, // attributes
        0x12, // parent
        0x13, // sibling
        0x23, // child
        0x65, 0x43, // property ptr
    ]);
    let ptr = BytePtr::new(0x04); // skip the padding
    let obj = MemoryMappedObject { number: 3, ptr };

    assert_eq!(0x3456789a, obj.attributes(&memory));
    assert_eq!(0x12, obj.parent(&memory));
    assert_eq!(0x13, obj.sibling(&memory));
    assert_eq!(0x23, obj.child(&memory));

    obj.set_attributes(0x55667788, &mut memory);
    obj.set_parent(0x11, &mut memory);
    obj.set_sibling(0x77, &mut memory);
    obj.set_child(0xcc, &mut memory);

    assert_eq!(0x55667788, obj.attributes(&memory));
    assert_eq!(0x11, obj.parent(&memory));
    assert_eq!(0x77, obj.sibling(&memory));
    assert_eq!(0xcc, obj.child(&memory));
}

#[test]
fn test_mm_property_table() {
    let blob = vec![
        // Leave 3 zeros at the front to test the ptr code.
        0x00,
        0x00,
        0x00,
        // text length of "quux" = 2 words
        0x02,
        // this is the encoding for "quux"
        0x5b,
        0x5a,
        0xf4,
        0xa5,
        // property 20 of length 8
        20 + (8 - 1) * 32u8,
        0x01,
        0x02,
        0x03,
        0x04,
        0x05,
        0x06,
        0x07,
        0x08,
        // property 12 of length 2, val = 0xdde2
        12 + (2 - 1) * 32u8,
        0xdd,
        0xe2,
        // property 7 of length 4, val = 0xaacb3211
        7 + (4 - 1) * 32u8,
        0xaa,
        0xcb,
        0x32,
        0x11,
        // property 3 of length 2, val = 0x1234
        3 + (2 - 1) * 32u8,
        0x12,
        0x34,
        // termination byte
        0x00,
    ];
    let memory = Memory::from(blob);
    let ptr = BytePtr::new(3);
    let prop_table = MemoryMappedPropertyTable {
        ptr,
        text_len: memory.u8_at(ptr.to_raw()),
    };

    assert_eq!(None, prop_table.find_property(21, &memory).unwrap());
    assert_eq!(None, prop_table.find_property(9, &memory).unwrap());
    assert_eq!(None, prop_table.find_property(1, &memory).unwrap());

    assert_eq!(
        Some((2, BytePtr::new(18))),
        prop_table.find_property(12, &memory).unwrap()
    );
    assert_eq!(
        Some((4, BytePtr::new(21))),
        prop_table.find_property(7, &memory).unwrap()
    );
    assert_eq!(
        Some((2, BytePtr::new(26))),
        prop_table.find_property(3, &memory).unwrap()
    );
}

#[test]
fn test_mock_object_table() {
    let storage = MockObjectTableStorage::new();
    assert_eq!(0, storage.len());
    let object_table = MockObjectTable::new();
    let object = object_table.object_with_number(1);
    assert_eq!(1, object.object_number);

    let object = object_table.object_with_number(2);
    assert_eq!(2, object.object_number);

    let object = object_table.object_with_number(3);
    assert_eq!(3, object.object_number);

    let object = object_table.object_with_number(6);
    assert_eq!(6, object.object_number);
}

#[test]
fn test_mock_objects() {
    let mut storage = MockObjectTableStorage::new();
    storage.add_mock_object(0x3456789a, 0x12, 0x13, 0x23);

    let object_table = MockObjectTable::new();
    let obj = object_table.object_with_number(1);

    assert_eq!(0x3456789a, obj.attributes(&storage));
    assert_eq!(0x12, obj.parent(&storage));
    assert_eq!(0x13, obj.sibling(&storage));
    assert_eq!(0x23, obj.child(&storage));

    obj.set_attributes(0x55667788, &mut storage);
    obj.set_parent(0x11, &mut storage);
    obj.set_sibling(0x77, &mut storage);
    obj.set_child(0xcc, &mut storage);

    assert_eq!(0x55667788, obj.attributes(&storage));
    assert_eq!(0x11, obj.parent(&storage));
    assert_eq!(0x77, obj.sibling(&storage));
    assert_eq!(0xcc, obj.child(&storage));
}

#[test]
fn test_insert_0_obj() {
    let mut storage = MockObjectTableStorage::new();
    let table = MockObjectTable::new();
    table.insert_obj(&mut storage, 0, 0).unwrap();
}

#[test]
fn test_remove_has_no_current_parent() {
    let mut storage = MockObjectTableStorage::new();
    storage.add_mock_object(0x11223344, 0, 0, 0);
    let storage2 = storage.clone();

    let table = MockObjectTable::new();
    table.remove_object_from_parent(&mut storage, 1).unwrap();

    assert_eq!(storage, storage2);
}

#[test]
fn test_remove_obj_is_child() {
    let mut storage = MockObjectTableStorage::new();
    // 1
    // +-2
    //   3
    //   4
    storage.add_mock_object(0x11223344, 0, 0, 2); // 1
    storage.add_mock_object(0x11223344, 1, 3, 0); // 2
    storage.add_mock_object(0x11223344, 1, 4, 0); // 3
    storage.add_mock_object(0x11223344, 1, 0, 0); // 4

    let table = MockObjectTable::new();
    table.remove_object_from_parent(&mut storage, 2).unwrap();

    let mut storage2 = MockObjectTableStorage::new();
    // 1
    // +-3
    //   4
    // 2
    storage2.add_mock_object(0x11223344, 0, 0, 3); // 1
    storage2.add_mock_object(0x11223344, 0, 0, 0); // 2
    storage2.add_mock_object(0x11223344, 1, 4, 0); // 3
    storage2.add_mock_object(0x11223344, 1, 0, 0); // 4

    assert_eq!(storage, storage2);
}

#[test]
fn test_remove_obj_is_in_sibling_list() {
    let mut storage = MockObjectTableStorage::new();
    // 1
    // +-2
    //   3
    //   4
    storage.add_mock_object(0x11223344, 0, 0, 2); // 1
    storage.add_mock_object(0x11223344, 1, 3, 0); // 2
    storage.add_mock_object(0x11223344, 1, 4, 0); // 3
    storage.add_mock_object(0x11223344, 1, 0, 0); // 4

    let table = MockObjectTable::new();
    table.remove_object_from_parent(&mut storage, 3).unwrap();

    let mut storage2 = MockObjectTableStorage::new();
    // 1
    // +-2
    //   4
    // 3
    storage2.add_mock_object(0x11223344, 0, 0, 2); // 1
    storage2.add_mock_object(0x11223344, 1, 4, 0); // 2
    storage2.add_mock_object(0x11223344, 0, 0, 0); // 3
    storage2.add_mock_object(0x11223344, 1, 0, 0); // 4

    assert_eq!(storage, storage2);
}

#[test]
fn test_add_obj() {
    let mut storage = MockObjectTableStorage::new();
    storage.add_mock_object(0x11223344, 0, 0, 0); // 1
    storage.add_mock_object(0x11223344, 0, 0, 0); // 2
    storage.add_mock_object(0x11223344, 0, 0, 0); // 3
    storage.add_mock_object(0x11223344, 0, 0, 0); // 4
    storage.add_mock_object(0x11223344, 0, 0, 0); // 5

    let table = MockObjectTable::new();
    table.add_object_to_parent(&mut storage, 2, 1).unwrap();
    table.add_object_to_parent(&mut storage, 3, 1).unwrap();
    table.add_object_to_parent(&mut storage, 4, 1).unwrap();

    let mut storage2 = MockObjectTableStorage::new();
    storage2.add_mock_object(0x11223344, 0, 0, 4); // 1
    storage2.add_mock_object(0x11223344, 1, 0, 0); // 2
    storage2.add_mock_object(0x11223344, 1, 2, 0); // 3
    storage2.add_mock_object(0x11223344, 1, 3, 0); // 4
    storage2.add_mock_object(0x11223344, 0, 0, 0); // 5

    assert_eq!(storage, storage2);
}

#[test]
fn test_insert_obj_zeros() {
    // Inserting the null object, or into the null destination, does
    // nothing; exercised concretely in test_insert_0_obj.
}

#[test]
fn test_je() {
    // The je opcode is exercised end to end by the scenario tests.
}

#[test]
fn test_14_bits() {
    assert_eq!(0, rzm::fourteen_bit_signed(0, 0));
    assert_eq!(1, rzm::fourteen_bit_signed(0, 1));
    assert_eq!(8191, rzm::fourteen_bit_signed(0b00011111, 0b11111111));
    assert_eq!(-1, rzm::fourteen_bit_signed(0b00111111, 0b11111111));
    assert_eq!(-8192, rzm::fourteen_bit_signed(0b00100000, 0b00000000));
}

#[test]
fn test_from() {
    let memory = Memory::from(vec![0, 1, 2, 3, 4, 5]);
    assert_eq!(6, memory.size());
}

#[test]
fn test_memory() {
    let memory: Memory = From::from(vec![0, 1, 2, 3, 4, 5, 6, 7, 8, 9]);

    let mut pc = PC::new(BytePtr::new(2).to_raw());
    assert_eq!(2, pc.next_byte(&memory));
    assert_eq!(3, pc.pc().ptr());

    assert_eq!(0x0304, pc.next_word(&memory));
    assert_eq!(5, pc.pc().ptr());
}

#[test]
fn test_capacity() {
    let stack = Stack::new(100);
    assert_eq!(100, stack.size());

    let mut stack = Stack::new(256);
    assert_eq!(256, stack.size());

    // We should be able to push bytes into this stack up to its size.
    let start = stack.sp();
    for i in 0..((255 - start) as u8) {
        stack.push_u8(i);
    }
}

#[test]
fn test_push_u8() {
    let mut stack = Stack::new(100);
    stack.push_u8(5);
    stack.push_u8(10);
    stack.push_u8(15);
    let base = stack.base_sp();
    assert_eq!(5, stack.byte_at(base));
    assert_eq!(10, stack.byte_at(base + 1));
    assert_eq!(15, stack.byte_at(base + 2));
}
