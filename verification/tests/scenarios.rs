//! End-to-end scenarios: small story images run through the full
//! fetch–decode–execute loop.

use rzm::{Error, ZMachine};

const GLOBALS: usize = 0x40;
const CODE: usize = 0x240;

/// A story image: version 3, globals at 0x40, everything dynamic, the
/// given code at 0x240.
fn image(code: &[u8]) -> Vec<u8> {
    let mut bytes = vec![0u8; 0x400];
    bytes[0x00] = 3; // version
    bytes[0x06] = (CODE >> 8) as u8; // starting PC
    bytes[0x07] = (CODE & 0xff) as u8;
    bytes[0x0c] = (GLOBALS >> 8) as u8; // globals base
    bytes[0x0d] = (GLOBALS & 0xff) as u8;
    bytes[0x0e] = 0x04; // static base: the whole image is dynamic
    bytes[0x0f] = 0x00;
    for (i, b) in code.iter().enumerate() {
        bytes[CODE + i] = *b;
    }
    bytes
}

/// Run until the quit opcode; panic on any real error.
fn run_to_quit(vm: &mut ZMachine) {
    for _ in 0..10000 {
        match vm.process_opcode() {
            Ok(()) => {}
            Err(Error::Quitting) => return,
            Err(e) => panic!("unexpected error: {:?}", e),
        }
    }
    panic!("did not quit");
}

#[test]
fn test_s1_add_store_print_num() {
    // add #32, #43 -> sp; print_num sp; quit
    let code = [
        0x14, 32, 43, 0x00, // add (long form, two small constants) -> stack
        0xe6, 0xbf, 0x00, // print_num sp (variable form)
        0xba, // quit
    ];
    let mut vm = ZMachine::from_bytes(image(&code), 0).unwrap();
    run_to_quit(&mut vm);
    assert_eq!(b"75".to_vec(), vm.take_main_output());
}

#[test]
fn test_s2_add_overflow() {
    // add #-30000, #-30000 -> sp; print_num sp; quit
    let code = [
        0xd4, 0x0f, 0x8a, 0xd0, 0x8a, 0xd0, 0x00, // add (variable form, two large constants)
        0xe6, 0xbf, 0x00, // print_num sp
        0xba, // quit
    ];
    let mut vm = ZMachine::from_bytes(image(&code), 0).unwrap();
    run_to_quit(&mut vm);
    // The signed sum -60000 truncates to 16 bits as 5536, which is what
    // print_num shows.
    assert_eq!(b"5536".to_vec(), vm.take_main_output());
}

#[test]
fn test_s3_loop_via_branch() {
    // Routine with one local: L: inc_chk local0, #3 ?~L; print_num local0; quit
    // The routine sits at 0x300 (packed address 0x180).
    let mut bytes = image(&[
        0xe0, 0x3f, 0x01, 0x80, 0x00, // call 0x180 -> sp
        0xba, // quit (never reached; the routine quits)
    ]);
    let routine: [u8; 12] = [
        0x01, // one local
        0x00, 0x00, // its default value
        0x05, 0x01, 0x03, // inc_chk local0, #3 ...
        0x3f, 0xfd, // ... branch on false, offset -3 (back to inc_chk)
        0xe6, 0xbf, 0x01, // print_num local0
        0xba, // quit
    ];
    for (i, b) in routine.iter().enumerate() {
        bytes[0x300 + i] = *b;
    }
    let mut vm = ZMachine::from_bytes(bytes, 0).unwrap();
    run_to_quit(&mut vm);
    assert_eq!(b"4".to_vec(), vm.take_main_output());
}

#[test]
fn test_s4_call_ret() {
    // Routine R: 1 local, body = ret local0.  Main: call R, #7 -> g0;
    // print_num g0; quit.
    let mut bytes = image(&[
        0xe0, 0x1f, 0x01, 0x80, 0x07, 0x10, // call 0x180, #7 -> g0
        0xe6, 0xbf, 0x10, // print_num g0
        0xba, // quit
    ]);
    let routine: [u8; 5] = [
        0x01, // one local
        0x00, 0x00, // its default value
        0xab, 0x01, // ret local0
    ];
    for (i, b) in routine.iter().enumerate() {
        bytes[0x300 + i] = *b;
    }
    let mut vm = ZMachine::from_bytes(bytes, 0).unwrap();
    run_to_quit(&mut vm);
    assert_eq!(b"7".to_vec(), vm.take_main_output());
}

#[test]
fn test_s5_object_tree() {
    // Objects {1 (no parent), 2 (no parent), 3 (child of 1)}; execute
    // insert_obj 3, 2.
    let mut bytes = image(&[
        0x0e, 0x03, 0x02, // insert_obj 3, 2
        0xba, // quit
    ]);
    let table: usize = 0x100;
    bytes[0x0a] = (table >> 8) as u8;
    bytes[0x0b] = (table & 0xff) as u8;
    let records = table + 62;
    // object 1: child 3
    bytes[records + 6] = 3;
    // object 2: nothing
    // object 3: parent 1
    bytes[records + 2 * 9 + 4] = 1;
    let mut vm = ZMachine::from_bytes(bytes, 0).unwrap();
    run_to_quit(&mut vm);
    assert_eq!(2, vm.obj_parent(3).unwrap());
    assert_eq!(3, vm.obj_child(2).unwrap());
    assert_eq!(0, vm.obj_child(1).unwrap());
    assert_eq!(0, vm.obj_sibling(3).unwrap());
}

#[test]
fn test_s7_dictionary_tokenize() {
    // Text buffer input "hi, sailor\n" with a dictionary holding "hi",
    // "," and "sailor".
    let tbuf: usize = 0x50;
    let pbuf: usize = 0x80;
    let mut bytes = image(&[
        0xe4, 0x0f, 0x00, 0x50, 0x00, 0x80, // read tbuf pbuf
        0xba, // quit
    ]);
    let dict: usize = 0x100;
    bytes[0x08] = (dict >> 8) as u8;
    bytes[0x09] = (dict & 0xff) as u8;
    bytes[dict] = 0; // no separators recorded in the sub-table
    bytes[dict + 1] = 4; // entry length
    bytes[dict + 2] = 0; // entry count, big-endian
    bytes[dict + 3] = 3;
    let entries = dict + 4;
    // "hi": z-chars [13, 14, 5] with the stop bit
    bytes[entries] = 0xb5;
    bytes[entries + 1] = 0xc5;
    // ",": z-chars [5, 19, 5] with the stop bit
    bytes[entries + 4] = 0x96;
    bytes[entries + 5] = 0x65;
    // "sailor": [24, 6, 14], [17, 20, 23] with the stop bit on the second
    bytes[entries + 8] = 0x60;
    bytes[entries + 9] = 0xce;
    bytes[entries + 10] = 0xc6;
    bytes[entries + 11] = 0x97;
    bytes[tbuf] = 30; // text-buffer capacity
    bytes[pbuf] = 10; // parse-buffer capacity in tokens
    let mut vm = ZMachine::from_bytes(bytes, 0).unwrap();
    // The read opcode leaves a pending input request.
    vm.process_opcode().unwrap();
    let pending = vm.pending_read().unwrap();
    assert_eq!((tbuf as u16, pbuf as u16), pending);
    rzm::finish_read(&mut vm, &b"hi, sailor\n".to_vec()).unwrap();
    run_to_quit(&mut vm);
    // Three tokens.
    let count = vm.read_memory_u8(rzm::RawPtr::new(pbuf + 1)).unwrap();
    assert_eq!(3, count);
    // "hi": found, length 2, offset 1.
    let rec0 = pbuf + 2;
    assert_eq!(
        entries as u16,
        vm.read_memory(rzm::RawPtr::new(rec0)).unwrap()
    );
    assert_eq!(2, vm.read_memory_u8(rzm::RawPtr::new(rec0 + 2)).unwrap());
    assert_eq!(1, vm.read_memory_u8(rzm::RawPtr::new(rec0 + 3)).unwrap());
    // ",": found, length 1, offset 3.
    let rec1 = pbuf + 6;
    assert_eq!(
        (entries + 4) as u16,
        vm.read_memory(rzm::RawPtr::new(rec1)).unwrap()
    );
    assert_eq!(1, vm.read_memory_u8(rzm::RawPtr::new(rec1 + 2)).unwrap());
    assert_eq!(3, vm.read_memory_u8(rzm::RawPtr::new(rec1 + 3)).unwrap());
    // "sailor": found, length 6, offset 5.
    let rec2 = pbuf + 10;
    assert_eq!(
        (entries + 8) as u16,
        vm.read_memory(rzm::RawPtr::new(rec2)).unwrap()
    );
    assert_eq!(6, vm.read_memory_u8(rzm::RawPtr::new(rec2 + 2)).unwrap());
    assert_eq!(5, vm.read_memory_u8(rzm::RawPtr::new(rec2 + 3)).unwrap());
}

#[test]
fn test_restart_restores_memory() {
    // Write a global, restart, and observe the load-time value again.
    let code = [
        0x0d, 0x10, 0x2a, // store g0, #42 (long form: two small constants)
        0xba, // quit
    ];
    let mut vm = ZMachine::from_bytes(image(&code), 0).unwrap();
    assert_eq!(0, vm.read_global(0).unwrap());
    run_to_quit(&mut vm);
    assert_eq!(42, vm.read_global(0).unwrap());
    vm.restart();
    assert_eq!(0, vm.read_global(0).unwrap());
}

#[test]
fn test_restart_sentinel() {
    let code = [
        0xb7, // restart
    ];
    let mut vm = ZMachine::from_bytes(image(&code), 0).unwrap();
    assert_eq!(Err(Error::Restart), vm.process_opcode());
}

#[test]
fn test_unknown_opcode_reported() {
    let code = [
        0xbe, // an unimplemented zero-operand opcode
    ];
    let mut vm = ZMachine::from_bytes(image(&code), 0).unwrap();
    match vm.process_opcode() {
        Err(Error::UnknownOpcode(_, n, pc)) => {
            assert_eq!(0x0e, n);
            assert_eq!(CODE, pc);
        }
        other => panic!("expected an unknown-opcode error: {:?}", other),
    }
}

#[test]
fn test_header_too_short() {
    assert_eq!(
        Err(Error::CouldNotReadHeader),
        ZMachine::from_bytes(vec![0u8; 10], 0).map(|_| ())
    );
}

#[test]
fn test_file_length_too_long() {
    let mut bytes = image(&[0xba]);
    // Declare more useful bytes than provided (the header word is doubled).
    bytes[0x1a] = 0x40;
    bytes[0x1b] = 0x00;
    assert_eq!(
        Err(Error::ZFileTooShort),
        ZMachine::from_bytes(bytes, 0).map(|_| ())
    );
}

#[test]
fn test_stack_underflow_is_fatal() {
    let code = [
        0xb9, // pop, with an empty evaluation stack
    ];
    let mut vm = ZMachine::from_bytes(image(&code), 0).unwrap();
    assert_eq!(Err(Error::Fatal), vm.process_opcode());
}

#[test]
fn test_save_produces_quetzal_form() {
    let code = [
        0xb5, 0x40, // save, branching forward on success
        0xba, // quit
    ];
    let mut vm = ZMachine::from_bytes(image(&code), 0).unwrap();
    run_to_quit(&mut vm);
    let saved = vm.take_save_output().unwrap();
    assert_eq!(b"FORM", &saved[0..4]);
    assert_eq!(b"IFZS", &saved[8..12]);
    assert_eq!(b"IFhd", &saved[12..16]);
    // IFhd carries 13 bytes: release, serial, checksum, then the pc.
    assert_eq!(13u32, u32::from_be_bytes(saved[16..20].try_into().unwrap()));
    let mem = vm.memory();
    let release = [mem.u8_at_index(0x02), mem.u8_at_index(0x03)];
    assert_eq!(release, saved[20..22]);
    let serial: Vec<u8> = (0x12..0x18).map(|i| mem.u8_at_index(i)).collect();
    assert_eq!(serial, saved[22..28]);
    let checksum = [mem.u8_at_index(0x1c), mem.u8_at_index(0x1d)];
    assert_eq!(checksum, saved[28..30]);
    // After a pad byte the UMem chunk copies all of dynamic memory.
    assert_eq!(b"UMem", &saved[34..38]);
    let sbase = mem.static_base();
    assert_eq!(sbase as u32, u32::from_be_bytes(saved[38..42].try_into().unwrap()));
    let dynamic: Vec<u8> = (0..sbase).map(|i| mem.u8_at_index(i)).collect();
    assert_eq!(dynamic, saved[42..42 + sbase]);
    // The Stks chunk follows and runs to the end of the container.
    let stks_at = 42 + sbase;
    assert_eq!(b"Stks", &saved[stks_at..stks_at + 4]);
    let stks_len =
        u32::from_be_bytes(saved[stks_at + 4..stks_at + 8].try_into().unwrap()) as usize;
    assert_eq!(saved.len(), stks_at + 8 + stks_len);
}

#[test]
fn test_store_replaces_stack_top() {
    // push #5; push #6; store sp, #9; pull g0; print_num g0 shows 9, and
    // the 5 beneath is untouched.
    let code = [
        0xe8, 0x7f, 0x05, // push #5
        0xe8, 0x7f, 0x06, // push #6
        0x0d, 0x00, 0x09, // store sp, #9: replace the top
        0xe9, 0x7f, 0x10, // pull g0
        0xe6, 0xbf, 0x00, // print_num sp: the 5 beneath
        0xba, // quit
    ];
    let mut vm = ZMachine::from_bytes(image(&code), 0).unwrap();
    run_to_quit(&mut vm);
    assert_eq!(b"5".to_vec(), vm.take_main_output());
    assert_eq!(9, vm.read_global(0).unwrap());
}

#[test]
fn test_je_branches_on_equal() {
    // je #7, #7 with a branch-on-true target of +3 skips a print.
    let code = [
        0x01, 0x07, 0x07, 0xc5, // je #7, #7, branching over the next print_num
        0xe6, 0xbf, 0x00, // print_num sp (skipped)
        0xe6, 0x7f, 0x63, // print_num #99
        0xba, // quit
    ];
    let mut vm = ZMachine::from_bytes(image(&code), 0).unwrap();
    run_to_quit(&mut vm);
    assert_eq!(b"99".to_vec(), vm.take_main_output());
}
