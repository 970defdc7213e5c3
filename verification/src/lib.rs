//! A verified core for a Z-Machine version 3 interpreter: the byte-oriented,
//! big-endian virtual machine that executes compiled interactive-fiction
//! story files.
//!
//! The crate holds the execution engine: the instruction decoder and
//! dispatcher, the call stack with frames and local variables, the memory
//! model with its pointer disciplines and global-variable table, the
//! object/property database, the ZSCII text decoder, and the dictionary
//! tokenizer. Terminal I/O and file handling are left to the host.

use vstd::prelude::*;

mod result;
mod ptrs;
mod memory;
mod pc;
mod stack;
mod variable;
mod object_table;
mod mock_object_table;
mod mm_object_table;
mod text;
mod dictionary;
mod rng;
mod zconfig;
mod zmachine;
mod ops;
mod binop;
mod branch;
mod stackops;
mod call;
mod load;
mod properties;
mod input;
mod zvm;
mod quetzal;
mod coord;
mod header;
mod board;
mod direction;

pub use crate::result::{Error, OpcodeFamily, ZResult};
pub use crate::ptrs::{BytePtr, PackedAddr, RawPtr, WordPtr};
pub use crate::memory::Memory;
pub use crate::pc::PC;
pub use crate::stack::{Stack, StackModel};
pub use crate::variable::VariableRef;
pub use crate::object_table::{ObjRec, ZObjectTable};
pub use crate::mock_object_table::{MockObject, MockObjectRep, MockObjectTable, MockObjectTableStorage};
pub use crate::mm_object_table::{MemoryMappedObject, MemoryMappedObjectTable, MemoryMappedPropertyTable};
pub use crate::text::{decode_at, decode_string_at, decode_zchars, new_line_0x0b, print_0x02, print_addr_0x07, print_char_0x05, print_num_0x06, print_obj_0x0a, print_paddr_0x0d, print_ret_0x03, read_zwords, show_status_0x0c, signed_dec, split_zchars};
pub use crate::dictionary::Dictionary;
pub use crate::rng::ZRng;
pub use crate::zconfig::{ZConfig, ZConfigStack, ZDefaults};
pub use crate::zmachine::{ZMachine, ZView};
pub use crate::ops::Operand;
pub use crate::binop::{add_0x14, and_0x09, div_0x17, mod_0x18, mul_0x16, or_0x08, sub_0x15};
pub use crate::stackops::{pop_0x09, pull_0x09, push_0x08};
pub use crate::quetzal::{Chunk, Quetzal};
pub use crate::coord::Coord;
pub use crate::header::Header;
pub use crate::board::Board;
pub use crate::direction::{xdelta, ydelta, Direction};
pub use crate::zvm::{quit_0x0a, restart_0x07, restore_0x06, save_0x05, verify_0x0d};
pub use crate::stack::{FrameInfo};
pub use crate::input::{char_type, finish_read, lookup_in_dictionary, read_0x04, to_lower, tokenize, CharType, Token};
pub use crate::properties::{clear_attr_0x0c, get_next_prop_0x13, get_parent_0x03, get_prop_0x11, get_prop_addr_0x12, get_prop_len_0x04, insert_obj_0x0e, put_prop_0x03, remove_obj_0x09, set_attr_0x0b, test_attr_0x0a};
pub use crate::load::{dec_0x06, inc_0x05, load_0x0e, loadb_0x10, loadw_0x0f, random_0x07, store_0x0d, storeb_0x02, storew_0x01};
pub use crate::call::{call_0x00, nop_0x04, ret_0x0b, ret_popped_0x08, rfalse_0x01, rtrue_0x00};
pub use crate::branch::{branch_on_condition, dec_chk_0x04, fourteen_bit_signed, get_child_0x02, get_sibling_0x01, inc_chk_0x05, je_0x01, jg_0x03, jin_0x06, jl_0x02, jump_0x0c, jz_0x00, test_0x07};

verus! {

/// The fixed size of the story-file header in bytes.
pub const HEADER_SIZE: usize = 64;

} // verus!
