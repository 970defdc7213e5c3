//! Variable references and their single-byte wire form.
//!
//! A byte encodes: `0x00` — the top of the current evaluation stack
//! (consuming on read, pushing on write); `0x01`–`0x0f` — a local of the
//! current frame; `0x10`–`0xff` — a global variable.

use vstd::prelude::*;

verus! {

#[derive(Clone, Copy, Debug, PartialEq, Eq, Structural)]
pub enum VariableRef {
    Stack,
    Local(u8),
    Global(u8),
}

impl VariableRef {
    /// The variable a byte designates.  Total over `u8`.
    pub open spec fn spec_decode(encoded: u8) -> VariableRef {
        if encoded == 0 {
            VariableRef::Stack
        } else if encoded <= 0x0f {
            VariableRef::Local((encoded - 1) as u8)
        } else {
            VariableRef::Global((encoded - 0x10) as u8)
        }
    }

    /// The wire form of a variable reference.
    pub open spec fn spec_encode(variable: VariableRef) -> int {
        match variable {
            VariableRef::Stack => 0,
            VariableRef::Local(local_idx) => 0x01 + local_idx,
            VariableRef::Global(global_idx) => 0x10 + global_idx,
        }
    }

    /// A reference that the wire form can represent: a local index below
    /// 15 and a global index below 240.
    pub open spec fn encodable(variable: VariableRef) -> bool {
        match variable {
            VariableRef::Stack => true,
            VariableRef::Local(local_idx) => local_idx < 15,
            VariableRef::Global(global_idx) => global_idx < 240,
        }
    }

    pub fn decode(encoded: u8) -> (r: VariableRef)
        ensures
            r == VariableRef::spec_decode(encoded),
            VariableRef::encodable(r),
    {
        if encoded == 0x00 {
            VariableRef::Stack
        } else if encoded <= 0x0f {
            VariableRef::Local(encoded - 0x01)
        } else {
            VariableRef::Global(encoded - 0x10)
        }
    }

    pub fn encode(variable: VariableRef) -> (r: u8)
        requires
            VariableRef::encodable(variable),
        ensures
            r == VariableRef::spec_encode(variable),
    {
        match variable {
            VariableRef::Stack => 0,
            VariableRef::Local(local_idx) => 0x01 + local_idx,
            VariableRef::Global(global_idx) => 0x10 + global_idx,
        }
    }
}

/// Decoding is a retraction of encoding: for every byte `v`, re-encoding
/// the variable it designates and decoding again yields the same variable;
/// and the byte ranges map exactly as the format prescribes.
pub proof fn lemma_variable_ref_round_trip(v: u8)
    ensures
        VariableRef::spec_decode(VariableRef::spec_encode(VariableRef::spec_decode(v)) as u8)
            == VariableRef::spec_decode(v),
        v == 0 ==> VariableRef::spec_decode(v) == VariableRef::Stack,
        1 <= v <= 15 ==> VariableRef::spec_decode(v) == VariableRef::Local((v - 1) as u8),
        16 <= v ==> VariableRef::spec_decode(v) == VariableRef::Global((v - 16) as u8),
{
}

/// Encoding an encodable reference and decoding the byte yields the same
/// reference.
pub proof fn lemma_variable_ref_encode_decode(v: VariableRef)
    requires
        VariableRef::encodable(v),
    ensures
        VariableRef::spec_decode(VariableRef::spec_encode(v) as u8) == v,
{
}

} // verus!
