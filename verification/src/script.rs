//! Tokenized Bitcoin scripts: a script is an ordered sequence of
//! `ScriptBit` items (plain opcodes, direct pushes, and length-prefixed
//! pushdata), with the standard byte serialization.

use crate::serial::{push_bytes, push_u16_le, push_u32_le, u16_le_bytes, u32_le_bytes};
use vstd::prelude::*;

verus! {

/// One item of a tokenized script.  An opcode is carried as its byte value.
#[derive(Clone, Debug)]
pub enum ScriptBit {
    /// A single opcode byte that is not a data push.
    OpCode(u8),
    /// A direct push of 1..=75 bytes, length-prefixed by one byte.
    Push(Vec<u8>),
    /// A push through `OP_PUSHDATA1/2/4` (0x4c/0x4d/0x4e).
    PushData(u8, Vec<u8>),
}

/// The mathematical shape of a `ScriptBit`, with payloads as byte sequences.
pub enum ScriptBitModel {
    OpCode(u8),
    Push(Seq<u8>),
    PushData(u8, Seq<u8>),
}

impl View for ScriptBit {
    type V = ScriptBitModel;

    open spec fn view(&self) -> ScriptBitModel {
        match self {
            ScriptBit::OpCode(op) => ScriptBitModel::OpCode(*op),
            ScriptBit::Push(data) => ScriptBitModel::Push(data@),
            ScriptBit::PushData(op, data) => ScriptBitModel::PushData(*op, data@),
        }
    }
}

/// A script, viewed as the sequence of its bits' models.
#[derive(Clone, Debug)]
pub struct Script(pub Vec<ScriptBit>);

impl View for Script {
    type V = Seq<ScriptBitModel>;

    open spec fn view(&self) -> Seq<ScriptBitModel> {
        self.0@.map_values(|b: ScriptBit| b@)
    }
}

/// A bit is well formed when its payload length fits the encoding that
/// carries it: a direct push holds 1..=75 bytes, and each pushdata form
/// holds no more than its length prefix can express.
pub open spec fn bit_wf(b: ScriptBitModel) -> bool {
    match b {
        ScriptBitModel::OpCode(_) => true,
        ScriptBitModel::Push(data) => 1 <= data.len() <= 75,
        ScriptBitModel::PushData(op, data) => {
            ||| op == 0x4c && data.len() <= 0xff
            ||| op == 0x4d && data.len() <= 0xffff
            ||| op == 0x4e && data.len() <= 0xffffffff
        },
    }
}

pub open spec fn script_wf(s: Seq<ScriptBitModel>) -> bool {
    forall|i: int| 0 <= i < s.len() ==> bit_wf(#[trigger] s[i])
}

/// The byte serialization of one bit: the opcode byte, a one-byte
/// length-prefixed push, or a pushdata opcode followed by its 1/2/4-byte
/// little-endian length and the payload.
pub open spec fn bit_bytes(b: ScriptBitModel) -> Seq<u8> {
    match b {
        ScriptBitModel::OpCode(op) => seq![op],
        ScriptBitModel::Push(data) => seq![data.len() as u8] + data,
        ScriptBitModel::PushData(op, data) => {
            if op == 0x4c {
                seq![op, data.len() as u8] + data
            } else if op == 0x4d {
                seq![op] + u16_le_bytes(data.len() as u16) + data
            } else {
                seq![op] + u32_le_bytes(data.len() as u32) + data
            }
        },
    }
}

/// The byte serialization of a whole script, bit by bit.
pub open spec fn script_bytes(s: Seq<ScriptBitModel>) -> Seq<u8>
    decreases s.len(),
{
    if s.len() == 0 {
        Seq::empty()
    } else {
        script_bytes(s.drop_last()) + bit_bytes(s.last())
    }
}

impl Script {
    pub fn new(bits: Vec<ScriptBit>) -> (r: Script)
        ensures
            r@ == bits@.map_values(|b: ScriptBit| b@),
    {
        Script(bits)
    }

    /// Serializes the script to raw bytes.
    pub fn to_bytes(&self) -> (r: Vec<u8>)
        requires
            script_wf(self@),
        ensures
            r@ == script_bytes(self@),
    {
        let mut out: Vec<u8> = Vec::new();
        let n = self.0.len();
        let mut i: usize = 0;
        proof {
            assert(self@.subrange(0, 0) =~= Seq::<ScriptBitModel>::empty());
        }
        while i < n
            invariant
                n == self.0.len(),
                i <= n,
                script_wf(self@),
                self@.len() == n,
                out@ == script_bytes(self@.subrange(0, i as int)),
            decreases n - i,
        {
            proof {
                assert(self@[i as int] == self.0@[i as int]@);
                assert(bit_wf(self@[i as int]));
            }
            match &self.0[i] {
                ScriptBit::OpCode(op) => {
                    out.push(*op);
                },
                ScriptBit::Push(data) => {
                    out.push(data.len() as u8);
                    push_bytes(&mut out, data.as_slice());
                },
                ScriptBit::PushData(op, data) => {
                    out.push(*op);
                    if *op == 0x4c {
                        out.push(data.len() as u8);
                    } else if *op == 0x4d {
                        push_u16_le(&mut out, data.len() as u16);
                    } else {
                        push_u32_le(&mut out, data.len() as u32);
                    }
                    push_bytes(&mut out, data.as_slice());
                },
            }
            i = i + 1;
            proof {
                assert(self@.subrange(0, i as int).drop_last() =~= self@.subrange(
                    0,
                    i as int - 1,
                ));
                assert(self@.subrange(0, i as int).last() == self@[i as int - 1]);
                assert(out@ =~= script_bytes(self@.subrange(0, i as int)));
            }
        }
        proof {
            assert(self@.subrange(0, n as int) =~= self@);
        }
        out
    }
}

} // verus!
