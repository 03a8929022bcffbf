//! The SIGHASH engine: flag model, memoization cache, preimage builder,
//! digest and signer for Bitcoin-SV transactions.

use crate::crypto::{der_sig_of, ecdsa_sign_der, priv_key_valid, sha256d, sha256d_of, sign_ok_of};
use crate::script::{script_bytes, script_wf, Script};
use crate::serial::{
    bytes_eq, clone_bytes, make_zero32, push_bytes, push_u32_le, push_u64_le, push_varint,
    u32_le_bytes, u64_le_bytes, varint_bytes, zero32,
};
use vstd::string::StringSliceAdditionalSpecFns;
use vstd::prelude::*;

verus! {

/// The recognized SIGHASH flag combinations.  `InputsOutputs`, `Inputs` and
/// `InputsOutput` are `ALL`, `NONE` and `SINGLE` with `FORKID`;
/// `InputOutputs`, `Input` and `InputOutput` add `ANYONECANPAY` to those.
#[allow(non_camel_case_types)]
#[derive(Clone, Copy, Debug, PartialEq, Eq, Structural)]
pub enum SigHash {
    FORKID,
    ALL,
    NONE,
    SINGLE,
    ANYONECANPAY,
    InputsOutputs,
    Inputs,
    InputsOutput,
    InputOutputs,
    Input,
    InputOutput,
}

/// The one-byte numeric value of a flag.
pub open spec fn spec_sighash_u8(s: SigHash) -> u8 {
    match s {
        SigHash::FORKID => 0x40,
        SigHash::ALL => 0x01,
        SigHash::NONE => 0x02,
        SigHash::SINGLE => 0x03,
        SigHash::ANYONECANPAY => 0x80,
        SigHash::InputsOutputs => 0x41,
        SigHash::Inputs => 0x42,
        SigHash::InputsOutput => 0x43,
        SigHash::InputOutputs => 0xc1,
        SigHash::Input => 0xc2,
        SigHash::InputOutput => 0xc3,
    }
}

/// The flag carried by a numeric value, if the value is in the enumerated set.
pub open spec fn spec_sighash_from_u8(v: u8) -> Option<SigHash> {
    if v == 0x40 {
        Some(SigHash::FORKID)
    } else if v == 0x01 {
        Some(SigHash::ALL)
    } else if v == 0x02 {
        Some(SigHash::NONE)
    } else if v == 0x03 {
        Some(SigHash::SINGLE)
    } else if v == 0x80 {
        Some(SigHash::ANYONECANPAY)
    } else if v == 0x41 {
        Some(SigHash::InputsOutputs)
    } else if v == 0x42 {
        Some(SigHash::Inputs)
    } else if v == 0x43 {
        Some(SigHash::InputsOutput)
    } else if v == 0xc1 {
        Some(SigHash::InputOutputs)
    } else if v == 0xc2 {
        Some(SigHash::Input)
    } else if v == 0xc3 {
        Some(SigHash::InputOutput)
    } else {
        None
    }
}

/// Whether the flag commits only to the current input (the `ANYONECANPAY`
/// bit is set).
pub open spec fn has_anyonecanpay(s: SigHash) -> bool {
    ||| s == SigHash::ANYONECANPAY
    ||| s == SigHash::Input
    ||| s == SigHash::InputOutput
    ||| s == SigHash::InputOutputs
}

/// Whether the flag hashes the input sequence numbers (only plain `ALL` and
/// `ALL|FORKID` do; every other mode zeroes `hashSequence`).
pub open spec fn hashes_sequences(s: SigHash) -> bool {
    s == SigHash::ALL || s == SigHash::InputsOutputs
}

/// Whether the outputs mode is `SINGLE` (raw, with `FORKID`, or with
/// `ANYONECANPAY|FORKID`).
pub open spec fn outputs_single(s: SigHash) -> bool {
    s == SigHash::SINGLE || s == SigHash::InputOutput || s == SigHash::InputsOutput
}

/// Whether the outputs mode is `ALL` (raw, with `FORKID`, or with
/// `ANYONECANPAY|FORKID`).
pub open spec fn outputs_all(s: SigHash) -> bool {
    s == SigHash::ALL || s == SigHash::InputOutputs || s == SigHash::InputsOutputs
}

/// Raised when a flag value, an index or the signer is rejected.
#[derive(Clone, Copy, Debug, PartialEq, Eq, Structural)]
pub enum TxError {
    /// An input or output index beyond the transaction's size.
    IndexOutOfRange,
    /// A numeric value outside the enumerated SIGHASH set.
    FlagConversion,
    /// `SINGLE` requested with an input index greater than the output count.
    SingleOverflow,
    /// The underlying ECDSA signer reported failure.
    SignerFailure,
}

impl SigHash {
    pub fn to_u8(self) -> (r: u8)
        ensures
            r == spec_sighash_u8(self),
    {
        match self {
            SigHash::FORKID => 0x40,
            SigHash::ALL => 0x01,
            SigHash::NONE => 0x02,
            SigHash::SINGLE => 0x03,
            SigHash::ANYONECANPAY => 0x80,
            SigHash::InputsOutputs => 0x41,
            SigHash::Inputs => 0x42,
            SigHash::InputsOutput => 0x43,
            SigHash::InputOutputs => 0xc1,
            SigHash::Input => 0xc2,
            SigHash::InputOutput => 0xc3,
        }
    }

    /// The flag widened to 32 bits, as serialized at the end of a preimage.
    pub fn to_u32(self) -> (r: u32)
        ensures
            r == spec_sighash_u8(self) as u32,
    {
        self.to_u8() as u32
    }

    pub fn from_u8(v: u8) -> (r: Result<SigHash, TxError>)
        ensures
            spec_sighash_from_u8(v) matches Some(s) ==> r == Result::<SigHash, TxError>::Ok(s),
            spec_sighash_from_u8(v) is None ==> r == Result::<SigHash, TxError>::Err(
                TxError::FlagConversion,
            ),
    {
        match Self::from_u8_opt(v) {
            Some(s) => Ok(s),
            None => Err(TxError::FlagConversion),
        }
    }

    /// Parses a flag from its 32-bit numeric value; a value outside the
    /// enumerated set is a conversion error.
    pub fn from_u32(v: u32) -> (r: Result<SigHash, TxError>)
        ensures
            spec_sighash_from_u32(v) matches Some(s) ==> r == Result::<SigHash, TxError>::Ok(s),
            spec_sighash_from_u32(v) is None ==> r == Result::<SigHash, TxError>::Err(
                TxError::FlagConversion,
            ),
    {
        if v > 0xff {
            Err(TxError::FlagConversion)
        } else {
            Self::from_u8(v as u8)
        }
    }

    fn from_u8_opt(v: u8) -> (r: Option<SigHash>)
        ensures
            r == spec_sighash_from_u8(v),
    {
        if v == 0x40 {
            Some(SigHash::FORKID)
        } else if v == 0x01 {
            Some(SigHash::ALL)
        } else if v == 0x02 {
            Some(SigHash::NONE)
        } else if v == 0x03 {
            Some(SigHash::SINGLE)
        } else if v == 0x80 {
            Some(SigHash::ANYONECANPAY)
        } else if v == 0x41 {
            Some(SigHash::InputsOutputs)
        } else if v == 0x42 {
            Some(SigHash::Inputs)
        } else if v == 0x43 {
            Some(SigHash::InputsOutput)
        } else if v == 0xc1 {
            Some(SigHash::InputOutputs)
        } else if v == 0xc2 {
            Some(SigHash::Input)
        } else if v == 0xc3 {
            Some(SigHash::InputOutput)
        } else {
            None
        }
    }
}

/// The flag carried by a 32-bit numeric value, if the value is in the
/// enumerated set (no flag value exceeds one byte).
pub open spec fn spec_sighash_from_u32(v: u32) -> Option<SigHash> {
    if v > 0xff {
        None
    } else {
        spec_sighash_from_u8(v as u8)
    }
}

/// The flag named by a textual flag name (the UTF-8 bytes of one of the
/// eleven recognized combination names), if any.
pub open spec fn spec_sighash_from_name(name: Seq<u8>) -> Option<SigHash> {
    if name == "FORKID".spec_bytes() {
        Some(SigHash::FORKID)
    } else if name == "ALL".spec_bytes() {
        Some(SigHash::ALL)
    } else if name == "NONE".spec_bytes() {
        Some(SigHash::NONE)
    } else if name == "SINGLE".spec_bytes() {
        Some(SigHash::SINGLE)
    } else if name == "ANYONECANPAY".spec_bytes() {
        Some(SigHash::ANYONECANPAY)
    } else if name == "InputsOutputs".spec_bytes() {
        Some(SigHash::InputsOutputs)
    } else if name == "Inputs".spec_bytes() {
        Some(SigHash::Inputs)
    } else if name == "InputsOutput".spec_bytes() {
        Some(SigHash::InputsOutput)
    } else if name == "InputOutputs".spec_bytes() {
        Some(SigHash::InputOutputs)
    } else if name == "Input".spec_bytes() {
        Some(SigHash::Input)
    } else if name == "InputOutput".spec_bytes() {
        Some(SigHash::InputOutput)
    } else {
        None
    }
}

impl SigHash {
    /// Parses a flag from its textual name; an unrecognized name is a
    /// conversion error.
    pub fn from_name(name: &str) -> (r: Result<SigHash, TxError>)
        ensures
            spec_sighash_from_name(name.spec_bytes()) matches Some(s) ==> r == Result::<
                SigHash,
                TxError,
            >::Ok(s),
            spec_sighash_from_name(name.spec_bytes()) is None ==> r == Result::<
                SigHash,
                TxError,
            >::Err(TxError::FlagConversion),
    {
        let b = name.as_bytes();
        if bytes_eq(b, "FORKID".as_bytes()) {
            Ok(SigHash::FORKID)
        } else if bytes_eq(b, "ALL".as_bytes()) {
            Ok(SigHash::ALL)
        } else if bytes_eq(b, "NONE".as_bytes()) {
            Ok(SigHash::NONE)
        } else if bytes_eq(b, "SINGLE".as_bytes()) {
            Ok(SigHash::SINGLE)
        } else if bytes_eq(b, "ANYONECANPAY".as_bytes()) {
            Ok(SigHash::ANYONECANPAY)
        } else if bytes_eq(b, "InputsOutputs".as_bytes()) {
            Ok(SigHash::InputsOutputs)
        } else if bytes_eq(b, "Inputs".as_bytes()) {
            Ok(SigHash::Inputs)
        } else if bytes_eq(b, "InputsOutput".as_bytes()) {
            Ok(SigHash::InputsOutput)
        } else if bytes_eq(b, "InputOutputs".as_bytes()) {
            Ok(SigHash::InputOutputs)
        } else if bytes_eq(b, "Input".as_bytes()) {
            Ok(SigHash::Input)
        } else if bytes_eq(b, "InputOutput".as_bytes()) {
            Ok(SigHash::InputOutput)
        } else {
            Err(TxError::FlagConversion)
        }
    }
}

/// One input of a transaction, reduced to what SIGHASH reads: the previous
/// transaction id (32 bytes, held in the order in which the outpoint is
/// serialized), the output index being spent, and the sequence number.
#[derive(Clone, Debug)]
pub struct TxIn {
    pub prev_tx_id: Vec<u8>,
    pub vout: u32,
    pub sequence: u32,
}

/// One output of a transaction: the amount in satoshis and the raw locking
/// script bytes.
#[derive(Clone, Debug)]
pub struct TxOut {
    pub value: u64,
    pub script_pubkey: Vec<u8>,
}

/// The three lazily memoized sub-digests a transaction may reuse across its
/// inputs.  Once a field is set it is never mutated.
#[derive(Clone, Debug)]
pub struct HashCache {
    pub hash_inputs: Option<Vec<u8>>,
    pub hash_sequence: Option<Vec<u8>>,
    pub hash_outputs: Option<Vec<u8>>,
}

impl HashCache {
    /// Creates a new, empty cache.
    pub fn new() -> (r: HashCache)
        ensures
            r.hash_inputs is None,
            r.hash_sequence is None,
            r.hash_outputs is None,
    {
        HashCache { hash_inputs: None, hash_sequence: None, hash_outputs: None }
    }
}

/// A transaction, reduced to what SIGHASH reads, owning its cache.
#[derive(Clone, Debug)]
pub struct Transaction {
    pub version: u32,
    pub inputs: Vec<TxIn>,
    pub outputs: Vec<TxOut>,
    pub n_locktime: u32,
    pub hash_cache: HashCache,
}

/// The serialized outpoint of an input: its 32-byte previous transaction id
/// followed by the output index in 4 little-endian bytes.
pub open spec fn outpoint_bytes(txin: TxIn) -> Seq<u8> {
    txin.prev_tx_id@ + u32_le_bytes(txin.vout)
}

/// The concatenation of all input outpoints, in input order.
pub open spec fn all_outpoints(inputs: Seq<TxIn>) -> Seq<u8>
    decreases inputs.len(),
{
    if inputs.len() == 0 {
        Seq::empty()
    } else {
        all_outpoints(inputs.drop_last()) + outpoint_bytes(inputs.last())
    }
}

/// The concatenation of all input sequence numbers, 4 little-endian bytes
/// each, in input order.
pub open spec fn all_sequences(inputs: Seq<TxIn>) -> Seq<u8>
    decreases inputs.len(),
{
    if inputs.len() == 0 {
        Seq::empty()
    } else {
        all_sequences(inputs.drop_last()) + u32_le_bytes(inputs.last().sequence)
    }
}

/// The standard serialization of one output: value in 8 little-endian
/// bytes, the script length as a `VarInt`, then the script bytes.
pub open spec fn txout_bytes(o: TxOut) -> Seq<u8> {
    u64_le_bytes(o.value) + varint_bytes(o.script_pubkey@.len() as u64) + o.script_pubkey@
}

/// The concatenation of all serialized outputs, in output order.
pub open spec fn all_txout_bytes(outputs: Seq<TxOut>) -> Seq<u8>
    decreases outputs.len(),
{
    if outputs.len() == 0 {
        Seq::empty()
    } else {
        all_txout_bytes(outputs.drop_last()) + txout_bytes(outputs.last())
    }
}

/// A cached digest, when present, is exactly the digest it memoizes.
pub open spec fn cache_wf(tx: Transaction) -> bool {
    &&& (tx.hash_cache.hash_inputs matches Some(v) ==> v@ == sha256d_of(
        all_outpoints(tx.inputs@),
    ))
    &&& (tx.hash_cache.hash_sequence matches Some(v) ==> v@ == sha256d_of(
        all_sequences(tx.inputs@),
    ))
    &&& (tx.hash_cache.hash_outputs matches Some(v) ==> v@ == sha256d_of(
        all_txout_bytes(tx.outputs@),
    ))
}

/// A well-formed transaction: every input carries a 32-byte previous
/// transaction id, and the cache holds only true digests.
pub open spec fn tx_wf(tx: Transaction) -> bool {
    &&& forall|i: int|
        0 <= i < tx.inputs@.len() ==> (#[trigger] tx.inputs@[i]).prev_tx_id@.len() == 32
    &&& cache_wf(tx)
}

/// The transaction proper — everything but the cache — is unchanged.
pub open spec fn same_core(a: Transaction, b: Transaction) -> bool {
    &&& a.version == b.version
    &&& a.inputs == b.inputs
    &&& a.outputs == b.outputs
    &&& a.n_locktime == b.n_locktime
}

/// What `hash_inputs` returns: 32 zero bytes under `ANYONECANPAY`, else the
/// double SHA-256 of all outpoints.
pub open spec fn hash_inputs_value(tx: Transaction, s: SigHash) -> Seq<u8> {
    if has_anyonecanpay(s) {
        zero32()
    } else {
        sha256d_of(all_outpoints(tx.inputs@))
    }
}

/// What `hash_sequence` returns: the cached digest if present; otherwise
/// the double SHA-256 of all sequence numbers for plain `ALL` and
/// `ALL|FORKID`, and 32 zero bytes for every other flag.
pub open spec fn hash_sequence_value(tx: Transaction, s: SigHash) -> Seq<u8> {
    if tx.hash_cache.hash_sequence is Some || hashes_sequences(s) {
        sha256d_of(all_sequences(tx.inputs@))
    } else {
        zero32()
    }
}

/// Whether `hash_outputs` fails: nothing is cached, the outputs mode is
/// `SINGLE`, and the input index runs past the outputs.
pub open spec fn hash_outputs_err(tx: Transaction, s: SigHash, n: int) -> bool {
    tx.hash_cache.hash_outputs is None && outputs_single(s) && n >= tx.outputs@.len()
}

/// What `hash_outputs` returns when it succeeds: the cached digest if
/// present; otherwise the digest of the output at the input's index under
/// `SINGLE`, of all outputs under `ALL`, and 32 zero bytes for the modes
/// that zero outputs.
pub open spec fn hash_outputs_value(tx: Transaction, s: SigHash, n: int) -> Seq<u8> {
    if tx.hash_cache.hash_outputs is Some {
        sha256d_of(all_txout_bytes(tx.outputs@))
    } else if outputs_single(s) {
        sha256d_of(txout_bytes(tx.outputs@[n]))
    } else if outputs_all(s) {
        sha256d_of(all_txout_bytes(tx.outputs@))
    } else {
        zero32()
    }
}

impl Transaction {
    /// Creates a transaction with an empty cache.
    pub fn new(version: u32, inputs: Vec<TxIn>, outputs: Vec<TxOut>, n_locktime: u32) -> (r:
        Transaction)
        requires
            forall|i: int| 0 <= i < inputs@.len() ==> (#[trigger] inputs@[i]).prev_tx_id@.len()
                == 32,
        ensures
            tx_wf(r),
            r.version == version,
            r.inputs == inputs,
            r.outputs == outputs,
            r.n_locktime == n_locktime,
            r.hash_cache.hash_inputs is None,
            r.hash_cache.hash_sequence is None,
            r.hash_cache.hash_outputs is None,
    {
        Transaction { version, inputs, outputs, n_locktime, hash_cache: HashCache::new() }
    }

    /// `hashPrevouts`: 32 zero bytes when the flag has `ANYONECANPAY` set,
    /// otherwise the double SHA-256 of all input outpoints, memoized.
    pub fn hash_inputs(&mut self, sighash: SigHash) -> (r: Vec<u8>)
        requires
            tx_wf(*old(self)),
        ensures
            tx_wf(*final(self)),
            same_core(*old(self), *final(self)),
            r@ == hash_inputs_value(*old(self), sighash),
            final(self).hash_cache.hash_sequence == old(self).hash_cache.hash_sequence,
            final(self).hash_cache.hash_outputs == old(self).hash_cache.hash_outputs,
            has_anyonecanpay(sighash) ==> final(self).hash_cache == old(self).hash_cache,
            !has_anyonecanpay(sighash) ==> final(self).hash_cache.hash_inputs is Some,
    {
        if sighash == SigHash::ANYONECANPAY || sighash == SigHash::Input || sighash
            == SigHash::InputOutput || sighash == SigHash::InputOutputs {
            return make_zero32();
        }
        if let Some(x) = &self.hash_cache.hash_inputs {
            return clone_bytes(x);
        }
        let mut input_bytes: Vec<u8> = Vec::new();
        let n = self.inputs.len();
        let mut i: usize = 0;
        proof {
            assert(all_outpoints(self.inputs@.subrange(0, 0)) =~= Seq::<u8>::empty());
        }
        while i < n
            invariant
                n == self.inputs.len(),
                i <= n,
                input_bytes@ == all_outpoints(self.inputs@.subrange(0, i as int)),
            decreases n - i,
        {
            push_bytes(&mut input_bytes, self.inputs[i].prev_tx_id.as_slice());
            push_u32_le(&mut input_bytes, self.inputs[i].vout);
            i = i + 1;
            proof {
                assert(self.inputs@.subrange(0, i as int).drop_last() =~= self.inputs@.subrange(
                    0,
                    i as int - 1,
                ));
                assert(input_bytes@ =~= all_outpoints(self.inputs@.subrange(0, i as int)));
            }
        }
        proof {
            assert(self.inputs@.subrange(0, n as int) =~= self.inputs@);
        }
        let hash = sha256d(input_bytes.as_slice());
        self.hash_cache.hash_inputs = Some(clone_bytes(&hash));
        hash
    }

    /// `hashSequence`: the cached digest if present; otherwise, for plain
    /// `ALL` and `ALL|FORKID`, the double SHA-256 of all input sequence
    /// numbers, memoized; for every other flag, 32 zero bytes, uncached.
    pub fn hash_sequence(&mut self, sighash: SigHash) -> (r: Vec<u8>)
        requires
            tx_wf(*old(self)),
        ensures
            tx_wf(*final(self)),
            same_core(*old(self), *final(self)),
            r@ == hash_sequence_value(*old(self), sighash),
            final(self).hash_cache.hash_inputs == old(self).hash_cache.hash_inputs,
            final(self).hash_cache.hash_outputs == old(self).hash_cache.hash_outputs,
            old(self).hash_cache.hash_sequence is Some || !hashes_sequences(sighash) ==> final(self).hash_cache == old(self).hash_cache,
            hashes_sequences(sighash) ==> final(self).hash_cache.hash_sequence is Some,
    {
        if let Some(x) = &self.hash_cache.hash_sequence {
            return clone_bytes(x);
        }
        if sighash == SigHash::ALL || sighash == SigHash::InputsOutputs {
            let mut seq_bytes: Vec<u8> = Vec::new();
            let n = self.inputs.len();
            let mut i: usize = 0;
            proof {
                assert(all_sequences(self.inputs@.subrange(0, 0)) =~= Seq::<u8>::empty());
            }
            while i < n
                invariant
                    n == self.inputs.len(),
                    i <= n,
                    seq_bytes@ == all_sequences(self.inputs@.subrange(0, i as int)),
                decreases n - i,
            {
                push_u32_le(&mut seq_bytes, self.inputs[i].sequence);
                i = i + 1;
                proof {
                    assert(self.inputs@.subrange(0, i as int).drop_last()
                        =~= self.inputs@.subrange(0, i as int - 1));
                    assert(seq_bytes@ =~= all_sequences(self.inputs@.subrange(0, i as int)));
                }
            }
            proof {
                assert(self.inputs@.subrange(0, n as int) =~= self.inputs@);
            }
            let hash = sha256d(seq_bytes.as_slice());
            self.hash_cache.hash_sequence = Some(clone_bytes(&hash));
            hash
        } else {
            make_zero32()
        }
    }

    /// `hashOutputs`: the cached digest if present; otherwise, under
    /// `SINGLE`, the digest of the one output at the input's index
    /// (uncached, since it is index-specific; an index past the outputs is
    /// an error); under `ALL`, the digest of all outputs, memoized; 32 zero
    /// bytes, uncached, for the modes that zero outputs.
    pub fn hash_outputs(&mut self, sighash: SigHash, n_tx_in: usize) -> (r: Result<
        Vec<u8>,
        TxError,
    >)
        requires
            tx_wf(*old(self)),
        ensures
            tx_wf(*final(self)),
            same_core(*old(self), *final(self)),
            final(self).hash_cache.hash_inputs == old(self).hash_cache.hash_inputs,
            final(self).hash_cache.hash_sequence == old(self).hash_cache.hash_sequence,
            r is Err <==> hash_outputs_err(*old(self), sighash, n_tx_in as int),
            r matches Ok(v) ==> v@ == hash_outputs_value(*old(self), sighash, n_tx_in as int),
            hash_outputs_err(*old(self), sighash, n_tx_in as int) ==> r == (if n_tx_in
                > old(self).outputs@.len() {
                Result::<Vec<u8>, TxError>::Err(TxError::SingleOverflow)
            } else {
                Result::<Vec<u8>, TxError>::Err(TxError::IndexOutOfRange)
            }),
            old(self).hash_cache.hash_outputs is Some || !outputs_all(sighash) ==> final(self).hash_cache == old(self).hash_cache,
            outputs_all(sighash) ==> final(self).hash_cache.hash_outputs is Some,
    {
        if let Some(x) = &self.hash_cache.hash_outputs {
            return Ok(clone_bytes(x));
        }
        if sighash == SigHash::SINGLE || sighash == SigHash::InputOutput || sighash
            == SigHash::InputsOutput {
            if n_tx_in > self.outputs.len() {
                return Err(TxError::SingleOverflow);
            }
            if n_tx_in == self.outputs.len() {
                return Err(TxError::IndexOutOfRange);
            }
            let output_bytes = txout_to_bytes(&self.outputs[n_tx_in]);
            Ok(sha256d(output_bytes.as_slice()))
        } else if sighash == SigHash::ALL || sighash == SigHash::InputOutputs || sighash
            == SigHash::InputsOutputs {
            let mut txout_buf: Vec<u8> = Vec::new();
            let n = self.outputs.len();
            let mut i: usize = 0;
            proof {
                assert(all_txout_bytes(self.outputs@.subrange(0, 0)) =~= Seq::<u8>::empty());
            }
            while i < n
                invariant
                    n == self.outputs.len(),
                    i <= n,
                    txout_buf@ == all_txout_bytes(self.outputs@.subrange(0, i as int)),
                decreases n - i,
            {
                let ob = txout_to_bytes(&self.outputs[i]);
                push_bytes(&mut txout_buf, ob.as_slice());
                i = i + 1;
                proof {
                    assert(self.outputs@.subrange(0, i as int).drop_last()
                        =~= self.outputs@.subrange(0, i as int - 1));
                    assert(txout_buf@ =~= all_txout_bytes(self.outputs@.subrange(0, i as int)));
                }
            }
            proof {
                assert(self.outputs@.subrange(0, n as int) =~= self.outputs@);
            }
            let hash = sha256d(txout_buf.as_slice());
            self.hash_cache.hash_outputs = Some(clone_bytes(&hash));
            Ok(hash)
        } else {
            Ok(make_zero32())
        }
    }
}

/// The preimage as a concatenation of its ten fields, in serialization
/// order: version, `hashPrevouts`, `hashSequence`, the signed input's
/// outpoint, the length-prefixed script code, the spent value, the signed
/// input's sequence, `hashOutputs`, the locktime, and the flag widened to
/// 32 bits — every integer little-endian.
pub open spec fn preimage_concat(
    version: u32,
    hp: Seq<u8>,
    hs: Seq<u8>,
    outpoint: Seq<u8>,
    scr: Seq<u8>,
    value: u64,
    sequence: u32,
    ho: Seq<u8>,
    locktime: u32,
    flag32: u32,
) -> Seq<u8> {
    u32_le_bytes(version) + hp + hs + outpoint + varint_bytes(scr.len() as u64) + scr
        + u64_le_bytes(value) + u32_le_bytes(sequence) + ho + u32_le_bytes(locktime) + u32_le_bytes(
        flag32,
    )
}

/// The SIGHASH preimage for input `n` of `tx` under flag `s`, with `script`
/// substituted as the script code and `value` as the spent amount.
pub open spec fn preimage_bytes(
    tx: Transaction,
    n: int,
    s: SigHash,
    script: Seq<crate::script::ScriptBitModel>,
    value: u64,
) -> Seq<u8> {
    preimage_concat(
        tx.version,
        hash_inputs_value(tx, s),
        hash_sequence_value(tx, s),
        outpoint_bytes(tx.inputs@[n]),
        script_bytes(script),
        value,
        tx.inputs@[n].sequence,
        hash_outputs_value(tx, s, n),
        tx.n_locktime,
        spec_sighash_u8(s) as u32,
    )
}

/// Whether building the preimage fails: the input index is out of range, or
/// the `SINGLE` outputs policy rejects the index.
pub open spec fn preimage_err(tx: Transaction, s: SigHash, n: int) -> bool {
    n >= tx.inputs@.len() || hash_outputs_err(tx, s, n)
}

/// The 32 bytes returned in place of a digest by the historical
/// `SIGHASH_SINGLE` consensus bug: 31 zero bytes then `0x01`.
pub open spec fn single_bug_bytes() -> Seq<u8> {
    Seq::new(32, |i: int| if i == 31 { 1u8 } else { 0u8 })
}

/// Whether the `SIGHASH_SINGLE` consensus bug bypasses the digest: the flag
/// is exactly `SINGLE|FORKID` and the input index is not below the number
/// of outputs.
pub open spec fn single_bug(tx: Transaction, s: SigHash, n: int) -> bool {
    s == SigHash::InputsOutput && n >= tx.outputs@.len()
}

/// The 32-byte message signed for input `n`: the bug bytes when the
/// `SIGHASH_SINGLE` bug applies, else the double SHA-256 of the preimage.
pub open spec fn sighash_value(
    tx: Transaction,
    n: int,
    s: SigHash,
    script: Seq<crate::script::ScriptBitModel>,
    value: u64,
) -> Seq<u8> {
    if single_bug(tx, s, n) {
        single_bug_bytes()
    } else {
        sha256d_of(preimage_bytes(tx, n, s, script, value))
    }
}

/// The cache presence after a successful, non-bypassed `sighash` or
/// `sighash_preimage` call with flag `s`, relative to the state before:
/// `hashPrevouts` is filled unless `ANYONECANPAY` skipped it,
/// `hashSequence` is filled exactly for the `ALL` sequence modes, and
/// `hashOutputs` is filled exactly for the `ALL` outputs modes.
pub open spec fn cache_evolved(a: Transaction, b: Transaction, s: SigHash) -> bool {
    &&& (b.hash_cache.hash_inputs is Some <==> (a.hash_cache.hash_inputs is Some
        || !has_anyonecanpay(s)))
    &&& (b.hash_cache.hash_sequence is Some <==> (a.hash_cache.hash_sequence is Some
        || hashes_sequences(s)))
    &&& (b.hash_cache.hash_outputs is Some <==> (a.hash_cache.hash_outputs is Some || outputs_all(
        s,
    )))
}

impl Transaction {
    /// Builds the SIGHASH preimage for input `n_tx_in` (see
    /// `preimage_concat` for the byte layout), memoizing the reusable
    /// sub-digests in the cache.
    pub fn sighash_preimage(
        &mut self,
        n_tx_in: usize,
        sighash: SigHash,
        presigned_script: &Script,
        value: u64,
    ) -> (r: Result<Vec<u8>, TxError>)
        requires
            tx_wf(*old(self)),
            script_wf(presigned_script@),
        ensures
            tx_wf(*final(self)),
            same_core(*old(self), *final(self)),
            r is Err <==> preimage_err(*old(self), sighash, n_tx_in as int),
            n_tx_in >= old(self).inputs@.len() ==> r == Result::<Vec<u8>, TxError>::Err(
                TxError::IndexOutOfRange,
            ) && *final(self) == *old(self),
            n_tx_in < old(self).inputs@.len() && hash_outputs_err(
                *old(self),
                sighash,
                n_tx_in as int,
            ) ==> *final(self) == *old(self) && r == (if n_tx_in > old(self).outputs@.len() {
                Result::<Vec<u8>, TxError>::Err(TxError::SingleOverflow)
            } else {
                Result::<Vec<u8>, TxError>::Err(TxError::IndexOutOfRange)
            }),
            r matches Ok(b) ==> b@ == preimage_bytes(
                *old(self),
                n_tx_in as int,
                sighash,
                presigned_script@,
                value,
            ),
            r is Ok ==> cache_evolved(*old(self), *final(self), sighash),
    {
        if n_tx_in >= self.inputs.len() {
            return Err(TxError::IndexOutOfRange);
        }
        let hashed_outputs = match self.hash_outputs(sighash, n_tx_in) {
            Ok(v) => v,
            Err(e) => return Err(e),
        };
        let hashed_inputs = self.hash_inputs(sighash);
        let hashed_sequence = self.hash_sequence(sighash);
        let mut buffer: Vec<u8> = Vec::new();
        push_u32_le(&mut buffer, self.version);
        push_bytes(&mut buffer, hashed_inputs.as_slice());
        push_bytes(&mut buffer, hashed_sequence.as_slice());
        push_bytes(&mut buffer, self.inputs[n_tx_in].prev_tx_id.as_slice());
        push_u32_le(&mut buffer, self.inputs[n_tx_in].vout);
        let script_code = presigned_script.to_bytes();
        push_varint(&mut buffer, script_code.len() as u64);
        push_bytes(&mut buffer, script_code.as_slice());
        push_u64_le(&mut buffer, value);
        push_u32_le(&mut buffer, self.inputs[n_tx_in].sequence);
        push_bytes(&mut buffer, hashed_outputs.as_slice());
        push_u32_le(&mut buffer, self.n_locktime);
        push_u32_le(&mut buffer, sighash.to_u32());
        proof {
            assert(buffer@ =~= preimage_bytes(
                *old(self),
                n_tx_in as int,
                sighash,
                presigned_script@,
                value,
            ));
        }
        Ok(buffer)
    }

    /// The 32-byte SIGHASH digest for input `n_tx_in`: double SHA-256 of
    /// the preimage — except that, reproducing the historical consensus
    /// bug, flag `SINGLE|FORKID` with an input index not below the number
    /// of outputs yields 31 zero bytes and `0x01` without touching the
    /// preimage.
    pub fn sighash(
        &mut self,
        n_tx_in: usize,
        sighash: SigHash,
        presigned_script: &Script,
        value: u64,
    ) -> (r: Result<Vec<u8>, TxError>)
        requires
            tx_wf(*old(self)),
            script_wf(presigned_script@),
        ensures
            tx_wf(*final(self)),
            same_core(*old(self), *final(self)),
            single_bug(*old(self), sighash, n_tx_in as int) ==> *final(self) == *old(self),
            r is Err <==> !single_bug(*old(self), sighash, n_tx_in as int) && preimage_err(
                *old(self),
                sighash,
                n_tx_in as int,
            ),
            r matches Ok(b) ==> b@ == sighash_value(
                *old(self),
                n_tx_in as int,
                sighash,
                presigned_script@,
                value,
            ) && b@.len() == 32,
            r is Err ==> *final(self) == *old(self) && (if n_tx_in >= old(self).inputs@.len() {
                r == Result::<Vec<u8>, TxError>::Err(TxError::IndexOutOfRange)
            } else if n_tx_in > old(self).outputs@.len() {
                r == Result::<Vec<u8>, TxError>::Err(TxError::SingleOverflow)
            } else {
                r == Result::<Vec<u8>, TxError>::Err(TxError::IndexOutOfRange)
            }),
            r is Ok && !single_bug(*old(self), sighash, n_tx_in as int) ==> cache_evolved(
                *old(self),
                *final(self),
                sighash,
            ),
    {
        if sighash == SigHash::InputsOutput && n_tx_in >= self.outputs.len() {
            let mut bugged: Vec<u8> = make_zero32();
            bugged.pop();
            bugged.push(0x01);
            proof {
                assert(bugged@ =~= single_bug_bytes());
            }
            return Ok(bugged);
        }
        let buffer = match self.sighash_preimage(n_tx_in, sighash, presigned_script, value) {
            Ok(v) => v,
            Err(e) => return Err(e),
        };
        Ok(sha256d(buffer.as_slice()))
    }

    /// Computes the SIGHASH digest for input `n_tx_in`, signs it with the
    /// deterministic ECDSA signer under `priv_key`, and returns the DER
    /// signature with the flag's numeric value appended as one byte.
    /// Failure in the signer is reported as `SignerFailure`.
    pub fn sign(
        &mut self,
        priv_key: &[u8],
        sighash: SigHash,
        n_tx_in: usize,
        presigned_script: &Script,
        value: u64,
    ) -> (r: Result<Vec<u8>, TxError>)
        requires
            tx_wf(*old(self)),
            script_wf(presigned_script@),
        ensures
            tx_wf(*final(self)),
            same_core(*old(self), *final(self)),
            r is Ok <==> (single_bug(*old(self), sighash, n_tx_in as int) || !preimage_err(
                *old(self),
                sighash,
                n_tx_in as int,
            )) && priv_key_valid(priv_key@) && sign_ok_of(
                priv_key@,
                sighash_value(*old(self), n_tx_in as int, sighash, presigned_script@, value),
            ),
            r matches Ok(b) ==> b@ == der_sig_of(
                priv_key@,
                sighash_value(*old(self), n_tx_in as int, sighash, presigned_script@, value),
            ) + seq![spec_sighash_u8(sighash)],
            !single_bug(*old(self), sighash, n_tx_in as int) && preimage_err(
                *old(self),
                sighash,
                n_tx_in as int,
            ) ==> r is Err && r != Result::<Vec<u8>, TxError>::Err(TxError::SignerFailure),
            r is Err && !(!single_bug(*old(self), sighash, n_tx_in as int) && preimage_err(
                *old(self),
                sighash,
                n_tx_in as int,
            )) ==> r == Result::<Vec<u8>, TxError>::Err(TxError::SignerFailure),
    {
        let digest = match self.sighash(n_tx_in, sighash, presigned_script, value) {
            Ok(v) => v,
            Err(e) => return Err(e),
        };
        let mut sig_bytes = match ecdsa_sign_der(priv_key, digest.as_slice()) {
            Some(s) => s,
            None => return Err(TxError::SignerFailure),
        };
        sig_bytes.push(sighash.to_u8());
        proof {
            assert(sig_bytes@ =~= der_sig_of(
                priv_key@,
                sighash_value(*old(self), n_tx_in as int, sighash, presigned_script@, value),
            ) + seq![spec_sighash_u8(sighash)]);
        }
        Ok(sig_bytes)
    }
}

/// Law: the preimage is positionally laid out as §`preimage_concat`
/// serializes it — its first 4 bytes are the little-endian version, the
/// spent value sits in the 8 bytes after the script code, and the final 4
/// bytes are the flag widened to 32 bits — whenever the three sub-digests
/// have their 32 bytes and the outpoint its 36.
pub proof fn lemma_preimage_layout(
    version: u32,
    hp: Seq<u8>,
    hs: Seq<u8>,
    outpoint: Seq<u8>,
    scr: Seq<u8>,
    value: u64,
    sequence: u32,
    ho: Seq<u8>,
    locktime: u32,
    flag32: u32,
)
    requires
        hp.len() == 32,
        hs.len() == 32,
        outpoint.len() == 36,
    ensures
        ({
            let p = preimage_concat(
                version,
                hp,
                hs,
                outpoint,
                scr,
                value,
                sequence,
                ho,
                locktime,
                flag32,
            );
            let vl = varint_bytes(scr.len() as u64).len() as int;
            let sl = scr.len() as int;
            &&& p.len() == 124 + vl + sl + ho.len()
            &&& p.subrange(0, 4) == u32_le_bytes(version)
            &&& p.subrange(4, 36) == hp
            &&& p.subrange(36, 68) == hs
            &&& p.subrange(68, 104) == outpoint
            &&& p.subrange(104, 104 + vl) == varint_bytes(scr.len() as u64)
            &&& p.subrange(104 + vl, 104 + vl + sl) == scr
            &&& p.subrange(104 + vl + sl, 112 + vl + sl) == u64_le_bytes(value)
            &&& p.subrange(p.len() - 4, p.len() as int) == u32_le_bytes(flag32)
        }),
{
    let p = preimage_concat(version, hp, hs, outpoint, scr, value, sequence, ho, locktime, flag32);
    let vl = varint_bytes(scr.len() as u64).len() as int;
    let sl = scr.len() as int;
    assert(p.subrange(0, 4) =~= u32_le_bytes(version));
    assert(p.subrange(4, 36) =~= hp);
    assert(p.subrange(36, 68) =~= hs);
    assert(p.subrange(68, 104) =~= outpoint);
    assert(p.subrange(104, 104 + vl) =~= varint_bytes(scr.len() as u64));
    assert(p.subrange(104 + vl, 104 + vl + sl) =~= scr);
    assert(p.subrange(104 + vl + sl, 112 + vl + sl) =~= u64_le_bytes(value));
    assert(p.subrange(p.len() - 4, p.len() as int) =~= u32_le_bytes(flag32));
}

/// Law: under any flag with `ANYONECANPAY` set, preimage bytes 4..36
/// (`hashPrevouts`) are all zero.
pub proof fn lemma_anyonecanpay_zeroing(
    tx: Transaction,
    n: int,
    s: SigHash,
    script: Seq<crate::script::ScriptBitModel>,
    value: u64,
)
    requires
        has_anyonecanpay(s),
    ensures
        preimage_bytes(tx, n, s, script, value).subrange(4, 36) == zero32(),
        forall|i: int|
            4 <= i < 36 ==> #[trigger] preimage_bytes(tx, n, s, script, value)[i] == 0,
{
    let p = preimage_bytes(tx, n, s, script, value);
    assert(hash_inputs_value(tx, s) == zero32());
    assert(p.subrange(4, 36) =~= zero32());
    assert forall|i: int| 4 <= i < 36 implies #[trigger] p[i] == 0 by {
        assert(p[i] == p.subrange(4, 36)[i - 4]);
    }
}

/// Law (cache idempotence): a `sighash` or `sighash_preimage` call leaves
/// the cache in a state (`cache_evolved`, with well-formedness kept) under
/// which a second call with identical arguments computes byte-identical
/// sub-digests, preimage and digest.
pub proof fn lemma_sighash_idempotent(
    tx1: Transaction,
    tx2: Transaction,
    n: int,
    s: SigHash,
    script: Seq<crate::script::ScriptBitModel>,
    value: u64,
)
    requires
        tx_wf(tx1),
        tx_wf(tx2),
        same_core(tx1, tx2),
        cache_evolved(tx1, tx2, s),
    ensures
        hash_inputs_value(tx2, s) == hash_inputs_value(tx1, s),
        hash_sequence_value(tx2, s) == hash_sequence_value(tx1, s),
        hash_outputs_err(tx2, s, n) == hash_outputs_err(tx1, s, n),
        !hash_outputs_err(tx1, s, n) ==> hash_outputs_value(tx2, s, n) == hash_outputs_value(
            tx1,
            s,
            n,
        ),
        preimage_bytes(tx2, n, s, script, value) == preimage_bytes(tx1, n, s, script, value),
        sighash_value(tx2, n, s, script, value) == sighash_value(tx1, n, s, script, value),
{
    assert(tx2.inputs@ == tx1.inputs@);
    assert(tx2.outputs@ == tx1.outputs@);
}

/// Serializes one output.
pub fn txout_to_bytes(o: &TxOut) -> (r: Vec<u8>)
    ensures
        r@ == txout_bytes(*o),
{
    let mut buf: Vec<u8> = Vec::new();
    push_u64_le(&mut buf, o.value);
    push_varint(&mut buf, o.script_pubkey.len() as u64);
    push_bytes(&mut buf, o.script_pubkey.as_slice());
    proof {
        assert(buf@ =~= txout_bytes(*o));
    }
    buf
}

} // verus!
