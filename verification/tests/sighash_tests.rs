use bsv_core::script::{Script, ScriptBit};
use bsv_core::sighash::{SigHash, Transaction, TxError, TxIn, TxOut};

fn txin(id_byte: u8, vout: u32, sequence: u32) -> TxIn {
    TxIn { prev_tx_id: vec![id_byte; 32], vout, sequence }
}

fn txout(value: u64, script_byte: u8, script_len: usize) -> TxOut {
    TxOut { value, script_pubkey: vec![script_byte; script_len] }
}

#[test]
fn flag_u8_roundtrip() {
    let flags = [
        (SigHash::FORKID, 0x40u8),
        (SigHash::ALL, 0x01),
        (SigHash::NONE, 0x02),
        (SigHash::SINGLE, 0x03),
        (SigHash::ANYONECANPAY, 0x80),
        (SigHash::InputsOutputs, 0x41),
        (SigHash::Inputs, 0x42),
        (SigHash::InputsOutput, 0x43),
        (SigHash::InputOutputs, 0xc1),
        (SigHash::Input, 0xc2),
        (SigHash::InputOutput, 0xc3),
    ];
    for (flag, value) in flags {
        assert_eq!(flag.to_u8(), value);
        assert_eq!(flag.to_u32(), value as u32);
        assert_eq!(SigHash::from_u8(value), Ok(flag));
        assert_eq!(SigHash::from_u32(value as u32), Ok(flag));
    }
    assert_eq!(SigHash::from_u8(0x05), Err(TxError::FlagConversion));
    assert_eq!(SigHash::from_u32(0x05), Err(TxError::FlagConversion));
    assert_eq!(SigHash::from_u32(0x141), Err(TxError::FlagConversion));
}

#[test]
fn flag_from_name() {
    assert_eq!(SigHash::from_name("ALL"), Ok(SigHash::ALL));
    assert_eq!(SigHash::from_name("InputsOutput"), Ok(SigHash::InputsOutput));
    assert_eq!(SigHash::from_name("ANYONECANPAY"), Ok(SigHash::ANYONECANPAY));
    assert_eq!(SigHash::from_name("bogus"), Err(TxError::FlagConversion));
    assert_eq!(SigHash::from_name("all"), Err(TxError::FlagConversion));
}

#[test]
fn preimage_layout_version_value_flag() {
    let mut tx = Transaction::new(
        2,
        vec![txin(0x22, 7, 0xfffffffe)],
        vec![txout(5000, 0xaa, 3)],
        17,
    );
    let script = Script(vec![]);
    let p = tx.sighash_preimage(0, SigHash::InputsOutputs, &script, 0x1122334455667788).unwrap();
    // empty script code: varint length one byte, so the layout is fixed
    assert_eq!(p.len(), 157);
    assert_eq!(&p[0..4], &[2, 0, 0, 0]);
    // outpoint: 32-byte txid then vout little-endian
    assert_eq!(&p[68..100], &[0x22; 32][..]);
    assert_eq!(&p[100..104], &[7, 0, 0, 0]);
    assert_eq!(p[104], 0); // varint of empty script code
    assert_eq!(&p[105..113], &[0x88, 0x77, 0x66, 0x55, 0x44, 0x33, 0x22, 0x11]);
    assert_eq!(&p[113..117], &[0xfe, 0xff, 0xff, 0xff]);
    assert_eq!(&p[149..153], &[17, 0, 0, 0]);
    assert_eq!(&p[153..157], &[0x41, 0, 0, 0]);
}

#[test]
fn preimage_hashes_are_digests_not_echoes() {
    let mut tx = Transaction::new(1, vec![txin(0x22, 0, 0)], vec![txout(1, 0xaa, 1)], 0);
    let script = Script(vec![]);
    let p = tx.sighash_preimage(0, SigHash::InputsOutputs, &script, 1).unwrap();
    // hashPrevouts is a double SHA-256 of the outpoints, not the outpoints
    assert_ne!(&p[4..36], &[0x22; 32][..]);
    assert_ne!(&p[4..36], &[0u8; 32][..]);
}

#[test]
fn anyonecanpay_zeroes_prevouts_and_sequence() {
    let mut tx = Transaction::new(
        1,
        vec![txin(1, 0, 11), txin(2, 1, 22), txin(3, 2, 33)],
        vec![txout(900, 0xbb, 2)],
        0,
    );
    let script = Script(vec![]);
    let p = tx.sighash_preimage(0, SigHash::InputOutputs, &script, 42).unwrap();
    assert_eq!(&p[4..36], &[0u8; 32][..]);
    assert_eq!(&p[36..68], &[0u8; 32][..]);
    // the trailing flag field keeps the ANYONECANPAY and FORKID bits
    assert_eq!(&p[p.len() - 4..], &[0xc1, 0, 0, 0]);
}

#[test]
fn single_forkid_bug_returns_fixed_digest() {
    let mut tx = Transaction::new(
        1,
        vec![txin(1, 0, 0), txin(2, 1, 0)],
        vec![txout(100, 0xcc, 1)],
        0,
    );
    let script = Script(vec![]);
    let digest = tx.sighash(1, SigHash::InputsOutput, &script, 100).unwrap();
    let mut expected = vec![0u8; 31];
    expected.push(0x01);
    assert_eq!(digest, expected);
}

#[test]
fn cache_reuse_across_inputs() {
    let mut tx = Transaction::new(
        1,
        vec![txin(1, 0, 5), txin(2, 1, 6)],
        vec![txout(10, 0xaa, 2), txout(20, 0xbb, 2)],
        0,
    );
    let script = Script(vec![]);
    let p0 = tx.sighash_preimage(0, SigHash::InputsOutputs, &script, 10).unwrap();
    let p1 = tx.sighash_preimage(1, SigHash::InputsOutputs, &script, 20).unwrap();
    // hashPrevouts, hashSequence and hashOutputs fragments are identical
    assert_eq!(&p0[4..36], &p1[4..36]);
    assert_eq!(&p0[36..68], &p1[36..68]);
    assert_eq!(&p0[117..149], &p1[117..149]);
    // and the cache now holds all three digests
    assert!(tx.hash_cache.hash_inputs.is_some());
    assert!(tx.hash_cache.hash_sequence.is_some());
    assert!(tx.hash_cache.hash_outputs.is_some());
}

#[test]
fn sighash_idempotent_for_identical_arguments() {
    let mut tx = Transaction::new(
        1,
        vec![txin(1, 0, 5), txin(2, 1, 6)],
        vec![txout(10, 0xaa, 2)],
        0,
    );
    let script = Script(vec![]);
    let first = tx.sighash(0, SigHash::InputsOutputs, &script, 10).unwrap();
    let cached_inputs = tx.hash_cache.hash_inputs.clone().unwrap();
    let second = tx.sighash(0, SigHash::InputsOutputs, &script, 10).unwrap();
    assert_eq!(first, second);
    assert_eq!(first.len(), 32);
    assert_eq!(tx.hash_cache.hash_inputs.clone().unwrap(), cached_inputs);
}

#[test]
fn input_index_out_of_range() {
    let mut tx = Transaction::new(1, vec![txin(1, 0, 0)], vec![txout(1, 0xaa, 1)], 0);
    let script = Script(vec![]);
    let r = tx.sighash_preimage(3, SigHash::InputsOutputs, &script, 1);
    assert_eq!(r, Err(TxError::IndexOutOfRange));
}

#[test]
fn single_overflow_without_forkid() {
    let mut tx = Transaction::new(
        1,
        vec![txin(1, 0, 0), txin(2, 1, 0), txin(3, 2, 0)],
        vec![txout(1, 0xaa, 1)],
        0,
    );
    let script = Script(vec![]);
    // index 2 is greater than the single output's count: SingleOverflow
    let r = tx.sighash_preimage(2, SigHash::SINGLE, &script, 1);
    assert_eq!(r, Err(TxError::SingleOverflow));
    // index equal to the count misses the output itself: IndexOutOfRange
    let mut tx2 = Transaction::new(
        1,
        vec![txin(1, 0, 0), txin(2, 1, 0)],
        vec![txout(1, 0xaa, 1)],
        0,
    );
    let r2 = tx2.sighash_preimage(1, SigHash::SINGLE, &script, 1);
    assert_eq!(r2, Err(TxError::IndexOutOfRange));
}

#[test]
fn sign_appends_flag_byte_and_is_deterministic() {
    let key = vec![0x01u8; 32];
    let mut tx = Transaction::new(1, vec![txin(1, 0, 0)], vec![txout(1, 0xaa, 1)], 0);
    let script = Script(vec![]);
    let sig1 = tx.sign(&key, SigHash::InputsOutputs, 0, &script, 1).unwrap();
    let sig2 = tx.sign(&key, SigHash::InputsOutputs, 0, &script, 1).unwrap();
    assert_eq!(sig1, sig2);
    assert_eq!(*sig1.last().unwrap(), 0x41);
    // a DER sequence, not the 32-byte digest echoed back
    assert_eq!(sig1[0], 0x30);
    assert!(sig1.len() > 40);
}

#[test]
fn sign_rejects_invalid_key() {
    let key = vec![0u8; 32]; // zero is not a valid secp256k1 scalar
    let mut tx = Transaction::new(1, vec![txin(1, 0, 0)], vec![txout(1, 0xaa, 1)], 0);
    let script = Script(vec![]);
    let r = tx.sign(&key, SigHash::InputsOutputs, 0, &script, 1);
    assert_eq!(r, Err(TxError::SignerFailure));
}

#[test]
fn script_to_bytes_serialization() {
    let script = Script(vec![
        ScriptBit::OpCode(0x76),
        ScriptBit::Push(vec![0xde, 0xad]),
        ScriptBit::PushData(0x4c, vec![0x07; 80]),
    ]);
    let bytes = script.to_bytes();
    let mut expected = vec![0x76, 2, 0xde, 0xad, 0x4c, 80];
    expected.extend(vec![0x07; 80]);
    assert_eq!(bytes, expected);
}
