use bsv_core::script::{Script, ScriptBit};
use bsv_core::template::{
    DataLengthConstraints, MatchDataTypes, MatchToken, ScriptTemplate, ScriptTemplateErrors,
};
use bsv_core::text::HexError;

const P2PKH: &str = "OP_DUP OP_HASH160 OP_PUBKEYHASH OP_EQUALVERIFY OP_CHECKSIG";

// The compressed SEC 1 encoding of the secp256k1 generator point.
fn generator_pubkey() -> Vec<u8> {
    hex::decode("0279be667ef9dcbbac55a06295ce870b07029bfcdb2dce28d959f2815b16f81798").unwrap()
}

// A 64-byte compact signature with r = s = 1, both valid non-zero scalars.
fn unit_compact_sig() -> Vec<u8> {
    let mut sig = vec![0u8; 64];
    sig[31] = 1;
    sig[63] = 1;
    sig
}

#[test]
fn parse_p2pkh_tokens() {
    let t = ScriptTemplate::from_asm_string(P2PKH).unwrap();
    assert_eq!(t.0.len(), 5);
    assert!(matches!(t.0[0], MatchToken::OpCode(0x76)));
    assert!(matches!(t.0[1], MatchToken::OpCode(0xa9)));
    assert!(matches!(t.0[2], MatchToken::PublicKeyHash));
    assert!(matches!(t.0[3], MatchToken::OpCode(0x88)));
    assert!(matches!(t.0[4], MatchToken::OpCode(0xac)));
}

#[test]
fn op_data_ge_precedence() {
    let t = ScriptTemplate::from_asm_string("OP_DATA>=32").unwrap();
    assert_eq!(t.0.len(), 1);
    assert!(matches!(
        t.0[0],
        MatchToken::Data(32, DataLengthConstraints::GreaterThanOrEquals)
    ));
}

#[test]
fn op_data_other_operators() {
    let cases = [
        ("OP_DATA<=5", 5usize, DataLengthConstraints::LessThanOrEquals),
        ("OP_DATA=32", 32, DataLengthConstraints::Equals),
        ("OP_DATA>7", 7, DataLengthConstraints::GreaterThan),
        ("OP_DATA<9", 9, DataLengthConstraints::LessThan),
    ];
    for (text, n, c) in cases {
        let t = ScriptTemplate::from_asm_string(text).unwrap();
        assert_eq!(t.0.len(), 1);
        match &t.0[0] {
            MatchToken::Data(m, mc) => {
                assert_eq!(*m, n);
                assert_eq!(*mc, c);
            }
            other => panic!("expected a data token, got {:?}", other),
        }
    }
}

#[test]
fn parse_numbers_and_roles() {
    let t = ScriptTemplate::from_asm_string("0 1 16 OP_SIG OP_PUBKEY OP_DATA").unwrap();
    assert!(matches!(t.0[0], MatchToken::OpCode(0x00)));
    assert!(matches!(t.0[1], MatchToken::OpCode(0x51)));
    assert!(matches!(t.0[2], MatchToken::OpCode(0x60)));
    assert!(matches!(t.0[3], MatchToken::Signature));
    assert!(matches!(t.0[4], MatchToken::PublicKey));
    assert!(matches!(t.0[5], MatchToken::AnyData));
}

#[test]
fn parse_hex_push_and_pushdata() {
    let t = ScriptTemplate::from_asm_string("deadbeef").unwrap();
    match &t.0[0] {
        MatchToken::Push(d) => assert_eq!(d, &vec![0xde, 0xad, 0xbe, 0xef]),
        other => panic!("expected a push token, got {:?}", other),
    }
    let long = "07".repeat(80);
    let t2 = ScriptTemplate::from_asm_string(&long).unwrap();
    match &t2.0[0] {
        MatchToken::PushData(op, d) => {
            assert_eq!(*op, 0x4c);
            assert_eq!(d, &vec![0x07; 80]);
        }
        other => panic!("expected a pushdata token, got {:?}", other),
    }
}

#[test]
fn parse_malformed_hex() {
    let r = ScriptTemplate::from_asm_string("OP_DUP zz");
    match r {
        Err(ScriptTemplateErrors::MalformedHex(HexError::InvalidHexCharacter(c, i))) => {
            assert_eq!(c, b'z');
            assert_eq!(i, 0);
        }
        other => panic!("expected malformed hex, got {:?}", other),
    }
    let r2 = ScriptTemplate::from_asm_string("abc");
    assert!(matches!(
        r2,
        Err(ScriptTemplateErrors::MalformedHex(HexError::OddLength))
    ));
}

#[test]
fn parse_op_data_bad_length() {
    let r = ScriptTemplate::from_asm_string("OP_DATA>=zz");
    match r {
        Err(ScriptTemplateErrors::OpDataParse(tok, _)) => {
            assert_eq!(tok, b"OP_DATA>=zz".to_vec());
        }
        other => panic!("expected an op-data parse error, got {:?}", other),
    }
}

fn p2pkh_script(hash: Vec<u8>) -> Script {
    Script(vec![
        ScriptBit::OpCode(0x76),
        ScriptBit::OpCode(0xa9),
        ScriptBit::Push(hash),
        ScriptBit::OpCode(0x88),
        ScriptBit::OpCode(0xac),
    ])
}

#[test]
fn p2pkh_template_matches_canonical_script() {
    let template = ScriptTemplate::from_asm_string(P2PKH).unwrap();
    let script = p2pkh_script(vec![0x11; 20]);
    let matches = script.match_template(&template).unwrap();
    assert_eq!(matches.len(), 1);
    // every capture, the public-key-hash role included, is tagged Data
    assert_eq!(matches[0].0, MatchDataTypes::Data);
    assert_eq!(matches[0].1, vec![0x11; 20]);
    assert!(script.test(&template));
}

#[test]
fn p2pkh_template_fails_on_19_byte_hash() {
    let template = ScriptTemplate::from_asm_string(P2PKH).unwrap();
    let script = p2pkh_script(vec![0x11; 19]);
    match script.match_template(&template) {
        Err(ScriptTemplateErrors::MatchFailure(i, token, bit)) => {
            assert_eq!(i, 2);
            assert!(matches!(token, MatchToken::PublicKeyHash));
            match bit {
                ScriptBit::Push(d) => assert_eq!(d.len(), 19),
                other => panic!("expected a push bit, got {:?}", other),
            }
        }
        other => panic!("expected a match failure, got {:?}", other),
    }
    assert!(!script.test(&template));
}

#[test]
fn op_data_eq_4_captures_exactly_4_bytes() {
    let template = ScriptTemplate::from_asm_string("OP_DATA=4").unwrap();
    let script = Script(vec![ScriptBit::Push(vec![0xde, 0xad, 0xbe, 0xef])]);
    let matches = script.match_template(&template).unwrap();
    assert_eq!(matches.len(), 1);
    assert_eq!(matches[0].0, MatchDataTypes::Data);
    assert_eq!(matches[0].1, vec![0xde, 0xad, 0xbe, 0xef]);
    let short = Script(vec![ScriptBit::Push(vec![0xde, 0xad, 0xbe])]);
    assert!(!short.test(&template));
}

#[test]
fn empty_script_fails_nonempty_template() {
    let template = ScriptTemplate::from_asm_string("OP_DUP").unwrap();
    let script = Script(vec![]);
    assert!(matches!(
        script.match_template(&template),
        Err(ScriptTemplateErrors::EmptyScriptDoesntMatch)
    ));
    assert!(!script.test(&template));
}

#[test]
fn length_mismatch_is_tolerated() {
    // extra script bits beyond the template are fine
    let template = ScriptTemplate::from_asm_string("OP_DUP").unwrap();
    let script = Script(vec![
        ScriptBit::OpCode(0x76),
        ScriptBit::OpCode(0xa9),
        ScriptBit::OpCode(0xac),
    ]);
    assert!(script.test(&template));
    // extra template tokens beyond the script are fine too
    let template2 = ScriptTemplate::from_asm_string(P2PKH).unwrap();
    let script2 = Script(vec![ScriptBit::OpCode(0x76), ScriptBit::OpCode(0xa9)]);
    assert!(script2.test(&template2));
}

#[test]
fn signature_token_requires_valid_compact_signature() {
    let template = ScriptTemplate::from_asm_string("OP_SIG").unwrap();
    let good = Script(vec![ScriptBit::Push(unit_compact_sig())]);
    assert!(good.test(&template));
    let bad = Script(vec![ScriptBit::Push(vec![0u8; 64])]);
    assert!(!bad.test(&template));
    // a valid signature capture is tagged as data
    let matches = good.match_template(&template).unwrap();
    assert_eq!(matches[0].0, MatchDataTypes::Data);
    assert_eq!(matches[0].1, unit_compact_sig());
}

#[test]
fn pubkey_token_requires_valid_point() {
    let template = ScriptTemplate::from_asm_string("OP_PUBKEY").unwrap();
    let good = Script(vec![ScriptBit::Push(generator_pubkey())]);
    assert!(good.test(&template));
    let bad = Script(vec![ScriptBit::Push(vec![0u8; 33])]);
    assert!(!bad.test(&template));
}

#[test]
fn from_script_derives_exact_template() {
    let script = Script(vec![
        ScriptBit::OpCode(0x76),
        ScriptBit::Push(vec![0xaa, 0xbb]),
        ScriptBit::PushData(0x4c, vec![0x07; 80]),
    ]);
    let template = ScriptTemplate::from_script(&script).unwrap();
    assert_eq!(template.0.len(), 3);
    assert!(matches!(template.0[0], MatchToken::OpCode(0x76)));
    assert!(matches!(&template.0[1], MatchToken::Push(d) if d == &vec![0xaa, 0xbb]));
    assert!(matches!(&template.0[2], MatchToken::PushData(0x4c, d) if d == &vec![0x07; 80]));
    assert!(script.test(&template));
    // a non-canonical pushdata is re-encoded by its length, as the
    // assembly round-trip does, so its template no longer matches it
    let wide = Script(vec![ScriptBit::PushData(0x4d, vec![0x07; 80])]);
    let normalized = ScriptTemplate::from_script(&wide).unwrap();
    assert!(matches!(&normalized.0[0], MatchToken::PushData(0x4c, d) if d == &vec![0x07; 80]));
    assert!(!wide.test(&normalized));
}

#[test]
fn exact_push_and_pushdata_matching() {
    let template = ScriptTemplate::from_asm_string("aabb").unwrap();
    let script = Script(vec![ScriptBit::Push(vec![0xaa, 0xbb])]);
    assert!(script.test(&template));
    let wrong = Script(vec![ScriptBit::Push(vec![0xaa, 0xbc])]);
    assert!(!wrong.test(&template));
}

#[test]
fn impl_aliases_agree() {
    let template = ScriptTemplate::from_asm_string_impl(P2PKH).unwrap();
    let script = p2pkh_script(vec![0x11; 20]);
    assert!(script.test_impl(&template));
    let matches = script.match_impl(&template).unwrap();
    assert_eq!(matches.len(), 1);
    let derived = ScriptTemplate::from_script_impl(&script).unwrap();
    assert!(script.test_impl(&derived));
}

#[test]
fn from_script_of_empty_script() {
    let empty = Script(vec![]);
    let template = ScriptTemplate::from_script(&empty).unwrap();
    assert_eq!(template.0.len(), 1);
    assert!(matches!(&template.0[0], MatchToken::Push(d) if d.is_empty()));
    // the empty-push token is a non-empty template, which an empty script fails
    assert!(!empty.test(&template));
}
