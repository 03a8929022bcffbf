//! Script templates: a small pattern language over tokenized scripts.  A
//! template is parsed from an assembly-like string into match tokens, then
//! executed positionally against a script, extracting the matched data.

use crate::crypto::{
    compact_sig_valid, is_compact_signature, is_public_key, public_key_valid,
};
use crate::script::{Script, ScriptBit, ScriptBitModel};
use crate::serial::{bytes_eq, get_pushdata_opcode, spec_pushdata_opcode};
use crate::text::{
    all_hex, find_sub, find_sub_exec, first_non_hex, first_space, has_pat_at, hex_decode,
    hex_decoded, lemma_first_space, parse_uint, uint_parse, HexError, IntParseError,
};
use vstd::slice::slice_to_vec;
use vstd::string::StringSliceAdditionalSpecFns;
use vstd::prelude::*;

verus! {

/// The comparison a fuzzy `Data` token applies to a payload length.
#[derive(Clone, Copy, Debug, PartialEq, Eq, Structural)]
pub enum DataLengthConstraints {
    Equals,
    GreaterThan,
    LessThan,
    GreaterThanOrEquals,
    LessThanOrEquals,
}

/// One token of a parsed template.  An opcode is carried as its byte value.
#[derive(Clone, Debug)]
pub enum MatchToken {
    /// Exact opcode match.
    OpCode(u8),
    /// Exact small-push match.
    Push(Vec<u8>),
    /// Exact pushdata match, both opcode and bytes.
    PushData(u8, Vec<u8>),
    /// Any push or pushdata; captures.
    AnyData,
    /// Any push or pushdata whose payload length satisfies the constraint
    /// against the given bound; captures.
    Data(usize, DataLengthConstraints),
    /// Any push parsing as a valid compact ECDSA signature; captures.
    Signature,
    /// Any push parsing as a valid secp256k1 public key; captures.
    PublicKey,
    /// Any push of exactly 20 bytes; captures.
    PublicKeyHash,
}

/// The mathematical shape of a `MatchToken`.
pub enum MatchTokenModel {
    OpCode(u8),
    Push(Seq<u8>),
    PushData(u8, Seq<u8>),
    AnyData,
    Data(usize, DataLengthConstraints),
    Signature,
    PublicKey,
    PublicKeyHash,
}

impl View for MatchToken {
    type V = MatchTokenModel;

    open spec fn view(&self) -> MatchTokenModel {
        match self {
            MatchToken::OpCode(op) => MatchTokenModel::OpCode(*op),
            MatchToken::Push(data) => MatchTokenModel::Push(data@),
            MatchToken::PushData(op, data) => MatchTokenModel::PushData(*op, data@),
            MatchToken::AnyData => MatchTokenModel::AnyData,
            MatchToken::Data(n, c) => MatchTokenModel::Data(*n, *c),
            MatchToken::Signature => MatchTokenModel::Signature,
            MatchToken::PublicKey => MatchTokenModel::PublicKey,
            MatchToken::PublicKeyHash => MatchTokenModel::PublicKeyHash,
        }
    }
}

/// The semantic role recorded with a captured slot.
#[derive(Clone, Copy, Debug, PartialEq, Eq, Structural)]
pub enum MatchDataTypes {
    Data,
    Signature,
    PublicKey,
    PublicKeyHash,
}

/// One captured slot: the role that matched and the payload bytes verbatim.
#[derive(Clone, Debug)]
pub struct Match(pub MatchDataTypes, pub Vec<u8>);

impl View for Match {
    type V = (MatchDataTypes, Seq<u8>);

    open spec fn view(&self) -> (MatchDataTypes, Seq<u8>) {
        (self.0, self.1@)
    }
}

/// The view of a capture list.
pub open spec fn matches_view(s: Seq<Match>) -> Seq<(MatchDataTypes, Seq<u8>)> {
    s.map_values(|m: Match| m@)
}

/// A parsed template: the ordered sequence of its tokens.
#[derive(Clone, Debug)]
pub struct ScriptTemplate(pub Vec<MatchToken>);

/// The view of a token list.
pub open spec fn tokens_view(ts: Seq<MatchToken>) -> Seq<MatchTokenModel> {
    ts.map_values(|t: MatchToken| t@)
}

impl View for ScriptTemplate {
    type V = Seq<MatchTokenModel>;

    open spec fn view(&self) -> Seq<MatchTokenModel> {
        tokens_view(self.0@)
    }
}

/// Raised by template parsing and matching.
#[derive(Clone, Debug)]
pub enum ScriptTemplateErrors {
    /// The script did not match the template: the index where the walk
    /// stopped, the expected token, and the observed bit.
    MatchFailure(usize, MatchToken, ScriptBit),
    /// An `OP_DATA` length failed to parse: the whole token and the cause.
    OpDataParse(Vec<u8>, IntParseError),
    /// The script is empty but the template is not.
    EmptyScriptDoesntMatch,
    /// A token was neither a number, an opcode name nor valid hex.
    MalformedHex(HexError),
}

/// The mathematical shape of a template error.
pub enum TemplateErrorModel {
    MatchFailure(usize, MatchTokenModel, ScriptBitModel),
    OpDataParse(Seq<u8>, IntParseError),
    EmptyScriptDoesntMatch,
    MalformedHex(HexError),
}

impl View for ScriptTemplateErrors {
    type V = TemplateErrorModel;

    open spec fn view(&self) -> TemplateErrorModel {
        match self {
            ScriptTemplateErrors::MatchFailure(i, t, b) => TemplateErrorModel::MatchFailure(
                *i,
                t@,
                b@,
            ),
            ScriptTemplateErrors::OpDataParse(tok, cause) => TemplateErrorModel::OpDataParse(
                tok@,
                *cause,
            ),
            ScriptTemplateErrors::EmptyScriptDoesntMatch =>
                TemplateErrorModel::EmptyScriptDoesntMatch,
            ScriptTemplateErrors::MalformedHex(e) => TemplateErrorModel::MalformedHex(*e),
        }
    }
}

/// Whether a payload length satisfies `len ⟨c⟩ n`.
pub open spec fn constraint_sat(len: int, c: DataLengthConstraints, n: int) -> bool {
    match c {
        DataLengthConstraints::Equals => len == n,
        DataLengthConstraints::GreaterThan => len > n,
        DataLengthConstraints::LessThan => len < n,
        DataLengthConstraints::GreaterThanOrEquals => len >= n,
        DataLengthConstraints::LessThanOrEquals => len <= n,
    }
}

/// The match predicate between one template token and one script bit.
pub open spec fn token_matches_bit(t: MatchTokenModel, b: ScriptBitModel) -> bool {
    match (t, b) {
        (MatchTokenModel::OpCode(tc), ScriptBitModel::OpCode(op)) => tc == op,
        (MatchTokenModel::Push(td), ScriptBitModel::Push(d)) => td == d,
        (MatchTokenModel::PushData(top, td), ScriptBitModel::PushData(op, d)) => top == op && td
            == d,
        (MatchTokenModel::Data(n, c), ScriptBitModel::Push(d)) => constraint_sat(
            d.len() as int,
            c,
            n as int,
        ),
        (MatchTokenModel::Data(n, c), ScriptBitModel::PushData(_, d)) => constraint_sat(
            d.len() as int,
            c,
            n as int,
        ),
        (MatchTokenModel::AnyData, ScriptBitModel::Push(_)) => true,
        (MatchTokenModel::AnyData, ScriptBitModel::PushData(_, _)) => true,
        (MatchTokenModel::Signature, ScriptBitModel::Push(d)) => compact_sig_valid(d),
        (MatchTokenModel::PublicKey, ScriptBitModel::Push(d)) => public_key_valid(d),
        (MatchTokenModel::PublicKeyHash, ScriptBitModel::Push(d)) => d.len() == 20,
        _ => false,
    }
}

/// The slot a matching `(token, bit)` pair captures, if any.  Every
/// capturing token — the fuzzy data tokens and the signature, public-key
/// and public-key-hash roles alike — records its bytes under the `Data`
/// kind, a quirk kept for compatibility.
pub open spec fn capture_of(t: MatchTokenModel, b: ScriptBitModel) -> Option<
    (MatchDataTypes, Seq<u8>),
> {
    match (t, b) {
        (MatchTokenModel::Data(_, _), ScriptBitModel::Push(d)) => Some((MatchDataTypes::Data, d)),
        (MatchTokenModel::Data(_, _), ScriptBitModel::PushData(_, d)) => Some(
            (MatchDataTypes::Data, d),
        ),
        (MatchTokenModel::AnyData, ScriptBitModel::Push(d)) => Some((MatchDataTypes::Data, d)),
        (MatchTokenModel::AnyData, ScriptBitModel::PushData(_, d)) => Some(
            (MatchDataTypes::Data, d),
        ),
        (MatchTokenModel::Signature, ScriptBitModel::Push(d)) => Some((MatchDataTypes::Data, d)),
        (MatchTokenModel::PublicKey, ScriptBitModel::Push(d)) => Some((MatchDataTypes::Data, d)),
        (MatchTokenModel::PublicKeyHash, ScriptBitModel::Push(d)) => Some(
            (MatchDataTypes::Data, d),
        ),
        _ => None,
    }
}

/// The number of positions the lock-step walk visits: the shorter of the
/// two lengths.
pub open spec fn match_len(t: Seq<MatchTokenModel>, s: Seq<ScriptBitModel>) -> int {
    if t.len() <= s.len() {
        t.len() as int
    } else {
        s.len() as int
    }
}

/// Whether every visited position matches.
pub open spec fn all_match(t: Seq<MatchTokenModel>, s: Seq<ScriptBitModel>) -> bool {
    forall|i: int| 0 <= i < match_len(t, s) ==> token_matches_bit(t[i], s[i])
}

/// The ordered captures over the first `k` positions.
pub open spec fn captures_upto(
    t: Seq<MatchTokenModel>,
    s: Seq<ScriptBitModel>,
    k: int,
) -> Seq<(MatchDataTypes, Seq<u8>)>
    decreases k,
{
    if k <= 0 {
        Seq::empty()
    } else {
        captures_upto(t, s, k - 1) + (match capture_of(t[k - 1], s[k - 1]) {
            Some(c) => seq![c],
            None => Seq::empty(),
        })
    }
}

/// A value-preserving copy of a token (a derived clone says nothing to the
/// verifier).
fn copy_token(t: &MatchToken) -> (r: MatchToken)
    ensures
        r@ == t@,
{
    match t {
        MatchToken::OpCode(op) => MatchToken::OpCode(*op),
        MatchToken::Push(d) => MatchToken::Push(crate::serial::clone_bytes(d)),
        MatchToken::PushData(op, d) => MatchToken::PushData(*op, crate::serial::clone_bytes(d)),
        MatchToken::AnyData => MatchToken::AnyData,
        MatchToken::Data(n, c) => MatchToken::Data(*n, *c),
        MatchToken::Signature => MatchToken::Signature,
        MatchToken::PublicKey => MatchToken::PublicKey,
        MatchToken::PublicKeyHash => MatchToken::PublicKeyHash,
    }
}

/// A value-preserving copy of a script bit.
fn copy_bit(b: &ScriptBit) -> (r: ScriptBit)
    ensures
        r@ == b@,
{
    match b {
        ScriptBit::OpCode(op) => ScriptBit::OpCode(*op),
        ScriptBit::Push(d) => ScriptBit::Push(crate::serial::clone_bytes(d)),
        ScriptBit::PushData(op, d) => ScriptBit::PushData(*op, crate::serial::clone_bytes(d)),
    }
}

fn data_of_bit_matches(n: usize, c: DataLengthConstraints, data: &Vec<u8>) -> (r: bool)
    ensures
        r == constraint_sat(data@.len() as int, c, n as int),
{
    match c {
        DataLengthConstraints::Equals => data.len() == n,
        DataLengthConstraints::GreaterThan => data.len() > n,
        DataLengthConstraints::LessThan => data.len() < n,
        DataLengthConstraints::GreaterThanOrEquals => data.len() >= n,
        DataLengthConstraints::LessThanOrEquals => data.len() <= n,
    }
}

fn token_bit_is_match(token: &MatchToken, bit: &ScriptBit) -> (r: bool)
    ensures
        r == token_matches_bit(token@, bit@),
{
    match (token, bit) {
        (MatchToken::OpCode(tc), ScriptBit::OpCode(op)) => *tc == *op,
        (MatchToken::Push(td), ScriptBit::Push(d)) => bytes_eq(td.as_slice(), d.as_slice()),
        (MatchToken::PushData(top, td), ScriptBit::PushData(op, d)) => *top == *op && bytes_eq(
            td.as_slice(),
            d.as_slice(),
        ),
        (MatchToken::Data(n, c), ScriptBit::Push(d)) => data_of_bit_matches(*n, *c, d),
        (MatchToken::Data(n, c), ScriptBit::PushData(_, d)) => data_of_bit_matches(*n, *c, d),
        (MatchToken::AnyData, ScriptBit::Push(_)) => true,
        (MatchToken::AnyData, ScriptBit::PushData(_, _)) => true,
        (MatchToken::Signature, ScriptBit::Push(d)) => is_compact_signature(d.as_slice()),
        (MatchToken::PublicKey, ScriptBit::Push(d)) => is_public_key(d.as_slice()),
        (MatchToken::PublicKeyHash, ScriptBit::Push(d)) => d.len() == 20,
        _ => false,
    }
}

fn capture_of_pair(token: &MatchToken, bit: &ScriptBit) -> (r: Option<Match>)
    ensures
        r matches Some(m) ==> capture_of(token@, bit@) == Some(m@),
        r is None ==> capture_of(token@, bit@) is None,
{
    match (token, bit) {
        (MatchToken::Data(_, _), ScriptBit::Push(d)) => Some(
            Match(MatchDataTypes::Data, crate::serial::clone_bytes(d)),
        ),
        (MatchToken::Data(_, _), ScriptBit::PushData(_, d)) => Some(
            Match(MatchDataTypes::Data, crate::serial::clone_bytes(d)),
        ),
        (MatchToken::AnyData, ScriptBit::Push(d)) => Some(
            Match(MatchDataTypes::Data, crate::serial::clone_bytes(d)),
        ),
        (MatchToken::AnyData, ScriptBit::PushData(_, d)) => Some(
            Match(MatchDataTypes::Data, crate::serial::clone_bytes(d)),
        ),
        (MatchToken::Signature, ScriptBit::Push(d)) => Some(
            Match(MatchDataTypes::Data, crate::serial::clone_bytes(d)),
        ),
        (MatchToken::PublicKey, ScriptBit::Push(d)) => Some(
            Match(MatchDataTypes::Data, crate::serial::clone_bytes(d)),
        ),
        (MatchToken::PublicKeyHash, ScriptBit::Push(d)) => Some(
            Match(MatchDataTypes::Data, crate::serial::clone_bytes(d)),
        ),
        _ => None,
    }
}

impl Script {
    /// Walks template and script in lock-step over the shorter of the two
    /// lengths.  The first mismatch fails with its position, expected
    /// token and observed bit; an empty script against a non-empty
    /// template fails outright; otherwise the ordered captures are
    /// returned.  Length mismatch alone is tolerated on either side.
    pub fn match_impl(&self, script_template: &ScriptTemplate) -> (r: Result<
        Vec<Match>,
        ScriptTemplateErrors,
    >)
        ensures
            self@.len() == 0 && script_template@.len() > 0 ==> (r matches Err(e) && e@
                == TemplateErrorModel::EmptyScriptDoesntMatch),
            !(self@.len() == 0 && script_template@.len() > 0) ==> {
                &&& (r is Ok <==> all_match(script_template@, self@))
                &&& (r matches Ok(v) ==> matches_view(v@) == captures_upto(
                    script_template@,
                    self@,
                    match_len(script_template@, self@),
                ))
                &&& (r matches Err(e) ==> e@ matches TemplateErrorModel::MatchFailure(i, tk, bt)
                    && 0 <= i < match_len(script_template@, self@) && !token_matches_bit(
                    script_template@[i as int],
                    self@[i as int],
                ) && tk == script_template@[i as int] && bt == self@[i as int] && (forall|j: int|
                    0 <= j < i ==> token_matches_bit(script_template@[j], self@[j])))
            },
    {
        if self.0.len() == 0 && script_template.0.len() > 0 {
            return Err(ScriptTemplateErrors::EmptyScriptDoesntMatch);
        }
        let ghost t = script_template@;
        let ghost s = self@;
        let n = if script_template.0.len() <= self.0.len() {
            script_template.0.len()
        } else {
            self.0.len()
        };
        proof {
            assert(n as int == match_len(t, s));
        }
        let mut matches: Vec<Match> = Vec::new();
        let mut i: usize = 0;
        while i < n
            invariant
                n as int == match_len(t, s),
                t == script_template@,
                s == self@,
                n <= script_template.0.len(),
                n <= self.0.len(),
                i <= n,
                forall|j: int| 0 <= j < i ==> token_matches_bit(t[j], s[j]),
                matches_view(matches@) == captures_upto(t, s, i as int),
            decreases n - i,
        {
            let token = &script_template.0[i];
            let bit = &self.0[i];
            proof {
                assert(token@ == t[i as int]);
                assert(bit@ == s[i as int]);
            }
            if !token_bit_is_match(token, bit) {
                return Err(
                    ScriptTemplateErrors::MatchFailure(i, copy_token(token), copy_bit(bit)),
                );
            }
            match capture_of_pair(token, bit) {
                Some(m) => {
                    matches.push(m);
                },
                None => (),
            }
            i = i + 1;
            proof {
                assert(matches_view(matches@) =~= captures_upto(t, s, i as int));
            }
        }
        Ok(matches)
    }

    /// Whether the script matches the template.
    pub fn test_impl(&self, script_template: &ScriptTemplate) -> (r: bool)
        ensures
            self@.len() == 0 && script_template@.len() > 0 ==> !r,
            !(self@.len() == 0 && script_template@.len() > 0) ==> r == all_match(
                script_template@,
                self@,
            ),
    {
        self.match_impl(script_template).is_ok()
    }

    /// Matches the script against the template, returning the captures.
    pub fn match_template(&self, script_template: &ScriptTemplate) -> (r: Result<
        Vec<Match>,
        ScriptTemplateErrors,
    >)
        ensures
            self@.len() == 0 && script_template@.len() > 0 ==> (r matches Err(e) && e@
                == TemplateErrorModel::EmptyScriptDoesntMatch),
            !(self@.len() == 0 && script_template@.len() > 0) ==> {
                &&& (r is Ok <==> all_match(script_template@, self@))
                &&& (r matches Ok(v) ==> matches_view(v@) == captures_upto(
                    script_template@,
                    self@,
                    match_len(script_template@, self@),
                ))
                &&& (r matches Err(e) ==> e@ matches TemplateErrorModel::MatchFailure(i, tk, bt)
                    && 0 <= i < match_len(script_template@, self@) && !token_matches_bit(
                    script_template@[i as int],
                    self@[i as int],
                ) && tk == script_template@[i as int] && bt == self@[i as int] && (forall|j: int|
                    0 <= j < i ==> token_matches_bit(script_template@[j], self@[j])))
            },
    {
        self.match_impl(script_template)
    }

    /// Whether the script matches the template.
    pub fn test(&self, script_template: &ScriptTemplate) -> (r: bool)
        ensures
            self@.len() == 0 && script_template@.len() > 0 ==> !r,
            !(self@.len() == 0 && script_template@.len() > 0) ==> r == all_match(
                script_template@,
                self@,
            ),
    {
        self.test_impl(script_template)
    }
}

/// The exact-match template of a whole script: one token per bit — except
/// that an empty script, whose assembly form is the empty string, yields
/// one empty-push token, as splitting that string does.
pub open spec fn template_of_script(s: Seq<ScriptBitModel>) -> Seq<MatchTokenModel> {
    if s.len() == 0 {
        seq![MatchTokenModel::Push(Seq::empty())]
    } else {
        s.map_values(|b: ScriptBitModel| token_of_bit(b))
    }
}

/// The exact-match token standing for one script bit: a pushdata payload
/// is re-encoded by its length, as the assembly round-trip does.
pub open spec fn token_of_bit(b: ScriptBitModel) -> MatchTokenModel {
    match b {
        ScriptBitModel::OpCode(op) => MatchTokenModel::OpCode(op),
        ScriptBitModel::Push(d) => MatchTokenModel::Push(d),
        ScriptBitModel::PushData(_, d) => {
            match spec_pushdata_opcode(d.len() as u64) {
                Some(op) => MatchTokenModel::PushData(op, d),
                None => MatchTokenModel::Push(d),
            }
        },
    }
}

impl ScriptTemplate {
    /// Derives the exact-match template of a concrete script: each bit
    /// becomes the token that matches precisely it; an empty script gives
    /// the one empty-push token its empty assembly form splits into.
    pub fn from_script(script: &Script) -> (r: Result<ScriptTemplate, ScriptTemplateErrors>)
        ensures
            r matches Ok(t) && t@ == template_of_script(script@),
    {
        let mut tokens: Vec<MatchToken> = Vec::new();
        let n = script.0.len();
        if n == 0 {
            tokens.push(MatchToken::Push(Vec::new()));
            let empty_result = ScriptTemplate(tokens);
            proof {
                assert(empty_result@ =~= template_of_script(script@));
            }
            return Ok(empty_result);
        }
        let mut i: usize = 0;
        while i < n
            invariant
                n == script.0.len(),
                i <= n,
                tokens@.len() == i,
                forall|k: int| 0 <= k < i ==> (#[trigger] tokens@[k])@ == token_of_bit(
                    script@[k],
                ),
            decreases n - i,
        {
            let tok: MatchToken = match &script.0[i] {
                ScriptBit::OpCode(op) => MatchToken::OpCode(*op),
                ScriptBit::Push(d) => MatchToken::Push(crate::serial::clone_bytes(d)),
                ScriptBit::PushData(_, d) => {
                    match get_pushdata_opcode(d.len() as u64) {
                        Some(op) => MatchToken::PushData(op, crate::serial::clone_bytes(d)),
                        None => MatchToken::Push(crate::serial::clone_bytes(d)),
                    }
                },
            };
            proof {
                assert(script@[i as int] == script.0@[i as int]@);
                assert(tok@ == token_of_bit(script@[i as int]));
            }
            tokens.push(tok);
            i = i + 1;
        }
        let result = ScriptTemplate(tokens);
        proof {
            assert(result@ =~= template_of_script(script@));
        }
        Ok(result)
    }
}


/// The opcode byte named by a standard opcode name (the UTF-8 bytes of
/// `OP_0`, `OP_DUP`, `OP_CHECKSIG` and the rest of the Bitcoin-SV set), if
/// any.  The four matcher pseudo-names are handled before this table.
#[verifier::opaque]
pub open spec fn spec_opcode_from_name(name: Seq<u8>) -> Option<u8> {
    if name == "OP_0".spec_bytes() {
        Some(0x00u8)
    } else if name == "OP_PUSHDATA1".spec_bytes() {
        Some(0x4cu8)
    } else if name == "OP_PUSHDATA2".spec_bytes() {
        Some(0x4du8)
    } else if name == "OP_PUSHDATA4".spec_bytes() {
        Some(0x4eu8)
    } else if name == "OP_1NEGATE".spec_bytes() {
        Some(0x4fu8)
    } else if name == "OP_RESERVED".spec_bytes() {
        Some(0x50u8)
    } else if name == "OP_1".spec_bytes() {
        Some(0x51u8)
    } else if name == "OP_2".spec_bytes() {
        Some(0x52u8)
    } else if name == "OP_3".spec_bytes() {
        Some(0x53u8)
    } else if name == "OP_4".spec_bytes() {
        Some(0x54u8)
    } else if name == "OP_5".spec_bytes() {
        Some(0x55u8)
    } else if name == "OP_6".spec_bytes() {
        Some(0x56u8)
    } else if name == "OP_7".spec_bytes() {
        Some(0x57u8)
    } else if name == "OP_8".spec_bytes() {
        Some(0x58u8)
    } else if name == "OP_9".spec_bytes() {
        Some(0x59u8)
    } else if name == "OP_10".spec_bytes() {
        Some(0x5au8)
    } else if name == "OP_11".spec_bytes() {
        Some(0x5bu8)
    } else if name == "OP_12".spec_bytes() {
        Some(0x5cu8)
    } else if name == "OP_13".spec_bytes() {
        Some(0x5du8)
    } else if name == "OP_14".spec_bytes() {
        Some(0x5eu8)
    } else if name == "OP_15".spec_bytes() {
        Some(0x5fu8)
    } else if name == "OP_16".spec_bytes() {
        Some(0x60u8)
    } else if name == "OP_NOP".spec_bytes() {
        Some(0x61u8)
    } else if name == "OP_VER".spec_bytes() {
        Some(0x62u8)
    } else if name == "OP_IF".spec_bytes() {
        Some(0x63u8)
    } else if name == "OP_NOTIF".spec_bytes() {
        Some(0x64u8)
    } else if name == "OP_VERIF".spec_bytes() {
        Some(0x65u8)
    } else if name == "OP_VERNOTIF".spec_bytes() {
        Some(0x66u8)
    } else if name == "OP_ELSE".spec_bytes() {
        Some(0x67u8)
    } else if name == "OP_ENDIF".spec_bytes() {
        Some(0x68u8)
    } else if name == "OP_VERIFY".spec_bytes() {
        Some(0x69u8)
    } else if name == "OP_RETURN".spec_bytes() {
        Some(0x6au8)
    } else if name == "OP_TOALTSTACK".spec_bytes() {
        Some(0x6bu8)
    } else if name == "OP_FROMALTSTACK".spec_bytes() {
        Some(0x6cu8)
    } else if name == "OP_2DROP".spec_bytes() {
        Some(0x6du8)
    } else if name == "OP_2DUP".spec_bytes() {
        Some(0x6eu8)
    } else if name == "OP_3DUP".spec_bytes() {
        Some(0x6fu8)
    } else if name == "OP_2OVER".spec_bytes() {
        Some(0x70u8)
    } else if name == "OP_2ROT".spec_bytes() {
        Some(0x71u8)
    } else if name == "OP_2SWAP".spec_bytes() {
        Some(0x72u8)
    } else if name == "OP_IFDUP".spec_bytes() {
        Some(0x73u8)
    } else if name == "OP_DEPTH".spec_bytes() {
        Some(0x74u8)
    } else if name == "OP_DROP".spec_bytes() {
        Some(0x75u8)
    } else if name == "OP_DUP".spec_bytes() {
        Some(0x76u8)
    } else if name == "OP_NIP".spec_bytes() {
        Some(0x77u8)
    } else if name == "OP_OVER".spec_bytes() {
        Some(0x78u8)
    } else if name == "OP_PICK".spec_bytes() {
        Some(0x79u8)
    } else if name == "OP_ROLL".spec_bytes() {
        Some(0x7au8)
    } else if name == "OP_ROT".spec_bytes() {
        Some(0x7bu8)
    } else if name == "OP_SWAP".spec_bytes() {
        Some(0x7cu8)
    } else if name == "OP_TUCK".spec_bytes() {
        Some(0x7du8)
    } else if name == "OP_CAT".spec_bytes() {
        Some(0x7eu8)
    } else if name == "OP_SPLIT".spec_bytes() {
        Some(0x7fu8)
    } else if name == "OP_NUM2BIN".spec_bytes() {
        Some(0x80u8)
    } else if name == "OP_BIN2NUM".spec_bytes() {
        Some(0x81u8)
    } else if name == "OP_SIZE".spec_bytes() {
        Some(0x82u8)
    } else if name == "OP_INVERT".spec_bytes() {
        Some(0x83u8)
    } else if name == "OP_AND".spec_bytes() {
        Some(0x84u8)
    } else if name == "OP_OR".spec_bytes() {
        Some(0x85u8)
    } else if name == "OP_XOR".spec_bytes() {
        Some(0x86u8)
    } else if name == "OP_EQUAL".spec_bytes() {
        Some(0x87u8)
    } else if name == "OP_EQUALVERIFY".spec_bytes() {
        Some(0x88u8)
    } else if name == "OP_RESERVED1".spec_bytes() {
        Some(0x89u8)
    } else if name == "OP_RESERVED2".spec_bytes() {
        Some(0x8au8)
    } else if name == "OP_1ADD".spec_bytes() {
        Some(0x8bu8)
    } else if name == "OP_1SUB".spec_bytes() {
        Some(0x8cu8)
    } else if name == "OP_2MUL".spec_bytes() {
        Some(0x8du8)
    } else if name == "OP_2DIV".spec_bytes() {
        Some(0x8eu8)
    } else if name == "OP_NEGATE".spec_bytes() {
        Some(0x8fu8)
    } else if name == "OP_ABS".spec_bytes() {
        Some(0x90u8)
    } else if name == "OP_NOT".spec_bytes() {
        Some(0x91u8)
    } else if name == "OP_0NOTEQUAL".spec_bytes() {
        Some(0x92u8)
    } else if name == "OP_ADD".spec_bytes() {
        Some(0x93u8)
    } else if name == "OP_SUB".spec_bytes() {
        Some(0x94u8)
    } else if name == "OP_MUL".spec_bytes() {
        Some(0x95u8)
    } else if name == "OP_DIV".spec_bytes() {
        Some(0x96u8)
    } else if name == "OP_MOD".spec_bytes() {
        Some(0x97u8)
    } else if name == "OP_LSHIFT".spec_bytes() {
        Some(0x98u8)
    } else if name == "OP_RSHIFT".spec_bytes() {
        Some(0x99u8)
    } else if name == "OP_BOOLAND".spec_bytes() {
        Some(0x9au8)
    } else if name == "OP_BOOLOR".spec_bytes() {
        Some(0x9bu8)
    } else if name == "OP_NUMEQUAL".spec_bytes() {
        Some(0x9cu8)
    } else if name == "OP_NUMEQUALVERIFY".spec_bytes() {
        Some(0x9du8)
    } else if name == "OP_NUMNOTEQUAL".spec_bytes() {
        Some(0x9eu8)
    } else if name == "OP_LESSTHAN".spec_bytes() {
        Some(0x9fu8)
    } else if name == "OP_GREATERTHAN".spec_bytes() {
        Some(0xa0u8)
    } else if name == "OP_LESSTHANOREQUAL".spec_bytes() {
        Some(0xa1u8)
    } else if name == "OP_GREATERTHANOREQUAL".spec_bytes() {
        Some(0xa2u8)
    } else if name == "OP_MIN".spec_bytes() {
        Some(0xa3u8)
    } else if name == "OP_MAX".spec_bytes() {
        Some(0xa4u8)
    } else if name == "OP_WITHIN".spec_bytes() {
        Some(0xa5u8)
    } else if name == "OP_RIPEMD160".spec_bytes() {
        Some(0xa6u8)
    } else if name == "OP_SHA1".spec_bytes() {
        Some(0xa7u8)
    } else if name == "OP_SHA256".spec_bytes() {
        Some(0xa8u8)
    } else if name == "OP_HASH160".spec_bytes() {
        Some(0xa9u8)
    } else if name == "OP_HASH256".spec_bytes() {
        Some(0xaau8)
    } else if name == "OP_CODESEPARATOR".spec_bytes() {
        Some(0xabu8)
    } else if name == "OP_CHECKSIG".spec_bytes() {
        Some(0xacu8)
    } else if name == "OP_CHECKSIGVERIFY".spec_bytes() {
        Some(0xadu8)
    } else if name == "OP_CHECKMULTISIG".spec_bytes() {
        Some(0xaeu8)
    } else if name == "OP_CHECKMULTISIGVERIFY".spec_bytes() {
        Some(0xafu8)
    } else if name == "OP_NOP1".spec_bytes() {
        Some(0xb0u8)
    } else if name == "OP_NOP2".spec_bytes() {
        Some(0xb1u8)
    } else if name == "OP_NOP3".spec_bytes() {
        Some(0xb2u8)
    } else if name == "OP_NOP4".spec_bytes() {
        Some(0xb3u8)
    } else if name == "OP_NOP5".spec_bytes() {
        Some(0xb4u8)
    } else if name == "OP_NOP6".spec_bytes() {
        Some(0xb5u8)
    } else if name == "OP_NOP7".spec_bytes() {
        Some(0xb6u8)
    } else if name == "OP_NOP8".spec_bytes() {
        Some(0xb7u8)
    } else if name == "OP_NOP9".spec_bytes() {
        Some(0xb8u8)
    } else if name == "OP_NOP10".spec_bytes() {
        Some(0xb9u8)
    } else if name == "OP_INVALIDOPCODE".spec_bytes() {
        Some(0xffu8)
    } else {
        None
    }
}

/// Looks an opcode name up in the standard table.
#[verifier::rlimit(60)]
pub fn opcode_from_name(name: &[u8]) -> (r: Option<u8>)
    ensures
        r == spec_opcode_from_name(name@),
{
    proof {
        reveal(spec_opcode_from_name);
    }
    if bytes_eq(name, "OP_0".as_bytes()) {
        Some(0x00)
    } else if bytes_eq(name, "OP_PUSHDATA1".as_bytes()) {
        Some(0x4c)
    } else if bytes_eq(name, "OP_PUSHDATA2".as_bytes()) {
        Some(0x4d)
    } else if bytes_eq(name, "OP_PUSHDATA4".as_bytes()) {
        Some(0x4e)
    } else if bytes_eq(name, "OP_1NEGATE".as_bytes()) {
        Some(0x4f)
    } else if bytes_eq(name, "OP_RESERVED".as_bytes()) {
        Some(0x50)
    } else if bytes_eq(name, "OP_1".as_bytes()) {
        Some(0x51)
    } else if bytes_eq(name, "OP_2".as_bytes()) {
        Some(0x52)
    } else if bytes_eq(name, "OP_3".as_bytes()) {
        Some(0x53)
    } else if bytes_eq(name, "OP_4".as_bytes()) {
        Some(0x54)
    } else if bytes_eq(name, "OP_5".as_bytes()) {
        Some(0x55)
    } else if bytes_eq(name, "OP_6".as_bytes()) {
        Some(0x56)
    } else if bytes_eq(name, "OP_7".as_bytes()) {
        Some(0x57)
    } else if bytes_eq(name, "OP_8".as_bytes()) {
        Some(0x58)
    } else if bytes_eq(name, "OP_9".as_bytes()) {
        Some(0x59)
    } else if bytes_eq(name, "OP_10".as_bytes()) {
        Some(0x5a)
    } else if bytes_eq(name, "OP_11".as_bytes()) {
        Some(0x5b)
    } else if bytes_eq(name, "OP_12".as_bytes()) {
        Some(0x5c)
    } else if bytes_eq(name, "OP_13".as_bytes()) {
        Some(0x5d)
    } else if bytes_eq(name, "OP_14".as_bytes()) {
        Some(0x5e)
    } else if bytes_eq(name, "OP_15".as_bytes()) {
        Some(0x5f)
    } else if bytes_eq(name, "OP_16".as_bytes()) {
        Some(0x60)
    } else if bytes_eq(name, "OP_NOP".as_bytes()) {
        Some(0x61)
    } else if bytes_eq(name, "OP_VER".as_bytes()) {
        Some(0x62)
    } else if bytes_eq(name, "OP_IF".as_bytes()) {
        Some(0x63)
    } else if bytes_eq(name, "OP_NOTIF".as_bytes()) {
        Some(0x64)
    } else if bytes_eq(name, "OP_VERIF".as_bytes()) {
        Some(0x65)
    } else if bytes_eq(name, "OP_VERNOTIF".as_bytes()) {
        Some(0x66)
    } else if bytes_eq(name, "OP_ELSE".as_bytes()) {
        Some(0x67)
    } else if bytes_eq(name, "OP_ENDIF".as_bytes()) {
        Some(0x68)
    } else if bytes_eq(name, "OP_VERIFY".as_bytes()) {
        Some(0x69)
    } else if bytes_eq(name, "OP_RETURN".as_bytes()) {
        Some(0x6a)
    } else if bytes_eq(name, "OP_TOALTSTACK".as_bytes()) {
        Some(0x6b)
    } else if bytes_eq(name, "OP_FROMALTSTACK".as_bytes()) {
        Some(0x6c)
    } else if bytes_eq(name, "OP_2DROP".as_bytes()) {
        Some(0x6d)
    } else if bytes_eq(name, "OP_2DUP".as_bytes()) {
        Some(0x6e)
    } else if bytes_eq(name, "OP_3DUP".as_bytes()) {
        Some(0x6f)
    } else if bytes_eq(name, "OP_2OVER".as_bytes()) {
        Some(0x70)
    } else if bytes_eq(name, "OP_2ROT".as_bytes()) {
        Some(0x71)
    } else if bytes_eq(name, "OP_2SWAP".as_bytes()) {
        Some(0x72)
    } else if bytes_eq(name, "OP_IFDUP".as_bytes()) {
        Some(0x73)
    } else if bytes_eq(name, "OP_DEPTH".as_bytes()) {
        Some(0x74)
    } else if bytes_eq(name, "OP_DROP".as_bytes()) {
        Some(0x75)
    } else if bytes_eq(name, "OP_DUP".as_bytes()) {
        Some(0x76)
    } else if bytes_eq(name, "OP_NIP".as_bytes()) {
        Some(0x77)
    } else if bytes_eq(name, "OP_OVER".as_bytes()) {
        Some(0x78)
    } else if bytes_eq(name, "OP_PICK".as_bytes()) {
        Some(0x79)
    } else if bytes_eq(name, "OP_ROLL".as_bytes()) {
        Some(0x7a)
    } else if bytes_eq(name, "OP_ROT".as_bytes()) {
        Some(0x7b)
    } else if bytes_eq(name, "OP_SWAP".as_bytes()) {
        Some(0x7c)
    } else if bytes_eq(name, "OP_TUCK".as_bytes()) {
        Some(0x7d)
    } else if bytes_eq(name, "OP_CAT".as_bytes()) {
        Some(0x7e)
    } else if bytes_eq(name, "OP_SPLIT".as_bytes()) {
        Some(0x7f)
    } else if bytes_eq(name, "OP_NUM2BIN".as_bytes()) {
        Some(0x80)
    } else if bytes_eq(name, "OP_BIN2NUM".as_bytes()) {
        Some(0x81)
    } else if bytes_eq(name, "OP_SIZE".as_bytes()) {
        Some(0x82)
    } else if bytes_eq(name, "OP_INVERT".as_bytes()) {
        Some(0x83)
    } else if bytes_eq(name, "OP_AND".as_bytes()) {
        Some(0x84)
    } else if bytes_eq(name, "OP_OR".as_bytes()) {
        Some(0x85)
    } else if bytes_eq(name, "OP_XOR".as_bytes()) {
        Some(0x86)
    } else if bytes_eq(name, "OP_EQUAL".as_bytes()) {
        Some(0x87)
    } else if bytes_eq(name, "OP_EQUALVERIFY".as_bytes()) {
        Some(0x88)
    } else if bytes_eq(name, "OP_RESERVED1".as_bytes()) {
        Some(0x89)
    } else if bytes_eq(name, "OP_RESERVED2".as_bytes()) {
        Some(0x8a)
    } else if bytes_eq(name, "OP_1ADD".as_bytes()) {
        Some(0x8b)
    } else if bytes_eq(name, "OP_1SUB".as_bytes()) {
        Some(0x8c)
    } else if bytes_eq(name, "OP_2MUL".as_bytes()) {
        Some(0x8d)
    } else if bytes_eq(name, "OP_2DIV".as_bytes()) {
        Some(0x8e)
    } else if bytes_eq(name, "OP_NEGATE".as_bytes()) {
        Some(0x8f)
    } else if bytes_eq(name, "OP_ABS".as_bytes()) {
        Some(0x90)
    } else if bytes_eq(name, "OP_NOT".as_bytes()) {
        Some(0x91)
    } else if bytes_eq(name, "OP_0NOTEQUAL".as_bytes()) {
        Some(0x92)
    } else if bytes_eq(name, "OP_ADD".as_bytes()) {
        Some(0x93)
    } else if bytes_eq(name, "OP_SUB".as_bytes()) {
        Some(0x94)
    } else if bytes_eq(name, "OP_MUL".as_bytes()) {
        Some(0x95)
    } else if bytes_eq(name, "OP_DIV".as_bytes()) {
        Some(0x96)
    } else if bytes_eq(name, "OP_MOD".as_bytes()) {
        Some(0x97)
    } else if bytes_eq(name, "OP_LSHIFT".as_bytes()) {
        Some(0x98)
    } else if bytes_eq(name, "OP_RSHIFT".as_bytes()) {
        Some(0x99)
    } else if bytes_eq(name, "OP_BOOLAND".as_bytes()) {
        Some(0x9a)
    } else if bytes_eq(name, "OP_BOOLOR".as_bytes()) {
        Some(0x9b)
    } else if bytes_eq(name, "OP_NUMEQUAL".as_bytes()) {
        Some(0x9c)
    } else if bytes_eq(name, "OP_NUMEQUALVERIFY".as_bytes()) {
        Some(0x9d)
    } else if bytes_eq(name, "OP_NUMNOTEQUAL".as_bytes()) {
        Some(0x9e)
    } else if bytes_eq(name, "OP_LESSTHAN".as_bytes()) {
        Some(0x9f)
    } else if bytes_eq(name, "OP_GREATERTHAN".as_bytes()) {
        Some(0xa0)
    } else if bytes_eq(name, "OP_LESSTHANOREQUAL".as_bytes()) {
        Some(0xa1)
    } else if bytes_eq(name, "OP_GREATERTHANOREQUAL".as_bytes()) {
        Some(0xa2)
    } else if bytes_eq(name, "OP_MIN".as_bytes()) {
        Some(0xa3)
    } else if bytes_eq(name, "OP_MAX".as_bytes()) {
        Some(0xa4)
    } else if bytes_eq(name, "OP_WITHIN".as_bytes()) {
        Some(0xa5)
    } else if bytes_eq(name, "OP_RIPEMD160".as_bytes()) {
        Some(0xa6)
    } else if bytes_eq(name, "OP_SHA1".as_bytes()) {
        Some(0xa7)
    } else if bytes_eq(name, "OP_SHA256".as_bytes()) {
        Some(0xa8)
    } else if bytes_eq(name, "OP_HASH160".as_bytes()) {
        Some(0xa9)
    } else if bytes_eq(name, "OP_HASH256".as_bytes()) {
        Some(0xaa)
    } else if bytes_eq(name, "OP_CODESEPARATOR".as_bytes()) {
        Some(0xab)
    } else if bytes_eq(name, "OP_CHECKSIG".as_bytes()) {
        Some(0xac)
    } else if bytes_eq(name, "OP_CHECKSIGVERIFY".as_bytes()) {
        Some(0xad)
    } else if bytes_eq(name, "OP_CHECKMULTISIG".as_bytes()) {
        Some(0xae)
    } else if bytes_eq(name, "OP_CHECKMULTISIGVERIFY".as_bytes()) {
        Some(0xaf)
    } else if bytes_eq(name, "OP_NOP1".as_bytes()) {
        Some(0xb0)
    } else if bytes_eq(name, "OP_NOP2".as_bytes()) {
        Some(0xb1)
    } else if bytes_eq(name, "OP_NOP3".as_bytes()) {
        Some(0xb2)
    } else if bytes_eq(name, "OP_NOP4".as_bytes()) {
        Some(0xb3)
    } else if bytes_eq(name, "OP_NOP5".as_bytes()) {
        Some(0xb4)
    } else if bytes_eq(name, "OP_NOP6".as_bytes()) {
        Some(0xb5)
    } else if bytes_eq(name, "OP_NOP7".as_bytes()) {
        Some(0xb6)
    } else if bytes_eq(name, "OP_NOP8".as_bytes()) {
        Some(0xb7)
    } else if bytes_eq(name, "OP_NOP9".as_bytes()) {
        Some(0xb8)
    } else if bytes_eq(name, "OP_NOP10".as_bytes()) {
        Some(0xb9)
    } else if bytes_eq(name, "OP_INVALIDOPCODE".as_bytes()) {
        Some(0xff)
    } else {
        None
    }
}

/// Whether the token begins with the literal text `OP_DATA`.
pub open spec fn starts_op_data(tok: Seq<u8>) -> bool {
    tok.len() >= "OP_DATA".spec_bytes().len() && tok.subrange(
        0,
        "OP_DATA".spec_bytes().len() as int,
    ) == "OP_DATA".spec_bytes()
}

/// The token an `OP_DATA` comparison produces: the text after the first
/// occurrence of the operator is parsed as an unsigned length; a parse
/// failure carries the whole token and the cause.
pub open spec fn op_data_after(tok: Seq<u8>, cut: int, c: DataLengthConstraints) -> Result<
    MatchTokenModel,
    TemplateErrorModel,
> {
    match uint_parse(tok.subrange(cut, tok.len() as int), usize::MAX as nat) {
        Ok(v) => Ok(MatchTokenModel::Data(v as usize, c)),
        Err(e) => Err(TemplateErrorModel::OpDataParse(tok, e)),
    }
}

pub open spec fn op_data_split(
    tok: Seq<u8>,
    pat: Seq<u8>,
    c: DataLengthConstraints,
) -> Result<MatchTokenModel, TemplateErrorModel> {
    op_data_after(tok, find_sub(tok, pat) + pat.len(), c)
}

/// The token a hex literal produces: an even all-hex token decodes to its
/// bytes, pushed directly below 76 bytes and through the fitting
/// `OP_PUSHDATA` form above; anything else is malformed hex.
pub open spec fn hex_token(tok: Seq<u8>) -> Result<MatchTokenModel, TemplateErrorModel> {
    if tok.len() % 2 == 0 && all_hex(tok) {
        match spec_pushdata_opcode(hex_decoded(tok).len() as u64) {
            Some(op) => Ok(MatchTokenModel::PushData(op, hex_decoded(tok))),
            None => Ok(MatchTokenModel::Push(hex_decoded(tok))),
        }
    } else if tok.len() % 2 != 0 {
        Err(TemplateErrorModel::MalformedHex(HexError::OddLength))
    } else {
        Err(
            TemplateErrorModel::MalformedHex(
                HexError::InvalidHexCharacter(tok[first_non_hex(tok)], first_non_hex(tok) as usize),
            ),
        )
    }
}

/// How one whitespace-separated token maps to a match token, by the
/// ordered rules: a decimal 0..=16 names the small-number opcode; the four
/// role names map to their fuzzy tokens; any other known opcode name is an
/// exact opcode; a token starting with `OP_DATA` is split on the first of
/// `>=`, `<=`, `=`, `>`, `<`; everything else must be hex.
pub open spec fn spec_parse_token(tok: Seq<u8>) -> Result<MatchTokenModel, TemplateErrorModel> {
    match uint_parse(tok, 255) {
        Ok(v) => {
            if v == 0 {
                Ok(MatchTokenModel::OpCode(0))
            } else if 1 <= v && v <= 16 {
                Ok(MatchTokenModel::OpCode((v + 80) as u8))
            } else {
                spec_parse_word(tok)
            }
        },
        Err(_) => spec_parse_word(tok),
    }
}

/// The rules for a token that is not a small decimal number.
pub open spec fn spec_parse_word(tok: Seq<u8>) -> Result<MatchTokenModel, TemplateErrorModel> {
    if tok == "OP_SIG".spec_bytes() {
        Ok(MatchTokenModel::Signature)
    } else if tok == "OP_PUBKEY".spec_bytes() {
        Ok(MatchTokenModel::PublicKey)
    } else if tok == "OP_PUBKEYHASH".spec_bytes() {
        Ok(MatchTokenModel::PublicKeyHash)
    } else if tok == "OP_DATA".spec_bytes() {
        Ok(MatchTokenModel::AnyData)
    } else if spec_opcode_from_name(tok) is Some {
        Ok(MatchTokenModel::OpCode(spec_opcode_from_name(tok)->Some_0))
    } else if starts_op_data(tok) && find_sub(tok, ">=".spec_bytes()) >= 0 {
        op_data_split(tok, ">=".spec_bytes(), DataLengthConstraints::GreaterThanOrEquals)
    } else if starts_op_data(tok) && find_sub(tok, "<=".spec_bytes()) >= 0 {
        op_data_split(tok, "<=".spec_bytes(), DataLengthConstraints::LessThanOrEquals)
    } else if starts_op_data(tok) && find_sub(tok, "=".spec_bytes()) >= 0 {
        op_data_split(tok, "=".spec_bytes(), DataLengthConstraints::Equals)
    } else if starts_op_data(tok) && find_sub(tok, ">".spec_bytes()) >= 0 {
        op_data_split(tok, ">".spec_bytes(), DataLengthConstraints::GreaterThan)
    } else if starts_op_data(tok) && find_sub(tok, "<".spec_bytes()) >= 0 {
        op_data_split(tok, "<".spec_bytes(), DataLengthConstraints::LessThan)
    } else {
        hex_token(tok)
    }
}

/// The model of a token parse result.
pub open spec fn token_result_view(r: Result<MatchToken, ScriptTemplateErrors>) -> Result<
    MatchTokenModel,
    TemplateErrorModel,
> {
    match r {
        Ok(t) => Ok(t@),
        Err(e) => Err(e@),
    }
}

fn op_data_parse(
    tok: &[u8],
    idx: usize,
    plen: usize,
    c: DataLengthConstraints,
) -> (r: Result<MatchToken, ScriptTemplateErrors>)
    requires
        idx + plen <= tok@.len(),
    ensures
        token_result_view(r) == op_data_after(tok@, idx + plen, c),
{
    let n = tok.len();
    let cut = idx + plen;
    let after = &tok[cut..n];
    match parse_uint(after, usize::MAX as u64) {
        Ok(v) => Ok(MatchToken::Data(v as usize, c)),
        Err(e) => Err(ScriptTemplateErrors::OpDataParse(slice_to_vec(tok), e)),
    }
}

/// Maps one token of the assembly form to a match token.
#[verifier::rlimit(60)]
pub fn parse_token(tok: &[u8]) -> (r: Result<MatchToken, ScriptTemplateErrors>)
    ensures
        token_result_view(r) == spec_parse_token(tok@),
{
    match parse_uint(tok, 255) {
        Ok(v) => {
            if v == 0 {
                return Ok(MatchToken::OpCode(0));
            }
            if 1 <= v && v <= 16 {
                return Ok(MatchToken::OpCode((v + 80) as u8));
            }
        },
        Err(_) => (),
    }
    if bytes_eq(tok, "OP_SIG".as_bytes()) {
        return Ok(MatchToken::Signature);
    }
    if bytes_eq(tok, "OP_PUBKEY".as_bytes()) {
        return Ok(MatchToken::PublicKey);
    }
    if bytes_eq(tok, "OP_PUBKEYHASH".as_bytes()) {
        return Ok(MatchToken::PublicKeyHash);
    }
    if bytes_eq(tok, "OP_DATA".as_bytes()) {
        return Ok(MatchToken::AnyData);
    }
    match opcode_from_name(tok) {
        Some(op) => {
            return Ok(MatchToken::OpCode(op));
        },
        None => (),
    }
    let op_data = "OP_DATA".as_bytes();
    if tok.len() >= op_data.len() && has_pat_at(tok, 0, op_data) {
        let ge = ">=".as_bytes();
        {
            match find_sub_exec(tok, ge) {
                Some(idx) => {
                    proof {
                        crate::text::lemma_find_sub(tok@, ">=".spec_bytes());
                    }
                    return op_data_parse(
                        tok,
                        idx,
                        ge.len(),
                        DataLengthConstraints::GreaterThanOrEquals,
                    );
                },
                None => (),
            }
        }
        let le = "<=".as_bytes();
        {
            match find_sub_exec(tok, le) {
                Some(idx) => {
                    proof {
                        crate::text::lemma_find_sub(tok@, "<=".spec_bytes());
                    }
                    return op_data_parse(
                        tok,
                        idx,
                        le.len(),
                        DataLengthConstraints::LessThanOrEquals,
                    );
                },
                None => (),
            }
        }
        let eq_pat = "=".as_bytes();
        {
            match find_sub_exec(tok, eq_pat) {
                Some(idx) => {
                    proof {
                        crate::text::lemma_find_sub(tok@, "=".spec_bytes());
                    }
                    return op_data_parse(tok, idx, eq_pat.len(), DataLengthConstraints::Equals);
                },
                None => (),
            }
        }
        let gt = ">".as_bytes();
        {
            match find_sub_exec(tok, gt) {
                Some(idx) => {
                    proof {
                        crate::text::lemma_find_sub(tok@, ">".spec_bytes());
                    }
                    return op_data_parse(tok, idx, gt.len(), DataLengthConstraints::GreaterThan);
                },
                None => (),
            }
        }
        let lt = "<".as_bytes();
        {
            match find_sub_exec(tok, lt) {
                Some(idx) => {
                    proof {
                        crate::text::lemma_find_sub(tok@, "<".spec_bytes());
                    }
                    return op_data_parse(tok, idx, lt.len(), DataLengthConstraints::LessThan);
                },
                None => (),
            }
        }
    }
    match hex_decode(tok) {
        Ok(v) => {
            match get_pushdata_opcode(v.len() as u64) {
                Some(op) => Ok(MatchToken::PushData(op, v)),
                None => Ok(MatchToken::Push(v)),
            }
        },
        Err(e) => {
            proof {
                crate::text::lemma_first_non_hex(tok@);
            }
            Err(ScriptTemplateErrors::MalformedHex(e))
        },
    }
}

/// The model of a template parse result.
pub open spec fn template_result_view(r: Result<ScriptTemplate, ScriptTemplateErrors>) -> Result<
    Seq<MatchTokenModel>,
    TemplateErrorModel,
> {
    match r {
        Ok(t) => Ok(t@),
        Err(e) => Err(e@),
    }
}

/// Tokens already parsed, combined with the outcome for the rest of the
/// string.
pub open spec fn spec_combine(
    acc: Seq<MatchTokenModel>,
    rest: Result<Seq<MatchTokenModel>, TemplateErrorModel>,
) -> Result<Seq<MatchTokenModel>, TemplateErrorModel> {
    match rest {
        Ok(ts) => Ok(acc + ts),
        Err(e) => Err(e),
    }
}

/// How an assembly string parses: it is split on single spaces (a doubled
/// or trailing space yields an empty piece, and an empty string one empty
/// piece), and the pieces are parsed in order, stopping at the first
/// failure.
pub open spec fn spec_parse_template(s: Seq<u8>) -> Result<Seq<MatchTokenModel>, TemplateErrorModel>
    decreases s.len(),
{
    let j = first_space(s);
    if 0 <= j < s.len() {
        match spec_parse_token(s.subrange(0, j)) {
            Err(e) => Err(e),
            Ok(t) => spec_combine(
                seq![t],
                spec_parse_template(s.subrange(j + 1, s.len() as int)),
            ),
        }
    } else {
        match spec_parse_token(s) {
            Ok(t) => Ok(seq![t]),
            Err(e) => Err(e),
        }
    }
}

impl ScriptTemplate {
    /// Parses an assembly-style string into a template.
    pub fn from_asm_string_impl(text: &str) -> (r: Result<ScriptTemplate, ScriptTemplateErrors>)
        requires
            text.spec_bytes().len() < usize::MAX,
        ensures
            template_result_view(r) == spec_parse_template(text.spec_bytes()),
    {
        ScriptTemplate::from_asm_string(text)
    }

    /// Derives the exact-match template of a concrete script.
    pub fn from_script_impl(script: &Script) -> (r: Result<ScriptTemplate, ScriptTemplateErrors>)
        ensures
            r matches Ok(t) && t@ == template_of_script(script@),
    {
        ScriptTemplate::from_script(script)
    }

    /// Parses an assembly-style string into a template.
    pub fn from_asm_string(text: &str) -> (r: Result<ScriptTemplate, ScriptTemplateErrors>)
        requires
            text.spec_bytes().len() < usize::MAX,
        ensures
            template_result_view(r) == spec_parse_template(text.spec_bytes()),
    {
        ScriptTemplate::from_asm_bytes(text.as_bytes())
    }

    /// Parses the UTF-8 bytes of an assembly-style string into a template.
    pub fn from_asm_bytes(bytes: &[u8]) -> (r: Result<ScriptTemplate, ScriptTemplateErrors>)
        requires
            bytes@.len() < usize::MAX,
        ensures
            template_result_view(r) == spec_parse_template(bytes@),
    {
        let ghost full = bytes@;
        let n = bytes.len();
        let mut tokens: Vec<MatchToken> = Vec::new();
        let mut start: usize = 0;
        proof {
            assert(full.subrange(0, n as int) =~= full);
        }
        while start <= n
            invariant
                n == full.len(),
                bytes@ == full,
                n < usize::MAX,
                start <= n + 1,
                start <= n ==> spec_parse_template(full) == spec_combine(
                    tokens_view(tokens@),
                    spec_parse_template(full.subrange(start as int, n as int)),
                ),
                start == n + 1 ==> spec_parse_template(full) == Result::<
                    Seq<MatchTokenModel>,
                    TemplateErrorModel,
                >::Ok(tokens_view(tokens@)),
            decreases n + 1 - start,
        {
            let mut j: usize = start;
            while j < n && bytes[j] != 32
                invariant
                    start <= j <= n,
                    n == full.len(),
                    bytes@ == full,
                    forall|k: int| start <= k < j ==> full[k] != 32,
                decreases n - j,
            {
                j = j + 1;
            }
            let ghost rem = full.subrange(start as int, n as int);
            proof {
                lemma_first_space(rem);
                let fs = first_space(rem);
                assert forall|k: int| 0 <= k < j - start implies rem[k] != 32 by {
                    assert(rem[k] == full[start + k]);
                }
                if fs < j - start {
                    assert(rem[fs] == full[start + fs]);
                    assert(false);
                }
                if fs > j - start {
                    if (j as int) < n as int {
                        assert(rem[j - start] == full[j as int]);
                        assert(false);
                    } else {
                        assert(fs > rem.len());
                        assert(false);
                    }
                }
                assert(fs == j - start);
            }
            let tokslice = &bytes[start..j];
            proof {
                assert(tokslice@ =~= rem.subrange(0, j - start));
                if j == n {
                    assert(rem.subrange(0, j - start) =~= rem);
                }
            }
            let ghost acc0 = tokens_view(tokens@);
            match parse_token(tokslice) {
                Err(e) => {
                    proof {
                        assert(spec_parse_template(rem) == Result::<
                            Seq<MatchTokenModel>,
                            TemplateErrorModel,
                        >::Err(e@));
                    }
                    return Err(e);
                },
                Ok(t) => {
                    let ghost tv = t@;
                    tokens.push(t);
                    proof {
                        assert(tokens_view(tokens@) =~= acc0 + seq![tv]);
                    }
                    if j == n {
                        proof {
                            assert(spec_parse_template(rem) == Result::<
                                Seq<MatchTokenModel>,
                                TemplateErrorModel,
                            >::Ok(seq![tv]));
                            assert(acc0 + seq![tv] == tokens_view(tokens@));
                        }
                        start = n + 1;
                    } else {
                        proof {
                            let tail = full.subrange(j as int + 1, n as int);
                            assert(rem.subrange(j - start + 1, rem.len() as int) =~= tail);
                            let rest = spec_parse_template(tail);
                            assert(spec_parse_template(rem) == spec_combine(seq![tv], rest));
                            match rest {
                                Ok(ts) => {
                                    assert(acc0 + (seq![tv] + ts) =~= (acc0 + seq![tv]) + ts);
                                },
                                Err(_) => {},
                            }
                            assert(spec_combine(acc0, spec_combine(seq![tv], rest))
                                == spec_combine(acc0 + seq![tv], rest));
                        }
                        start = j + 1;
                    }
                },
            }
        }
        Ok(ScriptTemplate(tokens))
    }
}

} // verus!
