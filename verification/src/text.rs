//! Byte-level text scanning for the template parser: decimal integers with
//! the standard library's grammar, hex decoding through the outside `hex`
//! crate, and first-occurrence searches.

use vstd::prelude::*;

verus! {

/// Why a decimal integer failed to parse.
#[derive(Clone, Copy, Debug, PartialEq, Eq, Structural)]
pub enum IntParseError {
    /// The string was empty.
    Empty,
    /// A character was not an ASCII decimal digit.
    InvalidDigit,
    /// The value does not fit the target type.
    Overflow,
}

/// Why a hex string failed to decode.
#[derive(Clone, Copy, Debug, PartialEq, Eq, Structural)]
pub enum HexError {
    /// The byte at the given index is not an ASCII hex digit.
    InvalidHexCharacter(u8, usize),
    /// The string holds an odd number of digits.
    OddLength,
    /// The string's length did not fit a fixed-size target.
    InvalidStringLength,
}

pub open spec fn is_dec_digit(b: u8) -> bool {
    48 <= b && b <= 57
}

/// Left-to-right accumulation of decimal digits, reporting the first
/// non-digit or the first step that exceeds `max` — the order in which the
/// standard library's integer parser reports its errors.
pub open spec fn uint_scan(body: Seq<u8>, acc: nat, max: nat) -> Result<nat, IntParseError>
    decreases body.len(),
{
    if body.len() == 0 {
        Ok(acc)
    } else if !is_dec_digit(body[0]) {
        Err(IntParseError::InvalidDigit)
    } else if acc * 10 + (body[0] - 48) > max {
        Err(IntParseError::Overflow)
    } else {
        uint_scan(body.drop_first(), (acc * 10 + (body[0] - 48)) as nat, max)
    }
}

/// The standard library's unsigned-integer grammar: an optional leading
/// `+`, then at least one decimal digit, with the value at most `max`.
pub open spec fn uint_parse(s: Seq<u8>, max: nat) -> Result<nat, IntParseError> {
    if s.len() == 0 {
        Err(IntParseError::Empty)
    } else {
        let body = if s[0] == 43 {
            s.drop_first()
        } else {
            s
        };
        if body.len() == 0 {
            Err(IntParseError::InvalidDigit)
        } else {
            uint_scan(body, 0, max)
        }
    }
}

pub fn parse_uint(tok: &[u8], max: u64) -> (r: Result<u64, IntParseError>)
    ensures
        uint_parse(tok@, max as nat) matches Ok(v) ==> (r matches Ok(u) && u as nat == v),
        uint_parse(tok@, max as nat) matches Err(e) ==> r == Result::<u64, IntParseError>::Err(e),
        r matches Ok(u) ==> u <= max,
{
    let n = tok.len();
    if n == 0 {
        return Err(IntParseError::Empty);
    }
    let start: usize = if tok[0] == 43 {
        1
    } else {
        0
    };
    if n == start {
        return Err(IntParseError::InvalidDigit);
    }
    let ghost body = tok@.subrange(start as int, n as int);
    proof {
        if tok@[0] == 43 {
            assert(body =~= tok@.drop_first());
        } else {
            assert(body =~= tok@);
        }
    }
    let mut acc: u64 = 0;
    let mut i: usize = start;
    while i < n
        invariant
            start <= i <= n,
            n == tok@.len(),
            acc <= max,
            body == tok@.subrange(start as int, n as int),
            uint_parse(tok@, max as nat) == uint_scan(body, 0, max as nat),
            uint_scan(body, 0, max as nat) == uint_scan(
                tok@.subrange(i as int, n as int),
                acc as nat,
                max as nat,
            ),
        decreases n - i,
    {
        let ghost rem = tok@.subrange(i as int, n as int);
        proof {
            assert(rem[0] == tok@[i as int]);
            assert(rem.drop_first() =~= tok@.subrange(i as int + 1, n as int));
        }
        let b = tok[i];
        if !(48 <= b && b <= 57) {
            proof {
                assert(uint_scan(rem, acc as nat, max as nat) == Result::<
                    nat,
                    IntParseError,
                >::Err(IntParseError::InvalidDigit));
                assert(uint_parse(tok@, max as nat) == uint_scan(body, 0, max as nat));
            }
            return Err(IntParseError::InvalidDigit);
        }
        let d: u64 = (b - 48) as u64;
        let q = max / 10;
        let m = max % 10;
        if acc > q || (acc == q && d > m) {
            proof {
                assert(acc as nat * 10 + d as nat > max as nat) by (nonlinear_arith)
                    requires
                        acc as nat > max as nat / 10 || (acc as nat == max as nat / 10
                            && d as nat > max as nat % 10),
                        d as nat <= 9,
                ;
            }
            proof {
                assert(uint_scan(rem, acc as nat, max as nat) == Result::<
                    nat,
                    IntParseError,
                >::Err(IntParseError::Overflow));
                assert(uint_parse(tok@, max as nat) == uint_scan(body, 0, max as nat));
            }
            return Err(IntParseError::Overflow);
        }
        proof {
            assert(acc as nat * 10 + d as nat <= max as nat) by (nonlinear_arith)
                requires
                    acc as nat <= max as nat / 10,
                    acc as nat == max as nat / 10 ==> d as nat <= max as nat % 10,
                    d as nat <= 9,
            ;
        }
        acc = acc * 10 + d;
        i = i + 1;
    }
    proof {
        assert(tok@.subrange(n as int, n as int) =~= Seq::<u8>::empty());
    }
    Ok(acc)
}

pub open spec fn is_hex_digit(b: u8) -> bool {
    ||| 48 <= b && b <= 57
    ||| 65 <= b && b <= 70
    ||| 97 <= b && b <= 102
}

/// The value of one hex digit.
pub open spec fn hex_val(b: u8) -> u8 {
    if 48 <= b && b <= 57 {
        (b - 48) as u8
    } else if 65 <= b && b <= 70 {
        (b - 55) as u8
    } else {
        (b - 87) as u8
    }
}

pub open spec fn all_hex(s: Seq<u8>) -> bool {
    forall|i: int| 0 <= i < s.len() ==> is_hex_digit(#[trigger] s[i])
}

/// The bytes an even-length hex string decodes to, two digits each.
pub open spec fn hex_decoded(s: Seq<u8>) -> Seq<u8> {
    Seq::new(
        (s.len() / 2) as nat,
        |i: int| ((hex_val(s[2 * i]) as int) * 16 + hex_val(s[2 * i + 1]) as int) as u8,
    )
}

/// The index of the first byte that is not a hex digit (the length if all
/// are).
pub open spec fn first_non_hex(s: Seq<u8>) -> int
    decreases s.len(),
{
    if s.len() == 0 {
        0
    } else if !is_hex_digit(s[0]) {
        0
    } else {
        1 + first_non_hex(s.drop_first())
    }
}

pub proof fn lemma_first_non_hex(s: Seq<u8>)
    ensures
        0 <= first_non_hex(s) <= s.len(),
        forall|k: int| 0 <= k < first_non_hex(s) ==> is_hex_digit(#[trigger] s[k]),
        first_non_hex(s) < s.len() ==> !is_hex_digit(s[first_non_hex(s)]),
        all_hex(s) <==> first_non_hex(s) == s.len(),
    decreases s.len(),
{
    if s.len() == 0 {
    } else if !is_hex_digit(s[0]) {
    } else {
        lemma_first_non_hex(s.drop_first());
        assert forall|k: int| 0 <= k < first_non_hex(s) implies is_hex_digit(
            #[trigger] s[k],
        ) by {
            if k > 0 {
                assert(s[k] == s.drop_first()[k - 1]);
            }
        }
        if first_non_hex(s) < s.len() {
            assert(s[first_non_hex(s)] == s.drop_first()[first_non_hex(s.drop_first())]);
        }
        if all_hex(s) {
            assert(all_hex(s.drop_first()));
        }
        if first_non_hex(s) == s.len() {
            assert forall|i: int| 0 <= i < s.len() implies is_hex_digit(#[trigger] s[i]) by {}
        }
    }
}

/// Relies on `hex::decode`: it rejects an odd-length input as `OddLength`
/// before looking at any digit, otherwise decodes digit pairs in order,
/// reporting the first byte that is not a hex digit with its index; both
/// upper and lower case digits are accepted.
#[verifier::external_body]
pub fn hex_decode(data: &[u8]) -> (r: Result<Vec<u8>, HexError>)
    ensures
        r is Ok <==> (data@.len() % 2 == 0 && all_hex(data@)),
        r matches Ok(v) ==> v@ == hex_decoded(data@),
        r matches Err(e) ==> e == (if data@.len() % 2 != 0 {
            HexError::OddLength
        } else {
            HexError::InvalidHexCharacter(
                data@[first_non_hex(data@)],
                first_non_hex(data@) as usize,
            )
        }),
{
    match hex::decode(data) {
        Ok(v) => Ok(v),
        Err(hex::FromHexError::InvalidHexCharacter { c, index }) => Err(
            HexError::InvalidHexCharacter(c as u8, index),
        ),
        Err(hex::FromHexError::OddLength) => Err(HexError::OddLength),
        Err(hex::FromHexError::InvalidStringLength) => Err(HexError::InvalidStringLength),
    }
}

/// The index of the first space byte (the length if there is none).
pub open spec fn first_space(s: Seq<u8>) -> int
    decreases s.len(),
{
    if s.len() == 0 {
        0
    } else if s[0] == 32 {
        0
    } else {
        1 + first_space(s.drop_first())
    }
}

pub proof fn lemma_first_space(s: Seq<u8>)
    ensures
        0 <= first_space(s) <= s.len(),
        forall|k: int| 0 <= k < first_space(s) ==> s[k] != 32,
        first_space(s) < s.len() ==> s[first_space(s)] == 32,
    decreases s.len(),
{
    if s.len() == 0 {
    } else if s[0] == 32 {
    } else {
        lemma_first_space(s.drop_first());
        assert forall|k: int| 0 <= k < first_space(s) implies s[k] != 32 by {
            if k > 0 {
                assert(s[k] == s.drop_first()[k - 1]);
            }
        }
        if first_space(s) < s.len() {
            assert(s[first_space(s)] == s.drop_first()[first_space(s.drop_first())]);
        }
    }
}

/// The index of the first occurrence of `pat` in `s`, or -1.
pub open spec fn find_sub(s: Seq<u8>, pat: Seq<u8>) -> int
    decreases s.len(),
{
    if pat.len() == 0 {
        0
    } else if s.len() < pat.len() {
        -1
    } else if s.subrange(0, pat.len() as int) == pat {
        0
    } else {
        let r = find_sub(s.drop_first(), pat);
        if r == -1 {
            -1
        } else {
            1 + r
        }
    }
}

pub proof fn lemma_find_sub(s: Seq<u8>, pat: Seq<u8>)
    ensures
        find_sub(s, pat) == -1 || 0 <= find_sub(s, pat),
        find_sub(s, pat) == -1 ==> forall|i: int|
            0 <= i && i + pat.len() <= s.len() ==> #[trigger] s.subrange(i, i + pat.len() as int)
                != pat,
        find_sub(s, pat) >= 0 ==> find_sub(s, pat) + pat.len() <= s.len() && s.subrange(
            find_sub(s, pat),
            find_sub(s, pat) + pat.len() as int,
        ) == pat && forall|j: int|
            0 <= j < find_sub(s, pat) ==> #[trigger] s.subrange(j, j + pat.len() as int) != pat,
    decreases s.len(),
{
    if pat.len() == 0 {
    } else if s.len() < pat.len() {
    } else if s.subrange(0, pat.len() as int) == pat {
    } else {
        lemma_find_sub(s.drop_first(), pat);
        let t = s.drop_first();
        assert forall|i: int| 1 <= i && i + pat.len() <= s.len() implies #[trigger] s.subrange(
            i,
            i + pat.len() as int,
        ) == t.subrange(i - 1, i - 1 + pat.len() as int) by {
            assert(s.subrange(i, i + pat.len() as int) =~= t.subrange(
                i - 1,
                i - 1 + pat.len() as int,
            ));
        }
    }
}

pub fn has_pat_at(s: &[u8], i: usize, pat: &[u8]) -> (r: bool)
    requires
        i + pat@.len() <= s@.len(),
    ensures
        r == (s@.subrange(i as int, i as int + pat@.len() as int) == pat@),
{
    let m = pat.len();
    let total = s.len();
    let mut k: usize = 0;
    while k < m
        invariant
            total == s@.len(),
            i + m <= total,
            m == pat@.len(),
            k <= m,
            forall|j: int| 0 <= j < k ==> s@[i + j] == pat@[j],
        decreases m - k,
    {
        if s[i + k] != pat[k] {
            proof {
                assert(s@.subrange(i as int, i as int + m as int)[k as int] != pat@[k as int]);
            }
            return false;
        }
        k = k + 1;
    }
    proof {
        assert(s@.subrange(i as int, i as int + m as int) =~= pat@);
    }
    true
}

pub fn find_sub_exec(s: &[u8], pat: &[u8]) -> (r: Option<usize>)
    ensures
        r matches Some(i) ==> i as int == find_sub(s@, pat@),
        r is None ==> find_sub(s@, pat@) == -1,
{
    let n = s.len();
    let m = pat.len();
    if m == 0 {
        return Some(0);
    }
    if n < m {
        return None;
    }
    let mut i: usize = 0;
    while i <= n - m
        invariant
            m >= 1,
            m <= n,
            n == s@.len(),
            m == pat@.len(),
            i <= n - m + 1,
            forall|j: int| 0 <= j < i ==> #[trigger] s@.subrange(j, j + m as int) != pat@,
        decreases n - i,
    {
        if has_pat_at(s, i, pat) {
            proof {
                lemma_find_sub(s@, pat@);
                let fs = find_sub(s@, pat@);
                if fs == -1 {
                    assert(s@.subrange(i as int, i as int + m as int) != pat@);
                    assert(false);
                }
                if fs < i as int {
                    assert(s@.subrange(fs, fs + m as int) != pat@);
                    assert(false);
                }
                if fs > i as int {
                    assert(s@.subrange(i as int, i as int + m as int) != pat@);
                    assert(false);
                }
            }
            return Some(i);
        }
        i = i + 1;
    }
    proof {
        lemma_find_sub(s@, pat@);
        let fs = find_sub(s@, pat@);
        if fs >= 0 {
            assert(s@.subrange(fs, fs + m as int) == pat@);
            assert(false);
        }
    }
    None
}

} // verus!
