//! The fixed-length fingerprint type: a digest's bytes, rendered to and
//! parsed from lowercase hexadecimal text.

use vstd::prelude::*;
use vstd::string::StringExecFns;
use vstd::string::StringSliceAdditionalSpecFns;
use vstd::utf8::{encode_utf8, is_ascii_chars, is_ascii_chars_encode_utf8};

verus! {

/// Why a hexadecimal string was rejected.
#[derive(Debug, Clone, Copy, PartialEq, Eq, Structural)]
pub enum HexError {
    /// The input is not exactly two characters per fingerprint byte.
    InvalidLength,
    /// A character outside `0-9a-f` appears in the input.
    InvalidDigit,
}

/// True of the byte value of a lowercase hexadecimal digit character.
pub open spec fn is_hex_digit(b: u8) -> bool {
    (48 <= b && b <= 57) || (97 <= b && b <= 102)
}

/// The numeric value of a lowercase hexadecimal digit byte.
pub open spec fn hex_val(b: u8) -> u8 {
    if b <= 57 {
        (b - 48) as u8
    } else {
        (b - 87) as u8
    }
}

/// The lowercase hexadecimal digit character for a value below sixteen.
pub open spec fn hex_char(n: u8) -> char {
    if n == 0 {
        '0'
    } else if n == 1 {
        '1'
    } else if n == 2 {
        '2'
    } else if n == 3 {
        '3'
    } else if n == 4 {
        '4'
    } else if n == 5 {
        '5'
    } else if n == 6 {
        '6'
    } else if n == 7 {
        '7'
    } else if n == 8 {
        '8'
    } else if n == 9 {
        '9'
    } else if n == 10 {
        'a'
    } else if n == 11 {
        'b'
    } else if n == 12 {
        'c'
    } else if n == 13 {
        'd'
    } else if n == 14 {
        'e'
    } else {
        'f'
    }
}

/// The hexadecimal rendering of a byte sequence: two lowercase digits per
/// byte, most-significant nibble first.
pub open spec fn hex_chars_of(bs: Seq<u8>) -> Seq<char> {
    Seq::new(
        2 * bs.len(),
        |i: int|
            if i % 2 == 0 {
                hex_char((bs[i / 2] / 16) as u8)
            } else {
                hex_char((bs[i / 2] % 16) as u8)
            },
    )
}

/// The bytes read from a sequence of hexadecimal digit bytes, two digits
/// per byte, most-significant nibble first.
pub open spec fn hex_decode(hb: Seq<u8>) -> Seq<u8> {
    Seq::new(hb.len() / 2, |i: int| (16 * hex_val(hb[2 * i]) + hex_val(hb[2 * i + 1])) as u8)
}

/// A digest of exactly `LEN_BYTES` bytes.
#[derive(Debug)]
pub struct Fingerprint<const LEN_BYTES: usize> {
    bytes: Vec<u8>,
}

impl<const LEN_BYTES: usize> View for Fingerprint<LEN_BYTES> {
    type V = Seq<u8>;

    closed spec fn view(&self) -> Seq<u8> {
        self.bytes@
    }
}

impl<const LEN_BYTES: usize> Fingerprint<LEN_BYTES> {
    /// A fingerprint holds exactly its declared number of bytes.
    pub open spec fn wf(&self) -> bool {
        self@.len() == LEN_BYTES
    }

    /// Wraps a complete digest dump of exactly `LEN_BYTES` bytes.
    pub fn new(bytes: Vec<u8>) -> (r: Self)
        requires
            bytes@.len() == LEN_BYTES,
        ensures
            r.wf(),
            r@ == bytes@,
    {
        Fingerprint { bytes }
    }

    /// Renders the fingerprint as lowercase hexadecimal text, two digits
    /// per byte, most-significant nibble first.
    pub fn to_hex(&self) -> (r: String)
        ensures
            r@ == hex_chars_of(self@),
    {
        let mut r = String::new();
        let n = self.bytes.len();
        let mut i: usize = 0;
        while i < n
            invariant
                n == self@.len(),
                i <= n,
                r@ == hex_chars_of(self@).take(2 * i as int),
            decreases n - i,
        {
            let b = self.bytes[i];
            r.append(hex_digit_str(b / 16));
            r.append(hex_digit_str(b % 16));
            assert(r@ =~= hex_chars_of(self@).take(2 * (i + 1) as int));
            i += 1;
        }
        assert(r@ =~= hex_chars_of(self@));
        r
    }

    /// Parses lowercase hexadecimal text: accepts exactly two digits per
    /// fingerprint byte and reports why anything else is rejected.
    pub fn from_hex(s: &str) -> (r: Result<Self, HexError>)
        ensures
            s.spec_bytes().len() != 2 * LEN_BYTES ==> r == Err::<Self, HexError>(
                HexError::InvalidLength,
            ),
            s.spec_bytes().len() == 2 * LEN_BYTES && (exists|i: int|
                0 <= i < s.spec_bytes().len() && !is_hex_digit(s.spec_bytes()[i])) ==> r == Err::<
                Self,
                HexError,
            >(HexError::InvalidDigit),
            s.spec_bytes().len() == 2 * LEN_BYTES && (forall|i: int|
                0 <= i < s.spec_bytes().len() ==> is_hex_digit(s.spec_bytes()[i])) ==> (r matches Ok(
                f,
            ) && f.wf() && f@ == hex_decode(s.spec_bytes())),
    {
        let bytes = s.as_bytes();
        let n = bytes.len();
        if !(n % 2 == 0 && n / 2 == LEN_BYTES) {
            proof {
                vstd::arithmetic::div_mod::lemma_fundamental_div_mod(n as int, 2);
            }
            return Err(HexError::InvalidLength);
        }
        proof {
            vstd::arithmetic::div_mod::lemma_fundamental_div_mod(n as int, 2);
        }
        assert(n == 2 * LEN_BYTES);
        let mut i: usize = 0;
        while i < n
            invariant
                i <= n,
                n == bytes@.len(),
                n == 2 * LEN_BYTES,
                bytes@ == s.spec_bytes(),
                forall|j: int| 0 <= j < i ==> is_hex_digit(bytes@[j]),
            decreases n - i,
        {
            let b = bytes[i];
            if !((48 <= b && b <= 57) || (97 <= b && b <= 102)) {
                assert(!is_hex_digit(bytes@[i as int]));
                return Err(HexError::InvalidDigit);
            }
            i += 1;
        }
        let mut out: Vec<u8> = Vec::new();
        let mut k: usize = 0;
        while k < LEN_BYTES
            invariant
                k <= LEN_BYTES,
                n == bytes@.len(),
                n == 2 * LEN_BYTES,
                bytes@ == s.spec_bytes(),
                forall|j: int| 0 <= j < n ==> is_hex_digit(bytes@[j]),
                out@.len() == k,
                forall|j: int| 0 <= j < k ==> out@[j] == hex_decode(bytes@)[j],
            decreases LEN_BYTES - k,
        {
            let hi = bytes[2 * k];
            let lo = bytes[2 * k + 1];
            let hv = if hi <= 57 {
                hi - 48
            } else {
                hi - 87
            };
            let lv = if lo <= 57 {
                lo - 48
            } else {
                lo - 87
            };
            out.push(16 * hv + lv);
            k += 1;
        }
        assert(out@ =~= hex_decode(bytes@));
        Ok(Fingerprint::new(out))
    }
}

/// The one-character string of a lowercase hexadecimal digit.
fn hex_digit_str(n: u8) -> (r: &'static str)
    requires
        n < 16,
    ensures
        r@ == seq![hex_char(n)],
{
    let r = if n == 0 {
        "0"
    } else if n == 1 {
        "1"
    } else if n == 2 {
        "2"
    } else if n == 3 {
        "3"
    } else if n == 4 {
        "4"
    } else if n == 5 {
        "5"
    } else if n == 6 {
        "6"
    } else if n == 7 {
        "7"
    } else if n == 8 {
        "8"
    } else if n == 9 {
        "9"
    } else if n == 10 {
        "a"
    } else if n == 11 {
        "b"
    } else if n == 12 {
        "c"
    } else if n == 13 {
        "d"
    } else if n == 14 {
        "e"
    } else {
        "f"
    };
    proof {
        reveal_strlit("0");
        reveal_strlit("1");
        reveal_strlit("2");
        reveal_strlit("3");
        reveal_strlit("4");
        reveal_strlit("5");
        reveal_strlit("6");
        reveal_strlit("7");
        reveal_strlit("8");
        reveal_strlit("9");
        reveal_strlit("a");
        reveal_strlit("b");
        reveal_strlit("c");
        reveal_strlit("d");
        reveal_strlit("e");
        reveal_strlit("f");
    }
    assert(r@ =~= seq![hex_char(n)]);
    r
}

impl<const LEN_BYTES: usize> Default for Fingerprint<LEN_BYTES> {
    /// The all-zero fingerprint.
    fn default() -> (r: Self)
        ensures
            r.wf(),
            r@ == Seq::new(LEN_BYTES as nat, |i: int| 0u8),
    {
        let mut bytes: Vec<u8> = Vec::new();
        let mut i: usize = 0;
        while i < LEN_BYTES
            invariant
                i <= LEN_BYTES,
                bytes@ == Seq::new(i as nat, |j: int| 0u8),
            decreases LEN_BYTES - i,
        {
            bytes.push(0);
            assert(bytes@ =~= Seq::new((i + 1) as nat, |j: int| 0u8));
            i += 1;
        }
        Fingerprint { bytes }
    }
}

impl<const LEN_BYTES: usize> PartialEq for Fingerprint<LEN_BYTES> {
    /// Byte-wise equality of two fingerprints.
    fn eq(&self, other: &Self) -> (r: bool) {
        if self.bytes.len() != other.bytes.len() {
            return false;
        }
        let n = self.bytes.len();
        let mut i: usize = 0;
        while i < n
            invariant
                i <= n,
                n == self.bytes@.len(),
                n == other.bytes@.len(),
                forall|j: int| 0 <= j < i ==> self.bytes@[j] == other.bytes@[j],
            decreases n - i,
        {
            if self.bytes[i] != other.bytes[i] {
                return false;
            }
            i += 1;
        }
        assert(self.bytes@ =~= other.bytes@);
        true
    }
}

impl<const LEN_BYTES: usize> vstd::std_specs::cmp::PartialEqSpecImpl for Fingerprint<LEN_BYTES> {
    open spec fn obeys_eq_spec() -> bool {
        true
    }

    open spec fn eq_spec(&self, other: &Self) -> bool {
        self@ == other@
    }
}

impl<const LEN_BYTES: usize> Eq for Fingerprint<LEN_BYTES> {

}

/// A digit below sixteen renders to an ASCII character whose byte value is
/// a lowercase hexadecimal digit and decodes back to the digit.
proof fn lemma_hex_char_val(n: u8)
    requires
        n < 16,
    ensures
        '\0' <= hex_char(n) <= '\u{7f}',
        is_hex_digit(hex_char(n) as u8),
        hex_val(hex_char(n) as u8) == n,
{
}

/// Law: the hexadecimal rendering of any byte sequence is a valid input to
/// parsing — two characters per byte, all of them lowercase hexadecimal
/// digits — and parsing it returns the original bytes. Together with the
/// contracts of `to_hex` and `from_hex` this says that
/// `from_hex(to_hex(f))` recovers `f` for every fingerprint `f`.
pub proof fn lemma_hex_round_trip(bs: Seq<u8>)
    ensures
        is_ascii_chars(hex_chars_of(bs)),
        encode_utf8(hex_chars_of(bs)).len() == 2 * bs.len(),
        forall|i: int|
            0 <= i < 2 * bs.len() ==> is_hex_digit(#[trigger] encode_utf8(hex_chars_of(bs))[i]),
        hex_decode(encode_utf8(hex_chars_of(bs))) == bs,
{
    let cs = hex_chars_of(bs);
    assert forall|i: int| 0 <= i < cs.len() implies '\0' <= #[trigger] cs[i] <= '\u{7f}' by {
        if i % 2 == 0 {
            lemma_hex_char_val((bs[i / 2] / 16) as u8);
        } else {
            lemma_hex_char_val((bs[i / 2] % 16) as u8);
        }
    }
    assert(is_ascii_chars(cs));
    is_ascii_chars_encode_utf8(cs);
    let hb = encode_utf8(cs);
    assert forall|i: int| 0 <= i < 2 * bs.len() implies is_hex_digit(#[trigger] hb[i]) by {
        if i % 2 == 0 {
            lemma_hex_char_val((bs[i / 2] / 16) as u8);
        } else {
            lemma_hex_char_val((bs[i / 2] % 16) as u8);
        }
        assert(hb[i] == cs[i] as u8);
    }
    assert forall|i: int| 0 <= i < bs.len() implies hex_decode(hb)[i] == bs[i] by {
        assert(hb[2 * i] == cs[2 * i] as u8);
        assert(hb[2 * i + 1] == cs[2 * i + 1] as u8);
        assert(cs[2 * i] == hex_char((bs[i] / 16) as u8));
        assert(cs[2 * i + 1] == hex_char((bs[i] % 16) as u8));
        lemma_hex_char_val((bs[i] / 16) as u8);
        lemma_hex_char_val((bs[i] % 16) as u8);
        vstd::arithmetic::div_mod::lemma_fundamental_div_mod(bs[i] as int, 16);
    }
    assert(hex_decode(hb) =~= bs);
}

} // verus!
