//! L2 output roots: the ABI encoding of an L2 output and its Keccak-256 hash, and the
//! address of the L2-to-L1 message passer whose storage root an output commits to.

use alloy_sol_types::SolValue;
use vstd::arithmetic::power::pow;
use vstd::prelude::*;

verus! {

/// An L2 output: the state root, the storage root of the message passer and the hash of
/// an L2 block, under a leading version word `zero`.
#[derive(Clone, Copy, Debug, PartialEq, Eq)]
pub struct L2Output {
    pub zero: u64,
    pub l2_state_root: [u8; 32],
    pub l2_storage_hash: [u8; 32],
    pub l2_claim_hash: [u8; 32],
}

/// The 32-byte ABI word of an unsigned integer: big-endian, padded with zeros on the left.
pub open spec fn uint_word(x: u64) -> Seq<u8> {
    Seq::new(32, |i: int| ((x as int / pow(256, (31 - i) as nat)) % 256) as u8)
}

/// The ABI encoding of an L2 output: its four fields, each one 32-byte word.
pub open spec fn l2_output_encoding(output: L2Output) -> Seq<u8> {
    uint_word(output.zero) + output.l2_state_root@ + output.l2_storage_hash@
        + output.l2_claim_hash@
}

/// The Keccak-256 hash of `data`.
pub uninterp spec fn keccak256_of(data: Seq<u8>) -> Seq<u8>;

/// Calls `alloy_primitives::keccak256`; the 32-byte hash it returns is taken to be
/// `keccak256_of` of the input, the same bytes giving the same hash.
#[verifier::external_body]
fn keccak256(data: &[u8]) -> (hash: [u8; 32])
    ensures
        hash@ == keccak256_of(data@),
{
    alloy_primitives::keccak256(data).0
}

/// Calls `SolValue::abi_encode` of `alloy_sol_types` on the tuple of the output's fields
/// (`uint64`, `bytes32`, `bytes32`, `bytes32`); for such a tuple of static types the
/// encoding is the four 32-byte words one after the other, as the claim states.
#[verifier::external_body]
fn abi_encode_l2_output(output: &L2Output) -> (encoded: Vec<u8>)
    ensures
        encoded@ == l2_output_encoding(*output),
{
    (output.zero, output.l2_state_root, output.l2_storage_hash, output.l2_claim_hash).abi_encode()
}

impl L2Output {
    /// The output with version word 0 for the given state root, message-passer storage
    /// root and block hash.
    pub fn new(l2_state_root: [u8; 32], l2_storage_hash: [u8; 32], l2_claim_hash: [u8; 32]) -> (output: L2Output)
        ensures
            output == (L2Output { zero: 0, l2_state_root, l2_storage_hash, l2_claim_hash }),
    {
        L2Output { zero: 0, l2_state_root, l2_storage_hash, l2_claim_hash }
    }

    /// The output root: the Keccak-256 hash of the output's ABI encoding.
    pub fn root(&self) -> (root: [u8; 32])
        ensures
            root@ == keccak256_of(l2_output_encoding(*self)),
    {
        let encoded = abi_encode_l2_output(self);
        keccak256(encoded.as_slice())
    }
}

/// The encoding of an output is four 32-byte words: the version word, then the state root,
/// the message-passer storage root and the block hash; the version word of an output with
/// `zero == 0` is all zero bytes.
pub proof fn lemma_l2_output_encoding_layout(output: L2Output)
    ensures
        l2_output_encoding(output).len() == 128,
        l2_output_encoding(output).subrange(0, 32) == uint_word(output.zero),
        l2_output_encoding(output).subrange(32, 64) == output.l2_state_root@,
        l2_output_encoding(output).subrange(64, 96) == output.l2_storage_hash@,
        l2_output_encoding(output).subrange(96, 128) == output.l2_claim_hash@,
        output.zero == 0 ==> forall|i: int| 0 <= i < 32 ==> #[trigger] l2_output_encoding(output)[i] == 0,
{
    let e = l2_output_encoding(output);
    assert(e.subrange(0, 32) =~= uint_word(output.zero));
    assert(e.subrange(32, 64) =~= output.l2_state_root@);
    assert(e.subrange(64, 96) =~= output.l2_storage_hash@);
    assert(e.subrange(96, 128) =~= output.l2_claim_hash@);
    if output.zero == 0 {
        assert forall|i: int| 0 <= i < 32 implies #[trigger] e[i] == 0 by {
            let p = pow(256, (31 - i) as nat);
            vstd::arithmetic::power::lemma_pow_positive(256, (31 - i) as nat);
            assert(0int / p == 0) by (nonlinear_arith)
                requires
                    p > 0,
            ;
            assert(e[i] == uint_word(0)[i]);
        }
    }
}

/// Two outputs with the same version word and the same encoding are the same output, so
/// an output root commits to one state root, storage root and block hash.
pub proof fn lemma_l2_output_encoding_injective(a: L2Output, b: L2Output)
    requires
        a.zero == b.zero,
        l2_output_encoding(a) == l2_output_encoding(b),
    ensures
        a == b,
{
    lemma_l2_output_encoding_layout(a);
    lemma_l2_output_encoding_layout(b);
    assert(a.l2_state_root@ == b.l2_state_root@);
    assert(a.l2_storage_hash@ == b.l2_storage_hash@);
    assert(a.l2_claim_hash@ == b.l2_claim_hash@);
    assert(a.l2_state_root =~= b.l2_state_root);
    assert(a.l2_storage_hash =~= b.l2_storage_hash);
    assert(a.l2_claim_hash =~= b.l2_claim_hash);
}

/// The address of the L2-to-L1 message passer predeploy, as text.
pub const L2_TO_L1_MESSAGE_PASSER: &'static str = "0x4200000000000000000000000000000000000016";

pub open spec fn is_hex_digit(c: char) -> bool {
    ('0' <= c <= '9') || ('a' <= c <= 'f') || ('A' <= c <= 'F')
}

pub open spec fn hex_digit_value(c: char) -> int {
    if '0' <= c <= '9' {
        c as int - '0' as int
    } else if 'a' <= c <= 'f' {
        c as int - 'a' as int + 10
    } else {
        c as int - 'A' as int + 10
    }
}

/// The text after an optional `0x` or `0X` prefix.
pub open spec fn without_hex_prefix(s: Seq<char>) -> Seq<char> {
    if s.len() >= 2 && s[0] == '0' && (s[1] == 'x' || s[1] == 'X') {
        s.subrange(2, s.len() as int)
    } else {
        s
    }
}

/// The 20-byte address written in `s`: after an optional `0x` prefix, exactly 40 hex
/// digits of either case, two per byte, high nibble first.
pub open spec fn parsed_address(s: Seq<char>) -> Option<Seq<u8>> {
    let digits = without_hex_prefix(s);
    if digits.len() == 40 && forall|i: int| 0 <= i < 40 ==> is_hex_digit(#[trigger] digits[i]) {
        Some(
            Seq::new(
                20,
                |i: int|
                    (hex_digit_value(digits[2 * i]) * 16 + hex_digit_value(digits[2 * i + 1])) as u8,
            ),
        )
    } else {
        None
    }
}

/// Calls `<alloy_primitives::Address as FromStr>::from_str`, which decodes the text as
/// hex into 20 bytes (an optional `0x`/`0X` prefix, then 40 hex digits of either case);
/// any other text is an error, given here as `None`.
#[verifier::external_body]
fn parse_address(s: &str) -> (address: Option<[u8; 20]>)
    ensures
        match address {
            Some(a) => parsed_address(s@) == Some(a@),
            None => parsed_address(s@) is None,
        },
{
    <alloy_primitives::Address as std::str::FromStr>::from_str(s).ok().map(|a| a.0 .0)
}

/// The bytes of the message passer's address: `0x42`, eighteen zero bytes, `0x16`.
pub open spec fn message_passer_bytes() -> Seq<u8> {
    Seq::new(20, |i: int| if i == 0 { 0x42u8 } else if i == 19 { 0x16u8 } else { 0u8 })
}

proof fn lemma_message_passer_parses()
    ensures
        parsed_address(L2_TO_L1_MESSAGE_PASSER@) == Some(message_passer_bytes()),
{
    reveal_strlit("0x4200000000000000000000000000000000000016");
    let s = L2_TO_L1_MESSAGE_PASSER@;
    let digits = without_hex_prefix(s);
    let expected = Seq::new(
        40,
        |i: int| if i == 0 { '4' } else if i == 1 { '2' } else if i == 38 { '1' } else if i == 39 { '6' } else { '0' },
    );
    assert(s[0] == '0' && s[1] == 'x');
    assert(digits =~= expected);
    assert forall|i: int| 0 <= i < 40 implies is_hex_digit(#[trigger] digits[i]) by {
        assert(digits[i] == expected[i]);
    }
    let bytes = Seq::new(
        20,
        |i: int| (hex_digit_value(digits[2 * i]) * 16 + hex_digit_value(digits[2 * i + 1])) as u8,
    );
    assert(bytes =~= message_passer_bytes()) by {
        assert forall|i: int| 0 <= i < 20 implies bytes[i] == message_passer_bytes()[i] by {
            assert(digits[2 * i] == expected[2 * i]);
            assert(digits[2 * i + 1] == expected[2 * i + 1]);
        }
    }
}

/// The address of the L2-to-L1 message passer, whose storage root goes into an L2 output.
pub fn message_passer_address() -> (address: [u8; 20])
    ensures
        address@ == message_passer_bytes(),
        parsed_address(L2_TO_L1_MESSAGE_PASSER@) == Some(address@),
{
    proof {
        lemma_message_passer_parses();
    }
    match parse_address(L2_TO_L1_MESSAGE_PASSER) {
        Some(address) => address,
        None => {
            proof {
                assert(false);
            }
            [0u8; 20]
        },
    }
}

} // verus!
