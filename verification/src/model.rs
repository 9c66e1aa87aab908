//! The mathematical model of versionable values and of their fixed encodings.

use vstd::prelude::*;
use vstd::utf8::*;

verus! {

/// What a versionable value is, apart from how it is held in memory.
pub enum Model {
    /// A truth value.
    Bool(bool),
    /// An integer of any width.
    Int(int),
    /// A character.
    Char(char),
    /// A text.
    Text(Seq<char>),
    /// A sequence of values of one type.
    List(Seq<Model>),
    /// The members of an aggregate, in the order of their declaration.
    Record(Seq<Model>),
    /// A fixed header and the entries that follow it.
    Fam(Box<Model>, Seq<Model>),
    /// A variant of a variant type, by its tag, with what it carries.
    Variant(int, Seq<Model>),
}

/// 256 to the power of `n`: the number of values that `n` bytes can hold.
pub open spec fn pow256(n: nat) -> nat
    decreases n,
{
    if n == 0 {
        1
    } else {
        256 * pow256((n - 1) as nat)
    }
}

/// The `width` low bytes of `value`, the lowest first.
pub open spec fn le_bytes(value: nat, width: nat) -> Seq<u8>
    decreases width,
{
    if width == 0 {
        Seq::empty()
    } else {
        seq![(value % 256) as u8] + le_bytes(value / 256, (width - 1) as nat)
    }
}

/// The number that `bytes` hold, the lowest byte first.
pub open spec fn le_value(bytes: Seq<u8>) -> nat
    decreases bytes.len(),
{
    if bytes.len() == 0 {
        0
    } else {
        bytes[0] as nat + 256 * le_value(bytes.drop_first())
    }
}

/// The number below `256^width` that stands for a signed number in two's complement.
pub open spec fn unsigned_of(value: int, width: nat) -> nat {
    if value < 0 {
        (value + pow256(width)) as nat
    } else {
        value as nat
    }
}

/// The signed number that a number below `256^width` stands for in two's complement.
pub open spec fn signed_of(value: nat, width: nat) -> int {
    if 2 * value >= pow256(width) {
        value - pow256(width)
    } else {
        value as int
    }
}

pub proof fn lemma_pow256_values()
    ensures
        pow256(0) == 1,
        pow256(1) == 0x100,
        pow256(2) == 0x1_0000,
        pow256(4) == 0x1_0000_0000,
        pow256(8) == 0x1_0000_0000_0000_0000,
{
    assert(pow256(1) == 256 * pow256(0));
    assert(pow256(2) == 256 * pow256(1));
    assert(pow256(3) == 256 * pow256(2));
    assert(pow256(4) == 256 * pow256(3));
    assert(pow256(5) == 256 * pow256(4));
    assert(pow256(6) == 256 * pow256(5));
    assert(pow256(7) == 256 * pow256(6));
    assert(pow256(8) == 256 * pow256(7));
}

pub proof fn lemma_le_bytes_len(value: nat, width: nat)
    ensures
        le_bytes(value, width).len() == width,
    decreases width,
{
    if width > 0 {
        lemma_le_bytes_len(value / 256, (width - 1) as nat);
    }
}

/// A number that `width` bytes can hold is what its `width` low bytes hold.
pub proof fn lemma_le_value_of_bytes(value: nat, width: nat)
    requires
        value < pow256(width),
    ensures
        le_value(le_bytes(value, width)) == value,
    decreases width,
{
    if width > 0 {
        let p = pow256((width - 1) as nat);
        assert(value / 256 < p) by (nonlinear_arith)
            requires
                value < 256 * p,
        ;
        lemma_le_value_of_bytes(value / 256, (width - 1) as nat);
        let bytes = le_bytes(value, width);
        assert(bytes.drop_first() =~= le_bytes(value / 256, (width - 1) as nat));
        assert(bytes[0] == (value % 256) as u8);
        assert(value == value % 256 + 256 * (value / 256)) by (nonlinear_arith);
    }
}

/// Two's complement loses nothing of a number that fits the width.
pub proof fn lemma_signed_of_unsigned(value: int, width: nat)
    requires
        -(pow256(width) as int) <= 2 * value < pow256(width),
    ensures
        unsigned_of(value, width) < pow256(width),
        signed_of(unsigned_of(value, width), width) == value,
{
}

/// The UTF-8 encoding of one character stands at the front of whatever follows it.
pub proof fn lemma_char_then_rest(c: char, rest: Seq<u8>)
    ensures
        valid_first_scalar(encode_utf8(seq![c]) + rest),
        decode_first_scalar(encode_utf8(seq![c]) + rest) as char == c,
        length_of_first_scalar(encode_utf8(seq![c]) + rest) == encode_utf8(seq![c]).len(),
        1 <= encode_utf8(seq![c]).len() <= 4,
{
    let one = seq![c];
    encode_utf8_first_scalar(one);
    assert(one.drop_first() =~= Seq::<char>::empty());
    assert(encode_utf8(one.drop_first()) =~= Seq::<u8>::empty());
    let enc = encode_utf8(one);
    assert(enc =~= encode_scalar(c as u32));
    let all = enc + rest;
    assert(enc.len() >= 1 ==> all[0] == enc[0]);
    assert(enc.len() >= 2 ==> all[1] == enc[1]);
    assert(enc.len() >= 3 ==> all[2] == enc[2]);
    assert(enc.len() >= 4 ==> all[3] == enc[3]);
    char_u32_cast(c, decode_first_scalar(enc));
}

} // verus!
