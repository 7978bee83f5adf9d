//! Integers as the machine lays them out in memory.
use vstd::endian::{endianness, Endian};
use vstd::prelude::*;

verus! {

/// The four base-256 digits of `x`, least significant first.
#[verifier::opaque]
pub open spec fn u32_digits(x: u32) -> Seq<u8> {
    seq![
        (x % 0x100) as u8,
        (x / 0x100 % 0x100) as u8,
        (x / 0x1_0000 % 0x100) as u8,
        (x / 0x100_0000) as u8,
    ]
}

/// The eight base-256 digits of `x`, least significant first.
pub open spec fn u64_digits(x: u64) -> Seq<u8> {
    u32_digits((x % 0x1_0000_0000) as u32) + u32_digits((x / 0x1_0000_0000) as u32)
}

/// The integer whose base-256 digits, least significant first, are `digits`.
#[verifier::opaque]
pub open spec fn u32_of_digits(digits: Seq<u8>) -> u32 {
    (digits[0] + 0x100 * digits[1] + 0x1_0000 * digits[2] + 0x100_0000 * digits[3]) as u32
}

/// The integer whose base-256 digits, least significant first, are `digits`.
pub open spec fn u64_of_digits(digits: Seq<u8>) -> u64 {
    (u32_of_digits(digits.take(4)) + 0x1_0000_0000 * u32_of_digits(digits.skip(4))) as u64
}

/// `digits`, given least significant first, in the order in which this machine stores them.
pub open spec fn native_order(digits: Seq<u8>) -> Seq<u8> {
    match endianness() {
        Endian::Little => digits,
        Endian::Big => digits.reverse(),
    }
}

/// The four bytes that hold `x` in this machine's memory.
#[verifier::opaque]
pub open spec fn u32_bytes(x: u32) -> Seq<u8> {
    native_order(u32_digits(x))
}

/// The eight bytes that hold `x` in this machine's memory.
#[verifier::opaque]
pub open spec fn u64_bytes(x: u64) -> Seq<u8> {
    native_order(u64_digits(x))
}

/// The integer that the four bytes `bytes` hold in this machine's memory.
#[verifier::opaque]
pub open spec fn u32_of_bytes(bytes: Seq<u8>) -> u32 {
    u32_of_digits(native_order(bytes))
}

/// The integer that the eight bytes `bytes` hold in this machine's memory.
#[verifier::opaque]
pub open spec fn u64_of_bytes(bytes: Seq<u8>) -> u64 {
    u64_of_digits(native_order(bytes))
}

/// `u32::to_ne_bytes` of std gives the memory representation of an integer: its base-256 digits in
/// the byte order of the machine.
#[verifier::external_body]
pub(crate) fn u32_to_ne_bytes(x: u32) -> (bytes: [u8; 4])
    ensures
        bytes@ == u32_bytes(x),
{
    x.to_ne_bytes()
}

/// `u32::from_ne_bytes` of std gives the integer that a memory representation stands for.
#[verifier::external_body]
pub(crate) fn u32_from_ne_bytes(bytes: [u8; 4]) -> (x: u32)
    ensures
        x == u32_of_bytes(bytes@),
{
    u32::from_ne_bytes(bytes)
}

/// `u64::to_ne_bytes` of std gives the memory representation of an integer: its base-256 digits in
/// the byte order of the machine.
#[verifier::external_body]
pub(crate) fn u64_to_ne_bytes(x: u64) -> (bytes: [u8; 8])
    ensures
        bytes@ == u64_bytes(x),
{
    x.to_ne_bytes()
}

/// `u64::from_ne_bytes` of std gives the integer that a memory representation stands for.
#[verifier::external_body]
pub(crate) fn u64_from_ne_bytes(bytes: [u8; 8]) -> (x: u64)
    ensures
        x == u64_of_bytes(bytes@),
{
    u64::from_ne_bytes(bytes)
}

/// Bringing digits into the machine's order twice leaves them as they were.
proof fn lemma_native_order_undoes_itself(digits: Seq<u8>)
    ensures
        native_order(digits).len() == digits.len(),
        native_order(native_order(digits)) == digits,
{
    assert(digits.reverse().reverse() =~= digits);
}

proof fn lemma_u32_digits_read_back(x: u32)
    ensures
        u32_digits(x).len() == 4,
        u32_of_digits(u32_digits(x)) == x,
{
    reveal(u32_digits);
    reveal(u32_of_digits);
}

proof fn lemma_four_digits(x: int, d0: int, d1: int, d2: int, d3: int)
    requires
        0 <= d0 < 0x100,
        0 <= d1 < 0x100,
        0 <= d2 < 0x100,
        0 <= d3 < 0x100,
        x == d0 + 0x100 * d1 + 0x1_0000 * d2 + 0x100_0000 * d3,
    ensures
        0 <= x < 0x1_0000_0000,
        x % 0x100 == d0,
        x / 0x100 % 0x100 == d1,
        x / 0x1_0000 % 0x100 == d2,
        x / 0x100_0000 == d3,
{
    assert(x / 0x100 == d1 + 0x100 * d2 + 0x1_0000 * d3);
    assert(x / 0x1_0000 == d2 + 0x100 * d3);
}

proof fn lemma_u32_digits_write_back(digits: Seq<u8>)
    requires
        digits.len() == 4,
    ensures
        u32_digits(u32_of_digits(digits)) == digits,
{
    reveal(u32_digits);
    reveal(u32_of_digits);
    lemma_four_digits(
        digits[0] + 0x100 * digits[1] + 0x1_0000 * digits[2] + 0x100_0000 * digits[3],
        digits[0] as int,
        digits[1] as int,
        digits[2] as int,
        digits[3] as int,
    );
    assert(u32_digits(u32_of_digits(digits)) =~= digits);
}

proof fn lemma_u64_digits_read_back(x: u64)
    ensures
        u64_digits(x).len() == 8,
        u64_of_digits(u64_digits(x)) == x,
{
    let low = (x % 0x1_0000_0000) as u32;
    let high = (x / 0x1_0000_0000) as u32;
    lemma_u32_digits_read_back(low);
    lemma_u32_digits_read_back(high);
    assert(u64_digits(x).take(4) == u32_digits(low)) by {
        lemma_halves(u32_digits(low), u32_digits(high));
    }
    assert(u64_digits(x).skip(4) == u32_digits(high)) by {
        lemma_halves(u32_digits(low), u32_digits(high));
    }
}

proof fn lemma_halves(low: Seq<u8>, high: Seq<u8>)
    requires
        low.len() == 4,
    ensures
        (low + high).take(4) == low,
        (low + high).skip(4) == high,
{
    assert((low + high).take(4) =~= low);
    assert((low + high).skip(4) =~= high);
}

proof fn lemma_u64_digits_write_back(digits: Seq<u8>)
    requires
        digits.len() == 8,
    ensures
        u64_digits(u64_of_digits(digits)) == digits,
{
    let low = u32_of_digits(digits.take(4));
    let high = u32_of_digits(digits.skip(4));
    let x = u64_of_digits(digits);
    lemma_u32_digits_write_back(digits.take(4));
    lemma_u32_digits_write_back(digits.skip(4));
    assert(x % 0x1_0000_0000 == low && x / 0x1_0000_0000 == high);
    assert(digits.take(4) + digits.skip(4) =~= digits);
}

/// Reading back the bytes of an integer gives that integer.
pub proof fn law_u32_bytes_read_back(x: u32)
    ensures
        u32_bytes(x).len() == 4,
        u32_of_bytes(u32_bytes(x)) == x,
{
    reveal(u32_bytes);
    reveal(u32_of_bytes);
    lemma_u32_digits_read_back(x);
    lemma_native_order_undoes_itself(u32_digits(x));
}

/// Writing the integer that four bytes hold gives those bytes again.
pub proof fn law_u32_bytes_write_back(bytes: Seq<u8>)
    requires
        bytes.len() == 4,
    ensures
        u32_bytes(u32_of_bytes(bytes)) == bytes,
{
    reveal(u32_bytes);
    reveal(u32_of_bytes);
    lemma_native_order_undoes_itself(bytes);
    lemma_u32_digits_write_back(native_order(bytes));
}

/// Reading back the bytes of an integer gives that integer.
pub proof fn law_u64_bytes_read_back(x: u64)
    ensures
        u64_bytes(x).len() == 8,
        u64_of_bytes(u64_bytes(x)) == x,
{
    reveal(u64_bytes);
    reveal(u64_of_bytes);
    lemma_u64_digits_read_back(x);
    lemma_native_order_undoes_itself(u64_digits(x));
}

/// Writing the integer that eight bytes hold gives those bytes again.
pub proof fn law_u64_bytes_write_back(bytes: Seq<u8>)
    requires
        bytes.len() == 8,
    ensures
        u64_bytes(u64_of_bytes(bytes)) == bytes,
{
    reveal(u64_bytes);
    reveal(u64_of_bytes);
    lemma_native_order_undoes_itself(bytes);
    lemma_u64_digits_write_back(native_order(bytes));
}

/// The bytes of an integer are its base-256 digits: the least significant comes first on a machine that
/// stores the little end first, and last on the other.
pub proof fn law_u32_bytes_are_its_digits(x: u32)
    ensures
        u32_bytes(x).len() == 4,
        endianness() == Endian::Little ==> {
            &&& u32_bytes(x)[0] == x % 0x100
            &&& u32_bytes(x)[1] == x / 0x100 % 0x100
            &&& u32_bytes(x)[2] == x / 0x1_0000 % 0x100
            &&& u32_bytes(x)[3] == x / 0x100_0000
        },
        endianness() == Endian::Big ==> {
            &&& u32_bytes(x)[3] == x % 0x100
            &&& u32_bytes(x)[2] == x / 0x100 % 0x100
            &&& u32_bytes(x)[1] == x / 0x1_0000 % 0x100
            &&& u32_bytes(x)[0] == x / 0x100_0000
        },
{
    reveal(u32_bytes);
    reveal(u32_digits);
}

/// The bytes of a wide integer are those of its two halves: the low half comes first on a machine that
/// stores the little end first, and last on the other.
pub proof fn law_u64_bytes_are_those_of_its_halves(x: u64)
    ensures
        u64_bytes(x).len() == 8,
        ({
            let low = u32_bytes((x % 0x1_0000_0000) as u32);
            let high = u32_bytes((x / 0x1_0000_0000) as u32);
            &&& endianness() == Endian::Little ==> u64_bytes(x) == low + high
            &&& endianness() == Endian::Big ==> u64_bytes(x) == high + low
        }),
{
    reveal(u64_bytes);
    reveal(u32_bytes);
    lemma_u32_digits_read_back((x % 0x1_0000_0000) as u32);
    lemma_u32_digits_read_back((x / 0x1_0000_0000) as u32);
    let low = u32_digits((x % 0x1_0000_0000) as u32);
    let high = u32_digits((x / 0x1_0000_0000) as u32);
    assert((low + high).reverse() =~= high.reverse() + low.reverse());
}

} // verus!
