//! Stellar addresses as plain values.

use vstd::prelude::*;

verus! {

/// What an address identifies.
#[derive(Clone, Copy, Debug, PartialEq, Eq, Structural)]
pub enum AddressKind {
    /// A Stellar account, identified by its ed25519 public key.
    Account,
    /// A contract, identified by its contract id.
    Contract,
}

/// A Stellar address: its kind and its 32-byte payload (public key or
/// contract id), held as the big-endian high and low 16 bytes.
#[derive(Clone, Copy, Debug, PartialEq, Eq, Structural)]
pub struct Address {
    pub kind: AddressKind,
    pub high: u128,
    pub low: u128,
}

/// The value of the bytes `bytes[start..end]` read as a big-endian number.
pub open spec fn be_value(bytes: Seq<u8>, start: int, end: int) -> nat
    decreases end - start,
{
    if end <= start {
        0
    } else {
        be_value(bytes, start, end - 1) * 256 + bytes[end - 1] as nat
    }
}

/// The `count` bytes that write `value` big-endian.
pub open spec fn be_bytes(value: nat, count: nat) -> Seq<u8>
    decreases count,
{
    if count == 0 {
        seq![]
    } else {
        be_bytes(value / 256, (count - 1) as nat).push((value % 256) as u8)
    }
}

proof fn lemma_be_value_bound(bytes: Seq<u8>, start: int, end: int)
    requires
        0 <= start <= end <= bytes.len(),
    ensures
        be_value(bytes, start, end) < pow256(end - start),
    decreases end - start,
{
    if end > start {
        lemma_be_value_bound(bytes, start, end - 1);
        let v = be_value(bytes, start, end - 1);
        let p = pow256(end - 1 - start);
        assert(v * 256 + (bytes[end - 1] as nat) < p * 256) by (nonlinear_arith)
            requires
                v < p,
                bytes[end - 1] < 256,
        ;
    }
}

/// 256 to the power `n`.
pub open spec fn pow256(n: int) -> nat
    decreases n,
{
    if n <= 0 {
        1
    } else {
        pow256(n - 1) * 256
    }
}

proof fn lemma_pow256_16()
    ensures
        pow256(16) == u128::MAX + 1,
{
    reveal_with_fuel(pow256, 17);
}

fn be_u128(bytes: &[u8], start: usize) -> (value: u128)
    requires
        start + 16 <= bytes@.len(),
    ensures
        value == be_value(bytes@, start as int, start + 16),
{
    let mut value: u128 = 0;
    let mut i: usize = start;
    let length: usize = bytes.len();
    let end: usize = start + 16;
    while i < end
        invariant
            end == start + 16 <= length,
            length == bytes@.len(),
            start <= i <= start + 16,
            start + 16 <= bytes@.len(),
            value == be_value(bytes@, start as int, i as int),
        decreases start + 16 - i,
    {
        proof {
            lemma_be_value_bound(bytes@, start as int, i as int + 1);
            lemma_pow256_16();
            if i + 1 < start + 16 {
                lemma_pow256_monotone(i + 1 - start, 16);
            }
        }
        value = value * 256 + bytes[i] as u128;
        i = i + 1;
    }
    value
}

proof fn lemma_pow256_monotone(a: int, b: int)
    requires
        0 <= a <= b,
    ensures
        pow256(a) <= pow256(b),
    decreases b - a,
{
    if a < b {
        lemma_pow256_monotone(a, b - 1);
    }
}

fn push_be_u128(out: &mut Vec<u8>, value: u128)
    ensures
        final(out)@ == old(out)@ + be_bytes(value as nat, 16),
{
    let mut digits: Vec<u8> = Vec::new();
    let mut rest: u128 = value;
    let mut k: usize = 0;
    proof {
        lemma_div_pow_step(value as nat, 0);
        assert(value as nat / 1 == value as nat);
    }
    while k < 16
        invariant
            k <= 16,
            digits@.len() == k,
            forall|j: int| 0 <= j < k ==> digits@[j] == ((value as nat / pow256(j)) % 256) as u8,
            rest as nat == value as nat / pow256(k as int),
        decreases 16 - k,
    {
        proof {
            lemma_div_pow_step(value as nat, k as int);
        }
        digits.push((rest % 256) as u8);
        rest = rest / 256;
        k = k + 1;
    }
    let mut j: usize = 16;
    let ghost start = out@;
    while j > 0
        invariant
            j <= 16,
            digits@.len() == 16,
            forall|m: int| 0 <= m < 16 ==> digits@[m] == ((value as nat / pow256(m)) % 256) as u8,
            out@ == start + be_bytes(value as nat / pow256(j as int), (16 - j) as nat),
        decreases j,
    {
        proof {
            lemma_div_pow_step(value as nat, j - 1);
            assert(be_bytes(value as nat / pow256(j - 1), (16 - j + 1) as nat) == be_bytes(
                value as nat / pow256(j as int),
                (16 - j) as nat,
            ).push(((value as nat / pow256(j - 1)) % 256) as u8));
        }
        out.push(digits[j - 1]);
        j = j - 1;
    }
    assert(pow256(0) == 1);
    assert(value as nat / 1 == value as nat);
}

proof fn lemma_div_pow_step(value: nat, k: int)
    requires
        k >= 0,
    ensures
        value / pow256(k) / 256 == value / pow256(k + 1),
        pow256(k) > 0,
{
    lemma_pow256_positive(k);
    assert(pow256(k + 1) == pow256(k) * 256);
    vstd::arithmetic::div_mod::lemma_div_denominator(value as int, pow256(k) as int, 256);
}

proof fn lemma_pow256_positive(k: int)
    ensures
        pow256(k) > 0,
    decreases k,
{
    if k > 0 {
        lemma_pow256_positive(k - 1);
    }
}

proof fn lemma_be_bytes_len(value: nat, count: nat)
    ensures
        be_bytes(value, count).len() == count,
    decreases count,
{
    if count > 0 {
        lemma_be_bytes_len(value / 256, (count - 1) as nat);
    }
}

/// Reading a range that lies inside the first part of `x + y` reads `x`;
/// reading one that lies inside the second part reads `y`.
proof fn lemma_be_value_concat(x: Seq<u8>, y: Seq<u8>, i: int, j: int)
    requires
        0 <= i <= j,
    ensures
        j <= x.len() ==> be_value(x + y, i, j) == be_value(x, i, j),
        j <= y.len() ==> be_value(x + y, x.len() + i, x.len() + j) == be_value(y, i, j),
    decreases j - i,
{
    if i < j {
        lemma_be_value_concat(x, y, i, j - 1);
    }
}

proof fn lemma_be_value_of_bytes(value: nat, count: nat)
    ensures
        be_value(be_bytes(value, count), 0, count as int) == value % pow256(count as int),
    decreases count,
{
    if count == 0 {
        assert(value % 1 == 0);
    } else {
        let n = (count - 1) as nat;
        let prefix = be_bytes(value / 256, n);
        lemma_be_bytes_len(value / 256, n);
        lemma_be_value_of_bytes(value / 256, n);
        lemma_be_value_concat(prefix, seq![(value % 256) as u8], 0, n as int);
        assert(prefix.push((value % 256) as u8) =~= prefix + seq![(value % 256) as u8]);
        lemma_pow256_positive(n as int);
        vstd::arithmetic::div_mod::lemma_breakdown(value as int, 256, pow256(n as int) as int);
        assert(pow256(count as int) == pow256(n as int) * 256);
        vstd::arithmetic::mul::lemma_mul_is_commutative(256, pow256(n as int) as int);
    }
}

/// Reading an address back from its payload gives the address.
pub proof fn lemma_payload_round_trip(address: Address)
    ensures
        ({
            let payload = be_bytes(address.high as nat, 16) + be_bytes(address.low as nat, 16);
            &&& payload.len() == 32
            &&& be_value(payload, 0, 16) == address.high
            &&& be_value(payload, 16, 32) == address.low
        }),
{
    let h = be_bytes(address.high as nat, 16);
    let l = be_bytes(address.low as nat, 16);
    lemma_be_bytes_len(address.high as nat, 16);
    lemma_be_bytes_len(address.low as nat, 16);
    lemma_be_value_concat(h, l, 0, 16);
    lemma_be_value_of_bytes(address.high as nat, 16);
    lemma_be_value_of_bytes(address.low as nat, 16);
    lemma_pow256_16();
    vstd::arithmetic::div_mod::lemma_small_mod(address.high as nat, pow256(16));
    vstd::arithmetic::div_mod::lemma_small_mod(address.low as nat, pow256(16));
}

/// Payloads are read big-endian: the first byte of a range is its most
/// significant digit in base 256 and the last byte its least significant.
pub proof fn lemma_be_value_digits(bytes: Seq<u8>, start: int, end: int)
    requires
        0 <= start < end <= bytes.len(),
    ensures
        be_value(bytes, start, end) == bytes[start] * pow256(end - start - 1) + be_value(bytes, start + 1, end),
        be_value(bytes, start, end) == be_value(bytes, start, end - 1) * 256 + bytes[end - 1],
    decreases end - start,
{
    if end > start + 1 {
        lemma_be_value_digits(bytes, start, end - 1);
        let x = bytes[start] as int;
        let p = pow256(end - start - 2) as int;
        let y = be_value(bytes, start + 1, end - 1) as int;
        assert((x * p + y) * 256 == x * (p * 256) + y * 256) by (nonlinear_arith);
        assert(pow256(end - start - 1) == pow256(end - start - 2) * 256);
        assert(be_value(bytes, start + 1, end) == y * 256 + bytes[end - 1]);
        assert(be_value(bytes, start, end) == be_value(bytes, start, end - 1) * 256 + bytes[end - 1]);
        assert(x * pow256(end - start - 1) == x * (p * 256));
    } else {
        assert(pow256(0) == 1);
        assert(be_value(bytes, start, start) == 0);
        assert(be_value(bytes, start + 1, end) == 0);
        assert(bytes[start] * pow256(0) == bytes[start]);
    }
}

impl Address {
    /// Builds an address from its kind and the two halves of its payload.
    pub fn new(kind: AddressKind, high: u128, low: u128) -> (address: Address)
        ensures
            address == (Address { kind, high, low }),
    {
        Address { kind, high, low }
    }

    /// Builds an address from its kind and its 32-byte payload.
    pub fn from_payload(kind: AddressKind, payload: &[u8; 32]) -> (address: Address)
        ensures
            address.kind == kind,
            address.high == be_value(payload@, 0, 16),
            address.low == be_value(payload@, 16, 32),
    {
        let bytes = payload.as_slice();
        let high = be_u128(bytes, 0);
        let low = be_u128(bytes, 16);
        Address { kind, high, low }
    }

    /// The 32-byte payload of the address, big-endian.
    pub fn payload(&self) -> (payload: Vec<u8>)
        ensures
            payload@ == be_bytes(self.high as nat, 16) + be_bytes(self.low as nat, 16),
    {
        let mut payload: Vec<u8> = Vec::new();
        push_be_u128(&mut payload, self.high);
        push_be_u128(&mut payload, self.low);
        payload
    }
}

} // verus!
