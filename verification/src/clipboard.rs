use vstd::prelude::*;

verus! {

/// FNV-1a 64-bit offset basis.
pub const FNV_OFFSET_BASIS: u64 = 14695981039346656037;

/// FNV-1a 64-bit prime.
pub const FNV_PRIME: u64 = 1099511628211;

/// One FNV-1a round: xor the byte in, then multiply by the prime modulo 2^64.
pub open spec fn fnv1a_step(hash: u64, byte: u8) -> u64 {
    vstd::wrapping::u64_specs::wrapping_mul(hash ^ (byte as u64), FNV_PRIME)
}

/// FNV-1a rounds over `bytes`, in order, starting from the state `start`.
pub open spec fn fnv1a_from(start: u64, bytes: Seq<u8>) -> u64
    decreases bytes.len(),
{
    if bytes.len() == 0 {
        start
    } else {
        fnv1a_step(fnv1a_from(start, bytes.drop_last()), bytes.last())
    }
}

/// FNV-1a 64-bit hash of a byte sequence.
pub open spec fn fnv1a(bytes: Seq<u8>) -> u64 {
    fnv1a_from(FNV_OFFSET_BASIS, bytes)
}

/// The hash that identifies a piece of clipboard text: FNV-1a over its UTF-8 bytes.
pub open spec fn content_hash(content: Seq<char>) -> u64 {
    fnv1a(vstd::utf8::encode_utf8(content))
}

/// Clipboard helpers.
pub struct ClipboardManager;

impl ClipboardManager {
    /// Deterministic hash of clipboard text, used to compare contents.
    pub fn calculate_hash(content: &str) -> (hash: u64)
        ensures
            hash == content_hash(content@),
    {
        let bytes = content.as_bytes();
        let mut hash: u64 = FNV_OFFSET_BASIS;
        let n: usize = bytes.len();
        let mut i: usize = 0;
        while i < n
            invariant
                n == bytes@.len(),
                bytes@ == vstd::utf8::encode_utf8(content@),
                i <= n,
                hash == fnv1a(bytes@.take(i as int)),
            decreases n - i,
        {
            let byte: u8 = bytes[i];
            hash ^= byte as u64;
            hash = hash.wrapping_mul(FNV_PRIME);
            assert(bytes@.take(i + 1).drop_last() =~= bytes@.take(i as int));
            i = i + 1;
        }
        assert(bytes@.take(n as int) =~= bytes@);
        hash
    }
}

/// Hashing bytes in two parts is hashing them whole: the hash of `x + y` is
/// the FNV-1a rounds over `y` continued from the state reached after `x`.
pub proof fn lemma_fnv1a_concat(start: u64, x: Seq<u8>, y: Seq<u8>)
    ensures
        fnv1a_from(start, x + y) == fnv1a_from(fnv1a_from(start, x), y),
    decreases y.len(),
{
    if y.len() == 0 {
        assert(x + y =~= x);
    } else {
        lemma_fnv1a_concat(start, x, y.drop_last());
        assert((x + y).drop_last() =~= x + y.drop_last());
        assert((x + y).last() == y.last());
    }
}

/// The UTF-8 encoding of joined text is the joined encodings.
pub proof fn lemma_encode_utf8_concat(a: Seq<char>, b: Seq<char>)
    ensures
        vstd::utf8::encode_utf8(a + b) == vstd::utf8::encode_utf8(a) + vstd::utf8::encode_utf8(b),
    decreases a.len(),
{
    if a.len() == 0 {
        assert(a + b =~= b);
        assert(vstd::utf8::encode_utf8(a) =~= Seq::<u8>::empty());
        assert(Seq::<u8>::empty() + vstd::utf8::encode_utf8(b) =~= vstd::utf8::encode_utf8(b));
    } else {
        lemma_encode_utf8_concat(a.drop_first(), b);
        assert((a + b).drop_first() =~= a.drop_first() + b);
        assert((a + b)[0] == a[0]);
        let head = vstd::utf8::encode_scalar(a[0] as u32);
        assert(head + (vstd::utf8::encode_utf8(a.drop_first()) + vstd::utf8::encode_utf8(b)) =~= (head
            + vstd::utf8::encode_utf8(a.drop_first())) + vstd::utf8::encode_utf8(b));
    }
}

/// The hash of text that is copied in two pieces continues from the hash of
/// the first piece over the bytes of the second.
pub proof fn lemma_content_hash_concat(a: Seq<char>, b: Seq<char>)
    ensures
        content_hash(a + b) == fnv1a_from(content_hash(a), vstd::utf8::encode_utf8(b)),
{
    lemma_encode_utf8_concat(a, b);
    lemma_fnv1a_concat(FNV_OFFSET_BASIS, vstd::utf8::encode_utf8(a), vstd::utf8::encode_utf8(b));
}

/// 2^64, the modulus of the hash arithmetic.
pub open spec fn hash_modulus() -> int {
    0x1_0000_0000_0000_0000
}

/// The inverse of the FNV prime modulo 2^64.
pub open spec fn fnv_prime_inverse() -> int {
    14886173955864302971
}

proof fn lemma_prime_inverse(x: int)
    requires
        0 <= x < hash_modulus(),
    ensures
        (((x * FNV_PRIME) % hash_modulus()) * fnv_prime_inverse()) % hash_modulus() == x,
{
    let m = hash_modulus();
    let p = FNV_PRIME as int;
    let q = fnv_prime_inverse();
    assert(p * q == 887285111055 * m + 1);
    vstd::arithmetic::div_mod::lemma_mul_mod_noop_general(x * p, q, m);
    vstd::arithmetic::mul::lemma_mul_is_associative(x, p, q);
    assert(x * (p * q) == m * (x * 887285111055) + x) by (nonlinear_arith)
        requires
            p * q == 887285111055 * m + 1,
    ;
    vstd::arithmetic::div_mod::lemma_mod_multiples_vanish(x * 887285111055, x, m);
    vstd::arithmetic::div_mod::lemma_small_mod(x as nat, m as nat);
}

/// A round can be undone: multiplying its result by the inverse of the FNV
/// prime modulo 2^64 gives back the state with the byte xored in.
pub proof fn lemma_step_undone(hash: u64, byte: u8)
    ensures
        ((fnv1a_step(hash, byte) as int) * fnv_prime_inverse()) % hash_modulus() == (hash ^ (byte as u64)) as int,
{
    let x = (hash ^ (byte as u64)) as int;
    lemma_prime_inverse(x);
    assert((x * FNV_PRIME) % hash_modulus() >= 0);
    assert(fnv1a_step(hash, byte) as int == (x * FNV_PRIME) % hash_modulus());
}

/// From one state, different bytes lead to different states.
pub proof fn lemma_step_distinguishes_bytes(hash: u64, a: u8, b: u8)
    requires
        a != b,
    ensures
        fnv1a_step(hash, a) != fnv1a_step(hash, b),
{
    lemma_step_undone(hash, a);
    lemma_step_undone(hash, b);
    assert(hash ^ (a as u64) != hash ^ (b as u64)) by (bit_vector)
        requires
            a != b,
    ;
}

/// With one byte, different states lead to different states.
pub proof fn lemma_step_distinguishes_states(g: u64, h: u64, byte: u8)
    requires
        g != h,
    ensures
        fnv1a_step(g, byte) != fnv1a_step(h, byte),
{
    lemma_step_undone(g, byte);
    lemma_step_undone(h, byte);
    assert(g ^ (byte as u64) != h ^ (byte as u64)) by (bit_vector)
        requires
            g != h,
    ;
}

/// Hashing the same bytes from different states ends in different states.
pub proof fn lemma_rounds_distinguish_states(g: u64, h: u64, bytes: Seq<u8>)
    requires
        g != h,
    ensures
        fnv1a_from(g, bytes) != fnv1a_from(h, bytes),
    decreases bytes.len(),
{
    if bytes.len() > 0 {
        lemma_rounds_distinguish_states(g, h, bytes.drop_last());
        lemma_step_distinguishes_states(
            fnv1a_from(g, bytes.drop_last()),
            fnv1a_from(h, bytes.drop_last()),
            bytes.last(),
        );
    }
}

/// Changing one byte of the input always changes the hash: two byte strings
/// that agree everywhere except at one position, where one holds `a` and the
/// other `b`, hash differently. In particular texts that differ only in the
/// case of one ASCII letter hash differently.
pub proof fn lemma_one_byte_change_changes_hash(prefix: Seq<u8>, a: u8, b: u8, suffix: Seq<u8>)
    requires
        a != b,
    ensures
        fnv1a(prefix.push(a) + suffix) != fnv1a(prefix.push(b) + suffix),
{
    let h = fnv1a(prefix);
    assert(prefix.push(a).drop_last() =~= prefix);
    assert(prefix.push(b).drop_last() =~= prefix);
    lemma_step_distinguishes_bytes(h, a, b);
    lemma_fnv1a_concat(FNV_OFFSET_BASIS, prefix.push(a), suffix);
    lemma_fnv1a_concat(FNV_OFFSET_BASIS, prefix.push(b), suffix);
    lemma_rounds_distinguish_states(fnv1a(prefix.push(a)), fnv1a(prefix.push(b)), suffix);
}

/// The hash of a single byte: the offset basis xored with the byte, times the
/// FNV prime, modulo 2^64.
pub proof fn lemma_hash_of_one_byte(byte: u8)
    ensures
        fnv1a(seq![byte]) as int == (((FNV_OFFSET_BASIS ^ (byte as u64)) as int) * FNV_PRIME) % hash_modulus(),
{
    assert(seq![byte].drop_last() =~= Seq::<u8>::empty());
    assert(fnv1a_from(FNV_OFFSET_BASIS, Seq::<u8>::empty()) == FNV_OFFSET_BASIS);
    let x = (FNV_OFFSET_BASIS ^ (byte as u64)) as int;
    assert((x * FNV_PRIME) % hash_modulus() >= 0);
    assert(fnv1a(seq![byte]) == fnv1a_step(FNV_OFFSET_BASIS, byte));
}

} // verus!
