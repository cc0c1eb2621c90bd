//! The block cipher that reverses the encryption of the embedded blob: a
//! corrected-block-TEA variant over little-endian 32-bit words, decrypting
//! only.

use crate::reader::u32_le_bytes;
use vstd::prelude::*;
use vstd::slice::{slice_subrange, slice_to_vec};

verus! {

/// The constant by which the running sum of the cipher changes each round.
pub const DELTA: u32 = 0x9E3779B9;

/// The key under which the embedded blob is encrypted: the ASCII letters
/// `E8FF` followed by twelve zero bytes.
pub const CIPHER_KEY: [u8; 16] = [
    0x45, 0x38, 0x46, 0x46, 0x00, 0x00, 0x00, 0x00, 0x00, 0x00, 0x00, 0x00, 0x00, 0x00, 0x00, 0x00,
];

/// Whether the word form of a byte sequence carries the sequence's length
/// as an additional last word.
#[derive(Debug, Clone, Copy, PartialEq, Eq, Structural)]
pub enum LengthMode {
    /// The words hold the bytes and nothing else.
    Omitted,
    /// One more word follows the bytes and holds their number.
    Included,
}

/// The key as the cipher takes it: cut to its first sixteen bytes or padded
/// with zero bytes to sixteen.
pub open spec fn normalized_key(key: Seq<u8>) -> Seq<u8> {
    if key.len() >= 16 {
        key.take(16)
    } else {
        key + Seq::new((16 - key.len()) as nat, |i: int| 0u8)
    }
}

/// Byte `i` of `data`, or zero beyond its end.
pub open spec fn byte_or_zero(data: Seq<u8>, i: int) -> u8 {
    if 0 <= i < data.len() {
        data[i]
    } else {
        0
    }
}

/// Word `j` of `data`: its bytes `4j` to `4j + 3`, the first the least
/// significant, with zero for what lies beyond the end of `data`.
pub open spec fn word_at(data: Seq<u8>, j: int) -> u32 {
    (byte_or_zero(data, 4 * j) as u32) | (byte_or_zero(data, 4 * j + 1) as u32) << 8 | (
    byte_or_zero(data, 4 * j + 2) as u32) << 16 | (byte_or_zero(data, 4 * j + 3) as u32) << 24
}

/// How many words hold `len` bytes.
pub open spec fn word_count(len: nat) -> nat {
    (len + 3) / 4
}

/// The word form of `data`.
pub open spec fn words_of(data: Seq<u8>, mode: LengthMode) -> Seq<u32> {
    let n = word_count(data.len());
    match mode {
        LengthMode::Omitted => Seq::new(n, |j: int| word_at(data, j)),
        LengthMode::Included => Seq::new(
            n + 1,
            |j: int|
                if j < n {
                    word_at(data, j)
                } else {
                    data.len() as u32
                },
        ),
    }
}

/// The bytes of `words`, four per word, the least significant first.
pub open spec fn all_bytes(words: Seq<u32>) -> Seq<u8> {
    Seq::new(4 * words.len(), |i: int| u32_le_bytes(words[i / 4])[i % 4])
}

/// The byte form of `words`. With the length included, the last word must
/// name a length that ends in the last word before it; otherwise there is no
/// byte form.
pub open spec fn bytes_of(words: Seq<u32>, mode: LengthMode) -> Option<Seq<u8>> {
    match mode {
        LengthMode::Omitted => Some(all_bytes(words)),
        LengthMode::Included => {
            if words.len() == 0 {
                Some(Seq::empty())
            } else {
                let n = 4 * (words.len() - 1);
                let m = words.last() as int;
                if m < n - 3 || m > n {
                    None
                } else {
                    Some(all_bytes(words).take(m))
                }
            }
        },
    }
}

/// The mixing value of the cipher for position `p`, from the running sum,
/// the neighbouring words `y` and `z`, the round's key selector `e` and the
/// key `k`.
pub open spec fn mx_spec(sum: u32, y: u32, z: u32, p: int, e: u32, k: Seq<u32>) -> u32 {
    (((z >> 5) ^ (y << 2)).wrapping_add((y >> 3) ^ (z << 4))) ^ ((sum ^ y).wrapping_add(
        k[(((p % 4) as u32) ^ e) as int] ^ z,
    ))
}

/// The words after the positions `p`, `p - 1`, ..., `1` and then `0` have
/// been treated in one round with running sum `sum`, where `y` is the word
/// written last. Each position has its mixing value subtracted; position `0`
/// takes the last word as its neighbour.
pub open spec fn sweep(v: Seq<u32>, k: Seq<u32>, sum: u32, y: u32, p: nat) -> Seq<u32>
    decreases p,
{
    let e = (sum >> 2) & 3;
    if p == 0 {
        v.update(0, v[0].wrapping_sub(mx_spec(sum, y, v[v.len() - 1], 0, e, k)))
    } else {
        let w = v[p as int].wrapping_sub(mx_spec(sum, y, v[p - 1], p as int, e, k));
        sweep(v.update(p as int, w), k, sum, w, (p - 1) as nat)
    }
}

/// The words after one round with running sum `sum`.
pub open spec fn round(v: Seq<u32>, k: Seq<u32>, sum: u32) -> Seq<u32> {
    sweep(v, k, sum, v[0], (v.len() - 1) as nat)
}

/// The words after `count` rounds, the first with running sum `sum`, each
/// further one with `DELTA` less.
pub open spec fn rounds(v: Seq<u32>, k: Seq<u32>, sum: u32, count: nat) -> Seq<u32>
    decreases count,
{
    if count == 0 {
        v
    } else {
        rounds(round(v, k, sum), k, sum.wrapping_sub(DELTA), (count - 1) as nat)
    }
}

/// How many rounds the cipher makes over `len` words.
pub open spec fn round_count(len: nat) -> nat {
    6 + 52nat / len
}

/// The running sum with `left` rounds still to make.
pub open spec fn round_sum(left: nat) -> u32 {
    (left as u32).wrapping_mul(DELTA)
}

/// The decryption of `v` under the four key words `k`. Fewer than two words
/// are too short to hold a block and stay as they are.
pub open spec fn decrypt_words(v: Seq<u32>, k: Seq<u32>) -> Seq<u32> {
    if v.len() < 2 {
        v
    } else {
        rounds(v, k, round_sum(round_count(v.len())), round_count(v.len()))
    }
}

/// The decryption of `data` under `key`: the bytes of the decrypted words.
pub open spec fn decrypt_bytes(data: Seq<u8>, key: Seq<u8>) -> Seq<u8> {
    all_bytes(
        decrypt_words(
            words_of(data, LengthMode::Omitted),
            words_of(normalized_key(key), LengthMode::Omitted),
        ),
    )
}

/// A sweep keeps the number of words.
pub proof fn lemma_sweep_len(v: Seq<u32>, k: Seq<u32>, sum: u32, y: u32, p: nat)
    requires
        p < v.len(),
    ensures
        sweep(v, k, sum, y, p).len() == v.len(),
    decreases p,
{
    if p > 0 {
        let e = (sum >> 2) & 3;
        let w = v[p as int].wrapping_sub(mx_spec(sum, y, v[p - 1], p as int, e, k));
        lemma_sweep_len(v.update(p as int, w), k, sum, w, (p - 1) as nat);
    }
}

/// Rounds keep the number of words.
pub proof fn lemma_rounds_len(v: Seq<u32>, k: Seq<u32>, sum: u32, count: nat)
    requires
        v.len() >= 1,
    ensures
        rounds(v, k, sum, count).len() == v.len(),
    decreases count,
{
    if count > 0 {
        lemma_sweep_len(v, k, sum, v[0], (v.len() - 1) as nat);
        lemma_rounds_len(round(v, k, sum), k, sum.wrapping_sub(DELTA), (count - 1) as nat);
    }
}

/// The running sum is zero exactly when no round is left, and one round
/// takes `DELTA` from it.
proof fn lemma_round_sum(left: nat)
    requires
        left <= 32,
    ensures
        round_sum(left) == 0 <==> left == 0,
        left > 0 ==> round_sum(left).wrapping_sub(DELTA) == round_sum((left - 1) as nat),
{
    let r: u32 = left as u32;
    assert(r <= 32 ==> (r.wrapping_mul(0x9E3779B9) == 0 <==> r == 0)) by (bit_vector);
    assert(1 <= r <= 32 ==> r.wrapping_mul(0x9E3779B9).wrapping_sub(0x9E3779B9) == ((r
        - 1) as u32).wrapping_mul(0x9E3779B9)) by (bit_vector);
}

/// Cuts or pads `key` to sixteen bytes.
pub fn fix_key(key: &[u8]) -> (fixed: Vec<u8>)
    ensures
        fixed@ == normalized_key(key@),
        fixed@.len() == 16,
        key@.len() == 16 ==> fixed@ == key@,
{
    if key.len() == 16 {
        let fixed = slice_to_vec(key);
        assert(fixed@ =~= normalized_key(key@));
        return fixed;
    }
    if key.len() < 16 {
        let mut fixed = slice_to_vec(key);
        fixed.resize(16, 0);
        assert(fixed@ =~= normalized_key(key@));
        return fixed;
    }
    let fixed = slice_to_vec(slice_subrange(key, 0, 16));
    assert(fixed@ =~= normalized_key(key@));
    fixed
}

/// Setting byte `t` of a word whose byte `t` is zero: the OR with the byte
/// shifted into place replaces the zero and leaves the other bytes.
proof fn lemma_or_byte(a0: u32, a1: u32, a2: u32, a3: u32, b: u32)
    ensures
        (0u32 | a1 << 8 | a2 << 16 | a3 << 24) | (b << 0) == (b | a1 << 8 | a2 << 16 | a3 << 24),
        (a0 | 0u32 << 8 | a2 << 16 | a3 << 24) | (b << 8) == (a0 | b << 8 | a2 << 16 | a3 << 24),
        (a0 | a1 << 8 | 0u32 << 16 | a3 << 24) | (b << 16) == (a0 | a1 << 8 | b << 16 | a3 << 24),
        (a0 | a1 << 8 | a2 << 16 | 0u32 << 24) | (b << 24) == (a0 | a1 << 8 | a2 << 16 | b << 24),
        0u32 == (0u32 | 0u32 << 8 | 0u32 << 16 | 0u32 << 24),
{
    assert((0u32 | a1 << 8 | a2 << 16 | a3 << 24) | (b << 0) == (b | a1 << 8 | a2 << 16 | a3 << 24))
        by (bit_vector);
    assert((a0 | 0u32 << 8 | a2 << 16 | a3 << 24) | (b << 8) == (a0 | b << 8 | a2 << 16 | a3 << 24))
        by (bit_vector);
    assert((a0 | a1 << 8 | 0u32 << 16 | a3 << 24) | (b << 16) == (a0 | a1 << 8 | b << 16 | a3
        << 24)) by (bit_vector);
    assert((a0 | a1 << 8 | a2 << 16 | 0u32 << 24) | (b << 24) == (a0 | a1 << 8 | a2 << 16 | b
        << 24)) by (bit_vector);
    assert(0u32 == (0u32 | 0u32 << 8 | 0u32 << 16 | 0u32 << 24)) by (bit_vector);
}

/// Where byte `i` goes: into word `i / 4`, shifted by `8 * (i % 4)` bits.
proof fn lemma_byte_place(i: usize)
    ensures
        i >> 2 == i / 4,
        (i & 3) << 3 == 8 * (i % 4),
        (i & 3) == 0 <==> i % 4 == 0,
{
    assert(i >> 2 == i / 4) by (bit_vector);
    assert((i & 3) << 3 == 8 * (i % 4)) by (bit_vector);
    assert((i & 3) == 0 <==> i % 4 == 0) by (bit_vector);
}

/// Packs `data` into little-endian words, the last one padded with zero
/// bytes, and appends the number of bytes where `mode` says so.
pub fn to_uint32_array(data: &[u8], mode: LengthMode) -> (result: Vec<u32>)
    ensures
        result@ == words_of(data@, mode),
{
    let length: usize = data.len();
    proof {
        lemma_byte_place(length);
    }
    let n: usize = if (length & 3) == 0 {
        length >> 2
    } else {
        (length >> 2) + 1
    };
    assert(n == word_count(length as nat));
    let end_len: usize = match mode {
        LengthMode::Included => n + 1,
        LengthMode::Omitted => n,
    };
    let mut result: Vec<u32> = vec![0u32; end_len];
    match mode {
        LengthMode::Included => {
            result[n] = #[verifier::truncate] (length as u32);
        },
        LengthMode::Omitted => {},
    }
    proof {
        lemma_or_byte(0, 0, 0, 0, 0);
    }
    let mut i: usize = 0;
    while i < length
        invariant
            i <= length,
            length == data@.len(),
            n == word_count(length as nat),
            result@.len() == end_len,
            n <= end_len,
            mode == LengthMode::Included ==> end_len == n + 1 && result@[n as int]
                == length as u32,
            mode == LengthMode::Omitted ==> end_len == n,
            forall|j: int| 0 <= j < n ==> result@[j] == word_at(data@.take(i as int), j),
        decreases length - i,
    {
        let b: u8 = data[i];
        let ghost before = data@.take(i as int);
        let ghost after = data@.take(i + 1);
        let ghost j0 = i as int / 4;
        proof {
            lemma_byte_place(i);
            lemma_or_byte(
                byte_or_zero(before, 4 * j0) as u32,
                byte_or_zero(before, 4 * j0 + 1) as u32,
                byte_or_zero(before, 4 * j0 + 2) as u32,
                byte_or_zero(before, 4 * j0 + 3) as u32,
                b as u32,
            );
            assert forall|t: int| 0 <= t < i implies byte_or_zero(after, t) == byte_or_zero(
                before,
                t,
            ) by {}
            assert forall|t: int| t > i implies byte_or_zero(after, t) == 0 && byte_or_zero(
                before,
                t,
            ) == 0 by {}
            assert(byte_or_zero(after, i as int) == b && byte_or_zero(before, i as int) == 0);
        }
        let idx: usize = i >> 2;
        let shift: usize = (i & 3) << 3;
        result[idx] = result[idx] | ((b as u32) << shift);
        proof {
            assert(result@[j0] == word_at(after, j0));
            assert forall|j: int| 0 <= j < n implies result@[j] == word_at(after, j) by {
                if j != j0 {
                    assert(word_at(after, j) == word_at(before, j));
                }
            }
        }
        i += 1;
    }
    proof {
        assert(data@.take(length as int) =~= data@);
        assert(result@ =~= words_of(data@, mode));
    }
    result
}

/// Byte `t` of a word, taken by shifting and masking, is byte `t` of its
/// little-endian encoding.
proof fn lemma_byte_of_word(w: u32, i: usize)
    ensures
        (i & 3) << 3 < 32,
        (((w >> ((i & 3) << 3)) & 0xFF) as u8) == u32_le_bytes(w)[i as int % 4],
{
    lemma_byte_place(i);
    assert((w >> 0usize) & 0xFF == w & 0xff) by (bit_vector);
}

/// Unpacks `data` into bytes, four per word and the least significant
/// first. Where `mode` says that the last word holds the length, that word is
/// checked and the bytes are cut to the length it names.
pub fn to_byte_array(data: &[u32], mode: LengthMode) -> (result: Option<Vec<u8>>)
    requires
        4 * data@.len() <= usize::MAX,
    ensures
        match result {
            Some(bytes) => bytes_of(data@, mode) == Some(bytes@),
            None => bytes_of(data@, mode) is None,
        },
{
    let mut n: usize = data.len() * 4;
    match mode {
        LengthMode::Included => {
            if data.len() == 0 {
                let empty: Vec<u8> = Vec::new();
                assert(empty@ =~= Seq::<u8>::empty());
                return Some(empty);
            }
            let last: u32 = data[data.len() - 1];
            let m: usize = last as usize;
            n -= 4;
            if m < n.saturating_sub(3) || m > n {
                return None;
            }
            n = m;
        },
        LengthMode::Omitted => {},
    }
    let mut result: Vec<u8> = vec![0u8; n];
    let mut i: usize = 0;
    while i < n
        invariant
            i <= n,
            n <= 4 * data@.len(),
            result@.len() == n,
            forall|t: int| 0 <= t < i ==> result@[t] == all_bytes(data@)[t],
        decreases n - i,
    {
        proof {
            lemma_byte_place(i);
            lemma_byte_of_word(data@[i as int / 4], i);
        }
        result[i] = ((data[i >> 2] >> ((i & 3) << 3)) & 0xFF) as u8;
        i += 1;
    }
    proof {
        assert(result@ =~= all_bytes(data@).take(n as int));
        assert(all_bytes(data@).take(4 * data@.len() as int) =~= all_bytes(data@));
    }
    Some(result)
}

/// The mixing value for position `p`.
pub fn mx(sum_value: u32, y: u32, z: u32, p: usize, e: u32, k: &[u32]) -> (m: u32)
    requires
        e < 4,
        k@.len() == 4,
    ensures
        m == mx_spec(sum_value, y, z, p as int, e, k@),
{
    let p_mask: u32 = #[verifier::truncate] (p as u32) & 3;
    assert(p_mask == (p % 4) as u32) by (bit_vector)
        requires
            p_mask == (p as u32) & 3,
    ;
    assert((p_mask ^ e) < 4) by (bit_vector)
        requires
            p_mask < 4,
            e < 4,
    ;
    let k_val: u32 = k[(p_mask ^ e) as usize];

    let part1: u32 = (z >> 5) ^ (y << 2);
    let part2: u32 = (y >> 3) ^ (z << 4);
    let part3: u32 = sum_value ^ y;
    let part4: u32 = k_val ^ z;

    (part1.wrapping_add(part2)) ^ (part3.wrapping_add(part4))
}

/// Decrypts the words of `v` in place under the four key words `k`.
pub fn decrypt_uint32(v: &mut [u32], k: &[u32])
    requires
        k@.len() == 4,
    ensures
        final(v)@ == decrypt_words(old(v)@, k@),
        final(v)@.len() == old(v)@.len(),
{
    let len: usize = v.len();
    if len < 2 {
        return;
    }
    let n: usize = len - 1;
    let mut sum_value: u32;
    let mut y: u32 = v[0];
    assert(52int / (len as int) <= 26) by (nonlinear_arith)
        requires
            len >= 2,
    ;
    let q: usize = 6 + 52 / (n + 1);

    sum_value = (q as u32).wrapping_mul(DELTA);
    let ghost mut left: nat = q as nat;
    let ghost goal = decrypt_words(v@, k@);

    while sum_value != 0
        invariant
            len == v@.len(),
            len >= 2,
            n == len - 1,
            k@.len() == 4,
            left <= 32,
            sum_value == round_sum(left),
            y == v@[0],
            rounds(v@, k@, sum_value, left) == goal,
        decreases left,
    {
        proof {
            lemma_round_sum(left);
        }
        let e: u32 = (sum_value >> 2) & 3;
        assert(e < 4) by (bit_vector)
            requires
                e == (sum_value >> 2) & 3,
        ;
        let ghost round_goal = round(v@, k@, sum_value);

        let mut p: usize = n;
        while p >= 1
            invariant
                len == v@.len(),
                n == len - 1,
                p <= n,
                k@.len() == 4,
                e == (sum_value >> 2) & 3,
                e < 4,
                sweep(v@, k@, sum_value, y, p as nat) == round_goal,
            decreases p,
        {
            let z: u32 = v[p - 1];
            let mx_val: u32 = mx(sum_value, y, z, p, e, k);
            v[p] = v[p].wrapping_sub(mx_val);
            y = v[p];
            p -= 1;
        }

        let z: u32 = v[n];
        let mx_val: u32 = mx(sum_value, y, z, 0, e, k);
        v[0] = v[0].wrapping_sub(mx_val);
        y = v[0];
        assert(v@ == round_goal);

        sum_value = sum_value.wrapping_sub(DELTA);
        proof {
            left = (left - 1) as nat;
        }
    }
    proof {
        lemma_round_sum(left);
        lemma_rounds_len(old(v)@, k@, round_sum(round_count(len as nat)), round_count(len as nat));
    }
}

/// Decrypts `data` under `key`. The key is cut or padded to sixteen bytes;
/// the result has four bytes for each word of `data`, so a last partial word
/// comes back as a whole one. Nothing is checked: a wrong key gives other
/// bytes, not an error.
pub fn decrypt(data: &[u8], key: &[u8]) -> (res: Result<Vec<u8>, String>)
    requires
        data@.len() + 3 <= usize::MAX,
    ensures
        res matches Ok(plain) && plain@ == decrypt_bytes(data@, key@),
        decrypt_bytes(data@, key@).len() == 4 * word_count(data@.len()),
        data@.len() == 0 ==> decrypt_bytes(data@, key@) == Seq::<u8>::empty(),
{
    proof {
        lemma_decrypt_bytes_len(data@, key@);
    }
    if data.len() == 0 {
        let empty: Vec<u8> = Vec::new();
        assert(empty@ =~= decrypt_bytes(data@, key@));
        return Ok(empty);
    }
    let fixed_key = fix_key(key);
    let mut v = to_uint32_array(data, LengthMode::Omitted);
    let k = to_uint32_array(fixed_key.as_slice(), LengthMode::Omitted);

    decrypt_uint32(v.as_mut_slice(), k.as_slice());

    match to_byte_array(v.as_slice(), LengthMode::Omitted) {
        Some(plain) => Ok(plain),
        None => Err("Invalid XXTEA data or key.".to_string()),
    }
}

/// Decryption gives four bytes for each word of the input, and nothing for
/// an empty input.
pub proof fn lemma_decrypt_bytes_len(data: Seq<u8>, key: Seq<u8>)
    ensures
        decrypt_bytes(data, key).len() == 4 * word_count(data.len()),
        data.len() == 0 ==> decrypt_bytes(data, key) == Seq::<u8>::empty(),
{
    let v = words_of(data, LengthMode::Omitted);
    let k = words_of(normalized_key(key), LengthMode::Omitted);
    if v.len() >= 2 {
        lemma_rounds_len(v, k, round_sum(round_count(v.len())), round_count(v.len()));
    }
    if data.len() == 0 {
        assert(decrypt_bytes(data, key) =~= Seq::<u8>::empty());
    }
}

/// Decryption is a function of the buffer and the key: equal inputs give
/// equal outputs.
pub proof fn lemma_decrypt_is_deterministic(
    data1: Seq<u8>,
    key1: Seq<u8>,
    data2: Seq<u8>,
    key2: Seq<u8>,
)
    requires
        data1 == data2,
        key1 == key2,
    ensures
        decrypt_bytes(data1, key1) == decrypt_bytes(data2, key2),
{
}

} // verus!
