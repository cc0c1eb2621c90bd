//! The forward transform of the cipher, as a specification only, and the
//! proof that decryption reverses it.

use crate::reader::u32_le_bytes;
use crate::xxtea::{
    all_bytes, decrypt_bytes, decrypt_words, mx_spec, normalized_key, round, round_count,
    round_sum, rounds, sweep, word_at, word_count, words_of, LengthMode, DELTA,
};
use vstd::prelude::*;

verus! {

/// The position after `p` among `len` positions in a ring.
pub open spec fn after(p: int, len: int) -> int {
    if p + 1 == len {
        0
    } else {
        p + 1
    }
}

/// The position before `p` among `len` positions in a ring.
pub open spec fn before(p: int, len: int) -> int {
    if p == 0 {
        len - 1
    } else {
        p - 1
    }
}

/// The mixing value for position `p` of `v`, from the words that stand
/// after and before it in the ring.
pub open spec fn mix_at(v: Seq<u32>, k: Seq<u32>, sum: u32, p: int) -> u32 {
    mx_spec(
        sum,
        v[after(p, v.len() as int)],
        v[before(p, v.len() as int)],
        p,
        (sum >> 2) & 3,
        k,
    )
}

/// One step of the forward transform: the mixing value is added to word `p`.
pub open spec fn forward_step(v: Seq<u32>, k: Seq<u32>, sum: u32, p: int) -> Seq<u32> {
    v.update(p, v[p].wrapping_add(mix_at(v, k, sum, p)))
}

/// One step of the reverse transform: the mixing value is taken from word
/// `p`.
pub open spec fn backward_step(v: Seq<u32>, k: Seq<u32>, sum: u32, p: int) -> Seq<u32> {
    v.update(p, v[p].wrapping_sub(mix_at(v, k, sum, p)))
}

/// The words after the forward steps at positions `0` to `upto - 1`, in
/// this order.
pub open spec fn forward_sweep(v: Seq<u32>, k: Seq<u32>, sum: u32, upto: nat) -> Seq<u32>
    decreases upto,
{
    if upto == 0 {
        v
    } else {
        forward_step(forward_sweep(v, k, sum, (upto - 1) as nat), k, sum, upto - 1)
    }
}

/// The words after one forward round with running sum `sum`.
pub open spec fn forward_round(v: Seq<u32>, k: Seq<u32>, sum: u32) -> Seq<u32> {
    forward_sweep(v, k, sum, v.len())
}

/// The words after the first `count` forward rounds; round `i` has the
/// running sum `i * DELTA`.
pub open spec fn forward_rounds(v: Seq<u32>, k: Seq<u32>, count: nat) -> Seq<u32>
    decreases count,
{
    if count == 0 {
        v
    } else {
        forward_round(forward_rounds(v, k, (count - 1) as nat), k, round_sum(count))
    }
}

/// The encryption of `v` under the key words `k`. Fewer than two words stay
/// as they are.
pub open spec fn encrypt_words(v: Seq<u32>, k: Seq<u32>) -> Seq<u32> {
    if v.len() < 2 {
        v
    } else {
        forward_rounds(v, k, round_count(v.len()))
    }
}

/// The encryption of `data` under `key`.
pub open spec fn encrypt_bytes(data: Seq<u8>, key: Seq<u8>) -> Seq<u8> {
    all_bytes(
        encrypt_words(
            words_of(data, LengthMode::Omitted),
            words_of(normalized_key(key), LengthMode::Omitted),
        ),
    )
}

/// A backward step undoes the forward step at the same position.
proof fn lemma_step_is_undone(v: Seq<u32>, k: Seq<u32>, sum: u32, p: int)
    requires
        v.len() >= 2,
        0 <= p < v.len(),
    ensures
        backward_step(forward_step(v, k, sum, p), k, sum, p) == v,
        forward_step(v, k, sum, p).len() == v.len(),
{
    let w = forward_step(v, k, sum, p);
    let m = mix_at(v, k, sum, p);
    assert(mix_at(w, k, sum, p) == m);
    assert(v[p].wrapping_add(m).wrapping_sub(m) == v[p]);
    assert(backward_step(w, k, sum, p) =~= v);
}

/// Forward steps keep the number of words.
proof fn lemma_forward_sweep_len(v: Seq<u32>, k: Seq<u32>, sum: u32, upto: nat)
    requires
        upto <= v.len(),
    ensures
        forward_sweep(v, k, sum, upto).len() == v.len(),
    decreases upto,
{
    if upto > 0 {
        lemma_forward_sweep_len(v, k, sum, (upto - 1) as nat);
    }
}

/// Forward rounds keep the number of words.
proof fn lemma_forward_rounds_len(v: Seq<u32>, k: Seq<u32>, count: nat)
    ensures
        forward_rounds(v, k, count).len() == v.len(),
    decreases count,
{
    if count > 0 {
        lemma_forward_rounds_len(v, k, (count - 1) as nat);
        lemma_forward_sweep_len(
            forward_rounds(v, k, (count - 1) as nat),
            k,
            round_sum(count),
            v.len(),
        );
    }
}

/// The reverse sweep from position `p` down undoes the forward steps at
/// positions `0` to `p`.
proof fn lemma_sweep_is_undone(v: Seq<u32>, k: Seq<u32>, sum: u32, p: nat)
    requires
        v.len() >= 2,
        p < v.len(),
    ensures
        ({
            let w = forward_sweep(v, k, sum, p + 1);
            sweep(w, k, sum, w[after(p as int, v.len() as int)], p) == v
        }),
    decreases p,
{
    let len = v.len() as int;
    let u = forward_sweep(v, k, sum, p);
    let w = forward_sweep(v, k, sum, p + 1);
    lemma_forward_sweep_len(v, k, sum, p);
    assert(w == forward_step(u, k, sum, p as int));
    lemma_step_is_undone(u, k, sum, p as int);
    let y = w[after(p as int, len)];
    if p == 0 {
        assert(sweep(w, k, sum, y, 0) == backward_step(w, k, sum, 0));
    } else {
        let x = w[p as int].wrapping_sub(mx_spec(sum, y, w[p - 1], p as int, (sum >> 2) & 3, k));
        assert(w.update(p as int, x) == backward_step(w, k, sum, p as int));
        assert(x == u[p as int]);
        lemma_sweep_is_undone(v, k, sum, (p - 1) as nat);
        assert(after(p - 1, len) == p);
    }
}

/// A round of the reverse transform undoes a forward round with the same
/// running sum.
pub proof fn lemma_round_is_undone(v: Seq<u32>, k: Seq<u32>, sum: u32)
    requires
        v.len() >= 2,
    ensures
        round(forward_round(v, k, sum), k, sum) == v,
        forward_round(v, k, sum).len() == v.len(),
{
    lemma_sweep_is_undone(v, k, sum, (v.len() - 1) as nat);
    lemma_forward_sweep_len(v, k, sum, v.len());
}

/// The reverse rounds undo the forward rounds, last round first.
proof fn lemma_rounds_are_undone(v: Seq<u32>, k: Seq<u32>, count: nat)
    requires
        v.len() >= 2,
        count <= 32,
    ensures
        rounds(forward_rounds(v, k, count), k, round_sum(count), count) == v,
    decreases count,
{
    if count > 0 {
        let u = forward_rounds(v, k, (count - 1) as nat);
        lemma_forward_rounds_len(v, k, (count - 1) as nat);
        lemma_round_is_undone(u, k, round_sum(count));
        lemma_rounds_are_undone(v, k, (count - 1) as nat);
        assert(round_sum(count).wrapping_sub(DELTA) == round_sum((count - 1) as nat)) by {
            let r: u32 = count as u32;
            assert(1 <= r <= 32 ==> r.wrapping_mul(0x9E3779B9).wrapping_sub(0x9E3779B9) == ((r
                - 1) as u32).wrapping_mul(0x9E3779B9)) by (bit_vector);
        }
    }
}

/// Decryption reverses encryption, word for word, under any key.
pub proof fn lemma_decrypt_reverses_encrypt(v: Seq<u32>, k: Seq<u32>)
    ensures
        decrypt_words(encrypt_words(v, k), k) == v,
        encrypt_words(v, k).len() == v.len(),
{
    if v.len() >= 2 {
        let q = round_count(v.len());
        assert(52nat / v.len() <= 26) by (nonlinear_arith)
            requires
                v.len() >= 2,
        ;
        lemma_forward_rounds_len(v, k, q);
        lemma_rounds_are_undone(v, k, q);
    }
}

/// Packing the bytes of whole words gives the words back.
proof fn lemma_words_of_all_bytes(w: Seq<u32>)
    ensures
        words_of(all_bytes(w), LengthMode::Omitted) == w,
{
    let bytes = all_bytes(w);
    assert(word_count(bytes.len()) == w.len());
    assert forall|j: int| 0 <= j < w.len() implies word_at(bytes, j) == w[j] by {
        let x = w[j];
        assert(bytes[4 * j] == u32_le_bytes(x)[0]);
        assert(bytes[4 * j + 1] == u32_le_bytes(x)[1]);
        assert(bytes[4 * j + 2] == u32_le_bytes(x)[2]);
        assert(bytes[4 * j + 3] == u32_le_bytes(x)[3]);
        assert(x == (((x & 0xff) as u8) as u32) | ((((x >> 8) & 0xff) as u8) as u32) << 8 | ((((x
            >> 16) & 0xff) as u8) as u32) << 16 | ((((x >> 24) & 0xff) as u8) as u32) << 24)
            by (bit_vector);
    }
    assert(words_of(bytes, LengthMode::Omitted) =~= w);
}

/// Unpacking the words of a whole number of words' worth of bytes gives the
/// bytes back.
proof fn lemma_all_bytes_of_words(data: Seq<u8>)
    requires
        data.len() % 4 == 0,
    ensures
        all_bytes(words_of(data, LengthMode::Omitted)) == data,
{
    let w = words_of(data, LengthMode::Omitted);
    assert(4 * w.len() == data.len());
    assert forall|i: int| 0 <= i < data.len() implies all_bytes(w)[i] == data[i] by {
        let j = i / 4;
        let b0 = data[4 * j];
        let b1 = data[4 * j + 1];
        let b2 = data[4 * j + 2];
        let b3 = data[4 * j + 3];
        let x = w[j];
        assert((x & 0xff) as u8 == b0 && ((x >> 8) & 0xff) as u8 == b1 && ((x >> 16) & 0xff) as u8
            == b2 && ((x >> 24) & 0xff) as u8 == b3) by (bit_vector)
            requires
                x == (b0 as u32) | (b1 as u32) << 8 | (b2 as u32) << 16 | (b3 as u32) << 24,
        ;
    }
    assert(all_bytes(w) =~= data);
}

/// Decrypting what was encrypted under the same key gives the plaintext
/// back, for a plaintext of whole words.
pub proof fn lemma_decrypt_bytes_reverses_encrypt_bytes(data: Seq<u8>, key: Seq<u8>)
    requires
        data.len() % 4 == 0,
    ensures
        decrypt_bytes(encrypt_bytes(data, key), key) == data,
        encrypt_bytes(data, key).len() == data.len(),
{
    let v = words_of(data, LengthMode::Omitted);
    let k = words_of(normalized_key(key), LengthMode::Omitted);
    let encrypted = encrypt_words(v, k);
    assert(words_of(all_bytes(encrypted), LengthMode::Omitted) == encrypted) by {
        lemma_words_of_all_bytes(encrypted);
    }
    assert(decrypt_words(encrypted, k) == v && encrypted.len() == v.len()) by {
        lemma_decrypt_reverses_encrypt(v, k);
    }
    assert(all_bytes(v) == data) by {
        lemma_all_bytes_of_words(data);
    }
    assert(all_bytes(encrypted).len() == 4 * encrypted.len());
    assert(all_bytes(v).len() == 4 * v.len());
}

} // verus!
