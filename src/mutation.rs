use vstd::prelude::*;

use crate::rng::{rand_below, StdRand};

verus! {

/// The number of elementary mutation operators.
pub const NUM_OPERATORS: u64 = 9;

/// `s` with `s[from..to]` replaced by `ins`.
pub open spec fn spliced(s: Seq<u8>, from: int, to: int, ins: Seq<u8>) -> Seq<u8> {
    s.subrange(0, from) + ins + s.subrange(to, s.len() as int)
}

/// The tokens of a dictionary.
pub open spec fn tokens_of(t: Seq<Vec<u8>>) -> Seq<Seq<u8>> {
    t.map_values(|v: Vec<u8>| v@)
}

/// One elementary operator, numbered `op`, applied to `s` with the
/// generator in state `r`; inputs never grow past `max_size`. An operator
/// that does not apply (an empty input, no token) leaves `s` as it is.
///
/// 0 flips one bit, 1 inverts one byte, 2 and 3 add and subtract one,
/// 4 overwrites a byte with a random one, 5 deletes a block, 6 duplicates a
/// block in place, 7 inserts a dictionary token, 8 overwrites bytes with a
/// dictionary token.
pub open spec fn apply_operator(
    op: u64,
    r: StdRand,
    s: Seq<u8>,
    toks: Seq<Seq<u8>>,
    max_size: nat,
) -> (Seq<u8>, StdRand) {
    if op <= 4 {
        byte_operator(op, r, s)
    } else if op <= 6 {
        block_operator(op, r, s, max_size)
    } else {
        token_operator(op, r, s, toks, max_size)
    }
}

/// Operators 0 to 4, which change one byte in place.
pub open spec fn byte_operator(op: u64, r: StdRand, s: Seq<u8>) -> (Seq<u8>, StdRand) {
    let size = s.len();
    if size == 0 {
        (s, r)
    } else {
        let (pos, r1) = rand_below(r, size as u64);
        let b = s[pos as int];
        if op == 0 {
            let (bit, r2) = rand_below(r1, 8);
            (s.update(pos as int, b ^ ((1u8 << (bit as u8)) as u8)), r2)
        } else if op == 1 {
            (s.update(pos as int, !b), r1)
        } else if op == 2 {
            (s.update(pos as int, b.wrapping_add(1)), r1)
        } else if op == 3 {
            (s.update(pos as int, b.wrapping_sub(1)), r1)
        } else {
            let (v, r2) = rand_below(r1, 256);
            (s.update(pos as int, v as u8), r2)
        }
    }
}

/// Operators 5 and 6, which delete a block or duplicate it in place.
pub open spec fn block_operator(op: u64, r: StdRand, s: Seq<u8>, max_size: nat) -> (
    Seq<u8>,
    StdRand,
) {
    let size = s.len();
    if size == 0 {
        (s, r)
    } else {
        let (off, r1) = rand_below(r, size as u64);
        let (n0, r2) = rand_below(r1, (size - off) as u64);
        let n = n0 + 1;
        if op == 5 {
            (spliced(s, off as int, off + n, Seq::empty()), r2)
        } else if size + n > max_size {
            (s, r2)
        } else {
            (spliced(s, off as int, off as int, s.subrange(off as int, off + n)), r2)
        }
    }
}

/// Operators 7 and 8, which insert a dictionary token or overwrite bytes
/// with one.
pub open spec fn token_operator(
    op: u64,
    r: StdRand,
    s: Seq<u8>,
    toks: Seq<Seq<u8>>,
    max_size: nat,
) -> (Seq<u8>, StdRand) {
    let size = s.len();
    if toks.len() == 0 {
        (s, r)
    } else {
        let (k, r1) = rand_below(r, toks.len() as u64);
        let tok = toks[k as int];
        if op == 7 {
            let (pos, r2) = rand_below(r1, (size as u64).wrapping_add(1));
            if size + tok.len() > max_size {
                (s, r2)
            } else {
                (spliced(s, pos as int, pos as int, tok), r2)
            }
        } else if size == 0 {
            (s, r1)
        } else {
            let (pos, r2) = rand_below(r1, size as u64);
            let n = if tok.len() < size - pos {
                tok.len() as int
            } else {
                size - pos
            };
            (spliced(s, pos as int, pos + n, tok.subrange(0, n)), r2)
        }
    }
}

/// `count` operators, each drawn at random, applied one after another.
pub open spec fn havoc_stack(
    count: nat,
    r: StdRand,
    s: Seq<u8>,
    toks: Seq<Seq<u8>>,
    max_size: nat,
) -> (Seq<u8>, StdRand)
    decreases count,
{
    if count == 0 {
        (s, r)
    } else {
        let (s1, r1) = havoc_stack((count - 1) as nat, r, s, toks, max_size);
        let (op, r2) = rand_below(r1, NUM_OPERATORS);
        apply_operator(op, r2, s1, toks, max_size)
    }
}

/// One mutated candidate: a stack of `2^(1+k)` operators, `k` drawn below
/// `max_stack_pow`.
pub open spec fn mutated(
    r: StdRand,
    s: Seq<u8>,
    toks: Seq<Seq<u8>>,
    max_stack_pow: u64,
    max_size: nat,
) -> (Seq<u8>, StdRand) {
    let (k, r1) = rand_below(r, max_stack_pow);
    havoc_stack(pow2((k + 1) as nat), r1, s, toks, max_size)
}

/// Two to the power `k`.
pub open spec fn pow2(k: nat) -> nat
    decreases k,
{
    if k == 0 {
        1
    } else {
        2 * pow2((k - 1) as nat)
    }
}

/// `s` with `s[from..to]` replaced by `ins[..ins_len]`.
pub fn splice(s: &Vec<u8>, from: usize, to: usize, ins: &Vec<u8>, ins_len: usize) -> (r: Vec<u8>)
    requires
        from <= to <= s@.len(),
        ins_len <= ins@.len(),
    ensures
        r@ == spliced(s@, from as int, to as int, ins@.subrange(0, ins_len as int)),
{
    let mut r: Vec<u8> = Vec::new();
    let mut i: usize = 0;
    while i < from
        invariant
            i <= from <= to <= s@.len(),
            r@ == s@.subrange(0, i as int),
        decreases from - i,
    {
        r.push(s[i]);
        i = i + 1;
        assert(r@ =~= s@.subrange(0, i as int));
    }
    let mut j: usize = 0;
    while j < ins_len
        invariant
            from <= to <= s@.len(),
            ins_len <= ins@.len(),
            j <= ins_len,
            r@ == s@.subrange(0, from as int) + ins@.subrange(0, j as int),
        decreases ins_len - j,
    {
        r.push(ins[j]);
        j = j + 1;
        assert(r@ =~= s@.subrange(0, from as int) + ins@.subrange(0, j as int));
    }
    let mut k: usize = to;
    while k < s.len()
        invariant
            from <= to <= k <= s@.len(),
            ins_len <= ins@.len(),
            r@ == s@.subrange(0, from as int) + ins@.subrange(0, ins_len as int) + s@.subrange(
                to as int,
                k as int,
            ),
        decreases s@.len() - k,
    {
        r.push(s[k]);
        k = k + 1;
        assert(r@ =~= s@.subrange(0, from as int) + ins@.subrange(0, ins_len as int)
            + s@.subrange(to as int, k as int));
    }
    r
}

/// The bytes `s[from..to]`.
pub fn slice_copy(s: &Vec<u8>, from: usize, to: usize) -> (r: Vec<u8>)
    requires
        from <= to <= s@.len(),
    ensures
        r@ == s@.subrange(from as int, to as int),
{
    let mut r: Vec<u8> = Vec::new();
    let mut i: usize = from;
    while i < to
        invariant
            from <= i <= to <= s@.len(),
            r@ == s@.subrange(from as int, i as int),
        decreases to - i,
    {
        r.push(s[i]);
        i = i + 1;
        assert(r@ =~= s@.subrange(from as int, i as int));
    }
    r
}

/// Applies the elementary operator numbered `op` to `s`.
pub fn apply_operator_exec(
    op: u64,
    rng: &mut StdRand,
    s: Vec<u8>,
    toks: &Vec<Vec<u8>>,
    max_size: usize,
) -> (r: Vec<u8>)
    ensures
        (r@, *final(rng)) == apply_operator(op, *old(rng), s@, tokens_of(toks@), max_size as nat),
{
    if op <= 4 {
        byte_operator_exec(op, rng, s)
    } else if op <= 6 {
        block_operator_exec(op, rng, s, max_size)
    } else {
        token_operator_exec(op, rng, s, toks, max_size)
    }
}

fn byte_operator_exec(op: u64, rng: &mut StdRand, s: Vec<u8>) -> (r: Vec<u8>)
    ensures
        (r@, *final(rng)) == byte_operator(op, *old(rng), s@),
{
    let size = s.len();
    if size == 0 {
        s
    } else {
        let pos = rng.below(size as u64) as usize;
        let b = s[pos];
        let mut s = s;
        if op == 0 {
            let bit = rng.below(8);
            s[pos] = b ^ ((1u8 << (bit as u8)) as u8);
        } else if op == 1 {
            s[pos] = !b;
        } else if op == 2 {
            s[pos] = b.wrapping_add(1);
        } else if op == 3 {
            s[pos] = b.wrapping_sub(1);
        } else {
            let v = rng.below(256);
            s[pos] = v as u8;
        }
        s
    }
}

fn block_operator_exec(op: u64, rng: &mut StdRand, s: Vec<u8>, max_size: usize) -> (r: Vec<u8>)
    ensures
        (r@, *final(rng)) == block_operator(op, *old(rng), s@, max_size as nat),
{
    let size = s.len();
    if size == 0 {
        s
    } else {
        let off = rng.below(size as u64) as usize;
        let n0 = rng.below((size - off) as u64) as usize;
        let n = n0 + 1;
        if op == 5 {
            let empty: Vec<u8> = Vec::new();
            let r = splice(&s, off, off + n, &empty, 0);
            assert(empty@.subrange(0, 0) =~= Seq::<u8>::empty());
            r
        } else if n > max_size || size > max_size - n {
            s
        } else {
            let block = slice_copy(&s, off, off + n);
            let r = splice(&s, off, off, &block, n);
            assert(block@.subrange(0, n as int) =~= block@);
            r
        }
    }
}

fn token_operator_exec(
    op: u64,
    rng: &mut StdRand,
    s: Vec<u8>,
    toks: &Vec<Vec<u8>>,
    max_size: usize,
) -> (r: Vec<u8>)
    ensures
        (r@, *final(rng)) == token_operator(op, *old(rng), s@, tokens_of(toks@), max_size as nat),
{
    let ghost toks_model = tokens_of(toks@);
    let size = s.len();
    if toks.len() == 0 {
        s
    } else {
        let k = rng.below(toks.len() as u64) as usize;
        let tok = &toks[k];
        assert(tok@ == toks_model[k as int]);
        let tlen = tok.len();
        if op == 7 {
            let bound = (size as u64).wrapping_add(1);
            let pos = rng.below(bound) as usize;
            if tlen > max_size || size > max_size - tlen {
                s
            } else {
                let r = splice(&s, pos, pos, tok, tlen);
                assert(tok@.subrange(0, tlen as int) =~= tok@);
                r
            }
        } else if size == 0 {
            s
        } else {
            let pos = rng.below(size as u64) as usize;
            let n = if tlen < size - pos {
                tlen
            } else {
                size - pos
            };
            splice(&s, pos, pos + n, tok, n)
        }
    }
}

impl StdRand {
    /// Produces one mutated candidate from `input`: a stack of `2^(1+k)`
    /// randomly drawn operators, with `k` drawn below `max_stack_pow`.
    pub fn mutate(&mut self, input: &Vec<u8>, toks: &Vec<Vec<u8>>, max_stack_pow: u64, max_size: usize) -> (r:
        Vec<u8>)
        requires
            max_stack_pow <= 63,
        ensures
            (r@, *final(self)) == mutated(*old(self), input@, tokens_of(toks@), max_stack_pow, max_size as nat),
    {
        let k = self.below(max_stack_pow);
        let count = 1u64 << (k + 1);
        proof {
            lemma_shift_is_pow2((k + 1) as u64);
        }
        let ghost r0 = *self;
        let mut s = crate::engine::copy_bytes(input);
        let mut i: u64 = 0;
        while i < count
            invariant
                i <= count,
                (s@, *self) == havoc_stack(i as nat, r0, input@, tokens_of(toks@), max_size as nat),
            decreases count - i,
        {
            let op = self.below(NUM_OPERATORS);
            s = apply_operator_exec(op, self, s, toks, max_size);
            i = i + 1;
        }
        s
    }
}

proof fn lemma_shift_is_pow2(k: u64)
    requires
        k <= 63,
    ensures
        (1u64 << k) as nat == pow2(k as nat),
    decreases k,
{
    if k == 0 {
        assert(1u64 << 0u64 == 1u64) by (bit_vector);
    } else {
        lemma_shift_is_pow2((k - 1) as u64);
        assert(1u64 << k == 2 * (1u64 << ((k - 1) as u64))) by (bit_vector)
            requires
                0 < k <= 63,
        ;
    }
}

} // verus!
