//! The input mutator: weighted random mutation strategies applied to a
//! candidate byte buffer.  The pseudo-random stream comes from outside
//! generators behind trusted wrappers that promise nothing of their
//! values, so every contract here holds for every random outcome.

use vstd::prelude::*;

use crate::config::bytes_clone;

verus! {

/// The fast generator driving the mutation choices.
#[verifier::external_type_specification]
#[verifier::external_body]
pub struct ExXoroshiro64Star(rand_xoshiro::Xoroshiro64Star);

/// The OS-seeded generator used once, to seed the fast one.
#[verifier::external_type_specification]
#[verifier::external_body]
pub struct ExThreadRng(rand::rngs::ThreadRng);

/// Relies on `rand::thread_rng`: a handle to the OS-seeded generator.
/// Nothing is assumed of it.
#[verifier::external_body]
fn os_rng() -> (r: rand::rngs::ThreadRng) {
    rand::thread_rng()
}

/// Relies on `rand::Rng::gen`: a pseudo-random value.  Nothing is
/// assumed of the result.
#[verifier::external_body]
fn os_rng_u64(rng: &mut rand::rngs::ThreadRng) -> (r: u64) {
    rand::Rng::gen(rng)
}

/// Relies on `Xoroshiro64Star::seed_from_u64` (`SeedableRng`): builds a
/// generator state from the seed.  Nothing is assumed of it.
#[verifier::external_body]
fn xoro_from_seed(seed: u64) -> (r: rand_xoshiro::Xoroshiro64Star) {
    <rand_xoshiro::Xoroshiro64Star as rand_xoshiro::rand_core::SeedableRng>::seed_from_u64(seed)
}

/// Relies on `RngCore::next_u64` on `Xoroshiro64Star`: the next
/// pseudo-random value.  Nothing is assumed of the result.
#[verifier::external_body]
fn xoro_next_u64(rng: &mut rand_xoshiro::Xoroshiro64Star) -> (r: u64) {
    rand_xoshiro::rand_core::RngCore::next_u64(rng)
}

/// Relies on `RngCore::next_u32` on `Xoroshiro64Star`: the next
/// pseudo-random value.  Nothing is assumed of the result.
#[verifier::external_body]
fn xoro_next_u32(rng: &mut rand_xoshiro::Xoroshiro64Star) -> (r: u32) {
    rand_xoshiro::rand_core::RngCore::next_u32(rng)
}

/// Different mutations this mutator supports.
#[derive(Copy, Clone, Debug, Eq, PartialEq, Structural)]
pub enum Mutation {
    ByteReplace,
    BitFlip,
    MagicNum,
    SimpleArithmetic,
    RemoveBlock,
    DupBlock,
    Resize,
    Dictionary,
}

/// The strategy stored at each slot of the weight table: the weights are
/// expressed by repetition, so one uniform draw picks proportionally.
pub open spec fn strat_at(i: int) -> Mutation {
    if i < 1000 {
        Mutation::ByteReplace
    } else if i < 2000 {
        Mutation::BitFlip
    } else if i < 2200 {
        Mutation::MagicNum
    } else if i < 2700 {
        Mutation::SimpleArithmetic
    } else if i < 2730 {
        Mutation::RemoveBlock
    } else if i < 2760 {
        Mutation::DupBlock
    } else if i < 2770 {
        Mutation::Resize
    } else {
        Mutation::Dictionary
    }
}

/// Append `n` copies of a strategy to the weight table.
fn push_repeat(v: &mut Vec<Mutation>, m: Mutation, n: usize)
    requires
        old(v)@.len() + n <= usize::MAX,
    ensures
        final(v)@.len() == old(v)@.len() + n,
        forall|i: int| 0 <= i < old(v)@.len() ==> final(v)@[i] == old(v)@[i],
        forall|i: int| old(v)@.len() <= i < final(v)@.len() ==> final(v)@[i] == m,
{
    let mut k: usize = 0;
    while k < n
        invariant
            0 <= k <= n,
            v@.len() == old(v)@.len() + k,
            forall|i: int| 0 <= i < old(v)@.len() ==> v@[i] == old(v)@[i],
            forall|i: int| old(v)@.len() <= i < v@.len() ==> v@[i] == m,
        decreases n - k,
    {
        v.push(m);
        k = k + 1;
    }
}

/// One of the thirteen byte patterns likely to trip edge conditions:
/// zeroes, all-ones, and signed maxima of the common integer widths.
pub open spec fn magic_entry(k: int) -> Seq<u8> {
    if k == 0 {
        seq![0x00u8]
    } else if k == 1 {
        seq![0x00u8, 0x00u8]
    } else if k == 2 {
        seq![0x00u8, 0x00u8, 0x00u8, 0x00u8]
    } else if k == 3 {
        seq![0x00u8, 0x00u8, 0x00u8, 0x00u8, 0x00u8, 0x00u8, 0x00u8, 0x00u8]
    } else if k == 4 {
        seq![0xffu8]
    } else if k == 5 {
        seq![0xffu8, 0xffu8]
    } else if k == 6 {
        seq![0xffu8, 0xffu8, 0xffu8, 0xffu8]
    } else if k == 7 {
        seq![0xffu8, 0xffu8, 0xffu8, 0xffu8, 0xffu8, 0xffu8, 0xffu8, 0xffu8]
    } else if k == 8 {
        seq![0x7fu8]
    } else if k == 9 {
        seq![0x7fu8, 0xffu8]
    } else if k == 10 {
        seq![0x7fu8, 0xffu8, 0xffu8, 0xffu8]
    } else if k == 11 {
        seq![0x7fu8, 0xffu8, 0xffu8, 0xffu8, 0xffu8, 0xffu8, 0xffu8, 0xffu8]
    } else {
        seq![0x01u8, 0x00u8, 0x00u8]
    }
}

/// Build the magic pattern `k`.
fn magic_entry_vec(k: usize) -> (r: Vec<u8>)
    requires
        k < 13,
    ensures
        r@ == magic_entry(k as int),
        1 <= r@.len() <= 8,
{
    let r: Vec<u8> = if k == 0 {
        vec![0x00u8]
    } else if k == 1 {
        vec![0x00u8, 0x00u8]
    } else if k == 2 {
        vec![0x00u8, 0x00u8, 0x00u8, 0x00u8]
    } else if k == 3 {
        vec![0x00u8, 0x00u8, 0x00u8, 0x00u8, 0x00u8, 0x00u8, 0x00u8, 0x00u8]
    } else if k == 4 {
        vec![0xffu8]
    } else if k == 5 {
        vec![0xffu8, 0xffu8]
    } else if k == 6 {
        vec![0xffu8, 0xffu8, 0xffu8, 0xffu8]
    } else if k == 7 {
        vec![0xffu8, 0xffu8, 0xffu8, 0xffu8, 0xffu8, 0xffu8, 0xffu8, 0xffu8]
    } else if k == 8 {
        vec![0x7fu8]
    } else if k == 9 {
        vec![0x7fu8, 0xffu8]
    } else if k == 10 {
        vec![0x7fu8, 0xffu8, 0xffu8, 0xffu8]
    } else if k == 11 {
        vec![0x7fu8, 0xffu8, 0xffu8, 0xffu8, 0xffu8, 0xffu8, 0xffu8, 0xffu8]
    } else {
        vec![0x01u8, 0x00u8, 0x00u8]
    };
    proof {
        assert(r@ =~= magic_entry(k as int));
    }
    r
}

/// A simple mutator that implements the mutations listed in
/// [`Mutation`].
pub struct Mutator {
    /// Fast generator feeding every mutation choice.
    pub rng: rand_xoshiro::Xoroshiro64Star,
    /// Available mutation strategies, weighted by repetition.
    pub mutation_strats: Vec<Mutation>,
    /// Count-down to havoc mode.
    pub havoc_counter: usize,
    /// Optional dictionary entries, each applied as a byte replacement.
    pub dictionary: Option<Vec<Vec<u8>>>,
}

impl Mutator {
    /// The weight table is non-empty, the dictionary strategy only
    /// appears when a dictionary exists, and the havoc countdown stays
    /// in range.
    pub open spec fn wf(self) -> bool {
        &&& self.mutation_strats@.len() > 0
        &&& (forall|i: int|
            0 <= i < self.mutation_strats@.len() && #[trigger] self.mutation_strats@[i]
                == Mutation::Dictionary ==> self.dictionary is Some)
        &&& self.havoc_counter < 100
    }

    /// Everything but the generator state is the same.
    pub open spec fn same_but_rng(pre: Mutator, post: Mutator) -> bool {
        &&& post.mutation_strats@ == pre.mutation_strats@
        &&& post.havoc_counter == pre.havoc_counter
        &&& post.dictionary == pre.dictionary
    }

    /// Initialize a mutator: the strategy table carries each mutation
    /// with its weight, the dictionary strategy joins only when a
    /// dictionary was provided, and the fast generator is seeded from
    /// the OS-seeded one.
    pub fn new(dictionary: Option<Vec<Vec<u8>>>) -> (r: Mutator)
        ensures
            r.wf(),
            r.havoc_counter == 0,
            r.dictionary == dictionary,
            r.mutation_strats@.len() == 2770 + (if dictionary is Some {
                30int
            } else {
                0int
            }),
            forall|i: int|
                0 <= i < r.mutation_strats@.len() ==> r.mutation_strats@[i] == strat_at(i),
    {
        let mut mut_strats: Vec<Mutation> = Vec::new();
        push_repeat(&mut mut_strats, Mutation::ByteReplace, 1000);
        push_repeat(&mut mut_strats, Mutation::BitFlip, 1000);
        push_repeat(&mut mut_strats, Mutation::MagicNum, 200);
        push_repeat(&mut mut_strats, Mutation::SimpleArithmetic, 500);
        push_repeat(&mut mut_strats, Mutation::RemoveBlock, 30);
        push_repeat(&mut mut_strats, Mutation::DupBlock, 30);
        push_repeat(&mut mut_strats, Mutation::Resize, 10);
        if dictionary.is_some() {
            push_repeat(&mut mut_strats, Mutation::Dictionary, 30);
        }
        // Seed the fast generator once from the OS-seeded one; only the
        // fast generator runs on the hot path.
        let mut seeder = os_rng();
        let seed = os_rng_u64(&mut seeder);
        Mutator {
            rng: xoro_from_seed(seed),
            mutation_strats: mut_strats,
            havoc_counter: 0,
            dictionary,
        }
    }

    /// Return 2 random 32-bit values as word-sized integers.
    fn get2_rand(&mut self) -> (r: (usize, usize))
        ensures
            Mutator::same_but_rng(*old(self), *final(self)),
            r.0 <= 0xffff_ffff,
            r.1 <= 0xffff_ffff,
    {
        let tmp = xoro_next_u64(&mut self.rng);
        let a = (tmp & 0xffffffff) as usize;
        let b = (tmp >> 32) as usize;
        proof {
            assert((tmp & 0xffffffff) <= 0xffffffff && (tmp >> 32) <= 0xffffffff) by (bit_vector);
        }
        (a, b)
    }

    /// Choose a set of random bytes and overwrite them.  Small
    /// corruptions are preferred over large ones.  Inputs shorter than 4
    /// bytes are left alone.
    pub fn byte_replace(&mut self, input: &mut Vec<u8>) -> (r: Result<(), ()>)
        ensures
            Mutator::same_but_rng(*old(self), *final(self)),
            r is Err <==> old(input)@.len() < 4,
            r is Err ==> final(input)@ == old(input)@,
            r is Ok ==> final(input)@.len() == old(input)@.len(),
            r is Ok ==> final(input)@.len() >= 1,
    {
        let input_length = input.len();
        if input_length < 4 {
            return Err(());
        }
        let (r1, r2) = self.get2_rand();
        let count = if (r1 % 1000) < 950 {
            r2 % 32
        } else {
            64 + (r2 % 64)
        };
        let mut k: usize = 0;
        while k < count
            invariant
                Mutator::same_but_rng(*old(self), *self),
                input@.len() == input_length,
                input_length >= 4,
            decreases count - k,
        {
            let (p, v) = self.get2_rand();
            input[p % input_length] = v as u8;
            k = k + 1;
        }
        Ok(())
    }

    /// Flip some random bits in the input.  Inputs shorter than 4 bytes
    /// are left alone.
    pub fn bit_flip(&mut self, input: &mut Vec<u8>) -> (r: Result<(), ()>)
        ensures
            Mutator::same_but_rng(*old(self), *final(self)),
            r is Err <==> old(input)@.len() < 4,
            r is Err ==> final(input)@ == old(input)@,
            r is Ok ==> final(input)@.len() == old(input)@.len(),
            r is Ok ==> final(input)@.len() >= 1,
    {
        let input_length = input.len();
        if input_length < 4 {
            return Err(());
        }
        let (r1, r2) = self.get2_rand();
        let count = if (r1 % 1000) < 950 {
            r2 % 32
        } else {
            64 + (r2 % 64)
        };
        let mut k: usize = 0;
        while k < count
            invariant
                Mutator::same_but_rng(*old(self), *self),
                input@.len() == input_length,
                input_length >= 4,
            decreases count - k,
        {
            let (b, p) = self.get2_rand();
            let bit_idx = b % 8;
            let j = p % input_length;
            input[j] = input[j] ^ (1u8 << bit_idx);
            k = k + 1;
        }
        Ok(())
    }

    /// Replace the input's tail from a random position with one of the
    /// magic byte patterns.  Inputs shorter than 32 bytes are left
    /// alone.
    pub fn magic_nums(&mut self, input: &mut Vec<u8>) -> (r: Result<(), ()>)
        ensures
            Mutator::same_but_rng(*old(self), *final(self)),
            r is Err <==> old(input)@.len() < 32,
            r is Err ==> final(input)@ == old(input)@,
            r is Ok ==> exists|s: int, k: int|
                0 <= s < old(input)@.len() - 8 && 0 <= k < 13 && final(input)@ == old(input)@.take(s) + magic_entry(k),
            r is Ok ==> 1 <= final(input)@.len() < old(input)@.len(),
    {
        if input.len() < 32 {
            return Err(());
        }
        let (r1, r2) = self.get2_rand();
        let splice_start = r1 % (input.len() - 8);
        let k = r2 % 13;
        let mut entry = magic_entry_vec(k);
        let ghost pre = input@;
        input.truncate(splice_start);
        proof {
            assert(input@ =~= pre.take(splice_start as int));
        }
        input.append(&mut entry);
        Ok(())
    }

    /// Add or subtract small values at random positions, hunting for
    /// integer over- and underflows.  Inputs shorter than 4 bytes are
    /// left alone.
    pub fn simple_arithmetic(&mut self, input: &mut Vec<u8>) -> (r: Result<(), ()>)
        ensures
            Mutator::same_but_rng(*old(self), *final(self)),
            r is Err <==> old(input)@.len() < 4,
            r is Err ==> final(input)@ == old(input)@,
            r is Ok ==> final(input)@.len() == old(input)@.len(),
            r is Ok ==> final(input)@.len() >= 1,
    {
        let input_length = input.len();
        if input_length < 4 {
            return Err(());
        }
        let (r1, r2) = self.get2_rand();
        let count = if (r1 % 1000) < 950 {
            r2 % 32
        } else {
            64 + (r2 % 64)
        };
        let mut k: usize = 0;
        while k < count
            invariant
                Mutator::same_but_rng(*old(self), *self),
                input@.len() == input_length,
                input_length >= 4,
            decreases count - k,
        {
            let (p, v) = self.get2_rand();
            let j = p % input_length;
            if k & 1 == 0 {
                input[j] = input[j].wrapping_add((v % 32) as u8);
            } else {
                input[j] = input[j].wrapping_sub((v % 32) as u8);
            }
            k = k + 1;
        }
        Ok(())
    }

    /// Remove a random block of the input.  Refused when the input is
    /// already small or would become smaller than 32 bytes.
    pub fn remove_block(&mut self, input: &mut Vec<u8>) -> (r: Result<(), ()>)
        ensures
            Mutator::same_but_rng(*old(self), *final(self)),
            old(input)@.len() < 32 ==> r is Err,
            r is Err ==> final(input)@ == old(input)@,
            r is Ok ==> exists|s: int, e: int|
                0 <= s <= e <= old(input)@.len() && final(input)@ == old(input)@.take(s) + old(input)@.skip(e),
            r is Ok ==> 32 <= final(input)@.len() <= old(input)@.len(),
    {
        let input_length = input.len();
        if input_length < 32 {
            return Err(());
        }
        let (r1, r2) = self.get2_rand();
        let start = r1 % input_length;
        let span = if input_length - start < r2 % 512 {
            input_length - start
        } else {
            r2 % 512
        };
        let end = start + span;
        // Refuse this mutation if the input would end up too small.
        if input_length - span < 32 {
            return Err(());
        }
        let mut out: Vec<u8> = Vec::new();
        let mut j: usize = 0;
        while j < start
            invariant
                0 <= j <= start,
                start <= input@.len(),
                out@ == input@.subrange(0, j as int),
            decreases start - j,
        {
            out.push(input[j]);
            proof {
                assert(out@ =~= input@.subrange(0, j + 1));
            }
            j = j + 1;
        }
        let mut j2: usize = end;
        while j2 < input_length
            invariant
                end <= j2 <= input_length,
                input_length == input@.len(),
                start <= end,
                out@ == input@.subrange(0, start as int) + input@.subrange(end as int, j2 as int),
            decreases input_length - j2,
        {
            out.push(input[j2]);
            proof {
                assert(out@ =~= input@.subrange(0, start as int) + input@.subrange(
                    end as int,
                    j2 + 1,
                ));
            }
            j2 = j2 + 1;
        }
        proof {
            assert(input@.subrange(0, start as int) =~= input@.take(start as int));
            assert(input@.subrange(end as int, input@.len() as int) =~= input@.skip(end as int));
        }
        *input = out;
        Ok(())
    }

    /// Duplicate a random block of the input into a random position.
    /// Inputs shorter than 32 bytes are left alone.
    pub fn duplicate_block(&mut self, input: &mut Vec<u8>) -> (r: Result<(), ()>)
        ensures
            Mutator::same_but_rng(*old(self), *final(self)),
            r is Err <==> old(input)@.len() < 32,
            r is Err ==> final(input)@ == old(input)@,
            r is Ok ==> exists|s: int, e: int, p: int|
                0 <= s <= e <= old(input)@.len() && 0 <= p <= old(input)@.len() && final(input)@
                    == old(input)@.take(p) + old(input)@.subrange(s, e) + old(input)@.skip(p),
            r is Ok ==> 32 <= old(input)@.len() <= final(input)@.len(),
    {
        let input_length = input.len();
        if input_length < 32 {
            return Err(());
        }
        let (r1, r2) = self.get2_rand();
        let start = r1 % input_length;
        let span = if input_length - start < r2 % 128 {
            input_length - start
        } else {
            r2 % 128
        };
        let end = start + span;
        // Choose a random location to insert the duplicated block into.
        let idx = (xoro_next_u32(&mut self.rng) as usize) % input_length;
        let mut out: Vec<u8> = Vec::new();
        let mut j: usize = 0;
        while j < idx
            invariant
                0 <= j <= idx,
                idx <= input@.len(),
                out@ == input@.subrange(0, j as int),
            decreases idx - j,
        {
            out.push(input[j]);
            proof {
                assert(out@ =~= input@.subrange(0, j + 1));
            }
            j = j + 1;
        }
        let mut j2: usize = start;
        while j2 < end
            invariant
                start <= j2 <= end,
                end <= input@.len(),
                idx <= input@.len(),
                out@ == input@.subrange(0, idx as int) + input@.subrange(start as int, j2 as int),
            decreases end - j2,
        {
            out.push(input[j2]);
            proof {
                assert(out@ =~= input@.subrange(0, idx as int) + input@.subrange(
                    start as int,
                    j2 + 1,
                ));
            }
            j2 = j2 + 1;
        }
        let mut j3: usize = idx;
        while j3 < input_length
            invariant
                idx <= j3 <= input_length,
                input_length == input@.len(),
                start <= end <= input@.len(),
                out@ == input@.subrange(0, idx as int) + input@.subrange(start as int, end as int)
                    + input@.subrange(idx as int, j3 as int),
            decreases input_length - j3,
        {
            out.push(input[j3]);
            proof {
                assert(out@ =~= input@.subrange(0, idx as int) + input@.subrange(
                    start as int,
                    end as int,
                ) + input@.subrange(idx as int, j3 + 1));
            }
            j3 = j3 + 1;
        }
        proof {
            assert(input@.subrange(0, idx as int) =~= input@.take(idx as int));
            assert(input@.subrange(idx as int, input@.len() as int) =~= input@.skip(idx as int));
        }
        *input = out;
        Ok(())
    }

    /// Resize the input: either truncate it or append random bytes.
    /// Refused when a truncation would leave fewer than 32 bytes.
    pub fn resize(&mut self, input: &mut Vec<u8>) -> (r: Result<(), ()>)
        ensures
            Mutator::same_but_rng(*old(self), *final(self)),
            r is Err ==> final(input)@ == old(input)@,
            r is Ok ==> final(input)@.len() >= 32,
            r is Ok ==> (exists|t: int|
                32 <= t <= old(input)@.len() && final(input)@ == old(input)@.take(t)) || (final(input)@.len() >= old(input)@.len() && final(input)@.subrange(0, old(input)@.len() as int)
                == old(input)@),
    {
        let input_length = input.len();
        let (r1, r2) = self.get2_rand();
        if r1 & 1 == 0 {
            // Truncate.
            if input_length < 32 {
                return Err(());
            }
            let trunc_val = (r2 % (input_length / 2)) % 512;
            // Refuse this mutation if the input would end up too small.
            if trunc_val < 32 {
                return Err(());
            }
            let ghost pre = input@;
            input.truncate(trunc_val);
            proof {
                assert(input@ =~= pre.take(trunc_val as int));
            }
            Ok(())
        } else {
            // Increase the size with random bytes.
            let size = if input_length < 32 {
                32
            } else {
                (r2 % (input_length / 2)) % 512
            };
            let words = size / 8;
            let ghost pre = input@;
            let mut k: usize = 0;
            while k < words
                invariant
                    Mutator::same_but_rng(*old(self), *self),
                    0 <= k <= words,
                    input@.len() == pre.len() + 8 * k,
                    input@.subrange(0, pre.len() as int) == pre,
                decreases words - k,
            {
                let v = xoro_next_u64(&mut self.rng);
                let ghost mid = input@;
                crate::syscalls::push_u64_le(input, v);
                proof {
                    assert(input@.subrange(0, pre.len() as int) =~= mid.subrange(
                        0,
                        pre.len() as int,
                    ));
                }
                k = k + 1;
            }
            if input_length < 32 {
                proof {
                    assert(words == 4 && input@.len() == pre.len() + 32);
                }
            }
            Ok(())
        }
    }

    /// Replace some of the input bytes with a dictionary entry.  Refused
    /// when the entry does not fit strictly inside the input.
    pub fn dict_replace(&mut self, input: &mut Vec<u8>) -> (r: Result<(), ()>)
        requires
            old(self).dictionary is Some,
        ensures
            Mutator::same_but_rng(*old(self), *final(self)),
            r is Err ==> final(input)@ == old(input)@,
            r is Ok ==> exists|d: int, p: int|
                #![trigger old(self).dictionary->Some_0@[d], old(input)@.take(p)]
                ({
                    let dict = old(self).dictionary->Some_0@;
                    &&& 0 <= d < dict.len()
                    &&& 0 <= p
                    &&& p + dict[d]@.len() <= old(input)@.len()
                    &&& final(input)@ == old(input)@.take(p) + dict[d]@ + old(input)@.skip(
                        p + dict[d]@.len(),
                    )
                }),
            r is Ok ==> final(input)@.len() == old(input)@.len() && final(input)@.len() >= 1,
    {
        let dict_len = match &self.dictionary {
            Some(d) => d.len(),
            None => 0,
        };
        if dict_len == 0 {
            return Err(());
        }
        let dict_idx = (xoro_next_u32(&mut self.rng) as usize) % dict_len;
        let pos_seed = xoro_next_u64(&mut self.rng) as usize;
        let entry = match &self.dictionary {
            Some(d) => bytes_clone(&d[dict_idx]),
            None => Vec::new(),
        };
        if input.len() <= entry.len() {
            return Err(());
        }
        let input_idx = pos_seed % (input.len() - entry.len());
        let ilen = input.len();
        let mut j: usize = 0;
        let ghost pre = input@;
        while j < entry.len()
            invariant
                0 <= j <= entry@.len(),
                input_idx + entry@.len() < ilen,
                input@.len() == ilen,
                pre.len() == ilen,
                forall|q: int| 0 <= q < input_idx ==> input@[q] == pre[q],
                forall|q: int| 0 <= q < j ==> input@[input_idx + q] == entry@[q],
                forall|q: int| input_idx + entry@.len() <= q < pre.len() ==> input@[q] == pre[q],
            decreases entry@.len() - j,
        {
            input[input_idx + j] = entry[j];
            j = j + 1;
        }
        proof {
            assert(input@ =~= pre.take(input_idx as int) + entry@ + pre.skip(
                input_idx + entry@.len(),
            ));
        }
        Ok(())
    }

    /// Choose a random mutation strategy from the weight table.
    fn chose_mut(&mut self) -> (r: Mutation)
        requires
            old(self).mutation_strats@.len() > 0,
        ensures
            Mutator::same_but_rng(*old(self), *final(self)),
            old(self).mutation_strats@.contains(r),
    {
        let tmp_rand = (xoro_next_u32(&mut self.rng) as usize) % self.mutation_strats.len();
        let r = self.mutation_strats[tmp_rand];
        proof {
            assert(old(self).mutation_strats@[tmp_rand as int] == r);
        }
        r
    }

    /// Apply one queued mutation, retrying with freshly chosen
    /// strategies a bounded number of times when one refuses the input.
    fn apply_one(&mut self, input: &mut Vec<u8>, first: Mutation)
        requires
            old(self).wf(),
            old(self).mutation_strats@.contains(first),
        ensures
            final(self).wf(),
            Mutator::same_but_rng(*old(self), *final(self)),
            final(input)@.len() >= 1 || final(input)@ == old(input)@,
    {
        let mut mutation = first;
        let mut attempts: usize = 0;
        while attempts < 8
            invariant
                0 <= attempts <= 8,
                self.wf(),
                Mutator::same_but_rng(*old(self), *self),
                self.mutation_strats@.contains(mutation),
                input@.len() >= 1 || input@ == old(input)@,
            decreases 8 - attempts,
        {
            let res = match mutation {
                Mutation::ByteReplace => self.byte_replace(input),
                Mutation::BitFlip => self.bit_flip(input),
                Mutation::MagicNum => self.magic_nums(input),
                Mutation::SimpleArithmetic => self.simple_arithmetic(input),
                Mutation::RemoveBlock => self.remove_block(input),
                Mutation::DupBlock => self.duplicate_block(input),
                Mutation::Resize => self.resize(input),
                Mutation::Dictionary => self.dict_replace(input),
            };
            if res.is_ok() {
                return ;
            }
            mutation = self.chose_mut();
            attempts = attempts + 1;
        }
    }

    /// Apply the implemented mutation strategies to the input.  Usually
    /// one mutation runs per case; every hundredth case enters havoc
    /// mode and queues several mutations at once.  A strategy that
    /// refuses the input (too small, no room) is retried with a fresh
    /// choice a bounded number of times; an input the mutator did touch
    /// is never left empty.
    pub fn mutate(&mut self, input: &mut Vec<u8>)
        requires
            old(self).wf(),
        ensures
            final(self).wf(),
            final(self).mutation_strats@ == old(self).mutation_strats@,
            final(self).dictionary == old(self).dictionary,
            final(self).havoc_counter == (if old(self).havoc_counter + 1 == 100 {
                0int
            } else {
                old(self).havoc_counter as int + 1
            }),
            final(input)@.len() >= 1 || final(input)@ == old(input)@,
    {
        let mut muts: Vec<Mutation> = Vec::new();
        self.havoc_counter = self.havoc_counter + 1;

        // Usually only perform 1 mutation, but when havoc hits, queue up
        // multiple mutations onto this case's input.
        if self.havoc_counter == 100 {
            self.havoc_counter = 0;
            let n = (xoro_next_u32(&mut self.rng) % 8) as usize;
            let mut c: usize = 1;
            while c < n
                invariant
                    Mutator::same_but_rng(*old(self), *self) || self.havoc_counter == 0,
                    self.mutation_strats@ == old(self).mutation_strats@,
                    self.dictionary == old(self).dictionary,
                    self.havoc_counter == 0,
                    old(self).wf(),
                    self.wf(),
                    forall|q: int| 0 <= q < muts@.len() ==> self.mutation_strats@.contains(
                        #[trigger] muts@[q],
                    ),
                decreases n - c,
            {
                let m = self.chose_mut();
                muts.push(m);
                c = c + 1;
            }
        } else {
            let m = self.chose_mut();
            muts.push(m);
        }
        let ghost havoc_after = self.havoc_counter;
        let mut k: usize = 0;
        while k < muts.len()
            invariant
                0 <= k <= muts@.len(),
                self.wf(),
                self.mutation_strats@ == old(self).mutation_strats@,
                self.dictionary == old(self).dictionary,
                self.havoc_counter == havoc_after,
                forall|q: int| 0 <= q < muts@.len() ==> self.mutation_strats@.contains(
                    #[trigger] muts@[q],
                ),
                input@.len() >= 1 || input@ == old(input)@,
            decreases muts@.len() - k,
        {
            let m = muts[k];
            self.apply_one(input, m);
            k = k + 1;
        }
    }
}

impl Default for Mutator {
    /// A mutator with no dictionary.
    fn default() -> (r: Mutator)
        ensures
            r.wf(),
            r.havoc_counter == 0,
            r.dictionary is None,
    {
        Mutator::new(None)
    }
}

/// `i` is the position of the first line-feed byte of `s`, or the
/// length when there is none.
pub open spec fn first_nl(s: Seq<u8>) -> int
    decreases s.len(),
{
    if s.len() == 0 {
        0
    } else if s[0] == 0x0a {
        0
    } else {
        1 + first_nl(s.subrange(1, s.len() as int))
    }
}

/// A line with a trailing carriage return removed.
pub open spec fn strip_cr(l: Seq<u8>) -> Seq<u8> {
    if l.len() > 0 && l[l.len() - 1] == 0x0d {
        l.take(l.len() - 1)
    } else {
        l
    }
}

/// The contents of a text file split into lines: each line-feed ends a
/// line, a carriage return before it is dropped, and a final unfinished
/// line still counts.
pub open spec fn split_lines(s: Seq<u8>) -> Seq<Seq<u8>>
    decreases s.len(),
{
    if s.len() == 0 {
        Seq::<Seq<u8>>::empty()
    } else {
        let i = first_nl(s);
        if 0 <= i < s.len() {
            seq![strip_cr(s.subrange(0, i))] + split_lines(s.subrange(i + 1, s.len() as int))
        } else {
            seq![strip_cr(s)]
        }
    }
}

/// The byte sequences a vector of line buffers holds.
pub open spec fn lines_view(v: Seq<Vec<u8>>) -> Seq<Seq<u8>> {
    v.map_values(|l: Vec<u8>| l@)
}

/// `first_nl` is exactly the index of the first line feed.
proof fn lemma_first_nl(s: Seq<u8>, i: int)
    requires
        0 <= i <= s.len(),
        forall|j: int| 0 <= j < i ==> s[j] != 0x0a,
        i < s.len() ==> s[i] == 0x0a,
    ensures
        first_nl(s) == i,
    decreases i,
{
    if s.len() == 0 {
    } else if i == 0 {
    } else {
        lemma_first_nl(s.subrange(1, s.len() as int), i - 1);
    }
}

/// Parse a provided dictionary's contents into its entries, one per
/// line.
pub fn parse_dict(data: &Vec<u8>) -> (r: Vec<Vec<u8>>)
    ensures
        lines_view(r@) == split_lines(data@),
{
    let n = data.len();
    let mut out: Vec<Vec<u8>> = Vec::new();
    let mut p: usize = 0;
    proof {
        assert(data@.subrange(0, n as int) =~= data@);
        assert(lines_view(out@) =~= Seq::<Seq<u8>>::empty());
    }
    while p < n
        invariant
            0 <= p <= n,
            n == data@.len(),
            split_lines(data@) == lines_view(out@) + split_lines(data@.subrange(p as int, n as int)),
        decreases n - p,
    {
        // Find the end of the current line.
        let mut q: usize = p;
        while q < n && data[q] != 0x0a
            invariant
                p <= q <= n,
                n == data@.len(),
                forall|j: int| p <= j < q ==> data@[j] != 0x0a,
            decreases n - q,
        {
            q = q + 1;
        }
        // Copy the line, dropping a trailing carriage return.
        let line_end = if q > p && data[q - 1] == 0x0d {
            q - 1
        } else {
            q
        };
        let mut line: Vec<u8> = Vec::new();
        let mut j: usize = p;
        while j < line_end
            invariant
                p <= j <= line_end,
                line_end <= n,
                n == data@.len(),
                line@ == data@.subrange(p as int, j as int),
            decreases line_end - j,
        {
            line.push(data[j]);
            proof {
                assert(line@ =~= data@.subrange(p as int, j + 1));
            }
            j = j + 1;
        }
        proof {
            let rem = data@.subrange(p as int, n as int);
            lemma_first_nl(rem, q - p);
            assert(strip_cr(rem.subrange(0, q - p)) =~= line@) by {
                assert(rem.subrange(0, q - p) =~= data@.subrange(p as int, q as int));
                if q > p && data@[q - 1] == 0x0d {
                    assert(strip_cr(data@.subrange(p as int, q as int)) =~= data@.subrange(
                        p as int,
                        q - 1,
                    ));
                }
            }
            if q < n {
                assert(rem.subrange(q - p + 1, rem.len() as int) =~= data@.subrange(
                    q + 1,
                    n as int,
                ));
            } else {
                assert(strip_cr(rem) =~= line@) by {
                    assert(rem.subrange(0, q - p) =~= rem);
                }
            }
            assert(lines_view(out@.push(line)) =~= lines_view(out@).push(line@));
        }
        out.push(line);
        if q < n {
            p = q + 1;
        } else {
            p = n;
        }
    }
    proof {
        assert(split_lines(data@.subrange(n as int, n as int)) =~= Seq::<Seq<u8>>::empty());
        assert(split_lines(data@) =~= lines_view(out@));
    }
    out
}

} // verus!
