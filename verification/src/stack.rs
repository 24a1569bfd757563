//! The target's initial stack image: argc, argv, and the null
//! terminators for argv, envp and auxp, laid out as the 64-bit
//! little-endian words the emulated process reads on entry.

use vstd::prelude::*;

use crate::syscalls::le_bytes64;

verus! {

/// The 64-bit words of the initial stack, from the stack pointer
/// upward: argc, the argv pointers, and three zero words terminating
/// argv, envp and auxp.
pub open spec fn stack_words(argv: Seq<u64>) -> Seq<u64> {
    seq![argv.len() as u64] + argv + seq![0u64, 0u64, 0u64]
}

/// Relies on `byteorder::LittleEndian::write_u64` (`ByteOrder`): stores
/// the value's eight little-endian bytes into the buffer.
#[verifier::external_body]
fn le_bytes_of_u64(v: u64) -> (r: Vec<u8>)
    ensures
        r@ == le_bytes64(v),
{
    let mut buf = vec![0u8; 8];
    <byteorder::LittleEndian as byteorder::ByteOrder>::write_u64(&mut buf, v);
    buf
}

/// Append one stack word's little-endian bytes.
fn append_word(out: &mut Vec<u8>, v: u64)
    ensures
        final(out)@ == old(out)@ + le_bytes64(v),
{
    let mut bytes = le_bytes_of_u64(v);
    out.append(&mut bytes);
}

/// Build the initial stack image for the given argv pointers: the bytes
/// to store at the final stack pointer, word `w` of [`stack_words`] at
/// offset `8 * w`.
pub fn initial_stack_data(argv: &Vec<u64>) -> (r: Vec<u8>)
    requires
        8 * (argv@.len() + 4) <= usize::MAX,
    ensures
        r@.len() == 8 * (argv@.len() + 4),
        forall|w: int|
            0 <= w < argv@.len() + 4 ==> r@.subrange(8 * w, 8 * w + 8) == le_bytes64(
                #[trigger] stack_words(argv@)[w],
            ),
{
    let mut out: Vec<u8> = Vec::new();
    append_word(&mut out, argv.len() as u64);
    proof {
        assert(out@.subrange(0, 8) =~= le_bytes64(stack_words(argv@)[0]));
    }
    let mut i: usize = 0;
    while i < argv.len()
        invariant
            0 <= i <= argv@.len(),
            8 * (argv@.len() + 4) <= usize::MAX,
            out@.len() == 8 * (i + 1),
            forall|w: int|
                0 <= w < i + 1 ==> out@.subrange(8 * w, 8 * w + 8) == le_bytes64(
                    #[trigger] stack_words(argv@)[w],
                ),
        decreases argv@.len() - i,
    {
        let ghost pre = out@;
        append_word(&mut out, argv[i]);
        proof {
            assert(argv@[i as int] == stack_words(argv@)[i + 1]);
            assert forall|w: int|
                0 <= w < i + 2 implies out@.subrange(8 * w, 8 * w + 8) == le_bytes64(
                #[trigger] stack_words(argv@)[w],
            ) by {
                if w < i + 1 {
                    assert(out@.subrange(8 * w, 8 * w + 8) =~= pre.subrange(8 * w, 8 * w + 8));
                } else {
                    assert(out@.subrange(8 * w, 8 * w + 8) =~= le_bytes64(argv@[i as int]));
                }
            }
        }
        i = i + 1;
    }
    let mut z: usize = 0;
    while z < 3
        invariant
            0 <= z <= 3,
            i == argv@.len(),
            8 * (argv@.len() + 4) <= usize::MAX,
            out@.len() == 8 * (argv@.len() + 1 + z),
            forall|w: int|
                0 <= w < argv@.len() + 1 + z ==> out@.subrange(8 * w, 8 * w + 8) == le_bytes64(
                    #[trigger] stack_words(argv@)[w],
                ),
        decreases 3 - z,
    {
        let ghost pre = out@;
        append_word(&mut out, 0);
        proof {
            assert(stack_words(argv@)[argv@.len() + 1 + z] == 0u64);
            assert forall|w: int|
                0 <= w < argv@.len() + 2 + z implies out@.subrange(8 * w, 8 * w + 8) == le_bytes64(
                #[trigger] stack_words(argv@)[w],
            ) by {
                if w < argv@.len() + 1 + z {
                    assert(out@.subrange(8 * w, 8 * w + 8) =~= pre.subrange(8 * w, 8 * w + 8));
                } else {
                    assert(out@.subrange(8 * w, 8 * w + 8) =~= le_bytes64(0u64));
                }
            }
        }
        z = z + 1;
    }
    out
}

} // verus!
