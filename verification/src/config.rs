//! Run configuration: the command-line options as plain values, the
//! fuzz-input path they determine, and the compile-time sizing shared by
//! the instrumentation.

use vstd::prelude::*;

use crate::bytes_eq;

verus! {

/// Number of byte slots in the shared coverage map.
pub const COVMAP_SIZE: usize = 65536;

/// Which libc flavour the target links: the allocator hooks mimic that
/// libc's allocation-size alignment.
#[derive(Debug, Copy, Clone, Eq, PartialEq, Structural)]
pub enum LibcOpt {
    /// uclibc-style allocator: sizes gain a header field and 8-byte
    /// alignment before they reach the allocator.
    LibUc,
    /// No extra size adjustment.
    Standard,
}

/// Command-line options, as plain values.  Argument strings travel as
/// byte vectors: the path comparison the harness performs is byte-wise.
#[derive(Debug, Clone, Eq, PartialEq)]
pub struct Cli {
    /// Print version information.
    pub version: bool,
    /// Print help information.
    pub help: bool,
    /// Enable a rolling debug-print instead of the default print-window.
    pub debug_print: bool,
    /// File extension for the fuzz test input file, if the target
    /// requires one.
    pub extension: Option<Vec<u8>>,
    /// Address at which to snapshot the target and fork future cases.
    pub snapshot: Option<Vec<u8>>,
    /// The target to be fuzzed alongside its arguments.
    pub fuzzed_app: Vec<Vec<u8>>,
}

/// What a malformed command line is missing.
#[derive(Debug, Copy, Clone, Eq, PartialEq, Structural)]
pub enum CliError {
    /// No target to fuzz was named.
    NoTarget,
    /// The target's arguments hold no `@@` marker for the input path.
    NoInputMarker,
}

/// The bytes of the base fuzz-input file name.
pub open spec fn fuzz_input_base() -> Seq<u8> {
    seq![0x66u8, 0x75u8, 0x7au8, 0x7au8, 0x5fu8, 0x69u8, 0x6eu8, 0x70u8, 0x75u8, 0x74u8]
}

/// The two marker bytes `@@` that stand for the input path in the
/// target's argument list.
pub open spec fn marker_arg() -> Seq<u8> {
    seq![0x40u8, 0x40u8]
}

/// The configured fuzz-input path: the base name, the extension if one
/// was requested, and the null terminator the target's `open` will send.
pub open spec fn fuzz_input_path(ext: Option<Seq<u8>>) -> Seq<u8> {
    match ext {
        None => fuzz_input_base().push(0u8),
        Some(e) => fuzz_input_base().push(0x2eu8) + e + seq![0u8],
    }
}

/// The extension option as a mathematical value.
pub open spec fn ext_view(ext: Option<Vec<u8>>) -> Option<Seq<u8>> {
    match ext {
        None => None,
        Some(v) => Some(v@),
    }
}

/// `i` is the position of the first `@@` marker in the argument list.
pub open spec fn is_first_marker(args: Seq<Vec<u8>>, i: int) -> bool {
    0 <= i < args.len() && args[i]@ == marker_arg() && (forall|j: int|
        0 <= j < i ==> args[j]@ != marker_arg())
}

/// Copy a byte vector.
pub fn bytes_clone(a: &Vec<u8>) -> (r: Vec<u8>)
    ensures
        r@ == a@,
{
    let mut r: Vec<u8> = Vec::new();
    let mut i: usize = 0;
    while i < a.len()
        invariant
            0 <= i <= a@.len(),
            r@ == a@.subrange(0, i as int),
        decreases a@.len() - i,
    {
        r.push(a[i]);
        proof {
            assert(r@ =~= a@.subrange(0, i + 1));
        }
        i = i + 1;
    }
    proof {
        assert(r@ =~= a@);
    }
    r
}

/// Check the user's fuzz-case setup and derive its configuration: the
/// fuzz-input path (with the optional extension) is built and written
/// over the first `@@` marker in the target's argument list, so the
/// target receives the path the harness watches for.  A missing target
/// or a missing marker is reported for the host to explain and exit.
pub fn handle_cli(args: &mut Cli) -> (r: Result<Vec<u8>, CliError>)
    ensures
        old(args).fuzzed_app@.len() == 0 ==> r == Err::<Vec<u8>, CliError>(CliError::NoTarget)
            && *final(args) == *old(args),
        old(args).fuzzed_app@.len() > 0 && (forall|k: int|
            0 <= k < old(args).fuzzed_app@.len() ==> old(args).fuzzed_app@[k]@ != marker_arg())
            ==> r == Err::<Vec<u8>, CliError>(CliError::NoInputMarker) && *final(args) == *old(
            args,
        ),
        (exists|k: int| is_first_marker(old(args).fuzzed_app@, k)) ==> {
            &&& (r matches Ok(name) && name@ == fuzz_input_path(ext_view(old(args).extension)))
            &&& final(args).version == old(args).version
            &&& final(args).help == old(args).help
            &&& final(args).debug_print == old(args).debug_print
            &&& final(args).extension == old(args).extension
            &&& final(args).snapshot == old(args).snapshot
            &&& final(args).fuzzed_app@.len() == old(args).fuzzed_app@.len()
            &&& forall|k: int|
                is_first_marker(old(args).fuzzed_app@, k) ==> final(args).fuzzed_app@[k]@
                    == fuzz_input_path(ext_view(old(args).extension)) && (forall|j: int|
                    0 <= j < old(args).fuzzed_app@.len() && j != k ==> final(args).fuzzed_app@[j]
                        == old(args).fuzzed_app@[j])
        },
{
    if args.fuzzed_app.len() == 0 {
        return Err(CliError::NoTarget);
    }
    // Build the fuzz-input path; the target must open exactly this
    // null-terminated name to receive the candidate input.
    let mut name: Vec<u8> = Vec::new();
    name.push(0x66);
    name.push(0x75);
    name.push(0x7a);
    name.push(0x7a);
    name.push(0x5f);
    name.push(0x69);
    name.push(0x6e);
    name.push(0x70);
    name.push(0x75);
    name.push(0x74);
    proof {
        assert(name@ =~= fuzz_input_base());
    }
    match &args.extension {
        Some(ext) => {
            name.push(0x2e);
            let mut i: usize = 0;
            while i < ext.len()
                invariant
                    0 <= i <= ext@.len(),
                    name@ == fuzz_input_base().push(0x2eu8) + ext@.subrange(0, i as int),
                decreases ext@.len() - i,
            {
                name.push(ext[i]);
                proof {
                    assert(name@ =~= fuzz_input_base().push(0x2eu8) + ext@.subrange(0, i + 1));
                }
                i = i + 1;
            }
            name.push(0);
            proof {
                assert(ext@.subrange(0, ext@.len() as int) =~= ext@);
                assert(name@ =~= fuzz_input_base().push(0x2eu8) + ext@ + seq![0u8]);
            }
        },
        None => {
            name.push(0);
            proof {
                assert(name@ =~= fuzz_input_base().push(0u8));
            }
        },
    }
    // Find the `@@` marker and substitute the input path for it.
    let mut marker: Vec<u8> = Vec::new();
    marker.push(0x40);
    marker.push(0x40);
    proof {
        assert(marker@ =~= marker_arg());
    }
    let n = args.fuzzed_app.len();
    let mut i: usize = 0;
    while i < n
        invariant
            0 <= i <= n,
            n == args.fuzzed_app@.len(),
            marker@ == marker_arg(),
            name@ == fuzz_input_path(ext_view(old(args).extension)),
            *args == *old(args),
            forall|j: int| 0 <= j < i ==> args.fuzzed_app@[j]@ != marker_arg(),
        decreases n - i,
    {
        if bytes_eq(&args.fuzzed_app[i], &marker) {
            let replacement = bytes_clone(&name);
            args.fuzzed_app[i] = replacement;
            proof {
                assert(is_first_marker(old(args).fuzzed_app@, i as int));
                assert forall|k: int| is_first_marker(old(args).fuzzed_app@, k) implies k
                    == i as int by {
                    if k < i {
                        assert(old(args).fuzzed_app@[k]@ != marker_arg());
                    } else if k > i {
                        assert(old(args).fuzzed_app@[i as int]@ != marker_arg());
                    }
                }
            }
            return Ok(name);
        }
        i = i + 1;
    }
    Err(CliError::NoInputMarker)
}

} // verus!
