//! Command-line configuration: the image path, the dump flag and the
//! expected compiler version, folded from the argument list.

use vstd::prelude::*;

use vstd::string::StringSliceAdditionalSpecFns;
use vstd::utf8::encode_utf8;

verus! {

/// The bytes of the long dump flag.
pub open spec fn dump_long() -> Seq<u8> {
    seq![45u8, 100u8, 117u8, 109u8, 112u8]
}

/// The bytes of the short dump flag.
pub open spec fn dump_short() -> Seq<u8> {
    seq![45u8, 100u8]
}

/// The bytes of the argument selecting version five-one.
pub open spec fn ver_51_arg() -> Seq<u8> {
    seq![118u8, 101u8, 114u8, 61u8, 53u8, 46u8, 49u8]
}

/// The bytes of the argument selecting version five-three.
pub open spec fn ver_53_arg() -> Seq<u8> {
    seq![118u8, 101u8, 114u8, 61u8, 53u8, 46u8, 51u8]
}

/// The left fold the argument parser performs, from argument `i` on, with
/// the path, dump flag and version accumulated so far.  A dump flag is
/// honoured once; a second one, like any other argument, is a path
/// candidate, and a second path is refused.
pub open spec fn build_fold(
    args: Seq<Seq<u8>>,
    i: int,
    path: Seq<u8>,
    d: bool,
    ver: u32,
) -> Option<(Seq<u8>, bool, u32)>
    decreases args.len() - i,
{
    if i < 0 || i >= args.len() {
        Some((path, d, ver))
    } else {
        let a = args[i];
        if (a == dump_long() || a == dump_short()) && !d {
            build_fold(args, i + 1, path, true, ver)
        } else if a == ver_51_arg() {
            build_fold(args, i + 1, path, d, 0x51)
        } else if a == ver_53_arg() {
            build_fold(args, i + 1, path, d, 0x53)
        } else if path.len() == 0 {
            build_fold(args, i + 1, a, d, ver)
        } else {
            None
        }
    }
}

/// The byte sequences of the arguments, in order.
pub open spec fn args_bytes(args: Seq<String>) -> Seq<Seq<u8>> {
    Seq::new(args.len(), |i: int| encode_utf8(args[i]@))
}

/// Compares a borrowed byte slice with an owned pattern.
fn slice_matches(a: &[u8], pat: &Vec<u8>) -> (r: bool)
    ensures
        r == (a@ == pat@),
{
    if a.len() != pat.len() {
        proof {
            assert(a@.len() != pat@.len() ==> a@ != pat@);
        }
        return false;
    }
    let mut i: usize = 0;
    while i < a.len()
        invariant
            i <= a.len(),
            a@.len() == pat@.len(),
            forall|j: int| 0 <= j < i ==> a@[j] == pat@[j],
        decreases a.len() - i,
    {
        if a[i] != pat[i] {
            return false;
        }
        i = i + 1;
    }
    proof {
        assert(a@ =~= pat@);
    }
    true
}

#[derive(Debug)]
pub struct Vmconfig {
    file_path: String,
    dump: bool,
    version: u32,
}

impl Vmconfig {
    /// The bytes of the image path.
    pub closed spec fn path_bytes(&self) -> Seq<u8> {
        encode_utf8(self.file_path@)
    }

    /// The dump flag.
    pub closed spec fn dump_spec(&self) -> bool {
        self.dump
    }

    /// The expected version, as the byte the image header carries.
    pub closed spec fn ver_spec(&self) -> u32 {
        self.version
    }

    /// Folds the argument list, the leading program name excluded, into a
    /// configuration; the version defaults to five-one.
    pub fn build(args: Vec<String>) -> (r: Result<Vmconfig, &'static str>)
        ensures
            match r {
                Ok(cfg) => build_fold(args_bytes(args@), 1, Seq::empty(), false, 0x51) == Some(
                    (cfg.path_bytes(), cfg.dump_spec(), cfg.ver_spec()),
                ),
                Err(_) => build_fold(args_bytes(args@), 1, Seq::empty(), false, 0x51) is None,
            },
    {
        let mut d = false;
        let mut s: String = String::new();
        let mut ver: u32 = 0x51;
        let pat_dump_long: Vec<u8> = vec![45u8, 100u8, 117u8, 109u8, 112u8];
        let pat_dump_short: Vec<u8> = vec![45u8, 100u8];
        let pat_ver_51: Vec<u8> = vec![118u8, 101u8, 114u8, 61u8, 53u8, 46u8, 49u8];
        let pat_ver_53: Vec<u8> = vec![118u8, 101u8, 114u8, 61u8, 53u8, 46u8, 51u8];
        let n = args.len();
        let mut i: usize = 1;
        while i < n
            invariant
                1 <= i <= n || (n < 1 && i == 1),
                n == args@.len(),
                pat_dump_long@ == dump_long(),
                pat_dump_short@ == dump_short(),
                pat_ver_51@ == ver_51_arg(),
                pat_ver_53@ == ver_53_arg(),
                build_fold(
                    args_bytes(args@),
                    i as int,
                    encode_utf8(s@),
                    d,
                    ver,
                ) == build_fold(args_bytes(args@), 1, Seq::empty(), false, 0x51),
            decreases n - i,
        {
            let a = args[i].as_str().as_bytes();
            proof {
                assert(a@ == args_bytes(args@)[i as int]);
            }
            if (slice_matches(a, &pat_dump_long) || slice_matches(a, &pat_dump_short)) && d
                == false {
                d = true;
            } else if slice_matches(a, &pat_ver_51) {
                ver = 0x51;
            } else if slice_matches(a, &pat_ver_53) {
                ver = 0x53;
            } else {
                if s.as_str().is_empty() {
                    s = args[i].as_str().to_owned();
                } else {
                    return Err("program takes a single .out files");
                }
            }
            i = i + 1;
        }
        Ok(Vmconfig { file_path: s, dump: d, version: ver })
    }

    pub fn get_dump(&self) -> (r: bool)
        ensures
            r == self.dump_spec(),
    {
        self.dump
    }

    pub fn get_path(&self) -> (r: &str)
        ensures
            r.spec_bytes() == self.path_bytes(),
    {
        self.file_path.as_str()
    }

    /// The version byte the image header must carry: a nibble per digit.
    pub fn get_ver(&self) -> (r: u32)
        ensures
            r == self.ver_spec(),
    {
        self.version
    }
}

} // verus!
