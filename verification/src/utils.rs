//! Input-path validation: which file names the loader frontend accepts.
//!
//! Only the extension check lives here; whether the path names a directory
//! or a readable file is the caller's concern, as is reading the bytes.

use vstd::prelude::*;
use vstd::string::StringSliceAdditionalSpecFns;

verus! {

/// `/`, the path separator.
pub const SEP_BYTE: u8 = 0x2F;

/// `.`, the extension separator.
pub const DOT_BYTE: u8 = 0x2E;

/// Index of the dot introducing the extension, scanning the path bytes
/// backwards from position `i`: the last `.` of the final path component,
/// or `None` when a `/` (or the start) comes first.
pub open spec fn find_dot(bytes: Seq<u8>, i: int) -> Option<int>
    decreases i + 1,
{
    if i < 0 || i >= bytes.len() {
        None
    } else if bytes[i] == SEP_BYTE {
        None
    } else if bytes[i] == DOT_BYTE {
        Some(i)
    } else {
        find_dot(bytes, i - 1)
    }
}

/// The extension of a path given as bytes: what follows the last `.` of
/// the final component, unless that component has no dot or starts with
/// its only dot (a hidden file has no extension).
pub open spec fn path_extension(bytes: Seq<u8>) -> Option<Seq<u8>> {
    match find_dot(bytes, bytes.len() - 1) {
        None => None,
        Some(d) => if d == 0 || bytes[d - 1] == SEP_BYTE {
            None
        } else {
            Some(bytes.subrange(d + 1, bytes.len() as int))
        },
    }
}

/// The extension bytes `crap`.
pub open spec fn ext_crap() -> Seq<u8> {
    seq![0x63u8, 0x72u8, 0x61u8, 0x70u8]
}

/// The extension bytes `crapt`.
pub open spec fn ext_crapt() -> Seq<u8> {
    seq![0x63u8, 0x72u8, 0x61u8, 0x70u8, 0x74u8]
}

/// Whether the loader frontend accepts a path: its extension is `crap` or
/// `crapt`.
pub open spec fn accepted_path(bytes: Seq<u8>) -> bool {
    match path_extension(bytes) {
        None => false,
        Some(ext) => ext == ext_crap() || ext == ext_crapt(),
    }
}

/// Whether the input file at `path` should be opened: its extension must
/// be `.crap` or `.crapt`.  A path with no extension is rejected; whether
/// the path names a directory the caller must check itself.
pub fn should_open(path: &str) -> (r: bool)
    ensures
        r == accepted_path(path.spec_bytes()),
{
    let bytes = path.as_bytes();
    let n = bytes.len();
    let mut i: usize = n;
    while i > 0
        invariant
            i <= n,
            n == bytes@.len(),
            bytes@ == path.spec_bytes(),
            find_dot(bytes@, n as int - 1) == find_dot(bytes@, i as int - 1),
        decreases i,
    {
        let c = bytes[i - 1];
        if c == SEP_BYTE {
            return false;
        }
        if c == DOT_BYTE {
            let d = i - 1;
            if d == 0 {
                return false;
            }
            if bytes[d - 1] == SEP_BYTE {
                return false;
            }
            let ext_len = n - d - 1;
            if ext_len == 4 {
                let good = bytes[d + 1] == 0x63 && bytes[d + 2] == 0x72 && bytes[d + 3] == 0x61
                    && bytes[d + 4] == 0x70;
                proof {
                    if good {
                        assert(bytes@.subrange(d as int + 1, n as int) =~= ext_crap());
                    }
                    assert(bytes@.subrange(d as int + 1, n as int).len() != ext_crapt().len());
                }
                return good;
            } else if ext_len == 5 {
                let good = bytes[d + 1] == 0x63 && bytes[d + 2] == 0x72 && bytes[d + 3] == 0x61
                    && bytes[d + 4] == 0x70 && bytes[d + 5] == 0x74;
                proof {
                    if good {
                        assert(bytes@.subrange(d as int + 1, n as int) =~= ext_crapt());
                    }
                    assert(bytes@.subrange(d as int + 1, n as int).len() != ext_crap().len());
                }
                return good;
            } else {
                proof {
                    assert(bytes@.subrange(d as int + 1, n as int).len() == ext_len);
                    assert(ext_crap().len() == 4);
                    assert(ext_crapt().len() == 5);
                }
                return false;
            }
        }
        i -= 1;
    }
    false
}

} // verus!
