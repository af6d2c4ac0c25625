//! Classification of a path that is supposed to name a package archive.
//!
//! The caller that owns the filesystem probes the path and hands in what it
//! found — whether the path exists, whether it is a regular file, whether
//! it is a directory — together with the path itself; the classification of
//! those facts, including the file-extension check, is carried out here.

use vstd::prelude::*;

verus! {

use vstd::utf8::encode_utf8;

/// Errors of the package-archive path check.
#[derive(Debug, Clone, PartialEq, Eq)]
pub enum ApkError {
    /// The path does not exist, or cannot be reached.
    NotFound,
    /// The path names a directory where a file was expected.
    IsDirectory,
    /// The path names something that is neither a file nor a directory.
    IsSymlink,
    /// The path's extension is not `apk`; the extension found is carried
    /// for the caller's message.
    WrongExtension(Vec<u8>),
}

/// Whether `b` is a path separator.
pub open spec fn is_sep(b: u8) -> bool {
    b == 0x2F || b == 0x5C
}

/// Index of the last `.` in the final path component of `s`, scanning
/// backward from position `i`; nothing when a separator or the start of
/// `s` is reached first.
pub open spec fn last_dot_from(s: Seq<u8>, i: int) -> Option<int>
    decreases i,
{
    if i <= 0 {
        None
    } else if is_sep(s[i - 1]) {
        None
    } else if s[i - 1] == 0x2E {
        Some(i - 1)
    } else {
        last_dot_from(s, i - 1)
    }
}

/// The extension of the path written in `s`: the bytes after the last `.`
/// of the final path component, or nothing when that component holds no
/// `.` or starts with its only `.` (a hidden file has no extension).
pub open spec fn spec_extension(s: Seq<u8>) -> Option<Seq<u8>> {
    match last_dot_from(s, s.len() as int) {
        None => None,
        Some(d) => if d == 0 || is_sep(s[d - 1]) {
            None
        } else {
            Some(s.subrange(d + 1, s.len() as int))
        },
    }
}

/// The extension of `path`, as bytes.
pub fn extension_of(path: &str) -> (r: Option<Vec<u8>>)
    ensures
        (match r {
            Some(e) => spec_extension(encode_utf8(path@)) == Some(e@),
            None => spec_extension(encode_utf8(path@)) is None,
        }),
{
    let bytes: Vec<u8> = path.as_bytes_vec();
    let mut i: usize = bytes.len();
    loop
        invariant
            i <= bytes.len(),
            bytes@ == encode_utf8(path@),
            last_dot_from(bytes@, bytes@.len() as int) == last_dot_from(bytes@, i as int),
        decreases i,
    {
        if i == 0 {
            return None;
        }
        let b = bytes[i - 1];
        if b == 0x2F || b == 0x5C {
            return None;
        }
        if b == 0x2E {
            if i - 1 == 0 {
                return None;
            }
            let prev = bytes[i - 2];
            if prev == 0x2F || prev == 0x5C {
                return None;
            }
            let mut ext: Vec<u8> = Vec::new();
            let mut k: usize = i;
            while k < bytes.len()
                invariant
                    i <= k <= bytes.len(),
                    ext@ == bytes@.subrange(i as int, k as int),
                decreases bytes.len() - k,
            {
                ext.push(bytes[k]);
                k = k + 1;
                proof {
                    assert(ext@ =~= bytes@.subrange(i as int, k as int));
                }
            }
            return Some(ext);
        }
        i = i - 1;
    }
}

/// A path that names a package archive.
#[derive(Debug, Clone)]
pub struct ApkUtils {
    /// The checked path.
    pub apk_path: String,
}

/// The three bytes of the extension `apk`.
pub open spec fn apk_ext() -> Seq<u8> {
    seq![0x61u8, 0x70, 0x6B]
}

impl ApkUtils {
    /// Classifies the path from the facts the caller found on the
    /// filesystem: a missing path, a directory or another non-file are
    /// refused, as is any extension other than `apk`.  A path that exists
    /// as a regular file is assumed to carry an extension.
    pub fn new(apk_path: String, exists: bool, is_file: bool, is_dir: bool) -> (r: Result<
        ApkUtils,
        ApkError,
    >)
        requires
            exists && is_file ==> spec_extension(encode_utf8(apk_path@)) is Some,
        ensures
            !exists ==> r == Err::<ApkUtils, ApkError>(ApkError::NotFound),
            exists && !is_file && is_dir ==> r == Err::<ApkUtils, ApkError>(ApkError::IsDirectory),
            exists && !is_file && !is_dir ==> r == Err::<ApkUtils, ApkError>(ApkError::IsSymlink),
            exists && is_file ==> (match spec_extension(encode_utf8(apk_path@)) {
                Some(e) => if e == apk_ext() {
                    (r matches Ok(u) && u.apk_path == apk_path)
                } else {
                    (r matches Err(err) && err matches ApkError::WrongExtension(v) && v@ == e)
                },
                None => true,
            }),
    {
        if !exists {
            return Err(ApkError::NotFound);
        }
        if !is_file {
            return if is_dir {
                Err(ApkError::IsDirectory)
            } else {
                Err(ApkError::IsSymlink)
            };
        }
        let ext = match extension_of(apk_path.as_str()) {
            Some(e) => e,
            None => {
                return Err(ApkError::WrongExtension(Vec::new()));
            },
        };
        let is_apk = ext.len() == 3 && ext[0] == 0x61 && ext[1] == 0x70 && ext[2] == 0x6B;
        if is_apk {
            proof {
                assert(ext@ =~= apk_ext());
            }
            Ok(ApkUtils { apk_path })
        } else {
            proof {
                assert(ext@ != apk_ext());
            }
            Err(ApkError::WrongExtension(ext))
        }
    }

    /// Wraps the path without looking at it.
    pub fn new_unchecked(apk_path: String) -> (u: ApkUtils)
        ensures
            u.apk_path == apk_path,
    {
        ApkUtils { apk_path }
    }
}

} // verus!
