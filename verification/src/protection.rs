//! Which processes are protected by name.

use vstd::prelude::*;
use vstd::string::*;
use vstd::utf8::encode_utf8;
use crate::model::Platform;
use crate::text::{lowercase, str_eq, to_lowercase};

verus! {

/// Whether a process name is the protected name on a platform; Windows ignores
/// case.
pub open spec fn name_matches(platform: Platform, protected: Seq<char>, name: Seq<char>) -> bool {
    match platform {
        Platform::Windows => lowercase(protected) == lowercase(name),
        _ => protected == name,
    }
}

/// Whether a process name is on the protected list.
pub open spec fn protected_name(platform: Platform, name: Seq<char>, names: Seq<String>) -> bool {
    exists|i: int|
        0 <= i < names.len() && name_matches(platform, #[trigger] names[i]@, name)
}

pub fn is_protected_process_name(platform: Platform, name: &str, names: &[String]) -> (r: bool)
    ensures
        r == protected_name(platform, name@, names@),
{
    let mut i: usize = 0;
    while i < names.len()
        invariant
            i <= names.len(),
            forall|j: int| 0 <= j < i ==> !name_matches(platform, #[trigger] names@[j]@, name@),
        decreases names.len() - i,
    {
        let matches: bool = match platform {
            Platform::Windows => str_eq(
                to_lowercase(names[i].as_str()).as_str(),
                to_lowercase(name).as_str(),
            ),
            _ => str_eq(names[i].as_str(), name),
        };
        if matches {
            assert(name_matches(platform, names@[i as int]@, name@));
            return true;
        }
        i = i + 1;
    }
    false
}

/// The last component of a path: the bytes behind the last slash.
pub open spec fn file_name(path: Seq<u8>) -> Seq<u8>
    decreases path.len(),
{
    if path.len() == 0 || path.last() == 47 {
        Seq::empty()
    } else {
        file_name(path.drop_last()).push(path.last())
    }
}

fn file_name_start(path: &[u8]) -> (r: usize)
    ensures
        r <= path@.len(),
        file_name(path@) == path@.skip(r as int),
{
    let mut start: usize = path.len();
    assert(path@.take(start as int) =~= path@);
    assert(path@.skip(start as int) =~= Seq::empty());
    while start > 0 && path[start - 1] != 47
        invariant
            start <= path@.len(),
            file_name(path@) == file_name(path@.take(start as int)) + path@.skip(start as int),
        decreases start,
    {
        proof {
            let head = path@.take(start as int);
            assert(head.drop_last() =~= path@.take(start - 1));
            assert(head.last() == path@[start - 1]);
            assert(path@.skip(start - 1) =~= seq![path@[start - 1]] + path@.skip(start as int));
            assert(file_name(head) + path@.skip(start as int) =~= file_name(head.drop_last())
                + path@.skip(start - 1));
        }
        start = start - 1;
    }
    proof {
        let head = path@.take(start as int);
        assert(start > 0 ==> head.last() == path@[start - 1]);
        assert(file_name(head) =~= Seq::empty());
    }
    start
}

/// Whether an executable's file name is on the protected list.
pub open spec fn protected_file(path: Seq<u8>, names: Seq<String>) -> bool {
    exists|i: int|
        0 <= i < names.len() && encode_utf8(#[trigger] names[i]@) == file_name(path)
}

fn bytes_equal(a: &[u8], b: &[u8], from: usize) -> (r: bool)
    requires
        from <= b@.len(),
    ensures
        r == (a@ == b@.skip(from as int)),
{
    if a.len() != b.len() - from {
        return false;
    }
    let mut i: usize = 0;
    while i < a.len()
        invariant
            i <= a.len(),
            a.len() == b.len() - from,
            from <= b.len(),
            forall|j: int| 0 <= j < i ==> a@[j] == b@[from + j],
        decreases a@.len() - i,
    {
        if a[i] != b[from + i] {
            assert(a@[i as int] != b@.skip(from as int)[i as int]);
            return false;
        }
        i = i + 1;
    }
    assert(a@ =~= b@.skip(from as int));
    true
}

/// A process is protected by its name, and on macOS also by the file name of
/// its executable.
pub open spec fn protected_process(
    platform: Platform,
    name: Option<Seq<char>>,
    path: Option<Seq<u8>>,
    names: Seq<String>,
) -> bool {
    ||| name is Some && protected_name(platform, name->0, names)
    ||| platform == Platform::Macos && path is Some && protected_file(path->0, names)
}

/// The bytes of an optional path.
pub open spec fn opt_bytes(path: Option<Vec<u8>>) -> Option<Seq<u8>> {
    match path {
        Some(path) => Some(path@),
        None => None,
    }
}

#[verifier::loop_isolation(false)]
pub fn is_protected_process(
    platform: Platform,
    name: Option<&str>,
    path: &Option<Vec<u8>>,
    names: &[String],
) -> (r: bool)
    ensures
        r == protected_process(
            platform,
            crate::text::opt_str_text(name),
            opt_bytes(*path),
            names@,
        ),
{
    if let Some(name) = name {
        if is_protected_process_name(platform, name, names) {
            return true;
        }
    }
    if platform == Platform::Macos {
        if let Some(path) = path {
            let start: usize = file_name_start(path.as_slice());
            let mut i: usize = 0;
            while i < names.len()
                invariant
                    i <= names.len(),
                    start <= path@.len(),
                    file_name(path@) == path@.skip(start as int),
                    forall|j: int|
                        0 <= j < i ==> encode_utf8(#[trigger] names@[j]@) != file_name(path@),
                decreases names.len() - i,
            {
                if bytes_equal(names[i].as_str().as_bytes(), path.as_slice(), start) {
                    assert(encode_utf8(names@[i as int]@) == file_name(path@));
                    return true;
                }
                i = i + 1;
            }
        }
    }
    false
}

} // verus!
