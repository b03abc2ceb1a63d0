//! The blob-storage side: the backend kinds, the capability interface a
//! backend implements, and the path computations the GitHub-release
//! backend derives its tag and asset names with. The transport itself —
//! uploading, downloading and deleting over an external API — is a thin
//! wrapper around third-party crates and lives outside this library.

use vstd::prelude::*;
use vstd::slice::{slice_subrange, slice_to_vec};

verus! {

/// Which backend stores the blobs.
#[derive(Clone, Copy, Debug, PartialEq, Eq, Structural)]
pub enum StorageType {
    S3,
    GitHub,
    Local,
}

impl Default for StorageType {
    /// The backend of record when none is configured.
    fn default() -> (r: Self)
        ensures
            r == StorageType::GitHub,
    {
        StorageType::GitHub
    }
}

/// The capability interface of a blob backend: upload a payload under a
/// path, download it back, delete it. Implementations live with the
/// transport they wrap, outside this library.
pub trait Storage {
    fn upload_file(&self, file_path: &str, content: Vec<u8>) -> Result<String, String>;

    fn download_file(&self, file_path: &str) -> Result<Vec<u8>, String>;

    fn delete_file(&self, file_path: &str) -> Result<(), String>;
}

/// The ASCII bytes of the one configuration value that selects a
/// supported backend.
pub open spec fn github_config_bytes() -> Seq<u8> {
    seq![103u8, 105u8, 116u8, 104u8, 117u8, 98u8]
}

/// Selects the backend a configuration value names: only the GitHub
/// backend is supported, and every other value is rejected.
pub fn storage_type_from_config(name: &[u8]) -> (r: Option<StorageType>)
    ensures
        name@ == github_config_bytes() ==> r == Some(StorageType::GitHub),
        name@ != github_config_bytes() ==> r is None,
{
    if name.len() == 6 && name[0] == 103 && name[1] == 105 && name[2] == 116 && name[3] == 104
        && name[4] == 117 && name[5] == 98 {
        proof {
            assert(name@ =~= github_config_bytes());
        }
        Some(StorageType::GitHub)
    } else {
        None
    }
}

/// The ASCII bytes of the prefix every release tag carries.
pub open spec fn tag_prefix_bytes() -> Seq<u8> {
    seq![102u8, 105u8, 108u8, 101u8, 95u8]
}

/// The release tag a path is filed under: the tag prefix, then the path
/// with every slash flattened to an underscore.
pub open spec fn spec_release_tag(p: Seq<u8>) -> Seq<u8> {
    tag_prefix_bytes() + p.map_values(
        |b: u8|
            if b == 47 {
                95u8
            } else {
                b
            },
    )
}

/// Computes the release tag for a path.
pub fn release_tag_bytes(path: &[u8]) -> (r: Vec<u8>)
    ensures
        r@ == spec_release_tag(path@),
{
    let mut out: Vec<u8> = Vec::new();
    out.push(102);
    out.push(105);
    out.push(108);
    out.push(101);
    out.push(95);
    proof {
        assert(out@ =~= spec_release_tag(path@.take(0)));
    }
    let n = path.len();
    let mut i: usize = 0;
    while i < n
        invariant
            n == path@.len(),
            i <= n,
            out@ == spec_release_tag(path@.take(i as int)),
        decreases n - i,
    {
        let b = path[i];
        if b == 47 {
            out.push(95);
        } else {
            out.push(b);
        }
        proof {
            assert(out@ =~= spec_release_tag(path@.take(i as int + 1)));
        }
        i += 1;
    }
    proof {
        assert(path@.take(n as int) =~= path@);
    }
    out
}

/// Splits a repository coordinate of the form `owner/name`. Exactly one
/// slash is accepted: a value with none, or with two or more, is
/// rejected, as a coordinate that cannot name one repository.
pub fn parse_repo_spec(repo: &[u8]) -> (r: Option<(Vec<u8>, Vec<u8>)>)
    ensures
        match r {
            Some(parts) => {
                &&& repo@ == parts.0@ + seq![47u8] + parts.1@
                &&& !parts.0@.contains(47u8)
                &&& !parts.1@.contains(47u8)
            },
            None => (forall|j: int| 0 <= j < repo@.len() ==> repo@[j] != 47u8) || (exists|
                i: int,
                j: int,
            |
                0 <= i < j < repo@.len() && repo@[i] == 47u8 && repo@[j] == 47u8),
        },
{
    let n = repo.len();
    let mut f: usize = 0;
    while f < n && repo[f] != 47
        invariant
            n == repo@.len(),
            f <= n,
            forall|j: int| 0 <= j < f ==> repo@[j] != 47u8,
        decreases n - f,
    {
        f += 1;
    }
    if f == n {
        return None;
    }
    let mut g: usize = f + 1;
    while g < n
        invariant
            n == repo@.len(),
            f < g <= n,
            repo@[f as int] == 47u8,
            forall|j: int| f < j < g ==> repo@[j] != 47u8,
        decreases n - g,
    {
        if repo[g] == 47 {
            proof {
                assert(0 <= f < g < repo@.len() && repo@[f as int] == 47u8 && repo@[g as int]
                    == 47u8);
            }
            return None;
        }
        g += 1;
    }
    let owner = slice_to_vec(slice_subrange(repo, 0, f));
    let name = slice_to_vec(slice_subrange(repo, f + 1, n));
    proof {
        assert(repo@ =~= owner@ + seq![47u8] + name@);
        assert forall|j: int| 0 <= j < owner@.len() implies owner@[j] != 47u8 by {
            assert(owner@[j] == repo@[j]);
        }
        assert(!owner@.contains(47u8));
        assert forall|j: int| 0 <= j < name@.len() implies name@[j] != 47u8 by {
            assert(name@[j] == repo@[f as int + 1 + j]);
        }
        assert(!name@.contains(47u8));
    }
    Some((owner, name))
}

/// The name an uploaded asset carries: what follows the last slash of
/// the path, or the whole path when it has no slash.
pub fn last_path_segment(path: &[u8]) -> (r: Vec<u8>)
    ensures
        (forall|j: int| 0 <= j < path@.len() ==> path@[j] != 47u8) ==> r@ == path@,
        (exists|j: int| 0 <= j < path@.len() && path@[j] == 47u8) ==> exists|i: int|
            0 <= i < path@.len() && path@[i] == 47u8 && (forall|j: int|
                i < j < path@.len() ==> path@[j] != 47u8) && r@ == path@.skip(i + 1),
{
    let n = path.len();
    let mut i: usize = n;
    while i > 0
        invariant
            n == path@.len(),
            i <= n,
            forall|j: int| i <= j < n ==> path@[j] != 47u8,
        decreases i,
    {
        i = i - 1;
        if path[i] == 47 {
            let r = slice_to_vec(slice_subrange(path, i + 1, n));
            proof {
                assert(r@ =~= path@.skip(i as int + 1));
            }
            return r;
        }
    }
    slice_to_vec(path)
}

} // verus!
