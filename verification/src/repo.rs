use vstd::prelude::*;

verus! {

/// Errors from creating an independent repository handle.
#[derive(Clone, Copy, Debug, PartialEq, Eq, Structural)]
pub enum RepoInitError {
    /// A path was not representable as text.
    Encoding,
    /// A path embeds an interior terminator byte, which the native
    /// interface forbids.
    Nul,
    /// The native constructor reported a nonzero status; the payload is
    /// the system error code observed at that point.
    Errno(i32),
}

/// Whether `s` holds a zero byte anywhere.
pub open spec fn has_nul(s: Seq<u8>) -> bool {
    exists|i: int| 0 <= i < s.len() && s[i] == 0u8
}

/// Both paths of a repository-creation request, already converted to the
/// native representation: text bytes with exactly one terminator byte, at
/// the end.
pub struct RepoRequest {
    /// The repository directory, terminated.
    pub gitdir: Vec<u8>,
    /// The working-tree directory, terminated.
    pub worktree: Vec<u8>,
}

impl RepoRequest {
    /// A terminated path: no interior zero byte, one final zero byte.
    pub open spec fn terminated(s: Seq<u8>) -> bool {
        s.len() > 0 && s.last() == 0u8 && !has_nul(s.drop_last())
    }

    /// Both paths are in the native representation.
    pub open spec fn well_formed(&self) -> bool {
        Self::terminated(self.gitdir@) && Self::terminated(self.worktree@)
    }
}

/// An independent handle to one repository, produced by a successful
/// native construction. Unlike the process-wide guard, any number of
/// these may exist.
#[derive(Debug)]
pub struct Repository {
    handle: (),
}

/// Convert one path to the native representation: reject an interior
/// terminator byte, then append the final terminator.
pub fn to_native_path(bytes: Vec<u8>) -> (r: Result<Vec<u8>, RepoInitError>)
    ensures
        has_nul(bytes@) ==> r == Err::<Vec<u8>, RepoInitError>(RepoInitError::Nul),
        !has_nul(bytes@) ==> r is Ok && r->Ok_0@ == bytes@.push(0u8)
            && RepoRequest::terminated(r->Ok_0@),
{
    let n = bytes.len();
    let mut i: usize = 0;
    while i < n
        invariant
            i <= n,
            n == bytes@.len(),
            forall|j: int| 0 <= j < i ==> bytes@[j] != 0u8,
        decreases n - i,
    {
        if bytes[i] == 0u8 {
            return Err(RepoInitError::Nul);
        }
        i += 1;
    }
    let mut out = bytes;
    out.push(0u8);
    assert(out@.drop_last() =~= out@.subrange(0, out@.len() - 1));
    Ok(out)
}

impl Repository {
    /// Validate and convert both paths of a creation request.
    ///
    /// A path arrives as `None` when the caller could not represent it as
    /// text, which fails with `Encoding`; a representable path whose bytes
    /// embed an interior terminator fails with `Nul` (the repository
    /// directory is examined first); otherwise both paths are handed back
    /// in the native representation.
    pub fn prepare(gitdir: Option<Vec<u8>>, worktree: Option<Vec<u8>>) -> (r: Result<
        RepoRequest,
        RepoInitError,
    >)
        ensures
            (gitdir is None || worktree is None) ==> r == Err::<
                RepoRequest,
                RepoInitError,
            >(RepoInitError::Encoding),
            gitdir is Some && worktree is Some && has_nul(gitdir->0@) ==> r == Err::<
                RepoRequest,
                RepoInitError,
            >(RepoInitError::Nul),
            gitdir is Some && worktree is Some && !has_nul(gitdir->0@) && has_nul(worktree->0@)
                ==> r == Err::<RepoRequest, RepoInitError>(RepoInitError::Nul),
            gitdir is Some && worktree is Some && !has_nul(gitdir->0@) && !has_nul(worktree->0@)
                ==> r is Ok && r->Ok_0.well_formed() && r->Ok_0.gitdir@ == gitdir->0@.push(0u8)
                && r->Ok_0.worktree@ == worktree->0@.push(0u8),
    {
        let (gd, wt) = match (gitdir, worktree) {
            (Some(gd), Some(wt)) => (gd, wt),
            _ => {
                return Err(RepoInitError::Encoding);
            },
        };
        let gd = match to_native_path(gd) {
            Ok(p) => p,
            Err(e) => {
                return Err(e);
            },
        };
        let wt = match to_native_path(wt) {
            Ok(p) => p,
            Err(e) => {
                return Err(e);
            },
        };
        Ok(RepoRequest { gitdir: gd, worktree: wt })
    }

    /// Translate the native constructor's outcome: a zero status yields a
    /// valid handle, a nonzero status is reported as the system error code
    /// `errno` observed alongside it.
    pub fn complete(status: i32, errno: i32) -> (r: Result<Repository, RepoInitError>)
        ensures
            status == 0 ==> r is Ok,
            status != 0 ==> r == Err::<Repository, RepoInitError>(RepoInitError::Errno(errno)),
    {
        if status == 0 {
            Ok(Repository { handle: () })
        } else {
            Err(RepoInitError::Errno(errno))
        }
    }
}

} // verus!
