//! The filesystem operations the cgroup source performs, and paths.

use vstd::prelude::*;

use crate::cgroup::error::IoError;

verus! {

/// The filesystem operations the cgroup source performs on a hierarchy.
///
/// Implemented by the program over the real filesystem, and by tests over an
/// in-memory one. Each answer is stated through a predicate that a
/// filesystem may define; one that does not define it claims nothing of its
/// answers, and every function of the source is verified for every answer
/// the predicates admit.
pub trait CgroupFs {
    /// What `read_to_string` may answer for `path`.
    open spec fn read_post(&self, path: Seq<char>, r: Result<String, IoError>) -> bool {
        true
    }

    /// What `path_exists` may answer for `path`.
    open spec fn exists_post(&self, path: Seq<char>, r: bool) -> bool {
        true
    }

    /// What `is_file` may answer for `path`.
    open spec fn is_file_post(&self, path: Seq<char>, r: bool) -> bool {
        true
    }

    /// The content of the file at `path`.
    fn read_to_string(&self, path: &str) -> (r: Result<String, IoError>)
        ensures
            self.read_post(path@, r),
    ;

    /// Whether something exists at `path`.
    fn path_exists(&self, path: &str) -> (r: bool)
        ensures
            self.exists_post(path@, r),
    ;

    /// Whether a regular file exists at `path`.
    fn is_file(&self, path: &str) -> (r: bool)
        ensures
            self.is_file_post(path@, r),
    ;

    /// Creates the directory at `path` and its missing parents.
    fn create_dir_all(&self, path: &str) -> Result<(), IoError>;

    /// Writes `content` to the file at `path`.
    fn write(&self, path: &str, content: &str) -> Result<(), IoError>;

    /// Removes the empty directory at `path`.
    fn remove_dir(&self, path: &str) -> Result<(), IoError>;
}

/// `base` joined with a relative `name`, as `Path::join` does for a
/// relative name: a `/` is put between them unless `base` is empty or
/// already ends with one. An absolute `name` replaces `base`.
pub open spec fn path_join(base: Seq<char>, name: Seq<char>) -> Seq<char> {
    if name.len() > 0 && name[0] == '/' {
        name
    } else if base.len() == 0 || base.last() == '/' {
        base + name
    } else {
        base + seq!['/'] + name
    }
}

/// Joins `name` to `base` (`Path::join`).
pub fn join_path(base: &str, name: &str) -> (r: String)
    ensures
        r@ == path_join(base@, name@),
{
    let b = crate::text::chars_of(base);
    let n = crate::text::chars_of(name);
    if n.len() > 0 && n[0] == '/' {
        return crate::text::string_of(n);
    }
    let mut out = b.clone();
    if !(b.len() == 0 || b[b.len() - 1] == '/') {
        out.push('/');
    }
    let mut i: usize = 0;
    let ghost start = out@;
    while i < n.len()
        invariant
            0 <= i <= n@.len(),
            out@ == start + n@.subrange(0, i as int),
        decreases n@.len() - i,
    {
        out.push(n[i]);
        i = i + 1;
        proof {
            assert(out@ =~= start + n@.subrange(0, i as int));
        }
    }
    proof {
        assert(n@.subrange(0, n@.len() as int) =~= n@);
        assert(b@ + seq!['/'] == b@.push('/'));
    }
    crate::text::string_of(out)
}

/// The parent of a path that has a `/` after its first character, as
/// `Path::parent` gives it for such paths.
pub open spec fn last_slash(s: Seq<char>) -> int
    decreases s.len(),
{
    if s.len() == 0 {
        -1
    } else if s.last() == '/' {
        s.len() - 1
    } else {
        last_slash(s.drop_last())
    }
}

} // verus!
