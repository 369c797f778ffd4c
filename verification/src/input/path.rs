//! How an input's paths are rewritten before its operations are merged.
use vstd::prelude::*;

verus! {

/// Rewriting of the paths of an input.
#[derive(Debug)]
pub struct PathModification {
    /// When copying over the paths from your OpenAPI specification for this input,
    /// it will strip this string from the start of the path if it is found.
    pub strip_start: Option<String>,
    /// When copying over the paths from your OpenAPI specification for this input,
    /// it will prepend this string to the start of the path.
    /// `prepend` will always run after stripStart so that it is deterministic.
    pub prepend: Option<String>,
}

/// The two strings of a `PathModification`, as plain values.
pub struct PathModificationView {
    pub strip_start: Option<Seq<char>>,
    pub prepend: Option<Seq<char>>,
}

impl View for PathModification {
    type V = PathModificationView;

    open spec fn view(&self) -> PathModificationView {
        PathModificationView {
            strip_start: match self.strip_start {
                Some(s) => Some(s@),
                None => None,
            },
            prepend: match self.prepend {
                Some(p) => Some(p@),
                None => None,
            },
        }
    }
}

/// The view of an optional path modification.
pub open spec fn modification_view(m: Option<PathModification>) -> Option<PathModificationView> {
    match m {
        Some(m) => Some(m@),
        None => None,
    }
}

/// `path` without `strip` at its start, where it starts with it.
pub open spec fn strip_start_spec(strip: Option<Seq<char>>, path: Seq<char>) -> Seq<char> {
    match strip {
        Some(s) => if s.is_prefix_of(path) {
            path.skip(s.len() as int)
        } else {
            path
        },
        None => path,
    }
}

/// The path that an operation at `path` is merged at: first the start to
/// strip is removed where the path starts with it, then the prefix is put in
/// front. Without a modification the path stays as it is.
pub open spec fn modified_path(m: Option<PathModificationView>, path: Seq<char>) -> Seq<char> {
    match m {
        None => path,
        Some(m) => {
            let rest = strip_start_spec(m.strip_start, path);
            match m.prepend {
                Some(p) => p + rest,
                None => rest,
            }
        },
    }
}

/// Whether `path` starts with `prefix`.
fn starts_with(path: &str, prefix: &str) -> (r: bool)
    ensures
        r == prefix@.is_prefix_of(path@),
{
    let n = path.unicode_len();
    let m = prefix.unicode_len();
    if m > n {
        return false;
    }
    let mut i: usize = 0;
    while i < m
        invariant
            m == prefix@.len(),
            n == path@.len(),
            m <= n,
            i <= m,
            prefix@.subrange(0, i as int) == path@.subrange(0, i as int),
        decreases m - i,
    {
        if path.get_char(i) != prefix.get_char(i) {
            assert(prefix@[i as int] != path@.subrange(0, prefix@.len() as int)[i as int]);
            return false;
        }
        assert(prefix@.subrange(0, i + 1) =~= prefix@.subrange(0, i as int).push(prefix@[i as int]));
        assert(path@.subrange(0, i + 1) =~= path@.subrange(0, i as int).push(path@[i as int]));
        i = i + 1;
    }
    assert(prefix@.subrange(0, m as int) =~= prefix@);
    true
}

impl PathModification {
    /// The path that an operation at `path` is merged at: `strip_start` is
    /// removed where the path starts with it, then `prepend` is put in front.
    pub fn apply(&self, path: &str) -> (r: String)
        ensures
            r@ == modified_path(Some(self@), path@),
    {
        let rest: &str = match &self.strip_start {
            Some(s) => {
                if starts_with(path, s.as_str()) {
                    let from = s.as_str().unicode_len();
                    let to = path.unicode_len();
                    path.substring_char(from, to)
                } else {
                    path
                }
            },
            None => path,
        };
        assert(rest@ == strip_start_spec(self@.strip_start, path@));
        match &self.prepend {
            Some(p) => {
                let mut r = p.clone();
                r.append(rest);
                r
            },
            None => rest.to_owned(),
        }
    }
}

/// The path that an operation at `path` is merged at under an optional
/// modification.
pub fn modify_path(m: &Option<PathModification>, path: &str) -> (r: String)
    ensures
        r@ == modified_path(modification_view(*m), path@),
{
    match m {
        Some(m) => m.apply(path),
        None => path.to_owned(),
    }
}

/// A rewritten path is the prefix to put in front (none without one)
/// followed by the rest, and the rest is the original path with the start to
/// strip taken off exactly where the path begins with it: the start to strip
/// followed by the rest gives back the path; otherwise the rest is the path
/// unchanged.
pub proof fn law_modified_path(m: PathModificationView, path: Seq<char>)
    ensures
        ({
            let r = modified_path(Some(m), path);
            let front = match m.prepend {
                Some(p) => p,
                None => Seq::<char>::empty(),
            };
            let rest = r.subrange(front.len() as int, r.len() as int);
            &&& front.len() <= r.len()
            &&& r.subrange(0, front.len() as int) == front
            &&& (m.strip_start is Some && m.strip_start->0.len() <= path.len() && path.subrange(
                0,
                m.strip_start->0.len() as int,
            ) == m.strip_start->0) ==> m.strip_start->0 + rest == path
            &&& !(m.strip_start is Some && m.strip_start->0.len() <= path.len() && path.subrange(
                0,
                m.strip_start->0.len() as int,
            ) == m.strip_start->0) ==> rest == path
        }),
{
    let r = modified_path(Some(m), path);
    let front = match m.prepend {
        Some(p) => p,
        None => Seq::<char>::empty(),
    };
    let t = strip_start_spec(m.strip_start, path);
    assert(r =~= front + t);
    assert(r.subrange(0, front.len() as int) =~= front);
    assert(r.subrange(front.len() as int, r.len() as int) =~= t);
    match m.strip_start {
        Some(s) => {
            if s.len() <= path.len() && path.subrange(0, s.len() as int) == s {
                assert(s.is_prefix_of(path));
                assert(s + path.skip(s.len() as int) =~= path);
            } else {
                assert(!s.is_prefix_of(path));
            }
        },
        None => {},
    }
}

} // verus!
