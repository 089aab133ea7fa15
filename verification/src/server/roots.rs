//! Roots support for file system access.
//!
//! Clients can provide a list of root URIs that the server is allowed to
//! access. This is useful for sandboxing file operations and providing
//! context about the user's workspace.

use vstd::prelude::*;
use crate::types::{Root, RootView, root_views};
use crate::text::starts_with;

verus! {

/// Some root's URI is a prefix of `uri`.
pub open spec fn some_root_contains(roots: Seq<RootView>, uri: Seq<char>) -> bool {
    exists|i: int| 0 <= i < roots.len() && #[trigger] roots[i].uri.is_prefix_of(uri)
}

/// A URI is allowed when no root is declared (backwards compatibility) or
/// when it starts with some root's URI.
pub open spec fn within_roots(roots: Seq<RootView>, uri: Seq<char>) -> bool {
    roots.len() == 0 || some_root_contains(roots, uri)
}

/// Manages the client's declared root URIs.
///
/// Roots are directories or files that the client has exposed to the
/// server. The server should only access files within these roots.
pub struct RootsManager {
    roots: Vec<Root>,
}

impl RootsManager {
    /// The declared roots, in the order the client gave them.
    pub closed spec fn view(&self) -> Seq<RootView> {
        root_views(self.roots@)
    }

    /// Create a new roots manager with no roots.
    pub fn new() -> (m: Self)
        ensures
            m.view() == Seq::<RootView>::empty(),
    {
        let m = RootsManager { roots: Vec::new() };
        assert(m.view() =~= Seq::<RootView>::empty());
        m
    }

    /// Set the list of roots from the client, replacing the previous list.
    pub fn set_roots(&mut self, roots: Vec<Root>)
        ensures
            final(self).view() == root_views(roots@),
    {
        self.roots = roots;
    }

    /// Get all declared roots.
    pub fn roots(&self) -> (r: Vec<Root>)
        ensures
            root_views(r@) == self.view(),
    {
        let mut r: Vec<Root> = Vec::new();
        let mut i: usize = 0;
        while i < self.roots.len()
            invariant
                i <= self.roots@.len(),
                root_views(r@) == root_views(self.roots@).take(i as int),
            decreases self.roots@.len() - i,
        {
            let ghost old_r = r@;
            let d = self.roots[i].duplicate();
            r.push(d);
            assert(r@ =~= old_r.push(d));
            assert(root_views(r@) =~= root_views(old_r).push(d@));
            assert(root_views(r@) =~= root_views(self.roots@).take(i + 1));
            i = i + 1;
        }
        assert(root_views(self.roots@).take(self.roots@.len() as int) =~= root_views(self.roots@));
        r
    }

    /// Check if a URI is within any declared root.
    ///
    /// Returns `true` if the URI starts with any root URI prefix, and also
    /// when no root is declared.
    pub fn is_within_roots(&self, uri: &str) -> (r: bool)
        ensures
            r == within_roots(self.view(), uri@),
    {
        if self.roots.len() == 0 {
            return true;
        }
        let mut i: usize = 0;
        while i < self.roots.len()
            invariant
                i <= self.roots@.len(),
                forall|j: int| 0 <= j < i ==> !(#[trigger] self.view()[j]).uri.is_prefix_of(uri@),
            decreases self.roots@.len() - i,
        {
            if starts_with(uri, self.roots[i].uri.as_str()) {
                assert(self.view()[i as int].uri.is_prefix_of(uri@));
                return true;
            }
            i = i + 1;
        }
        false
    }

    /// Find the first root that contains a given URI.
    pub fn find_root(&self, uri: &str) -> (r: Option<Root>)
        ensures
            r matches Some(root) ==> exists|i: int| 0 <= i < self.view().len()
                && #[trigger] self.view()[i] == root@
                && root@.uri.is_prefix_of(uri@)
                && forall|j: int| 0 <= j < i ==> !(#[trigger] self.view()[j]).uri.is_prefix_of(uri@),
            r is None ==> !some_root_contains(self.view(), uri@),
    {
        let mut i: usize = 0;
        while i < self.roots.len()
            invariant
                i <= self.roots@.len(),
                forall|j: int| 0 <= j < i ==> !(#[trigger] self.view()[j]).uri.is_prefix_of(uri@),
            decreases self.roots@.len() - i,
        {
            if starts_with(uri, self.roots[i].uri.as_str()) {
                let root = self.roots[i].duplicate();
                assert(self.view()[i as int] == root@);
                return Some(root);
            }
            i = i + 1;
        }
        None
    }

    /// Get the number of declared roots.
    pub fn count(&self) -> (n: usize)
        ensures
            n == self.view().len(),
    {
        self.roots.len()
    }

    /// Check if any roots are declared.
    pub fn has_roots(&self) -> (b: bool)
        ensures
            b == (self.view().len() > 0),
    {
        self.roots.len() > 0
    }

    /// Clear all roots.
    pub fn clear(&mut self)
        ensures
            final(self).view() == Seq::<RootView>::empty(),
    {
        self.roots = Vec::new();
        assert(self.view() =~= Seq::<RootView>::empty());
    }
}

/// With no root declared every URI is allowed.
pub proof fn law_no_roots_allows_all(uri: Seq<char>)
    ensures
        within_roots(Seq::<RootView>::empty(), uri),
{
}

/// A URI under some root is allowed, whatever the other roots; once roots
/// are declared, a URI under none of them is refused.
pub proof fn law_within_roots_is_prefix_test(roots: Seq<RootView>, uri: Seq<char>, i: int)
    requires
        0 <= i < roots.len(),
    ensures
        roots[i].uri.is_prefix_of(uri) ==> within_roots(roots, uri),
        !some_root_contains(roots, uri) ==> !within_roots(roots, uri),
{
}

/// A root's own URI is within the roots.
pub proof fn law_root_is_within_roots(roots: Seq<RootView>, i: int)
    requires
        0 <= i < roots.len(),
    ensures
        within_roots(roots, roots[i].uri),
{
    assert(roots[i].uri.is_prefix_of(roots[i].uri));
}

} // verus!
