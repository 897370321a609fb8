use vstd::prelude::*;

verus! {

/// Whether the sandbox permits a request path. With no root everything is
/// allowed. With a root, the candidate must have canonicalized (a path
/// that could not be canonicalized is denied) and the root's components
/// must be a component-wise prefix of the canonical candidate's, so a
/// sibling directory sharing a mere string prefix is not let through.
pub open spec fn guard_allows(root: Option<Vec<String>>, canonical: Option<Vec<String>>) -> bool {
    match root {
        None => true,
        Some(r) => match canonical {
            None => false,
            Some(c) => r.deep_view().is_prefix_of(c.deep_view()),
        },
    }
}

/// Whether the components of `r` are a prefix of the components of `c`.
pub fn components_prefix(r: &Vec<String>, c: &Vec<String>) -> (b: bool)
    ensures
        b == r.deep_view().is_prefix_of(c.deep_view()),
{
    if r.len() > c.len() {
        return false;
    }
    let mut i: usize = 0;
    while i < r.len()
        invariant
            0 <= i <= r.len() <= c.len(),
            forall|j: int| 0 <= j < i ==> r@[j]@ == c@[j]@,
        decreases r.len() - i,
    {
        if !r[i].eq(&c[i]) {
            proof {
                assert(r.deep_view()[i as int] != c.deep_view()[i as int]);
                assert(!r.deep_view().is_prefix_of(c.deep_view()));
            }
            return false;
        }
        i += 1;
    }
    proof {
        assert(r.deep_view() =~= c.deep_view().subrange(0, r@.len() as int));
    }
    true
}

/// Decides containment for a candidate path against an optional sandbox
/// root, both given as canonical path components.
pub fn guard_check(root: &Option<Vec<String>>, canonical: &Option<Vec<String>>) -> (allowed:
    bool)
    ensures
        allowed == guard_allows(*root, *canonical),
{
    match root {
        None => true,
        Some(r) => match canonical {
            None => false,
            Some(c) => components_prefix(r, c),
        },
    }
}

} // verus!
