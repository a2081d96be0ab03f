//! Containment of one path in another, component by component.
//!
//! A path is read as the sequence of its named components: the stretches
//! between `/` that are neither empty nor a lone `.`. A path lies within a
//! base when both are rooted alike and the components of the base are the
//! first components of the path. Comparing whole components keeps
//! `/srv/www2` out of `/srv/www`, and a `..` component equals only another
//! `..`, so a base is never left through one.

use vstd::prelude::*;
use crate::mime::{DOT, SLASH};

verus! {

/// Whether a path starts at the root directory.
pub open spec fn is_rooted(path: Seq<u8>) -> bool {
    path.len() > 0 && path[0] == SLASH
}

/// The end of the segment that starts at `from`: the position of the next
/// `/`, or the length of the path.
pub open spec fn segment_end(path: Seq<u8>, from: int) -> int
    decreases path.len() - from,
{
    if from >= path.len() {
        path.len() as int
    } else if path[from] == SLASH {
        from
    } else {
        segment_end(path, from + 1)
    }
}

/// Whether a segment names something: it is neither empty nor a lone `.`.
pub open spec fn is_named(segment: Seq<u8>) -> bool {
    segment.len() > 0 && !(segment.len() == 1 && segment[0] == DOT)
}

/// The named components of a path from position `from` on.
pub open spec fn components_from(path: Seq<u8>, from: int) -> Seq<Seq<u8>>
    decreases path.len() + 1 - from,
    via components_from_decreases
{
    if from < 0 || from >= path.len() {
        Seq::empty()
    } else {
        let end = segment_end(path, from);
        let segment = path.subrange(from, end);
        let rest = components_from(path, end + 1);
        if is_named(segment) {
            seq![segment] + rest
        } else {
            rest
        }
    }
}

#[via_fn]
proof fn components_from_decreases(path: Seq<u8>, from: int) {
    if 0 <= from < path.len() {
        lemma_segment_end(path, from);
    }
}

/// The named components of a path.
pub open spec fn components(path: Seq<u8>) -> Seq<Seq<u8>> {
    components_from(path, 0)
}

/// Whether `path` lies within `base`: both are rooted alike, and the
/// components of `base` are the first components of `path`.
pub open spec fn path_within(path: Seq<u8>, base: Seq<u8>) -> bool {
    is_rooted(path) == is_rooted(base) && components(base).is_prefix_of(components(path))
}

/// A segment ends at or after its start, within the path, on a `/` or at
/// the end, and holds no `/`.
pub proof fn lemma_segment_end(path: Seq<u8>, from: int)
    requires
        0 <= from <= path.len(),
    ensures
        from <= segment_end(path, from) <= path.len(),
        segment_end(path, from) < path.len() ==> path[segment_end(path, from)] == SLASH,
        forall|k: int| from <= k < segment_end(path, from) ==> path[k] != SLASH,
    decreases path.len() - from,
{
    if from < path.len() && path[from] != SLASH {
        lemma_segment_end(path, from + 1);
    }
}

/// A stretch without `/` that stops on a `/` or at the end is a segment.
proof fn lemma_segment_end_is(path: Seq<u8>, from: int, end: int)
    requires
        0 <= from <= end <= path.len(),
        end < path.len() ==> path[end] == SLASH,
        forall|k: int| from <= k < end ==> path[k] != SLASH,
    ensures
        segment_end(path, from) == end,
    decreases end - from,
{
    if from < end {
        lemma_segment_end_is(path, from + 1, end);
    }
}

/// A sequence that starts with `a` is a prefix of one that starts with `b`
/// exactly when `a` is `b` and the rest is a prefix of the rest.
proof fn lemma_prefix_step(a: Seq<u8>, rest_a: Seq<Seq<u8>>, b: Seq<u8>, rest_b: Seq<Seq<u8>>)
    ensures
        (seq![a] + rest_a).is_prefix_of(seq![b] + rest_b) <==> (a == b && rest_a.is_prefix_of(
            rest_b,
        )),
{
    let left = seq![a] + rest_a;
    let right = seq![b] + rest_b;
    if left.is_prefix_of(right) {
        assert(left[0] == right[0]);
        assert(rest_a.len() <= rest_b.len());
        assert forall|i: int| 0 <= i < rest_a.len() implies rest_a[i] == rest_b[i] by {
            assert(left[i + 1] == right[i + 1]);
        }
        assert(rest_a =~= rest_b.subrange(0, rest_a.len() as int));
    }
    if a == b && rest_a.is_prefix_of(rest_b) {
        assert forall|i: int| 0 <= i < left.len() implies left[i] == right[i] by {
            if i > 0 {
                assert(rest_a[i - 1] == rest_b[i - 1]);
            }
        }
        assert(left =~= right.subrange(0, left.len() as int));
    }
}

/// The next named component of `path` at or after `from`, as the positions
/// where it starts and ends.
fn next_component(path: &[u8], from: usize) -> (r: Option<(usize, usize)>)
    requires
        from <= path@.len(),
    ensures
        match r {
            Some((start, end)) => {
                &&& from <= start < end <= path@.len()
                &&& components_from(path@, from as int) == seq![
                    path@.subrange(start as int, end as int),
                ] + components_from(path@, end + 1)
            },
            None => components_from(path@, from as int) == Seq::<Seq<u8>>::empty(),
        },
{
    let n: usize = path.len();
    let mut start: usize = from;
    while start < n
        invariant
            n == path@.len(),
            from <= start <= n,
            components_from(path@, from as int) == components_from(path@, start as int),
        decreases n - start,
    {
        let mut end: usize = start;
        while end < n && path[end] != SLASH
            invariant
                n == path@.len(),
                start <= end <= n,
                forall|k: int| start <= k < end ==> path@[k] != SLASH,
            decreases n - end,
        {
            end = end + 1;
        }
        proof {
            lemma_segment_end_is(path@, start as int, end as int);
        }
        let named = end > start && !(end - start == 1 && path[start] == DOT);
        assert(named == is_named(path@.subrange(start as int, end as int)));
        if named {
            return Some((start, end));
        }
        if end == n {
            assert(components_from(path@, end + 1) == Seq::<Seq<u8>>::empty());
            return None;
        }
        start = end + 1;
    }
    None
}

/// Whether two stretches of bytes are equal.
fn same_bytes(a: &[u8], a_start: usize, a_end: usize, b: &[u8], b_start: usize, b_end: usize) -> (r:
    bool)
    requires
        a_start <= a_end <= a@.len(),
        b_start <= b_end <= b@.len(),
    ensures
        r == (a@.subrange(a_start as int, a_end as int) == b@.subrange(
            b_start as int,
            b_end as int,
        )),
{
    let ghost left = a@.subrange(a_start as int, a_end as int);
    let ghost right = b@.subrange(b_start as int, b_end as int);
    let n: usize = a_end - a_start;
    if b_end - b_start != n {
        assert(left.len() != right.len());
        return false;
    }
    let mut i: usize = 0;
    while i < n
        invariant
            a_start + n == a_end <= a@.len(),
            b_start + n == b_end <= b@.len(),
            left == a@.subrange(a_start as int, a_end as int),
            right == b@.subrange(b_start as int, b_end as int),
            i <= n,
            forall|k: int| 0 <= k < i ==> left[k] == right[k],
        decreases n - i,
    {
        if a[a_start + i] != b[b_start + i] {
            assert(left[i as int] != right[i as int]);
            return false;
        }
        i = i + 1;
    }
    assert(left =~= right);
    true
}

/// Whether `path` lies within `base`, component by component.
pub fn starts_with(path: &[u8], base: &[u8]) -> (r: bool)
    ensures
        r == path_within(path@, base@),
{
    let path_rooted = path.len() > 0 && path[0] == SLASH;
    let base_rooted = base.len() > 0 && base[0] == SLASH;
    if path_rooted != base_rooted {
        return false;
    }
    let mut i: usize = 0;
    let mut j: usize = 0;
    loop
        invariant
            i <= base@.len(),
            j <= path@.len(),
            is_rooted(path@) == is_rooted(base@),
            components(base@).is_prefix_of(components(path@)) <==> components_from(
                base@,
                i as int,
            ).is_prefix_of(components_from(path@, j as int)),
        decreases base@.len() - i,
    {
        let (base_start, base_end) = match next_component(base, i) {
            Some(found) => found,
            None => {
                return true;
            },
        };
        let (path_start, path_end) = match next_component(path, j) {
            Some(found) => found,
            None => {
                return false;
            },
        };
        proof {
            lemma_prefix_step(
                base@.subrange(base_start as int, base_end as int),
                components_from(base@, base_end + 1),
                path@.subrange(path_start as int, path_end as int),
                components_from(path@, path_end + 1),
            );
        }
        if !same_bytes(base, base_start, base_end, path, path_start, path_end) {
            return false;
        }
        if base_end == base.len() {
            return true;
        }
        i = base_end + 1;
        if path_end == path.len() {
            proof {
                assert(components_from(path@, path_end + 1) == Seq::<Seq<u8>>::empty());
            }
            j = path_end;
        } else {
            j = path_end + 1;
        }
    }
}

} // verus!
