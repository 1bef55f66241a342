//! Resolved paths: the order they come in, and lists of them without duplicates.

use vstd::prelude::*;

verus! {

// ---------------------------------------------------------------------------
// The order of paths
// ---------------------------------------------------------------------------

/// One component of a path of the system. The kinds are listed in the order in
/// which components of different kinds come.
#[derive(Debug)]
pub enum PathComponent {
    /// The drive or share that a path on Windows starts with.
    Prefix(Vec<u8>),
    /// The root directory.
    RootDir,
    /// The current directory.
    CurDir,
    /// The parent directory.
    ParentDir,
    /// A name.
    Normal(Vec<u8>),
}

/// A path of the system, taken apart into its components.
#[derive(Debug)]
pub struct ResolvedPath<T> {
    /// The components, in order.
    pub components: Vec<PathComponent>,
    /// The path itself.
    pub path: T,
}

/// The place of a kind of components among the others.
pub open spec fn rank(component: PathComponent) -> u8 {
    match component {
        PathComponent::Prefix(_) => 0,
        PathComponent::RootDir => 1,
        PathComponent::CurDir => 2,
        PathComponent::ParentDir => 3,
        PathComponent::Normal(_) => 4,
    }
}

/// The name in a component, if it has one.
pub open spec fn name_bytes(component: PathComponent) -> Seq<u8> {
    match component {
        PathComponent::Prefix(name) => name@,
        PathComponent::Normal(name) => name@,
        _ => Seq::<u8>::empty(),
    }
}

/// What a component is ordered by: its kind, then its name.
pub open spec fn component_key(component: PathComponent) -> Seq<u8> {
    seq![rank(component)] + name_bytes(component)
}

/// What a path is ordered and told apart by: its components.
pub open spec fn path_key<T>(path: ResolvedPath<T>) -> Seq<Seq<u8>> {
    Seq::new(path.components@.len(), |i: int| component_key(path.components@[i]))
}

/// Whether `a` comes before `b`: byte by byte, and a text before its
/// continuations.
pub open spec fn bytes_before(a: Seq<u8>, b: Seq<u8>) -> bool
    decreases a.len(),
{
    if b.len() == 0 {
        false
    } else if a.len() == 0 {
        true
    } else if a[0] != b[0] {
        a[0] < b[0]
    } else {
        bytes_before(a.skip(1), b.skip(1))
    }
}

/// Whether the path with key `a` comes before the one with key `b`: component by
/// component, and a directory before what is in it.
pub open spec fn path_before(a: Seq<Seq<u8>>, b: Seq<Seq<u8>>) -> bool
    decreases a.len(),
{
    if b.len() == 0 {
        false
    } else if a.len() == 0 {
        true
    } else if a[0] != b[0] {
        bytes_before(a[0], b[0])
    } else {
        path_before(a.skip(1), b.skip(1))
    }
}

proof fn lemma_bytes_total(a: Seq<u8>, b: Seq<u8>)
    ensures
        a == b ==> !bytes_before(a, b),
        a != b ==> bytes_before(a, b) == !bytes_before(b, a),
    decreases a.len(),
{
    if a.len() > 0 && b.len() > 0 && a[0] == b[0] {
        lemma_bytes_total(a.skip(1), b.skip(1));
        if a.skip(1) == b.skip(1) {
            assert(a =~= seq![a[0]] + a.skip(1));
            assert(b =~= seq![b[0]] + b.skip(1));
        }
    } else if a.len() == 0 && b.len() == 0 {
        assert(a =~= b);
    }
}

proof fn lemma_bytes_transitive(a: Seq<u8>, b: Seq<u8>, c: Seq<u8>)
    requires
        bytes_before(a, b),
        bytes_before(b, c),
    ensures
        bytes_before(a, c),
    decreases a.len(),
{
    if a.len() > 0 && a[0] == b[0] && b[0] == c[0] {
        lemma_bytes_transitive(a.skip(1), b.skip(1), c.skip(1));
    }
}

/// Of two different paths one comes before the other, and never both.
pub proof fn paths_are_ordered(a: Seq<Seq<u8>>, b: Seq<Seq<u8>>)
    ensures
        a == b ==> !path_before(a, b),
        a != b ==> path_before(a, b) == !path_before(b, a),
    decreases a.len(),
{
    if a.len() > 0 && b.len() > 0 {
        lemma_bytes_total(a[0], b[0]);
        if a[0] == b[0] {
            paths_are_ordered(a.skip(1), b.skip(1));
            if a.skip(1) == b.skip(1) {
                assert(a =~= seq![a[0]] + a.skip(1));
                assert(b =~= seq![b[0]] + b.skip(1));
            }
        }
    } else if a.len() == 0 && b.len() == 0 {
        assert(a =~= b);
    }
}

/// A path that comes before a second one comes before all that follow that.
pub proof fn path_order_is_transitive(a: Seq<Seq<u8>>, b: Seq<Seq<u8>>, c: Seq<Seq<u8>>)
    requires
        path_before(a, b),
        path_before(b, c),
    ensures
        path_before(a, c),
    decreases a.len(),
{
    if a.len() > 0 {
        if a[0] == b[0] && b[0] == c[0] {
            path_order_is_transitive(a.skip(1), b.skip(1), c.skip(1));
        } else if a[0] != b[0] && b[0] != c[0] {
            lemma_bytes_transitive(a[0], b[0], c[0]);
            lemma_bytes_total(a[0], c[0]);
        }
    }
}

/// How one value stands to another.
#[derive(Clone, Copy, PartialEq, Eq, Structural, Debug)]
pub enum Standing {
    /// It comes before the other.
    Before,
    /// They are the same.
    Same,
    /// It comes behind the other.
    Behind,
}

fn bytes_standing(a: &Vec<u8>, b: &Vec<u8>) -> (standing: Standing)
    ensures
        (standing == Standing::Before) == bytes_before(a@, b@),
        (standing == Standing::Same) == (a@ == b@),
{
    let mut i: usize = 0;
    assert(a@.skip(0) =~= a@);
    assert(b@.skip(0) =~= b@);
    while i < a.len() && i < b.len()
        invariant
            i <= a.len(),
            i <= b.len(),
            a@.take(i as int) == b@.take(i as int),
            bytes_before(a@, b@) == bytes_before(a@.skip(i as int), b@.skip(i as int)),
        decreases a.len() - i,
    {
        if a[i] < b[i] {
            return Standing::Before;
        }
        if a[i] > b[i] {
            return Standing::Behind;
        }
        assert(a@.skip(i as int).skip(1) =~= a@.skip(i + 1));
        assert(b@.skip(i as int).skip(1) =~= b@.skip(i + 1));
        assert(a@.take(i + 1) =~= a@.take(i as int).push(a@[i as int]));
        assert(b@.take(i + 1) =~= b@.take(i as int).push(b@[i as int]));
        i += 1;
    }
    if i < b.len() {
        Standing::Before
    } else if i < a.len() {
        Standing::Behind
    } else {
        assert(a@.take(i as int) =~= a@);
        assert(b@.take(i as int) =~= b@);
        Standing::Same
    }
}

fn rank_of(component: &PathComponent) -> (place: u8)
    ensures
        place == rank(*component),
{
    match component {
        PathComponent::Prefix(_) => 0,
        PathComponent::RootDir => 1,
        PathComponent::CurDir => 2,
        PathComponent::ParentDir => 3,
        PathComponent::Normal(_) => 4,
    }
}

fn component_standing(a: &PathComponent, b: &PathComponent) -> (standing: Standing)
    ensures
        (standing == Standing::Before) == bytes_before(component_key(*a), component_key(*b)),
        (standing == Standing::Same) == (component_key(*a) == component_key(*b)),
{
    let (x, y) = (rank_of(a), rank_of(b));
    assert(component_key(*a).skip(1) =~= name_bytes(*a));
    assert(component_key(*b).skip(1) =~= name_bytes(*b));
    assert(component_key(*a)[0] == x);
    assert(component_key(*b)[0] == y);
    if x < y {
        return Standing::Before;
    }
    if x > y {
        return Standing::Behind;
    }
    match (a, b) {
        (PathComponent::Prefix(name), PathComponent::Prefix(other)) => bytes_standing(name, other),
        (PathComponent::Normal(name), PathComponent::Normal(other)) => bytes_standing(name, other),
        _ => {
            assert(!bytes_before(name_bytes(*a), name_bytes(*b)));
            Standing::Same
        },
    }
}

/// How the path `a` stands to the path `b`.
pub fn path_standing<T>(a: &ResolvedPath<T>, b: &ResolvedPath<T>) -> (standing: Standing)
    ensures
        (standing == Standing::Before) == path_before(path_key(*a), path_key(*b)),
        (standing == Standing::Same) == (path_key(*a) == path_key(*b)),
        (standing == Standing::Behind) == path_before(path_key(*b), path_key(*a)),
{
    let ghost x = path_key(*a);
    let ghost y = path_key(*b);
    proof {
        paths_are_ordered(x, y);
        paths_are_ordered(y, x);
    }
    let mut i: usize = 0;
    assert(x.skip(0) =~= x);
    assert(y.skip(0) =~= y);
    while i < a.components.len() && i < b.components.len()
        invariant
            x == path_key(*a),
            y == path_key(*b),
            x == y ==> !path_before(x, y) && !path_before(y, x),
            x != y ==> path_before(x, y) == !path_before(y, x),
            i <= a.components.len(),
            i <= b.components.len(),
            x.take(i as int) == y.take(i as int),
            path_before(x, y) == path_before(x.skip(i as int), y.skip(i as int)),
        decreases a.components.len() - i,
    {
        let standing = component_standing(&a.components[i], &b.components[i]);
        assert(x.skip(i as int)[0] == x[i as int]);
        assert(y.skip(i as int)[0] == y[i as int]);
        if standing != Standing::Same {
            return standing;
        }
        assert(x.skip(i as int).skip(1) =~= x.skip(i + 1));
        assert(y.skip(i as int).skip(1) =~= y.skip(i + 1));
        assert(x.take(i + 1) =~= x.take(i as int).push(x[i as int]));
        assert(y.take(i + 1) =~= y.take(i as int).push(y[i as int]));
        i += 1;
    }
    if i < b.components.len() {
        Standing::Before
    } else if i < a.components.len() {
        Standing::Behind
    } else {
        assert(x.take(i as int) =~= x);
        assert(y.take(i as int) =~= y);
        Standing::Same
    }
}

// ---------------------------------------------------------------------------
// Sorted lists
// ---------------------------------------------------------------------------

/// Whether each path comes before all that follow it; so no path is there twice.
pub open spec fn increasing<T>(paths: Seq<ResolvedPath<T>>) -> bool {
    forall|i: int, j: int|
        0 <= i < j < paths.len() ==> path_before(
            path_key(#[trigger] paths[i]),
            path_key(#[trigger] paths[j]),
        )
}

/// Whether `path` is in `paths`, and is the first of those that are the same.
pub open spec fn first_of_its_kind<T>(paths: Seq<ResolvedPath<T>>, path: ResolvedPath<T>) -> bool {
    exists|k: int|
        0 <= k < paths.len() && #[trigger] paths[k] == path && forall|j: int|
            0 <= j < k ==> path_key(#[trigger] paths[j]) != path_key(path)
}

/// Whether a path that is the same as `path` is in `paths`.
pub open spec fn holds<T>(paths: Seq<ResolvedPath<T>>, path: ResolvedPath<T>) -> bool {
    exists|i: int| 0 <= i < paths.len() && path_key(#[trigger] paths[i]) == path_key(path)
}

/// Whether `sorted` is `paths` in order and without duplicates: of paths that are
/// the same, the first is there and no other.
#[verifier::opaque]
spec fn tidied<T>(paths: Seq<ResolvedPath<T>>, sorted: Seq<ResolvedPath<T>>) -> bool {
    &&& increasing(sorted)
    &&& forall|i: int| 0 <= i < sorted.len() ==> first_of_its_kind(paths, #[trigger] sorted[i])
    &&& forall|k: int| 0 <= k < paths.len() ==> holds(sorted, #[trigger] paths[k])
}

/// Whether `other` is in `list` and is not the same path as `path`.
spec fn kept<T>(
    list: Seq<ResolvedPath<T>>,
    path: ResolvedPath<T>,
    other: ResolvedPath<T>,
) -> bool {
    list.contains(other) && path_key(other) != path_key(path)
}

/// Whether `after` is `before` with `path` in it, in the place of the one that is
/// the same where there is one.
spec fn placed<T>(
    before: Seq<ResolvedPath<T>>,
    path: ResolvedPath<T>,
    after: Seq<ResolvedPath<T>>,
) -> bool {
    &&& after.contains(path)
    &&& forall|i: int|
        0 <= i < after.len() ==> #[trigger] after[i] == path || kept(before, path, after[i])
    &&& forall|i: int| 0 <= i < before.len() ==> holds(after, #[trigger] before[i])
}

proof fn lemma_update<T>(before: Seq<ResolvedPath<T>>, path: ResolvedPath<T>, at: int)
    requires
        increasing(before),
        0 <= at < before.len(),
        path_key(before[at]) == path_key(path),
    ensures
        increasing(before.update(at, path)),
        placed(before, path, before.update(at, path)),
{
    let after = before.update(at, path);
    assert forall|i: int| 0 <= i < after.len() implies path_key(#[trigger] after[i]) == path_key(
        before[i],
    ) by {}
    assert(increasing(after)) by {
        assert forall|i: int, j: int| 0 <= i < j < after.len() implies path_before(
            path_key(#[trigger] after[i]),
            path_key(#[trigger] after[j]),
        ) by {
            assert(path_before(path_key(before[i]), path_key(before[j])));
        }
    }
    assert(after[at] == path);
    assert forall|i: int| 0 <= i < after.len() implies #[trigger] after[i] == path || kept(
        before,
        path,
        after[i],
    ) by {
        if i < at {
            paths_are_ordered(path_key(before[i]), path_key(before[at]));
        } else if i > at {
            paths_are_ordered(path_key(before[at]), path_key(before[i]));
        }
    }
    assert forall|i: int| 0 <= i < before.len() implies holds(after, #[trigger] before[i]) by {
        assert(path_key(after[i]) == path_key(before[i]));
    }
}

proof fn lemma_insert<T>(before: Seq<ResolvedPath<T>>, path: ResolvedPath<T>, at: int)
    requires
        increasing(before),
        0 <= at <= before.len(),
        forall|j: int|
            0 <= j < at ==> path_before(path_key(#[trigger] before[j]), path_key(path)),
        forall|j: int|
            at <= j < before.len() ==> path_before(path_key(path), path_key(#[trigger] before[j])),
    ensures
        increasing(before.insert(at, path)),
        placed(before, path, before.insert(at, path)),
{
    let after = before.insert(at, path);
    assert(after[at] == path);
    assert forall|i: int| 0 <= i < at implies #[trigger] after[i] == before[i] by {}
    assert forall|i: int| at < i < after.len() implies #[trigger] after[i] == before[i - 1] by {}
    assert(increasing(after));
    assert forall|i: int| 0 <= i < after.len() implies #[trigger] after[i] == path || kept(
        before,
        path,
        after[i],
    ) by {
        paths_are_ordered(path_key(after[i]), path_key(path));
        paths_are_ordered(path_key(path), path_key(after[i]));
    }
    assert forall|i: int| 0 <= i < before.len() implies holds(after, #[trigger] before[i]) by {
        let n = if i < at {
            i
        } else {
            i + 1
        };
        assert(path_key(after[n]) == path_key(before[i]));
    }
}

/// Puts `path` in its place in a sorted list.
fn place<T>(
    sorted: &mut Vec<ResolvedPath<T>>,
    path: ResolvedPath<T>,
    Ghost(paths): Ghost<Seq<ResolvedPath<T>>>,
)
    requires
        tidied(paths, old(sorted)@),
    ensures
        tidied(seq![path] + paths, final(sorted)@),
{
    let ghost before = sorted@;
    assert(increasing(before)) by {
        reveal(tidied);
    }
    let mut i: usize = 0;
    while i < sorted.len() && path_standing(&sorted[i], &path) == Standing::Before
        invariant
            sorted@ == old(sorted)@,
            i <= sorted.len(),
            forall|j: int|
                0 <= j < i ==> path_before(path_key(#[trigger] sorted@[j]), path_key(path)),
        decreases sorted.len() - i,
    {
        i += 1;
    }
    if i < sorted.len() && path_standing(&sorted[i], &path) == Standing::Same {
        proof {
            lemma_update(sorted@, path, i as int);
        }
        sorted.set(i, path);
    } else {
        proof {
            assert forall|j: int| i <= j < sorted@.len() implies path_before(
                path_key(path),
                path_key(#[trigger] sorted@[j]),
            ) by {
                if j > i {
                    path_order_is_transitive(
                        path_key(path),
                        path_key(sorted@[i as int]),
                        path_key(sorted@[j]),
                    );
                }
            }
            lemma_insert(sorted@, path, i as int);
        }
        sorted.insert(i, path);
    }
    proof {
        lemma_placed(paths, before, path, sorted@);
    }
}

/// Putting a path in front of the list, and in its place in the sorted one,
/// keeps the two together.
proof fn lemma_placed<T>(
    paths: Seq<ResolvedPath<T>>,
    before: Seq<ResolvedPath<T>>,
    path: ResolvedPath<T>,
    after: Seq<ResolvedPath<T>>,
)
    requires
        tidied(paths, before),
        placed(before, path, after),
        increasing(after),
    ensures
        tidied(seq![path] + paths, after),
{
    reveal(tidied);
    let all = seq![path] + paths;
    assert(all[0] == path);
    assert forall|i: int| 0 <= i < after.len() implies first_of_its_kind(
        all,
        #[trigger] after[i],
    ) by {
        let p = after[i];
        if p != path {
            assert(kept(before, path, p));
            assert(first_of_its_kind(paths, p));
            let k = choose|k: int|
                0 <= k < paths.len() && #[trigger] paths[k] == p && forall|j: int|
                    0 <= j < k ==> path_key(#[trigger] paths[j]) != path_key(p);
            assert(all[k + 1] == p);
            assert forall|j: int| 0 <= j < k + 1 implies path_key(#[trigger] all[j]) != path_key(
                p,
            ) by {
                if j > 0 {
                    assert(all[j] == paths[j - 1]);
                }
            }
        }
    }
    assert forall|k: int| 0 <= k < all.len() implies holds(after, #[trigger] all[k]) by {
        if k == 0 {
            let i = choose|i: int| 0 <= i < after.len() && after[i] == path;
            assert(path_key(after[i]) == path_key(all[k]));
        } else {
            assert(all[k] == paths[k - 1]);
            assert(holds(before, paths[k - 1]));
            let i = choose|i: int|
                0 <= i < before.len() && path_key(#[trigger] before[i]) == path_key(paths[k - 1]);
            assert(holds(after, before[i]));
            let n = choose|n: int|
                0 <= n < after.len() && path_key(#[trigger] after[n]) == path_key(before[i]);
            assert(path_key(after[n]) == path_key(all[k]));
        }
    }
}

/// `paths` in order and without duplicates: of paths that are the same, the first
/// is kept.
pub fn sorted_paths<T>(paths: Vec<ResolvedPath<T>>) -> (sorted: Vec<ResolvedPath<T>>)
    ensures
        increasing(sorted@),
        forall|i: int|
            0 <= i < sorted@.len() ==> first_of_its_kind(paths@, #[trigger] sorted@[i]),
        forall|k: int| 0 <= k < paths@.len() ==> holds(sorted@, #[trigger] paths@[k]),
{
    let ghost all = paths@;
    let mut rest = paths;
    let mut sorted: Vec<ResolvedPath<T>> = Vec::new();
    assert(tidied(all.skip(all.len() as int), sorted@)) by {
        reveal(tidied);
    }
    assert(all.take(all.len() as int) =~= all);
    while rest.len() > 0
        invariant
            rest@.len() <= all.len(),
            rest@ == all.take(rest@.len() as int),
            tidied(all.skip(rest@.len() as int), sorted@),
        decreases rest.len(),
    {
        let ghost n = rest@.len() as int;
        if let Some(path) = rest.pop() {
            assert(path == all[n - 1]);
            place(&mut sorted, path, Ghost(all.skip(n)));
            assert(seq![path] + all.skip(n) =~= all.skip(n - 1));
            assert(rest@ =~= all.take(n - 1));
        }
    }
    assert(all.skip(0) =~= all);
    proof {
        reveal(tidied);
    }
    sorted
}

// ---------------------------------------------------------------------------
// The order, difference by difference
// ---------------------------------------------------------------------------

/// Of two texts the first byte in which they differ decides, and a text comes
/// before its continuations.
pub proof fn the_first_different_byte_decides(
    common: Seq<u8>,
    x: u8,
    a: Seq<u8>,
    y: u8,
    b: Seq<u8>,
)
    requires
        x != y,
    ensures
        bytes_before(common + (seq![x] + a), common + (seq![y] + b)) == (x < y),
        bytes_before(common, common + (seq![y] + b)),
        !bytes_before(common + (seq![x] + a), common),
    decreases common.len(),
{
    let p = common + (seq![x] + a);
    let q = common + (seq![y] + b);
    if common.len() > 0 {
        let rest = common.skip(1);
        the_first_different_byte_decides(rest, x, a, y, b);
        assert(p.skip(1) =~= rest + (seq![x] + a));
        assert(q.skip(1) =~= rest + (seq![y] + b));
    }
}

/// Of two paths the first component in which they differ decides, and a
/// directory comes before what is in it.
pub proof fn the_first_different_component_decides(
    common: Seq<Seq<u8>>,
    x: Seq<u8>,
    a: Seq<Seq<u8>>,
    y: Seq<u8>,
    b: Seq<Seq<u8>>,
)
    requires
        x != y,
    ensures
        path_before(common + (seq![x] + a), common + (seq![y] + b)) == bytes_before(x, y),
        path_before(common, common + (seq![y] + b)),
        !path_before(common + (seq![x] + a), common),
    decreases common.len(),
{
    let p = common + (seq![x] + a);
    let q = common + (seq![y] + b);
    if common.len() > 0 {
        let rest = common.skip(1);
        the_first_different_component_decides(rest, x, a, y, b);
        assert(p.skip(1) =~= rest + (seq![x] + a));
        assert(q.skip(1) =~= rest + (seq![y] + b));
    }
}

/// Components of different kinds come as prefix, root, current directory, parent
/// directory and name, whatever the names are.
pub proof fn kinds_of_components_come_in_order(prefix: Vec<u8>, name: Vec<u8>)
    ensures
        bytes_before(
            component_key(PathComponent::Prefix(prefix)),
            component_key(PathComponent::RootDir),
        ),
        bytes_before(
            component_key(PathComponent::RootDir),
            component_key(PathComponent::CurDir),
        ),
        bytes_before(
            component_key(PathComponent::CurDir),
            component_key(PathComponent::ParentDir),
        ),
        bytes_before(
            component_key(PathComponent::ParentDir),
            component_key(PathComponent::Normal(name)),
        ),
{
}

/// Components of the same kind come by their names.
pub proof fn names_come_in_order(a: Vec<u8>, b: Vec<u8>)
    ensures
        bytes_before(
            component_key(PathComponent::Normal(a)),
            component_key(PathComponent::Normal(b)),
        ) == bytes_before(a@, b@),
        bytes_before(
            component_key(PathComponent::Prefix(a)),
            component_key(PathComponent::Prefix(b)),
        ) == bytes_before(a@, b@),
        component_key(PathComponent::Normal(a)) == component_key(PathComponent::Normal(b)) <==> a@
            == b@,
{
    assert(component_key(PathComponent::Normal(a)).skip(1) =~= a@);
    assert(component_key(PathComponent::Normal(b)).skip(1) =~= b@);
    assert(component_key(PathComponent::Prefix(a)).skip(1) =~= a@);
    assert(component_key(PathComponent::Prefix(b)).skip(1) =~= b@);
}

} // verus!
