//! Paths inside a workspace: their components, their order, and which of them
//! are safe to write.
use vstd::prelude::*;
use vstd::string::StringExecFns;
use crate::ptc::prelude::{below, join_path};
use crate::text::{before, is_before, lemma_before_irreflexive, lemma_before_total, lemma_before_transitive, lemma_split_append, lemma_split_nonempty, same, split, split_text, text, to_chars, views};

verus! {

/// One component of a path.
#[verifier::ext_equal]
pub enum Component {
    RootDir,
    CurDir,
    ParentDir,
    Normal(Seq<char>),
}

/// One component of a path.
#[derive(Clone, Debug, PartialEq, Eq)]
pub enum Part {
    RootDir,
    CurDir,
    ParentDir,
    Normal(String),
}

impl View for Part {
    type V = Component;

    open spec fn view(&self) -> Component {
        match *self {
            Part::RootDir => Component::RootDir,
            Part::CurDir => Component::CurDir,
            Part::ParentDir => Component::ParentDir,
            Part::Normal(name) => Component::Normal(name@),
        }
    }
}

/// Components as plain values.
pub open spec fn part_views(parts: Seq<Part>) -> Seq<Component> {
    parts.map_values(|p: Part| p@)
}

/// Whether a path starts at the root.
pub open spec fn is_absolute(path: Seq<char>) -> bool {
    path.len() > 0 && path[0] == '/'
}

/// The components that the pieces between slashes stand for: none for an empty
/// piece, and none for a single dot but at the beginning.
pub open spec fn components_of(pieces: Seq<Seq<char>>) -> Seq<Component>
    decreases pieces.len(),
{
    if pieces.len() == 0 {
        Seq::empty()
    } else {
        let init = components_of(pieces.drop_last());
        let piece = pieces.last();
        if piece.len() == 0 {
            init
        } else if piece == "."@ {
            if pieces.len() == 1 {
                init.push(Component::CurDir)
            } else {
                init
            }
        } else if piece == ".."@ {
            init.push(Component::ParentDir)
        } else {
            init.push(Component::Normal(piece))
        }
    }
}

/// The components of a path.
pub open spec fn components(path: Seq<char>) -> Seq<Component> {
    if is_absolute(path) {
        seq![Component::RootDir] + components_of(split(path, '/'))
    } else {
        components_of(split(path, '/'))
    }
}

/// The components of a path.
pub fn parts_of(path: &str) -> (r: Vec<Part>)
    ensures
        part_views(r@) == components(path@),
{
    let pieces = split_text(path, '/');
    let ghost all = split(path@, '/');
    let chars = to_chars(path);
    let mut out: Vec<Part> = Vec::new();
    let absolute = chars.len() > 0 && chars[0] == '/';
    if absolute {
        out.push(Part::RootDir);
    }
    let ghost lead: Seq<Component> = if absolute {
        seq![Component::RootDir]
    } else {
        Seq::empty()
    };
    proof {
        assert(part_views(out@) =~= lead);
        assert(lead + components_of(all.take(0)) =~= lead);
    }
    let mut i: usize = 0;
    while i < pieces.len()
        invariant
            i <= pieces.len(),
            views(pieces@) == all,
            part_views(out@) == lead + components_of(all.take(i as int)),
        decreases pieces.len() - i,
    {
        let piece = &pieces[i];
        let ghost was = out@;
        proof {
            assert(all.take(i + 1).drop_last() =~= all.take(i as int));
            assert(all.take(i + 1).last() == piece@);
        }
        if piece.as_str().is_empty() {
        } else if same(piece.as_str(), ".") {
            if i == 0 {
                out.push(Part::CurDir);
                proof {
                    assert(part_views(out@) =~= part_views(was).push(Component::CurDir));
                }
            }
        } else if same(piece.as_str(), "..") {
            out.push(Part::ParentDir);
            proof {
                assert(part_views(out@) =~= part_views(was).push(Component::ParentDir));
            }
        } else {
            out.push(Part::Normal(piece.clone()));
            proof {
                assert(part_views(out@) =~= part_views(was).push(Component::Normal(piece@)));
            }
        }
        proof {
            assert(part_views(out@) =~= lead + components_of(all.take(i + 1)));
        }
        i = i + 1;
    }
    proof {
        assert(all.take(i as int) =~= all);
        assert(lead + components_of(all) =~= components(path@));
    }
    out
}

/// A name below a directory adds one component to those of the directory.
pub proof fn lemma_components_below(dir: Seq<char>, name: Seq<char>)
    requires
        name.len() > 0,
        !name.contains('/'),
        name != "."@,
        name != ".."@,
    ensures
        components(below(dir, name)) == components(dir).push(Component::Normal(name)),
{
    reveal_strlit("/");
    let path = below(dir, name);
    let last = Component::Normal(name);
    assert(name[0] != '/') by {
        if name[0] == '/' {
            assert(name.contains('/'));
        }
    }
    if dir.len() == 0 {
        lemma_split_append(dir, name, '/');
        assert(dir + name =~= name);
        let none: Seq<Seq<char>> = seq![Seq::empty()];
        assert(split(dir, '/') =~= none);
        assert(none.last() + name =~= name);
        assert(split(name, '/') =~= seq![name]);
        assert(seq![name].drop_last() =~= Seq::<Seq<char>>::empty());
        assert(none.drop_last() =~= Seq::<Seq<char>>::empty());
        assert(components_of(Seq::empty()) =~= Seq::<Component>::empty());
        assert(components_of(none) == components_of(none.drop_last()));
        assert(components_of(seq![name]) =~= seq![last]);
        assert(components(dir) =~= Seq::<Component>::empty());
        assert(components(path) =~= components(dir).push(last));
    } else {
        let whole = if dir.last() == '/' {
            dir
        } else {
            dir + "/"@
        };
        let init = split(whole.drop_last(), '/');
        lemma_split_nonempty(whole.drop_last(), '/');
        assert(whole.last() == '/');
        assert(split(whole, '/') == init.push(Seq::empty()));
        assert(path =~= whole + name);
        lemma_split_append(whole, name, '/');
        assert(Seq::<char>::empty() + name =~= name);
        assert(init.push(Seq::empty()).drop_last() =~= init);
        assert(split(path, '/') =~= init.push(name));
        assert(init.push(name).drop_last() =~= init);
        assert(components_of(init.push(name)) == components_of(init).push(last));
        assert(components_of(init.push(Seq::empty())) == components_of(init));
        if dir.last() == '/' {
            assert(components_of(split(dir, '/')) == components_of(init));
        } else {
            assert(whole.drop_last() =~= dir);
        }
        assert(path[0] == dir[0]);
        assert(components(path) =~= components(dir).push(last));
    }
}

/// Whether one list of components begins with another.
pub open spec fn begins_with(a: Seq<Component>, b: Seq<Component>) -> bool {
    b.len() <= a.len() && a.take(b.len() as int) == b
}

/// Whether two components are the same.
fn same_part(a: &Part, b: &Part) -> (r: bool)
    ensures
        r == (a@ == b@),
{
    match (a, b) {
        (Part::RootDir, Part::RootDir) => true,
        (Part::CurDir, Part::CurDir) => true,
        (Part::ParentDir, Part::ParentDir) => true,
        (Part::Normal(x), Part::Normal(y)) => same(x.as_str(), y.as_str()),
        _ => false,
    }
}

/// Whether one list of components begins with another.
fn starts_with_parts(a: &Vec<Part>, b: &Vec<Part>) -> (r: bool)
    ensures
        r == begins_with(part_views(a@), part_views(b@)),
{
    let ghost x = part_views(a@);
    let ghost y = part_views(b@);
    if b.len() > a.len() {
        return false;
    }
    let mut i: usize = 0;
    while i < b.len()
        invariant
            i <= b.len() <= a.len(),
            x == part_views(a@),
            y == part_views(b@),
            forall|j: int| 0 <= j < i ==> x[j] == y[j],
        decreases b.len() - i,
    {
        if !same_part(&a[i], &b[i]) {
            proof {
                assert(x.take(y.len() as int)[i as int] == x[i as int]);
            }
            return false;
        }
        i = i + 1;
    }
    proof {
        assert(x.take(y.len() as int) =~= y);
    }
    true
}

/// Whether one path lies at or below the other.
pub open spec fn overlap(a: Seq<char>, b: Seq<char>) -> bool {
    begins_with(components(a), components(b)) || begins_with(components(b), components(a))
}

/// Whether two paths are made of the same components.
pub fn same_path(left: &str, right: &str) -> (r: bool)
    ensures
        r == (components(left@) == components(right@)),
{
    let a = parts_of(left);
    let b = parts_of(right);
    proof {
        let x = part_views(a@);
        assert(x.take(x.len() as int) =~= x);
    }
    a.len() == b.len() && starts_with_parts(&a, &b)
}

/// Whether two paths are the same, or one lies below the other.
pub fn paths_overlap(left: &str, right: &str) -> (r: bool)
    ensures
        r == overlap(left@, right@),
{
    let a = parts_of(left);
    let b = parts_of(right);
    starts_with_parts(&a, &b) || starts_with_parts(&b, &a)
}

/// Overlap does not depend on the order, and every path overlaps itself.
pub proof fn law_overlap_is_symmetric(a: Seq<char>, b: Seq<char>)
    ensures
        overlap(a, b) == overlap(b, a),
        overlap(a, a),
{
    assert(components(a).take(components(a).len() as int) =~= components(a));
}

/// A path that may be written: relative, made of plain names only, and not
/// below the directories of the runtime or of Git.
pub open spec fn safe(path: Seq<char>) -> bool {
    let all = components(path);
    &&& path.len() > 0
    &&& !is_absolute(path)
    &&& forall|i: int| 0 <= i < all.len() ==> (#[trigger] all[i]) is Normal
    &&& !begins_with(all, seq![Component::Normal(".mh"@)])
    &&& !begins_with(all, seq![Component::Normal(".git"@)])
}

/// Whether a path may be written.
pub fn safe_relative(path: &str) -> (r: bool)
    ensures
        r == safe(path@),
{
    let parts = parts_of(path);
    let chars = to_chars(path);
    let ghost all = components(path@);
    if chars.len() == 0 || chars[0] == '/' {
        return false;
    }
    let mut i: usize = 0;
    while i < parts.len()
        invariant
            i <= parts.len(),
            part_views(parts@) == all,
            all == components(path@),
            forall|j: int| 0 <= j < i ==> (#[trigger] all[j]) is Normal,
        decreases parts.len() - i,
    {
        proof {
            assert(all[i as int] == parts@[i as int]@);
        }
        match &parts[i] {
            Part::Normal(_) => {},
            _ => {
                return false;
            },
        }
        i = i + 1;
    }
    if parts.len() > 0 {
        match &parts[0] {
            Part::Normal(name) => {
                proof {
                    assert(all[0] == Component::Normal(name@));
                    assert(all.take(1) =~= seq![all[0]]);
                    if name@ == ".mh"@ {
                        assert(begins_with(all, seq![Component::Normal(".mh"@)]));
                    }
                    if begins_with(all, seq![Component::Normal(".mh"@)]) {
                        assert(all.take(1)[0] == Component::Normal(".mh"@));
                    }
                    if begins_with(all, seq![Component::Normal(".git"@)]) {
                        assert(all.take(1)[0] == Component::Normal(".git"@));
                    }
                }
                !same(name.as_str(), ".mh") && !same(name.as_str(), ".git")
            },
            _ => {
                proof {
                    assert(all[0] is Normal);
                }
                false
            },
        }
    } else {
        true
    }
}

/// A safe path never leaves the workspace and never reaches the directories of
/// the runtime or of Git, nor does any path below it.
pub proof fn law_safe_paths_stay_in_the_workspace(path: Seq<char>, i: int)
    requires
        safe(path),
        0 <= i < components(path).len(),
    ensures
        components(path)[i] != Component::ParentDir,
        components(path)[i] != Component::RootDir,
        components(path)[0] != Component::Normal(".mh"@),
        components(path)[0] != Component::Normal(".git"@),
{
    let all = components(path);
    assert(all[i] is Normal);
    if all[0] == Component::Normal(".mh"@) {
        assert(all.take(1) =~= seq![Component::Normal(".mh"@)]);
    }
    if all[0] == Component::Normal(".git"@) {
        assert(all.take(1) =~= seq![Component::Normal(".git"@)]);
    }
}

/// The number of components of a path.
pub fn path_depth(path: &str) -> (r: usize)
    ensures
        r == components(path@).len(),
{
    let parts = parts_of(path);
    proof {
        assert(part_views(parts@).len() == parts@.len());
    }
    parts.len()
}

/// The place of a kind of component in the order of components.
pub open spec fn part_rank(c: Component) -> nat {
    match c {
        Component::RootDir => 0,
        Component::CurDir => 1,
        Component::ParentDir => 2,
        Component::Normal(_) => 3,
    }
}

/// The order of components.
pub open spec fn part_before(a: Component, b: Component) -> bool {
    match (a, b) {
        (Component::Normal(x), Component::Normal(y)) => before(x, y),
        _ => part_rank(a) < part_rank(b),
    }
}

/// The order of paths, component by component.
pub open spec fn path_before(a: Seq<Component>, b: Seq<Component>) -> bool
    decreases a.len(),
{
    if b.len() == 0 {
        false
    } else if a.len() == 0 {
        true
    } else if a[0] == b[0] {
        path_before(a.drop_first(), b.drop_first())
    } else {
        part_before(a[0], b[0])
    }
}

proof fn lemma_path_irreflexive(a: Seq<Component>)
    ensures
        !path_before(a, a),
    decreases a.len(),
{
    if a.len() > 0 {
        lemma_path_irreflexive(a.drop_first());
    }
}

proof fn lemma_part_transitive(a: Component, b: Component, c: Component)
    requires
        part_before(a, b),
        part_before(b, c),
    ensures
        part_before(a, c),
        a != c,
{
    match (a, b, c) {
        (Component::Normal(x), Component::Normal(y), Component::Normal(z)) => {
            lemma_before_transitive(x, y, z);
            lemma_before_irreflexive(x);
        },
        _ => {},
    }
}

proof fn lemma_part_total(a: Component, b: Component)
    ensures
        part_before(a, b) || part_before(b, a) || a == b,
        part_before(a, b) ==> a != b,
{
    match (a, b) {
        (Component::Normal(x), Component::Normal(y)) => {
            lemma_before_total(x, y);
            lemma_before_irreflexive(x);
        },
        _ => {},
    }
}

proof fn lemma_path_transitive(a: Seq<Component>, b: Seq<Component>, c: Seq<Component>)
    requires
        path_before(a, b),
        path_before(b, c),
    ensures
        path_before(a, c),
    decreases a.len(),
{
    if a.len() > 0 && b.len() > 0 && c.len() > 0 {
        if a[0] == b[0] && b[0] == c[0] {
            lemma_path_transitive(a.drop_first(), b.drop_first(), c.drop_first());
        } else if a[0] == b[0] || b[0] == c[0] {
            lemma_part_total(a[0], c[0]);
        } else {
            lemma_part_transitive(a[0], b[0], c[0]);
        }
    }
}

proof fn lemma_path_total(a: Seq<Component>, b: Seq<Component>)
    ensures
        path_before(a, b) || path_before(b, a) || a == b,
    decreases a.len(),
{
    if a.len() == 0 && b.len() == 0 {
        assert(a =~= b);
    } else if a.len() > 0 && b.len() > 0 {
        if a[0] == b[0] {
            lemma_path_total(a.drop_first(), b.drop_first());
            if a.drop_first() == b.drop_first() {
                assert(a =~= seq![a[0]] + a.drop_first());
                assert(b =~= seq![b[0]] + b.drop_first());
            }
        } else {
            lemma_part_total(a[0], b[0]);
        }
    }
}

fn rank_of(p: &Part) -> (r: u8)
    ensures
        r == part_rank(p@),
{
    match p {
        Part::RootDir => 0,
        Part::CurDir => 1,
        Part::ParentDir => 2,
        Part::Normal(_) => 3,
    }
}

fn is_part_before(a: &Part, b: &Part) -> (r: bool)
    ensures
        r == part_before(a@, b@),
{
    match (a, b) {
        (Part::Normal(x), Part::Normal(y)) => is_before(x.as_str(), y.as_str()),
        _ => rank_of(a) < rank_of(b),
    }
}

/// Whether one path comes before another.
pub fn is_path_before(left: &str, right: &str) -> (r: bool)
    ensures
        r == path_before(components(left@), components(right@)),
{
    let a = parts_of(left);
    let b = parts_of(right);
    let ghost x = components(left@);
    let ghost y = components(right@);
    let mut i: usize = 0;
    proof {
        assert(x.skip(0) =~= x);
        assert(y.skip(0) =~= y);
    }
    while i < a.len() && i < b.len() && same_part(&a[i], &b[i])
        invariant
            part_views(a@) == x,
            part_views(b@) == y,
            i <= a.len(),
            i <= b.len(),
            path_before(x, y) == path_before(x.skip(i as int), y.skip(i as int)),
        decreases a.len() - i,
    {
        proof {
            assert(x[i as int] == y[i as int]);
            assert(x.skip(i as int).drop_first() =~= x.skip(i + 1));
            assert(y.skip(i as int).drop_first() =~= y.skip(i + 1));
        }
        i = i + 1;
    }
    if i == b.len() {
        false
    } else if i == a.len() {
        true
    } else {
        proof {
            assert(x[i as int] == a@[i as int]@);
            assert(y[i as int] == b@[i as int]@);
        }
        is_part_before(&a[i], &b[i])
    }
}

/// Whether a list holds a path of the given components.
pub open spec fn holds(paths: Seq<String>, key: Seq<Component>) -> bool {
    exists|i: int| 0 <= i < paths.len() && components((#[trigger] paths[i])@) == key
}

/// Whether a path is removed before another: the deeper one first, and of two
/// equally deep ones the later one.
pub open spec fn removed_before(a: Seq<Component>, b: Seq<Component>) -> bool {
    a.len() > b.len() || (a.len() == b.len() && path_before(b, a))
}

/// Whether paths are in their order, none of them twice.
pub open spec fn ascending(paths: Seq<String>) -> bool {
    forall|i: int, j: int|
        0 <= i < j < paths.len() ==> path_before(
            components((#[trigger] paths[i])@),
            components((#[trigger] paths[j])@),
        )
}

/// Whether paths are in the order of removal, none of them twice.
pub open spec fn deepest_first(paths: Seq<String>) -> bool {
    forall|i: int, j: int|
        0 <= i < j < paths.len() ==> removed_before(
            components((#[trigger] paths[i])@),
            components((#[trigger] paths[j])@),
        )
}

/// Adds a path to an ordered list, unless it is there.
fn put_path(paths: &mut Vec<String>, path: &String)
    requires
        ascending(old(paths)@),
    ensures
        ascending(final(paths)@),
        forall|k: Seq<Component>| #[trigger]
            holds(final(paths)@, k) <==> holds(old(paths)@, k) || k == components(path@),
{
    let ghost was = paths@;
    let ghost key = components(path@);
    let mut i: usize = 0;
    while i < paths.len() && is_path_before(paths[i].as_str(), path.as_str())
        invariant
            paths@ == was,
            ascending(was),
            i <= paths.len(),
            key == components(path@),
            forall|j: int| 0 <= j < i ==> path_before(components((#[trigger] was[j])@), key),
        decreases paths.len() - i,
    {
        i = i + 1;
    }
    if i < paths.len() && !is_path_before(path.as_str(), paths[i].as_str()) {
        proof {
            lemma_path_total(components(was[i as int]@), key);
            assert(components(was[i as int]@) == key);
            assert(holds(was, key));
        }
        return ;
    }
    paths.insert(i, path.clone());
    proof {
        let now = paths@;
        assert(now =~= was.insert(i as int, *path));
        if i < was.len() {
            assert forall|j: int| i < j < was.len() implies path_before(
                key,
                components((#[trigger] was[j])@),
            ) by {
                lemma_path_transitive(key, components(was[i as int]@), components(was[j]@));
            }
        }
        assert forall|a: int, b: int| 0 <= a < b < now.len() implies path_before(
            components((#[trigger] now[a])@),
            components((#[trigger] now[b])@),
        ) by {
            if a < i && b < i {
                assert(now[a] == was[a] && now[b] == was[b]);
            } else if a < i && b == i {
                assert(now[a] == was[a]);
            } else if a < i {
                assert(now[a] == was[a] && now[b] == was[b - 1]);
            } else if a == i {
                assert(now[b] == was[b - 1]);
            } else {
                assert(now[a] == was[a - 1] && now[b] == was[b - 1]);
            }
        }
        lemma_holds_insert(was, now, i as int, *path);
    }
}

proof fn lemma_holds_insert(was: Seq<String>, now: Seq<String>, i: int, path: String)
    requires
        0 <= i <= was.len(),
        now == was.insert(i, path),
    ensures
        forall|k: Seq<Component>| #[trigger]
            holds(now, k) <==> holds(was, k) || k == components(path@),
{
    assert forall|k: Seq<Component>| #[trigger] holds(now, k) <==> holds(was, k) || k == components(
        path@,
    ) by {
        if holds(was, k) {
            let j = choose|j: int| 0 <= j < was.len() && components((#[trigger] was[j])@) == k;
            if j < i {
                assert(now[j] == was[j]);
            } else {
                assert(now[j + 1] == was[j]);
            }
        }
        if k == components(path@) {
            assert(now[i] == path);
        }
        if holds(now, k) {
            let j = choose|j: int| 0 <= j < now.len() && components((#[trigger] now[j])@) == k;
            if j < i {
                assert(was[j] == now[j]);
            } else if j > i {
                assert(was[j - 1] == now[j]);
            }
        }
    }
}

/// The paths of a list in their order, none of them twice.
pub fn sorted_paths(paths: &Vec<String>) -> (r: Vec<String>)
    ensures
        ascending(r@),
        forall|k: Seq<Component>| #[trigger] holds(r@, k) <==> holds(paths@, k),
{
    let mut out: Vec<String> = Vec::new();
    let mut i: usize = 0;
    while i < paths.len()
        invariant
            i <= paths.len(),
            ascending(out@),
            forall|k: Seq<Component>| #[trigger]
                holds(out@, k) <==> holds(paths@.take(i as int), k),
        decreases paths.len() - i,
    {
        put_path(&mut out, &paths[i]);
        proof {
            let done = paths@.take(i as int);
            let next = paths@.take(i + 1);
            assert(next =~= done.insert(i as int, paths@[i as int]));
            lemma_holds_insert(done, next, i as int, paths@[i as int]);
        }
        i = i + 1;
    }
    proof {
        assert(paths@.take(i as int) =~= paths@);
    }
    out
}

proof fn lemma_removed_total(a: Seq<Component>, b: Seq<Component>)
    ensures
        removed_before(a, b) || removed_before(b, a) || a == b,
{
    lemma_path_total(a, b);
}

proof fn lemma_removed_transitive(a: Seq<Component>, b: Seq<Component>, c: Seq<Component>)
    requires
        removed_before(a, b),
        removed_before(b, c),
    ensures
        removed_before(a, c),
{
    if a.len() == b.len() && b.len() == c.len() {
        lemma_path_transitive(c, b, a);
    }
}

/// Whether a path is removed before another.
fn is_removed_before(a: &str, b: &str) -> (r: bool)
    ensures
        r == removed_before(components(a@), components(b@)),
{
    let x: usize = path_depth(a);
    let y: usize = path_depth(b);
    x > y || (x == y && is_path_before(b, a))
}

/// The paths of a list in the order of removal: what lies deeper goes first, so
/// that a directory is empty when its turn comes.
pub fn removal_order(paths: &Vec<String>) -> (r: Vec<String>)
    ensures
        deepest_first(r@),
        forall|k: Seq<Component>| #[trigger] holds(r@, k) <==> holds(paths@, k),
{
    let mut out: Vec<String> = Vec::new();
    let mut n: usize = 0;
    while n < paths.len()
        invariant
            n <= paths.len(),
            deepest_first(out@),
            forall|k: Seq<Component>| #[trigger]
                holds(out@, k) <==> holds(paths@.take(n as int), k),
        decreases paths.len() - n,
    {
        let path = &paths[n];
        let ghost was = out@;
        let ghost key = components(path@);
        proof {
            let done = paths@.take(n as int);
            let next = paths@.take(n + 1);
            assert(next =~= done.insert(n as int, paths@[n as int]));
            lemma_holds_insert(done, next, n as int, paths@[n as int]);
        }
        let mut i: usize = 0;
        while i < out.len() && is_removed_before(out[i].as_str(), path.as_str())
            invariant
                out@ == was,
                i <= out.len(),
                key == components(path@),
                forall|j: int| 0 <= j < i ==> removed_before(components((#[trigger] was[j])@), key),
            decreases out.len() - i,
        {
            i = i + 1;
        }
        if i < out.len() && !is_removed_before(path.as_str(), out[i].as_str()) {
            proof {
                lemma_removed_total(components(was[i as int]@), key);
                assert(components(was[i as int]@) == key);
                assert(holds(was, key));
            }
        } else {
            out.insert(i, path.clone());
            proof {
                let now = out@;
                assert(now =~= was.insert(i as int, *path));
                if i < was.len() {
                    assert forall|j: int| i < j < was.len() implies removed_before(
                        key,
                        components((#[trigger] was[j])@),
                    ) by {
                        lemma_removed_transitive(
                            key,
                            components(was[i as int]@),
                            components(was[j]@),
                        );
                    }
                }
                assert forall|a: int, b: int| 0 <= a < b < now.len() implies removed_before(
                    components((#[trigger] now[a])@),
                    components((#[trigger] now[b])@),
                ) by {
                    if a < i && b < i {
                        assert(now[a] == was[a] && now[b] == was[b]);
                    } else if a < i && b == i {
                        assert(now[a] == was[a]);
                    } else if a < i {
                        assert(now[a] == was[a] && now[b] == was[b - 1]);
                    } else if a == i {
                        assert(now[b] == was[b - 1]);
                    } else {
                        assert(now[a] == was[a - 1] && now[b] == was[b - 1]);
                    }
                }
                lemma_holds_insert(was, now, i as int, *path);
            }
        }
        n = n + 1;
    }
    proof {
        assert(paths@.take(n as int) =~= paths@);
    }
    out
}

/// In the order of removal, what lies below a path comes before it.
pub proof fn law_removal_empties_directories_first(paths: Seq<String>, i: int, j: int)
    requires
        deepest_first(paths),
        0 <= i < paths.len(),
        0 <= j < paths.len(),
        begins_with(components(paths[j]@), components(paths[i]@)),
        components(paths[j]@) != components(paths[i]@),
    ensures
        j < i,
{
    let a = components(paths[i]@);
    let b = components(paths[j]@);
    if b.len() == a.len() {
        assert(b.take(a.len() as int) =~= b);
    }
    if i < j {
        assert(removed_before(a, b));
    }
}

/// Whether a list holds a path of the same components as the given one.
pub fn holds_path(paths: &Vec<String>, path: &str) -> (r: bool)
    ensures
        r == holds(paths@, components(path@)),
{
    let wanted = parts_of(path);
    let mut i: usize = 0;
    while i < paths.len()
        invariant
            i <= paths.len(),
            part_views(wanted@) == components(path@),
            forall|j: int|
                0 <= j < i ==> components((#[trigger] paths@[j])@) != components(path@),
        decreases paths.len() - i,
    {
        let parts = parts_of(paths[i].as_str());
        proof {
            assert(part_views(wanted@).len() == wanted@.len());
            assert(part_views(parts@).len() == parts@.len());
        }
        if parts.len() == wanted.len() && starts_with_parts(&parts, &wanted) {
            proof {
                assert(part_views(parts@).take(wanted@.len() as int) =~= part_views(parts@));
                assert(components(paths@[i as int]@) == components(path@));
            }
            return true;
        }
        proof {
            if components(paths@[i as int]@) == components(path@) {
                assert(part_views(parts@).take(wanted@.len() as int) =~= part_views(parts@));
            }
        }
        i = i + 1;
    }
    false
}

/// The names of plain components.
pub open spec fn name_of(c: Component) -> Seq<char> {
    match c {
        Component::RootDir => "/"@,
        Component::CurDir => "."@,
        Component::ParentDir => ".."@,
        Component::Normal(name) => name,
    }
}

/// The directory that is `n` components below `root` on the way to `path`.
pub open spec fn ancestor(root: Seq<char>, all: Seq<Component>, n: nat) -> Seq<char>
    decreases n,
{
    if n == 0 {
        root
    } else {
        below(ancestor(root, all, (n - 1) as nat), name_of(all[n - 1]))
    }
}

/// The directories between a root and a path below it, from the top.
pub open spec fn ancestors(root: Seq<char>, path: Seq<char>) -> Seq<Seq<char>> {
    let all = components(path);
    Seq::new(
        if all.len() == 0 {
            0
        } else {
            (all.len() - 1) as nat
        },
        |i: int| ancestor(root, all, (i + 1) as nat),
    )
}

/// The directories between a root and a path below it, from the top.
pub fn ancestor_paths(root: &str, path: &str) -> (r: Vec<String>)
    ensures
        views(r@) == ancestors(root@, path@),
{
    let parts = parts_of(path);
    let ghost all = components(path@);
    let mut out: Vec<String> = Vec::new();
    let mut current = text(root);
    let mut i: usize = 0;
    proof {
        assert(part_views(parts@).len() == parts@.len());
        assert(views(out@) =~= ancestors(root@, path@).take(0));
    }
    while i + 1 < parts.len()
        invariant
            i <= parts.len(),
            part_views(parts@) == all,
            all.len() == parts@.len(),
            all == components(path@),
            i > 0 ==> i < parts.len(),
            current@ == ancestor(root@, all, i as nat),
            views(out@) == ancestors(root@, path@).take(i as int),
        decreases parts.len() - i,
    {
        proof {
            assert(all[i as int] == parts@[i as int]@);
        }
        let name = match &parts[i] {
            Part::RootDir => text("/"),
            Part::CurDir => text("."),
            Part::ParentDir => text(".."),
            Part::Normal(name) => name.clone(),
        };
        current = join_path(current.as_str(), name.as_str());
        let ghost was = out@;
        out.push(current.clone());
        proof {
            let full = ancestors(root@, path@);
            assert(full[i as int] == current@);
            assert(views(out@) =~= views(was).push(current@));
            assert(full.take(i + 1) =~= full.take(i as int).push(full[i as int]));
        }
        i = i + 1;
    }
    proof {
        let full = ancestors(root@, path@);
        assert(full.take(i as int) =~= full);
    }
    out
}

/// What stands at a path.
#[derive(Clone, Debug, PartialEq, Eq)]
pub enum EntryProbe {
    Missing,
    Directory,
    Symlink,
    Other,
    Unreadable(String),
}

/// The permission bits of a file that is executable, or not.
pub fn executable_mode(mode: u32, executable: bool) -> (r: u32)
    ensures
        executable ==> r == mode | 0o111,
        !executable ==> r == mode & !0o111u32,
{
    if executable {
        mode | 0o111
    } else {
        mode & !0o111u32
    }
}

/// Setting and clearing the executable bits touches no other bit.
pub proof fn law_executable_bits_only(mode: u32)
    ensures
        (mode | 0o111) & 0o111 == 0o111,
        (mode & !0o111u32) & 0o111 == 0,
        (mode | 0o111) & !0o111u32 == mode & !0o111u32,
{
    assert((mode | 0o111) & 0o111 == 0o111) by (bit_vector);
    assert((mode & !0o111u32) & 0o111 == 0) by (bit_vector);
    assert((mode | 0o111) & !0o111u32 == mode & !0o111u32) by (bit_vector);
}

} // verus!
