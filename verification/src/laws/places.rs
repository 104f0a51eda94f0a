//! What paths are, in what order they come, and which of them may be written.
use vstd::prelude::*;
use crate::paths::{ancestor, ancestors, begins_with, components, components_of, lemma_components_below, path_before, removed_before, safe, Component};
use crate::ptc::prelude::below;
use crate::text::{before, lemma_split_append, lemma_split_nonempty, split};

verus! {

/// A path is made of the names on it: one more for each directory down. A slash at
/// its end, and a dot for where one is, add nothing to it.
pub proof fn law_a_path_is_made_of_its_names(dir: Seq<char>, name: Seq<char>)
    requires
        dir.len() > 0,
        name.len() > 0,
        !name.contains('/'),
        name != "."@,
        name != ".."@,
    ensures
        components(below(dir, name)) == components(dir).push(Component::Normal(name)),
        components(dir.push('/')) == components(dir),
        components(below(dir, "."@)) == components(dir),
        components(below(dir, ".."@)) == components(dir).push(Component::ParentDir),
        components(name) == seq![Component::Normal(name)],
        components("/"@) == seq![Component::RootDir],
{
    reveal_strlit(".");
    reveal_strlit("..");
    reveal_strlit("/");
    lemma_components_below(dir, name);
    let none = Seq::<char>::empty();
    lemma_components_below(none, name);
    lemma_nothing();
    assert(seq![Component::Normal(name)] =~= components(none).push(Component::Normal(name)));
    lemma_slash(dir);
    lemma_below_piece(dir, "."@);
    lemma_below_piece(dir, ".."@);
    lemma_slash(none.push('/'));
    assert("/"@ =~= none.push('/'));
    lemma_root();
}

proof fn lemma_nothing()
    ensures
        components(Seq::<char>::empty()) == Seq::<Component>::empty(),
{
    let none = Seq::<char>::empty();
    let pieces = split(none, '/');
    assert(pieces =~= seq![none]);
    assert(pieces.drop_last() =~= Seq::<Seq<char>>::empty());
    assert(components_of(Seq::empty()) =~= Seq::<Component>::empty());
    assert(components_of(pieces) == components_of(pieces.drop_last()));
}

proof fn lemma_root()
    ensures
        components(seq!['/']) == seq![Component::RootDir],
{
    let s = seq!['/'];
    let none = Seq::<char>::empty();
    assert(s.drop_last() =~= none);
    assert(split(none, '/') =~= seq![none]);
    assert(split(s, '/') =~= seq![none].push(none));
    let pieces = split(s, '/');
    assert(pieces.drop_last() =~= seq![none]);
    assert(seq![none].drop_last() =~= Seq::<Seq<char>>::empty());
    assert(components_of(Seq::empty()) =~= Seq::<Component>::empty());
    assert(components_of(seq![none]) == components_of(seq![none].drop_last()));
    assert(components_of(pieces) == components_of(pieces.drop_last()));
    assert(components(s) =~= seq![Component::RootDir]);
}

proof fn lemma_slash(dir: Seq<char>)
    requires
        dir.len() > 0,
    ensures
        components(dir.push('/')) == components(dir),
{
    let s = dir.push('/');
    assert(s.drop_last() =~= dir);
    let pieces = split(dir, '/');
    assert(split(s, '/') == pieces.push(Seq::empty()));
    assert(pieces.push(Seq::<char>::empty()).drop_last() =~= pieces);
    assert(components_of(split(s, '/')) == components_of(pieces));
    assert(s[0] == dir[0]);
}

proof fn lemma_below_piece(dir: Seq<char>, name: Seq<char>)
    requires
        dir.len() > 0,
        name == "."@ || name == ".."@,
    ensures
        name == "."@ ==> components(below(dir, name)) == components(dir),
        name == ".."@ ==> components(below(dir, name)) == components(dir).push(
            Component::ParentDir,
        ),
{
    reveal_strlit(".");
    reveal_strlit("..");
    reveal_strlit("/");
    assert("."@.len() == 1 && ".."@.len() == 2);
    let whole = if dir.last() == '/' {
        dir
    } else {
        dir + "/"@
    };
    let path = below(dir, name);
    let init = split(whole.drop_last(), '/');
    lemma_split_nonempty(whole.drop_last(), '/');
    assert(whole.last() == '/');
    assert(split(whole, '/') == init.push(Seq::empty()));
    assert(path =~= whole + name);
    assert(!name.contains('/'));
    lemma_split_append(whole, name, '/');
    assert(Seq::<char>::empty() + name =~= name);
    assert(init.push(Seq::<char>::empty()).drop_last() =~= init);
    assert(split(path, '/') =~= init.push(name));
    assert(init.push(name).drop_last() =~= init);
    assert(components_of(init.push(Seq::empty())) == components_of(init));
    assert(path[0] == dir[0]);
    let base = if dir.last() == '/' {
        dir.drop_last()
    } else {
        dir
    };
    assert(whole.drop_last() =~= base);
    assert(components_of(split(dir, '/')) == components_of(init));
    if name == ".."@ {
        assert(components_of(init.push(name)) == components_of(init).push(Component::ParentDir));
        assert(components(path) =~= components(dir).push(Component::ParentDir));
    } else {
        assert(components_of(init.push(name)) == components_of(init));
        assert(components(path) =~= components(dir));
    }
}

/// A path may be written exactly where it is relative, made of plain names, and
/// not in the directories of the runtime or of Git.
pub proof fn law_a_path_may_be_written_inside_the_workspace(path: Seq<char>, i: int)
    ensures
        0 <= i < components(path).len() && (components(path)[i] == Component::ParentDir
            || components(path)[i] == Component::RootDir || components(path)[i]
            == Component::CurDir) ==> !safe(path),
        path.len() > 0 && path[0] == '/' ==> !safe(path),
        path.len() == 0 ==> !safe(path),
        components(path).len() > 0 && (components(path)[0] == Component::Normal(".mh"@)
            || components(path)[0] == Component::Normal(".git"@)) ==> !safe(path),
        path.len() > 0 && path[0] != '/' && components(path).len() > 0 && components(path)[0]
            != Component::Normal(".mh"@) && components(path)[0] != Component::Normal(".git"@) && (
        forall|k: int| 0 <= k < components(path).len() ==> (#[trigger] components(path)[k])
            is Normal) ==> safe(path),
{
    let all = components(path);
    if all.len() > 0 {
        assert(all.take(1) =~= seq![all[0]]);
        assert(seq![Component::Normal(".mh"@)][0] == Component::Normal(".mh"@));
        assert(seq![Component::Normal(".git"@)][0] == Component::Normal(".git"@));
        if begins_with(all, seq![Component::Normal(".mh"@)]) {
            assert(all.take(1)[0] == Component::Normal(".mh"@));
        }
        if begins_with(all, seq![Component::Normal(".git"@)]) {
            assert(all.take(1)[0] == Component::Normal(".git"@));
        }
    }
}

/// A path comes before what lies below it, and two names in one directory come in
/// the order of the names.
pub proof fn law_paths_come_in_order(
    dir: Seq<Component>,
    x: Seq<char>,
    y: Seq<char>,
    more: Seq<Component>,
)
    requires
        x != y,
    ensures
        more.len() > 0 ==> path_before(dir, dir + more) && !path_before(dir + more, dir),
        !path_before(dir, dir),
        path_before(
            dir + (seq![Component::Normal(x)] + more),
            dir + (seq![Component::Normal(y)] + more),
        ) == before(x, y),
    decreases dir.len(),
{
    let a = seq![Component::Normal(x)] + more;
    let b = seq![Component::Normal(y)] + more;
    if dir.len() == 0 {
        assert(dir + more =~= more);
        assert(dir + a =~= a);
        assert(dir + b =~= b);
        assert(a[0] == Component::Normal(x));
        assert(b[0] == Component::Normal(y));
    } else {
        let rest = dir.drop_first();
        law_paths_come_in_order(rest, x, y, more);
        assert((dir + more).drop_first() =~= rest + more);
        assert((dir + a).drop_first() =~= rest + a);
        assert((dir + b).drop_first() =~= rest + b);
        if more.len() > 0 {
            assert((dir + more)[0] == dir[0]);
        }
        assert((dir + a)[0] == dir[0]);
        assert((dir + b)[0] == dir[0]);
    }
}

/// A text comes before what continues it, and two texts that differ come in the
/// order of the first characters in which they do.
pub proof fn law_texts_come_in_order(
    s: Seq<char>,
    x: char,
    y: char,
    a: Seq<char>,
    b: Seq<char>,
)
    requires
        x != y,
    ensures
        before(s, s.push(x)),
        !before(s.push(x), s),
        before(s + (seq![x] + a), s + (seq![y] + b)) <==> (x as u32) < (y as u32),
    decreases s.len(),
{
    let p = seq![x] + a;
    let q = seq![y] + b;
    if s.len() == 0 {
        assert(s + p =~= p);
        assert(s + q =~= q);
        assert(p[0] == x);
        assert(q[0] == y);
    } else {
        let rest = s.drop_first();
        law_texts_come_in_order(rest, x, y, a, b);
        assert((s + p).drop_first() =~= rest + p);
        assert((s + q).drop_first() =~= rest + q);
        assert((s + p)[0] == s[0]);
        assert((s + q)[0] == s[0]);
        assert(s.push(x).drop_first() =~= rest.push(x));
        assert(s.push(x)[0] == s[0]);
    }
}

/// What lies deeper is removed first.
pub proof fn law_what_lies_deeper_is_removed_first(a: Seq<Component>, b: Seq<Component>)
    ensures
        a.len() > b.len() ==> removed_before(a, b) && !removed_before(b, a),
        a.len() == b.len() && path_before(b, a) ==> removed_before(a, b),
{
}

/// The directories above a path lead down to it, each in the one before, from the
/// root on.
pub proof fn law_the_directories_above_lead_down(root: Seq<char>, path: Seq<char>, i: int)
    ensures
        components(path).len() > 0 ==> ancestors(root, path).len() == components(path).len() - 1,
        components(path).len() == 0 ==> ancestors(root, path).len() == 0,
        0 < ancestors(root, path).len() && components(path)[0] is Normal ==> ancestors(
            root,
            path,
        )[0] == below(root, components(path)[0]->Normal_0),
        0 < i < ancestors(root, path).len() && components(path)[i] is Normal ==> ancestors(
            root,
            path,
        )[i] == below(ancestors(root, path)[i - 1], components(path)[i]->Normal_0),
{
    let all = components(path);
    if 0 < ancestors(root, path).len() {
        assert(ancestors(root, path)[0] == ancestor(root, all, 1));
        reveal_with_fuel(ancestor, 2);
    }
}

/// A path lies at or below another where it begins with all of its names.
pub proof fn law_what_lies_below_begins_with_what_is_above(
    a: Seq<Component>,
    more: Seq<Component>,
    b: Seq<Component>,
)
    ensures
        begins_with(a + more, a),
        begins_with(a, b) ==> exists|rest: Seq<Component>| a == #[trigger] (b + rest),
{
    assert((a + more).take(a.len() as int) =~= a);
    if begins_with(a, b) {
        let rest = a.skip(b.len() as int);
        assert(a =~= b + rest);
    }
}

} // verus!
