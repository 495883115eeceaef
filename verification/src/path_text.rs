//! Unix paths as byte strings.
use vstd::prelude::*;

verus! {

/// The byte that separates the components of a path.
pub const SEPARATOR: u8 = 47;

/// The byte of which the current-directory component consists.
pub const DOT: u8 = 46;

/// Whether a path starts at the root.
pub open spec fn is_rooted(path: Seq<u8>) -> bool {
    path.len() > 0 && path[0] == SEPARATOR
}

/// Decides [`is_rooted`].
pub fn rooted(path: &[u8]) -> (rooted: bool)
    ensures
        rooted == is_rooted(path@),
{
    path.len() > 0 && path[0] == SEPARATOR
}

/// The path `name` below the directory `dir`.
pub open spec fn below(dir: Seq<u8>, name: Seq<u8>) -> Seq<u8> {
    if dir.len() == 0 || dir.last() == SEPARATOR {
        dir + name
    } else {
        dir.push(SEPARATOR) + name
    }
}

/// Computes [`below`].
pub fn join(dir: &[u8], name: &str) -> (path: Vec<u8>)
    ensures
        path@ == below(dir@, vstd::utf8::encode_utf8(name@)),
{
    let mut path: Vec<u8> = Vec::new();
    path.extend_from_slice(dir);
    assert(path@ =~= dir@);
    if dir.len() > 0 && dir[dir.len() - 1] != SEPARATOR {
        path.push(SEPARATOR);
    }
    path.extend_from_slice(name.as_bytes());
    assert(path@ =~= below(dir@, vstd::utf8::encode_utf8(name@)));
    path
}

/// The byte strings between the separators of a path.
pub open spec fn pieces(path: Seq<u8>) -> Seq<Seq<u8>>
    decreases path.len(),
{
    if path.len() == 0 {
        seq![seq![]]
    } else {
        let earlier = pieces(path.drop_last());
        if path.last() == SEPARATOR {
            earlier.push(seq![])
        } else {
            earlier.drop_last().push(earlier.last().push(path.last()))
        }
    }
}

/// The components of a path given by its pieces: empty pieces do not count,
/// nor does a dot, except at the beginning of a relative path.
pub open spec fn named(pieces: Seq<Seq<u8>>) -> Seq<Seq<u8>>
    decreases pieces.len(),
{
    if pieces.len() == 0 {
        seq![]
    } else {
        let earlier = named(pieces.drop_last());
        let piece = pieces.last();
        if piece.len() == 0 || (pieces.len() > 1 && piece == seq![DOT]) {
            earlier
        } else {
            earlier.push(piece)
        }
    }
}

/// The components of a path.
pub open spec fn components_of(path: Seq<u8>) -> Seq<Seq<u8>> {
    named(pieces(path))
}

/// Whether two paths are equal component by component.
pub open spec fn same_path(a: Seq<u8>, b: Seq<u8>) -> bool {
    is_rooted(a) == is_rooted(b) && components_of(a) == components_of(b)
}

/// The contents of a list of byte strings.
pub open spec fn contents(list: Seq<Vec<u8>>) -> Seq<Seq<u8>> {
    list.map_values(|bytes: Vec<u8>| bytes@)
}

/// Computes [`pieces`].
fn split(path: &[u8]) -> (list: Vec<Vec<u8>>)
    ensures
        contents(list@) == pieces(path@),
{
    let mut list: Vec<Vec<u8>> = Vec::new();
    let mut current: Vec<u8> = Vec::new();
    let mut i: usize = 0;
    assert(contents(list@).push(current@) =~= pieces(path@.take(0)));
    while i < path.len()
        invariant
            i <= path@.len(),
            contents(list@).push(current@) == pieces(path@.take(i as int)),
        decreases path@.len() - i,
    {
        let ghost before = contents(list@).push(current@);
        proof {
            assert(path@.take(i + 1).drop_last() =~= path@.take(i as int));
            assert(before.drop_last() =~= contents(list@));
        }
        if path[i] == SEPARATOR {
            list.push(current);
            assert(contents(list@) =~= before);
            current = Vec::new();
            assert(current@ =~= seq![]);
        } else {
            current.push(path[i]);
        }
        assert(contents(list@).push(current@) =~= pieces(path@.take(i + 1)));
        i += 1;
    }
    assert(path@.take(i as int) =~= path@);
    let ghost before = contents(list@).push(current@);
    list.push(current);
    assert(contents(list@) =~= before);
    list
}

/// Whether two byte strings are equal.
fn same_bytes(a: &[u8], b: &[u8]) -> (same: bool)
    ensures
        same == (a@ == b@),
{
    if a.len() != b.len() {
        return false;
    }
    let mut i: usize = 0;
    while i < a.len()
        invariant
            a@.len() == b@.len(),
            i <= a@.len(),
            forall|j: int| 0 <= j < i ==> a@[j] == b@[j],
        decreases a@.len() - i,
    {
        if a[i] != b[i] {
            return false;
        }
        i += 1;
    }
    assert(a@ =~= b@);
    true
}

/// Computes [`components_of`].
fn components(path: &[u8]) -> (list: Vec<Vec<u8>>)
    ensures
        contents(list@) == components_of(path@),
{
    let parts = split(path);
    let ghost all = pieces(path@);
    let mut list: Vec<Vec<u8>> = Vec::new();
    let mut i: usize = 0;
    assert(contents(list@) =~= named(all.take(0)));
    while i < parts.len()
        invariant
            i <= parts@.len(),
            contents(parts@) == all,
            contents(list@) == named(all.take(i as int)),
        decreases parts@.len() - i,
    {
        let part = &parts[i];
        let ghost before = contents(list@);
        proof {
            assert(all.take(i + 1).drop_last() =~= all.take(i as int));
            assert(part@ == contents(parts@)[i as int]);
            assert(all.take(i + 1).last() == part@);
            if part@.len() == 1 && part@[0] == DOT {
                assert(part@ =~= seq![DOT]);
            }
        }
        let dot = i > 0 && part.len() == 1 && part[0] == DOT;
        if part.len() > 0 && !dot {
            let mut copy: Vec<u8> = Vec::new();
            copy.extend_from_slice(part.as_slice());
            assert(copy@ =~= part@);
            list.push(copy);
            assert(contents(list@) =~= before.push(part@));
        }
        i += 1;
    }
    assert(all.take(i as int) =~= all);
    list
}

/// Decides [`same_path`].
pub fn equal_paths(a: &[u8], b: &[u8]) -> (same: bool)
    ensures
        same == same_path(a@, b@),
{
    if rooted(a) != rooted(b) {
        return false;
    }
    let left = components(a);
    let right = components(b);
    if left.len() != right.len() {
        assert(contents(left@).len() != contents(right@).len());
        return false;
    }
    let mut i: usize = 0;
    while i < left.len()
        invariant
            left@.len() == right@.len(),
            i <= left@.len(),
            forall|j: int| 0 <= j < i ==> (#[trigger] left@[j])@ == right@[j]@,
            is_rooted(a@) == is_rooted(b@),
            contents(left@) == components_of(a@),
            contents(right@) == components_of(b@),
        decreases left@.len() - i,
    {
        if !same_bytes(left[i].as_slice(), right[i].as_slice()) {
            assert(contents(left@)[i as int] != contents(right@)[i as int]);
            return false;
        }
        i += 1;
    }
    assert(contents(left@) =~= contents(right@));
    true
}

/// Whether one of the paths equals `path`.
pub open spec fn lists_path(paths: Seq<Seq<u8>>, path: Seq<u8>) -> bool {
    exists|i: int| 0 <= i < paths.len() && same_path(#[trigger] paths[i], path)
}

/// The paths without repetitions: of equal paths the first one stays.
pub open spec fn distinct_paths(paths: Seq<Seq<u8>>) -> Seq<Seq<u8>>
    decreases paths.len(),
{
    if paths.len() == 0 {
        seq![]
    } else {
        let earlier = distinct_paths(paths.drop_last());
        if lists_path(earlier, paths.last()) {
            earlier
        } else {
            earlier.push(paths.last())
        }
    }
}

/// Whether one of the first `n` kept paths equals `path`.
fn is_listed(kept: &Vec<Vec<u8>>, path: &[u8]) -> (listed: bool)
    ensures
        listed == lists_path(contents(kept@), path@),
{
    let mut i: usize = 0;
    while i < kept.len()
        invariant
            i <= kept@.len(),
            forall|j: int| 0 <= j < i ==> !same_path((#[trigger] kept@[j])@, path@),
        decreases kept@.len() - i,
    {
        if equal_paths(kept[i].as_slice(), path) {
            assert(same_path(contents(kept@)[i as int], path@));
            return true;
        }
        i += 1;
    }
    assert forall|j: int| 0 <= j < kept@.len() implies !same_path(
        #[trigger] contents(kept@)[j],
        path@,
    ) by {
        assert(!same_path(kept@[j]@, path@));
    }
    false
}

/// Computes [`distinct_paths`].
pub fn without_repetitions(paths: Vec<Vec<u8>>) -> (kept: Vec<Vec<u8>>)
    ensures
        contents(kept@) == distinct_paths(contents(paths@)),
{
    let ghost all = contents(paths@);
    let mut kept: Vec<Vec<u8>> = Vec::new();
    let mut i: usize = 0;
    assert(contents(kept@) =~= distinct_paths(all.take(0)));
    while i < paths.len()
        invariant
            i <= paths@.len(),
            all == contents(paths@),
            contents(kept@) == distinct_paths(all.take(i as int)),
        decreases paths@.len() - i,
    {
        let ghost before = contents(kept@);
        proof {
            assert(all.take(i + 1).drop_last() =~= all.take(i as int));
            assert(all.take(i + 1).last() == paths@[i as int]@);
        }
        if !is_listed(&kept, paths[i].as_slice()) {
            let mut copy: Vec<u8> = Vec::new();
            copy.extend_from_slice(paths[i].as_slice());
            assert(copy@ =~= paths@[i as int]@);
            kept.push(copy);
            assert(contents(kept@) =~= before.push(paths@[i as int]@));
        }
        i += 1;
    }
    assert(all.take(i as int) =~= all);
    kept
}

/// Whether the first `n` bytes of a path lead to where its last component
/// stands.
pub open spec fn leads_to_last(path: Seq<u8>, n: int) -> bool {
    &&& 0 <= n <= path.len()
    &&& is_rooted(path.take(n)) == is_rooted(path)
    &&& components_of(path.take(n)) == components_of(path).drop_last()
}

/// Whether `dir` is the directory of a path: the shortest beginning of the path
/// that has all its components but the last.
pub open spec fn is_directory_of(path: Seq<u8>, dir: Seq<u8>) -> bool {
    &&& leads_to_last(path, dir.len() as int)
    &&& dir == path.take(dir.len() as int)
    &&& forall|n: int| 0 <= n < dir.len() ==> !#[trigger] leads_to_last(path, n)
}

/// The directory of a path; none for a path without components.
pub open spec fn directory_of(path: Seq<u8>) -> Option<Seq<u8>> {
    if components_of(path).len() == 0 {
        None
    } else {
        Some(choose|dir: Seq<u8>| is_directory_of(path, dir))
    }
}

/// A path has one directory at most.
proof fn lemma_one_directory(path: Seq<u8>, a: Seq<u8>, b: Seq<u8>)
    requires
        is_directory_of(path, a),
        is_directory_of(path, b),
    ensures
        a == b,
{
    if a.len() < b.len() {
        assert(!leads_to_last(path, a.len() as int));
    } else if b.len() < a.len() {
        assert(!leads_to_last(path, b.len() as int));
    }
}

/// A path has at least one piece.
proof fn lemma_pieces_exist(path: Seq<u8>)
    ensures
        pieces(path).len() > 0,
        pieces(path).last().len() <= path.len(),
        pieces(path).len() > 1 || is_rooted(path) ==> path.len() > 0,
        pieces(path).len() == 1 ==> !is_rooted(path),
        pieces(path).last().len() == path.len() ==> !is_rooted(path),
    decreases path.len(),
{
    if path.len() > 0 {
        lemma_pieces_exist(path.drop_last());
    }
}

/// Without the bytes of its last piece a path has an empty last piece.
proof fn lemma_without_last_piece(path: Seq<u8>)
    ensures
        pieces(path).len() > 0,
        pieces(path).last().len() <= path.len(),
        pieces(path.take(path.len() - pieces(path).last().len())) == pieces(
            path,
        ).drop_last().push(seq![]),
    decreases path.len(),
{
    lemma_pieces_exist(path);
    let last = pieces(path).last();
    let start = path.take(path.len() - last.len());
    if path.len() == 0 {
        assert(start =~= path);
        assert(pieces(path).drop_last().push(seq![]) =~= pieces(path));
    } else {
        let earlier = path.drop_last();
        lemma_without_last_piece(earlier);
        if path.last() == SEPARATOR {
            assert(start =~= path);
            assert(pieces(path).drop_last().push(seq![]) =~= pieces(path));
        } else {
            assert(start =~= earlier.take(earlier.len() - pieces(earlier).last().len()));
            assert(pieces(path).drop_last() =~= pieces(earlier).drop_last());
        }
    }
}

/// A beginning of a path leads to where its last component stands.
proof fn lemma_last_is_reached(path: Seq<u8>) -> (n: int)
    requires
        components_of(path).len() > 0,
    ensures
        leads_to_last(path, n),
    decreases path.len(),
{
    lemma_pieces_exist(path);
    let all = pieces(path);
    let last = all.last();
    let counted = last.len() > 0 && !(all.len() > 1 && last == seq![DOT]);
    if counted {
        lemma_without_last_piece(path);
        let n = path.len() - last.len();
        let start = path.take(n);
        assert(pieces(start).drop_last() =~= all.drop_last());
        assert(components_of(start) == named(all.drop_last()));
        assert(components_of(path).drop_last() =~= named(all.drop_last()));
        n
    } else {
        let earlier = path.drop_last();
        lemma_pieces_exist(earlier);
        assert(path.len() > 0) by {
            reveal_with_fuel(named, 2);
        }
        if path.last() == SEPARATOR {
            assert(all.drop_last() =~= pieces(earlier));
        } else {
            assert(pieces(earlier).last().len() == 0);
            assert(all.drop_last() =~= pieces(earlier).drop_last());
        }
        assert(components_of(earlier) == components_of(path));
        let n = lemma_last_is_reached(earlier);
        assert(path.take(n) =~= earlier.take(n));
        assert(earlier.len() > 0);
        n
    }
}

/// Whether a list is another without its last element.
fn is_without_last(shorter: &Vec<Vec<u8>>, list: &Vec<Vec<u8>>) -> (without: bool)
    requires
        list@.len() > 0,
    ensures
        without == (contents(shorter@) == contents(list@).drop_last()),
{
    if shorter.len() != list.len() - 1 {
        assert(contents(shorter@).len() != contents(list@).drop_last().len());
        return false;
    }
    let mut i: usize = 0;
    while i < shorter.len()
        invariant
            shorter@.len() == list@.len() - 1,
            i <= shorter@.len(),
            forall|j: int| 0 <= j < i ==> (#[trigger] shorter@[j])@ == list@[j]@,
        decreases shorter@.len() - i,
    {
        if !same_bytes(shorter[i].as_slice(), list[i].as_slice()) {
            assert(contents(shorter@)[i as int] != contents(list@).drop_last()[i as int]);
            return false;
        }
        i += 1;
    }
    assert(contents(shorter@) =~= contents(list@).drop_last());
    true
}

/// Computes [`directory_of`].
pub fn directory(path: &[u8]) -> (dir: Option<Vec<u8>>)
    ensures
        match directory_of(path@) {
            Some(wanted) => dir matches Some(dir) && dir@ == wanted,
            None => dir is None,
        },
        dir matches Some(dir) ==> is_directory_of(path@, dir@),
{
    let all = components(path);
    if all.len() == 0 {
        assert(contents(all@).len() == 0);
        return None;
    }
    assert(contents(all@).len() > 0);
    let ghost reached = lemma_last_is_reached(path@);
    let mut dir: Vec<u8> = Vec::new();
    assert(dir@ =~= path@.take(0));
    loop
        invariant
            contents(all@) == components_of(path@),
            all@.len() > 0,
            leads_to_last(path@, reached),
            dir@.len() <= reached,
            dir@ == path@.take(dir@.len() as int),
            forall|n: int| 0 <= n < dir@.len() ==> !#[trigger] leads_to_last(path@, n),
        decreases reached - dir@.len(),
    {
        let parts = components(dir.as_slice());
        if rooted(dir.as_slice()) == rooted(path) && is_without_last(&parts, &all) {
            proof {
                assert(is_directory_of(path@, dir@));
                let wanted = choose|wanted: Seq<u8>| is_directory_of(path@, wanted);
                lemma_one_directory(path@, dir@, wanted);
            }
            return Some(dir);
        }
        assert(!leads_to_last(path@, dir@.len() as int));
        dir.push(path[dir.len()]);
        assert(dir@ =~= path@.take(dir@.len() as int));
    }
}

/// The directory of a path has all components of the path but the last, and
/// starts where the path does.
pub proof fn law_directory_lacks_the_last_component(path: Seq<u8>)
    requires
        components_of(path).len() > 0,
    ensures
        directory_of(path) matches Some(dir) && is_rooted(dir) == is_rooted(path)
            && components_of(dir) == components_of(path).drop_last() && dir.is_prefix_of(path),
{
    let n = lemma_last_is_reached(path);
    lemma_shortest(path, n);
}

/// Where a beginning of a path leads to its last component, there is a shortest
/// one that does.
proof fn lemma_shortest(path: Seq<u8>, n: int)
    requires
        leads_to_last(path, n),
    ensures
        exists|dir: Seq<u8>| is_directory_of(path, dir),
    decreases n,
{
    if exists|m: int| 0 <= m < n && leads_to_last(path, m) {
        let m = choose|m: int| 0 <= m < n && leads_to_last(path, m);
        lemma_shortest(path, m);
    } else {
        assert(is_directory_of(path, path.take(n)));
    }
}

/// No two of the kept paths are equal.
pub proof fn law_no_path_twice(paths: Seq<Seq<u8>>, i: int, j: int)
    requires
        0 <= i < j < distinct_paths(paths).len(),
    ensures
        !same_path(distinct_paths(paths)[i], distinct_paths(paths)[j]),
    decreases paths.len(),
{
    let earlier = distinct_paths(paths.drop_last());
    if j < earlier.len() {
        law_no_path_twice(paths.drop_last(), i, j);
    } else {
        assert(!same_path(earlier[i], paths.last()));
    }
}

/// Every path is equal to one that was kept.
pub proof fn law_every_path_kept(paths: Seq<Seq<u8>>, i: int)
    requires
        0 <= i < paths.len(),
    ensures
        lists_path(distinct_paths(paths), paths[i]),
    decreases paths.len(),
{
    let earlier = distinct_paths(paths.drop_last());
    let kept = distinct_paths(paths);
    if i < paths.len() - 1 {
        law_every_path_kept(paths.drop_last(), i);
        assert(paths.drop_last()[i] == paths[i]);
        let k = choose|k: int| 0 <= k < earlier.len() && same_path(#[trigger] earlier[k], paths[i]);
        assert(same_path(kept[k], paths[i]));
    } else if !lists_path(earlier, paths.last()) {
        assert(same_path(kept[kept.len() - 1], paths[i]));
    }
}

/// A path below a directory is the directory, a slash unless it ends in one, and the
/// name; the name alone below the empty path.
pub proof fn law_one_slash_between(dir: Seq<u8>, name: Seq<u8>)
    ensures
        dir.len() == 0 ==> below(dir, name) == name,
        dir.len() > 0 && dir.last() == 47 ==> below(dir, name) == dir + name,
        dir.len() > 0 && dir.last() != 47 ==> below(dir, name) == dir + seq![47u8] + name,
        is_rooted(dir) <==> dir.len() > 0 && dir[0] == 47,
        dir.len() > 0 ==> is_rooted(below(dir, name)) == is_rooted(dir),
{
    assert(below(Seq::<u8>::empty(), name) =~= name);
    assert(dir.push(47) =~= dir + seq![47u8]);
    if dir.len() == 0 {
        assert(dir =~= Seq::<u8>::empty());
    }
}

/// A slash at the end adds no component, and no component is left of nothing.
pub proof fn law_slashes_do_not_count(path: Seq<u8>)
    ensures
        components_of(Seq::<u8>::empty()).len() == 0,
        components_of(path.push(47)) == components_of(path),
        path.len() > 0 ==> same_path(path.push(47), path),
{
    reveal_with_fuel(named, 2);
    lemma_pieces_exist(path);
    assert(path.push(47).drop_last() =~= path);
    assert(pieces(path.push(47)) =~= pieces(path).push(seq![]));
    assert(pieces(path).push(seq![]).drop_last() =~= pieces(path));
    assert(pieces(Seq::<u8>::empty()).drop_last() =~= seq![]);
}

/// Behind a slash a dot adds no component.
pub proof fn law_dots_do_not_count(path: Seq<u8>)
    ensures
        components_of(path + seq![47u8, 46u8]) == components_of(path),
        path.len() > 0 ==> same_path(path + seq![47u8, 46u8], path),
{
    let slashed = path.push(47);
    let dotted = path + seq![47u8, 46u8];
    law_slashes_do_not_count(path);
    lemma_pieces_exist(path);
    assert(dotted.drop_last() =~= slashed);
    assert(slashed.drop_last() =~= path);
    assert(pieces(slashed) == pieces(path).push(seq![]));
    assert(pieces(dotted) == pieces(path).push(seq![].push(46u8))) by {
        assert(pieces(slashed).drop_last() =~= pieces(path));
    }
    assert(seq![].push(46u8) =~= seq![46u8]);
    assert(pieces(dotted).drop_last() =~= pieces(path));
}

/// The pieces of a path whose last piece grows by bytes that are no slashes.
proof fn lemma_piece_grows(path: Seq<u8>, name: Seq<u8>)
    requires
        !name.contains(47),
    ensures
        pieces(path + name) == pieces(path).drop_last().push(pieces(path).last() + name),
    decreases name.len(),
{
    lemma_pieces_exist(path);
    if name.len() == 0 {
        assert(path + name =~= path);
        assert(pieces(path).last() + name =~= pieces(path).last());
        assert(pieces(path).drop_last().push(pieces(path).last()) =~= pieces(path));
    } else {
        let earlier = name.drop_last();
        assert forall|b: u8| #[trigger] earlier.contains(b) implies name.contains(b) by {
            let i = choose|i: int| 0 <= i < earlier.len() && earlier[i] == b;
            assert(name[i] == b);
        }
        assert(name[name.len() - 1] == name.last());
        assert(name.contains(name.last()));
        lemma_piece_grows(path, earlier);
        assert((path + name).drop_last() =~= path + earlier);
        assert((pieces(path).last() + earlier).push(name.last()) =~= pieces(path).last() + name);
        assert(pieces(path + earlier).drop_last() =~= pieces(path).drop_last());
    }
}

/// A name below a directory is its last component, and the others are those of the
/// directory.
pub proof fn law_a_name_is_one_component(dir: Seq<u8>, name: Seq<u8>)
    requires
        name.len() > 0,
        !name.contains(47),
        name != seq![46u8],
    ensures
        components_of(below(dir, name)) == components_of(dir).push(name),
{
    lemma_pieces_exist(dir);
    law_slashes_do_not_count(dir);
    let path = below(dir, name);
    if dir.len() == 0 {
        assert(dir =~= Seq::<u8>::empty());
        lemma_piece_grows(dir, name);
        assert(path =~= dir + name);
        assert(pieces(dir).last() + name =~= name);
        assert(pieces(path).drop_last() =~= seq![]);
        assert(pieces(path).last() == name && pieces(path).len() == 1);
        assert(named(seq![]) =~= seq![]);
        assert(named(pieces(path)) == named(seq![]).push(name));
        assert(components_of(dir) =~= seq![]);
    } else {
        let start = if dir.last() == 47 {
            dir
        } else {
            dir.push(47)
        };
        if dir.last() != 47 {
            assert(start.drop_last() =~= dir);
        }
        lemma_pieces_exist(start.drop_last());
        assert(path =~= start + name);
        assert(start.last() == 47);
        assert(pieces(start).last() =~= seq![]);
        lemma_piece_grows(start, name);
        assert(pieces(start).last() + name =~= name);
        assert(pieces(path).drop_last() =~= pieces(start).drop_last());
        assert(components_of(start) == named(pieces(start).drop_last()));
        assert(components_of(path) == named(pieces(start).drop_last()).push(name));
    }
}

/// Of equal paths the first one is kept, and the kept ones stay in order.
pub proof fn law_first_of_equal_paths_is_kept(paths: Seq<Seq<u8>>, path: Seq<u8>)
    ensures
        (exists|i: int|
            0 <= i < paths.len() && is_rooted(#[trigger] paths[i]) == is_rooted(path)
                && components_of(paths[i]) == components_of(path)) ==> distinct_paths(
            paths.push(path),
        ) == distinct_paths(paths),
        !(exists|i: int|
            0 <= i < paths.len() && is_rooted(#[trigger] paths[i]) == is_rooted(path)
                && components_of(paths[i]) == components_of(path)) ==> distinct_paths(
            paths.push(path),
        ) == distinct_paths(paths).push(path),
        distinct_paths(Seq::<Seq<u8>>::empty()).len() == 0,
{
    assert(paths.push(path).drop_last() =~= paths);
    let kept = distinct_paths(paths);
    if exists|i: int|
        0 <= i < paths.len() && is_rooted(#[trigger] paths[i]) == is_rooted(path) && components_of(
            paths[i],
        ) == components_of(path) {
        let i = choose|i: int|
            0 <= i < paths.len() && is_rooted(#[trigger] paths[i]) == is_rooted(path)
                && components_of(paths[i]) == components_of(path);
        law_every_path_kept(paths, i);
        let k = choose|k: int| 0 <= k < kept.len() && same_path(#[trigger] kept[k], paths[i]);
        assert(same_path(kept[k], path));
    } else if lists_path(kept, path) {
        let k = choose|k: int| 0 <= k < kept.len() && same_path(#[trigger] kept[k], path);
        let i = lemma_kept_path_was_given(paths, k);
        assert(is_rooted(paths[i]) == is_rooted(path));
    }
}

/// A kept path is one of the given ones.
proof fn lemma_kept_path_was_given(paths: Seq<Seq<u8>>, k: int) -> (i: int)
    requires
        0 <= k < distinct_paths(paths).len(),
    ensures
        0 <= i < paths.len(),
        distinct_paths(paths)[k] == paths[i],
    decreases paths.len(),
{
    if k < distinct_paths(paths.drop_last()).len() {
        lemma_kept_path_was_given(paths.drop_last(), k)
    } else {
        paths.len() - 1
    }
}

/// The directory of a path is its shortest beginning that has all its components but
/// the last, and a path without components has none.
pub proof fn law_directory_is_the_shortest(path: Seq<u8>, n: int)
    ensures
        directory_of(path) is None <==> components_of(path).len() == 0,
        directory_of(path) matches Some(dir) ==> dir == path.take(dir.len() as int) && (0 <= n
            < dir.len() ==> is_rooted(path.take(n)) != is_rooted(path) || components_of(
            path.take(n),
        ) != components_of(path).drop_last()),
{
    if components_of(path).len() > 0 {
        let reached = lemma_last_is_reached(path);
        lemma_shortest(path, reached);
        let dir = directory_of(path)->0;
        assert(is_directory_of(path, dir));
        if 0 <= n < dir.len() {
            assert(!leads_to_last(path, n));
        }
    }
}

} // verus!
