//! Names under which received files may be written.
//!
//! The name of a file comes from the sender. It is used only where it leads to
//! a place inside the directory that the receiver chose, by the path rules of
//! the platform.

use vstd::prelude::*;

verus! {

/// Whether `c` separates the components of a path.
pub open spec fn is_separator(c: char, windows: bool) -> bool {
    c == '/' || (windows && c == '\\')
}

/// Whether `c` can name a drive.
pub open spec fn is_drive_letter(c: char) -> bool {
    'a' <= c <= 'z' || 'A' <= c <= 'Z'
}

/// Whether `path` begins with a drive, as in `C:`. Only Windows has drives.
pub open spec fn has_drive(path: Seq<char>, windows: bool) -> bool {
    windows && path.len() >= 2 && is_drive_letter(path[0]) && path[1] == ':'
}

/// Whether `path` begins at the root.
pub open spec fn is_rooted(path: Seq<char>, windows: bool) -> bool {
    path.len() > 0 && is_separator(path[0], windows)
}

/// Whether a component of a path stays where it is.
pub open spec fn is_current(part: Seq<char>) -> bool {
    part.len() == 0 || part == seq!['.']
}

/// Whether a component of a path leads to the parent directory.
pub open spec fn is_parent(part: Seq<char>) -> bool {
    part == seq!['.', '.']
}

/// How deep below its start a path is after a component.
pub open spec fn depth_after(depth: int, part: Seq<char>) -> int {
    if is_current(part) {
        depth
    } else if is_parent(part) {
        depth - 1
    } else {
        depth + 1
    }
}

/// Whether the rest of a path never climbs above the start and ends below it,
/// from `depth` below the start and with `part` read of the component at hand.
pub open spec fn stays_below(depth: int, part: Seq<char>, rest: Seq<char>, windows: bool) -> bool
    decreases rest.len(),
{
    if rest.len() == 0 {
        depth_after(depth, part) > 0
    } else if is_separator(rest[0], windows) {
        depth_after(depth, part) >= 0 && stays_below(
            depth_after(depth, part),
            Seq::empty(),
            rest.drop_first(),
            windows,
        )
    } else {
        stays_below(depth, part.push(rest[0]), rest.drop_first(), windows)
    }
}

/// Whether `name`, joined to a directory, leads to a place inside it: it begins
/// neither at the root nor at a drive, never climbs above the directory, and
/// ends below it.
pub open spec fn leads_inside(name: Seq<char>, windows: bool) -> bool {
    &&& !is_rooted(name, windows)
    &&& !has_drive(name, windows)
    &&& stays_below(0, Seq::empty(), name, windows)
}

/// Whether `name`, joined to a directory, leads to a place inside it.
pub fn check_leads_inside(name: &str, windows: bool) -> (r: bool)
    ensures
        r == leads_inside(name@, windows),
{
    let n: usize = name.unicode_len();
    if n > 0 {
        let first: char = name.get_char(0);
        if first == '/' || (windows && first == '\\') {
            return false;
        }
        let letter = ('a' <= first && first <= 'z') || ('A' <= first && first <= 'Z');
        if windows && n >= 2 && letter && name.get_char(1) == ':' {
            return false;
        }
    }
    let mut i: usize = 0;
    let mut depth: usize = 0;
    // The component at hand: an ordinary name, or else that many dots.
    let mut ordinary: bool = false;
    let mut dots: usize = 0;
    let ghost mut part: Seq<char> = Seq::empty();
    assert(name@.skip(0) =~= name@);
    for c in it: name.chars()
        invariant
            n == name@.len(),
            i == it.index(),
            it.seq() == name@,
            depth <= i,
            dots <= 2,
            ordinary == !(is_current(part) || is_parent(part)),
            !ordinary ==> part == Seq::new(dots as nat, |k: int| '.'),
            !is_rooted(name@, windows),
            !has_drive(name@, windows),
            leads_inside(name@, windows) == stays_below(
                depth as int,
                part,
                name@.skip(i as int),
                windows,
            ),
    {
        let ghost rest = name@.skip(i as int);
        assert(rest[0] == c);
        assert(rest.drop_first() =~= name@.skip(i + 1));
        assert(Seq::new(1, |k: int| '.') =~= seq!['.']);
        assert(Seq::new(2, |k: int| '.') =~= seq!['.', '.']);
        if c == '/' || (windows && c == '\\') {
            if ordinary {
                depth = depth + 1;
            } else if dots == 2 {
                if depth == 0 {
                    return false;
                }
                depth = depth - 1;
            }
            ordinary = false;
            dots = 0;
            proof {
                part = Seq::empty();
                assert(part =~= Seq::new(0, |k: int| '.'));
            }
        } else {
            proof {
                let longer = part.push(c);
                assert(longer.last() == c && longer.drop_last() =~= part);
                assert(seq!['.'].drop_last() =~= Seq::<char>::empty());
                assert(seq!['.', '.'].drop_last() =~= seq!['.']);
                if !ordinary && c == '.' && dots < 2 {
                    assert(longer =~= Seq::new((dots + 1) as nat, |k: int| '.'));
                }
                part = longer;
            }
            if !ordinary && c == '.' && dots < 2 {
                dots = dots + 1;
            } else {
                ordinary = true;
            }
        }
        i = i + 1;
    }
    assert(name@.skip(i as int).len() == 0);
    assert(Seq::new(1, |k: int| '.') =~= seq!['.']);
    assert(Seq::new(2, |k: int| '.') =~= seq!['.', '.']);
    if ordinary {
        true
    } else if dots == 2 {
        depth > 1
    } else {
        depth > 0
    }
}

/// The place that a component of a path leads to from `dir`, each given by its
/// components from the root.
pub open spec fn entered(dir: Seq<Seq<char>>, part: Seq<char>) -> Seq<Seq<char>> {
    if is_current(part) {
        dir
    } else if is_parent(part) {
        if dir.len() == 0 {
            dir
        } else {
            dir.drop_last()
        }
    } else {
        dir.push(part)
    }
}

/// Where the rest of a path leads to from `dir`, with `part` read of the
/// component at hand.
pub open spec fn walked(
    dir: Seq<Seq<char>>,
    part: Seq<char>,
    rest: Seq<char>,
    windows: bool,
) -> Seq<Seq<char>>
    decreases rest.len(),
{
    if rest.len() == 0 {
        entered(dir, part)
    } else if is_separator(rest[0], windows) {
        walked(entered(dir, part), Seq::empty(), rest.drop_first(), windows)
    } else {
        walked(dir, part.push(rest[0]), rest.drop_first(), windows)
    }
}

/// Where `path` leads to from `dir`. A path that begins at the root or at a
/// drive does not begin at `dir`.
pub open spec fn joined(dir: Seq<Seq<char>>, path: Seq<char>, windows: bool) -> Seq<Seq<char>> {
    if is_rooted(path, windows) || has_drive(path, windows) {
        walked(Seq::empty(), Seq::empty(), path, windows)
    } else {
        walked(dir, Seq::empty(), path, windows)
    }
}

/// Whether a place is inside `dir`.
pub open spec fn is_inside(dir: Seq<Seq<char>>, place: Seq<Seq<char>>) -> bool {
    dir.is_prefix_of(place) && place.len() > dir.len()
}

/// Entering a component without climbing above `dir` changes what is below it.
proof fn lemma_entered_below(dir: Seq<Seq<char>>, below: Seq<Seq<char>>, part: Seq<char>)
    requires
        depth_after(below.len() as int, part) >= 0,
    ensures
        entered(dir + below, part) == dir + entered(below, part),
        entered(below, part).len() == depth_after(below.len() as int, part),
{
    assert(entered(dir + below, part) =~= dir + entered(below, part));
}

/// A walk that stays below `dir` ends inside it.
proof fn lemma_stays_inside(
    dir: Seq<Seq<char>>,
    below: Seq<Seq<char>>,
    part: Seq<char>,
    rest: Seq<char>,
    windows: bool,
)
    requires
        stays_below(below.len() as int, part, rest, windows),
    ensures
        is_inside(dir, walked(dir + below, part, rest, windows)),
    decreases rest.len(),
{
    if rest.len() == 0 {
        lemma_entered_below(dir, below, part);
    } else if is_separator(rest[0], windows) {
        lemma_entered_below(dir, below, part);
        lemma_stays_inside(dir, entered(below, part), Seq::empty(), rest.drop_first(), windows);
    } else {
        lemma_stays_inside(dir, below, part.push(rest[0]), rest.drop_first(), windows);
    }
}

/// Whether a place is outside `dir` for want of the last component of `dir`:
/// it is less deep, or has a component of fewer than `len` characters there.
spec fn lacks_last(dir: Seq<Seq<char>>, place: Seq<Seq<char>>, len: int) -> bool {
    place.len() < dir.len() || place[dir.len() - 1].len() < len
}

/// A walk over fewer than `len` characters does not make up for a missing
/// component of `len` characters.
proof fn lemma_stays_outside(
    dir: Seq<Seq<char>>,
    at: Seq<Seq<char>>,
    part: Seq<char>,
    rest: Seq<char>,
    windows: bool,
    len: int,
)
    requires
        dir.len() > 0,
        lacks_last(dir, at, len),
        part.len() + rest.len() < len,
    ensures
        lacks_last(dir, walked(at, part, rest, windows), len),
    decreases rest.len(),
{
    assert(lacks_last(dir, entered(at, part), len));
    if rest.len() > 0 {
        if is_separator(rest[0], windows) {
            lemma_stays_outside(
                dir,
                entered(at, part),
                Seq::empty(),
                rest.drop_first(),
                windows,
                len,
            );
        } else {
            lemma_stays_outside(dir, at, part.push(rest[0]), rest.drop_first(), windows, len);
        }
    }
}

/// A walk that does not stay below `dir` does not end inside it, where it is too
/// short to name the last component of `dir`.
proof fn lemma_ends_outside(
    dir: Seq<Seq<char>>,
    below: Seq<Seq<char>>,
    part: Seq<char>,
    rest: Seq<char>,
    windows: bool,
)
    requires
        dir.len() > 0,
        part.len() + rest.len() < dir.last().len(),
        !stays_below(below.len() as int, part, rest, windows),
    ensures
        !is_inside(dir, walked(dir + below, part, rest, windows)),
    decreases rest.len(),
{
    let len = dir.last().len() as int;
    if rest.len() > 0 && !is_separator(rest[0], windows) {
        lemma_ends_outside(dir, below, part.push(rest[0]), rest.drop_first(), windows);
    } else if depth_after(below.len() as int, part) >= 0 {
        lemma_entered_below(dir, below, part);
        if rest.len() > 0 {
            lemma_ends_outside(
                dir,
                entered(below, part),
                Seq::empty(),
                rest.drop_first(),
                windows,
            );
        }
    } else {
        assert(dir + below =~= dir);
        assert(entered(dir + below, part) == dir.drop_last());
        if rest.len() > 0 {
            lemma_stays_outside(
                dir,
                dir.drop_last(),
                Seq::empty(),
                rest.drop_first(),
                windows,
                len,
            );
        }
    }
}

/// A name that is accepted leads, from every directory, to a place inside it.
pub proof fn law_accepted_name_leads_inside(dir: Seq<Seq<char>>, name: Seq<char>, windows: bool)
    requires
        leads_inside(name, windows),
    ensures
        dir.is_prefix_of(joined(dir, name, windows)),
        joined(dir, name, windows).len() > dir.len(),
{
    assert(dir + Seq::<Seq<char>>::empty() =~= dir);
    lemma_stays_inside(dir, Seq::empty(), Seq::empty(), name, windows);
}

/// A name that is refused does not lead to a place inside the directory, unless
/// it may come back in by naming the directory itself: here the directory's own
/// name is longer than the whole name.
pub proof fn law_refused_name_leads_elsewhere(dir: Seq<Seq<char>>, name: Seq<char>, windows: bool)
    requires
        !leads_inside(name, windows),
        dir.len() > 0,
        dir.last().len() > name.len(),
    ensures
        !(dir.is_prefix_of(joined(dir, name, windows)) && joined(dir, name, windows).len()
            > dir.len()),
{
    if is_rooted(name, windows) || has_drive(name, windows) {
        lemma_stays_outside(
            dir,
            Seq::empty(),
            Seq::empty(),
            name,
            windows,
            dir.last().len() as int,
        );
    } else {
        assert(dir + Seq::<Seq<char>>::empty() =~= dir);
        lemma_ends_outside(dir, Seq::empty(), Seq::empty(), name, windows);
    }
}

/// One name between separators leads to a file directly in the directory.
pub proof fn law_single_component_accepted(name: Seq<char>, windows: bool)
    requires
        !is_current(name),
        !is_parent(name),
        !has_drive(name, windows),
        forall|i: int| 0 <= i < name.len() ==> !is_separator(#[trigger] name[i], windows),
    ensures
        leads_inside(name, windows),
        forall|dir: Seq<Seq<char>>| #[trigger] joined(dir, name, windows) == dir.push(name),
{
    lemma_one_component(0, Seq::empty(), name, windows);
    assert(Seq::<char>::empty() + name =~= name);
    assert(!is_rooted(name, windows));
    assert forall|dir: Seq<Seq<char>>| #[trigger] joined(dir, name, windows) == dir.push(name) by {
        lemma_one_component_walked(dir, Seq::empty(), name, windows);
    }
}

/// Characters without a separator make up one component.
proof fn lemma_one_component(depth: int, part: Seq<char>, rest: Seq<char>, windows: bool)
    requires
        forall|i: int| 0 <= i < rest.len() ==> !is_separator(#[trigger] rest[i], windows),
    ensures
        stays_below(depth, part, rest, windows) == (depth_after(depth, part + rest) > 0),
    decreases rest.len(),
{
    if rest.len() == 0 {
        assert(part + rest =~= part);
    } else {
        let tail = rest.drop_first();
        assert forall|i: int| 0 <= i < tail.len() implies !is_separator(
            #[trigger] tail[i],
            windows,
        ) by {
            assert(tail[i] == rest[i + 1]);
        }
        lemma_one_component(depth, part.push(rest[0]), tail, windows);
        assert(part.push(rest[0]) + tail =~= part + rest);
    }
}

/// Characters without a separator lead where the component that they make up
/// leads.
proof fn lemma_one_component_walked(
    dir: Seq<Seq<char>>,
    part: Seq<char>,
    rest: Seq<char>,
    windows: bool,
)
    requires
        forall|i: int| 0 <= i < rest.len() ==> !is_separator(#[trigger] rest[i], windows),
    ensures
        walked(dir, part, rest, windows) == entered(dir, part + rest),
    decreases rest.len(),
{
    if rest.len() == 0 {
        assert(part + rest =~= part);
    } else {
        let tail = rest.drop_first();
        assert forall|i: int| 0 <= i < tail.len() implies !is_separator(
            #[trigger] tail[i],
            windows,
        ) by {
            assert(tail[i] == rest[i + 1]);
        }
        lemma_one_component_walked(dir, part.push(rest[0]), tail, windows);
        assert(part.push(rest[0]) + tail =~= part + rest);
    }
}

/// A name without separators and colons that does not stand for a directory is
/// accepted on every platform, and leads to a file directly in the directory.
pub proof fn law_ordinary_name_accepted(dir: Seq<Seq<char>>, name: Seq<char>, windows: bool)
    requires
        name.len() > 0,
        name != seq!['.'],
        name != seq!['.', '.'],
        !name.contains('/'),
        !name.contains('\\'),
        !name.contains(':'),
    ensures
        leads_inside(name, windows),
        joined(dir, name, windows) == dir.push(name),
{
    assert forall|i: int| 0 <= i < name.len() implies !is_separator(#[trigger] name[i], windows) by {
        assert(name.contains(name[i]));
    }
    assert(name.len() >= 2 ==> name.contains(name[1]));
    law_single_component_accepted(name, windows);
}

/// Elsewhere than on Windows only the slash has a meaning in a name: backslashes
/// and colons are characters like any other.
pub proof fn law_only_slash_matters_elsewhere(dir: Seq<Seq<char>>, name: Seq<char>)
    requires
        name.len() > 0,
        name != seq!['.'],
        name != seq!['.', '.'],
        !name.contains('/'),
    ensures
        leads_inside(name, false),
        joined(dir, name, false) == dir.push(name),
{
    assert forall|i: int| 0 <= i < name.len() implies !is_separator(#[trigger] name[i], false) by {
        assert(name.contains(name[i]));
    }
    law_single_component_accepted(name, false);
}

/// On Windows a name without separators is refused where a letter and a colon
/// begin it, and accepted otherwise unless it stands for a directory.
pub proof fn law_drives_refused_on_windows(name: Seq<char>)
    requires
        name.len() > 0,
        name != seq!['.'],
        name != seq!['.', '.'],
        !name.contains('/'),
        !name.contains('\\'),
    ensures
        leads_inside(name, true) <==> !(name.len() >= 2 && ('a' <= name[0] <= 'z' || 'A' <= name[0]
            <= 'Z') && name[1] == ':'),
{
    assert forall|i: int| 0 <= i < name.len() implies !is_separator(#[trigger] name[i], true) by {
        assert(name.contains(name[i]));
    }
    if !has_drive(name, true) {
        law_single_component_accepted(name, true);
    }
}

/// A name that begins at the root is refused, and leads to the same place from
/// every directory.
pub proof fn law_rooted_names_refused(
    dir: Seq<Seq<char>>,
    other: Seq<Seq<char>>,
    name: Seq<char>,
    windows: bool,
)
    requires
        name.len() > 0,
        name[0] == '/' || (windows && name[0] == '\\'),
    ensures
        !leads_inside(name, windows),
        joined(dir, name, windows) == joined(other, name, windows),
{
}

/// The path with the given components and the separators between them.
pub open spec fn path_of(parts: Seq<Seq<char>>, separators: Seq<char>) -> Seq<char>
    decreases parts.len(),
{
    if parts.len() == 0 {
        Seq::empty()
    } else if parts.len() == 1 {
        parts[0]
    } else {
        parts[0] + seq![separators[0]] + path_of(parts.drop_first(), separators.drop_first())
    }
}

/// Whether `parts` are components and `separators` stand between them: a slash,
/// or on Windows also a backslash, which no component holds.
pub open spec fn are_components(
    parts: Seq<Seq<char>>,
    separators: Seq<char>,
    windows: bool,
) -> bool {
    &&& parts.len() > 0
    &&& separators.len() == parts.len() - 1
    &&& forall|i: int|
        0 <= i < parts.len() ==> !(#[trigger] parts[i]).contains('/') && (windows
            ==> !parts[i].contains('\\'))
    &&& forall|i: int|
        0 <= i < separators.len() ==> (#[trigger] separators[i] == '/' || (windows && separators[i]
            == '\\'))
}

/// How many of the components lead one directory down: those that are neither
/// empty nor dots for a directory.
pub open spec fn descents(parts: Seq<Seq<char>>) -> nat {
    parts.filter(
        |p: Seq<char>| p.len() > 0 && p != seq!['.'] && p != seq!['.', '.'],
    ).len()
}

/// How many of the components lead one directory up.
pub open spec fn climbs(parts: Seq<Seq<char>>) -> nat {
    parts.filter(|p: Seq<char>| p == seq!['.', '.']).len()
}

/// A component in front counts by itself.
proof fn lemma_counts_of_first(first: Seq<char>, rest: Seq<Seq<char>>)
    ensures
        descents(seq![first] + rest) - climbs(seq![first] + rest) == depth_after(0, first)
            + descents(rest) - climbs(rest),
{
    reveal(Seq::filter);
    let down = |p: Seq<char>| p.len() > 0 && p != seq!['.'] && p != seq!['.', '.'];
    let up = |p: Seq<char>| p == seq!['.', '.'];
    let one = seq![first];
    Seq::filter_distributes_over_add(one, rest, down);
    Seq::filter_distributes_over_add(one, rest, up);
    assert(one.drop_last() =~= Seq::<Seq<char>>::empty());
    assert(one.drop_last().filter(down).len() == 0);
    assert(one.drop_last().filter(up).len() == 0);
    assert(one.last() == first);
    assert(seq!['.', '.'].len() == 2);
    assert(seq!['.'].len() == 1);
}

/// One component and a separator in front of a path are read first.
proof fn lemma_component_in_front(
    depth: int,
    dir: Seq<Seq<char>>,
    done: Seq<char>,
    part: Seq<char>,
    separator: char,
    rest: Seq<char>,
    windows: bool,
)
    requires
        forall|i: int| 0 <= i < part.len() ==> !is_separator(#[trigger] part[i], windows),
        is_separator(separator, windows),
    ensures
        stays_below(depth, done, part + seq![separator] + rest, windows) == (depth_after(
            depth,
            done + part,
        ) >= 0 && stays_below(depth_after(depth, done + part), Seq::empty(), rest, windows)),
        walked(dir, done, part + seq![separator] + rest, windows) == walked(
            entered(dir, done + part),
            Seq::empty(),
            rest,
            windows,
        ),
    decreases part.len(),
{
    let path = part + seq![separator] + rest;
    if part.len() == 0 {
        assert(done + part =~= done);
        assert(path[0] == separator);
        assert(path.drop_first() =~= rest);
    } else {
        let tail = part.drop_first();
        assert forall|i: int| 0 <= i < tail.len() implies !is_separator(
            #[trigger] tail[i],
            windows,
        ) by {
            assert(tail[i] == part[i + 1]);
        }
        assert(path[0] == part[0]);
        assert(path.drop_first() =~= tail + seq![separator] + rest);
        lemma_component_in_front(
            depth,
            dir,
            done.push(part[0]),
            tail,
            separator,
            rest,
            windows,
        );
        assert(done.push(part[0]) + tail =~= done + part);
    }
}

/// The first component and what follows it are components again.
proof fn lemma_components_from_second(
    parts: Seq<Seq<char>>,
    separators: Seq<char>,
    windows: bool,
)
    requires
        are_components(parts, separators, windows),
        parts.len() > 1,
    ensures
        are_components(parts.drop_first(), separators.drop_first(), windows),
{
    let p = parts.drop_first();
    let s = separators.drop_first();
    assert forall|i: int| 0 <= i < p.len() implies !(#[trigger] p[i]).contains('/') && (windows
        ==> !p[i].contains('\\')) by {
        assert(p[i] == parts[i + 1]);
    }
    assert forall|i: int| 0 <= i < s.len() implies (#[trigger] s[i] == '/' || (windows && s[i]
        == '\\')) by {
        assert(s[i] == separators[i + 1]);
    }
}

/// No character of a component is a separator.
proof fn lemma_no_separator_in_component(part: Seq<char>, windows: bool)
    requires
        !part.contains('/'),
        windows ==> !part.contains('\\'),
    ensures
        forall|i: int| 0 <= i < part.len() ==> !is_separator(#[trigger] part[i], windows),
{
    assert forall|i: int| 0 <= i < part.len() implies !is_separator(#[trigger] part[i], windows) by {
        assert(part.contains(part[i]));
    }
}

/// Whether components that are entered from `depth` below the start never climb
/// above it and end below it.
spec fn counts_stay_below(depth: int, parts: Seq<Seq<char>>) -> bool {
    &&& forall|k: int|
        0 <= k <= parts.len() ==> depth + descents(#[trigger] parts.take(k)) >= climbs(
            parts.take(k),
        )
    &&& depth + descents(parts) > climbs(parts)
}

/// A walk over components is told by counting them.
proof fn lemma_walk_by_counting(
    depth: int,
    parts: Seq<Seq<char>>,
    separators: Seq<char>,
    windows: bool,
)
    requires
        are_components(parts, separators, windows),
        depth >= 0,
    ensures
        stays_below(depth, Seq::empty(), path_of(parts, separators), windows) == counts_stay_below(
            depth,
            parts,
        ),
    decreases parts.len(),
{
    reveal(Seq::filter);
    let first = parts[0];
    let rest = parts.drop_first();
    let after = depth_after(depth, first);
    assert(after == depth + depth_after(0, first));
    assert(Seq::<char>::empty() + first =~= first);
    lemma_no_separator_in_component(first, windows);
    lemma_counts_of_first(first, rest);
    assert(parts =~= seq![first] + rest);
    assert(parts.take(0) =~= Seq::<Seq<char>>::empty());
    assert(descents(parts.take(0)) == 0 && climbs(parts.take(0)) == 0);
    assert forall|k: int| 1 <= k <= parts.len() implies depth + descents(
        #[trigger] parts.take(k),
    ) - climbs(parts.take(k)) == after + descents(rest.take(k - 1)) - climbs(rest.take(k - 1)) by {
        lemma_counts_of_first(first, rest.take(k - 1));
        assert(parts.take(k) =~= seq![first] + rest.take(k - 1));
    }
    assert(rest.take(0) =~= Seq::<Seq<char>>::empty());
    assert(descents(rest.take(0)) == 0 && climbs(rest.take(0)) == 0);
    assert(depth + descents(parts.take(1)) - climbs(parts.take(1)) == after);
    if parts.len() == 1 {
        lemma_one_component(depth, Seq::empty(), first, windows);
        assert(rest =~= Seq::<Seq<char>>::empty());
        assert(parts.take(1) =~= parts);
        if after > 0 {
            assert forall|k: int| 0 <= k <= parts.len() implies depth + descents(
                #[trigger] parts.take(k),
            ) >= climbs(parts.take(k)) by {
                if k > 0 {
                    assert(k == 1);
                }
            }
        }
    } else {
        lemma_components_from_second(parts, separators, windows);
        let tail = path_of(rest, separators.drop_first());
        lemma_component_in_front(
            depth,
            Seq::empty(),
            Seq::empty(),
            first,
            separators[0],
            tail,
            windows,
        );
        if after >= 0 {
            lemma_walk_by_counting(after, rest, separators.drop_first(), windows);
            if counts_stay_below(after, rest) {
                assert forall|k: int| 0 <= k <= parts.len() implies depth + descents(
                    #[trigger] parts.take(k),
                ) >= climbs(parts.take(k)) by {
                    if k > 0 {
                        assert(after + descents(rest.take(k - 1)) >= climbs(rest.take(k - 1)));
                    }
                }
            }
            if counts_stay_below(depth, parts) {
                assert forall|k: int| 0 <= k <= rest.len() implies after + descents(
                    #[trigger] rest.take(k),
                ) >= climbs(rest.take(k)) by {
                    assert(depth + descents(parts.take(k + 1)) >= climbs(parts.take(k + 1)));
                    assert(rest.take(k + 1 - 1) == rest.take(k));
                }
            }
        }
    }
}

/// A name is accepted exactly where it begins neither with a separator nor with
/// a drive, none of its beginnings has more components that lead up than that
/// lead down, and the whole has fewer. Slashes separate the components, and on
/// Windows also backslashes; a drive is a letter and a colon, on Windows only.
pub proof fn law_accepted_by_counting_components(
    parts: Seq<Seq<char>>,
    separators: Seq<char>,
    windows: bool,
)
    requires
        are_components(parts, separators, windows),
    ensures
        leads_inside(path_of(parts, separators), windows) <==> {
            let name = path_of(parts, separators);
            &&& !(name.len() > 0 && (name[0] == '/' || (windows && name[0] == '\\')))
            &&& !(windows && name.len() >= 2 && ('a' <= name[0] <= 'z' || 'A' <= name[0] <= 'Z')
                && name[1] == ':')
            &&& forall|k: int|
                0 <= k <= parts.len() ==> descents(#[trigger] parts.take(k)) >= climbs(
                    parts.take(k),
                )
            &&& descents(parts) > climbs(parts)
        },
{
    lemma_walk_by_counting(0, parts, separators, windows);
}

/// Every name has components.
pub proof fn law_every_name_has_components(name: Seq<char>, windows: bool)
    ensures
        exists|parts: Seq<Seq<char>>, separators: Seq<char>|
            #![trigger path_of(parts, separators)]
            are_components(parts, separators, windows) && path_of(parts, separators) == name,
    decreases name.len(),
{
    if name.len() == 0 {
        let parts = seq![Seq::<char>::empty()];
        let separators = Seq::<char>::empty();
        assert(path_of(parts, separators) =~= name);
        assert(are_components(parts, separators, windows));
    } else {
        let c = name[0];
        law_every_name_has_components(name.drop_first(), windows);
        let (p, s) = choose|p: Seq<Seq<char>>, s: Seq<char>|
            #![trigger path_of(p, s)]
            are_components(p, s, windows) && path_of(p, s) == name.drop_first();
        if is_separator(c, windows) {
            let parts = seq![Seq::<char>::empty()] + p;
            let separators = seq![c] + s;
            assert(parts.drop_first() =~= p);
            assert(separators.drop_first() =~= s);
            assert(path_of(parts, separators) =~= name);
            assert forall|i: int| 0 <= i < parts.len() implies !(#[trigger] parts[i]).contains('/')
                && (windows ==> !parts[i].contains('\\')) by {
                if i > 0 {
                    assert(parts[i] == p[i - 1]);
                }
            }
            assert forall|i: int| 0 <= i < separators.len() implies (#[trigger] separators[i] == '/'
                || (windows && separators[i] == '\\')) by {
                if i > 0 {
                    assert(separators[i] == s[i - 1]);
                }
            }
            assert(are_components(parts, separators, windows));
        } else {
            let first = seq![c] + p[0];
            let parts = p.update(0, first);
            assert(parts.drop_first() =~= p.drop_first());
            assert(parts[0] == first);
            if p.len() > 1 {
                let tail = path_of(p.drop_first(), s.drop_first());
                assert(path_of(p, s) == p[0] + seq![s[0]] + tail);
                assert(path_of(parts, s) == first + seq![s[0]] + tail);
            }
            assert(path_of(parts, s) =~= seq![c] + path_of(p, s));
            assert(seq![c] + name.drop_first() =~= name);
            assert forall|i: int| 0 <= i < parts.len() implies !(#[trigger] parts[i]).contains('/')
                && (windows ==> !parts[i].contains('\\')) by {
                assert(!p[i].contains('/') && (windows ==> !p[i].contains('\\')));
                if i == 0 {
                    assert forall|j: int| 0 <= j < first.len() implies first[j] != '/' && (windows
                        ==> first[j] != '\\') by {
                        if j > 0 {
                            assert(first[j] == p[0][j - 1]);
                            assert(p[0].contains(p[0][j - 1]));
                        }
                    }
                }
            }
            assert(are_components(parts, s, windows));
        }
    }
}

/// Where a path of components leads is told one component at a time: an empty
/// one and a dot stay, two dots go up, and any other goes down into it.
pub proof fn law_joined_one_component_at_a_time(
    dir: Seq<Seq<char>>,
    part: Seq<char>,
    rest: Seq<char>,
    windows: bool,
)
    requires
        part.len() > 0,
        !part.contains('/'),
        windows ==> !part.contains('\\'),
        !(windows && part.len() >= 2 && part[1] == ':'),
        rest.len() > 0 ==> rest[0] != '/' && !(windows && rest[0] == '\\') && !(windows
            && rest.len() >= 2 && rest[1] == ':'),
    ensures
        part == seq!['.'] ==> joined(dir, part + seq!['/'] + rest, windows) == joined(
            dir,
            rest,
            windows,
        ),
        part == seq!['.', '.'] && dir.len() > 0 ==> joined(
            dir,
            part + seq!['/'] + rest,
            windows,
        ) == joined(dir.drop_last(), rest, windows),
        part != seq!['.'] && part != seq!['.', '.'] ==> joined(
            dir,
            part + seq!['/'] + rest,
            windows,
        ) == joined(dir.push(part), rest, windows),
{
    let path = part + seq!['/'] + rest;
    lemma_no_separator_in_component(part, windows);
    assert(path[0] == part[0]);
    assert(!is_separator(part[0], windows));
    assert(path.len() >= 2 && path[1] == (if part.len() >= 2 {
        part[1]
    } else {
        '/'
    }));
    lemma_component_in_front(0, dir, Seq::empty(), part, '/', rest, windows);
    assert(Seq::<char>::empty() + part =~= part);
    assert(seq!['.'].len() == 1 && seq!['.', '.'].len() == 2);
}

/// Whether a name is accepted is told by its components: it begins neither with
/// a separator nor with a drive, never has more components that lead up than
/// that lead down, and has fewer in all.
pub proof fn law_check_counts_components(
    parts: Seq<Seq<char>>,
    separators: Seq<char>,
    name: &str,
    windows: bool,
    r: bool,
)
    requires
        are_components(parts, separators, windows),
        name@ == path_of(parts, separators),
        call_ensures(check_leads_inside, (name, windows), r),
    ensures
        r <==> {
            &&& !(name@.len() > 0 && (name@[0] == '/' || (windows && name@[0] == '\\')))
            &&& !(windows && name@.len() >= 2 && ('a' <= name@[0] <= 'z' || 'A' <= name@[0] <= 'Z')
                && name@[1] == ':')
            &&& forall|k: int|
                0 <= k <= parts.len() ==> descents(#[trigger] parts.take(k)) >= climbs(
                    parts.take(k),
                )
            &&& descents(parts) > climbs(parts)
        },
{
    law_accepted_by_counting_components(parts, separators, windows);
}

} // verus!
