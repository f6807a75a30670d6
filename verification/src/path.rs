//! The paths of the sandbox's files.
use vstd::prelude::*;
use vstd::string::*;

use crate::args;
use crate::text;

verus! {

/// The position of the first slash, or the length if there is none.
pub open spec fn slash(path: Seq<char>) -> nat
    decreases path.len(),
{
    if path.len() == 0 || path[0] == '/' {
        0
    } else {
        1 + slash(path.skip(1))
    }
}

/// The pieces of a path between its slashes, empty ones among them.
pub open spec fn segments(path: Seq<char>) -> Seq<Seq<char>>
    decreases path.len(),
{
    let end = slash(path);
    if end >= path.len() {
        seq![path]
    } else {
        seq![path.take(end as int)] + segments(path.skip(end as int + 1))
    }
}

/// Where one segment leads from a directory, which is given by the names on
/// the way to it. An empty segment and `.` stay, `..` goes up unless that is
/// the root, and a name goes down.
pub open spec fn entered(names: Seq<Seq<char>>, segment: Seq<char>) -> Seq<Seq<char>> {
    if segment.len() == 0 || segment == seq!['.'] {
        names
    } else if segment == seq!['.', '.'] {
        if names.len() == 0 {
            names
        } else {
            names.drop_last()
        }
    } else {
        names.push(segment)
    }
}

/// Where the segments lead from the root.
pub open spec fn walked(segments: Seq<Seq<char>>) -> Seq<Seq<char>>
    decreases segments.len(),
{
    if segments.len() == 0 {
        Seq::empty()
    } else {
        entered(walked(segments.drop_last()), segments.last())
    }
}

/// The path from the root to where `path` leads from there, without `.` and
/// `..`.
pub open spec fn normalized(path: Seq<char>) -> Seq<char> {
    seq!['/'] + text::joined(walked(segments(path)), seq!['/'])
}

/// Normalizes a path with `bashkit::normalize_path`, which takes the path's
/// components one by one from the root: it drops `.`, lets `..` remove the
/// name before it, and joins the names that are left behind a slash. The
/// components of a path are those of a system on which `/` alone separates
/// them.
#[verifier::external_body]
fn normalize(path: &str) -> (normal: String)
    ensures
        normal@ == normalized(path@),
{
    bashkit::normalize_path(std::path::Path::new(path)).to_string_lossy().into_owned()
}

/// A path as seen from a directory: an absolute one is taken as it is.
pub open spec fn seen_from(directory: Seq<char>, path: Seq<char>) -> Seq<char> {
    if args::is_absolute(path) {
        path
    } else {
        directory + seq!['/'] + path
    }
}

/// The path from the root to what `path` names in the directory.
pub open spec fn resolved(directory: Seq<char>, path: Seq<char>) -> Seq<char> {
    normalized(seen_from(directory, path))
}

/// The path from the root to what `path` names in the directory.
pub fn resolve_in(directory: &str, path: &str) -> (full: String)
    ensures
        full@ == resolved(directory@, path@),
{
    if !path.is_empty() && path.get_char(0) == '/' {
        normalize(path)
    } else {
        let mut joint = directory.to_string();
        joint.push('/');
        joint.append(path);
        proof {
            assert(joint@ =~= directory@ + seq!['/'] + path@);
        }
        normalize(joint.as_str())
    }
}

/// A name that leads down: neither empty nor `.` nor `..`, and without a
/// slash.
pub open spec fn is_name(segment: Seq<char>) -> bool {
    &&& segment.len() > 0
    &&& segment != seq!['.']
    &&& segment != seq!['.', '.']
    &&& !segment.contains('/')
}

/// What an absolute path names does not depend on the directory.
pub proof fn absolute_path_ignores_the_directory(
    one: Seq<char>,
    other: Seq<char>,
    path: Seq<char>,
)
    requires
        args::is_absolute(path),
    ensures
        resolved(one, path) == resolved(other, path),
        resolved(one, path) == normalized(path),
{
}

/// A resolved path is absolute.
pub proof fn resolved_is_absolute(directory: Seq<char>, path: Seq<char>)
    ensures
        args::is_absolute(resolved(directory, path)),
{
}

/// Before the first slash there is none, and there it is.
proof fn lemma_first_slash(path: Seq<char>)
    ensures
        slash(path) <= path.len(),
        forall|i: int| 0 <= i < slash(path) ==> path[i] != '/',
        slash(path) < path.len() ==> path[slash(path) as int] == '/',
    decreases path.len(),
{
    if path.len() > 0 && path[0] != '/' {
        let rest = path.skip(1);
        lemma_first_slash(rest);
        assert forall|i: int| 0 <= i < slash(path) implies path[i] != '/' by {
            if i > 0 {
                assert(rest[i - 1] == path[i]);
            }
        }
    }
}

/// The first slash is where `end` is, if none stands before it.
proof fn lemma_slash(path: Seq<char>, end: int)
    requires
        0 <= end <= path.len(),
        forall|i: int| 0 <= i < end ==> path[i] != '/',
        end < path.len() ==> path[end] == '/',
    ensures
        slash(path) == end,
{
    lemma_first_slash(path);
    if slash(path) < end {
        assert(path[slash(path) as int] == '/');
    }
    if slash(path) > end {
        assert(path[end] != '/');
    }
}

/// No segment holds a slash.
proof fn lemma_segments_hold_no_slash(path: Seq<char>)
    ensures
        forall|i: int| 0 <= i < segments(path).len() ==> !(#[trigger] segments(path)[i]).contains(
            '/',
        ),
    decreases path.len(),
{
    lemma_first_slash(path);
    let end = slash(path) as int;
    if end < path.len() {
        let rest = path.skip(end + 1);
        lemma_segments_hold_no_slash(rest);
        assert forall|i: int| 0 <= i < segments(path).len() implies !(#[trigger] segments(
            path,
        )[i]).contains('/') by {
            if i > 0 {
                assert(segments(path)[i] == segments(rest)[i - 1]);
            }
        }
    }
}

/// Walking along segments leads through names only.
proof fn lemma_walked_names(list: Seq<Seq<char>>)
    requires
        forall|i: int| 0 <= i < list.len() ==> !(#[trigger] list[i]).contains('/'),
    ensures
        forall|i: int| 0 <= i < walked(list).len() ==> is_name(#[trigger] walked(list)[i]),
    decreases list.len(),
{
    if list.len() > 0 {
        let before = list.drop_last();
        assert forall|i: int| 0 <= i < before.len() implies !(#[trigger] before[i]).contains(
            '/',
        ) by {
            assert(before[i] == list[i]);
        }
        lemma_walked_names(before);
        assert(!list[list.len() - 1].contains('/'));
        let led = walked(before);
        assert forall|i: int| 0 <= i < walked(list).len() implies is_name(
            #[trigger] walked(list)[i],
        ) by {
            if i < led.len() {
                assert(is_name(led[i]));
            }
        }
    }
}

/// A normalized path consists of names alone.
pub proof fn normalized_consists_of_names(path: Seq<char>, i: int)
    requires
        0 <= i < walked(segments(path)).len(),
    ensures
        is_name(walked(segments(path))[i]),
{
    lemma_segments_hold_no_slash(path);
    lemma_walked_names(segments(path));
}

/// Names are where they lead.
proof fn lemma_walked_along_names(names: Seq<Seq<char>>)
    requires
        forall|i: int| 0 <= i < names.len() ==> is_name(#[trigger] names[i]),
    ensures
        walked(names) == names,
        walked(seq![Seq::<char>::empty()] + names) == names,
    decreases names.len(),
{
    let led = seq![Seq::<char>::empty()] + names;
    if names.len() > 0 {
        let before = names.drop_last();
        assert forall|i: int| 0 <= i < before.len() implies is_name(#[trigger] before[i]) by {
            assert(before[i] == names[i]);
        }
        lemma_walked_along_names(before);
        assert(is_name(names[names.len() - 1]));
        assert(before.push(names.last()) =~= names);
        assert(led.drop_last() =~= seq![Seq::<char>::empty()] + before);
        assert(led.last() == names.last());
    } else {
        assert(led.drop_last() =~= Seq::empty());
        assert(walked(led.drop_last()) =~= Seq::empty());
        assert(led.last().len() == 0);
    }
}

/// Names that are joined with slashes are its segments.
proof fn lemma_segments_of_joined(names: Seq<Seq<char>>)
    requires
        names.len() > 0,
        forall|i: int| 0 <= i < names.len() ==> !(#[trigger] names[i]).contains('/'),
    ensures
        segments(text::joined(names, seq!['/'])) == names,
    decreases names.len(),
{
    let first = names[0];
    let rest = names.skip(1);
    let path = text::joined(names, seq!['/']);
    assert(names =~= seq![first] + rest);
    if rest.len() == 0 {
        assert(names =~= seq![first]);
        assert(path == first);
        assert forall|i: int| 0 <= i < first.len() implies first[i] != '/' by {
            assert(first.contains(first[i]));
        }
        lemma_slash(first, first.len() as int);
    } else {
        assert forall|i: int| 0 <= i < rest.len() implies !(#[trigger] rest[i]).contains('/') by {
            assert(rest[i] == names[i + 1]);
        }
        lemma_segments_of_joined(rest);
        text::lemma_joined_first(first, rest, seq!['/']);
        let end = first.len() as int;
        assert forall|i: int| 0 <= i < end implies path[i] != '/' by {
            assert(first.contains(first[i]));
        }
        lemma_slash(path, end);
        assert(path.take(end) =~= first);
        assert(path.skip(end + 1) =~= text::joined(rest, seq!['/']));
    }
}

/// A normalized path leads where the path leads.
proof fn lemma_walked_again(path: Seq<char>)
    ensures
        walked(segments(normalized(path))) == walked(segments(path)),
{
    let names = walked(segments(path));
    let normal = normalized(path);
    lemma_segments_hold_no_slash(path);
    lemma_walked_names(segments(path));
    lemma_slash(normal, 0);
    let none = Seq::<char>::empty();
    assert(normal.take(0) =~= none);
    assert(normal.skip(1) =~= text::joined(names, seq!['/']));
    lemma_walked_along_names(names);
    if names.len() == 0 {
        assert(normal.skip(1) =~= none);
        assert(segments(none) =~= seq![none]);
        assert(segments(normal) =~= seq![none] + seq![none]);
        let list = segments(normal);
        assert(list.drop_last() =~= seq![none] + names);
        assert(walked(list) =~= names);
    } else {
        assert forall|i: int| 0 <= i < names.len() implies !(#[trigger] names[i]).contains(
            '/',
        ) by {
            assert(is_name(names[i]));
        }
        lemma_segments_of_joined(names);
        assert(segments(normal) =~= seq![none] + names);
    }
}

/// The segments of a path and one more.
proof fn lemma_segments_of_longer(path: Seq<char>, segment: Seq<char>)
    requires
        !segment.contains('/'),
    ensures
        segments(path + seq!['/'] + segment) == segments(path).push(segment),
    decreases path.len(),
{
    let longer = path + seq!['/'] + segment;
    lemma_first_slash(path);
    let end = slash(path) as int;
    assert forall|i: int| 0 <= i < end implies longer[i] != '/' by {
        assert(longer[i] == path[i]);
    }
    lemma_slash(longer, end);
    assert(longer.take(end) =~= path.take(end));
    if end >= path.len() {
        assert forall|i: int| 0 <= i < segment.len() implies segment[i] != '/' by {
            assert(segment.contains(segment[i]));
        }
        lemma_slash(segment, segment.len() as int);
        assert(path.take(end) =~= path);
        assert(longer.skip(end + 1) =~= segment);
        assert(segments(segment) == seq![segment]);
        assert(segments(longer) =~= seq![path] + segments(segment));
        assert(segments(longer) =~= segments(path).push(segment));
    } else {
        let rest = path.skip(end + 1);
        assert(longer.skip(end + 1) =~= rest + seq!['/'] + segment);
        lemma_segments_of_longer(rest, segment);
        assert(segments(longer) =~= segments(path).push(segment));
    }
}

/// A name at the end of a path leads down from where the path leads: it is put
/// behind that place and a slash.
pub proof fn names_lead_down(path: Seq<char>, name: Seq<char>)
    requires
        name.len() > 0,
        name != seq!['.'],
        name != seq!['.', '.'],
        !name.contains('/'),
    ensures
        normalized(path + seq!['/'] + name) == if normalized(path) == seq!['/'] {
            seq!['/'] + name
        } else {
            normalized(path) + seq!['/'] + name
        },
{
    lemma_segments_of_longer(path, name);
    let names = walked(segments(path));
    let all = segments(path).push(name);
    assert(all.drop_last() =~= segments(path));
    assert(walked(all) == names.push(name));
    assert(names.push(name).drop_last() =~= names);
    if names.len() == 0 {
        assert(text::joined(names, seq!['/']) =~= Seq::empty());
        assert(normalized(path) =~= seq!['/']);
        assert(text::joined(names.push(name), seq!['/']) == name);
    } else {
        normalized_consists_of_names(path, 0);
        lemma_names_are_shown(names);
        assert(normalized(path).len() > 1);
        assert(seq!['/'] + (text::joined(names, seq!['/']) + seq!['/'] + name) =~= normalized(path)
            + seq!['/'] + name);
    }
}

/// An empty segment or a dot at the end of a path changes nothing.
pub proof fn dots_stay(path: Seq<char>)
    ensures
        normalized(path + seq!['/']) == normalized(path),
        normalized(path + seq!['/'] + seq!['.']) == normalized(path),
{
    let none = Seq::<char>::empty();
    lemma_segments_of_longer(path, none);
    lemma_segments_of_longer(path, seq!['.']);
    assert(path + seq!['/'] + none =~= path + seq!['/']);
    assert(segments(path).push(none).drop_last() =~= segments(path));
    assert(segments(path).push(seq!['.']).drop_last() =~= segments(path));
}

/// Names on a way are not joined to nothing.
proof fn lemma_names_are_shown(names: Seq<Seq<char>>)
    requires
        names.len() > 0,
        names[0].len() > 0,
    ensures
        text::joined(names, seq!['/']).len() > 0,
{
    let rest = names.skip(1);
    assert(names =~= seq![names[0]] + rest);
    if rest.len() == 0 {
        assert(names =~= seq![names[0]]);
        text::one_part_is_joined_to_itself(names[0], seq!['/']);
    } else {
        text::lemma_joined_first(names[0], rest, seq!['/']);
    }
}

/// An empty segment before the others leads nowhere else.
proof fn lemma_walked_from_nothing(list: Seq<Seq<char>>)
    ensures
        walked(seq![Seq::<char>::empty()] + list) == walked(list),
    decreases list.len(),
{
    let led = seq![Seq::<char>::empty()] + list;
    if list.len() == 0 {
        assert(led.drop_last() =~= Seq::empty());
        assert(walked(led.drop_last()) =~= Seq::empty());
        assert(led.last().len() == 0);
    } else {
        assert(led.drop_last() =~= seq![Seq::<char>::empty()] + list.drop_last());
        lemma_walked_from_nothing(list.drop_last());
        assert(led.last() == list.last());
    }
}

/// Two dots take back a name, and stay at the root.
pub proof fn double_dots_lead_up(path: Seq<char>, name: Seq<char>)
    requires
        name.len() > 0,
        name != seq!['.'],
        name != seq!['.', '.'],
        !name.contains('/'),
    ensures
        normalized(path + seq!['/'] + name + seq!['/'] + seq!['.', '.']) == normalized(path),
        normalized(path) == seq!['/'] ==> normalized(path + seq!['/'] + seq!['.', '.']) == seq!['/'],
{
    let down = path + seq!['/'] + name;
    let up = seq!['.', '.'];
    lemma_segments_of_longer(path, name);
    lemma_segments_of_longer(down, up);
    lemma_segments_of_longer(path, up);
    let names = walked(segments(path));
    assert(segments(path).push(name).drop_last() =~= segments(path));
    assert(segments(down).push(up).drop_last() =~= segments(down));
    assert(segments(path).push(up).drop_last() =~= segments(path));
    assert(up != seq!['.']) by {
        assert(up.len() == 2 && seq!['.'].len() == 1);
    }
    assert(names.push(name).drop_last() =~= names);
    assert(walked(segments(down)) == names.push(name));
    assert(walked(segments(down).push(up)) == names);
    if normalized(path) == seq!['/'] {
        if names.len() > 0 {
            normalized_consists_of_names(path, 0);
            lemma_names_are_shown(names);
            assert(normalized(path).len() > 1);
        }
    }
}

/// A path may as well begin at the root, and an empty path is the root.
pub proof fn paths_begin_at_the_root(path: Seq<char>)
    ensures
        normalized(seq!['/'] + path) == normalized(path),
        normalized(Seq::empty()) == seq!['/'],
{
    let rooted = seq!['/'] + path;
    let none = Seq::<char>::empty();
    lemma_slash(rooted, 0);
    assert(rooted.take(0) =~= none);
    assert(rooted.skip(1) =~= path);
    lemma_walked_from_nothing(segments(path));
    assert(segments(none) =~= seq![none]);
    assert(seq![none].drop_last() =~= Seq::empty());
    assert(walked(seq![none].drop_last()) =~= Seq::empty());
    assert(seq![none].last().len() == 0);
    assert(walked(segments(none)) =~= Seq::empty());
}

/// A relative path is looked up in the directory, an absolute one is not.
pub proof fn relative_paths_start_in_the_directory(directory: Seq<char>, path: Seq<char>)
    ensures
        path.len() > 0 && path[0] == '/' ==> resolved(directory, path) == normalized(path),
        !(path.len() > 0 && path[0] == '/') ==> resolved(directory, path) == normalized(
            directory + seq!['/'] + path,
        ),
{
}

/// Normalizing a normalized path changes nothing.
pub proof fn normalized_is_stable(path: Seq<char>)
    ensures
        normalized(normalized(path)) == normalized(path),
{
    lemma_walked_again(path);
}

/// Where a longer path leads depends only on where the path leads to which it
/// adds, and on what it adds.
pub proof fn places_decide(one: Seq<char>, other: Seq<char>, segment: Seq<char>)
    requires
        normalized(one) == normalized(other),
        !segment.contains('/'),
    ensures
        normalized(one + seq!['/'] + segment) == normalized(other + seq!['/'] + segment),
{
    lemma_walked_again(one);
    lemma_walked_again(other);
    lemma_segments_of_longer(one, segment);
    lemma_segments_of_longer(other, segment);
    assert(segments(one).push(segment).drop_last() =~= segments(one));
    assert(segments(other).push(segment).drop_last() =~= segments(other));
}

} // verus!
