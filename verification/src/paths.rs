//! Paths of the application.

use vstd::prelude::*;

verus! {

/// Whether every platform takes this path for one that starts from some directory: it
/// has no separator at its front and no colon, and so no root and no drive.
pub open spec fn plain_relative(path: Seq<char>) -> bool {
    &&& path.len() > 0
    &&& path[0] != '/'
    &&& path[0] != '\\'
    &&& !path.contains(':')
}

/// Whether a directory is written in the verbatim form of Windows, `\\?\...`, under
/// which separators are put in order when a path is joined to it.
pub open spec fn verbatim(dir: Seq<char>) -> bool {
    dir.len() > 2 && dir[0] == '\\' && dir[1] == '\\' && dir[2] == '?'
}

/// Whether a text is the name of one file or directory on every platform, and no reference
/// to a directory that it is seen from.
pub open spec fn bare_name(name: Seq<char>) -> bool {
    &&& name.len() > 0
    &&& !name.contains('/')
    &&& !name.contains('\\')
    &&& !name.contains(':')
    &&& name != seq!['.']
    &&& name != seq!['.', '.']
}

/// Whether there is nothing to put in order in a verbatim directory: it has no slash,
/// and behind its front no two backslashes in a row and no part that starts with a dot.
pub open spec fn tidy(dir: Seq<char>) -> bool {
    &&& !dir.contains('/')
    &&& forall|i: int|
        2 <= i < dir.len() - 1 && #[trigger] dir[i] == '\\' ==> dir[i + 1] != '\\' && dir[i
            + 1] != '.'
}

/// Whether it is known how `sub` looks from `dir`: not where it is put behind a verbatim
/// directory, unless that is tidy and `sub` a bare name.
pub open spec fn foreseen(dir: Seq<char>, sub: Seq<char>) -> bool {
    !verbatim(dir) || (tidy(dir) && bare_name(sub))
}

/// Whether something can stand right behind `dir`: it is empty, or ends in a separator or
/// in the colon of a drive.
pub open spec fn open_ended(dir: Seq<char>) -> bool {
    dir.len() == 0 || dir.last() == '/' || dir.last() == '\\' || dir.last() == ':'
}

/// Whether `path` is `sub` put behind `dir`, with a separator between them unless the
/// directory needs none.
pub open spec fn adjoined(dir: Seq<char>, sub: Seq<char>, path: Seq<char>) -> bool {
    ||| open_ended(dir) && path == dir + sub
    ||| path == dir + seq!['/'] + sub
    ||| path == dir + seq!['\\'] + sub
}

/// Whether `path` is where `sub` lies beside the executable: behind its directory, or
/// as it is where that is not known. What is not [`foreseen`] is left open.
pub open spec fn beside(exe_dir: Option<&str>, sub: Seq<char>, path: Seq<char>) -> bool {
    match exe_dir {
        Some(dir) => foreseen(dir@, sub) ==> adjoined(dir@, sub, path),
        None => path == sub,
    }
}

/// Whether a path starts at a root, as some platform or other takes it.
pub open spec fn rooted(path: Seq<char>) -> bool {
    path.len() > 0 && (path[0] == '/' || path[0] == '\\')
}

/// Whether `head` is what a path with a root leaves of `dir`: nothing, or its drive, or the
/// share or device at the front of a directory that starts with two separators.
pub open spec fn drive_of(dir: Seq<char>, head: Seq<char>) -> bool {
    ||| head.len() == 0
    ||| dir.len() >= 2 && dir[1] == ':' && head == dir.take(2)
    ||| dir.len() >= 2 && rooted(dir) && rooted(dir.skip(1)) && head.is_prefix_of(dir)
}

/// Whether `path` is `sub` seen from `dir`, on some platform or other. What starts with a
/// slash is put behind the directory on none. Where it does not go behind the directory it
/// stands alone, but for the drive where it has a root.
pub open spec fn seen_from(dir: Seq<char>, sub: Seq<char>, path: Seq<char>) -> bool {
    ||| path == sub
    ||| (sub.len() == 0 || sub[0] != '/') && adjoined(dir, sub, path)
    ||| rooted(sub) && path.len() >= sub.len() && path.skip(path.len() - sub.len()) == sub
        && drive_of(dir, path.take(path.len() - sub.len()))
}

/// Whether `path` is where `sub` is to be found from the executable: one that every
/// platform takes for relative lies beside it, and of another it is as [`seen_from`] has
/// it. What is not [`foreseen`] is left open.
pub open spec fn placed(exe_dir: Option<&str>, sub: Seq<char>, path: Seq<char>) -> bool {
    &&& exe_dir is None ==> path == sub
    &&& plain_relative(sub) ==> beside(exe_dir, sub, path)
    &&& exe_dir is Some && foreseen(exe_dir->0@, sub) ==> seen_from(exe_dir->0@, sub, path)
}

/// Whether `path` is where the directory `dir` has `sub`. What is not [`foreseen`] is left
/// open.
pub open spec fn kept_in(dir: Seq<char>, sub: Seq<char>, path: Seq<char>) -> bool {
    foreseen(dir, sub) ==> seen_from(dir, sub, path) && (plain_relative(sub) ==> adjoined(
        dir,
        sub,
        path,
    ))
}

// ---------------------------------------------------------------------------
// File names
// ---------------------------------------------------------------------------

/// Whether some platform or other lets a name begin behind this character.
pub open spec fn splits(c: char) -> bool {
    c == '/' || c == '\\' || c == ':'
}

/// What a path has behind the last character that [`splits`] it.
pub open spec fn last_piece(path: Seq<char>) -> Seq<char>
    decreases path.len(),
{
    if path.len() == 0 || splits(path.last()) {
        Seq::empty()
    } else {
        last_piece(path.drop_last()).push(path.last())
    }
}

/// Whether every platform finds a file name at the very end of this path: it ends in a
/// bare name, and does not start with two separators, as a share or a device does.
pub open spec fn ends_in_name(path: Seq<char>) -> bool {
    &&& bare_name(last_piece(path))
    &&& !(rooted(path) && rooted(path.skip(1)))
}

/// Whether `name` is the file name at the end of `path`, as some platform or other takes
/// it: all that stands behind the last slash, or less of it, but never less than
/// [`last_piece`].
pub open spec fn is_final(path: Seq<char>, name: Seq<char>) -> bool {
    &&& last_piece(path).is_suffix_of(name)
    &&& name.is_suffix_of(path)
    &&& !name.contains('/')
}

/// What stands before the last piece of a path.
pub open spec fn before_name(path: Seq<char>) -> Seq<char> {
    path.take(path.len() - last_piece(path).len())
}

/// Whether the platforms agree on the file name at the end of this path: it stands behind
/// a slash or is the whole path.
pub open spec fn clear_name(path: Seq<char>) -> bool {
    &&& ends_in_name(path)
    &&& before_name(path).len() == 0 || before_name(path).last() == '/'
}

/// Whether the directory before a [`clear_name`] is written out plainly: it does not end
/// in more than one separator, nor in a dot.
pub open spec fn plain_directory(path: Seq<char>) -> bool {
    before_name(path).len() > 1 ==> {
        let end = before_name(path).drop_last().last();
        end != '/' && end != '\\' && end != '.'
    }
}

/// Whether `sibling` is the path of the file `name` in the directory of the file at
/// `path`. The separator between them may have become that of the platform.
pub open spec fn is_sibling(path: Seq<char>, name: Seq<char>, sibling: Seq<char>) -> bool {
    let dir = before_name(path);
    ||| sibling == dir + name
    ||| dir.len() > 1 && sibling == dir.drop_last() + seq!['\\'] + name
}

proof fn lemma_last_piece(path: Seq<char>)
    ensures
        last_piece(path).len() <= path.len(),
        path == before_name(path) + last_piece(path),
        before_name(path).len() > 0 ==> splits(before_name(path).last()),
        !last_piece(path).contains('/'),
        !last_piece(path).contains('\\'),
        !last_piece(path).contains(':'),
    decreases path.len(),
{
    if path.len() > 0 && !splits(path.last()) {
        let shorter = path.drop_last();
        lemma_last_piece(shorter);
        let n = last_piece(path).len();
        assert(before_name(path) =~= before_name(shorter));
        assert(path =~= before_name(path) + last_piece(path)) by {
            assert(path =~= shorter.push(path.last()));
        }
        assert forall|c: char| splits(c) implies !#[trigger] last_piece(path).contains(c) by {
            if last_piece(path).contains(c) {
                let i = choose|i: int| 0 <= i < n && last_piece(path)[i] == c;
                if i < n - 1 {
                    assert(last_piece(shorter)[i] == c);
                    assert(last_piece(shorter).contains(c));
                }
            }
        }
    } else {
        assert(before_name(path) =~= path);
    }
}

/// A bare name with more of the kind behind it is a bare name, unless only dots come out.
pub proof fn lemma_bare_name_grows(name: Seq<char>, more: Seq<char>)
    requires
        bare_name(name),
        more.len() > 1,
        !more.contains('/'),
        !more.contains('\\'),
        !more.contains(':'),
    ensures
        bare_name(name + more),
{
    assert forall|c: char| !name.contains(c) && !more.contains(c) implies !#[trigger] (name
        + more).contains(c) by {
        if (name + more).contains(c) {
            let i = choose|i: int| 0 <= i < (name + more).len() && (name + more)[i] == c;
            if i < name.len() {
                assert(name[i] == c);
            } else {
                assert(more[i - name.len()] == c);
            }
        }
    }
    assert((name + more).len() > 2);
}

/// Where the platforms agree on the file name it is the last piece.
pub proof fn lemma_clear_name(path: Seq<char>, name: Seq<char>)
    requires
        clear_name(path),
        is_final(path, name),
    ensures
        name == last_piece(path),
{
    lemma_last_piece(path);
    let piece = last_piece(path);
    let extra = name.len() - piece.len();
    if extra > 0 {
        let at = path.len() - piece.len() - 1;
        assert(before_name(path).last() == path[at]);
        assert(path.skip(path.len() - name.len()) =~= name);
        assert(name[extra - 1] == path[at]);
        assert(name.contains('/'));
    }
    assert(name =~= piece);
}

/// `std::path::Path::is_absolute`: whether the platform takes the path for absolute.
/// On every platform that takes a root or a drive. Of other paths nothing is claimed,
/// for there the platforms differ.
#[verifier::external_body]
pub(crate) fn is_absolute(path: &str) -> (r: bool)
    ensures
        plain_relative(path@) ==> !r,
{
    std::path::Path::new(path).is_absolute()
}

/// `std::path::Path::join`: `sub` seen from `dir`. A relative path is put behind the
/// directory, with the platform's separator where one is missing. An absolute path, and one
/// with a drive, replaces the directory; one with a root alone replaces all of it but its
/// drive. Which paths are of which kind, the platforms decide, but one that starts with a
/// slash is relative on none. What is joined to a directory in verbatim form is put in
/// order, the references in it taken out: where there is nothing to be put in order a bare
/// name goes behind the directory as behind any other, and of the rest nothing is claimed.
#[verifier::external_body]
pub(crate) fn join(dir: &str, sub: &str) -> (r: String)
    ensures
        kept_in(dir@, sub@, r@),
{
    std::path::Path::new(dir).join(sub).to_string_lossy().into_owned()
}

/// `std::path::Path::file_name`: the last component of a path. Where the path ends in a
/// bare name there is one, and it is what follows the last separator. A slash is a separator
/// on every platform, a backslash on some; a drive at the front belongs to no name. Of paths
/// that end in a separator or in dots, and of those that start with two separators, nothing
/// is claimed.
#[verifier::external_body]
pub(crate) fn file_name(path: &str) -> (r: Option<String>)
    ensures
        ends_in_name(path@) ==> r is Some && is_final(path@, r->0@),
{
    match std::path::Path::new(path).file_name() {
        Some(name) => Some(name.to_string_lossy().into_owned()),
        None => None,
    }
}

/// `std::path::Path::with_file_name`: the path of a sibling, which has the same parent and
/// the given name. Claimed where the platforms agree on the old name, the directory is
/// written plainly and the new name is bare; the separator before it may become that of
/// the platform.
#[verifier::external_body]
pub(crate) fn with_file_name(path: &str, name: &str) -> (r: String)
    ensures
        clear_name(path@) && plain_directory(path@) && bare_name(name@) ==> is_sibling(
            path@,
            name@,
            r@,
        ),
{
    std::path::Path::new(path).with_file_name(name).to_string_lossy().into_owned()
}

/// Where a path of the application lies: an absolute one where it is, another beside
/// the executable, and one that cannot be placed there where it is.
pub fn anchor(sub_path: &str, absolute: bool, beside_exe: Option<String>) -> (r: String)
    ensures
        r@ == (if absolute || beside_exe is None {
            sub_path@
        } else {
            beside_exe->0@
        }),
{
    if absolute {
        return sub_path.to_owned();
    }
    match beside_exe {
        Some(path) => path,
        None => sub_path.to_owned(),
    }
}

// ---------------------------------------------------------------------------
// Laws
// ---------------------------------------------------------------------------

/// A path that starts with a slash stays as it is, from every directory without a drive,
/// a share or a device.
pub proof fn law_rooted_path_stands(exe_dir: Option<&str>, sub: Seq<char>, path: Seq<char>)
    requires
        placed(exe_dir, sub, path),
        sub.len() > 0,
        sub[0] == '/',
        exe_dir matches Some(dir) ==> !(dir@.len() >= 2 && (dir@[1] == ':' || (rooted(dir@)
            && rooted(dir@.skip(1))))),
    ensures
        path == sub,
{
    if exe_dir is Some {
        let dir = exe_dir->0@;
        assert(!verbatim(dir)) by {
            if verbatim(dir) {
                assert(dir.skip(1)[0] == dir[1]);
            }
        }
        if path != sub {
            let head = path.take(path.len() - sub.len());
            assert(path =~= head + path.skip(path.len() - sub.len()));
            assert(head.len() == 0);
        }
    }
}

/// A bare name behind a slash is the file name of a path, whatever the directory, unless
/// two separators start it; and a sibling lies in the same directory.
pub proof fn law_name_behind_slash(dir: Seq<char>, name: Seq<char>)
    requires
        bare_name(name),
        !rooted(dir) || !rooted((dir + seq!['/']).skip(1)),
    ensures
        clear_name(dir + seq!['/'] + name),
        last_piece(dir + seq!['/'] + name) == name,
        forall|other: Seq<char>, sibling: Seq<char>| #[trigger]
            is_sibling(dir + seq!['/'] + name, other, sibling) ==> sibling == dir + seq!['/']
                + other || sibling == dir + seq!['\\'] + other,
{
    let front = dir + seq!['/'];
    let path = front + name;
    lemma_piece_behind(front, name);
    assert(before_name(path) =~= front);
    assert(front.drop_last() =~= dir);
    assert(rooted(path) == rooted(front)) by {
        assert(path[0] == front[0]);
    }
    if rooted(path.skip(1)) {
        assert(path.skip(1)[0] == path[1]);
        if dir.len() > 0 {
            assert(front.skip(1)[0] == path[1]);
        } else {
            assert(path[1] == name[0]);
            assert(name.contains(name[0]));
        }
    }
}

proof fn lemma_piece_behind(front: Seq<char>, name: Seq<char>)
    requires
        front.len() > 0,
        splits(front.last()),
        !name.contains('/'),
        !name.contains('\\'),
        !name.contains(':'),
    ensures
        last_piece(front + name) == name,
    decreases name.len(),
{
    let path = front + name;
    if name.len() == 0 {
        assert(path =~= front);
        assert(name =~= Seq::empty());
    } else {
        let shorter = name.drop_last();
        assert(name.contains(name.last()));
        assert forall|c: char| !name.contains(c) implies !#[trigger] shorter.contains(c) by {
            if shorter.contains(c) {
                let i = choose|i: int| 0 <= i < shorter.len() && shorter[i] == c;
                assert(name[i] == c);
            }
        }
        assert(path.drop_last() =~= front + shorter);
        lemma_piece_behind(front, shorter);
        assert(shorter.push(name.last()) =~= name);
    }
}

/// A path with a drive stays as it is or goes behind the directory; the drive of the
/// directory is never put before it.
pub proof fn law_drive_path_stands_or_follows(
    exe_dir: Option<&str>,
    sub: Seq<char>,
    path: Seq<char>,
)
    requires
        placed(exe_dir, sub, path),
        !rooted(sub),
        exe_dir matches Some(dir) ==> !verbatim(dir@),
    ensures
        path == sub || (exe_dir is Some && adjoined(exe_dir->0@, sub, path)),
{
}

/// A path that every platform takes for relative lies behind the directory of the
/// executable, right behind it or with one separator between, and nothing is changed in
/// either of the two; without a directory the path stays as it is.
pub proof fn law_relative_path_lies_beside(dir: &str, sub: Seq<char>, path: Seq<char>)
    ensures
        placed(None, sub, path) <==> path == sub,
        placed(Some(dir), sub, path) && plain_relative(sub) && !verbatim(dir@) ==> path == dir@
            + sub && (dir@.len() == 0 || seq!['/', '\\', ':'].contains(dir@.last())) || path
            == dir@ + seq!['/'] + sub || path == dir@ + seq!['\\'] + sub,
        plain_relative(sub) <==> sub.len() > 0 && sub[0] != '/' && sub[0] != '\\'
            && !sub.contains(':'),
        kept_in(dir@, sub, path) && plain_relative(sub) && !verbatim(dir@) ==> path == dir@ + sub
            && (dir@.len() == 0 || seq!['/', '\\', ':'].contains(dir@.last())) || path == dir@
            + seq!['/'] + sub || path == dir@ + seq!['\\'] + sub,
{
    let ends = seq!['/', '\\', ':'];
    assert(ends[0] == '/' && ends[1] == '\\' && ends[2] == ':');
}

} // verus!
