//! File paths as text: the file name, extension and stem of a path and the
//! joining of a directory with a file name.
//!
//! A path is a sequence of characters whose components are separated by
//! `/`. Separators at the end of a path, and `.` components at its end, do
//! not count towards its file name; a path that ends in `..` has none.

use vstd::prelude::*;

verus! {

/// The position of the last occurrence of `c` in `text`, if there is one.
pub open spec fn last_index_of(text: Seq<char>, c: char) -> Option<int>
    decreases text.len(),
{
    if text.len() == 0 {
        None
    } else if text.last() == c {
        Some(text.len() - 1)
    } else {
        last_index_of(text.drop_last(), c)
    }
}

/// `last_index_of` finds an occurrence that no later one follows, and finds
/// none only where there is none.
pub proof fn lemma_last_index_of(text: Seq<char>, c: char)
    ensures
        match last_index_of(text, c) {
            Some(i) => 0 <= i < text.len() && text[i] == c && forall|j: int|
                i < j < text.len() ==> text[j] != c,
            None => forall|j: int| 0 <= j < text.len() ==> text[j] != c,
        },
    decreases text.len(),
{
    if text.len() > 0 && text.last() != c {
        let front = text.drop_last();
        lemma_last_index_of(front, c);
        assert(forall|j: int| 0 <= j < front.len() ==> front[j] == text[j]);
    }
}

/// Returns the position of the last occurrence of `c` in `text`.
pub fn find_last(text: &str, c: char) -> (found: Option<usize>)
    ensures
        match found {
            Some(i) => last_index_of(text@, c) == Some(i as int),
            None => last_index_of(text@, c) is None,
        },
{
    let length: usize = text.unicode_len();
    let mut found: Option<usize> = None;
    let mut count: usize = 0;
    for ch in it: text.chars()
        invariant
            it.seq() == text@,
            count == it.index(),
            length == text@.len(),
            match found {
                Some(i) => last_index_of(text@.take(count as int), c) == Some(i as int),
                None => last_index_of(text@.take(count as int), c) is None,
            },
    {
        assert(text@.take(count + 1).drop_last() =~= text@.take(count as int));
        if ch == c {
            found = Some(count);
        }
        count = count + 1;
    }
    assert(text@.take(count as int) =~= text@);
    found
}

/// Tells whether two strings hold the same characters.
pub fn same_text(a: &str, b: &str) -> (same: bool)
    ensures
        same == (a@ == b@),
{
    let length: usize = a.unicode_len();
    if length != b.unicode_len() {
        return false;
    }
    let mut i: usize = 0;
    while i < length
        invariant
            i <= length,
            length == a@.len(),
            length == b@.len(),
            forall|j: int| 0 <= j < i ==> a@[j] == b@[j],
        decreases length - i,
    {
        if a.get_char(i) != b.get_char(i) {
            return false;
        }
        i = i + 1;
    }
    assert(a@ =~= b@);
    true
}

/// `path` without what its end holds besides a component: separators at
/// the end are dropped, and so is a `.` that stands at the end behind a
/// separator.
pub open spec fn trim_end(path: Seq<char>) -> Seq<char>
    decreases path.len(),
{
    if path.len() > 0 && path.last() == '/' {
        trim_end(path.drop_last())
    } else if path.len() >= 2 && path.last() == '.' && path[path.len() - 2] == '/' {
        trim_end(path.drop_last())
    } else {
        path
    }
}

/// The last component of `path`: what follows the last `/` of the path
/// once its end is trimmed, or all of the trimmed path.
pub open spec fn last_component(path: Seq<char>) -> Seq<char> {
    let trimmed = trim_end(path);
    match last_index_of(trimmed, '/') {
        Some(i) => trimmed.skip(i + 1),
        None => trimmed,
    }
}

/// Tells whether a component names a file: it is not empty, and is
/// neither `.` nor `..`.
pub open spec fn names_file(component: Seq<char>) -> bool {
    component.len() > 0 && component != seq!['.'] && component != seq!['.', '.']
}

/// The file name of `path`: its last component, where `/` and `.` at the
/// end do not count. A path that is empty, that holds separators only,
/// that is `.` or that ends in `..` has none.
pub open spec fn file_name(path: Seq<char>) -> Option<Seq<char>> {
    let name = last_component(path);
    if names_file(name) {
        Some(name)
    } else {
        None
    }
}

/// Where a file name splits into stem and extension: the position of
/// its last `.`, unless that is its first character.
pub open spec fn extension_dot(name: Seq<char>) -> Option<int> {
    match last_index_of(name, '.') {
        Some(i) if i > 0 => Some(i),
        _ => None,
    }
}

/// The extension of `path`: what follows the last `.` of its file name.
/// A path without a file name has none, and neither has a file name
/// without a `.`, or whose only `.` comes first.
pub open spec fn extension(path: Seq<char>) -> Option<Seq<char>> {
    match file_name(path) {
        Some(name) => match extension_dot(name) {
            Some(i) => Some(name.skip(i + 1)),
            None => None,
        },
        None => None,
    }
}

/// The stem of `path`: its file name without the extension and the `.`
/// before it. A path without a file name has none.
pub open spec fn file_stem(path: Seq<char>) -> Option<Seq<char>> {
    match file_name(path) {
        Some(name) => match extension_dot(name) {
            Some(i) => Some(name.take(i)),
            None => Some(name),
        },
        None => None,
    }
}

/// The path of the file `name` in the directory `dir`. An empty `dir` is
/// the current directory.
pub open spec fn join(dir: Seq<char>, name: Seq<char>) -> Seq<char> {
    if dir.len() == 0 {
        name
    } else if dir.last() == '/' {
        dir + name
    } else {
        dir + seq!['/'] + name
    }
}

/// Returns how many characters of `path` are left once its end is trimmed.
pub fn trimmed_length(path: &str) -> (length: usize)
    ensures
        length <= path@.len(),
        trim_end(path@) == path@.take(length as int),
{
    let total: usize = path.unicode_len();
    let mut length: usize = 0;
    let mut count: usize = 0;
    let mut after_separator: bool = false;
    for ch in it: path.chars()
        invariant
            it.seq() == path@,
            count == it.index(),
            total == path@.len(),
            length <= count,
            trim_end(path@.take(count as int)) == path@.take(length as int),
            after_separator == (count > 0 && path@[count - 1] == '/'),
    {
        let ghost seen = path@.take(count + 1);
        assert(seen.drop_last() =~= path@.take(count as int));
        assert(seen.last() == ch);
        if ch == '/' {
            after_separator = true;
        } else if ch == '.' && after_separator {
            assert(seen[seen.len() - 2] == '/');
            after_separator = false;
        } else {
            length = count + 1;
            after_separator = false;
        }
        count = count + 1;
    }
    assert(path@.take(count as int) =~= path@);
    length
}

/// Returns the file name of `path`, if it has one.
pub fn file_name_of(path: &str) -> (name: Option<&str>)
    ensures
        match name {
            Some(n) => file_name(path@) == Some(n@),
            None => file_name(path@) is None,
        },
{
    let trimmed = path.substring_char(0, trimmed_length(path));
    assert(trimmed@ =~= trim_end(path@));
    let component = match find_last(trimmed, '/') {
        Some(i) => {
            proof {
                lemma_last_index_of(trimmed@, '/');
            }
            let length: usize = trimmed.unicode_len();
            let component = trimmed.substring_char(i + 1, length);
            assert(component@ =~= trimmed@.skip(i + 1));
            component
        },
        None => trimmed,
    };
    assert(component@ == last_component(path@));
    proof {
        reveal_strlit("");
        reveal_strlit(".");
        reveal_strlit("..");
        assert(""@ =~= Seq::<char>::empty());
        assert("."@ =~= seq!['.']);
        assert(".."@ =~= seq!['.', '.']);
    }
    assert(component@.len() == 0 ==> component@ =~= Seq::<char>::empty());
    if same_text(component, "") || same_text(component, ".") || same_text(component, "..") {
        None
    } else {
        Some(component)
    }
}

/// Returns the extension of `path`, if it has one.
pub fn extension_of(path: &str) -> (ext: Option<&str>)
    ensures
        match ext {
            Some(e) => extension(path@) == Some(e@),
            None => extension(path@) is None,
        },
{
    match file_name_of(path) {
        Some(name) => match find_last(name, '.') {
            Some(i) => {
                if i > 0 {
                    proof {
                        lemma_last_index_of(name@, '.');
                    }
                    let length: usize = name.unicode_len();
                    let ext = name.substring_char(i + 1, length);
                    assert(ext@ =~= name@.skip(i + 1));
                    Some(ext)
                } else {
                    None
                }
            },
            None => None,
        },
        None => None,
    }
}

/// Returns the stem of `path`, if it has a file name.
pub fn file_stem_of(path: &str) -> (stem: Option<&str>)
    ensures
        match stem {
            Some(s) => file_stem(path@) == Some(s@),
            None => file_stem(path@) is None,
        },
{
    match file_name_of(path) {
        Some(name) => match find_last(name, '.') {
            Some(i) => {
                if i > 0 {
                    proof {
                        lemma_last_index_of(name@, '.');
                    }
                    let stem = name.substring_char(0, i);
                    assert(stem@ =~= name@.take(i as int));
                    Some(stem)
                } else {
                    Some(name)
                }
            },
            None => Some(name),
        },
        None => None,
    }
}

/// Returns the path of the file `name` in the directory `dir`.
pub fn join_path(dir: &str, name: &str) -> (path: String)
    ensures
        path@ == join(dir@, name@),
{
    let length: usize = dir.unicode_len();
    let mut path = String::from_str(dir);
    if length > 0 && dir.get_char(length - 1) != '/' {
        proof {
            reveal_strlit("/");
        }
        path.append("/");
        assert("/"@ =~= seq!['/']);
    }
    path.append(name);
    assert(path@ =~= join(dir@, name@));
    path
}

/// An occurrence of `c` that no later one follows is the one that
/// `last_index_of` finds.
pub proof fn lemma_last_index_of_is(text: Seq<char>, c: char, i: int)
    requires
        0 <= i < text.len(),
        text[i] == c,
        forall|j: int| i < j < text.len() ==> text[j] != c,
    ensures
        last_index_of(text, c) == Some(i),
{
    lemma_last_index_of(text, c);
}

/// A separator at the end of a path, and a `.` behind it, do not count:
/// the path has the file name, the extension and the stem that it has
/// without them.
pub proof fn lemma_trailing_separator_ignored(path: Seq<char>)
    ensures
        file_name(path + seq!['/']) == file_name(path),
        file_name(path + seq!['/', '.']) == file_name(path),
        extension(path + seq!['/']) == extension(path),
        extension(path + seq!['/', '.']) == extension(path),
        file_stem(path + seq!['/']) == file_stem(path),
        file_stem(path + seq!['/', '.']) == file_stem(path),
{
    let closed = path + seq!['/'];
    let dotted = path + seq!['/', '.'];
    assert(closed.drop_last() =~= path);
    assert(dotted.drop_last() =~= closed);
    assert(trim_end(closed) == trim_end(path));
    assert(trim_end(dotted) == trim_end(closed));
}

/// The file name of a path that ends in `name`, where `name` names a
/// file and holds no `/`, and what stands before it is empty or ends in
/// `/`, is `name`.
pub proof fn lemma_file_name_of_concat(parent: Seq<char>, name: Seq<char>)
    requires
        names_file(name),
        !name.contains('/'),
        parent.len() == 0 || parent.last() == '/',
    ensures
        file_name(parent + name) == Some(name),
{
    let path = parent + name;
    assert(forall|j: int| 0 <= j < name.len() ==> path[parent.len() + j] == name[j]);
    assert(path.last() == name.last());
    assert(name.contains(name.last()));
    if name.len() == 1 {
        assert(name =~= seq![name[0]]);
    } else {
        assert(path[path.len() - 2] == name[name.len() - 2]);
        assert(name.contains(name[name.len() - 2]));
    }
    assert(trim_end(path) == path);
    if parent.len() == 0 {
        assert(path =~= name);
        lemma_last_index_of(name, '/');
    } else {
        assert forall|j: int| parent.len() - 1 < j < path.len() implies path[j] != '/' by {
            assert(path[j] == name[j - parent.len()]);
        }
        lemma_last_index_of_is(path, '/', parent.len() - 1);
        assert(path.skip(parent.len() as int) =~= name);
    }
}

/// A name that names a file and holds no `/` is the file name of the
/// path that joins it to a directory.
pub proof fn lemma_file_name_of_join(dir: Seq<char>, name: Seq<char>)
    requires
        names_file(name),
        !name.contains('/'),
    ensures
        file_name(join(dir, name)) == Some(name),
{
    if dir.len() == 0 {
        lemma_file_name_of_concat(dir, name);
        assert(dir + name =~= name);
    } else if dir.last() == '/' {
        lemma_file_name_of_concat(dir, name);
    } else {
        lemma_file_name_of_concat(dir + seq!['/'], name);
    }
}

/// A file name made of a stem that is not empty, a `.` and an extension
/// without `.` splits at that `.`.
pub proof fn lemma_extension_dot_of_concat(stem: Seq<char>, ext: Seq<char>)
    requires
        stem.len() > 0,
        !ext.contains('.'),
    ensures
        extension_dot(stem + seq!['.'] + ext) == Some(stem.len() as int),
        (stem + seq!['.'] + ext).take(stem.len() as int) == stem,
        (stem + seq!['.'] + ext).skip(stem.len() as int + 1) == ext,
{
    let name = stem + seq!['.'] + ext;
    assert forall|j: int| stem.len() < j < name.len() implies name[j] != '.' by {
        assert(name[j] == ext[j - stem.len() - 1]);
    }
    lemma_last_index_of_is(name, '.', stem.len() as int);
    assert(name.take(stem.len() as int) =~= stem);
    assert(name.skip(stem.len() as int + 1) =~= ext);
}

/// A stem and an extension, neither empty nor with a `/`, make a name
/// that names a file and holds no `/`.
pub proof fn lemma_dotted_name_names_file(stem: Seq<char>, ext: Seq<char>)
    requires
        stem.len() > 0,
        ext.len() > 0,
        !stem.contains('/'),
        !ext.contains('/'),
    ensures
        names_file(stem + seq!['.'] + ext),
        !(stem + seq!['.'] + ext).contains('/'),
{
    let name = stem + seq!['.'] + ext;
    assert(name.len() >= 3);
    assert(seq!['.'].len() == 1 && seq!['.', '.'].len() == 2);
    assert forall|j: int| 0 <= j < name.len() implies name[j] != '/' by {
        if j < stem.len() {
            assert(name[j] == stem[j]);
        } else if j > stem.len() {
            assert(name[j] == ext[j - stem.len() - 1]);
        }
    }
}

/// The file name of a path holds no `/`, and neither does its stem.
pub proof fn lemma_file_name_has_no_separator(path: Seq<char>)
    ensures
        file_name(path) matches Some(name) ==> !name.contains('/'),
        file_stem(path) matches Some(stem) ==> !stem.contains('/'),
{
    let trimmed = trim_end(path);
    lemma_last_index_of(trimmed, '/');
    let name = last_component(path);
    assert(forall|j: int| 0 <= j < name.len() ==> name[j] != '/');
    lemma_last_index_of(name, '.');
    if let Some(stem) = file_stem(path) {
        assert(forall|j: int| 0 <= j < stem.len() ==> stem[j] == name[j]);
    }
}

/// A path with an extension has a stem that is not empty, and its file
/// name is the stem, a `.` and the extension.
pub proof fn lemma_stem_of_path_with_extension(path: Seq<char>)
    requires
        extension(path) is Some,
    ensures
        file_stem(path) is Some,
        file_stem(path)->Some_0.len() > 0,
        file_name(path) == Some(file_stem(path)->Some_0 + seq!['.'] + extension(path)->Some_0),
        !extension(path)->Some_0.contains('.'),
{
    let name = file_name(path)->Some_0;
    lemma_last_index_of(name, '.');
    let dot = extension_dot(name)->Some_0;
    let ext = name.skip(dot + 1);
    assert(name =~= name.take(dot) + seq!['.'] + ext);
    assert(forall|j: int| 0 <= j < ext.len() ==> ext[j] == name[dot + 1 + j]);
}

} // verus!
