//! Paths as texts, with `/` between their components.
use crate::text::{chars_of, join3, string_between};
use vstd::prelude::*;

verus! {

/// `base` followed by `rest`: an absolute `rest` stands for itself, and one
/// separator stands between the two parts.
pub open spec fn joined_path(base: Seq<char>, rest: Seq<char>) -> Seq<char> {
    if rest.len() > 0 && rest[0] == '/' {
        rest
    } else if base.len() == 0 || base.last() == '/' {
        base + rest
    } else {
        base + "/"@ + rest
    }
}

/// Joins two paths.
pub fn join_path(base: &str, rest: &str) -> (r: String)
    ensures
        r@ == joined_path(base@, rest@),
{
    let b = chars_of(base);
    let t = chars_of(rest);
    if t.len() > 0 && t[0] == '/' {
        rest.to_owned()
    } else if b.len() == 0 || b[b.len() - 1] == '/' {
        let r = join3(base, rest, "");
        proof {
            reveal_strlit("");
            assert(base@ + rest@ + ""@ =~= base@ + rest@);
        }
        r
    } else {
        join3(base, "/", rest)
    }
}

/// Where the last component of the first `end` characters of a path begins.
pub open spec fn component_start(path: Seq<char>, end: int) -> int
    decreases end,
{
    if end <= 0 {
        0
    } else if path[end - 1] == '/' {
        end
    } else {
        component_start(path, end - 1)
    }
}

/// The name of the file that a path leads to: its last component. Separators
/// and `.` components behind it do not count. There is none if the path ends in
/// `..`, or holds nothing else.
pub open spec fn file_name_text(path: Seq<char>) -> Option<Seq<char>>
    decreases path.len(),
{
    if path.len() == 0 {
        None
    } else {
        let end = path.len() as int;
        let start = component_start(path, end);
        let name = path.subrange(start, end);
        if name.len() == 0 {
            file_name_text(path.drop_last())
        } else if name == seq!['.'] {
            if start == 0 {
                None
            } else {
                file_name_text(path.drop_last())
            }
        } else if name == seq!['.', '.'] {
            None
        } else {
            Some(name)
        }
    }
}

/// The index of the last dot among the first `end` characters, or -1.
pub open spec fn last_dot(name: Seq<char>, end: int) -> int
    decreases end,
{
    if end <= 0 {
        -1
    } else if name[end - 1] == '.' {
        end - 1
    } else {
        last_dot(name, end - 1)
    }
}

/// A file name without its extension. A dot in front begins no extension.
pub open spec fn stem_of(name: Seq<char>) -> Seq<char> {
    let dot = last_dot(name, name.len() as int);
    if dot <= 0 {
        name
    } else {
        name.take(dot)
    }
}

/// The extension of a file name: what follows its last dot.
pub open spec fn extension_of(name: Seq<char>) -> Option<Seq<char>> {
    let dot = last_dot(name, name.len() as int);
    if dot <= 0 {
        None
    } else {
        Some(name.skip(dot + 1))
    }
}

/// The stem of the file that a path leads to.
pub open spec fn file_stem_text(path: Seq<char>) -> Option<Seq<char>> {
    match file_name_text(path) {
        Some(name) => Some(stem_of(name)),
        None => None,
    }
}

/// The extension of the file that a path leads to.
pub open spec fn extension_text(path: Seq<char>) -> Option<Seq<char>> {
    match file_name_text(path) {
        Some(name) => extension_of(name),
        None => None,
    }
}

/// Two optional texts are the same.
pub open spec fn is_text(value: Option<String>, text: Option<Seq<char>>) -> bool {
    match value {
        Some(v) => text == Some(v@),
        None => text is None,
    }
}

pub proof fn component_start_bounds(path: Seq<char>, end: int)
    requires
        0 <= end <= path.len(),
    ensures
        0 <= component_start(path, end) <= end,
        forall|i: int| component_start(path, end) <= i < end ==> path[i] != '/',
        component_start(path, end) > 0 ==> path[component_start(path, end) - 1] == '/',
    decreases end,
{
    if end > 0 && path[end - 1] != '/' {
        component_start_bounds(path, end - 1);
    }
}

pub proof fn last_dot_bounds(name: Seq<char>, end: int)
    requires
        0 <= end <= name.len(),
    ensures
        -1 <= last_dot(name, end) < end,
        last_dot(name, end) >= 0 ==> name[last_dot(name, end)] == '.',
        forall|i: int| last_dot(name, end) < i < end ==> name[i] != '.',
    decreases end,
{
    if end > 0 && name[end - 1] != '.' {
        last_dot_bounds(name, end - 1);
    }
}

/// The index of the last dot is known where a dot has no other behind it.
pub proof fn last_dot_is(name: Seq<char>, i: int)
    requires
        0 <= i < name.len(),
        name[i] == '.',
        forall|j: int| i < j < name.len() ==> name[j] != '.',
    ensures
        last_dot(name, name.len() as int) == i,
{
    last_dot_bounds(name, name.len() as int);
}

/// A name without a separator is the name of the file that it leads to.
pub proof fn plain_name_is_file_name(name: Seq<char>)
    requires
        name.len() > 0,
        name != seq!['.'],
        name != seq!['.', '.'],
        forall|i: int| 0 <= i < name.len() ==> name[i] != '/',
    ensures
        file_name_text(name) == Some(name),
{
    component_start_bounds(name, name.len() as int);
    assert(component_start(name, name.len() as int) == 0);
    assert(name.subrange(0, name.len() as int) =~= name);
}

proof fn component_start_of_take(path: Seq<char>, end: int, i: int)
    requires
        0 <= i <= end <= path.len(),
    ensures
        component_start(path.take(end), i) == component_start(path, i),
    decreases i,
{
    if i > 0 && path[i - 1] != '/' {
        component_start_of_take(path, end, i - 1);
    }
}

/// The name of the file that a path leads to.
pub fn file_name(path: &str) -> (r: Option<String>)
    ensures
        is_text(r, file_name_text(path@)),
{
    let chars = chars_of(path);
    let size = chars.len();
    let mut end: usize = size;
    assert(path@.take(size as int) =~= path@);
    while end > 0
        invariant
            end <= size,
            size == chars@.len(),
            chars@ == path@,
            file_name_text(path@) == file_name_text(path@.take(end as int)),
        decreases end,
    {
        let mut start: usize = end;
        while start > 0 && chars[start - 1] != '/'
            invariant
                start <= end <= size,
                size == chars@.len(),
                chars@ == path@,
                component_start(path@, end as int) == component_start(path@, start as int),
            decreases start,
        {
            start = start - 1;
        }
        let ghost before = path@.take(end as int);
        proof {
            component_start_of_take(path@, end as int, end as int);
            assert(component_start(path@, start as int) == start);
            assert(before.subrange(start as int, end as int) =~= path@.subrange(
                start as int,
                end as int,
            ));
            assert(before.drop_last() =~= path@.take(end - 1));
        }
        let length = end - start;
        if length == 0 {
            end = end - 1;
        } else if length == 1 && chars[start] == '.' {
            assert(path@.subrange(start as int, end as int) =~= seq!['.']);
            if start == 0 {
                return None;
            }
            end = end - 1;
        } else if length == 2 && chars[start] == '.' && chars[start + 1] == '.' {
            assert(path@.subrange(start as int, end as int) =~= seq!['.', '.']);
            return None;
        } else {
            proof {
                let name = path@.subrange(start as int, end as int);
                if length == 1 {
                    assert(name[0] != seq!['.'][0]);
                }
                if length == 2 {
                    assert(name[0] != seq!['.', '.'][0] || name[1] != seq!['.', '.'][1]);
                }
            }
            return Some(string_between(&chars, start, end));
        }
    }
    None
}

fn find_last_dot(chars: &Vec<char>) -> (r: Option<usize>)
    ensures
        match r {
            Some(i) => last_dot(chars@, chars@.len() as int) == i && i < chars@.len(),
            None => last_dot(chars@, chars@.len() as int) == -1,
        },
{
    let mut end: usize = chars.len();
    while end > 0
        invariant
            end <= chars@.len(),
            last_dot(chars@, chars@.len() as int) == last_dot(chars@, end as int),
        decreases end,
    {
        if chars[end - 1] == '.' {
            return Some(end - 1);
        }
        end = end - 1;
    }
    None
}

/// A file name without its extension.
pub fn name_stem(name: &str) -> (r: String)
    ensures
        r@ == stem_of(name@),
{
    let chars = chars_of(name);
    match find_last_dot(&chars) {
        Some(dot) => {
            if dot == 0 {
                name.to_owned()
            } else {
                let r = string_between(&chars, 0, dot);
                assert(name@.subrange(0, dot as int) =~= name@.take(dot as int));
                r
            }
        },
        None => name.to_owned(),
    }
}

/// The stem of the file that a path leads to.
pub fn file_stem(path: &str) -> (r: Option<String>)
    ensures
        is_text(r, file_stem_text(path@)),
{
    match file_name(path) {
        Some(name) => Some(name_stem(&name)),
        None => None,
    }
}

/// The extension of the file that a path leads to.
pub fn extension(path: &str) -> (r: Option<String>)
    ensures
        is_text(r, extension_text(path@)),
{
    match file_name(path) {
        Some(name) => {
            let chars = chars_of(&name);
            let size = chars.len();
            match find_last_dot(&chars) {
                Some(dot) => {
                    if dot == 0 {
                        None
                    } else {
                        let r = string_between(&chars, dot + 1, size);
                        assert(r@ =~= name@.skip(dot + 1));
                        Some(r)
                    }
                },
                None => None,
            }
        },
        None => None,
    }
}

/// The name of a file is what stands behind the last separator of its path, and
/// separators at the end do not count.
pub proof fn names_stand_behind_separators(folder: Seq<char>, name: Seq<char>)
    requires
        name.len() > 0,
        name != seq!['.'],
        name != seq!['.', '.'],
        forall|i: int| 0 <= i < name.len() ==> name[i] != '/',
    ensures
        file_name_text(folder + seq!['/'] + name) == Some(name),
        file_name_text(folder + seq!['/'] + name + seq!['/']) == Some(name),
{
    let path = folder + seq!['/'] + name;
    let end = path.len() as int;
    let start = folder.len() + 1;
    component_start_bounds(path, end);
    let found = component_start(path, end);
    assert(path[start - 1] == '/');
    assert forall|i: int| start <= i < end implies path[i] != '/' by {
        assert(path[i] == name[i - start]);
    }
    assert(found == start);
    assert(path.subrange(start as int, end) =~= name);
    let longer = path + seq!['/'];
    assert(longer.drop_last() =~= path);
    assert(longer[end] == '/');
    assert(component_start(longer, end + 1) == end + 1);
    assert(longer.subrange(end + 1, end + 1).len() == 0);
    assert(longer =~= folder + seq!['/'] + name + seq!['/']);
}

/// The extension of a name is what stands behind its last dot, and its stem what
/// stands before.
pub proof fn extensions_stand_behind_dots(stem: Seq<char>, ext: Seq<char>)
    requires
        stem.len() > 0,
        forall|i: int| 0 <= i < ext.len() ==> ext[i] != '.',
    ensures
        stem_of(stem + seq!['.'] + ext) == stem,
        extension_of(stem + seq!['.'] + ext) == Some(ext),
        extension_of(ext) is None,
        stem_of(ext) == ext,
{
    let name = stem + seq!['.'] + ext;
    let dot = stem.len() as int;
    assert forall|j: int| dot < j < name.len() implies name[j] != '.' by {
        assert(name[j] == ext[j - dot - 1]);
    }
    assert(name[dot] == '.');
    last_dot_is(name, dot);
    assert(name.take(dot) =~= stem);
    assert(name.skip(dot + 1) =~= ext);
    last_dot_bounds(ext, ext.len() as int);
}

/// Paths are joined with one separator between them, and an absolute path stands for
/// itself.
pub proof fn paths_are_joined(base: Seq<char>, rest: Seq<char>)
    requires
        base.len() > 0,
        rest.len() > 0,
    ensures
        rest[0] == '/' ==> joined_path(base, rest) == rest,
        rest[0] != '/' && base.last() != '/' ==> joined_path(base, rest) == base + seq!['/'] + rest,
        rest[0] != '/' && base.last() == '/' ==> joined_path(base, rest) == base + rest,
{
    reveal_strlit("/");
    assert("/"@ =~= seq!['/']);
}

} // verus!
