//! Where the files of libraries can stand.
//!
//! Paths are written with `/`.
use crate::names::name_texts;
use crate::text::{characters, join, join3, same, string_of};
use vstd::prelude::*;

verus! {

broadcast use vstd::seq_lib::group_seq_properties;

/// A path followed by another. A path from the root stays what it is.
pub open spec fn below(path: Seq<char>, part: Seq<char>) -> Seq<char> {
    if part.len() > 0 && part[0] == '/' {
        part
    } else if path.len() == 0 || path.last() == '/' {
        path + part
    } else {
        path + "/"@ + part
    }
}

/// A path followed by others.
pub open spec fn below_all(path: Seq<char>, parts: Seq<Seq<char>>) -> Seq<char>
    decreases parts.len(),
{
    if parts.len() == 0 {
        path
    } else {
        below(below_all(path, parts.drop_last()), parts.last())
    }
}

/// A path up to the last place that it names: without slashes at the end, and without dots that
/// stand for the same place.
pub open spec fn trimmed(path: Seq<char>) -> Seq<char>
    decreases path.len(),
{
    if path.len() > 0 && (path.last() == '/' || path.len() > 1 && path.last() == '.' && path[path.len() - 2] == '/') {
        trimmed(path.drop_last())
    } else {
        path
    }
}

/// Where the last name of a path starts.
pub open spec fn name_start(path: Seq<char>) -> int
    decreases path.len(),
{
    if path.len() == 0 || path.last() == '/' {
        path.len() as int
    } else {
        name_start(path.drop_last())
    }
}

/// Where the last name of a path ends without its extension: before the last dot, unless the name
/// starts with it.
pub open spec fn stem_end(path: Seq<char>, start: int, end: int) -> int
    decreases end - start,
{
    if end <= start + 1 {
        path.len() as int
    } else if path[end - 1] == '.' {
        end - 1
    } else {
        stem_end(path, start, end - 1)
    }
}

/// The last name of a path, if it ends in one.
pub open spec fn last_name(path: Seq<char>) -> Option<Seq<char>> {
    let whole = trimmed(path);
    let name = whole.skip(name_start(whole));
    if name.len() == 0 || name == "."@ || name == ".."@ {
        None
    } else {
        Some(name)
    }
}

/// Where the extension of the last name of a path starts, with its dot, in the trimmed path.
pub open spec fn extension_start(path: Seq<char>) -> int {
    let whole = trimmed(path);
    stem_end(whole, name_start(whole), whole.len() as int)
}

/// A path with an extension in place of that of its last name. A path that does not end in a name
/// stays what it is.
pub open spec fn extended(path: Seq<char>, extension: Seq<char>) -> Seq<char> {
    if last_name(path) is None {
        path
    } else {
        trimmed(path).take(extension_start(path)) + "."@ + extension
    }
}

/// A path without as many characters as its extension has. The dot before the extension stays.
pub open spec fn shortened(path: Seq<char>) -> Seq<char> {
    let whole = trimmed(path);
    if last_name(path) is None || extension_start(path) >= whole.len() {
        path
    } else {
        path.take(path.len() - (whole.len() - extension_start(path) - 1))
    }
}

/// A path with another extension: the old one is dropped before the new one is set.
pub open spec fn with_extension(path: Seq<char>, extension: Seq<char>) -> Seq<char> {
    extended(shortened(path), extension)
}

/// The files in which a library can stand, the first choice first.
pub open spec fn candidates(base: Seq<char>, name: Seq<Seq<char>>) -> Seq<Seq<char>> {
    let path = below_all(base, name);
    seq![
        with_extension(path, "sld"@),
        with_extension(path, "scm"@),
        below(path, "main.sld"@),
        below(path, "main.scm"@),
    ]
}

/// A path followed by another.
fn path_below(path: &str, part: &str) -> (whole: String)
    ensures
        whole@ == below(path@, part@),
{
    let parts = characters(part);
    if parts.len() > 0 && parts[0] == '/' {
        return part.to_owned();
    }
    let path_chars = characters(path);
    if path_chars.len() == 0 || path_chars[path_chars.len() - 1] == '/' {
        join(path, part)
    } else {
        join3(path, "/", part)
    }
}

/// The characters from one place up to another.
fn cut(chars: &Vec<char>, start: usize, end: usize) -> (part: Vec<char>)
    requires
        start <= end <= chars@.len(),
    ensures
        part@ == chars@.subrange(start as int, end as int),
{
    let mut part: Vec<char> = Vec::new();
    let mut index: usize = start;
    while index < end
        invariant
            start <= index <= end <= chars@.len(),
            part@ == chars@.subrange(start as int, index as int),
        decreases end - index,
    {
        part.push(chars[index]);
        assert(part@ =~= chars@.subrange(start as int, index + 1));
        index = index + 1;
    }
    part
}

/// How much of a path is left when it is trimmed.
fn trimmed_length(path: &Vec<char>) -> (length: usize)
    ensures
        length <= path@.len(),
        trimmed(path@) == path@.take(length as int),
{
    let mut length: usize = path.len();
    assert(path@.take(length as int) =~= path@);
    while length > 0 && (path[length - 1] == '/' || length > 1 && path[length - 1] == '.' && path[length - 2] == '/')
        invariant
            length <= path@.len(),
            trimmed(path@) == trimmed(path@.take(length as int)),
        decreases length,
    {
        assert(path@.take(length as int).drop_last() =~= path@.take(length - 1));
        length = length - 1;
    }
    length
}

/// Where the last name of the first characters of a path starts.
fn find_name_start(path: &Vec<char>, length: usize) -> (start: usize)
    requires
        length <= path@.len(),
    ensures
        start <= length,
        start == name_start(path@.take(length as int)),
{
    let mut start: usize = length;
    while start > 0 && path[start - 1] != '/'
        invariant
            start <= length <= path@.len(),
            name_start(path@.take(length as int)) == name_start(path@.take(start as int)),
        decreases start,
    {
        assert(path@.take(start as int).drop_last() =~= path@.take(start - 1));
        start = start - 1;
    }
    start
}

/// The length of a trimmed path and where its extension starts, if the path ends in a name.
fn find_extension(path: &Vec<char>) -> (found: Option<(usize, usize)>)
    ensures
        match found {
            None => last_name(path@) is None,
            Some((length, start)) => last_name(path@) is Some && start <= length <= path@.len() && trimmed(path@)
                == path@.take(length as int) && start == extension_start(path@),
        },
{
    let length: usize = trimmed_length(path);
    let start: usize = find_name_start(path, length);
    let ghost whole = path@.take(length as int);
    let name_chars = cut(path, start, length);
    assert(name_chars@ =~= whole.skip(start as int));
    let name = string_of(&name_chars);
    if name_chars.len() == 0 || same(name.as_str(), ".") || same(name.as_str(), "..") {
        return None;
    }
    let mut end: usize = length;
    while end > start + 1 && path[end - 1] != '.'
        invariant
            start < length <= path@.len(),
            start < end <= length,
            whole == path@.take(length as int),
            stem_end(whole, start as int, length as int) == stem_end(whole, start as int, end as int),
        decreases end,
    {
        end = end - 1;
    }
    if end > start + 1 {
        Some((length, end - 1))
    } else {
        Some((length, length))
    }
}

/// A path with another extension.
fn path_with_extension(path: &str, extension: &str) -> (changed: String)
    ensures
        changed@ == with_extension(path@, extension@),
{
    let mut chars = characters(path);
    if let Some((length, start)) = find_extension(&chars) {
        if start < length {
            chars = cut(&chars, 0, chars.len() - (length - start - 1));
        }
    }
    assert(chars@ =~= shortened(path@));
    match find_extension(&chars) {
        None => string_of(&chars),
        Some((_, start)) => {
            let stem = cut(&chars, 0, start);
            assert(stem@ =~= trimmed(chars@).take(start as int));
            join3(string_of(&stem).as_str(), ".", extension)
        },
    }
}

/// The files in which a library with a name can stand, below a directory: the first choice first.
pub fn library_candidates(base: &str, name: &Vec<String>) -> (paths: Vec<String>)
    ensures
        name_texts(paths@) == candidates(base@, name_texts(name@)),
{
    let mut path: String = base.to_owned();
    let mut index: usize = 0;
    assert(name_texts(name@).take(0) =~= Seq::<Seq<char>>::empty());
    while index < name.len()
        invariant
            index <= name@.len(),
            path@ == below_all(base@, name_texts(name@).take(index as int)),
        decreases name@.len() - index,
    {
        proof {
            let more = name_texts(name@).take(index + 1);
            assert(more.drop_last() =~= name_texts(name@).take(index as int));
            assert(more.last() == name@[index as int]@);
        }
        path = path_below(path.as_str(), name[index].as_str());
        index = index + 1;
    }
    assert(name_texts(name@).take(index as int) =~= name_texts(name@));
    let paths: Vec<String> = vec![
        path_with_extension(path.as_str(), "sld"),
        path_with_extension(path.as_str(), "scm"),
        path_below(path.as_str(), "main.sld"),
        path_below(path.as_str(), "main.scm"),
    ];
    assert(name_texts(paths@) =~= candidates(base@, name_texts(name@)));
    paths
}

} // verus!
