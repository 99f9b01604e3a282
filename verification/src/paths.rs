//! Paths as texts whose parts are separated by `/`.
//!
//! A path is taken as it is written: no part is resolved, and two paths are
//! the same only if they are the same text.

use crate::text::{after_last, chars_of, find_last, push_chars, starts_at, string_of};
use vstd::prelude::*;

verus! {

/// The last part of `path`: what follows its last `/`.
pub open spec fn file_name(path: Seq<char>) -> Seq<char> {
    path.skip(after_last(path, '/') as int)
}

/// The length of the stem of the file name `name`: the whole name where it
/// holds no dot, or none but a first one; else what stands before its last
/// dot.
pub open spec fn stem_len(name: Seq<char>) -> nat {
    let dot = after_last(name, '.');
    if dot <= 1 {
        name.len()
    } else {
        (dot - 1) as nat
    }
}

/// The file name of `path` without its extension.
pub open spec fn file_stem(path: Seq<char>) -> Seq<char> {
    let name = file_name(path);
    name.take(stem_len(name) as int)
}

/// The extension of `path`: what follows the last dot of its file name,
/// unless that dot is the first character of the name.
pub open spec fn extension(path: Seq<char>) -> Option<Seq<char>> {
    let name = file_name(path);
    if stem_len(name) < name.len() {
        Some(name.skip(stem_len(name) as int + 1))
    } else {
        None
    }
}

/// `path` with the extension `ext` in place of its own, or added where it
/// has none. A path without a file name stays as it is.
pub open spec fn with_extension(path: Seq<char>, ext: Seq<char>) -> Seq<char> {
    let name = file_name(path);
    if name.len() == 0 {
        path
    } else {
        path.take(path.len() - name.len() + stem_len(name)).push('.') + ext
    }
}

/// `base` as the start of the paths below it: with a `/` at its end, unless
/// it is empty.
pub open spec fn dir_prefix(base: Seq<char>) -> Seq<char> {
    if base.len() == 0 || base.last() == '/' {
        base
    } else {
        base.push('/')
    }
}

/// `path` relative to the directory `base`, where it lies below it.
pub open spec fn strip_prefix(path: Seq<char>, base: Seq<char>) -> Option<Seq<char>> {
    let prefix = dir_prefix(base);
    if prefix.is_prefix_of(path) {
        Some(path.skip(prefix.len() as int))
    } else {
        None
    }
}

/// Whether `path` starts at the root.
pub open spec fn is_absolute(path: Seq<char>) -> bool {
    path.len() > 0 && path[0] == '/'
}

/// `path` as seen from the directory `base`: `path` itself where it is
/// absolute, else `path` below `base`.
pub open spec fn join(base: Seq<char>, path: Seq<char>) -> Seq<char> {
    if is_absolute(path) {
        path
    } else {
        dir_prefix(base) + path
    }
}

/// The directory that holds `path`. The root and the empty path have none.
pub open spec fn parent(path: Seq<char>) -> Option<Seq<char>> {
    let cut = after_last(path, '/') as int;
    if path.len() == 0 || path == seq!['/'] {
        None
    } else if cut <= 1 {
        Some(path.take(cut))
    } else {
        Some(path.take(cut - 1))
    }
}

/// One step up from a directory.
pub const UP: &'static str = "../";

/// The way up from `path` to `base`: one `UP` for each of `path`, its
/// parent, the parent of that and so on that comes before `base`, or for
/// all of them where `base` is none of them.
pub open spec fn way_up(path: Seq<char>, base: Seq<char>) -> Seq<char>
    decreases path.len(),
{
    if path == base {
        Seq::empty()
    } else {
        UP@ + match parent(path) {
            Some(up) => if up.len() < path.len() {
                way_up(up, base)
            } else {
                Seq::empty()
            },
            None => Seq::empty(),
        }
    }
}

/// A relative path joined to a directory lies below it, at that path.
pub proof fn lemma_strip_join(base: Seq<char>, path: Seq<char>)
    requires
        !is_absolute(path),
    ensures
        strip_prefix(join(base, path), base) == Some(path),
{
}

/// The bounds of the file name's stem in `chars`: where the name starts and
/// where its stem ends.
fn stem_bounds(chars: &Vec<char>) -> (bounds: (usize, usize))
    ensures
        bounds.0 == after_last(chars@, '/'),
        bounds.0 <= bounds.1 <= chars.len(),
        bounds.1 - bounds.0 == stem_len(file_name(chars@)),
{
    let end = chars.len();
    assert(chars@.subrange(0, end as int) == chars@);
    let start = find_last(chars, 0, end, '/');
    let dot = find_last(chars, start, end, '.');
    if dot - start <= 1 {
        (start, end)
    } else {
        (start, dot - 1)
    }
}

/// The file name of `path` without its extension.
pub fn stem(path: &str) -> (out: String)
    ensures
        out@ == file_stem(path@),
{
    let chars = chars_of(path);
    let bounds = stem_bounds(&chars);
    string_of(&chars, bounds.0, bounds.1)
}

/// The extension of `path`.
pub fn extension_of(path: &str) -> (out: Option<String>)
    ensures
        match out {
            Some(ext) => extension(path@) == Some(ext@),
            None => extension(path@) is None,
        },
{
    let chars = chars_of(path);
    let bounds = stem_bounds(&chars);
    if bounds.1 < chars.len() {
        Some(string_of(&chars, bounds.1 + 1, chars.len()))
    } else {
        None
    }
}

/// `path` with the extension `ext`.
pub fn replace_extension(path: &str, ext: &str) -> (out: String)
    ensures
        out@ == with_extension(path@, ext@),
{
    let chars = chars_of(path);
    let bounds = stem_bounds(&chars);
    if bounds.0 == chars.len() {
        string_of(&chars, 0, chars.len())
    } else {
        let mut out = string_of(&chars, 0, bounds.1);
        out.push('.');
        out.append(ext);
        out
    }
}

/// Appends `base` to `out` as the start of the paths below it.
fn push_dir_prefix(out: &mut String, base: &Vec<char>)
    ensures
        final(out)@ == old(out)@ + dir_prefix(base@),
{
    push_chars(out, base, 0, base.len());
    if base.len() > 0 && base[base.len() - 1] != '/' {
        out.push('/');
    }
}

/// `path` relative to the directory `base`, where it lies below it.
pub fn relative_to(path: &str, base: &str) -> (out: Option<String>)
    ensures
        match out {
            Some(rest) => strip_prefix(path@, base@) == Some(rest@),
            None => strip_prefix(path@, base@) is None,
        },
{
    let chars = chars_of(path);
    let mut prefix = String::new();
    push_dir_prefix(&mut prefix, &chars_of(base));
    let prefix = chars_of(prefix.as_str());
    if starts_at(&chars, 0, &prefix) {
        Some(string_of(&chars, prefix.len(), chars.len()))
    } else {
        None
    }
}

/// `path` as seen from the directory `base`.
pub fn join_paths(base: &str, path: &str) -> (out: String)
    ensures
        out@ == join(base@, path@),
{
    let chars = chars_of(path);
    let mut out = String::new();
    if !(chars.len() > 0 && chars[0] == '/') {
        push_dir_prefix(&mut out, &chars_of(base));
    }
    push_chars(&mut out, &chars, 0, chars.len());
    out
}

/// The end of the parent of `chars[..len]` within it, where it has one.
fn parent_end(chars: &Vec<char>, len: usize) -> (end: Option<usize>)
    requires
        len <= chars.len(),
    ensures
        match end {
            Some(end) => end <= len && parent(chars@.take(len as int)) == Some(
                chars@.take(end as int),
            ),
            None => parent(chars@.take(len as int)) is None,
        },
{
    let ghost path = chars@.take(len as int);
    assert(chars@.subrange(0, len as int) == path);
    if len == 0 || (len == 1 && chars[0] == '/') {
        assert(len == 1 ==> path =~= seq!['/']);
        None
    } else {
        let cut = find_last(chars, 0, len, '/');
        let end = if cut <= 1 {
            cut
        } else {
            cut - 1
        };
        Some(end)
    }
}

/// The way up from `path` to `base`.
pub fn climb(path: &str, base: &str) -> (out: String)
    ensures
        out@ == way_up(path@, base@),
{
    let chars = chars_of(path);
    let target = chars_of(base);
    let mut len: usize = chars.len();
    let mut out = String::new();
    assert(chars@.take(len as int) == chars@);
    loop
        invariant
            len <= chars.len(),
            chars@ == path@,
            target@ == base@,
            out@ + way_up(chars@.take(len as int), target@) == way_up(chars@, target@),
        decreases len,
    {
        if len == target.len() && starts_at(&chars, 0, &target) {
            assert(chars@.take(len as int) == target@);
            return out;
        }
        out.append(UP);
        match parent_end(&chars, len) {
            Some(end) => {
                if end < len {
                    len = end;
                } else {
                    return out;
                }
            },
            None => {
                return out;
            },
        }
    }
}

} // verus!
