//! The names of files: what a path ends in, and the parts of that name.
//!
//! A path is text in which `/` parts the directories.

use crate::text::{last_index_of, lemma_last_index_of, opt_text, rfind_char};
use vstd::prelude::*;

verus! {

/// What follows the last `/` of `path`: the name of the file.
pub open spec fn file_name(path: Seq<char>) -> Seq<char> {
    path.skip(last_index_of(path, '/') + 1)
}

/// The name of the file without its extension. The extension is what follows
/// the last `.` of the name; a name with no `.`, or with its only `.` at the
/// front, has none.
pub open spec fn file_stem(path: Seq<char>) -> Seq<char> {
    let name = file_name(path);
    let dot = last_index_of(name, '.');
    if dot <= 0 {
        name
    } else {
        name.take(dot)
    }
}

/// The extension of the name of the file, if it has one.
pub open spec fn extension(path: Seq<char>) -> Option<Seq<char>> {
    let name = file_name(path);
    let dot = last_index_of(name, '.');
    if dot <= 0 {
        None
    } else {
        Some(name.skip(dot + 1))
    }
}

/// What follows the last `/` of `path`.
pub fn name_of(path: &str) -> (name: String)
    ensures
        name@ == file_name(path@),
{
    let n = path.unicode_len();
    proof {
        lemma_last_index_of(path@, '/');
    }
    let from = match rfind_char(path, '/') {
        Some(i) => i + 1,
        None => 0,
    };
    proof {
        assert(path@.subrange(from as int, n as int) =~= path@.skip(from as int));
    }
    String::from_str(path.substring_char(from, n))
}

/// The name of the file without its extension.
pub fn stem_of(path: &str) -> (stem: String)
    ensures
        stem@ == file_stem(path@),
{
    let name = name_of(path);
    match rfind_char(name.as_str(), '.') {
        Some(dot) => {
            if dot == 0 {
                name
            } else {
                proof {
                    lemma_last_index_of(name@, '.');
                    assert(name@.subrange(0, dot as int) =~= name@.take(dot as int));
                }
                String::from_str(name.as_str().substring_char(0, dot))
            }
        },
        None => name,
    }
}

/// The extension of the name of the file, if it has one.
pub fn extension_of(path: &str) -> (ext: Option<String>)
    ensures
        opt_text(ext) == extension(path@),
{
    let name = name_of(path);
    let n = name.as_str().unicode_len();
    match rfind_char(name.as_str(), '.') {
        Some(dot) => {
            if dot == 0 {
                None
            } else {
                proof {
                    lemma_last_index_of(name@, '.');
                    assert(name@.subrange(dot + 1, n as int) =~= name@.skip(dot + 1));
                }
                Some(String::from_str(name.as_str().substring_char(dot + 1, n)))
            }
        },
        None => None,
    }
}

} // verus!
