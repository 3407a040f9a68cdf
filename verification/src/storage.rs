//! Where saved pictures go.

use vstd::prelude::*;
use vstd::string::{StrSliceExecFns, StringExecFns};
use crate::options::{find_char, first_index};

verus! {

/// The place behind the last `mark` in a text; 0 where it has none.
pub open spec fn last_end(text: Seq<char>, mark: char) -> nat
    decreases text.len(),
{
    if text.len() == 0 {
        0
    } else if text.last() == mark {
        text.len()
    } else {
        last_end(text.drop_last(), mark)
    }
}


/// The part of a path between its first piece and its last, where a piece
/// ends behind a slash or at the end of the path; empty where the path has
/// fewer than three pieces.
pub open spec fn inner_path(path: Seq<char>) -> Seq<char> {
    let first_end = if first_index(path, '/') < path.len() {
        first_index(path, '/') + 1
    } else {
        path.len()
    };
    let last_start = if path.len() == 0 {
        0
    } else {
        last_end(path.drop_last(), '/')
    };
    if first_end < last_start {
        path.subrange(first_end as int, last_start as int)
    } else {
        Seq::empty()
    }
}


/// The place behind the last `mark` is the one place with no `mark` from it
/// on that follows a `mark` or is the start of the text.
pub proof fn lemma_last_end(text: Seq<char>, mark: char, place: int)
    requires
        0 <= place <= text.len(),
        forall|k: int| place <= k < text.len() ==> text[k] != mark,
        place == 0 || text[place - 1] == mark,
    ensures
        last_end(text, mark) == place,
    decreases text.len(),
{
    if place < text.len() {
        let rest = text.drop_last();
        lemma_last_end(rest, mark, place);
    }
}


/// The directories of a file path: the path without its first piece and
/// without its last, where a piece ends behind a slash.
pub fn get_path(file_path: &String) -> (directories: String)
    ensures
        directories@ == inner_path(file_path@),
{
    let path = file_path.as_str();
    let length: usize = path.unicode_len();
    assert(path@.skip(0) =~= path@);
    let slash: usize = find_char(path, 0, length, '/');
    let first_end: usize = if slash < length {
        slash + 1
    } else {
        length
    };
    let mut last_start: usize = if length == 0 {
        0
    } else {
        length - 1
    };
    while last_start > 0 && path.get_char(last_start - 1) != '/'
        invariant
            last_start < length || length == 0,
            last_start <= length,
            length == path@.len(),
            forall|k: int| last_start <= k < length - 1 ==> path@[k] != '/',
        decreases last_start,
    {
        last_start -= 1;
    }
    proof {
        if length > 0 {
            let body = path@.drop_last();
            lemma_last_end(body, '/', last_start as int);
        }
    }
    if first_end < last_start {
        let inner = path.substring_char(first_end, last_start);
        String::from_str(inner)
    } else {
        String::new()
    }
}

/// The path of the picture taken at the time `time` on the removable
/// drive.
pub open spec fn usb_path_text(time: Seq<char>) -> Seq<char> {
    "/media/usb0/thermal-camera/"@ + time + ".png"@
}

/// The path under which a picture taken at `time` is saved on the
/// removable drive. `time` is the text of the date and time of the picture,
/// which the caller reads off its clock.
pub fn get_usb_path(time: &str) -> (path: String)
    ensures
        path@ == usb_path_text(time@),
{
    let mut path = String::from_str("/media/usb0/thermal-camera/");
    path.append(time);
    path.append(".png");
    path
}

} // verus!
