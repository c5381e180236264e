//! Relative paths made explicit, with `/` as the separator.

use vstd::prelude::*;
use vstd::string::{StrSliceExecFns, StringExecFns};

verus! {

/// `p` starts with a segment of `n` dots: `n` dots, then the end of `p` or a `/`.
pub open spec fn starts_with_dots(p: Seq<char>, n: int) -> bool {
    &&& p.len() >= n
    &&& forall|i: int| 0 <= i < n ==> p[i] == '.'
    &&& (p.len() == n || p[n] == '/')
}

/// The first component of the path `p` is a plain name: `p` is not empty, does not start
/// at the root, and its first segment is neither `.` nor `..`.
pub open spec fn starts_with_name(p: Seq<char>) -> bool {
    &&& p.len() > 0
    &&& p[0] != '/'
    &&& !starts_with_dots(p, 1)
    &&& !starts_with_dots(p, 2)
}

/// Makes a relative path start at the current directory: `./` is put in front of a path
/// that starts with a plain name, and the empty path becomes `.`. A path that starts at
/// the root, at `.` or at `..` is returned as it is.
pub fn prefix_with_current_dir(path: &str) -> (r: String)
    ensures
        r@ == (if path@.len() == 0 {
            seq!['.']
        } else if starts_with_name(path@) {
            seq!['.', '/'] + path@
        } else {
            path@
        }),
{
    let n = path.unicode_len();
    if n == 0 {
        proof {
            reveal_strlit(".");
        }
        return String::from_str(".");
    }
    let first_is_name = if n == 0 || path.get_char(0) == '/' {
        false
    } else if path.get_char(0) != '.' {
        true
    } else if n == 1 || path.get_char(1) == '/' {
        false
    } else if path.get_char(1) != '.' {
        true
    } else {
        !(n == 2 || path.get_char(2) == '/')
    };
    assert(first_is_name == starts_with_name(path@));
    if first_is_name {
        let mut prefixed = String::from_str("./");
        proof {
            reveal_strlit("./");
        }
        prefixed.append(path);
        prefixed
    } else {
        String::from_str(path)
    }
}

} // verus!
