//! Folder paths on the server and the addresses of its API.
//!
//! A path is written without a leading slash: the root folder is the empty
//! path and `a/b` is the folder `b` inside `a`.

use vstd::prelude::*;
use crate::text::chars_of;

verus! {

/// The path of the entry `name` inside the folder `dir`.
pub open spec fn child_of(dir: Seq<char>, name: Seq<char>) -> Seq<char> {
    if dir.len() == 0 {
        name
    } else {
        dir + seq!['/'] + name
    }
}

/// The folder that holds `path`: everything before its last slash, or the
/// root when it has no slash.
pub open spec fn parent_of(path: Seq<char>) -> Seq<char>
    decreases path.len(),
{
    if path.len() == 0 {
        path
    } else if path.last() == '/' {
        path.drop_last()
    } else {
        parent_of(path.drop_last())
    }
}

/// How a folder is shown to the user: its path after a slash.
pub open spec fn shown_path(path: Seq<char>) -> Seq<char> {
    seq!['/'] + path
}

/// The address of the API endpoint `endpoint` on the server at `ip`.
pub open spec fn api_address(ip: Seq<char>, endpoint: Seq<char>) -> Seq<char> {
    "https://"@ + ip + ":8080/api/"@ + endpoint
}

/// The path of the entry `name` inside the folder `dir`.
pub fn child_path(dir: &str, name: &str) -> (res: String)
    ensures
        res@ == child_of(dir@, name@),
{
    if dir.unicode_len() == 0 {
        String::from_str(name)
    } else {
        let mut res = String::from_str(dir);
        res.append("/");
        res.append(name);
        proof {
            reveal_strlit("/");
        }
        res
    }
}

/// The folder that holds `path`.
pub fn parent_path(path: &str) -> (res: String)
    ensures
        res@ == parent_of(path@),
{
    let v = chars_of(path);
    let mut j: usize = v.len();
    assert(v@.subrange(0, j as int) =~= v@);
    while j > 0 && v[j - 1] != '/'
        invariant
            v@ == path@,
            j <= v.len(),
            parent_of(path@) == parent_of(v@.subrange(0, j as int)),
        decreases j,
    {
        assert(v@.subrange(0, j as int).drop_last() =~= v@.subrange(0, j - 1));
        j = j - 1;
    }
    if j == 0 {
        assert(v@.subrange(0, 0) =~= Seq::<char>::empty());
        return String::new();
    }
    assert(v@.subrange(0, j as int).drop_last() =~= v@.subrange(0, j - 1));
    String::from_str(path.substring_char(0, j - 1))
}

/// How the folder `path` is shown to the user.
pub fn show_path(path: &str) -> (res: String)
    ensures
        res@ == shown_path(path@),
{
    let mut res = String::from_str("/");
    res.append(path);
    proof {
        reveal_strlit("/");
    }
    res
}

/// The address of the API endpoint `endpoint` on the server at `ip`.
pub fn api_url(ip: &str, endpoint: &str) -> (res: String)
    ensures
        res@ == api_address(ip@, endpoint@),
{
    let mut res = String::from_str("https://");
    res.append(ip);
    res.append(":8080/api/");
    res.append(endpoint);
    res
}

/// Going into a folder and then back up returns to where one started: the
/// parent of `name` inside `dir` is `dir`, for every name without a slash.
pub proof fn parent_of_child(dir: Seq<char>, name: Seq<char>)
    requires
        !name.contains('/'),
    ensures
        parent_of(child_of(dir, name)) == dir,
    decreases name.len(),
{
    if name.len() == 0 {
        if dir.len() == 0 {
        } else {
            assert((dir + seq!['/'] + name).drop_last() =~= dir);
        }
    } else {
        let shorter = name.drop_last();
        assert(!shorter.contains('/')) by {
            if shorter.contains('/') {
                let k = choose|k: int| 0 <= k < shorter.len() && shorter[k] == '/';
                assert(name[k] == '/');
            }
        }
        assert(name.last() != '/') by {
            assert(name[name.len() - 1] == name.last());
        }
        parent_of_child(dir, shorter);
        if dir.len() == 0 {
            assert(child_of(dir, name).drop_last() =~= child_of(dir, shorter));
        } else {
            assert(child_of(dir, name).drop_last() =~= child_of(dir, shorter));
        }
    }
}

} // verus!
