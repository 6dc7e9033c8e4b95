//! Paths as text: joining a name to a directory, and taking a path's parent
//! directory and last component.
use vstd::prelude::*;
use crate::text::{chars_of, append_chars, rfind, rfind_exec, lemma_rfind_some, starts_with_char, starts_with_char_exec};
use crate::sys::string_of;

verus! {

// ── Paths ────────────────────────────────────────────────────────────────────

/// The path of `name` inside the directory `dir` (`Path::join`): with a `/`
/// between them unless `dir` is empty or ends with one; an absolute `name`
/// stands alone.
pub open spec fn join_path(dir: Seq<char>, name: Seq<char>) -> Seq<char> {
    if starts_with_char(name, '/') || dir.len() == 0 {
        name
    } else if dir.last() == '/' {
        dir + name
    } else {
        dir + "/"@ + name
    }
}

/// The directory that holds `path` (`Path::parent` for a path without `.`
/// components, repeated or trailing slashes): what comes before its last `/`,
/// the root when that `/` is the first character, empty for a bare name;
/// none for the root and for the empty path.
pub open spec fn parent_path(path: Seq<char>) -> Option<Seq<char>> {
    if path.len() == 0 || path == "/"@ {
        None
    } else {
        match rfind(path, "/"@) {
            None => Some(Seq::empty()),
            Some(i) => if i == 0 {
                Some("/"@)
            } else {
                Some(path.take(i))
            },
        }
    }
}

/// The last component of `path` (`Path::file_name` for a path without `.`
/// components, repeated or trailing slashes): what follows its last `/`;
/// none when that is empty or `..`.
pub open spec fn file_name_of(path: Seq<char>) -> Option<Seq<char>> {
    let n = match rfind(path, "/"@) {
        Some(i) => path.skip(i + 1),
        None => path,
    };
    if n.len() == 0 || n == ".."@ {
        None
    } else {
        Some(n)
    }
}

/// The path of `name` inside `dir` (see [`join_path`]).
pub fn join_path_exec(dir: &str, name: &str) -> (r: String)
    ensures
        r@ == join_path(dir@, name@),
{
    let nc = chars_of(name);
    let dc = chars_of(dir);
    if starts_with_char_exec(nc.as_slice(), '/') || dc.len() == 0 {
        return name.to_owned();
    }
    let mut r = dc;
    if r[r.len() - 1] != '/' {
        r.push('/');
        assert(r@ =~= dir@ + "/"@) by {
            reveal_strlit("/");
        }
    }
    append_chars(&mut r, nc.as_slice());
    string_of(r.as_slice())
}

/// The directory that holds `path` (see [`parent_path`]).
pub fn parent_path_exec(path: &str) -> (r: Option<String>)
    ensures
        match r {
            Some(p) => parent_path(path@) == Some(p@),
            None => parent_path(path@) is None,
        },
{
    proof {
        reveal_strlit("/");
    }
    let pc = chars_of(path);
    if pc.len() == 0 || (pc.len() == 1 && pc[0] == '/') {
        assert(pc.len() == 1 ==> pc@ =~= "/"@);
        return None;
    }
    assert(pc@ != "/"@) by {
        if pc@ == "/"@ {
            assert(pc@.len() == 1);
        }
    }
    let slash = chars_of("/");
    match rfind_exec(pc.as_slice(), slash.as_slice()) {
        None => Some(String::new()),
        Some(i) => {
            proof {
                lemma_rfind_some(pc@, slash@);
            }
            if i == 0 {
                Some("/".to_owned())
            } else {
                let p = crate::text::slice_copy(pc.as_slice(), 0, i);
                assert(p@ =~= pc@.take(i as int));
                Some(string_of(p.as_slice()))
            }
        },
    }
}

/// The last component of `path` (see [`file_name_of`]).
pub fn file_name_exec(path: &str) -> (r: Option<String>)
    ensures
        match r {
            Some(n) => file_name_of(path@) == Some(n@),
            None => file_name_of(path@) is None,
        },
{
    proof {
        reveal_strlit("/");
        reveal_strlit("..");
    }
    let pc = chars_of(path);
    let slash = chars_of("/");
    let n: Vec<char> = match rfind_exec(pc.as_slice(), slash.as_slice()) {
        Some(i) => {
            proof {
                lemma_rfind_some(pc@, slash@);
            }
            let len = pc.len();
            assert(i + 1 <= len);
            let v = crate::text::slice_copy(pc.as_slice(), i + 1, len);
            assert(v@ =~= pc@.skip(i + 1));
            v
        },
        None => pc,
    };
    if n.len() == 0 || (n.len() == 2 && n[0] == '.' && n[1] == '.') {
        assert(n.len() == 2 && n[0] == '.' && n[1] == '.' ==> n@ =~= ".."@);
        None
    } else {
        assert(n@ != ".."@) by {
            if n@ == ".."@ {
                assert(n@.len() == 2 && n@[0] == '.' && n@[1] == '.');
            }
        }
        Some(string_of(n.as_slice()))
    }
}

} // verus!
