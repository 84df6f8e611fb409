//! Where the database file is looked for.
use vstd::prelude::*;
use crate::error::Error;
use crate::text::{opt_string_view, strings_view, text_view};

verus! {

/// `name` placed under the directory `dir`: a `/` stands between the two
/// unless `dir` is empty or already ends with one.
pub open spec fn joined(dir: Seq<char>, name: Seq<char>) -> Seq<char> {
    if dir.len() == 0 || dir.last() == '/' {
        dir + name
    } else {
        dir + seq!['/'] + name
    }
}

/// Joins a directory and a relative name into one path.
pub fn join_path(dir: &str, name: &str) -> (r: String)
    ensures
        r@ == joined(dir@, name@),
{
    let n = dir.unicode_len();
    let mut out = String::from_str(dir);
    if n != 0 && dir.get_char(n - 1) != '/' {
        out.append("/");
    }
    out.append(name);
    proof {
        reveal_strlit("/");
    }
    out
}

/// The default places of the database, in the order in which they are
/// tried: `$HOME/unix.toml`, `$HOME/.config/foget/unix.toml`, then the path
/// that `$FOGET_DESCRIPTIONS` holds. An unset variable contributes nothing.
pub open spec fn default_places(home: Option<Seq<char>>, env_path: Option<Seq<char>>) -> Seq<Seq<char>> {
    let from_home = match home {
        Some(h) => seq![joined(h, "unix.toml"@), joined(h, ".config/foget/unix.toml"@)],
        None => Seq::empty(),
    };
    let from_env = match env_path {
        Some(p) => seq![p],
        None => Seq::empty(),
    };
    from_home + from_env
}

/// The default places of the database, from the values of `HOME` and
/// `FOGET_DESCRIPTIONS`.
pub fn default_candidates(home: Option<&str>, env_path: Option<&str>) -> (r: Vec<String>)
    ensures
        strings_view(r@) == default_places(text_view(home), text_view(env_path)),
{
    let mut out: Vec<String> = Vec::new();
    match home {
        Some(h) => {
            out.push(join_path(h, "unix.toml"));
            out.push(join_path(h, ".config/foget/unix.toml"));
        },
        None => {},
    }
    match env_path {
        Some(p) => out.push(String::from_str(p)),
        None => {},
    }
    assert(strings_view(out@) =~= default_places(text_view(home), text_view(env_path)));
    out
}

/// The place at index `i` was found on disk.
pub open spec fn found(present: Seq<bool>, i: int) -> bool {
    0 <= i < present.len() && present[i]
}

/// The path to use: the one given on the command line if any, otherwise the
/// first candidate found on disk.
pub open spec fn resolved(flag: Option<Seq<char>>, candidates: Seq<Seq<char>>, present: Seq<bool>) -> Result<Seq<char>, Error> {
    match flag {
        Some(p) => Ok(p),
        None => if exists|i: int| 0 <= i < candidates.len() && found(present, i) {
            let i = choose|i: int|
                0 <= i < candidates.len() && found(present, i) && forall|j: int| 0 <= j < i ==> !found(present, j);
            Ok(candidates[i])
        } else {
            Err(Error::StoreNotFound)
        },
    }
}

/// Chooses the database path. `present[i]` tells whether `candidates[i]`
/// exists on disk; a candidate without such an entry counts as absent.
pub fn resolve_store(flag: Option<String>, candidates: &Vec<String>, present: &Vec<bool>) -> (r: Result<String, Error>)
    ensures
        match r {
            Ok(p) => resolved(opt_string_view(flag), strings_view(candidates@), present@)
                == Ok::<Seq<char>, Error>(p@),
            Err(e) => resolved(opt_string_view(flag), strings_view(candidates@), present@)
                == Err::<Seq<char>, Error>(e),
        },
{
    let flag_given = match flag {
        Some(f) => f,
        None => {
            return resolve_default(candidates, present);
        },
    };
    Ok(flag_given)
}

/// The first candidate found on disk.
fn resolve_default(candidates: &Vec<String>, present: &Vec<bool>) -> (r: Result<String, Error>)
    ensures
        match r {
            Ok(p) => resolved(None, strings_view(candidates@), present@) == Ok::<Seq<char>, Error>(p@),
            Err(e) => resolved(None, strings_view(candidates@), present@) == Err::<Seq<char>, Error>(e),
        },
{
    let ghost cands = strings_view(candidates@);
    let mut i: usize = 0;
    while i < candidates.len()
        invariant
            i <= candidates.len(),
            cands == strings_view(candidates@),
            forall|j: int| 0 <= j < i ==> !found(present@, j),
        decreases candidates.len() - i,
    {
        if i < present.len() && present[i] {
            proof {
                assert(found(present@, i as int));
                assert(0 <= i < cands.len() && found(present@, i as int) && forall|j: int|
                    0 <= j < i ==> !found(present@, j));
                let k = choose|k: int|
                    0 <= k < cands.len() && found(present@, k) && forall|j: int| 0 <= j < k ==> !found(present@, j);
                if k < i {
                    assert(!found(present@, k));
                }
                if i < k {
                    assert(!found(present@, i as int));
                }
                assert(k == i);
                assert(cands[k] == candidates@[k]@);
            }
            let res = candidates[i].clone();
            assert(resolved(None, cands, present@) == Ok::<Seq<char>, Error>(res@));
            return Ok(res);
        }
        i = i + 1;
    }
    Err(Error::StoreNotFound)
}

} // verus!
