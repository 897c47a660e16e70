use vstd::prelude::*;
use vstd::string::StringExecFns;
use crate::errors::SupervisorError;
use crate::text::{ends_with_spec, str_ends_with};

verus! {

/// A path whose final component carries the application-bundle extension:
/// it ends in ".app" with a non-empty stem before it.
pub open spec fn has_app_extension_spec(p: Seq<char>) -> bool {
    ends_with_spec(p, ".app"@) && p.len() > 4 && p[p.len() - 5] != '/'
}

/// A path naming a backup bundle: the previous application bundle, renamed
/// aside during an update and removed once the relaunch succeeds.
pub open spec fn is_backup_bundle_spec(p: Seq<char>) -> bool {
    ends_with_spec(p, ".app.old"@)
}

/// Either a live bundle or a backup bundle.
pub open spec fn is_bundle_path(p: Seq<char>) -> bool {
    has_app_extension_spec(p) || is_backup_bundle_spec(p)
}

/// Length of the ancestor of `p`: everything up to (and excluding) the last
/// '/', or 0 if `p` holds no '/'.
pub open spec fn parent_len(p: Seq<char>) -> int
    decreases p.len(),
{
    if p.len() == 0 {
        0
    } else if p[p.len() - 1] == '/' {
        p.len() - 1
    } else {
        parent_len(p.drop_last())
    }
}

pub proof fn lemma_parent_len_bounds(p: Seq<char>)
    ensures
        0 <= parent_len(p),
        p.len() == 0 ==> parent_len(p) == 0,
        p.len() > 0 ==> parent_len(p) <= p.len() - 1,
    decreases p.len(),
{
    if p.len() > 0 && p[p.len() - 1] != '/' {
        lemma_parent_len_bounds(p.drop_last());
    }
}

/// The first of `p` and its successive ancestors that is a bundle path,
/// or `None` when the walk reaches the empty prefix without a match.
pub open spec fn find_bundle_spec(p: Seq<char>) -> Option<Seq<char>>
    decreases p.len(), 1int,
    via find_bundle_decreases
{
    if is_bundle_path(p) {
        Some(p)
    } else if p.len() == 0 {
        None
    } else {
        find_bundle_spec(p.take(parent_len(p)))
    }
}

#[via_fn]
proof fn find_bundle_decreases(p: Seq<char>) {
    lemma_parent_len_bounds(p);
}

pub proof fn lemma_parent_len_index(s: Seq<char>, j: int)
    requires
        0 <= j <= s.len(),
        forall|k: int| j <= k < s.len() ==> s[k] != '/',
        j > 0 ==> s[j - 1] == '/',
    ensures
        parent_len(s) == if j == 0 {
            0int
        } else {
            j - 1
        },
    decreases s.len(),
{
    if s.len() == 0 {
    } else if s[s.len() - 1] == '/' {
        assert(j == s.len());
    } else {
        assert(j < s.len());
        assert forall|k: int| j <= k < s.drop_last().len() implies s.drop_last()[k] != '/' by {
            assert(s.drop_last()[k] == s[k]);
        }
        if j > 0 {
            assert(s.drop_last()[j - 1] == s[j - 1]);
        }
        lemma_parent_len_index(s.drop_last(), j);
    }
}

/// Whether the path's final component carries the application-bundle
/// extension.
pub fn has_app_extension(path: &str) -> (r: bool)
    ensures
        r == has_app_extension_spec(path@),
{
    proof {
        reveal_strlit(".app");
    }
    if !str_ends_with(path, ".app") {
        return false;
    }
    let n: usize = path.unicode_len();
    if n <= 4 {
        return false;
    }
    path.get_char(n - 5) != '/'
}

/// Whether the path names a backup bundle (an already-renamed previous
/// bundle, recognised so that a partial previous update can be resumed).
pub fn is_backup_bundle(path: &str) -> (r: bool)
    ensures
        r == is_backup_bundle_spec(path@),
{
    str_ends_with(path, ".app.old")
}

/// Normalises a possibly backup-suffixed bundle path back to its primary
/// form: a backup bundle loses its ".old" suffix, any other path is
/// returned unchanged.
pub fn resolve_primary_app_bundle_path(running_bundle: &str) -> (r: String)
    ensures
        is_backup_bundle_spec(running_bundle@) ==> r@ == running_bundle@.take(
            running_bundle@.len() - 4,
        ),
        !is_backup_bundle_spec(running_bundle@) ==> r@ == running_bundle@,
{
    if is_backup_bundle(running_bundle) {
        proof {
            reveal_strlit(".app.old");
            reveal_strlit(".old");
        }
        let n: usize = running_bundle.unicode_len();
        let stem = running_bundle.substring_char(0, n - 4);
        stem.to_owned()
    } else {
        running_bundle.to_owned()
    }
}

/// The backup name a live bundle is renamed to while the new bundle is
/// copied into its place: the same path with ".old" appended.
pub fn backup_bundle_path(primary_bundle: &str) -> (r: String)
    ensures
        r@ == primary_bundle@ + ".old"@,
{
    let mut s: String = primary_bundle.to_owned();
    s.append(".old");
    s
}

/// Walks from the running executable's path up through its ancestors and
/// returns the first that is an application bundle (live or backup), or
/// `BundleNotFound` when no ancestor is one.
pub fn find_app_bundle_path(exe_path: &str) -> (r: Result<String, SupervisorError>)
    ensures
        (r matches Ok(b) ==> find_bundle_spec(exe_path@) == Some(b@)),
        (r matches Err(e) ==> e == SupervisorError::BundleNotFound && find_bundle_spec(exe_path@)
            is None),
{
    let mut end: usize = exe_path.unicode_len();
    proof {
        assert(exe_path@.take(end as int) =~= exe_path@);
    }
    loop
        invariant
            end <= exe_path@.len(),
            find_bundle_spec(exe_path@) == find_bundle_spec(exe_path@.take(end as int)),
        decreases end,
    {
        let cand = exe_path.substring_char(0, end);
        if has_app_extension(cand) || is_backup_bundle(cand) {
            proof {
                assert(find_bundle_spec(exe_path@.take(end as int)) == Some(cand@));
            }
            return Ok(cand.to_owned());
        }
        if end == 0 {
            proof {
                assert(exe_path@.take(0) =~= Seq::<char>::empty());
                assert(find_bundle_spec(exe_path@.take(0)) is None);
            }
            return Err(SupervisorError::BundleNotFound);
        }
        let mut j: usize = end;
        while j > 0 && exe_path.get_char(j - 1) != '/'
            invariant
                0 <= j <= end,
                end <= exe_path@.len(),
                forall|k: int| j <= k < end ==> exe_path@[k] != '/',
            decreases j,
        {
            j = j - 1;
        }
        proof {
            let c = exe_path@.take(end as int);
            assert forall|k: int| j <= k < c.len() implies c[k] != '/' by {
                assert(c[k] == exe_path@[k]);
            }
            if j > 0 {
                assert(c[j - 1] == exe_path@[j - 1]);
            }
            lemma_parent_len_index(c, j as int);
            assert(c.take(parent_len(c)) =~= exe_path@.take(
                if j == 0 {
                    0int
                } else {
                    j - 1
                },
            ));
        }
        end = if j == 0 {
            0
        } else {
            j - 1
        };
    }
}

} // verus!
