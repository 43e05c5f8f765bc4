//! The package stores: where installed packages are looked up and where new
//! ones are installed.
use vstd::prelude::*;

use crate::path::{join_spec, path_join, push_str};
use crate::text::strs_view;

verus! {

/// The user's package store under a home directory.
pub open spec fn user_store(home: Seq<char>) -> Seq<char> {
    join_spec(
        join_spec(join_spec(join_spec(home, ".local"@), "share"@), "weft"@),
        "apps"@,
    )
}

/// The package store roots in priority order: only `$WEFT_APP_STORE` when it
/// is set; otherwise the user store (when `$HOME` is set), then the system store.
pub open spec fn store_roots_spec(explicit: Option<Seq<char>>, home: Option<Seq<char>>) -> Seq<
    Seq<char>,
> {
    match explicit {
        Some(e) => seq![e],
        None => match home {
            Some(h) => seq![user_store(h), "/usr/share/weft/apps"@],
            None => seq!["/usr/share/weft/apps"@],
        },
    }
}

pub open spec fn opt_view(o: Option<&str>) -> Option<Seq<char>> {
    match o {
        Some(s) => Some(s@),
        None => None,
    }
}

fn user_store_dir(home: &str) -> (r: String)
    ensures
        r@ == user_store(home@),
{
    let a = path_join(home, ".local");
    let b = path_join(a.as_str(), "share");
    let c = path_join(b.as_str(), "weft");
    path_join(c.as_str(), "apps")
}

/// The package store roots, given `$WEFT_APP_STORE` and `$HOME`.
pub fn app_store_roots(explicit: Option<&str>, home: Option<&str>) -> (r: Vec<String>)
    ensures
        strs_view(r@) == store_roots_spec(opt_view(explicit), opt_view(home)),
{
    let mut roots: Vec<String> = Vec::new();
    match explicit {
        Some(e) => {
            roots.push(e.to_owned());
            assert(strs_view(roots@) =~= seq![e@]);
            return roots;
        },
        None => {},
    }
    match home {
        Some(h) => {
            roots.push(user_store_dir(h));
        },
        None => {},
    }
    roots.push("/usr/share/weft/apps".to_owned());
    assert(strs_view(roots@) =~= store_roots_spec(opt_view(explicit), opt_view(home)));
    roots
}

/// The store a package is installed into: `$WEFT_APP_STORE`, else the user
/// store; with neither variable set there is none.
pub fn resolve_install_root(explicit: Option<&str>, home: Option<&str>) -> (r: Result<
    String,
    String,
>)
    ensures
        match (explicit, home) {
            (Some(e), _) => r matches Ok(p) && p@ == e@,
            (None, Some(h)) => r matches Ok(p) && p@ == user_store(h@),
            (None, None) => r matches Err(m) && m@
                == "cannot determine install root: HOME and WEFT_APP_STORE are both unset"@,
        },
{
    match explicit {
        Some(e) => Ok(e.to_owned()),
        None => match home {
            Some(h) => Ok(user_store_dir(h)),
            None => Err(
                "cannot determine install root: HOME and WEFT_APP_STORE are both unset".to_owned(),
            ),
        },
    }
}

/// The manifest path of `app_id` under each root, in root order.
pub open spec fn manifest_paths_spec(roots: Seq<Seq<char>>, app_id: Seq<char>) -> Seq<Seq<char>> {
    roots.map_values(|r: Seq<char>| join_spec(join_spec(r, app_id), "wapp.toml"@))
}

/// Where each root would hold the manifest of `app_id`.
pub fn manifest_candidates(roots: &[String], app_id: &str) -> (r: Vec<String>)
    ensures
        strs_view(r@) == manifest_paths_spec(strs_view(roots@), app_id@),
{
    let mut out: Vec<String> = Vec::new();
    let mut i: usize = 0;
    while i < roots.len()
        invariant
            i <= roots@.len(),
            strs_view(out@) == manifest_paths_spec(strs_view(roots@).take(i as int), app_id@),
        decreases roots@.len() - i,
    {
        let ghost before = strs_view(out@);
        let dir = path_join(roots[i].as_str(), app_id);
        let m = path_join(dir.as_str(), "wapp.toml");
        assert(m@ == join_spec(join_spec(roots@[i as int]@, app_id@), "wapp.toml"@));
        out.push(m);
        assert(strs_view(out@) =~= before.push(m@));
        assert(strs_view(roots@).take(i + 1) =~= strs_view(roots@).take(i as int).push(
            roots@[i as int]@,
        ));
        assert(strs_view(out@) =~= manifest_paths_spec(strs_view(roots@).take(i + 1), app_id@));
        i = i + 1;
    }
    assert(strs_view(roots@).take(roots@.len() as int) =~= strs_view(roots@));
    out
}

/// The error text when no store holds the package.
pub open spec fn not_installed_text(app_id: Seq<char>) -> Seq<char> {
    "package '"@ + app_id + "' not found in any package store"@
}

/// The package directory of `app_id`: the first root, in priority order,
/// whose manifest exists; an error when none does.
pub fn resolve_package(app_id: &str, roots: &[String], manifest_exists: &[bool]) -> (r: Result<
    String,
    String,
>)
    requires
        roots@.len() == manifest_exists@.len(),
    ensures
        match r {
            Ok(dir) => exists|i: int|
                0 <= i < roots@.len() && manifest_exists@[i] && (forall|j: int|
                    0 <= j < i ==> !manifest_exists@[j]) && dir@ == join_spec(
                    #[trigger] roots@[i]@,
                    app_id@,
                ),
            Err(m) => (forall|j: int| 0 <= j < roots@.len() ==> !manifest_exists@[j]) && m@
                == not_installed_text(app_id@),
        },
{
    let mut i: usize = 0;
    while i < roots.len()
        invariant
            i <= roots@.len(),
            roots@.len() == manifest_exists@.len(),
            forall|j: int| 0 <= j < i ==> !manifest_exists@[j],
        decreases roots@.len() - i,
    {
        if manifest_exists[i] {
            let dir = path_join(roots[i].as_str(), app_id);
            assert(dir@ == join_spec(roots@[i as int]@, app_id@));
            return Ok(dir);
        }
        i = i + 1;
    }
    let mut m = "package '".to_owned();
    push_str(&mut m, app_id);
    push_str(&mut m, "' not found in any package store");
    Err(m)
}

} // verus!
