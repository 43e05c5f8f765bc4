//! How `weft-appd` starts a session's processes: the directories a package's
//! capabilities open to it, and the command lines of the runtime and the
//! file portal.
use vstd::prelude::*;

use crate::path::{join_spec, path_join, push_str};
use crate::portal::{portal_args, portal_args_spec};
use crate::text::{decimal, str_eq, strs_view, u64_to_decimal};

verus! {

/// The views of host/guest directory pairs.
pub open spec fn pairs_view(v: Seq<(String, String)>) -> Seq<(Seq<char>, Seq<char>)> {
    v.map_values(|p: (String, String)| (p.0@, p.1@))
}

/// A directory the runtime opens for the application: the host path, the
/// path the application sees, and whether the grant is read-only.
#[derive(Debug, Clone, PartialEq, Eq)]
pub struct Preopen {
    pub host: String,
    pub guest: String,
    pub read_only: bool,
}

/// The value of a preopened directory.
pub open spec fn preopen_view(p: Preopen) -> (Seq<char>, Seq<char>, bool) {
    (p.host@, p.guest@, p.read_only)
}

/// The values of preopened directories.
pub open spec fn preopens_view(v: Seq<Preopen>) -> Seq<(Seq<char>, Seq<char>, bool)> {
    v.map_values(|p: Preopen| preopen_view(p))
}

/// The application's private data directory under the home directory.
pub open spec fn app_data_dir(home: Seq<char>, app_id: Seq<char>) -> Seq<char> {
    join_spec(join_spec(join_spec(home, ".local/share/weft/apps"@), app_id), "data"@)
}

/// The directories one capability opens: app data maps the application's
/// data directory to `/data`, read-write for `fs:rw:app-data` and read-only
/// for `fs:read:app-data`; XDG documents map `~/Documents` to
/// `/xdg/documents` when that directory exists, read-write for
/// `fs:rw:xdg-documents` and read-only for `fs:read:xdg-documents`; any other
/// capability opens nothing.
pub open spec fn capability_preopens(
    cap: Seq<char>,
    home: Seq<char>,
    app_id: Seq<char>,
    documents_exist: bool,
) -> Seq<(Seq<char>, Seq<char>, bool)> {
    if cap =~= "fs:rw:app-data"@ || cap =~= "fs:read:app-data"@ {
        seq![(app_data_dir(home, app_id), "/data"@, cap =~= "fs:read:app-data"@)]
    } else if (cap =~= "fs:rw:xdg-documents"@ || cap =~= "fs:read:xdg-documents"@)
        && documents_exist {
        seq![(join_spec(home, "Documents"@), "/xdg/documents"@, cap =~= "fs:read:xdg-documents"@)]
    } else {
        seq![]
    }
}

/// The directories all capabilities open, in capability order.
pub open spec fn preopens_spec(
    caps: Seq<Seq<char>>,
    home: Seq<char>,
    app_id: Seq<char>,
    documents_exist: bool,
) -> Seq<(Seq<char>, Seq<char>, bool)>
    decreases caps.len(),
{
    if caps.len() == 0 {
        seq![]
    } else {
        preopens_spec(caps.drop_last(), home, app_id, documents_exist) + capability_preopens(
            caps.last(),
            home,
            app_id,
            documents_exist,
        )
    }
}

/// Whether a capability opens a directory: the app-data capabilities
/// always, the XDG documents ones only when `~/Documents` exists.
pub open spec fn opens_directory(cap: Seq<char>, documents_exist: bool) -> bool {
    ||| cap == "fs:rw:app-data"@
    ||| cap == "fs:read:app-data"@
    ||| documents_exist && (cap == "fs:rw:xdg-documents"@ || cap == "fs:read:xdg-documents"@)
}

/// `opens_directory` as a predicate on capabilities.
pub open spec fn opens_directory_pred(documents_exist: bool) -> spec_fn(Seq<char>) -> bool {
    |cap: Seq<char>| opens_directory(cap, documents_exist)
}

/// The documented grant of a capability: `fs:rw:app-data` gives the
/// application's data directory as `/data` read-write, `fs:read:app-data`
/// the same read-only; `fs:rw:xdg-documents` gives `~/Documents` as
/// `/xdg/documents` read-write, `fs:read:xdg-documents` the same read-only.
pub open spec fn documented_grant(
    cap: Seq<char>,
    home: Seq<char>,
    app_id: Seq<char>,
    entry: (Seq<char>, Seq<char>, bool),
) -> bool {
    ||| cap == "fs:rw:app-data"@ && entry == (app_data_dir(home, app_id), "/data"@, false)
    ||| cap == "fs:read:app-data"@ && entry == (app_data_dir(home, app_id), "/data"@, true)
    ||| cap == "fs:rw:xdg-documents"@ && entry == (join_spec(home, "Documents"@), "/xdg/documents"@, false)
    ||| cap == "fs:read:xdg-documents"@ && entry == (join_spec(home, "Documents"@), "/xdg/documents"@, true)
}

/// The directories a package gets follow the documented table, one per
/// capability that opens one, in the order the capabilities are declared:
/// the `k`-th preopen is the documented grant of the `k`-th capability that
/// opens a directory, and nothing else is opened. So an unknown capability
/// opens nothing, and when `~/Documents` does not exist no capability
/// opens `/xdg/documents`.
pub proof fn lemma_preopens_follow_table(
    caps: Seq<Seq<char>>,
    home: Seq<char>,
    app_id: Seq<char>,
    documents_exist: bool,
)
    ensures
        ({
            let r = preopens_spec(caps, home, app_id, documents_exist);
            let g = caps.filter(opens_directory_pred(documents_exist));
            &&& r.len() == g.len()
            &&& forall|k: int|
                0 <= k < r.len() ==> documented_grant(g[k], home, app_id, #[trigger] r[k])
            &&& !documents_exist ==> forall|k: int|
                0 <= k < r.len() ==> (#[trigger] r[k]).1 != "/xdg/documents"@
        }),
    decreases caps.len(),
{
    reveal(Seq::filter);
    let pred = opens_directory_pred(documents_exist);
    let r = preopens_spec(caps, home, app_id, documents_exist);
    let g = caps.filter(pred);
    if caps.len() > 0 {
        let p = caps.drop_last();
        let c = caps.last();
        lemma_preopens_follow_table(p, home, app_id, documents_exist);
        let rp = preopens_spec(p, home, app_id, documents_exist);
        let gp = p.filter(pred);
        let cp = capability_preopens(c, home, app_id, documents_exist);
        assert(r == rp + cp);
        assert(g == if pred(c) { gp.push(c) } else { gp });
        if pred(c) {
            assert(cp.len() == 1);
            assert(documented_grant(c, home, app_id, cp[0]));
        } else {
            assert(cp.len() == 0);
        }
        assert forall|k: int| 0 <= k < r.len() implies documented_grant(g[k], home, app_id, #[trigger] r[k]) by {
            if k < rp.len() {
                assert(r[k] == rp[k]);
                assert(g[k] == gp[k]);
            } else {
                assert(r[k] == cp[0]);
                assert(g[k] == c);
            }
        }
        if !documents_exist {
            assert forall|k: int| 0 <= k < r.len() implies (#[trigger] r[k]).1 != "/xdg/documents"@ by {
                assert(documented_grant(g[k], home, app_id, r[k]));
                lemma_filter_holds(caps, pred, k);
                assert(opens_directory(g[k], documents_exist));
                reveal_strlit("/data");
                reveal_strlit("/xdg/documents");
                reveal_strlit("fs:rw:app-data");
                reveal_strlit("fs:read:app-data");
                reveal_strlit("fs:rw:xdg-documents");
                reveal_strlit("fs:read:xdg-documents");
                assert(r[k].1 == "/data"@);
                assert("/data"@.len() != "/xdg/documents"@.len());
            }
        }
    }
}

proof fn lemma_filter_holds(s: Seq<Seq<char>>, pred: spec_fn(Seq<char>) -> bool, k: int)
    requires
        0 <= k < s.filter(pred).len(),
    ensures
        pred(s.filter(pred)[k]),
{
    s.filter_lemma(pred);
}

/// Maps a package's declared capabilities to the directories the runtime
/// preopens, each with its permission. Whether `~/Documents` exists is an input.
pub fn resolve_preopens(
    caps: &[String],
    home: &str,
    app_id: &str,
    documents_exist: bool,
) -> (r: Vec<Preopen>)
    ensures
        preopens_view(r@) == preopens_spec(strs_view(caps@), home@, app_id@, documents_exist),
{
    let ghost cv = strs_view(caps@);
    let mut out: Vec<Preopen> = Vec::new();
    let mut i: usize = 0;
    assert(cv.take(0) =~= Seq::<Seq<char>>::empty());
    while i < caps.len()
        invariant
            i <= caps@.len(),
            cv == strs_view(caps@),
            preopens_view(out@) == preopens_spec(cv.take(i as int), home@, app_id@, documents_exist),
        decreases caps@.len() - i,
    {
        let ghost before = preopens_view(out@);
        assert(cv.take(i + 1).drop_last() =~= cv.take(i as int));
        assert(cv.take(i + 1).last() == caps@[i as int]@);
        let cap = caps[i].as_str();
        if str_eq(cap, "fs:rw:app-data") || str_eq(cap, "fs:read:app-data") {
            let a = path_join(home, ".local/share/weft/apps");
            let b = path_join(a.as_str(), app_id);
            let data_dir = path_join(b.as_str(), "data");
            let read_only = str_eq(cap, "fs:read:app-data");
            out.push(Preopen { host: data_dir, guest: "/data".to_owned(), read_only });
        } else if (str_eq(cap, "fs:rw:xdg-documents") || str_eq(cap, "fs:read:xdg-documents"))
            && documents_exist {
            let read_only = str_eq(cap, "fs:read:xdg-documents");
            out.push(
                Preopen {
                    host: path_join(home, "Documents"),
                    guest: "/xdg/documents".to_owned(),
                    read_only,
                },
            );
        }
        assert(preopens_view(out@) =~= before + capability_preopens(
            caps@[i as int]@,
            home@,
            app_id@,
            documents_exist,
        ));
        i = i + 1;
    }
    assert(cv.take(caps@.len() as int) =~= cv);
    out
}

/// The flag that preopens a directory: `--preopen-ro` for a read-only
/// grant, `--preopen` otherwise.
pub open spec fn preopen_flag(read_only: bool) -> Seq<char> {
    if read_only {
        "--preopen-ro"@
    } else {
        "--preopen"@
    }
}

/// `--preopen HOST::GUEST` (or `--preopen-ro HOST::GUEST`) for each
/// directory, in order.
pub open spec fn preopen_flags(p: Seq<(Seq<char>, Seq<char>, bool)>) -> Seq<Seq<char>>
    decreases p.len(),
{
    if p.len() == 0 {
        seq![]
    } else {
        seq![preopen_flag(p[0].2), p[0].0 + "::"@ + p[0].1] + preopen_flags(p.drop_first())
    }
}

/// The runtime's own arguments: application id, session id, the IPC socket
/// if there is one, then the preopened directories.
pub open spec fn runtime_args_spec(
    app_id: Seq<char>,
    session_id: u64,
    ipc_socket: Option<Seq<char>>,
    preopens: Seq<(Seq<char>, Seq<char>, bool)>,
) -> Seq<Seq<char>> {
    seq![app_id, decimal(session_id as nat)] + match ipc_socket {
        Some(s) => seq!["--ipc-socket"@, s],
        None => seq![],
    } + preopen_flags(preopens)
}

/// The `systemd-run` arguments that put the runtime in its own scope with
/// CPU and memory limits, ending with the runtime binary.
pub open spec fn scope_prefix(bin: Seq<char>) -> Seq<Seq<char>> {
    seq![
        "--user"@,
        "--scope"@,
        "--wait"@,
        "--collect"@,
        "--slice=weft-apps.slice"@,
        "-p"@,
        "CPUQuota=200%"@,
        "-p"@,
        "MemoryMax=512M"@,
        "--"@,
        bin,
    ]
}

/// The runtime's command line, as `runtime_command` builds it, under
/// `systemd-run`: it starts with exactly `--user --scope --wait --collect
/// --slice=weft-apps.slice -p CPUQuota=200% -p MemoryMax=512M --` and the
/// runtime binary (a transient scope of the user's manager in the
/// weft-apps slice, with two CPUs and 512 MiB at most), followed by the
/// application id and the session id in decimal; without `systemd-run` it
/// starts with the application id and the session id. IPC socket flags come
/// next when there is a socket, and the preopened directories last.
pub proof fn lemma_runtime_command_line(
    bin: Seq<char>,
    app_id: Seq<char>,
    session_id: u64,
    ipc_socket: Option<Seq<char>>,
    preopens: Seq<(Seq<char>, Seq<char>, bool)>,
)
    ensures
        ({
            let scoped = scope_prefix(bin) + runtime_args_spec(app_id, session_id, ipc_socket, preopens);
            let plain = runtime_args_spec(app_id, session_id, ipc_socket, preopens);
            &&& scoped.take(11) =~= seq![
                "--user"@,
                "--scope"@,
                "--wait"@,
                "--collect"@,
                "--slice=weft-apps.slice"@,
                "-p"@,
                "CPUQuota=200%"@,
                "-p"@,
                "MemoryMax=512M"@,
                "--"@,
                bin,
            ]
            &&& scoped.skip(11) =~= plain
            &&& plain[0] == app_id
            &&& plain[1] == decimal(session_id as nat)
            &&& match ipc_socket {
                Some(s) => plain[2] == "--ipc-socket"@ && plain[3] == s && plain.skip(4)
                    =~= preopen_flags(preopens),
                None => plain.skip(2) =~= preopen_flags(preopens),
            }
        }),
{
}

/// A process to start: program, arguments and extra environment.
pub struct Command {
    pub program: String,
    pub args: Vec<String>,
    pub envs: Vec<(String, String)>,
}

/// The command that starts a session's runtime: under `systemd-run` when
/// cgroup scopes are available, otherwise the runtime binary directly; the
/// package store override and the file portal's socket travel in the environment.
pub fn runtime_command(
    bin: &str,
    app_id: &str,
    session_id: u64,
    use_scope: bool,
    ipc_socket: Option<&str>,
    store_override: Option<&str>,
    portal_socket: Option<&str>,
    preopens: &[Preopen],
) -> (r: Command)
    ensures
        use_scope ==> strs_view(r.args@).take(11) == seq![
            "--user"@,
            "--scope"@,
            "--wait"@,
            "--collect"@,
            "--slice=weft-apps.slice"@,
            "-p"@,
            "CPUQuota=200%"@,
            "-p"@,
            "MemoryMax=512M"@,
            "--"@,
            bin@,
        ],
        use_scope ==> r.program@ == "systemd-run"@ && strs_view(r.args@) == scope_prefix(bin@)
            + runtime_args_spec(
            app_id@,
            session_id,
            match ipc_socket {
                Some(s) => Some(s@),
                None => None,
            },
            preopens_view(preopens@),
        ),
        !use_scope ==> r.program@ == bin@ && strs_view(r.args@) == runtime_args_spec(
            app_id@,
            session_id,
            match ipc_socket {
                Some(s) => Some(s@),
                None => None,
            },
            preopens_view(preopens@),
        ),
        pairs_view(r.envs@) == match store_override {
            Some(s) => seq![("WEFT_APP_STORE"@, s@)],
            None => seq![],
        } + match portal_socket {
            Some(s) => seq![("WEFT_FILE_PORTAL_SOCKET"@, s@)],
            None => seq![],
        },
{
    let mut args: Vec<String> = Vec::new();
    let program;
    if use_scope {
        program = "systemd-run".to_owned();
        args.push("--user".to_owned());
        args.push("--scope".to_owned());
        args.push("--wait".to_owned());
        args.push("--collect".to_owned());
        args.push("--slice=weft-apps.slice".to_owned());
        args.push("-p".to_owned());
        args.push("CPUQuota=200%".to_owned());
        args.push("-p".to_owned());
        args.push("MemoryMax=512M".to_owned());
        args.push("--".to_owned());
        args.push(bin.to_owned());
    } else {
        program = bin.to_owned();
    }
    let ghost prefix = strs_view(args@);
    args.push(app_id.to_owned());
    args.push(u64_to_decimal(session_id));
    match ipc_socket {
        Some(s) => {
            args.push("--ipc-socket".to_owned());
            args.push(s.to_owned());
        },
        None => {},
    }
    let ghost mid = strs_view(args@);
    let ghost pv = preopens_view(preopens@);
    let mut i: usize = 0;
    assert(pv.skip(0) =~= pv);
    while i < preopens.len()
        invariant
            i <= preopens@.len(),
            pv == preopens_view(preopens@),
            strs_view(args@) + preopen_flags(pv.skip(i as int)) == mid + preopen_flags(pv),
        decreases preopens@.len() - i,
    {
        let ghost before = strs_view(args@);
        let ghost rest = pv.skip(i as int);
        assert(rest.drop_first() =~= pv.skip(i + 1));
        assert(rest[0] == preopen_view(preopens@[i as int]));
        if preopens[i].read_only {
            args.push("--preopen-ro".to_owned());
        } else {
            args.push("--preopen".to_owned());
        }
        let mut spec = preopens[i].host.clone();
        push_str(&mut spec, "::");
        push_str(&mut spec, preopens[i].guest.as_str());
        args.push(spec);
        assert(strs_view(args@) =~= before + seq![
            preopen_flag(rest[0].2),
            rest[0].0 + "::"@ + rest[0].1,
        ]);
        assert(strs_view(args@) + preopen_flags(pv.skip(i + 1)) =~= before + preopen_flags(rest));
        i = i + 1;
    }
    assert(pv.skip(preopens@.len() as int) =~= Seq::<(Seq<char>, Seq<char>, bool)>::empty());
    let ghost ipcv = match ipc_socket {
        Some(s) => Some(s@),
        None => None,
    };
    assert(strs_view(args@) =~= prefix + runtime_args_spec(app_id@, session_id, ipcv, pv));
    assert(use_scope ==> prefix =~= scope_prefix(bin@));
    assert(!use_scope ==> prefix =~= Seq::<Seq<char>>::empty());
    proof {
        lemma_runtime_command_line(bin@, app_id@, session_id, ipcv, pv);
    }
    let mut envs: Vec<(String, String)> = Vec::new();
    match store_override {
        Some(s) => envs.push(("WEFT_APP_STORE".to_owned(), s.to_owned())),
        None => {},
    }
    match portal_socket {
        Some(s) => envs.push(("WEFT_FILE_PORTAL_SOCKET".to_owned(), s.to_owned())),
        None => {},
    }
    assert(pairs_view(envs@) =~= match store_override {
        Some(s) => seq![("WEFT_APP_STORE"@, s@)],
        None => seq![],
    } + match portal_socket {
        Some(s) => seq![("WEFT_FILE_PORTAL_SOCKET"@, s@)],
        None => seq![],
    });
    Command { program, args, envs }
}

/// The command that starts a session's file portal on `socket`, allowing the
/// host side of each preopened directory.
pub fn portal_command(bin: &str, socket: &str, preopens: &[Preopen]) -> (r: Command)
    ensures
        r.program@ == bin@,
        strs_view(r.args@) == portal_args_spec(
            socket@,
            preopens_view(preopens@).map_values(|p: (Seq<char>, Seq<char>, bool)| p.0),
        ),
        r.envs@.len() == 0,
{
    let ghost pv = preopens_view(preopens@);
    let mut hosts: Vec<String> = Vec::new();
    let mut i: usize = 0;
    while i < preopens.len()
        invariant
            i <= preopens@.len(),
            pv == preopens_view(preopens@),
            strs_view(hosts@) == pv.take(i as int).map_values(
                |p: (Seq<char>, Seq<char>, bool)| p.0,
            ),
        decreases preopens@.len() - i,
    {
        hosts.push(preopens[i].host.clone());
        assert(pv.take(i + 1).map_values(|p: (Seq<char>, Seq<char>, bool)| p.0) =~= pv.take(
            i as int,
        ).map_values(|p: (Seq<char>, Seq<char>, bool)| p.0).push(preopens@[i as int].host@));
        i = i + 1;
    }
    assert(pv.take(preopens@.len() as int) =~= pv);
    let args = portal_args(socket, hosts.as_slice());
    Command { program: bin.to_owned(), args, envs: Vec::new() }
}

} // verus!
