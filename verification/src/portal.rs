//! The per-session file portal: the `--allow` command line, the path
//! allowlist with `..` traversal blocked, and the request/response protocol.
use vstd::prelude::*;

use crate::path::{
    comps_view, components_of, is_component_prefix, normalize_components, normalize_path,
    path_components, push_str, starts_with_components, ComponentView,
};
use crate::sort::{sort_strings, sorted_lex};
use crate::text::{str_eq, strs_view};

verus! {

/// The paths that follow each `--allow` flag; a flag with nothing after it
/// and any other argument are skipped.
pub open spec fn allowed_of(args: Seq<Seq<char>>) -> Seq<Seq<char>>
    decreases args.len(),
{
    if args.len() == 0 {
        seq![]
    } else if args.len() >= 2 && args[0] =~= "--allow"@ {
        seq![args[1]] + allowed_of(args.skip(2))
    } else {
        allowed_of(args.skip(1))
    }
}

/// Collects the allowlist from the portal's arguments after the socket path.
pub fn parse_allowed(args: &[String]) -> (r: Vec<String>)
    ensures
        strs_view(r@) == allowed_of(strs_view(args@)),
{
    let ghost av = strs_view(args@);
    let mut out: Vec<String> = Vec::new();
    let mut i: usize = 0;
    assert(av.skip(0) =~= av);
    while i < args.len()
        invariant
            i <= args.len(),
            av == strs_view(args@),
            strs_view(out@) + allowed_of(av.skip(i as int)) == allowed_of(av),
        decreases args.len() - i,
    {
        let ghost rest = av.skip(i as int);
        assert(rest[0] == args@[i as int]@);
        if str_eq(args[i].as_str(), "--allow") && i + 1 < args.len() {
            assert(rest[1] == args@[i + 1]@);
            assert(rest.skip(2) =~= av.skip(i + 2));
            let ghost before = strs_view(out@);
            out.push(args[i + 1].clone());
            assert(strs_view(out@) =~= before.push(args@[i + 1]@));
            assert(strs_view(out@) + allowed_of(av.skip(i + 2)) =~= before + allowed_of(rest));
            i = i + 2;
        } else {
            assert(rest.skip(1) =~= av.skip(i + 1));
            i = i + 1;
        }
    }
    out
}

/// The arguments that start a portal on `socket` allowing `hosts`: the socket
/// path, then `--allow <host>` for each host in order.
pub open spec fn portal_args_spec(socket: Seq<char>, hosts: Seq<Seq<char>>) -> Seq<Seq<char>> {
    seq![socket] + allow_flags(hosts)
}

pub open spec fn allow_flags(hosts: Seq<Seq<char>>) -> Seq<Seq<char>>
    decreases hosts.len(),
{
    if hosts.len() == 0 {
        seq![]
    } else {
        seq!["--allow"@, hosts[0]] + allow_flags(hosts.drop_first())
    }
}

/// Builds the portal's arguments for `socket` and the allowed host paths.
pub fn portal_args(socket: &str, hosts: &[String]) -> (r: Vec<String>)
    ensures
        strs_view(r@) == portal_args_spec(socket@, strs_view(hosts@)),
{
    let ghost hv = strs_view(hosts@);
    let mut out: Vec<String> = Vec::new();
    out.push(socket.to_owned());
    let mut i: usize = 0;
    assert(hv.skip(0) =~= hv);
    while i < hosts.len()
        invariant
            i <= hosts.len(),
            hv == strs_view(hosts@),
            strs_view(out@) + allow_flags(hv.skip(i as int)) == portal_args_spec(socket@, hv),
        decreases hosts.len() - i,
    {
        let ghost before = strs_view(out@);
        let ghost rest = hv.skip(i as int);
        assert(rest.drop_first() =~= hv.skip(i + 1));
        assert(rest[0] == hosts@[i as int]@);
        out.push("--allow".to_owned());
        out.push(hosts[i].clone());
        assert(strs_view(out@) =~= before + seq!["--allow"@, hosts@[i as int]@]);
        assert(strs_view(out@) + allow_flags(hv.skip(i + 1)) =~= before + allow_flags(rest));
        i = i + 1;
    }
    assert(hv.skip(hosts.len() as int) =~= Seq::<Seq<char>>::empty());
    out
}

proof fn lemma_allowed_of_flags(hosts: Seq<Seq<char>>)
    ensures
        allowed_of(allow_flags(hosts)) == hosts,
    decreases hosts.len(),
{
    if hosts.len() > 0 {
        let f = allow_flags(hosts);
        lemma_allowed_of_flags(hosts.drop_first());
        assert(f[0] =~= "--allow"@);
        assert(f.skip(2) =~= allow_flags(hosts.drop_first()));
        assert(seq![hosts[0]] + hosts.drop_first() =~= hosts);
    } else {
        assert(allow_flags(hosts) =~= Seq::<Seq<char>>::empty());
        assert(hosts =~= Seq::<Seq<char>>::empty());
    }
}

/// The portal reads back exactly the host paths the supervisor hands it:
/// parsing the arguments after the socket path of `portal_args(socket, hosts)`
/// yields `hosts`, whatever the host paths are.
pub proof fn lemma_portal_args_roundtrip(socket: Seq<char>, hosts: Seq<Seq<char>>)
    ensures
        allowed_of(portal_args_spec(socket, hosts).skip(1)) == hosts,
{
    assert(portal_args_spec(socket, hosts).skip(1) =~= allow_flags(hosts));
    lemma_allowed_of_flags(hosts);
}

/// `path` is inside the allowlist: the list is not empty and, after lexical
/// normalisation, the path's components begin with those of an allowed path.
pub open spec fn path_allowed(path: Seq<char>, allowed: Seq<Seq<char>>) -> bool {
    allowed.len() > 0 && exists|i: int|
        0 <= i < allowed.len() && is_component_prefix(
            components_of(#[trigger] allowed[i]),
            normalize_components(components_of(path)),
        )
}

/// Whether the portal lets a request touch `path`.
pub fn is_allowed(path: &str, allowed: &[String]) -> (r: bool)
    ensures
        r == path_allowed(path@, strs_view(allowed@)),
{
    if allowed.len() == 0 {
        return false;
    }
    let norm = normalize_path(path);
    let ghost av = strs_view(allowed@);
    let mut i: usize = 0;
    while i < allowed.len()
        invariant
            i <= allowed.len(),
            av == strs_view(allowed@),
            comps_view(norm@) == normalize_components(components_of(path@)),
            forall|j: int|
                0 <= j < i ==> !is_component_prefix(
                    components_of(#[trigger] av[j]),
                    normalize_components(components_of(path@)),
                ),
        decreases allowed.len() - i,
    {
        let a = path_components(allowed[i].as_str());
        if starts_with_components(&norm, &a) {
            assert(av[i as int] == allowed@[i as int]@);
            return true;
        }
        i = i + 1;
    }
    false
}

/// After normalisation no component is `..` or `.`.
pub open spec fn free_of_dot_components(cs: Seq<ComponentView>) -> bool {
    forall|k: int|
        0 <= k < cs.len() ==> #[trigger] cs[k] != ComponentView::ParentDir && cs[k]
            != ComponentView::CurDir
}

/// Normalisation leaves no `..` or `.` component behind, whatever the input.
pub proof fn lemma_normalized_free_of_dots(cs: Seq<ComponentView>)
    ensures
        free_of_dot_components(normalize_components(cs)),
    decreases cs.len(),
{
    if cs.len() > 0 {
        lemma_normalized_free_of_dots(cs.drop_last());
        let prev = normalize_components(cs.drop_last());
        let next = normalize_components(cs);
        match cs.last() {
            ComponentView::ParentDir => {
                assert forall|k: int| 0 <= k < next.len() implies #[trigger] next[k]
                    != ComponentView::ParentDir && next[k] != ComponentView::CurDir by {
                    assert(next[k] == prev[k]);
                }
            },
            ComponentView::Normal(_) => {
                assert forall|k: int| 0 <= k < next.len() implies #[trigger] next[k]
                    != ComponentView::ParentDir && next[k] != ComponentView::CurDir by {
                    if k < prev.len() {
                        assert(next[k] == prev[k]);
                    }
                }
            },
            _ => {},
        }
    }
}

/// Traversal is blocked: a path the portal allows lies, component for
/// component, under one of the allowed paths once `..` and `.` have been
/// resolved, and its resolved form has no `..` left to climb out with.
pub proof fn lemma_allowed_paths_stay_inside(path: Seq<char>, allowed: Seq<Seq<char>>)
    requires
        path_allowed(path, allowed),
    ensures
        exists|i: int|
            0 <= i < allowed.len() && is_component_prefix(
                components_of(#[trigger] allowed[i]),
                normalize_components(components_of(path)),
            ),
        free_of_dot_components(normalize_components(components_of(path))),
{
    lemma_normalized_free_of_dots(components_of(path));
}

/// A portal request.
pub enum Request {
    Read { path: String },
    Write { path: String, data_b64: String },
    List { path: String },
}

/// A portal response.
pub enum Response {
    Success,
    OkData { data_b64: String },
    OkEntries { entries: Vec<String> },
    Error { error: String },
}

impl Response {
    /// An error response carrying `msg`.
    pub fn err(msg: String) -> (r: Response)
        ensures
            r matches Response::Error { error } && error@ == msg@,
    {
        Response::Error { error: msg }
    }
}

/// What the portal does next for a request.
pub enum Step {
    /// Answer at once.
    Reply(Response),
    /// Read the whole file at this path.
    ReadFile(String),
    /// Create the parent directories, then write these bytes to the path.
    WriteFile { path: String, data: Vec<u8> },
    /// List the directory at this path.
    ListDir(String),
}

/// The character of a 6-bit value in the standard base64 alphabet
/// (`A`-`Z`, `a`-`z`, `0`-`9`, `+`, `/`).
pub open spec fn base64_char(v: int) -> char {
    if v < 26 {
        (65 + v) as char
    } else if v < 52 {
        (97 + v - 26) as char
    } else if v < 62 {
        (48 + v - 52) as char
    } else if v == 62 {
        '+'
    } else {
        '/'
    }
}

/// The standard base64 encoding (RFC 4648, with `=` padding): each group of
/// three bytes becomes four characters; a final group of one or two bytes
/// becomes two or three characters and is padded to four with `=`.
pub open spec fn base64_encoding(data: Seq<u8>) -> Seq<char>
    decreases data.len(),
{
    if data.len() == 0 {
        seq![]
    } else {
        let b0 = data[0] as int;
        let b1 = if data.len() > 1 { data[1] as int } else { 0 };
        let b2 = if data.len() > 2 { data[2] as int } else { 0 };
        let c0 = base64_char(b0 / 4);
        let c1 = base64_char((b0 % 4) * 16 + b1 / 16);
        let c2 = base64_char((b1 % 16) * 4 + b2 / 64);
        let c3 = base64_char(b2 % 64);
        if data.len() == 1 {
            seq![c0, c1, '=', '=']
        } else if data.len() == 2 {
            seq![c0, c1, c2, '=']
        } else {
            seq![c0, c1, c2, c3] + base64_encoding(data.skip(3))
        }
    }
}

/// What the `base64` crate's `general_purpose::STANDARD` engine decodes from
/// text: the bytes, or the text of the `DecodeError` it reports.
pub uninterp spec fn base64_decoding(text: Seq<char>) -> Result<Seq<u8>, Seq<char>>;

/// `base64::Engine::encode` with the standard engine. Claimed: the result is
/// the standard padded encoding of the input, as `base64_encoding` spells it
/// out. The engine panics when the encoded length overflows
/// `usize`, which the precondition rules out.
#[verifier::external_body]
fn b64_encode(data: &[u8]) -> (r: String)
    requires
        data@.len() / 3 * 4 + 4 <= usize::MAX,
    ensures
        r@ == base64_encoding(data@),
{
    base64::Engine::encode(&base64::engine::general_purpose::STANDARD, data)
}

/// `base64::Engine::decode` with the standard engine, the error rendered with
/// its `Display` text. Claimed: the outcome is a function of the input text
/// alone, and the text that `base64_encoding` gives for some bytes decodes to
/// exactly those bytes (the engine requires canonical padding and zero
/// trailing bits, which that encoding has). What it reports of other text is
/// left to the name.
#[verifier::external_body]
fn b64_decode(text: &str) -> (r: Result<Vec<u8>, String>)
    ensures
        match r {
            Ok(d) => base64_decoding(text@) == Ok::<Seq<u8>, Seq<char>>(d@),
            Err(e) => base64_decoding(text@) == Err::<Seq<u8>, Seq<char>>(e@),
        },
        r is Err ==> !exists|bytes: Seq<u8>| #[trigger] base64_encoding(bytes) == text@,
        r matches Ok(d) ==> forall|bytes: Seq<u8>|
            #[trigger] base64_encoding(bytes) == text@ ==> d@ == bytes,
{
    match base64::Engine::decode(&base64::engine::general_purpose::STANDARD, text) {
        Ok(d) => Ok(d),
        Err(e) => Err(e.to_string()),
    }
}

/// The response text for a refused path.
pub open spec fn denied_text(path: Seq<char>) -> Seq<char> {
    "access denied: "@ + path
}

fn denied(path: &str) -> (r: Response)
    ensures
        r matches Response::Error { error } && error@ == denied_text(path@),
{
    let mut msg = "access denied: ".to_owned();
    push_str(&mut msg, path);
    Response::Error { error: msg }
}

/// Decides what to do with a request: refuse a path outside the allowlist,
/// refuse a write whose payload is not valid base64, and otherwise name the
/// file operation to perform.
pub fn plan_request(req: Request, allowed: &[String]) -> (r: Step)
    ensures
        match req {
            Request::Read { path } => if path_allowed(path@, strs_view(allowed@)) {
                r matches Step::ReadFile(p) && p@ == path@
            } else {
                r matches Step::Reply(Response::Error { error }) && error@ == denied_text(path@)
            },
            Request::List { path } => if path_allowed(path@, strs_view(allowed@)) {
                r matches Step::ListDir(p) && p@ == path@
            } else {
                r matches Step::Reply(Response::Error { error }) && error@ == denied_text(path@)
            },
            Request::Write { path, data_b64 } => if !path_allowed(
                path@,
                strs_view(allowed@),
            ) {
                r matches Step::Reply(Response::Error { error }) && error@ == denied_text(path@)
            } else {
                match base64_decoding(data_b64@) {
                    Ok(bytes) => r matches Step::WriteFile { path: p, data } && p@ == path@
                        && data@ == bytes,
                    Err(e) => r matches Step::Reply(Response::Error { error }) && error@
                        == "bad base64: "@ + e,
                }
            },
        },
        // A payload in the form a read answers with writes back the same bytes.
        forall|bytes: Seq<u8>|
            req matches Request::Write { path, data_b64 } && path_allowed(
                path@,
                strs_view(allowed@),
            ) && #[trigger] base64_encoding(bytes) == data_b64@ ==> (r matches Step::WriteFile {
                data,
                ..
            } && data@ == bytes),
{
    match req {
        Request::Read { path } => {
            if !is_allowed(path.as_str(), allowed) {
                return Step::Reply(denied(path.as_str()));
            }
            Step::ReadFile(path)
        },
        Request::List { path } => {
            if !is_allowed(path.as_str(), allowed) {
                return Step::Reply(denied(path.as_str()));
            }
            Step::ListDir(path)
        },
        Request::Write { path, data_b64 } => {
            if !is_allowed(path.as_str(), allowed) {
                return Step::Reply(denied(path.as_str()));
            }
            match b64_decode(data_b64.as_str()) {
                Ok(data) => Step::WriteFile { path, data },
                Err(e) => {
                    let mut msg = "bad base64: ".to_owned();
                    push_str(&mut msg, e.as_str());
                    Step::Reply(Response::Error { error: msg })
                },
            }
        },
    }
}

/// The answer once a file has been read (or failed to be, with the error's text).
pub fn read_outcome(result: Result<Vec<u8>, String>) -> (r: Response)
    requires
        result matches Ok(d) ==> d@.len() / 3 * 4 + 4 <= usize::MAX,
    ensures
        match result {
            Ok(d) => r matches Response::OkData { data_b64 } && data_b64@ == base64_encoding(d@),
            Err(e) => r matches Response::Error { error } && error@ == e@,
        },
{
    match result {
        Ok(d) => Response::OkData { data_b64: b64_encode(d.as_slice()) },
        Err(e) => Response::Error { error: e },
    }
}

/// The answer once a write has finished (or failed, with the error's text).
pub fn write_outcome(result: Result<(), String>) -> (r: Response)
    ensures
        match result {
            Ok(()) => r matches Response::Success,
            Err(e) => r matches Response::Error { error } && error@ == e@,
        },
{
    match result {
        Ok(()) => Response::Success,
        Err(e) => Response::Error { error: e },
    }
}

/// The answer once a directory has been listed: the entry names in ascending order.
pub fn list_outcome(result: Result<Vec<String>, String>) -> (r: Response)
    ensures
        match result {
            Ok(names) => r matches Response::OkEntries { entries } && sorted_lex(strs_view(entries@))
                && strs_view(entries@).to_multiset() =~= strs_view(names@).to_multiset(),
            Err(e) => r matches Response::Error { error } && error@ == e@,
        },
{
    match result {
        Ok(names) => {
            let entries = sort_strings(names);
            Response::OkEntries { entries }
        },
        Err(e) => Response::Error { error: e },
    }
}

} // verus!
