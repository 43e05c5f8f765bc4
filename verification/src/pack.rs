//! Package checks of `weft-pack`: the application id pattern, manifest
//! validation and the package summary.
use vstd::prelude::*;

use crate::path::{join_spec, path_join, push_char, push_str};
use crate::text::{decimal, push_decimal, str_eq, strs_view};

verus! {

pub open spec fn is_lower(c: char) -> bool {
    'a' <= c && c <= 'z'
}

pub open spec fn is_ascii_digit(c: char) -> bool {
    '0' <= c && c <= '9'
}

/// The number of `.` in a string.
pub open spec fn dot_count(s: Seq<char>) -> nat
    decreases s.len(),
{
    if s.len() == 0 {
        0
    } else {
        dot_count(s.drop_last()) + if s.last() == '.' { 1nat } else { 0nat }
    }
}

/// The documented application id pattern `^[a-z][a-z0-9]*(\.[a-z][a-z0-9]*){2,}$`:
/// at least three dot-separated labels, each a lowercase ASCII letter followed
/// by lowercase ASCII letters and digits.
pub open spec fn app_id_pattern(s: Seq<char>) -> bool {
    &&& s.len() > 0
    &&& is_lower(s[0])
    &&& forall|i: int|
        0 <= i < s.len() ==> (#[trigger] s[i] == '.' || is_lower(s[i]) || is_ascii_digit(s[i]))
    &&& forall|i: int| 0 <= i < s.len() && #[trigger] s[i] == '.' ==> i + 1 < s.len() && is_lower(s[i + 1])
    &&& dot_count(s) >= 2
}

/// Whether `id` is a valid application id.
pub fn is_valid_app_id(id: &str) -> (r: bool)
    ensures
        r == app_id_pattern(id@),
{
    let n = id.unicode_len();
    if n == 0 {
        return false;
    }
    let c0 = id.get_char(0);
    if !('a' <= c0 && c0 <= 'z') {
        return false;
    }
    let mut dots: usize = 0;
    let mut i: usize = 0;
    assert(id@.take(0) =~= Seq::<char>::empty());
    while i < n
        invariant
            n == id@.len(),
            i <= n,
            n > 0,
            is_lower(id@[0]),
            dots == dot_count(id@.take(i as int)),
            dots <= i,
            forall|j: int|
                0 <= j < i ==> (#[trigger] id@[j] == '.' || is_lower(id@[j]) || is_ascii_digit(
                    id@[j],
                )),
            forall|j: int| 0 <= j < i && #[trigger] id@[j] == '.' ==> j + 1 < n && is_lower(id@[j + 1]),
        decreases n - i,
    {
        let c = id.get_char(i);
        assert(id@.take(i + 1).drop_last() =~= id@.take(i as int));
        assert(id@.take(i + 1).last() == c);
        if c == '.' {
            if i + 1 >= n {
                return false;
            }
            let d = id.get_char(i + 1);
            if !('a' <= d && d <= 'z') {
                return false;
            }
            dots = dots + 1;
        } else if !(('a' <= c && c <= 'z') || ('0' <= c && c <= '9')) {
            return false;
        }
        i = i + 1;
    }
    assert(id@.take(n as int) =~= id@);
    dots >= 2
}

/// `[package]` of the manifest.
pub struct PackageMeta {
    pub id: String,
    pub name: String,
    pub version: String,
    pub description: Option<String>,
    pub author: Option<String>,
    /// The capabilities the package asks for (`[package] capabilities`).
    pub capabilities: Option<Vec<String>>,
}

/// `[runtime]` of the manifest.
pub struct RuntimeMeta {
    pub module: String,
}

/// `[ui]` of the manifest.
pub struct UiMeta {
    pub entry: String,
}

/// A package manifest (`wapp.toml`).
pub struct Manifest {
    pub package: PackageMeta,
    pub runtime: RuntimeMeta,
    pub ui: UiMeta,
}

/// The paths the manifest points at: the Wasm module and the UI entry.
pub fn package_paths(dir: &str, m: &Manifest) -> (r: (String, String))
    ensures
        r.0@ == join_spec(dir@, m.runtime.module@),
        r.1@ == join_spec(dir@, m.ui.entry@),
{
    (path_join(dir, m.runtime.module.as_str()), path_join(dir, m.ui.entry.as_str()))
}

/// The capabilities a package may declare: the app data directory
/// (read-write or read-only), the user's documents (read-write or
/// read-only), network fetch and notifications.
pub open spec fn known_capability(c: Seq<char>) -> bool {
    c =~= "fs:rw:app-data"@ || c =~= "fs:read:app-data"@ || c =~= "fs:rw:xdg-documents"@
        || c =~= "fs:read:xdg-documents"@ || c =~= "net:fetch"@ || c =~= "sys:notifications"@
}

/// The problem line for an unknown capability.
pub open spec fn unknown_capability_text(c: Seq<char>) -> Seq<char> {
    "unknown capability '"@ + c + "'"@
}

/// One problem line per declared capability that is not known, in order.
pub open spec fn capability_problems(caps: Seq<Seq<char>>) -> Seq<Seq<char>>
    decreases caps.len(),
{
    if caps.len() == 0 {
        seq![]
    } else {
        capability_problems(caps.drop_last()) + if known_capability(caps.last()) {
            seq![]
        } else {
            seq![unknown_capability_text(caps.last())]
        }
    }
}

/// The declared capabilities, none when the field is absent.
pub open spec fn declared_capabilities(m: Manifest) -> Seq<Seq<char>> {
    match m.package.capabilities {
        Some(v) => strs_view(v@),
        None => seq![],
    }
}

/// The problem with a description over 256 characters, if there is one.
pub open spec fn description_problems(m: Manifest) -> Seq<Seq<char>> {
    match m.package.description {
        Some(d) => if d@.len() > 256 {
            seq!["package.description exceeds 256 characters ("@ + decimal(d@.len()) + ")"@]
        } else {
            seq![]
        },
        None => seq![],
    }
}

/// The problem with the application id, if there is one.
pub open spec fn id_problems(m: Manifest) -> Seq<Seq<char>> {
    if !app_id_pattern(m.package.id@) {
        seq!["package.id '"@ + m.package.id@ + "' does not match required pattern"@]
    } else {
        seq![]
    }
}

/// The problems with the name: empty, or longer than 64 characters.
pub open spec fn name_problems(m: Manifest) -> Seq<Seq<char>> {
    (if m.package.name@.len() == 0 {
        seq!["package.name is empty"@]
    } else {
        seq![]
    }) + (if m.package.name@.len() > 64 {
        seq!["package.name exceeds 64 characters ("@ + decimal(m.package.name@.len()) + ")"@]
    } else {
        seq![]
    })
}

/// The problems with the files the manifest points at.
pub open spec fn file_problems(
    dir: Seq<char>,
    m: Manifest,
    module_exists: bool,
    entry_exists: bool,
) -> Seq<Seq<char>> {
    (if !module_exists {
        seq!["runtime.module '"@ + join_spec(dir, m.runtime.module@) + "' not found"@]
    } else {
        seq![]
    }) + (if !entry_exists {
        seq!["ui.entry '"@ + join_spec(dir, m.ui.entry@) + "' not found"@]
    } else {
        seq![]
    })
}

/// The problems found in a loaded manifest, in the order they are reported:
/// the id pattern, an empty name, a name over 64 characters, a description
/// over 256 characters, each unknown capability, a missing module, a
/// missing UI entry.
pub open spec fn manifest_problems(
    dir: Seq<char>,
    m: Manifest,
    module_exists: bool,
    entry_exists: bool,
) -> Seq<Seq<char>> {
    id_problems(m) + name_problems(m) + description_problems(m) + capability_problems(
        declared_capabilities(m),
    ) + file_problems(dir, m, module_exists, entry_exists)
}

/// Whether a capability string is one a package may declare.
pub fn is_known_capability(c: &str) -> (r: bool)
    ensures
        r == known_capability(c@),
{
    str_eq(c, "fs:rw:app-data") || str_eq(c, "fs:read:app-data") || str_eq(c, "fs:rw:xdg-documents")
        || str_eq(c, "fs:read:xdg-documents") || str_eq(c, "net:fetch") || str_eq(
        c,
        "sys:notifications",
    )
}

/// Lines joined with newlines.
pub open spec fn join_lines(lines: Seq<Seq<char>>) -> Seq<char>
    decreases lines.len(),
{
    if lines.len() == 0 {
        seq![]
    } else if lines.len() == 1 {
        lines[0]
    } else {
        join_lines(lines.drop_last()) + seq!['\n'] + lines.last()
    }
}

fn push_problem(problems: &mut Vec<String>, p: String)
    ensures
        final(problems)@.map_values(|s: String| s@) == old(problems)@.map_values(|s: String| s@).push(
            p@,
        ),
{
    problems.push(p);
    assert(final(problems)@.map_values(|s: String| s@) =~= old(problems)@.map_values(
        |s: String| s@,
    ).push(p@));
}

fn push_id_problems(problems: &mut Vec<String>, m: &Manifest)
    ensures
        final(problems)@.map_values(|s: String| s@) == old(problems)@.map_values(|s: String| s@)
            + id_problems(*m),
{
    let ghost base = problems@.map_values(|s: String| s@);
    if !is_valid_app_id(m.package.id.as_str()) {
        let mut p = "package.id '".to_owned();
        push_str(&mut p, m.package.id.as_str());
        push_str(&mut p, "' does not match required pattern");
        push_problem(problems, p);
    }
    assert(problems@.map_values(|s: String| s@) =~= base + id_problems(*m));
}

fn push_name_problems(problems: &mut Vec<String>, m: &Manifest)
    ensures
        final(problems)@.map_values(|s: String| s@) == old(problems)@.map_values(|s: String| s@)
            + name_problems(*m),
{
    let ghost base = problems@.map_values(|s: String| s@);
    let name_len = m.package.name.as_str().unicode_len();
    if name_len == 0 {
        push_problem(problems, "package.name is empty".to_owned());
    }
    if name_len > 64 {
        let mut p = "package.name exceeds 64 characters (".to_owned();
        push_decimal(&mut p, name_len as u64);
        push_str(&mut p, ")");
        push_problem(problems, p);
    }
    assert(problems@.map_values(|s: String| s@) =~= base + name_problems(*m));
}

fn push_description_problems(problems: &mut Vec<String>, m: &Manifest)
    ensures
        final(problems)@.map_values(|s: String| s@) == old(problems)@.map_values(|s: String| s@)
            + description_problems(*m),
{
    let ghost base = problems@.map_values(|s: String| s@);
    match &m.package.description {
        Some(d) => {
            let dlen = d.as_str().unicode_len();
            if dlen > 256 {
                let mut p = "package.description exceeds 256 characters (".to_owned();
                push_decimal(&mut p, dlen as u64);
                push_str(&mut p, ")");
                push_problem(problems, p);
            }
        },
        None => {},
    }
    assert(problems@.map_values(|s: String| s@) =~= base + description_problems(*m));
}

fn push_file_problems(
    problems: &mut Vec<String>,
    dir: &str,
    m: &Manifest,
    module_exists: bool,
    entry_exists: bool,
)
    ensures
        final(problems)@.map_values(|s: String| s@) == old(problems)@.map_values(|s: String| s@)
            + file_problems(dir@, *m, module_exists, entry_exists),
{
    let ghost base = problems@.map_values(|s: String| s@);
    let (wasm_path, entry_path) = package_paths(dir, m);
    if !module_exists {
        let mut p = "runtime.module '".to_owned();
        push_str(&mut p, wasm_path.as_str());
        push_str(&mut p, "' not found");
        push_problem(problems, p);
    }
    if !entry_exists {
        let mut p = "ui.entry '".to_owned();
        push_str(&mut p, entry_path.as_str());
        push_str(&mut p, "' not found");
        push_problem(problems, p);
    }
    assert(problems@.map_values(|s: String| s@) =~= base + file_problems(
        dir@,
        *m,
        module_exists,
        entry_exists,
    ));
}

fn push_capability_problems(problems: &mut Vec<String>, caps: &Vec<String>)
    ensures
        final(problems)@.map_values(|s: String| s@) == old(problems)@.map_values(|s: String| s@)
            + capability_problems(strs_view(caps@)),
{
    let ghost cv = strs_view(caps@);
    let ghost base = problems@.map_values(|s: String| s@);
    let mut i: usize = 0;
    assert(cv.take(0) =~= Seq::<Seq<char>>::empty());
    assert(base + capability_problems(cv.take(0)) =~= base);
    while i < caps.len()
        invariant
            i <= caps@.len(),
            cv == strs_view(caps@),
            problems@.map_values(|s: String| s@) == base + capability_problems(cv.take(i as int)),
        decreases caps@.len() - i,
    {
        assert(cv.take(i + 1).drop_last() =~= cv.take(i as int));
        assert(cv.take(i + 1).last() == caps@[i as int]@);
        if !is_known_capability(caps[i].as_str()) {
            let mut p = "unknown capability '".to_owned();
            push_str(&mut p, caps[i].as_str());
            push_str(&mut p, "'");
            push_problem(problems, p);
        }
        assert(problems@.map_values(|s: String| s@) =~= base + capability_problems(
            cv.take(i + 1),
        ));
        i = i + 1;
    }
    assert(cv.take(caps@.len() as int) =~= cv);
}

/// Validates a package directory: `manifest` is the loaded manifest or the
/// reason it could not be loaded; whether the manifest's module and UI entry
/// exist is an input. Answers "OK", or every problem, one per line.
pub fn check_package(
    dir: &str,
    manifest: Result<&Manifest, String>,
    module_exists: bool,
    entry_exists: bool,
) -> (r: Result<String, String>)
    ensures
        match manifest {
            Err(e) => r matches Err(msg) && msg@ == "wapp.toml: "@ + e@,
            Ok(m) => {
                let p = manifest_problems(dir@, *m, module_exists, entry_exists);
                if p.len() == 0 {
                    r matches Ok(s) && s@ == "OK"@
                } else {
                    r matches Err(msg) && msg@ == join_lines(p)
                }
            },
        },
{
    let m = match manifest {
        Err(e) => {
            let mut msg = "wapp.toml: ".to_owned();
            push_str(&mut msg, e.as_str());
            return Err(msg);
        },
        Ok(m) => m,
    };
    let mut problems: Vec<String> = Vec::new();
    push_id_problems(&mut problems, m);
    push_name_problems(&mut problems, m);
    push_description_problems(&mut problems, m);
    match &m.package.capabilities {
        Some(caps) => push_capability_problems(&mut problems, caps),
        None => {},
    }
    push_file_problems(&mut problems, dir, m, module_exists, entry_exists);
    let ghost pv = problems@.map_values(|s: String| s@);
    assert(pv =~= manifest_problems(dir@, *m, module_exists, entry_exists));
    if problems.len() == 0 {
        return Ok("OK".to_owned());
    }
    let mut out = problems[0].clone();
    let mut i: usize = 1;
    assert(pv.take(1) =~= seq![pv[0]]);
    while i < problems.len()
        invariant
            1 <= i <= problems@.len(),
            pv == problems@.map_values(|s: String| s@),
            out@ == join_lines(pv.take(i as int)),
        decreases problems@.len() - i,
    {
        push_char(&mut out, '\n');
        push_str(&mut out, problems[i].as_str());
        assert(pv.take(i + 1).drop_last() =~= pv.take(i as int));
        assert(out@ =~= join_lines(pv.take(i + 1)));
        i = i + 1;
    }
    assert(pv.take(problems@.len() as int) =~= pv);
    Err(out)
}

/// The summary `weft-pack info` prints, one line per field present.
pub open spec fn info_lines_spec(m: Manifest) -> Seq<Seq<char>> {
    seq!["id:      "@ + m.package.id@, "name:    "@ + m.package.name@, "version: "@
        + m.package.version@] + match m.package.description {
        Some(d) => seq!["desc:    "@ + d@],
        None => seq![],
    } + match m.package.author {
        Some(a) => seq!["author:  "@ + a@],
        None => seq![],
    } + seq!["module:  "@ + m.runtime.module@, "ui:      "@ + m.ui.entry@]
}

fn labelled(label: &str, value: &str) -> (r: String)
    ensures
        r@ == label@ + value@,
{
    let mut s = label.to_owned();
    push_str(&mut s, value);
    s
}

/// The lines of the package summary.
pub fn info_lines(m: &Manifest) -> (r: Vec<String>)
    ensures
        r@.map_values(|s: String| s@) == info_lines_spec(*m),
{
    let mut out: Vec<String> = Vec::new();
    out.push(labelled("id:      ", m.package.id.as_str()));
    out.push(labelled("name:    ", m.package.name.as_str()));
    out.push(labelled("version: ", m.package.version.as_str()));
    match &m.package.description {
        Some(d) => out.push(labelled("desc:    ", d.as_str())),
        None => {},
    }
    match &m.package.author {
        Some(a) => out.push(labelled("author:  ", a.as_str())),
        None => {},
    }
    out.push(labelled("module:  ", m.runtime.module.as_str()));
    out.push(labelled("ui:      ", m.ui.entry.as_str()));
    assert(out@.map_values(|s: String| s@) =~= info_lines_spec(*m));
    out
}

/// Where `weft-pack install` copies a package: the application's directory
/// in the store root; refused when something is already there.
pub fn install_destination(store_root: &str, app_id: &str, dest_exists: bool) -> (r: Result<
    String,
    String,
>)
    ensures
        !dest_exists ==> (r matches Ok(d) && d@ == join_spec(store_root@, app_id@)),
        dest_exists ==> (r matches Err(m) && m@ == "package '"@ + app_id@
            + "' is already installed at "@ + join_spec(store_root@, app_id@)
            + "; remove it first"@),
{
    let dest = path_join(store_root, app_id);
    if dest_exists {
        let mut m = "package '".to_owned();
        push_str(&mut m, app_id);
        push_str(&mut m, "' is already installed at ");
        push_str(&mut m, dest.as_str());
        push_str(&mut m, "; remove it first");
        Err(m)
    } else {
        Ok(dest)
    }
}

} // verus!
