//! The Wasm runtime host's own logic: its command line, the line protocol of
//! the IPC socket, and the notification command.
use vstd::prelude::*;

use crate::appd::launch::{preopen_flag, preopen_flags, preopens_view, runtime_args_spec, Preopen};
use crate::path::push_str;
use crate::text::{decimal, lemma_parse_decimal_roundtrip, parse_u64, parse_unsigned, str_eq, strs_view};

verus! {

/// The runtime's arguments once read.
pub struct RuntimeArgs {
    pub app_id: String,
    pub session_id: u64,
    pub preopen: Vec<Preopen>,
    pub ipc_socket: Option<String>,
}

/// The position of the first `::` at or after `i`.
pub open spec fn find_double_colon(s: Seq<char>, i: int) -> Option<int>
    decreases s.len() - i,
{
    if i < 0 || i + 1 >= s.len() {
        None
    } else if s[i] == ':' && s[i + 1] == ':' {
        Some(i)
    } else {
        find_double_colon(s, i + 1)
    }
}

/// `HOST::GUEST` split at its first `::`; without one, the same path on both sides.
pub open spec fn split_preopen(spec: Seq<char>) -> (Seq<char>, Seq<char>) {
    match find_double_colon(spec, 0) {
        Some(k) => (spec.take(k), spec.skip(k + 2)),
        None => (spec, spec),
    }
}

fn split_preopen_exec(spec: &str) -> (r: (String, String))
    ensures
        (r.0@, r.1@) == split_preopen(spec@),
{
    let n = spec.unicode_len();
    let mut i: usize = 0;
    while i < n && i + 1 < n
        invariant
            n == spec@.len(),
            i <= n,
            find_double_colon(spec@, 0) == find_double_colon(spec@, i as int),
        decreases n - i,
    {
        if spec.get_char(i) == ':' && spec.get_char(i + 1) == ':' {
            let host = spec.substring_char(0, i).to_owned();
            let guest = spec.substring_char(i + 2, n).to_owned();
            assert(host@ =~= spec@.take(i as int));
            assert(guest@ =~= spec@.skip(i + 2));
            return (host, guest);
        }
        i = i + 1;
    }
    (spec.to_owned(), spec.to_owned())
}

/// The usage line.
pub open spec fn usage_text() -> Seq<char> {
    "usage: weft-runtime <app_id> <session_id> [--preopen HOST::GUEST]... [--preopen-ro HOST::GUEST]... [--ipc-socket PATH]"@
}

/// Reads the flags after the session id, collecting preopened directories
/// (`--preopen` read-write, `--preopen-ro` read-only) and the IPC socket.
pub open spec fn parse_flags(
    rest: Seq<Seq<char>>,
    pre: Seq<(Seq<char>, Seq<char>, bool)>,
    ipc: Option<Seq<char>>,
) -> Result<(Seq<(Seq<char>, Seq<char>, bool)>, Option<Seq<char>>), Seq<char>>
    decreases rest.len(),
{
    if rest.len() == 0 {
        Ok((pre, ipc))
    } else if rest[0] =~= "--preopen"@ || rest[0] =~= "--preopen-ro"@ {
        if rest.len() < 2 {
            Err(rest[0] + " requires an argument"@)
        } else {
            let hg = split_preopen(rest[1]);
            parse_flags(rest.skip(2), pre.push((hg.0, hg.1, rest[0] =~= "--preopen-ro"@)), ipc)
        }
    } else if rest[0] =~= "--ipc-socket"@ {
        if rest.len() < 2 {
            Err("--ipc-socket requires an argument"@)
        } else {
            parse_flags(rest.skip(2), pre, Some(rest[1]))
        }
    } else {
        Err("unexpected argument: "@ + rest[0])
    }
}

/// What the runtime makes of its command line (the program name first):
/// application id, decimal session id, then `--preopen HOST::GUEST` and
/// `--ipc-socket PATH` flags.
pub open spec fn parse_runtime_args_spec(args: Seq<Seq<char>>) -> Result<
    (Seq<char>, u64, Seq<(Seq<char>, Seq<char>, bool)>, Option<Seq<char>>),
    Seq<char>,
> {
    if args.len() < 3 {
        Err(usage_text())
    } else {
        match parse_unsigned(args[2], u64::MAX as int) {
            None => Err("invalid session_id: "@ + args[2]),
            Some(id) => match parse_flags(args.skip(3), seq![], None) {
                Ok((pre, ipc)) => Ok((args[1], id as u64, pre, ipc)),
                Err(e) => Err(e),
            },
        }
    }
}

pub open spec fn opt_string(o: Option<String>) -> Option<Seq<char>> {
    match o {
        Some(s) => Some(s@),
        None => None,
    }
}

/// Reads the runtime's command line.
pub fn parse_runtime_args(args: &[String]) -> (r: Result<RuntimeArgs, String>)
    ensures
        match r {
            Ok(a) => parse_runtime_args_spec(strs_view(args@)) == Ok::<
                (Seq<char>, u64, Seq<(Seq<char>, Seq<char>, bool)>, Option<Seq<char>>),
                Seq<char>,
            >((a.app_id@, a.session_id, preopens_view(a.preopen@), opt_string(a.ipc_socket))),
            Err(e) => parse_runtime_args_spec(strs_view(args@)) == Err::<
                (Seq<char>, u64, Seq<(Seq<char>, Seq<char>, bool)>, Option<Seq<char>>),
                Seq<char>,
            >(e@),
        },
{
    let ghost av = strs_view(args@);
    if args.len() < 3 {
        return Err(
            "usage: weft-runtime <app_id> <session_id> [--preopen HOST::GUEST]... [--preopen-ro HOST::GUEST]... [--ipc-socket PATH]".to_owned(),
        );
    }
    assert(av[2] == args@[2]@ && av[1] == args@[1]@);
    let session_id = match parse_u64(args[2].as_str()) {
        Some(v) => v,
        None => {
            let mut m = "invalid session_id: ".to_owned();
            push_str(&mut m, args[2].as_str());
            return Err(m);
        },
    };
    let mut preopen: Vec<Preopen> = Vec::new();
    let mut ipc_socket: Option<String> = None;
    let mut i: usize = 3;
    assert(preopens_view(preopen@) =~= Seq::<(Seq<char>, Seq<char>, bool)>::empty());
    while i < args.len()
        invariant
            3 <= i <= args@.len(),
            av == strs_view(args@),
            parse_unsigned(av[2], u64::MAX as int) == Some(session_id as int),
            parse_flags(av.skip(3), seq![], None) == parse_flags(
                av.skip(i as int),
                preopens_view(preopen@),
                opt_string(ipc_socket),
            ),
        decreases args@.len() - i,
    {
        let ghost rest = av.skip(i as int);
        assert(rest[0] == args@[i as int]@);
        let is_rw = str_eq(args[i].as_str(), "--preopen");
        let is_ro = str_eq(args[i].as_str(), "--preopen-ro");
        if is_rw || is_ro {
            if i + 1 >= args.len() {
                let mut m = args[i].clone();
                push_str(&mut m, " requires an argument");
                return Err(m);
            }
            assert(rest[1] == args@[i + 1]@);
            assert(rest.skip(2) =~= av.skip(i + 2));
            let (host, guest) = split_preopen_exec(args[i + 1].as_str());
            let ghost before = preopens_view(preopen@);
            preopen.push(Preopen { host, guest, read_only: is_ro });
            assert(preopens_view(preopen@) =~= before.push(
                (split_preopen(rest[1]).0, split_preopen(rest[1]).1, rest[0] =~= "--preopen-ro"@),
            ));
            i = i + 2;
        } else if str_eq(args[i].as_str(), "--ipc-socket") {
            if i + 1 >= args.len() {
                return Err("--ipc-socket requires an argument".to_owned());
            }
            assert(rest[1] == args@[i + 1]@);
            assert(rest.skip(2) =~= av.skip(i + 2));
            ipc_socket = Some(args[i + 1].clone());
            i = i + 2;
        } else {
            let mut m = "unexpected argument: ".to_owned();
            push_str(&mut m, args[i].as_str());
            return Err(m);
        }
    }
    assert(av.skip(i as int) =~= Seq::<Seq<char>>::empty());
    Ok(RuntimeArgs { app_id: args[1].clone(), session_id, preopen, ipc_socket })
}

/// A host path that splits back off `HOST::GUEST` intact: every `:` in it is
/// followed by a character other than `:`.
pub open spec fn separable_host(h: Seq<char>) -> bool {
    forall|i: int| 0 <= i < h.len() && #[trigger] h[i] == ':' ==> i + 1 < h.len() && h[i + 1] != ':'
}

proof fn lemma_find_after(s: Seq<char>, i: int, k: int)
    requires
        0 <= i <= k,
        k + 1 < s.len(),
        s[k] == ':' && s[k + 1] == ':',
        forall|j: int| i <= j < k ==> !(#[trigger] s[j] == ':' && s[j + 1] == ':'),
    ensures
        find_double_colon(s, i) == Some(k),
    decreases k - i,
{
    if i < k {
        lemma_find_after(s, i + 1, k);
    }
}

proof fn lemma_split_joined(h: Seq<char>, g: Seq<char>)
    requires
        separable_host(h),
    ensures
        split_preopen(h + "::"@ + g) == (h, g),
{
    reveal_strlit("::");
    let s = h + "::"@ + g;
    assert forall|j: int| 0 <= j < h.len() implies !(#[trigger] s[j] == ':' && s[j + 1] == ':') by {
        if s[j] == ':' {
            assert(h[j] == ':');
            if j + 1 < h.len() {
                assert(s[j + 1] == h[j + 1]);
            } else {
                assert(false);
            }
        }
    }
    lemma_find_after(s, 0, h.len() as int);
    assert(s.take(h.len() as int) =~= h);
    assert(s.skip(h.len() as int + 2) =~= g);
}

proof fn lemma_parse_flags_of(
    p: Seq<(Seq<char>, Seq<char>, bool)>,
    pre: Seq<(Seq<char>, Seq<char>, bool)>,
    ipc: Option<Seq<char>>,
)
    requires
        forall|i: int| 0 <= i < p.len() ==> separable_host((#[trigger] p[i]).0),
    ensures
        parse_flags(preopen_flags(p), pre, ipc) == Ok::<
            (Seq<(Seq<char>, Seq<char>, bool)>, Option<Seq<char>>),
            Seq<char>,
        >((pre + p, ipc)),
    decreases p.len(),
{
    reveal_strlit("--preopen");
    reveal_strlit("--preopen-ro");
    if p.len() == 0 {
        assert(preopen_flags(p) =~= Seq::<Seq<char>>::empty());
        assert(pre + p =~= pre);
    } else {
        let f = preopen_flags(p);
        let rest = p.drop_first();
        assert forall|i: int| 0 <= i < rest.len() implies separable_host((#[trigger] rest[i]).0) by {
            assert(rest[i] == p[i + 1]);
        }
        lemma_split_joined(p[0].0, p[0].1);
        lemma_parse_flags_of(rest, pre.push(p[0]), ipc);
        assert(f[0] == preopen_flag(p[0].2));
        assert((f[0] =~= "--preopen-ro"@) == p[0].2) by {
            if !p[0].2 {
                assert(f[0].len() != "--preopen-ro"@.len());
            }
        }
        assert(f.skip(2) =~= preopen_flags(rest));
        assert(pre.push(p[0]) + rest =~= pre + p);
    }
}

/// The runtime reads back exactly what the daemon passes it: parsing the
/// arguments `runtime_command` builds gives the same application id, session
/// id, IPC socket and preopened directories with their permissions, provided every host path splits
/// back off its `HOST::GUEST` argument (see [`separable_host`]).
pub proof fn lemma_runtime_args_roundtrip(
    program: Seq<char>,
    app_id: Seq<char>,
    session_id: u64,
    ipc_socket: Option<Seq<char>>,
    preopens: Seq<(Seq<char>, Seq<char>, bool)>,
)
    requires
        forall|i: int| 0 <= i < preopens.len() ==> separable_host((#[trigger] preopens[i]).0),
    ensures
        parse_runtime_args_spec(seq![program] + runtime_args_spec(app_id, session_id, ipc_socket, preopens))
            == Ok::<(Seq<char>, u64, Seq<(Seq<char>, Seq<char>, bool)>, Option<Seq<char>>), Seq<char>>(
            (app_id, session_id, preopens, ipc_socket),
        ),
{
    reveal_strlit("--ipc-socket");
    reveal_strlit("--preopen");
    reveal_strlit("--preopen-ro");
    let args = seq![program] + runtime_args_spec(app_id, session_id, ipc_socket, preopens);
    lemma_parse_decimal_roundtrip(session_id as nat, u64::MAX as int);
    assert(args[1] == app_id);
    assert(args[2] == decimal(session_id as nat));
    lemma_parse_flags_of(preopens, seq![], ipc_socket);
    assert(Seq::<(Seq<char>, Seq<char>, bool)>::empty() + preopens =~= preopens);
    match ipc_socket {
        Some(s) => {
            let rest = args.skip(3);
            assert(rest =~= seq!["--ipc-socket"@, s] + preopen_flags(preopens));
            assert(rest.skip(2) =~= preopen_flags(preopens));
            assert(!(rest[0] =~= "--preopen"@)) by {
                assert(rest[0].len() != "--preopen"@.len());
            }
            assert(!(rest[0] =~= "--preopen-ro"@)) by {
                assert(rest[0][2] != "--preopen-ro"@[2]);
            }
            lemma_parse_flags_of(preopens, seq![], Some(s));
        },
        None => {
            assert(args.skip(3) =~= preopen_flags(preopens));
        },
    }
}

/// A line of the IPC socket: up to the first newline, without the newline
/// and any carriage returns just before it.
pub open spec fn strip_trailing_crs(l: Seq<u8>) -> Seq<u8>
    decreases l.len(),
{
    if l.len() > 0 && l.last() == 13u8 {
        strip_trailing_crs(l.drop_last())
    } else {
        l
    }
}

/// The index of the first newline byte, if any.
pub open spec fn first_newline(b: Seq<u8>) -> Option<int> {
    if exists|i: int| 0 <= i < b.len() && b[i] == 10u8 {
        Some(choose|i: int| 0 <= i < b.len() && b[i] == 10u8 && forall|j: int| 0 <= j < i ==> b[j] != 10u8)
    } else {
        None
    }
}

/// Takes the first complete line off the receive buffer, if there is one.
pub fn take_line(buf: &mut Vec<u8>) -> (r: Option<Vec<u8>>)
    ensures
        match first_newline(old(buf)@) {
            Some(p) => r matches Some(l) && l@ == strip_trailing_crs(old(buf)@.take(p))
                && final(buf)@ == old(buf)@.skip(p + 1),
            None => r is None && final(buf)@ == old(buf)@,
        },
{
    let mut p: usize = 0;
    while p < buf.len() && buf[p] != 10u8
        invariant
            p <= buf@.len(),
            forall|j: int| 0 <= j < p ==> buf@[j] != 10u8,
        decreases buf@.len() - p,
    {
        p = p + 1;
    }
    if p == buf.len() {
        return None;
    }
    proof {
        let b = buf@;
        assert(b[p as int] == 10u8);
        assert(0 <= p < b.len() && b[p as int] == 10u8 && forall|j: int| 0 <= j < p ==> b[j] != 10u8);
        let c = choose|i: int|
            0 <= i < b.len() && b[i] == 10u8 && forall|j: int| 0 <= j < i ==> b[j] != 10u8;
        if c < p {
            assert(b[c] != 10u8);
        } else if c > p {
            assert(b[p as int] != 10u8);
        }
        assert(first_newline(b) == Some(p as int));
    }
    let ghost orig = buf@;
    let mut line = buf.split_off(p + 1);
    std::mem::swap(&mut line, buf);
    line.pop();
    assert(line@ =~= orig.take(p as int));
    let ghost full = line@;
    while line.len() > 0 && line[line.len() - 1] == 13u8
        invariant
            strip_trailing_crs(full) == strip_trailing_crs(line@),
        decreases line@.len(),
    {
        let ghost before = line@;
        line.pop();
        assert(line@ =~= before.drop_last());
    }
    Some(line)
}

/// `String::from_utf8`. Claimed: it succeeds exactly on valid UTF-8, giving the decoded text.
#[verifier::external_body]
fn utf8_to_string(bytes: Vec<u8>) -> (r: Option<String>)
    ensures
        r is Some <==> vstd::utf8::valid_utf8(bytes@),
        r matches Some(s) ==> s@ == vstd::utf8::decode_utf8(bytes@),
{
    String::from_utf8(bytes).ok()
}

/// The next message on the IPC socket: the first complete line, consumed;
/// none when it is not valid UTF-8 (it is dropped all the same) or when no
/// line is complete yet.
pub fn next_ipc_message(buf: &mut Vec<u8>) -> (r: Option<String>)
    ensures
        match first_newline(old(buf)@) {
            Some(p) => final(buf)@ == old(buf)@.skip(p + 1) && (r is Some <==> vstd::utf8::valid_utf8(
                strip_trailing_crs(old(buf)@.take(p)),
            )) && (r matches Some(s) ==> s@ == vstd::utf8::decode_utf8(
                strip_trailing_crs(old(buf)@.take(p)),
            )),
            None => r is None && final(buf)@ == old(buf)@,
        },
{
    match take_line(buf) {
        Some(l) => utf8_to_string(l),
        None => None,
    }
}

/// The `notify-send` arguments for a notification.
pub fn notify_args(title: &str, body: &str, icon: Option<&str>) -> (r: Vec<String>)
    ensures
        strs_view(r@) == match icon {
            Some(i) => seq!["--icon"@, i@],
            None => seq![],
        } + seq!["--"@, title@, body@],
{
    let mut v: Vec<String> = Vec::new();
    match icon {
        Some(i) => {
            v.push("--icon".to_owned());
            v.push(i.to_owned());
        },
        None => {},
    }
    v.push("--".to_owned());
    v.push(title.to_owned());
    v.push(body.to_owned());
    assert(strs_view(v@) =~= match icon {
        Some(i) => seq!["--icon"@, i@],
        None => seq![],
    } + seq!["--"@, title@, body@]);
    v
}

} // verus!
