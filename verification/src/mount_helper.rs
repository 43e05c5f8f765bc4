//! The setuid mount helper: its command line, the root check, the
//! device-mapper name of a mount point and the commands it runs.
use vstd::prelude::*;

use crate::lines::{
    first_with_prefix, has_prefix, lines_of, split_lines, split_words, starts_with_str, words_of,
};
use crate::path::{push_char, push_str};
use crate::text::{decimal, parse_u32, parse_unsigned, push_decimal, str_eq, strs_view};

verus! {

pub open spec fn is_ascii_alnum(c: char) -> bool {
    ('a' <= c && c <= 'z') || ('A' <= c && c <= 'Z') || ('0' <= c && c <= '9')
}

/// Every character that is not an ASCII letter or digit becomes `-`.
pub open spec fn sanitize(s: Seq<char>) -> Seq<char> {
    s.map_values(|c: char| if is_ascii_alnum(c) { c } else { '-' })
}

/// Leading `-` removed.
pub open spec fn trim_dashes_start(s: Seq<char>) -> Seq<char>
    decreases s.len(),
{
    if s.len() > 0 && s[0] == '-' {
        trim_dashes_start(s.drop_first())
    } else {
        s
    }
}

/// Trailing `-` removed.
pub open spec fn trim_dashes_end(s: Seq<char>) -> Seq<char>
    decreases s.len(),
{
    if s.len() > 0 && s.last() == '-' {
        trim_dashes_end(s.drop_last())
    } else {
        s
    }
}

/// At most the first 26 characters.
pub open spec fn take26(s: Seq<char>) -> Seq<char> {
    if s.len() <= 26 {
        s
    } else {
        s.take(26)
    }
}

/// The device-mapper name for a mount point: `weft-` and the sanitized
/// path with its dashes trimmed, cut to 26 characters, trailing dashes trimmed again.
pub open spec fn device_name_spec(mountpoint: Seq<char>) -> Seq<char> {
    "weft-"@ + trim_dashes_end(take26(trim_dashes_end(trim_dashes_start(sanitize(mountpoint)))))
}

proof fn lemma_trim_start_subrange(s: Seq<char>)
    ensures
        exists|k: int| 0 <= k <= s.len() && trim_dashes_start(s) == s.skip(k),
    decreases s.len(),
{
    if s.len() > 0 && s[0] == '-' {
        lemma_trim_start_subrange(s.drop_first());
        let k = choose|k: int|
            0 <= k <= s.drop_first().len() && trim_dashes_start(s.drop_first())
                == s.drop_first().skip(k);
        assert(s.drop_first().skip(k) =~= s.skip(k + 1));
    } else {
        assert(s.skip(0) =~= s);
    }
}

proof fn lemma_trim_end_prefix(s: Seq<char>)
    ensures
        exists|k: int| 0 <= k <= s.len() && trim_dashes_end(s) == s.take(k),
    decreases s.len(),
{
    if s.len() > 0 && s.last() == '-' {
        lemma_trim_end_prefix(s.drop_last());
        let k = choose|k: int|
            0 <= k <= s.drop_last().len() && trim_dashes_end(s.drop_last()) == s.drop_last().take(
                k,
            );
        assert(s.drop_last().take(k) =~= s.take(k));
    } else {
        assert(s.take(s.len() as int) =~= s);
    }
}

fn sanitize_exec(s: &str) -> (r: String)
    ensures
        r@ == sanitize(s@),
{
    let n = s.unicode_len();
    let mut out = String::new();
    let mut i: usize = 0;
    while i < n
        invariant
            n == s@.len(),
            i <= n,
            out@ == sanitize(s@.take(i as int)),
        decreases n - i,
    {
        let c = s.get_char(i);
        if ('a' <= c && c <= 'z') || ('A' <= c && c <= 'Z') || ('0' <= c && c <= '9') {
            push_char(&mut out, c);
        } else {
            push_char(&mut out, '-');
        }
        assert(sanitize(s@.take(i + 1)) =~= sanitize(s@.take(i as int)).push(
            if is_ascii_alnum(c) {
                c
            } else {
                '-'
            },
        ));
        i = i + 1;
    }
    assert(s@.take(n as int) =~= s@);
    out
}

fn trim_dashes_exec(s: &str, front: bool) -> (r: String)
    ensures
        front ==> r@ == trim_dashes_end(trim_dashes_start(s@)),
        !front ==> r@ == trim_dashes_end(s@),
{
    let n = s.unicode_len();
    let mut i: usize = 0;
    assert(s@.skip(0) =~= s@);
    if front {
        while i < n && s.get_char(i) == '-'
            invariant
                n == s@.len(),
                i <= n,
                trim_dashes_start(s@) == trim_dashes_start(s@.skip(i as int)),
            decreases n - i,
        {
            assert(s@.skip(i as int).drop_first() =~= s@.skip(i + 1));
            i = i + 1;
        }
    }
    let ghost t = s@.skip(i as int);
    assert(front ==> trim_dashes_start(s@) == t);
    assert(!front ==> s@ == t);
    let mut j: usize = n;
    assert(t.take(t.len() as int) =~= t);
    while j > i && s.get_char(j - 1) == '-'
        invariant
            n == s@.len(),
            i <= j <= n,
            t == s@.skip(i as int),
            trim_dashes_end(t) == trim_dashes_end(t.take(j - i)),
        decreases j,
    {
        assert(t.take(j - i).drop_last() =~= t.take(j - 1 - i));
        assert(t.take(j - i).last() == s@[j - 1]);
        j = j - 1;
    }
    assert(t.take(j - i) =~= s@.subrange(i as int, j as int));
    s.substring_char(i, j).to_owned()
}

/// The device-mapper name of a mount point. It starts with `weft-`, holds
/// only ASCII letters, digits and `-`, and has at most 31 characters.
pub fn device_name(mountpoint: &str) -> (r: String)
    ensures
        r@ == device_name_spec(mountpoint@),
        r@.len() <= 31,
        has_prefix(r@, "weft-"@),
        forall|i: int| 0 <= i < r@.len() ==> is_ascii_alnum(#[trigger] r@[i]) || r@[i] == '-',
{
    let sanitized = sanitize_exec(mountpoint);
    let trimmed = trim_dashes_exec(sanitized.as_str(), true);
    let k = trimmed.as_str().unicode_len();
    let cut = if k <= 26 { k } else { 26 };
    let taken = trimmed.as_str().substring_char(0, cut);
    assert(taken@ =~= take26(trimmed@));
    let suffix = trim_dashes_exec(taken, false);
    let mut name = "weft-".to_owned();
    push_str(&mut name, suffix.as_str());
    proof {
        reveal_strlit("weft-");
        let san = sanitize(mountpoint@);
        assert forall|i: int| 0 <= i < san.len() implies is_ascii_alnum(#[trigger] san[i])
            || san[i] == '-' by {}
        lemma_trim_start_subrange(san);
        let ts = trim_dashes_start(san);
        let k1 = choose|k: int| 0 <= k <= san.len() && ts == san.skip(k);
        lemma_trim_end_prefix(ts);
        let te = trim_dashes_end(ts);
        let k2 = choose|k: int| 0 <= k <= ts.len() && te == ts.take(k);
        let tk = take26(te);
        lemma_trim_end_prefix(tk);
        let fin = trim_dashes_end(tk);
        let k3 = choose|k: int| 0 <= k <= tk.len() && fin == tk.take(k);
        assert(fin.len() <= 26);
        assert forall|i: int| 0 <= i < fin.len() implies is_ascii_alnum(#[trigger] fin[i])
            || fin[i] == '-' by {
            assert(fin[i] == tk[i]);
            assert(tk[i] == te[i]);
            assert(te[i] == ts[i]);
            assert(ts[i] == san[i + k1]);
        }
        assert(name@ =~= device_name_spec(mountpoint@));
        assert(name@.subrange(0, 5) =~= "weft-"@);
        assert forall|i: int| 0 <= i < name@.len() implies is_ascii_alnum(#[trigger] name@[i])
            || name@[i] == '-' by {
            if i >= 5 {
                assert(name@[i] == fin[i - 5]);
            }
        }
    }
    name
}

/// The effective user id in `/proc/self/status` text: the third
/// whitespace-separated field of the first line that starts with `Uid:`.
pub open spec fn effective_uid_spec(status: Seq<char>) -> Option<int> {
    match first_with_prefix(lines_of(status), "Uid:"@) {
        Some(i) => {
            let w = words_of(lines_of(status)[i]);
            if w.len() > 2 {
                parse_unsigned(w[2], u32::MAX as int)
            } else {
                None
            }
        },
        None => None,
    }
}

/// Reads the effective user id out of `/proc/self/status` text.
pub fn effective_uid(status: &str) -> (r: Option<u32>)
    ensures
        match r {
            Some(u) => effective_uid_spec(status@) == Some(u as int),
            None => effective_uid_spec(status@) is None,
        },
{
    let lines = split_lines(status);
    let ghost lv = strs_view(lines@);
    let mut i: usize = 0;
    while i < lines.len()
        invariant
            i <= lines@.len(),
            lv == strs_view(lines@),
            lv == lines_of(status@),
            forall|j: int| 0 <= j < i ==> !has_prefix(#[trigger] lv[j], "Uid:"@),
        decreases lines@.len() - i,
    {
        if starts_with_str(lines[i].as_str(), "Uid:") {
            proof {
                assert(lv[i as int] == lines@[i as int]@);
                assert(has_prefix(lv[i as int], "Uid:"@));
                let c = choose|k: int|
                    0 <= k < lv.len() && has_prefix(#[trigger] lv[k], "Uid:"@) && forall|j: int|
                        0 <= j < k ==> !has_prefix(#[trigger] lv[j], "Uid:"@);
                assert(first_with_prefix(lv, "Uid:"@) == Some(c));
                if c < i {
                } else if c > i {
                    assert(!has_prefix(lv[i as int], "Uid:"@));
                }
                assert(c == i);
            }
            let words = split_words(lines[i].as_str());
            if words.len() > 2 {
                assert(strs_view(words@)[2] == words@[2]@);
                return parse_u32(words[2].as_str());
            }
            return None;
        }
        i = i + 1;
    }
    assert(!exists|k: int| 0 <= k < lv.len() && has_prefix(#[trigger] lv[k], "Uid:"@));
    None
}

/// The error text when the helper does not run as root.
pub open spec fn not_root_text(uid: Option<u32>) -> Seq<char> {
    match uid {
        Some(u) => "weft-mount-helper must run as root (euid="@ + decimal(u as nat) + ")"@,
        None => "weft-mount-helper must run as root (could not read /proc/self/status)"@,
    }
}

/// Refuses to go on unless the effective user id is 0.
pub fn require_root(uid: Option<u32>) -> (r: Result<(), String>)
    ensures
        uid == Some(0u32) ==> r is Ok,
        uid != Some(0u32) ==> (r matches Err(m) && m@ == not_root_text(uid)),
{
    match uid {
        Some(0) => Ok(()),
        Some(u) => {
            let mut m = "weft-mount-helper must run as root (euid=".to_owned();
            push_decimal(&mut m, u as u64);
            push_str(&mut m, ")");
            Err(m)
        },
        None => Err("weft-mount-helper must run as root (could not read /proc/self/status)".to_owned()),
    }
}

/// A helper invocation.
pub enum HelperCommand {
    Mount { img: String, hash_dev: String, root_hash: String, mountpoint: String },
    Umount { mountpoint: String },
    /// No or an unknown subcommand: print the usage and exit with status 1.
    Usage,
}

pub open spec fn mount_usage() -> Seq<char> {
    "usage: weft-mount-helper mount <img> <hash_dev> <root_hash> <mountpoint>"@
}

/// Reads the helper's command line (the program name first).
pub fn parse_helper_args(args: &[String]) -> (r: Result<HelperCommand, String>)
    ensures
        args@.len() >= 2 && args@[1]@ == "mount"@ ==> match r {
            Ok(HelperCommand::Mount { img, hash_dev, root_hash, mountpoint }) => args@.len() >= 6
                && img@ == args@[2]@ && hash_dev@ == args@[3]@ && root_hash@ == args@[4]@
                && mountpoint@ == args@[5]@,
            Err(m) => (args@.len() < 3 && m@ == mount_usage()) || (args@.len() == 3 && m@
                == "missing <hash_dev>"@) || (args@.len() == 4 && m@ == "missing <root_hash>"@)
                || (args@.len() == 5 && m@ == "missing <mountpoint>"@),
            _ => false,
        },
        args@.len() >= 2 && args@[1]@ == "umount"@ ==> match r {
            Ok(HelperCommand::Umount { mountpoint }) => args@.len() >= 3 && mountpoint@
                == args@[2]@,
            Err(m) => args@.len() < 3 && m@ == "usage: weft-mount-helper umount <mountpoint>"@,
            _ => false,
        },
        !(args@.len() >= 2 && (args@[1]@ == "mount"@ || args@[1]@ == "umount"@)) ==> r matches Ok(
            HelperCommand::Usage,
        ),
{
    proof {
        reveal_strlit("mount");
        reveal_strlit("umount");
        assert("mount"@.len() == 5 && "umount"@.len() == 6);
        assert("mount"@ != "umount"@);
    }
    if args.len() < 2 {
        return Ok(HelperCommand::Usage);
    }
    if str_eq(args[1].as_str(), "mount") {
        if args.len() < 3 {
            return Err(
                "usage: weft-mount-helper mount <img> <hash_dev> <root_hash> <mountpoint>".to_owned(),
            );
        }
        if args.len() < 4 {
            return Err("missing <hash_dev>".to_owned());
        }
        if args.len() < 5 {
            return Err("missing <root_hash>".to_owned());
        }
        if args.len() < 6 {
            return Err("missing <mountpoint>".to_owned());
        }
        return Ok(
            HelperCommand::Mount {
                img: args[2].clone(),
                hash_dev: args[3].clone(),
                root_hash: args[4].clone(),
                mountpoint: args[5].clone(),
            },
        );
    }
    if str_eq(args[1].as_str(), "umount") {
        if args.len() < 3 {
            return Err("usage: weft-mount-helper umount <mountpoint>".to_owned());
        }
        return Ok(HelperCommand::Umount { mountpoint: args[2].clone() });
    }
    Ok(HelperCommand::Usage)
}

/// `veritysetup open <img> <name> <hash_dev> <root_hash>`.
pub fn verity_open_args(img: &str, dev_name: &str, hash_dev: &str, root_hash: &str) -> (r: Vec<
    String,
>)
    ensures
        strs_view(r@) == seq!["open"@, img@, dev_name@, hash_dev@, root_hash@],
{
    let mut v: Vec<String> = Vec::new();
    v.push("open".to_owned());
    v.push(img.to_owned());
    v.push(dev_name.to_owned());
    v.push(hash_dev.to_owned());
    v.push(root_hash.to_owned());
    assert(strs_view(v@) =~= seq!["open"@, img@, dev_name@, hash_dev@, root_hash@]);
    v
}

/// `veritysetup close <name>`.
pub fn verity_close_args(dev_name: &str) -> (r: Vec<String>)
    ensures
        strs_view(r@) == seq!["close"@, dev_name@],
{
    let mut v: Vec<String> = Vec::new();
    v.push("close".to_owned());
    v.push(dev_name.to_owned());
    assert(strs_view(v@) =~= seq!["close"@, dev_name@]);
    v
}

/// `mount -t erofs -o ro /dev/mapper/<name> <mountpoint>`.
pub fn erofs_mount_args(dev_name: &str, mountpoint: &str) -> (r: Vec<String>)
    ensures
        strs_view(r@) == seq!["-t"@, "erofs"@, "-o"@, "ro"@, "/dev/mapper/"@ + dev_name@, mountpoint@],
{
    let mut mapper = "/dev/mapper/".to_owned();
    push_str(&mut mapper, dev_name);
    let mut v: Vec<String> = Vec::new();
    v.push("-t".to_owned());
    v.push("erofs".to_owned());
    v.push("-o".to_owned());
    v.push("ro".to_owned());
    v.push(mapper);
    v.push(mountpoint.to_owned());
    assert(strs_view(v@) =~= seq![
        "-t"@,
        "erofs"@,
        "-o"@,
        "ro"@,
        "/dev/mapper/"@ + dev_name@,
        mountpoint@,
    ]);
    v
}

/// Where a mount or an unmount stands: which program the helper last ran.
pub enum HelperStep {
    /// `veritysetup open` for a mount.
    OpenVerity,
    /// `mount -t erofs` of the verity device.
    MountErofs,
    /// `veritysetup close` after the erofs mount failed with `mount_status`.
    CloseAfterFailedMount { mount_status: String },
    /// `umount` of the mount point.
    Unmount,
    /// `veritysetup close` after the unmount.
    CloseVerity,
}

/// How a program the helper ran ended: it exited (successfully or not, with
/// the status as printed), or it could not be started.
pub enum RunOutcome {
    Exited { success: bool, status: String },
    NotStarted,
}

/// What the helper does next: run `program` with `args` and report how it
/// ended as `step`; stop with an error; or finish, printing a message.
pub enum HelperAction {
    Run { program: String, args: Vec<String>, step: HelperStep },
    Fail(String),
    Finish(String),
}

/// The first thing a mount does: refuse unless root, else open the verity
/// device named after the mount point.
pub fn begin_mount(
    uid: Option<u32>,
    img: &str,
    hash_dev: &str,
    root_hash: &str,
    mountpoint: &str,
) -> (r: HelperAction)
    ensures
        uid != Some(0u32) ==> (r matches HelperAction::Fail(m) && m@ == not_root_text(uid)),
        uid == Some(0u32) ==> (r matches HelperAction::Run { program, args, step } && program@
            == "veritysetup"@ && strs_view(args@) == seq![
            "open"@,
            img@,
            device_name_spec(mountpoint@),
            hash_dev@,
            root_hash@,
        ] && step is OpenVerity),
{
    match require_root(uid) {
        Err(m) => HelperAction::Fail(m),
        Ok(()) => {
            let dev = device_name(mountpoint);
            HelperAction::Run {
                program: "veritysetup".to_owned(),
                args: verity_open_args(img, dev.as_str(), hash_dev, root_hash),
                step: HelperStep::OpenVerity,
            }
        },
    }
}

/// The first thing an unmount does: refuse unless root, else unmount.
pub fn begin_umount(uid: Option<u32>, mountpoint: &str) -> (r: HelperAction)
    ensures
        uid != Some(0u32) ==> (r matches HelperAction::Fail(m) && m@ == not_root_text(uid)),
        uid == Some(0u32) ==> (r matches HelperAction::Run { program, args, step } && program@
            == "umount"@ && strs_view(args@) == seq![mountpoint@] && step is Unmount),
{
    match require_root(uid) {
        Err(m) => HelperAction::Fail(m),
        Ok(()) => {
            let mut args: Vec<String> = Vec::new();
            args.push(mountpoint.to_owned());
            assert(strs_view(args@) =~= seq![mountpoint@]);
            HelperAction::Run { program: "umount".to_owned(), args, step: HelperStep::Unmount }
        },
    }
}

fn run_action(program: &str, args: Vec<String>, step: HelperStep) -> (r: HelperAction)
    ensures
        r matches HelperAction::Run { program: p, args: a, step: s } && p@ == program@ && a@
            == args@ && s == step,
{
    HelperAction::Run { program: program.to_owned(), args, step }
}

fn fail_with_status(prefix: &str, status: &str) -> (r: HelperAction)
    ensures
        r matches HelperAction::Fail(m) && m@ == prefix@ + status@,
{
    let mut m = prefix.to_owned();
    push_str(&mut m, status);
    HelperAction::Fail(m)
}

/// The next action once the program run for `step` has ended, for a mount
/// of `img` at `mountpoint` or an unmount of `mountpoint` (`img` unused).
/// A program that cannot be started, or that fails, stops the helper with
/// an error, except that a failed erofs mount first closes the verity
/// device again and then reports the mount's status.
pub fn after_run(step: HelperStep, outcome: RunOutcome, img: &str, mountpoint: &str) -> (r:
    HelperAction)
    ensures
        match (step, outcome) {
            (HelperStep::OpenVerity, RunOutcome::NotStarted) => r matches HelperAction::Fail(m)
                && m@ == "spawn veritysetup; ensure cryptsetup-bin is installed"@,
            (HelperStep::OpenVerity, RunOutcome::Exited { success, status }) => if success {
                r matches HelperAction::Run { program, args, step } && program@ == "mount"@
                    && strs_view(args@) == seq![
                    "-t"@,
                    "erofs"@,
                    "-o"@,
                    "ro"@,
                    "/dev/mapper/"@ + device_name_spec(mountpoint@),
                    mountpoint@,
                ] && step is MountErofs
            } else {
                r matches HelperAction::Fail(m) && m@ == "veritysetup open failed with status "@
                    + status@
            },
            (HelperStep::MountErofs, RunOutcome::NotStarted) => r matches HelperAction::Fail(m)
                && m@ == "spawn mount"@,
            (HelperStep::MountErofs, RunOutcome::Exited { success, status }) => if success {
                r matches HelperAction::Finish(m) && m@ == "mounted: "@ + img@ + " -> "@
                    + mountpoint@
            } else {
                r matches HelperAction::Run { program, args, step } && program@
                    == "veritysetup"@ && strs_view(args@) == seq![
                    "close"@,
                    device_name_spec(mountpoint@),
                ] && (step matches HelperStep::CloseAfterFailedMount { mount_status }
                    && mount_status@ == status@)
            },
            (HelperStep::CloseAfterFailedMount { mount_status }, _) => r matches HelperAction::Fail(
                m,
            ) && m@ == "mount failed with status "@ + mount_status@,
            (HelperStep::Unmount, RunOutcome::NotStarted) => r matches HelperAction::Fail(m)
                && m@ == "spawn umount"@,
            (HelperStep::Unmount, RunOutcome::Exited { success, status }) => if success {
                r matches HelperAction::Run { program, args, step } && program@
                    == "veritysetup"@ && strs_view(args@) == seq![
                    "close"@,
                    device_name_spec(mountpoint@),
                ] && step is CloseVerity
            } else {
                r matches HelperAction::Fail(m) && m@ == "umount failed with status "@ + status@
            },
            (HelperStep::CloseVerity, RunOutcome::NotStarted) => r matches HelperAction::Fail(m)
                && m@ == "spawn veritysetup close; ensure cryptsetup-bin is installed"@,
            (HelperStep::CloseVerity, RunOutcome::Exited { success, status }) => if success {
                r matches HelperAction::Finish(m) && m@ == "unmounted: "@ + mountpoint@
            } else {
                r matches HelperAction::Fail(m) && m@ == "veritysetup close failed with status "@
                    + status@
            },
        },
{
    match step {
        HelperStep::OpenVerity => match outcome {
            RunOutcome::NotStarted => HelperAction::Fail(
                "spawn veritysetup; ensure cryptsetup-bin is installed".to_owned(),
            ),
            RunOutcome::Exited { success, status } => {
                if success {
                    let dev = device_name(mountpoint);
                    run_action("mount", erofs_mount_args(dev.as_str(), mountpoint), HelperStep::MountErofs)
                } else {
                    fail_with_status("veritysetup open failed with status ", status.as_str())
                }
            },
        },
        HelperStep::MountErofs => match outcome {
            RunOutcome::NotStarted => HelperAction::Fail("spawn mount".to_owned()),
            RunOutcome::Exited { success, status } => {
                if success {
                    let mut m = "mounted: ".to_owned();
                    push_str(&mut m, img);
                    push_str(&mut m, " -> ");
                    push_str(&mut m, mountpoint);
                    HelperAction::Finish(m)
                } else {
                    let dev = device_name(mountpoint);
                    run_action(
                        "veritysetup",
                        verity_close_args(dev.as_str()),
                        HelperStep::CloseAfterFailedMount { mount_status: status },
                    )
                }
            },
        },
        HelperStep::CloseAfterFailedMount { mount_status } => {
            fail_with_status("mount failed with status ", mount_status.as_str())
        },
        HelperStep::Unmount => match outcome {
            RunOutcome::NotStarted => HelperAction::Fail("spawn umount".to_owned()),
            RunOutcome::Exited { success, status } => {
                if success {
                    let dev = device_name(mountpoint);
                    run_action("veritysetup", verity_close_args(dev.as_str()), HelperStep::CloseVerity)
                } else {
                    fail_with_status("umount failed with status ", status.as_str())
                }
            },
        },
        HelperStep::CloseVerity => match outcome {
            RunOutcome::NotStarted => HelperAction::Fail(
                "spawn veritysetup close; ensure cryptsetup-bin is installed".to_owned(),
            ),
            RunOutcome::Exited { success, status } => {
                if success {
                    let mut m = "unmounted: ".to_owned();
                    push_str(&mut m, mountpoint);
                    HelperAction::Finish(m)
                } else {
                    fail_with_status("veritysetup close failed with status ", status.as_str())
                }
            },
        },
    }
}

} // verus!
