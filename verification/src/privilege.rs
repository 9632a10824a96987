//! Getting access to a node that only root may open: which helper is run, with
//! which arguments, and what its outcome means.
use crate::protocol::Error;
use crate::text::{
    chars_of, control_char, push_signed, split_lines, string_of, trimmed, utf8_lossy,
};
use vstd::prelude::*;

verus! {

/// Directories a root-executed helper may come from, in order. Never `PATH`: the
/// session `PATH` puts user-writable directories first, so a planted `chmod`
/// there would run as root. `/run/wrappers/bin` is first because the store's
/// `pkexec` is not setuid and refuses to run.
pub const SYSTEM_BIN_DIRS: [&'static str; 6] = [
    "/run/wrappers/bin",
    "/run/current-system/sw/bin",  // the NixOS system profile
    "/nix/var/nix/profiles/default/bin",
    "/usr/bin",
    "/bin",
    "/usr/sbin",
];

/// How long an unanswered polkit prompt is waited for.
pub const ESCALATION_TIMEOUT_SECS: u64 = 120;

/// What the file system says of a candidate, symbolic links followed.
#[derive(Debug, Clone, Copy, PartialEq, Eq)]
pub struct FileFacts {
    pub is_file: bool,
    pub uid: u32,
    pub mode: u32,
}

/// Whether a candidate may be run as root: a file of root's that neither its
/// group (bit 4 of the mode) nor others (bit 1) can write.
pub open spec fn is_trusted(facts: FileFacts) -> bool {
    facts.is_file && facts.uid == 0 && facts.mode / 16 % 2 == 0 && facts.mode / 2 % 2 == 0
}

/// Whether the directory at `i` holds a candidate that may be run.
pub open spec fn trusted_at(facts: Seq<Option<FileFacts>>, i: int) -> bool {
    0 <= i < SYSTEM_BIN_DIRS@.len() && i < facts.len() && (facts[i] matches Some(f)
        && is_trusted(f))
}

/// The path of a program in a directory; an absolute program is its own path.
pub open spec fn joined(dir: Seq<char>, program: Seq<char>) -> Seq<char> {
    if program.len() > 0 && program[0] == '/' {
        program
    } else {
        dir + "/"@ + program
    }
}

fn trusted(facts: &FileFacts) -> (yes: bool)
    ensures
        yes == is_trusted(*facts),
{
    let mode = facts.mode;
    assert((mode & 0o022 == 0) == (mode / 16 % 2 == 0 && mode / 2 % 2 == 0)) by (bit_vector);
    facts.is_file && facts.uid == 0 && mode & 0o022 == 0
}

/// The first trusted candidate for a program, where `facts` says what was found
/// for it in each of [`SYSTEM_BIN_DIRS`].
pub fn system_program(program: &str, facts: &Vec<Option<FileFacts>>) -> (path: Option<String>)
    ensures
        match path {
            Some(p) => exists|i: int| #[trigger]
                trusted_at(facts@, i) && (forall|j: int|
                    0 <= j < i ==> !#[trigger] trusted_at(facts@, j)) && p@ == joined(
                    SYSTEM_BIN_DIRS@[i]@,
                    program@,
                ),
            None => forall|i: int| !#[trigger] trusted_at(facts@, i),
        },
{
    let mut i: usize = 0;
    while i < 6 && i < facts.len()
        invariant
            i <= 6,
            i <= facts@.len(),
            forall|j: int| 0 <= j < i ==> !#[trigger] trusted_at(facts@, j),
        decreases 6 - i,
    {
        match &facts[i] {
            Some(f) => {
                if trusted(f) {
                    let mut path = String::new();
                    let chars = chars_of(program);
                    if chars.len() == 0 || chars[0] != '/' {
                        path.append(SYSTEM_BIN_DIRS[i]);
                        path.append("/");
                    }
                    path.append(program);
                    proof {
                        assert(path@ =~= joined(SYSTEM_BIN_DIRS@[i as int]@, program@));
                        assert(trusted_at(facts@, i as int));
                    }
                    return Some(path);
                }
            },
            None => {},
        }
        i += 1;
    }
    None
}

/// Every directory a helper may come from is absolute, so that no candidate is
/// looked for through `PATH` or the working directory.
pub proof fn law_helpers_have_absolute_paths(program: Seq<char>, i: int)
    requires
        0 <= i < SYSTEM_BIN_DIRS@.len(),
    ensures
        SYSTEM_BIN_DIRS@[i]@.len() > 0,
        SYSTEM_BIN_DIRS@[i]@[0] == '/',
        joined(SYSTEM_BIN_DIRS@[i]@, program)[0] == '/',
{
    reveal_strlit("/run/wrappers/bin");
    reveal_strlit("/run/current-system/sw/bin");
    reveal_strlit("/nix/var/nix/profiles/default/bin");
    reveal_strlit("/usr/bin");
    reveal_strlit("/bin");
    reveal_strlit("/usr/sbin");
    assert(i == 0 || i == 1 || i == 2 || i == 3 || i == 4 || i == 5);
}

/// The arguments that make `chmod` open a node to everyone. The name comes
/// first where the canonical path is not `chmod` itself.
pub open spec fn chmod_arguments(canonical_name: Option<Seq<char>>, node: Seq<char>) -> Seq<
    Seq<char>,
> {
    if canonical_name == Some("chmod"@) {
        seq!["a+rw"@, "--"@, node]
    } else {
        seq!["chmod"@, "a+rw"@, "--"@, node]
    }
}

/// The text of an optional string.
pub open spec fn opt_view(s: Option<String>) -> Option<Seq<char>> {
    match s {
        Some(s) => Some(s@),
        None => None,
    }
}

/// The arguments handed to `chmod`. The name is repeated when the canonical path
/// is not `chmod` itself, because coreutils here is a multicall binary that then
/// reads the program name from `argv[1]`.
pub fn chmod_args(canonical_name: &Option<String>, node: &str) -> (args: Vec<String>)
    ensures
        crate::text::views(args@) == chmod_arguments(opt_view(*canonical_name), node@),
{
    let mut args: Vec<String> = Vec::new();
    let plain = match canonical_name {
        Some(name) => *name == "chmod".to_string(),
        None => false,
    };
    if !plain {
        args.push("chmod".to_string());
    }
    args.push("a+rw".to_string());
    args.push("--".to_string());
    args.push(node.to_string());
    proof {
        assert(crate::text::views(args@) =~= chmod_arguments(opt_view(*canonical_name), node@));
    }
    args
}

// ---------------------------------------------------------------------------
// what the helper said
// ---------------------------------------------------------------------------

/// The first line of a text, without the white space around it.
pub open spec fn first_line(text: Seq<char>) -> Seq<char> {
    let lines = crate::text::lines(text);
    if lines.len() > 0 {
        crate::text::trim(lines[0])
    } else {
        Seq::empty()
    }
}

/// A text without its control characters.
pub open spec fn without_controls(s: Seq<char>) -> Seq<char>
    decreases s.len(),
{
    if s.len() == 0 {
        Seq::empty()
    } else if crate::text::is_control_char(s.last()) {
        without_controls(s.drop_last())
    } else {
        without_controls(s.drop_last()).push(s.last())
    }
}

/// At most the first 160 characters.
pub open spec fn cut(s: Seq<char>) -> Seq<char> {
    if s.len() > 160 {
        s.take(160)
    } else {
        s
    }
}

/// What is shown of a helper's message.
pub open spec fn detail_of(text: Seq<char>) -> Seq<char> {
    let cleaned = cut(without_controls(first_line(text)));
    if cleaned.len() == 0 {
        "no reason given"@
    } else {
        cleaned
    }
}

proof fn lemma_cut_of_prefix(s: Seq<char>, n: int)
    requires
        0 <= n <= s.len(),
        without_controls(s.take(n)).len() >= 160,
    ensures
        cut(without_controls(s)) == without_controls(s.take(n)).take(160),
    decreases s.len(),
{
    if n == s.len() {
        assert(s.take(n) =~= s);
        assert(cut(without_controls(s)) =~= without_controls(s).take(160));
    } else {
        let shorter = s.drop_last();
        assert(shorter.take(n) =~= s.take(n));
        lemma_cut_of_prefix(shorter, n);
        assert(without_controls(shorter).len() >= 160) by {
            if without_controls(shorter).len() < 160 {
                assert(cut(without_controls(shorter)).len() < 160);
            }
        }
        assert(cut(without_controls(s)) =~= cut(without_controls(shorter)));
    }
}

/// A message cut to one line and stripped of control characters before it can
/// reach the UI.
pub fn short_detail_text(text: &str) -> (detail: String)
    ensures
        detail@ == detail_of(text@),
{
    let list = split_lines(&chars_of(text));
    let ghost views = list@.map_values(|line: Vec<char>| line@);
    let line = if list.len() > 0 {
        proof {
            assert(views[0] == list@[0]@);
        }
        trimmed(&list[0])
    } else {
        Vec::new()
    };
    proof {
        assert(line@ =~= first_line(text@));
    }
    let mut cleaned: Vec<char> = Vec::new();
    let mut i: usize = 0;
    while i < line.len() && cleaned.len() < 160
        invariant
            i <= line@.len(),
            cleaned@.len() <= 160,
            cleaned@ == without_controls(line@.take(i as int)),
        decreases line@.len() - i,
    {
        proof {
            assert(line@.take(i as int + 1).drop_last() =~= line@.take(i as int));
        }
        if !control_char(line[i]) {
            cleaned.push(line[i]);
        }
        i += 1;
    }
    proof {
        if cleaned@.len() == 160 {
            lemma_cut_of_prefix(line@, i as int);
            assert(cleaned@.take(160) =~= cleaned@);
        } else {
            assert(line@.take(i as int) =~= line@);
        }
    }
    if cleaned.len() == 0 {
        "no reason given".to_string()
    } else {
        string_of(&cleaned)
    }
}

/// pkexec's own message: third-party text, so it is cut to one line and
/// stripped of control characters before it can reach the UI.
pub fn short_detail(stderr: &[u8]) -> (detail: String)
    ensures
        detail@ == detail_of(crate::text::lossy_utf8(stderr@)),
        vstd::utf8::valid_utf8(stderr@) ==> detail@ == detail_of(
            vstd::utf8::decode_utf8(stderr@),
        ),
{
    let text = utf8_lossy(stderr);
    short_detail_text(text.as_str())
}

proof fn lemma_without_controls(s: Seq<char>)
    ensures
        without_controls(s).len() <= s.len(),
        forall|i: int|
            0 <= i < without_controls(s).len() ==> !crate::text::is_control_char(
                #[trigger] without_controls(s)[i],
            ),
    decreases s.len(),
{
    if s.len() > 0 {
        lemma_without_controls(s.drop_last());
    }
}

/// Whatever a helper writes, what is shown of it is not empty, has at most 160
/// characters, and holds no control character, a line break among them.
pub proof fn law_detail_is_one_clean_line(text: Seq<char>)
    ensures
        0 < detail_of(text).len() <= 160,
        forall|i: int|
            0 <= i < detail_of(text).len() ==> !crate::text::is_control_char(
                #[trigger] detail_of(text)[i],
            ) && detail_of(text)[i] != '\n',
{
    reveal_strlit("no reason given");
    lemma_without_controls(first_line(text));
}

// ---------------------------------------------------------------------------
// the outcome
// ---------------------------------------------------------------------------

/// Why a helper that failed did so.
pub open spec fn refusal_text(code: Option<i32>, detail: Seq<char>) -> Seq<char> {
    match code {
        Some(code) => if code == 126 {
            "the polkit prompt was dismissed"@
        } else if code == 127 {
            "polkit refused the request ("@ + detail + ")"@
        } else {
            "the helper exited with "@ + crate::text::signed_decimal(code as int) + ": "@ + detail
        },
        None => "the helper was killed: "@ + detail,
    }
}

/// Whether an error is a failed escalation for the given reason.
pub open spec fn is_escalation(error: Error, reason: Seq<char>) -> bool {
    error matches Error::Escalation(r) && r@ == reason
}

/// Why a helper that exited with `code`, or was killed, failed. pkexec's own
/// codes: 126 the prompt was dismissed, 127 not authorised.
pub fn refusal(code: Option<i32>, detail: &str) -> (reason: String)
    ensures
        reason@ == refusal_text(code, detail@),
{
    let mut reason = String::new();
    match code {
        Some(code) => {
            if code == 126 {
                reason.append("the polkit prompt was dismissed");
            } else if code == 127 {
                reason.append("polkit refused the request (");
                reason.append(detail);
                reason.append(")");
            } else {
                reason.append("the helper exited with ");
                push_signed(&mut reason, code);
                reason.append(": ");
                reason.append(detail);
            }
        },
        None => {
            reason.append("the helper was killed: ");
            reason.append(detail);
        },
    }
    proof {
        assert(reason@ =~= refusal_text(code, detail@));
    }
    reason
}

/// What a finished run of the helper means.
pub fn run_privileged(success: bool, code: Option<i32>, stderr: &[u8]) -> (outcome: Result<
    (),
    Error,
>)
    ensures
        outcome is Ok <==> success,
        outcome matches Err(e) ==> is_escalation(
            e,
            refusal_text(code, detail_of(crate::text::lossy_utf8(stderr@))),
        ),
        outcome matches Err(e) ==> vstd::utf8::valid_utf8(stderr@) ==> is_escalation(
            e,
            refusal_text(code, detail_of(vstd::utf8::decode_utf8(stderr@))),
        ),
{
    if success {
        return Ok(());
    }
    let detail = short_detail(stderr);
    Err(Error::Escalation(refusal(code, detail.as_str())))
}

/// The failure to run the helper at all.
pub fn helper_not_run(text: &str) -> (error: Error)
    ensures
        is_escalation(error, "could not run pkexec: "@ + text@),
{
    let mut reason = String::new();
    reason.append("could not run pkexec: ");
    reason.append(text);
    proof {
        assert(reason@ =~= "could not run pkexec: "@ + text@);
    }
    Error::Escalation(reason)
}

/// The failure to start the thread that waits for the prompt.
pub fn helper_thread_not_started(text: &str) -> (error: Error)
    ensures
        is_escalation(error, "could not start the helper thread: "@ + text@),
{
    let mut reason = String::new();
    reason.append("could not start the helper thread: ");
    reason.append(text);
    proof {
        assert(reason@ =~= "could not start the helper thread: "@ + text@);
    }
    Error::Escalation(reason)
}

/// The command line that gives access to a node.
#[derive(Debug, PartialEq, Eq)]
pub struct Grant {
    pub pkexec: String,
    pub helper: String,
    pub args: Vec<String>,
}

/// Give `node` read and write access through polkit: the command line to run,
/// from what was found for `chmod` and `pkexec`. The grant lasts until the node
/// is re-created by a replug.
pub fn grant_access(
    chmod: Option<String>,
    canonical_name: &Option<String>,
    pkexec: Option<String>,
    node: &str,
) -> (grant: Result<Grant, Error>)
    ensures
        match (chmod, pkexec) {
            (Some(c), Some(p)) => grant matches Ok(g) && g.pkexec == p && g.helper == c
                && crate::text::views(g.args@) == chmod_arguments(
                opt_view(*canonical_name),
                node@,
            ),
            (None, _) => grant matches Err(e) && is_escalation(
                e,
                "chmod was not found in the system paths"@,
            ),
            (Some(_), None) => grant matches Err(e) && is_escalation(
                e,
                "pkexec was not found (is polkit installed?)"@,
            ),
        },
{
    match chmod {
        None => Err(
            Error::Escalation("chmod was not found in the system paths".to_string()),
        ),
        Some(helper) => match pkexec {
            None => Err(
                Error::Escalation("pkexec was not found (is polkit installed?)".to_string()),
            ),
            Some(pkexec) => Ok(Grant { pkexec, helper, args: chmod_args(canonical_name, node) }),
        },
    }
}

/// What came of a request for access: the helper's outcome, or `None` where it
/// did not answer in time.
pub fn grant_outcome(answer: Option<Result<(), Error>>) -> (outcome: Result<(), Error>)
    ensures
        match answer {
            Some(result) => outcome == result,
            None => outcome matches Err(e) && is_escalation(
                e,
                "no answer from polkit; the device stays read-only"@,
            ),
        },
{
    match answer {
        Some(result) => result,
        None => Err(
            Error::Escalation("no answer from polkit; the device stays read-only".to_string()),
        ),
    }
}

/// Whether a candidate is a file that root owns and that nobody else can write.
pub open spec fn only_roots(found: Option<FileFacts>) -> bool {
    found matches Some(f) && f.is_file && f.uid == 0 && f.mode & 0o022 == 0
}

/// The directory at `i`, in the order of the search.
pub open spec fn searched(i: int) -> Seq<char> {
    if i == 0 {
        "/run/wrappers/bin"@
    } else if i == 1 {
        "/run/current-system/sw/bin"@
    } else if i == 2 {
        "/nix/var/nix/profiles/default/bin"@
    } else if i == 3 {
        "/usr/bin"@
    } else if i == 4 {
        "/bin"@
    } else {
        "/usr/sbin"@
    }
}

proof fn lemma_only_roots(facts: Seq<Option<FileFacts>>, i: int)
    requires
        0 <= i < facts.len(),
        i < 6,
    ensures
        trusted_at(facts, i) <==> only_roots(facts[i]),
{
    if facts[i] is Some {
        let mode = facts[i]->0.mode;
        assert((mode & 0o022 == 0) == (mode / 16 % 2 == 0 && mode / 2 % 2 == 0)) by (bit_vector);
    }
}

/// The program that is run is the candidate in the first directory that holds a file
/// of root's which nobody else can write.
pub proof fn law_the_first_safe_candidate_is_run(
    program: &str,
    facts: Vec<Option<FileFacts>>,
    path: Option<String>,
    i: int,
)
    requires
        call_ensures(system_program, (program, &facts), path),
        0 <= i < facts@.len(),
        i < 6,
        only_roots(facts@[i]),
        forall|j: int| 0 <= j < i ==> !only_roots(#[trigger] facts@[j]),
    ensures
        path is Some,
        program@.len() > 0 && program@[0] == '/' ==> path->0@ == program@,
        program@.len() == 0 || program@[0] != '/' ==> path->0@ == searched(i) + "/"@ + program@,
{
    lemma_only_roots(facts@, i);
    assert(trusted_at(facts@, i));
    assert forall|j: int| 0 <= j < i implies !#[trigger] trusted_at(facts@, j) by {
        lemma_only_roots(facts@, j);
        assert(!only_roots(facts@[j]));
    }
    let at = choose|k: int| #[trigger]
        trusted_at(facts@, k) && (forall|j: int| 0 <= j < k ==> !#[trigger] trusted_at(facts@, j))
            && path->0@ == joined(SYSTEM_BIN_DIRS@[k]@, program@);
    assert(at == i);
    assert(i == 0 || i == 1 || i == 2 || i == 3 || i == 4 || i == 5);
    assert(SYSTEM_BIN_DIRS@[i]@ == searched(i));
}

/// Where no directory holds a file of root's which nobody else can write, nothing is
/// run.
pub proof fn law_an_unsafe_candidate_is_not_run(
    program: &str,
    facts: Vec<Option<FileFacts>>,
    path: Option<String>,
)
    requires
        call_ensures(system_program, (program, &facts), path),
        forall|i: int| 0 <= i < facts@.len() && i < 6 ==> !only_roots(#[trigger] facts@[i]),
    ensures
        path is None,
{
    assert forall|i: int| !#[trigger] trusted_at(facts@, i) by {
        if 0 <= i < facts@.len() && i < 6 {
            lemma_only_roots(facts@, i);
            assert(!only_roots(facts@[i]));
        }
    }
}

/// `chmod` is asked to let everyone read and write the node, which stands last and
/// behind `--`. Only where the canonical path does not end in `chmod` does its name
/// come first.
pub proof fn law_chmod_is_asked_for_the_node(
    name: Option<String>,
    node: &str,
    args: Vec<String>,
)
    requires
        call_ensures(chmod_args, (&name, node), args),
    ensures
        args@.len() == if name is Some && name->0@ == "chmod"@ {
            3int
        } else {
            4
        },
        args@.len() == 4 ==> args@[0]@ == "chmod"@,
        args@[args@.len() - 3]@ == "a+rw"@,
        args@[args@.len() - 2]@ == "--"@,
        args@[args@.len() - 1]@ == node@,
{
    let texts = crate::text::views(args@);
    assert(texts.len() == args@.len());
    assert forall|i: int| 0 <= i < args@.len() implies #[trigger] texts[i] == args@[i]@ by {}
    if name is Some && name->0@ == "chmod"@ {
        assert(texts =~= seq!["a+rw"@, "--"@, node@]);
    } else {
        assert(texts =~= seq!["chmod"@, "a+rw"@, "--"@, node@]);
    }
    assert(texts[args@.len() - 3] == args@[args@.len() - 3]@);
    assert(texts[args@.len() - 2] == args@[args@.len() - 2]@);
    assert(texts[args@.len() - 1] == args@[args@.len() - 1]@);
    assert(texts[0] == args@[0]@);
}

/// Every control character is left out of a text, and nothing else is.
pub proof fn law_control_characters_are_left_out(a: Seq<char>, c: char, b: Seq<char>)
    requires
        (c as int) < 32 || 127 <= (c as int) < 160,
    ensures
        without_controls(a.push(c) + b) == without_controls(a) + without_controls(b),
        (forall|i: int| 0 <= i < a.len() ==> 32 <= ((#[trigger] a[i]) as int) <= 126) ==> without_controls(
            a,
        ) == a,
    decreases a.len() + b.len(),
{
    let s = a.push(c) + b;
    if b.len() > 0 {
        law_control_characters_are_left_out(a, c, b.drop_last());
        assert(s.drop_last() =~= a.push(c) + b.drop_last());
        assert(s.last() == b.last());
        assert(without_controls(s) =~= without_controls(a) + without_controls(b));
    } else {
        assert(s.drop_last() =~= a);
        assert(s.last() == c);
        assert(without_controls(s) =~= without_controls(a) + without_controls(b));
    }
    lemma_printable(a);
}

proof fn lemma_printable(a: Seq<char>)
    ensures
        (forall|i: int| 0 <= i < a.len() ==> !crate::text::is_control_char(#[trigger] a[i]))
            ==> without_controls(a) == a,
    decreases a.len(),
{
    if a.len() > 0 && (forall|i: int|
        0 <= i < a.len() ==> !crate::text::is_control_char(#[trigger] a[i])) {
        let shorter = a.drop_last();
        assert forall|i: int| 0 <= i < shorter.len() implies !crate::text::is_control_char(
            #[trigger] shorter[i],
        ) by {
            assert(shorter[i] == a[i]);
        }
        lemma_printable(shorter);
        assert(!crate::text::is_control_char(a[a.len() - 1]));
        assert(shorter.push(a.last()) =~= a);
    }
}

proof fn lemma_trim_of_trimmed(s: Seq<char>)
    requires
        s.len() > 0 ==> !crate::text::is_white_space(s[0]) && !crate::text::is_white_space(s.last()),
    ensures
        crate::text::trim(s) == s,
{
    let kept = crate::text::law_trimming_takes_white_space_off(s);
    if s.len() > 0 {
        assert(!crate::text::is_white_space(s[0]));
        assert(!crate::text::is_white_space(s[s.len() - 1]));
    }
    assert(s.subrange(kept.0, kept.1) =~= s);
}

/// Of a message, its first line is shown as it is where it has no control
/// characters, no white space at its ends and at most 160 characters; of a longer
/// one, the first 160. What follows the line is not shown.
pub proof fn law_the_first_line_is_shown(
    line: Seq<char>,
    rest: Seq<char>,
    text: &str,
    detail: String,
)
    requires
        call_ensures(short_detail_text, (text,), detail),
        text@ == line.push('\n') + rest,
        line.len() > 0,
        forall|i: int| 0 <= i < line.len() ==> !crate::text::is_control_char(#[trigger] line[i]),
        !crate::text::is_white_space(line[0]),
        !crate::text::is_white_space(line.last()),
    ensures
        line.len() <= 160 ==> detail@ == line,
        line.len() > 160 ==> detail@ == line.take(160),
{
    assert forall|i: int| 0 <= i < line.len() implies #[trigger] line[i] != '\n' by {
        assert(!crate::text::is_control_char(line[i]));
    }
    assert(!crate::text::is_control_char(line[line.len() - 1]));
    crate::text::law_a_line_ends_at_the_line_feed(line, rest);
    assert(crate::text::lines(text@)[0] == line);
    lemma_trim_of_trimmed(line);
    lemma_printable(line);
}

/// A message whose first line holds nothing but control characters and white space
/// is replaced by a sentence.
pub proof fn law_a_blank_message_is_replaced(
    line: Seq<char>,
    rest: Seq<char>,
    text: &str,
    detail: String,
)
    requires
        call_ensures(short_detail_text, (text,), detail),
        text@.len() == 0 || text@ == line.push('\n') + rest,
        forall|i: int| 0 <= i < line.len() ==> #[trigger] line[i] == ' ',
    ensures
        detail@ == "no reason given"@,
{
    if text@.len() > 0 {
        assert forall|i: int| 0 <= i < line.len() implies #[trigger] line[i] != '\n' by {
            assert(line[i] == ' ');
        }
        if line.len() > 0 {
            assert(line[line.len() - 1] == ' ');
        }
        crate::text::law_a_line_ends_at_the_line_feed(line, rest);
        assert(crate::text::lines(text@)[0] == line);
        let kept = crate::text::law_trimming_takes_white_space_off(line);
        if crate::text::trim(line).len() > 0 {
            assert(crate::text::trim(line)[0] == line[kept.0]);
        }
        assert(crate::text::trim(line) =~= Seq::<char>::empty());
    } else {
        assert(text@ =~= Seq::<char>::empty());
        crate::text::law_a_line_ends_at_the_line_feed(Seq::empty(), Seq::empty());
        assert(crate::text::lines(text@).len() == 0);
    }
    assert(without_controls(Seq::<char>::empty()).len() == 0);
}

/// A helper that succeeded gave access. One that did not is named by its exit code:
/// 126 is a dismissed prompt, 127 a refusal, any other code is shown, and without a
/// code it was killed. What it wrote is told, but for a dismissed prompt.
pub proof fn law_a_failed_helper_says_why(
    success: bool,
    code: Option<i32>,
    stderr: &[u8],
    outcome: Result<(), Error>,
    detail: String,
)
    requires
        call_ensures(run_privileged, (success, code, stderr), outcome),
        call_ensures(short_detail, (stderr,), detail),
    ensures
        success ==> outcome is Ok,
        !success ==> (outcome matches Err(Error::Escalation(reason)) && reason@ == match code {
            None => "the helper was killed: "@ + detail@,
            Some(126) => "the polkit prompt was dismissed"@,
            Some(127) => "polkit refused the request ("@ + detail@ + ")"@,
            Some(other) => "the helper exited with "@ + crate::text::signed_decimal(other as int)
                + ": "@ + detail@,
        }),
{
}

/// Access is asked for with the `pkexec` and the `chmod` that were found; without
/// `chmod`, or with it and without `pkexec`, it is refused, and the reason names the
/// one that is missing. A request that is not answered is refused; an answer is
/// handed on.
pub proof fn law_access_is_asked_for_with_what_was_found(
    chmod: Option<String>,
    name: Option<String>,
    pkexec: Option<String>,
    node: &str,
    grant: Result<Grant, Error>,
    args: Vec<String>,
    answer: Option<Result<(), Error>>,
    outcome: Result<(), Error>,
)
    requires
        call_ensures(grant_access, (chmod, &name, pkexec, node), grant),
        call_ensures(chmod_args, (&name, node), args),
        call_ensures(grant_outcome, (answer,), outcome),
    ensures
        grant is Ok <==> chmod is Some && pkexec is Some,
        grant matches Ok(g) ==> Some(g.pkexec) == pkexec && Some(g.helper) == chmod
            && crate::text::views(g.args@) == crate::text::views(args@),
        chmod is None ==> (grant matches Err(Error::Escalation(reason)) && reason@
            == "chmod was not found in the system paths"@),
        chmod is Some && pkexec is None ==> (grant matches Err(Error::Escalation(reason))
            && reason@ == "pkexec was not found (is polkit installed?)"@),
        answer is Some ==> Some(outcome) == answer,
        answer is None ==> (outcome matches Err(Error::Escalation(reason)) && reason@
            == "no answer from polkit; the device stays read-only"@),
{
}

/// A helper that could not be started is told apart from a thread that could not.
pub proof fn law_what_could_not_be_started_is_named(text: &str, helper: Error, thread: Error)
    requires
        call_ensures(helper_not_run, (text,), helper),
        call_ensures(helper_thread_not_started, (text,), thread),
    ensures
        helper matches Error::Escalation(reason) && reason@ == "could not run pkexec: "@ + text@,
        thread matches Error::Escalation(reason) && reason@
            == "could not start the helper thread: "@ + text@,
{
}

} // verus!
