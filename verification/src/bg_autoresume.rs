//! Waking missions whose background shell tasks have finished.
//!
//! A mission that launched a shell job in the background parks until the user
//! speaks. A watcher looks at such jobs in turn and, once one has finished, tells
//! its mission so, with the job's output. Time is counted in nanoseconds from a
//! fixed moment.
use vstd::prelude::*;

use crate::taskmap::{listed, TaskMap};
use crate::text::{
    blank, byte_len, cat2, cat3, chars_of, decimal, has_infix, has_prefix, has_suffix, is_blank,
    law_parts_of_a_text, law_trim_back_cuts_the_back, opt_string,
    parse_unsigned, prefix_within, split_at_set, split_set, split_words, str_eq, strip_prefix,
    strip_suffix, trim, trim_back, trim_set_back, trimmed, truncate_bytes, u64_text, unsigned_up_to,
    without_prefix, without_suffix, words_of, CharSet,
};

verus! {

/// How often the watcher looks at background tasks, in seconds.
pub const BG_POLL_INTERVAL_SECS: u64 = 10;

/// How long the process of a task must stay gone before the task counts as finished.
pub const BG_IDLE_STABLE_SECS: u64 = 15;

/// How long after its start a task that was never seen running is given.
pub const BG_START_GRACE_SECS: u64 = 20;

/// How long a task is watched at most.
pub const BG_OVERALL_TIMEOUT_SECS: u64 = 1800;

/// How many bytes of a task's output a mission is told at most.
pub const BG_OUTPUT_TAIL_BYTES: usize = 4000;

/// How many tasks are probed at most each time.
pub const BG_MAX_CHECKS_PER_TICK: usize = 64;

/// How many bytes of a command are searched for among the running processes.
pub const PGREP_MAX_BYTES: usize = 120;

pub const NANOS_PER_SEC: u64 = 1_000_000_000;

/// A shell job in the background of a mission.
#[derive(Debug)]
pub struct BackgroundTask {
    pub id: String,
    pub output_path: String,
    pub command: String,
    pub started_at: u64,
}

/// What a look at a task found.
#[derive(Debug)]
pub enum BgProbe {
    Observed {
        /// Whether the output file is there.
        exists: bool,
        /// When the output file was last written; 0 where it is not there.
        mtime_epoch: u64,
        /// Whether the process is running.
        busy: bool,
        /// Whether processes could be searched; else `busy` means nothing.
        pgrep_available: bool,
    },
    /// Nothing was found out; `reason` says why the look failed, if it did.
    Unknown { reason: Option<String> },
}

/// What is remembered of a task between two looks.
#[derive(Debug, Clone, Copy, PartialEq, Eq, Structural)]
pub struct BgWatch {
    /// Whether the process was ever seen running.
    pub was_busy: bool,
    /// Since when the process is gone.
    pub idle_since: Option<u64>,
}

/// The time from `from` to `to`; none where `from` is later.
pub open spec fn elapsed(from: u64, to: u64) -> int {
    if from <= to {
        to - from
    } else {
        0
    }
}

pub open spec fn elapsed_secs(from: u64, to: u64) -> int {
    elapsed(from, to) / NANOS_PER_SEC as int
}

fn secs_between(from: u64, to: u64) -> (r: u64)
    ensures
        r == elapsed_secs(from, to),
{
    if from <= to {
        (to - from) / NANOS_PER_SEC
    } else {
        0
    }
}

// ---------------------------------------------------------------------------
// Completion
// ---------------------------------------------------------------------------

/// Whether a task has finished, and what is remembered of it. A running process has
/// not. One that is gone has, once it is gone for long enough, provided that it was
/// seen running or could have been.
pub open spec fn decided(prev: Option<BgWatch>, busy: bool, task_age_secs: u64, now: u64) -> (
    bool,
    BgWatch,
) {
    let was_busy = match prev {
        Some(w) => w.was_busy,
        None => false,
    };
    if busy {
        (false, BgWatch { was_busy: true, idle_since: None })
    } else {
        let since = match prev {
            Some(w) => match w.idle_since {
                Some(t) => t,
                None => now,
            },
            None => now,
        };
        (
            (was_busy || task_age_secs >= BG_START_GRACE_SECS) && elapsed_secs(since, now)
                >= BG_IDLE_STABLE_SECS,
            BgWatch { was_busy, idle_since: Some(since) },
        )
    }
}

/// Decides from one look whether a task has finished.
pub fn bg_decide_finished(
    prev: Option<&BgWatch>,
    busy: bool,
    task_age_secs: u64,
    now: u64,
) -> (r: (bool, BgWatch))
    ensures
        r == decided(
            match prev {
                Some(w) => Some(*w),
                None => None,
            },
            busy,
            task_age_secs,
            now,
        ),
{
    let prev_was_busy = match prev {
        Some(w) => w.was_busy,
        None => false,
    };
    if busy {
        return (false, BgWatch { was_busy: true, idle_since: None });
    }
    let idle_since: u64 = match prev {
        Some(w) => match w.idle_since {
            Some(t) => t,
            None => now,
        },
        None => now,
    };
    let idle_secs = secs_between(idle_since, now);
    let trust_not_busy = prev_was_busy || task_age_secs >= BG_START_GRACE_SECS;
    let finished = trust_not_busy && idle_secs >= BG_IDLE_STABLE_SECS;
    (finished, BgWatch { was_busy: prev_was_busy, idle_since: Some(idle_since) })
}

/// A task counts as finished only if its process is gone for at least
/// `BG_IDLE_STABLE_SECS` without a break, and it was seen running or is at least
/// `BG_START_GRACE_SECS` old.
pub proof fn law_finished_is_stable(
    prev: Option<BgWatch>,
    busy: bool,
    task_age_secs: u64,
    now: u64,
)
    requires
        decided(prev, busy, task_age_secs, now).0,
    ensures
        !busy,
        prev matches Some(w) && w.idle_since matches Some(t) && elapsed_secs(t, now)
            >= BG_IDLE_STABLE_SECS && (w.was_busy || task_age_secs >= BG_START_GRACE_SECS),
{
}

/// A single look that misses the process of a running task finishes nothing: the
/// next look that sees it starts the waiting anew.
pub proof fn law_transient_miss_is_absorbed(
    prev: Option<BgWatch>,
    age1: u64,
    now1: u64,
    age2: u64,
    now2: u64,
)
    ensures
        ({
            let seen = decided(prev, true, age1, now1).1;
            let missed = decided(Some(seen), false, age2, now2);
            !missed.0 && decided(Some(missed.1), true, age2, now2).1 == seen
        }),
{
}

/// A task that was ever seen running is remembered as such.
pub proof fn law_was_busy_is_kept(
    prev: BgWatch,
    busy: bool,
    task_age_secs: u64,
    now: u64,
)
    requires
        prev.was_busy,
    ensures
        decided(Some(prev), busy, task_age_secs, now).1.was_busy,
{
}

/// Once the process of a task is gone for good, a look that comes late enough finds
/// the task finished.
pub proof fn law_finished_is_noticed(
    prev: BgWatch,
    since: u64,
    age1: u64,
    now1: u64,
    age2: u64,
    now2: u64,
)
    requires
        prev.was_busy || age2 >= BG_START_GRACE_SECS,
        prev.idle_since == Some(since) || (prev.idle_since is None && since == now1),
        since <= now2,
        (now2 - since) / NANOS_PER_SEC as int >= BG_IDLE_STABLE_SECS,
    ensures
        decided(Some(decided(Some(prev), false, age1, now1).1), false, age2, now2).0,
{
}

/// One look at a task: whether its process was seen running, how old the task was, and
/// when that was.
pub struct Look {
    pub busy: bool,
    pub task_age_secs: u64,
    pub now: u64,
}

/// What is remembered of a task after a row of looks, given what was remembered before.
pub open spec fn watch_after(prev: Option<BgWatch>, looks: Seq<Look>) -> Option<BgWatch>
    decreases looks.len(),
{
    if looks.len() == 0 {
        prev
    } else {
        let l = looks.last();
        Some(decided(watch_after(prev, looks.drop_last()), l.busy, l.task_age_secs, l.now).1)
    }
}

/// Whether the process was seen running in one of the looks.
pub open spec fn seen_busy(looks: Seq<Look>) -> bool {
    exists|i: int| 0 <= i < looks.len() && (#[trigger] looks[i]).busy
}

/// Whether no look from the look `k` on saw the process running, and the one before did, if
/// there was one.
pub open spec fn quiet_from(looks: Seq<Look>, k: int) -> bool {
    &&& 0 <= k < looks.len()
    &&& forall|i: int| k <= i < looks.len() ==> !(#[trigger] looks[i]).busy
    &&& k > 0 ==> looks[k - 1].busy
}

/// Over a row of looks at a new task, it is remembered whether one saw the process running,
/// and since which look on none did.
pub proof fn law_looks_are_remembered(looks: Seq<Look>)
    requires
        looks.len() > 0,
    ensures
        watch_after(None, looks) matches Some(w) && w.was_busy == seen_busy(looks) && match w.idle_since {
            Some(t) => exists|k: int| #[trigger] quiet_from(looks, k) && looks[k].now == t,
            None => looks.last().busy,
        },
    decreases looks.len(),
{
    let before = looks.drop_last();
    let l = looks.last();
    assert(looks[looks.len() - 1] == l);
    if before.len() == 0 {
        if !l.busy {
            assert(quiet_from(looks, 0));
        }
    } else {
        law_looks_are_remembered(before);
        let w = watch_after(None, before)->0;
        if seen_busy(before) {
            let i = choose|i: int| 0 <= i < before.len() && (#[trigger] before[i]).busy;
            assert(looks[i].busy);
        }
        if seen_busy(looks) && !l.busy {
            let i = choose|i: int| 0 <= i < looks.len() && (#[trigger] looks[i]).busy;
            assert(before[i].busy);
        }
        if !l.busy {
            match w.idle_since {
                Some(t) => {
                    let k = choose|k: int| #[trigger] quiet_from(before, k) && before[k].now == t;
                    assert forall|i: int| k <= i < looks.len() implies !(#[trigger] looks[i]).busy by {
                        if i < before.len() {
                            assert(looks[i] == before[i]);
                        }
                    }
                    assert(quiet_from(looks, k));
                },
                None => {
                    assert(looks[looks.len() - 2] == before.last());
                    assert(quiet_from(looks, looks.len() - 1));
                },
            }
        }
    }
}

/// A new task counts as finished only after a row of looks that missed its process, the
/// first and the last of them at least `BG_IDLE_STABLE_SECS` apart, and only if an earlier
/// look saw the process or the task is at least `BG_START_GRACE_SECS` old.
pub proof fn law_finished_after_quiet_looks(looks: Seq<Look>, l: Look)
    requires
        decided(watch_after(None, looks), l.busy, l.task_age_secs, l.now).0,
    ensures
        !l.busy,
        seen_busy(looks) || l.task_age_secs >= BG_START_GRACE_SECS,
        exists|k: int| #[trigger]
            quiet_from(looks, k) && elapsed_secs(looks[k].now, l.now) >= BG_IDLE_STABLE_SECS,
{
    law_finished_is_stable(watch_after(None, looks), l.busy, l.task_age_secs, l.now);
    law_looks_are_remembered(looks);
}

/// A task that was ever seen running is remembered as such, however many looks follow.
pub proof fn law_was_busy_is_kept_through_looks(prev: BgWatch, looks: Seq<Look>)
    requires
        prev.was_busy,
    ensures
        watch_after(Some(prev), looks) matches Some(w) && w.was_busy,
    decreases looks.len(),
{
    if looks.len() > 0 {
        law_was_busy_is_kept_through_looks(prev, looks.drop_last());
    }
}

// ---------------------------------------------------------------------------
// Looking at a task
// ---------------------------------------------------------------------------

/// A text inside single quotes; a single quote closes them, stands behind a
/// backslash, and opens them again.
pub open spec fn quoted_body(s: Seq<char>) -> Seq<char>
    decreases s.len(),
{
    if s.len() == 0 {
        Seq::empty()
    } else {
        quoted_body(s.drop_last()) + if s.last() == '\'' {
            "'\\''"@
        } else {
            seq![s.last()]
        }
    }
}

pub open spec fn quoted(s: Seq<char>) -> Seq<char> {
    seq!['\''] + quoted_body(s) + seq!['\'']
}

/// A text as one word of a shell command.
pub fn shell_single_quote(s: &str) -> (r: String)
    ensures
        r@ == quoted(s@),
{
    let v = chars_of(s);
    let mut out = String::new();
    out.push('\'');
    let mut i: usize = 0;
    assert(out@ =~= seq!['\''] + quoted_body(v@.take(0)));
    while i < v.len()
        invariant
            i <= v@.len(),
            out@ == seq!['\''] + quoted_body(v@.take(i as int)),
        decreases v@.len() - i,
    {
        assert(v@.take(i + 1).drop_last() == v@.take(i as int));
        let ghost before = out@;
        let c = v[i];
        if c == '\'' {
            out.push_str("'\\''");
        } else {
            out.push(c);
        }
        assert(out@ =~= seq!['\''] + quoted_body(v@.take(i + 1)));
        i += 1;
    }
    assert(v@.take(i as int) == v@);
    out.push('\'');
    assert(out@ =~= quoted(s@));
    out
}

/// What a shell reads a word as: characters between single quotes stand for
/// themselves, so does one behind a backslash. Nothing where a quote is left open.
pub open spec fn shell_word(s: Seq<char>, inside: bool) -> Option<Seq<char>>
    decreases s.len(),
{
    if s.len() == 0 {
        if inside {
            None
        } else {
            Some(Seq::empty())
        }
    } else if s[0] == '\'' {
        shell_word(s.drop_first(), !inside)
    } else if !inside && s[0] == '\\' && s.len() >= 2 {
        match shell_word(s.skip(2), false) {
            Some(t) => Some(seq![s[1]] + t),
            None => None,
        }
    } else {
        match shell_word(s.drop_first(), inside) {
            Some(t) => Some(seq![s[0]] + t),
            None => None,
        }
    }
}

proof fn lemma_body_concat(a: Seq<char>, b: Seq<char>)
    ensures
        quoted_body(a + b) == quoted_body(a) + quoted_body(b),
    decreases b.len(),
{
    if b.len() == 0 {
        assert(a + b =~= a);
        assert(quoted_body(a) + quoted_body(b) =~= quoted_body(a));
    } else {
        assert((a + b).drop_last() =~= a + b.drop_last());
        lemma_body_concat(a, b.drop_last());
        assert((a + b).last() == b.last());
        assert(quoted_body(a + b) =~= quoted_body(a) + quoted_body(b));
    }
}

proof fn lemma_word_of_body(s: Seq<char>)
    ensures
        shell_word(quoted_body(s) + seq!['\''], true) == Some(s),
    decreases s.len(),
{
    reveal_strlit("'\\''");
    let end = seq!['\''];
    if s.len() == 0 {
        assert(quoted_body(s) + end =~= end);
        assert(end.drop_first().len() == 0);
        assert(shell_word(end.drop_first(), false) == Some(Seq::<char>::empty()));
        assert(s =~= Seq::empty());
    } else {
        let first = s.take(1);
        let rest = s.drop_first();
        assert(first + rest =~= s);
        lemma_body_concat(first, rest);
        assert(first.drop_last().len() == 0);
        assert(quoted_body(first.drop_last()) =~= Seq::empty());
        lemma_word_of_body(rest);
        let tail = quoted_body(rest) + end;
        let whole = quoted_body(s) + end;
        if s[0] == '\'' {
            assert(quoted_body(first) =~= seq!['\'', '\\', '\'', '\'']);
            assert(whole =~= seq!['\'', '\\', '\'', '\''] + tail);
            let one = whole.drop_first();
            assert(one =~= seq!['\\', '\'', '\''] + tail);
            assert(one.skip(2) =~= seq!['\''] + tail);
            assert((seq!['\''] + tail).drop_first() =~= tail);
            assert(shell_word(seq!['\''] + tail, false) == shell_word(tail, true));
            assert(shell_word(one, false) == Some(seq!['\''] + rest));
            assert(seq!['\''] + rest =~= s);
        } else {
            assert(quoted_body(first) =~= seq![s[0]]);
            assert(whole =~= seq![s[0]] + tail);
            assert(whole.drop_first() =~= tail);
            assert(seq![s[0]] + rest =~= s);
        }
    }
}

/// A shell reads a quoted text as that text, whatever stands in it.
pub proof fn law_shell_reads_quoted_text(s: Seq<char>)
    ensures
        shell_word(quoted(s), false) == Some(s),
{
    lemma_word_of_body(s);
    assert(quoted(s).drop_first() =~= quoted_body(s) + seq!['\'']);
}

/// The part of a command that is searched for among the running processes.
pub open spec fn pgrep_prefix(command: Seq<char>) -> Seq<char> {
    prefix_within(trimmed(command), PGREP_MAX_BYTES as int)
}

pub fn truncate_for_pgrep(command: &str) -> (r: String)
    ensures
        r@ == pgrep_prefix(command@),
{
    truncate_bytes(trim(command), PGREP_MAX_BYTES).to_string()
}

/// What is searched for is never longer than allowed, and begins the command.
pub proof fn law_pgrep_prefix_is_short(command: Seq<char>)
    ensures
        vstd::utf8::encode_utf8(pgrep_prefix(command)).len() <= PGREP_MAX_BYTES,
        has_prefix(trimmed(command), pgrep_prefix(command)),
{
    crate::text::lemma_chars_within(trimmed(command), PGREP_MAX_BYTES as int);
}

/// The components of a path but for empty ones and `.`.
pub open spec fn path_parts(pieces: Seq<Seq<char>>) -> Seq<Seq<char>>
    decreases pieces.len(),
{
    if pieces.len() == 0 {
        Seq::empty()
    } else {
        let before = path_parts(pieces.drop_last());
        if pieces.last().len() == 0 || pieces.last() == "."@ {
            before
        } else {
            before.push(pieces.last())
        }
    }
}

/// The last component of a path, unless it is `..`.
pub open spec fn path_file_name(path: Seq<char>) -> Option<Seq<char>> {
    let parts = path_parts(split_at_set(path, CharSet::One('/')));
    if parts.len() == 0 || parts.last() == ".."@ {
        None
    } else {
        Some(parts.last())
    }
}

fn file_name(path: &str) -> (r: Option<String>)
    ensures
        opt_string(r) == path_file_name(path@),
{
    let pieces = split_set(path, CharSet::One('/'));
    let ghost all = pieces.deep_view();
    let mut i: usize = pieces.len();
    assert(all.take(i as int) =~= all);
    while i > 0
        invariant
            i <= pieces@.len(),
            all == pieces.deep_view(),
            path_file_name(path@) == ({
                let parts = path_parts(all.take(i as int));
                if parts.len() == 0 || parts.last() == ".."@ {
                    None
                } else {
                    Some(parts.last())
                }
            }),
        decreases i,
    {
        assert(all.take(i as int).drop_last() =~= all.take(i - 1));
        let p = &pieces[i - 1];
        assert(all.take(i as int).last() == p@);
        if !p.as_str().is_empty() && !str_eq(p.as_str(), ".") {
            if str_eq(p.as_str(), "..") {
                return None;
            }
            return Some(p.clone());
        }
        i = i - 1;
    }
    None
}

/// What is searched for among the running processes to find a task: its command,
/// else its name, else the name of its output file.
pub open spec fn pgrep_pattern(task: BackgroundTask) -> Seq<char> {
    let command = pgrep_prefix(task.command@);
    if command.len() > 0 {
        command
    } else if task.id@.len() > 0 {
        task.id@
    } else {
        match path_file_name(task.output_path@) {
            Some(name) => match without_suffix(name, ".output"@) {
                Some(stem) => stem,
                None => name,
            },
            None => Seq::empty(),
        }
    }
}

pub fn pgrep_pattern_for_task(task: &BackgroundTask) -> (r: String)
    ensures
        r@ == pgrep_pattern(*task),
{
    let command = truncate_for_pgrep(task.command.as_str());
    if !command.as_str().is_empty() {
        return command;
    }
    if !task.id.as_str().is_empty() {
        return task.id.clone();
    }
    match file_name(task.output_path.as_str()) {
        Some(name) => match strip_suffix(name.as_str(), ".output") {
            Some(stem) => stem.to_string(),
            None => name,
        },
        None => String::new(),
    }
}

/// The shell script that looks at a task, after its output file and its pattern.
pub const PROBE_SCRIPT_REST: &'static str = r#"
EXISTS=0
M=0
if [ -e "$P" ]; then
  EXISTS=1
  M=$(stat -c %Y "$P" 2>/dev/null) || M=$(stat -f %m "$P" 2>/dev/null) || M=0
fi
BUSY=0
HAS_PGREP=0
SELF=$$
# This script embeds the command pattern, so the probe shell (and the subshells
# it forks for $(…), which share its argv) match `pgrep -f $PAT` themselves.
# Skip our own pid and every pid whose /proc cmdline equals ours. Linux-only:
# /proc is absent on macOS host workspaces, so SELFCMD stays empty and only $$
# is skipped there. Production nspawn containers are Linux and get the full guard.
SELFCMD=$(tr '\0' ' ' < /proc/$$/cmdline 2>/dev/null)
if [ -n "$PAT" ] && command -v pgrep >/dev/null 2>&1; then
  HAS_PGREP=1
  for pid in $(pgrep -f -- "$PAT" 2>/dev/null); do
    [ "$pid" = "$SELF" ] && continue
    PIDCMD=$(tr '\0' ' ' < /proc/$pid/cmdline 2>/dev/null)
    [ -n "$SELFCMD" ] && [ "$PIDCMD" = "$SELFCMD" ] && continue
    BUSY=1
    break
  done
fi
if [ "$BUSY" = "0" ] && [ "$EXISTS" = "1" ] && command -v fuser >/dev/null 2>&1; then
  if fuser "$P" >/dev/null 2>&1; then BUSY=1; fi
fi
echo "BG $EXISTS $M $BUSY $HAS_PGREP"
"#;

/// The shell script that looks at a task.
pub open spec fn probe_text(task: BackgroundTask) -> Seq<char> {
    "\nset -u\nP="@ + quoted(task.output_path@) + "\nPAT="@ + quoted(pgrep_pattern(task))
        + PROBE_SCRIPT_REST@
}

pub fn probe_script(task: &BackgroundTask) -> (r: String)
    ensures
        r@ == probe_text(*task),
{
    let out_path = shell_single_quote(task.output_path.as_str());
    let pattern = pgrep_pattern_for_task(task);
    let task_pattern = shell_single_quote(pattern.as_str());
    let mut out = cat3("\nset -u\nP=", out_path.as_str(), "\nPAT=");
    out.push_str(task_pattern.as_str());
    out.push_str(PROBE_SCRIPT_REST);
    out
}

/// The shell script that prints the end of a task's output.
pub open spec fn tail_text(output_path: Seq<char>) -> Seq<char> {
    "set -u; P="@ + quoted(output_path) + "; [ -f \"$P\" ] && tail -c "@ + decimal(
        BG_OUTPUT_TAIL_BYTES as nat,
    ) + " \"$P\" 2>/dev/null || true"@
}

pub fn tail_script(output_path: &str) -> (r: String)
    ensures
        r@ == tail_text(output_path@),
{
    let out_path = shell_single_quote(output_path);
    let bytes = u64_text(BG_OUTPUT_TAIL_BYTES as u64);
    let mut out = cat3("set -u; P=", out_path.as_str(), "; [ -f \"$P\" ] && tail -c ");
    out.push_str(bytes.as_str());
    out.push_str(" \"$P\" 2>/dev/null || true");
    out
}

/// The end of a task's output, given what the script printed.
pub fn output_tail(printed: &str) -> (r: Option<String>)
    ensures
        opt_string(r) == ({
            let t = trim_back(printed@, CharSet::One('\n'));
            if t.len() == 0 {
                None
            } else {
                Some(t)
            }
        }),
{
    let t = trim_set_back(printed, CharSet::One('\n'));
    if t.is_empty() {
        None
    } else {
        Some(t.to_string())
    }
}

/// What a look found.
pub enum ProbeView {
    Observed { exists: bool, mtime_epoch: int, busy: bool, pgrep_available: bool },
    Unknown { reason: Option<Seq<char>> },
}

impl View for BgProbe {
    type V = ProbeView;

    open spec fn view(&self) -> ProbeView {
        match self {
            BgProbe::Observed { exists, mtime_epoch, busy, pgrep_available } => {
                ProbeView::Observed {
                    exists: *exists,
                    mtime_epoch: *mtime_epoch as int,
                    busy: *busy,
                    pgrep_available: *pgrep_available,
                }
            },
            BgProbe::Unknown { reason } => ProbeView::Unknown { reason: opt_string(*reason) },
        }
    }
}

/// The number in the word `i`, if there is one and it is at most `max`.
pub open spec fn number_at(words: Seq<Seq<char>>, i: int, max: int) -> Option<nat> {
    if i < words.len() {
        unsigned_up_to(words[i], max as nat)
    } else {
        None
    }
}

/// The meaning of the words behind `BG`. Without a word that says so, processes could
/// not be searched.
pub open spec fn probe_words(words: Seq<Seq<char>>) -> ProbeView {
    match (
        number_at(words, 0, 255),
        number_at(words, 1, u64::MAX as int),
        number_at(words, 2, 255),
    ) {
        (Some(e), Some(m), Some(b)) => ProbeView::Observed {
            exists: e != 0,
            mtime_epoch: m as int,
            busy: b != 0,
            pgrep_available: match number_at(words, 3, 255) {
                Some(p) => p != 0,
                None => false,
            },
        },
        _ => ProbeView::Unknown { reason: None },
    }
}

/// The meaning of the first of `lines` that begins with `BG `, but for whitespace.
pub open spec fn probe_lines(lines: Seq<Seq<char>>) -> ProbeView
    decreases lines.len(),
{
    if lines.len() == 0 {
        ProbeView::Unknown { reason: None }
    } else {
        match without_prefix(trimmed(lines[0]), "BG "@) {
            Some(rest) => probe_words(words_of(rest)),
            None => probe_lines(lines.drop_first()),
        }
    }
}

fn word_number(words: &Vec<String>, i: usize, max: u64) -> (r: Option<u64>)
    ensures
        match r {
            Some(n) => number_at(words.deep_view(), i as int, max as int) == Some(n as nat),
            None => number_at(words.deep_view(), i as int, max as int) is None,
        },
{
    if i < words.len() {
        assert(words.deep_view()[i as int] == words@[i as int]@);
        parse_unsigned(words[i].as_str(), max)
    } else {
        None
    }
}

fn parse_probe_words(words: &Vec<String>) -> (r: BgProbe)
    ensures
        r@ == probe_words(words.deep_view()),
{
    let exists = word_number(words, 0, 255);
    let mtime = word_number(words, 1, u64::MAX);
    let busy = word_number(words, 2, 255);
    let pgrep_available = match word_number(words, 3, 255) {
        Some(n) => n != 0,
        None => false,
    };
    match (exists, mtime, busy) {
        (Some(e), Some(m), Some(b)) => BgProbe::Observed {
            exists: e != 0,
            mtime_epoch: m,
            busy: b != 0,
            pgrep_available,
        },
        _ => BgProbe::Unknown { reason: None },
    }
}

/// Reads the line `BG <exists> <mtime> <busy> [<pgrep>]` that the script printed.
pub fn parse_probe_line(stdout: &str) -> (r: BgProbe)
    ensures
        r@ == probe_lines(split_at_set(stdout@, CharSet::One('\n'))),
{
    let lines = split_set(stdout, CharSet::One('\n'));
    let ghost all = lines.deep_view();
    let mut i: usize = 0;
    assert(all.skip(0) == all);
    while i < lines.len()
        invariant
            i <= lines@.len(),
            all == lines.deep_view(),
            all == split_at_set(stdout@, CharSet::One('\n')),
            probe_lines(all) == probe_lines(all.skip(i as int)),
        decreases lines@.len() - i,
    {
        assert(all.skip(i as int).drop_first() == all.skip(i + 1));
        assert(all.skip(i as int)[0] == lines@[i as int]@);
        if let Some(rest) = strip_prefix(trim(lines[i].as_str()), "BG ") {
            let words = split_words(rest);
            return parse_probe_words(&words);
        }
        i += 1;
    }
    BgProbe::Unknown { reason: None }
}

/// Without a fourth word a look never reports that processes could be searched.
pub proof fn law_probe_fails_closed(words: Seq<Seq<char>>)
    requires
        words.len() < 4,
    ensures
        probe_words(words) matches ProbeView::Observed { pgrep_available, .. } ==> !pgrep_available,
{
}

// ---------------------------------------------------------------------------
// Registry
// ---------------------------------------------------------------------------

impl Clone for BackgroundTask {
    fn clone(&self) -> (r: Self)
        ensures
            r == *self,
    {
        BackgroundTask {
            id: self.id.clone(),
            output_path: self.output_path.clone(),
            command: self.command.clone(),
            started_at: self.started_at,
        }
    }
}

/// The background tasks of all missions.
pub struct BackgroundTaskRegistry {
    tasks: TaskMap<BackgroundTask>,
}

impl View for BackgroundTaskRegistry {
    type V = Map<(u128, Seq<char>), BackgroundTask>;

    closed spec fn view(&self) -> Map<(u128, Seq<char>), BackgroundTask> {
        self.tasks@
    }
}

/// Whether a registry holds a task for a mission.
pub open spec fn is_task_of(
    m: Map<(u128, Seq<char>), BackgroundTask>,
    t: (u128, BackgroundTask),
) -> bool {
    exists|k: (u128, Seq<char>)| #[trigger] m.dom().contains(k) && k.0 == t.0 && m[k] == t.1
}

impl BackgroundTaskRegistry {
    /// Every task stands under its own name.
    #[verifier::type_invariant]
    spec fn keyed_by_id(self) -> bool {
        forall|k: (u128, Seq<char>)| #[trigger]
            self.tasks@.dom().contains(k) ==> self.tasks@[k].id@ == k.1
    }

    pub fn new() -> (r: Self)
        ensures
            r@ == Map::<(u128, Seq<char>), BackgroundTask>::empty(),
    {
        BackgroundTaskRegistry { tasks: TaskMap::new() }
    }

    /// Records a task that was launched.
    pub fn record(&mut self, mission_id: u128, task: BackgroundTask)
        ensures
            final(self)@ == old(self)@.insert((mission_id, task.id@), task),
    {
        proof {
            use_type_invariant(&*self);
        }
        let mut tasks: TaskMap<BackgroundTask> = TaskMap::new();
        std::mem::swap(&mut tasks, &mut self.tasks);
        tasks.insert(mission_id, task.id.clone(), task);
        self.tasks = tasks;
    }

    /// Forgets a task.
    pub fn remove_background_task(&mut self, mission_id: u128, task_id: &str)
        ensures
            final(self)@ == old(self)@.remove((mission_id, task_id@)),
    {
        proof {
            use_type_invariant(&*self);
        }
        let mut tasks: TaskMap<BackgroundTask> = TaskMap::new();
        std::mem::swap(&mut tasks, &mut self.tasks);
        tasks.remove(mission_id, task_id);
        self.tasks = tasks;
    }

    /// All tasks, each once and in any order.
    pub fn snapshot(&self) -> (r: Vec<(u128, BackgroundTask)>)
        ensures
            forall|i: int| 0 <= i < r@.len() ==> is_task_of(self@, #[trigger] r@[i]),
            forall|k: (u128, Seq<char>)| #[trigger]
                self@.dom().contains(k) ==> exists|i: int|
                    0 <= i < r@.len() && (#[trigger] r@[i]).0 == k.0 && r@[i].1 == self@[k],
            forall|i: int, j: int|
                0 <= i < j < r@.len() ==> (#[trigger] r@[i]).0 != (#[trigger] r@[j]).0
                    || r@[i].1.id@ != r@[j].1.id@,
    {
        proof {
            use_type_invariant(self);
        }
        let keys = self.tasks.keys();
        let mut out: Vec<(u128, BackgroundTask)> = Vec::new();
        let mut i: usize = 0;
        while i < keys.len()
            invariant
                i <= keys@.len(),
                forall|k: (u128, Seq<char>)| #[trigger]
                    self.tasks@.dom().contains(k) == listed(keys@, k),
                out@.len() == i,
                forall|j: int|
                    0 <= j < i ==> (#[trigger] out@[j]).0 == keys@[j].0 && out@[j].1 == self@[(
                        keys@[j].0,
                        keys@[j].1@,
                    )],
            decreases keys@.len() - i,
        {
            assert(listed(keys@, (keys@[i as int].0, keys@[i as int].1@)));
            assert(self.tasks@.dom().contains((keys@[i as int].0, keys@[i as int].1@)));
            if let Some(task) = self.tasks.get(keys[i].0, keys[i].1.as_str()) {
                out.push((keys[i].0, task.clone()));
            }
            i += 1;
        }
        proof {
            assert forall|j: int| 0 <= j < out@.len() implies is_task_of(
                self@,
                #[trigger] out@[j],
            ) by {
                let k = (keys@[j].0, keys@[j].1@);
                assert(listed(keys@, k));
                assert(self@.dom().contains(k));
            }
            assert forall|i: int, j: int| 0 <= i < j < out@.len() implies (#[trigger] out@[i]).0
                != (#[trigger] out@[j]).0 || out@[i].1.id@ != out@[j].1.id@ by {
                assert(listed(keys@, (keys@[i].0, keys@[i].1@)));
                assert(listed(keys@, (keys@[j].0, keys@[j].1@)));
                assert(self@.dom().contains((keys@[i].0, keys@[i].1@)));
                assert(self@.dom().contains((keys@[j].0, keys@[j].1@)));
            }
            assert forall|k: (u128, Seq<char>)| #[trigger] self@.dom().contains(k) implies exists|
                j: int,
            | 0 <= j < out@.len() && (#[trigger] out@[j]).0 == k.0 && out@[j].1 == self@[k] by {
                assert(listed(keys@, k));
                let j = choose|j: int|
                    0 <= j < keys@.len() && (#[trigger] keys@[j]).0 == k.0 && keys@[j].1@ == k.1;
                assert(out@[j].0 == k.0);
            }
        }
        out
    }
}

impl Default for BackgroundTaskRegistry {
    fn default() -> (r: Self)
        ensures
            r@ == Map::<(u128, Seq<char>), BackgroundTask>::empty(),
    {
        Self::new()
    }
}

// ---------------------------------------------------------------------------
// Watcher
// ---------------------------------------------------------------------------

/// The state of a mission, as far as it matters to the watcher.
#[derive(Debug, Clone, Copy, PartialEq, Eq, Structural)]
pub enum MissionStatus {
    AwaitingUser,
    Completed,
    Failed,
    NotFeasible,
    Other,
}

/// What came of looking up a mission.
#[derive(Debug, Clone, Copy, PartialEq, Eq, Structural)]
pub enum MissionLookup {
    Found(MissionStatus),
    Missing,
    Failed,
}

/// What is done with the task of a mission.
#[derive(Debug, Clone, Copy, PartialEq, Eq, Structural)]
pub enum MissionStep {
    /// The task is forgotten.
    Remove,
    /// The task is left for the next time.
    Skip,
    /// The task is watched.
    Watch,
}

/// What is done with a task whose mission waits for the user.
#[derive(Debug, Clone, Copy, PartialEq, Eq, Structural)]
pub enum WatchStep {
    Skip,
    /// The task is looked at.
    Probe,
    /// The task is overdue and counts as finished.
    TimedOut,
}

/// What a look at a task leads to.
#[derive(Debug, Clone, Copy, PartialEq, Eq, Structural)]
pub enum ProbeStep {
    /// Nothing is known; the task is looked at again the next time.
    Retry,
    /// The task has not finished.
    Waiting,
    /// The task has finished; `read_output` says whether its output is there.
    Finished { read_output: bool },
}

/// What came of telling a mission that its task has finished.
#[derive(Debug, Clone, Copy, PartialEq, Eq, Structural)]
pub enum ResumeAck {
    Accepted,
    Dropped,
    /// No reply came.
    Lost,
}

/// Whether a task is watched for too long.
pub open spec fn overdue(started_at: u64, now: u64) -> bool {
    elapsed(started_at, now) >= BG_OVERALL_TIMEOUT_SECS * NANOS_PER_SEC
}

fn is_overdue(started_at: u64, now: u64) -> (r: bool)
    ensures
        r == overdue(started_at, now),
{
    started_at <= now && now - started_at >= BG_OVERALL_TIMEOUT_SECS * NANOS_PER_SEC
}

/// What is done with a task, given its mission. A task is watched only while its
/// mission waits for the user; it is forgotten once the mission is gone or over, or
/// the task is overdue.
pub open spec fn mission_step(lookup: MissionLookup, started_at: u64, now: u64) -> MissionStep {
    match lookup {
        MissionLookup::Missing => MissionStep::Remove,
        MissionLookup::Failed => MissionStep::Skip,
        MissionLookup::Found(MissionStatus::AwaitingUser) => MissionStep::Watch,
        MissionLookup::Found(status) => if status == MissionStatus::Completed || status
            == MissionStatus::Failed || status == MissionStatus::NotFeasible || overdue(
            started_at,
            now,
        ) {
            MissionStep::Remove
        } else {
            MissionStep::Skip
        },
    }
}

pub fn after_mission_lookup(lookup: MissionLookup, started_at: u64, now: u64) -> (r: MissionStep)
    ensures
        r == mission_step(lookup, started_at, now),
{
    match lookup {
        MissionLookup::Missing => MissionStep::Remove,
        MissionLookup::Failed => MissionStep::Skip,
        MissionLookup::Found(status) => match status {
            MissionStatus::AwaitingUser => MissionStep::Watch,
            MissionStatus::Completed | MissionStatus::Failed | MissionStatus::NotFeasible => {
                MissionStep::Remove
            },
            MissionStatus::Other => if is_overdue(started_at, now) {
                MissionStep::Remove
            } else {
                MissionStep::Skip
            },
        },
    }
}

/// The watcher of background tasks.
pub struct BgWatcher {
    watches: TaskMap<BgWatch>,
    checks_done: usize,
}

/// The model of the watcher.
pub struct WatcherView {
    pub watches: Map<(u128, Seq<char>), BgWatch>,
    pub checks_done: int,
}

impl View for BgWatcher {
    type V = WatcherView;

    closed spec fn view(&self) -> WatcherView {
        WatcherView { watches: self.watches@, checks_done: self.checks_done as int }
    }
}

/// What is remembered of a task.
pub open spec fn watch_of(w: Map<(u128, Seq<char>), BgWatch>, key: (u128, Seq<char>)) -> Option<
    BgWatch,
> {
    if w.dom().contains(key) {
        Some(w[key])
    } else {
        None
    }
}

/// What a look at a task leads to, and what is remembered of the tasks then. A look
/// that could not search processes says nothing.
pub open spec fn probe_step(
    w: Map<(u128, Seq<char>), BgWatch>,
    key: (u128, Seq<char>),
    probe: ProbeView,
    age_secs: u64,
    now: u64,
) -> (ProbeStep, Map<(u128, Seq<char>), BgWatch>) {
    match probe {
        ProbeView::Observed { exists, busy, pgrep_available, .. } => if pgrep_available {
            let d = decided(watch_of(w, key), busy, age_secs, now);
            (
                if d.0 {
                    ProbeStep::Finished { read_output: exists }
                } else {
                    ProbeStep::Waiting
                },
                w.insert(key, d.1),
            )
        } else {
            (ProbeStep::Retry, w)
        },
        ProbeView::Unknown { .. } => (ProbeStep::Retry, w),
    }
}

impl BgWatcher {
    pub fn new() -> (r: Self)
        ensures
            r@.watches == Map::<(u128, Seq<char>), BgWatch>::empty(),
            r@.checks_done == 0,
    {
        BgWatcher { watches: TaskMap::new(), checks_done: 0 }
    }

    /// Starts to look at the tasks `live`. What is remembered of other tasks is
    /// forgotten.
    pub fn begin_tick(&mut self, live: &Vec<(u128, String)>)
        ensures
            final(self)@.checks_done == 0,
            forall|k: (u128, Seq<char>)| #[trigger]
                final(self)@.watches.dom().contains(k) == (old(self)@.watches.dom().contains(k)
                    && listed(live@, k)),
            forall|k: (u128, Seq<char>)|
                final(self)@.watches.dom().contains(k) ==> #[trigger] final(self)@.watches[k]
                    == old(self)@.watches[k],
    {
        self.watches.retain(live);
        self.checks_done = 0;
    }

    /// Whether as many tasks were looked at as is allowed each time.
    pub fn tick_is_full(&self) -> (r: bool)
        ensures
            r == (self@.checks_done >= BG_MAX_CHECKS_PER_TICK),
    {
        self.checks_done >= BG_MAX_CHECKS_PER_TICK
    }

    /// What is done with a task whose mission waits for the user, given whether its
    /// workspace was found.
    pub fn after_workspace_lookup(&mut self, found: bool, started_at: u64, now: u64) -> (r: WatchStep)
        requires
            old(self)@.checks_done < BG_MAX_CHECKS_PER_TICK,
        ensures
            r == if !found {
                WatchStep::Skip
            } else if overdue(started_at, now) {
                WatchStep::TimedOut
            } else {
                WatchStep::Probe
            },
            final(self)@.watches == old(self)@.watches,
            final(self)@.checks_done == old(self)@.checks_done + if r == WatchStep::Probe {
                1int
            } else {
                0
            },
            final(self)@.checks_done <= BG_MAX_CHECKS_PER_TICK,
    {
        if !found {
            WatchStep::Skip
        } else if is_overdue(started_at, now) {
            WatchStep::TimedOut
        } else {
            self.checks_done = self.checks_done + 1;
            WatchStep::Probe
        }
    }

    /// What a look at a task leads to.
    pub fn on_probe(
        &mut self,
        mission_id: u128,
        task: &BackgroundTask,
        probe: &BgProbe,
        probed_at: u64,
        now: u64,
    ) -> (r: ProbeStep)
        ensures
            ({
                let p = probe_step(
                    old(self)@.watches,
                    (mission_id, task.id@),
                    probe@,
                    elapsed_secs(task.started_at, probed_at) as u64,
                    now,
                );
                r == p.0 && final(self)@.watches == p.1
            }),
            final(self)@.checks_done == old(self)@.checks_done,
    {
        match probe {
            BgProbe::Observed { exists, busy, pgrep_available, .. } => {
                if !*pgrep_available {
                    return ProbeStep::Retry;
                }
                let age_secs = secs_between(task.started_at, probed_at);
                let (finished, next) = bg_decide_finished(
                    self.watches.get(mission_id, task.id.as_str()),
                    *busy,
                    age_secs,
                    now,
                );
                self.watches.insert(mission_id, task.id.clone(), next);
                if finished {
                    ProbeStep::Finished { read_output: *exists }
                } else {
                    ProbeStep::Waiting
                }
            },
            BgProbe::Unknown { .. } => ProbeStep::Retry,
        }
    }

    /// Whether a task is forgotten, given what came of telling its mission; else the
    /// mission is told again the next time.
    pub fn after_resume(&mut self, mission_id: u128, task_id: &str, ack: ResumeAck) -> (r: bool)
        ensures
            r == (ack == ResumeAck::Accepted),
            final(self)@.watches == if r {
                old(self)@.watches.remove((mission_id, task_id@))
            } else {
                old(self)@.watches
            },
            final(self)@.checks_done == old(self)@.checks_done,
    {
        match ack {
            ResumeAck::Accepted => {
                self.watches.remove(mission_id, task_id);
                true
            },
            ResumeAck::Dropped | ResumeAck::Lost => false,
        }
    }
}

impl Default for BgWatcher {
    fn default() -> (r: Self)
        ensures
            r@.watches == Map::<(u128, Seq<char>), BgWatch>::empty(),
            r@.checks_done == 0,
    {
        Self::new()
    }
}

/// The command of a task, as a mission is told it.
pub open spec fn command_shown(command: Seq<char>) -> Seq<char> {
    if blank(command) {
        "(command unavailable)"@
    } else {
        command
    }
}

/// What a mission is told when its task has finished.
pub open spec fn resume_text(task: BackgroundTask, tail: Seq<char>, timed_out: bool) -> Seq<char> {
    let head = "Background task `"@ + task.id@ + "` (`"@ + command_shown(task.command@);
    if tail.len() == 0 {
        let note = if timed_out {
            " (reported finished after the 30-minute watcher timeout; it may still be running.)"@
        } else {
            ""@
        };
        head + "`) finished. (No captured output was available.)"@ + note
            + "\n\nContinue from here."@
    } else {
        let note = if timed_out {
            "\n\n(Note: reported as finished after the 30-minute watcher timeout; it may still be running.)"@
        } else {
            ""@
        };
        head + "`) finished. Output:\n\n```\n"@ + tail + "\n```"@ + note
            + "\n\nContinue from here."@
    }
}

/// What a mission is told when its task has finished.
pub fn resume_message(task: &BackgroundTask, tail: &str, timed_out: bool) -> (r: String)
    ensures
        r@ == resume_text(*task, tail@, timed_out),
{
    let command = if is_blank(task.command.as_str()) {
        "(command unavailable)"
    } else {
        task.command.as_str()
    };
    let mut out = cat3("Background task `", task.id.as_str(), "` (`");
    out.push_str(command);
    if tail.is_empty() {
        let note = if timed_out {
            " (reported finished after the 30-minute watcher timeout; it may still be running.)"
        } else {
            ""
        };
        out.push_str("`) finished. (No captured output was available.)");
        out.push_str(note);
    } else {
        let note = if timed_out {
            "\n\n(Note: reported as finished after the 30-minute watcher timeout; it may still be running.)"
        } else {
            ""
        };
        out.push_str("`) finished. Output:\n\n```\n");
        out.push_str(tail);
        out.push_str("\n```");
        out.push_str(note);
    }
    out.push_str("\n\nContinue from here.");
    out
}

/// How the waking of a mission is announced.
pub fn resume_label(task_id: &str) -> (r: String)
    ensures
        r@ == "Resuming: background task `"@ + task_id@ + "` finished"@,
{
    cat3("Resuming: background task `", task_id, "` finished")
}

/// A look that could not search processes changes nothing and finishes nothing: it
/// is made again until the task is overdue.
pub proof fn law_no_pgrep_no_decision(
    w: Map<(u128, Seq<char>), BgWatch>,
    key: (u128, Seq<char>),
    probe: ProbeView,
    age_secs: u64,
    now: u64,
)
    requires
        probe matches ProbeView::Observed { pgrep_available, .. } ==> !pgrep_available,
    ensures
        probe_step(w, key, probe, age_secs, now) == (ProbeStep::Retry, w),
{
}

/// The tasks of a mission that does not wait for the user are never looked at, so
/// that no running mission is interrupted.
pub proof fn law_only_waiting_missions_are_watched(
    lookup: MissionLookup,
    started_at: u64,
    now: u64,
)
    requires
        mission_step(lookup, started_at, now) == MissionStep::Watch,
    ensures
        lookup == MissionLookup::Found(MissionStatus::AwaitingUser),
{
}

// ---------------------------------------------------------------------------
// Tour of one task
// ---------------------------------------------------------------------------

/// How far the watcher has come with a task: what was done last, and what came of it.
#[allow(inconsistent_fields)]
pub enum TaskProgress {
    /// The task is next.
    Begun,
    MissionLookedUp { lookup: MissionLookup, now: u64 },
    WorkspaceLookedUp { found: bool, now: u64 },
    Probed { probe: BgProbe, probed_at: u64, now: u64 },
    /// The output was read; `printed` is what the script printed, if it could be run.
    OutputRead { printed: Option<String>, timed_out: bool },
    /// The mission was told.
    Told { ack: ResumeAck },
}

/// What the watcher does next with a task.
#[allow(inconsistent_fields)]
pub enum TaskStep {
    /// No further task is looked at this time.
    EndTick,
    LookUpMission,
    /// The task is forgotten.
    Forget,
    /// The task is left for the next time.
    Leave,
    LookUpWorkspace,
    /// The script is run, and what it prints is read as a look at the task.
    Probe { script: String },
    /// The script is run, and prints the end of the output.
    ReadOutput { script: String, timed_out: bool },
    /// The mission is told, and `label` is announced.
    Tell { label: String, content: String },
}

/// What is told a mission of the output that a script printed.
pub open spec fn tail_of(printed: Option<Seq<char>>) -> Seq<char> {
    match printed {
        Some(p) => trim_back(p, CharSet::One('\n')),
        None => Seq::empty(),
    }
}

/// Whether `a` tells the mission of a task.
pub open spec fn tells(a: TaskStep, task: BackgroundTask, tail: Seq<char>, timed_out: bool) -> bool {
    &&& a is Tell
    &&& a->Tell_label@ == "Resuming: background task `"@ + task.id@ + "` finished"@
    &&& a->Tell_content@ == resume_text(task, tail, timed_out)
}

/// Whether `a` runs the script that prints the end of a task's output.
pub open spec fn reads_output(a: TaskStep, task: BackgroundTask, timed_out: bool) -> bool {
    &&& a is ReadOutput
    &&& a->ReadOutput_script@ == tail_text(task.output_path@)
    &&& a->ReadOutput_timed_out == timed_out
}

/// Whether `a` is what the watcher does with a task after `p`.
pub open spec fn task_step(
    w: WatcherView,
    mission_id: u128,
    task: BackgroundTask,
    p: TaskProgress,
    a: TaskStep,
) -> bool {
    match p {
        TaskProgress::Begun => if w.checks_done >= BG_MAX_CHECKS_PER_TICK {
            a is EndTick
        } else {
            a is LookUpMission
        },
        TaskProgress::MissionLookedUp { lookup, now } => match mission_step(
            lookup,
            task.started_at,
            now,
        ) {
            MissionStep::Remove => a is Forget,
            MissionStep::Skip => a is Leave,
            MissionStep::Watch => a is LookUpWorkspace,
        },
        TaskProgress::WorkspaceLookedUp { found, now } => if !found {
            a is Leave
        } else if overdue(task.started_at, now) {
            reads_output(a, task, true)
        } else {
            a is Probe && a->Probe_script@ == probe_text(task)
        },
        TaskProgress::Probed { probe, probed_at, now } => match probe_step(
            w.watches,
            (mission_id, task.id@),
            probe@,
            elapsed_secs(task.started_at, probed_at) as u64,
            now,
        ).0 {
            ProbeStep::Retry | ProbeStep::Waiting => a is Leave,
            ProbeStep::Finished { read_output } => if read_output {
                reads_output(a, task, false)
            } else {
                tells(a, task, Seq::empty(), false)
            },
        },
        TaskProgress::OutputRead { printed, timed_out } => tells(
            a,
            task,
            tail_of(opt_string(printed)),
            timed_out,
        ),
        TaskProgress::Told { ack } => if ack == ResumeAck::Accepted {
            a is Forget
        } else {
            a is Leave
        },
    }
}

/// What the watcher remembers after `p`.
pub open spec fn watcher_after(
    w: WatcherView,
    mission_id: u128,
    task: BackgroundTask,
    p: TaskProgress,
) -> WatcherView {
    match p {
        TaskProgress::WorkspaceLookedUp { found, now } => WatcherView {
            checks_done: w.checks_done + if found && !overdue(task.started_at, now) {
                1int
            } else {
                0
            },
            ..w
        },
        TaskProgress::Probed { probe, probed_at, now } => WatcherView {
            watches: probe_step(
                w.watches,
                (mission_id, task.id@),
                probe@,
                elapsed_secs(task.started_at, probed_at) as u64,
                now,
            ).1,
            ..w
        },
        TaskProgress::Told { ack } => WatcherView {
            watches: if ack == ResumeAck::Accepted {
                w.watches.remove((mission_id, task.id@))
            } else {
                w.watches
            },
            ..w
        },
        _ => w,
    }
}

impl BgWatcher {
    /// What the watcher does next with a task.
    pub fn next_step(
        &mut self,
        mission_id: u128,
        task: &BackgroundTask,
        progress: TaskProgress,
    ) -> (r: TaskStep)
        requires
            progress is WorkspaceLookedUp ==> old(self)@.checks_done < BG_MAX_CHECKS_PER_TICK,
        ensures
            task_step(old(self)@, mission_id, *task, progress, r),
            final(self)@ == watcher_after(old(self)@, mission_id, *task, progress),
    {
        match progress {
            TaskProgress::Begun => if self.tick_is_full() {
                TaskStep::EndTick
            } else {
                TaskStep::LookUpMission
            },
            TaskProgress::MissionLookedUp { lookup, now } => match after_mission_lookup(
                lookup,
                task.started_at,
                now,
            ) {
                MissionStep::Remove => TaskStep::Forget,
                MissionStep::Skip => TaskStep::Leave,
                MissionStep::Watch => TaskStep::LookUpWorkspace,
            },
            TaskProgress::WorkspaceLookedUp { found, now } => match self.after_workspace_lookup(
                found,
                task.started_at,
                now,
            ) {
                WatchStep::Skip => TaskStep::Leave,
                WatchStep::TimedOut => TaskStep::ReadOutput {
                    script: tail_script(task.output_path.as_str()),
                    timed_out: true,
                },
                WatchStep::Probe => TaskStep::Probe { script: probe_script(task) },
            },
            TaskProgress::Probed { probe, probed_at, now } => match self.on_probe(
                mission_id,
                task,
                &probe,
                probed_at,
                now,
            ) {
                ProbeStep::Retry => TaskStep::Leave,
                ProbeStep::Waiting => TaskStep::Leave,
                ProbeStep::Finished { read_output } => if read_output {
                    TaskStep::ReadOutput {
                        script: tail_script(task.output_path.as_str()),
                        timed_out: false,
                    }
                } else {
                    proof {
                        reveal_strlit("");
                        assert(""@ =~= Seq::<char>::empty());
                    }
                    TaskStep::Tell {
                        label: resume_label(task.id.as_str()),
                        content: resume_message(task, "", false),
                    }
                },
            },
            TaskProgress::OutputRead { printed, timed_out } => {
                let tail = match &printed {
                    Some(p) => match output_tail(p.as_str()) {
                        Some(t) => t,
                        None => String::new(),
                    },
                    None => String::new(),
                };
                assert(tail@ =~= tail_of(opt_string(printed)));
                TaskStep::Tell {
                    label: resume_label(task.id.as_str()),
                    content: resume_message(task, tail.as_str(), timed_out),
                }
            },
            TaskProgress::Told { ack } => if self.after_resume(mission_id, task.id.as_str(), ack) {
                TaskStep::Forget
            } else {
                TaskStep::Leave
            },
        }
    }
}

/// A look leads to more than waiting only if the process is gone, and was found gone by
/// looks that lie long enough apart.
pub proof fn law_nothing_is_told_early(
    w: WatcherView,
    mission_id: u128,
    task: BackgroundTask,
    probe: BgProbe,
    probed_at: u64,
    now: u64,
    a: TaskStep,
)
    requires
        task_step(
            w,
            mission_id,
            task,
            TaskProgress::Probed { probe, probed_at, now },
            a,
        ),
        !(a is Leave),
    ensures
        probe matches BgProbe::Observed { busy, pgrep_available, .. } && !busy && pgrep_available,
        watch_of(w.watches, (mission_id, task.id@)) matches Some(seen) && (
        seen.idle_since matches Some(since) && elapsed_secs(since, now) >= BG_IDLE_STABLE_SECS),
{
}

/// A mission that could not be told is told again: its task stays, with what is
/// remembered of it.
pub proof fn law_lost_wake_is_retried(
    w: WatcherView,
    mission_id: u128,
    task: BackgroundTask,
    ack: ResumeAck,
    a: TaskStep,
)
    requires
        ack != ResumeAck::Accepted,
        task_step(w, mission_id, task, TaskProgress::Told { ack }, a),
    ensures
        a is Leave,
        watcher_after(w, mission_id, task, TaskProgress::Told { ack }) == w,
{
}

// ---------------------------------------------------------------------------
// What a mission is told, and when
// ---------------------------------------------------------------------------

/// A mission is told the whole output that was read, which task and which command it is of,
/// and whether it was waited for too long.
pub proof fn law_mission_is_told_the_output(task: BackgroundTask, tail: Seq<char>, timed_out: bool)
    requires
        tail.len() > 0,
    ensures
        has_infix(resume_text(task, tail, timed_out), "```\n"@ + tail + "\n```"@),
        resume_text(task, tail, timed_out) == "Background task `"@ + task.id@ + "` (`"@ + (
        if trimmed(task.command@).len() > 0 {
            task.command@
        } else {
            "(command unavailable)"@
        }) + "`) finished. Output:\n\n```\n"@ + tail + "\n```"@ + (if timed_out {
            "\n\n(Note: reported as finished after the 30-minute watcher timeout; it may still be running.)"@
        } else {
            ""@
        }) + "\n\nContinue from here."@,
{
    let t = resume_text(task, tail, timed_out);
    let head = "Background task `"@ + task.id@ + "` (`"@ + command_shown(task.command@);
    let note = if timed_out {
        "\n\n(Note: reported as finished after the 30-minute watcher timeout; it may still be running.)"@
    } else {
        ""@
    };
    reveal_strlit("`) finished. Output:\n\n```\n");
    reveal_strlit("```\n");
    let open = "`) finished. Output:\n\n```\n"@;
    let a = head + open.take(open.len() - 4);
    assert(open =~= open.take(open.len() - 4) + "```\n"@);
    let m = "```\n"@ + tail + "\n```"@;
    let b = note + "\n\nContinue from here."@;
    assert(head + open =~= a + "```\n"@);
    assert(t == head + open + tail + "\n```"@ + note + "\n\nContinue from here."@);
    assert(t =~= a + m + b);
    law_parts_of_a_text(a, m, b);
}

/// Where nothing of the output is there, the mission is told so.
pub proof fn law_mission_is_told_of_missing_output(task: BackgroundTask, timed_out: bool)
    requires
        trimmed(task.command@).len() > 0,
    ensures
        resume_text(task, Seq::empty(), timed_out) == "Background task `"@ + task.id@ + "` (`"@
            + task.command@ + "`) finished. (No captured output was available.)"@ + (if timed_out {
            " (reported finished after the 30-minute watcher timeout; it may still be running.)"@
        } else {
            ""@
        }) + "\n\nContinue from here."@,
{
}

/// Of the output only the line breaks at its end are left out.
pub proof fn law_output_is_told_to_its_end(output: Seq<char>, breaks: Seq<char>)
    requires
        output.len() > 0 ==> output.last() != '\n',
        forall|i: int| 0 <= i < breaks.len() ==> #[trigger] breaks[i] == '\n',
    ensures
        tail_of(Some(output + breaks)) == output,
        tail_of(None).len() == 0,
{
    law_trim_back_cuts_the_back(output, breaks, CharSet::One('\n'));
}

/// Once the output was read, the mission is told all of it.
pub proof fn law_read_output_reaches_the_mission(
    w: WatcherView,
    mission_id: u128,
    task: BackgroundTask,
    printed: String,
    timed_out: bool,
    a: TaskStep,
)
    requires
        task_step(
            w,
            mission_id,
            task,
            TaskProgress::OutputRead { printed: Some(printed), timed_out },
            a,
        ),
        printed@.len() > 0,
        printed@.last() != '\n',
    ensures
        a is Tell,
        has_infix(a->Tell_content@, "```\n"@ + printed@ + "\n```"@),
        a->Tell_label@ == "Resuming: background task `"@ + task.id@ + "` finished"@,
        a->Tell_content@ == resume_text(task, printed@, timed_out),
{
    law_output_is_told_to_its_end(printed@, Seq::empty());
    assert(printed@ + Seq::<char>::empty() =~= printed@);
    law_mission_is_told_the_output(task, printed@, timed_out);
}

/// A task is searched for by its command, as far as 120 bytes of it go; else by its name; else
/// by the name of its output file without `.output`.
pub proof fn law_task_is_searched_for(task: BackgroundTask, dir: Seq<char>, stem: Seq<char>)
    ensures
        ({
            let command = trimmed(task.command@);
            let p = pgrep_pattern(task);
            &&& command.len() > 0 && vstd::utf8::encode_utf8(command).len() <= 120 ==> p == command
            &&& command.len() > 0 ==> p.len() > 0 && has_prefix(command, p)
                && vstd::utf8::encode_utf8(p).len() <= 120 && (p.len() < command.len()
                ==> vstd::utf8::encode_utf8(command.take(p.len() as int + 1)).len() > 120)
            &&& command.len() == 0 && task.id@.len() > 0 ==> p == task.id@
            &&& command.len() == 0 && task.id@.len() == 0 && task.output_path@ == dir + seq!['/']
                + stem + ".output"@ && stem.len() > 0 && (forall|i: int|
                0 <= i < stem.len() ==> #[trigger] stem[i] != '/') ==> p == stem
        }),
{
    let command = trimmed(task.command@);
    crate::text::lemma_chars_within(command, 120);
    if vstd::utf8::encode_utf8(command).len() <= 120 {
        crate::text::law_short_text_is_kept(command, 120);
    }
    if command.len() > 0 {
        lemma_one_character_fits(command);
    } else {
        assert(pgrep_prefix(task.command@).len() == 0);
    }
    reveal_strlit(".output");
    let name = stem + ".output"@;
    if command.len() == 0 && task.id@.len() == 0 && task.output_path@ == dir + seq!['/'] + stem
        + ".output"@ && stem.len() > 0 && (forall|i: int|
        0 <= i < stem.len() ==> #[trigger] stem[i] != '/') {
        assert forall|i: int| 0 <= i < name.len() implies #[trigger] name[i] != '/' by {
            if i < stem.len() {
                assert(name[i] == stem[i]);
            } else {
                assert(name[i] == ".output"@[i - stem.len()]);
            }
        }
        reveal_strlit(".");
        reveal_strlit("..");
        law_file_name_is_the_last_component(dir, name);
        assert(dir + seq!['/'] + stem + ".output"@ =~= dir + seq!['/'] + name);
        law_parts_of_a_text(stem, ".output"@, Seq::empty());
    }
}

proof fn lemma_one_character_fits(s: Seq<char>)
    requires
        s.len() > 0,
    ensures
        prefix_within(s, 120).len() > 0,
{
    let rest = s.drop_first();
    let left = 120 - crate::text::char_bytes(s[0]);
    assert(0 <= left);
    crate::text::lemma_chars_within(rest, left);
    assert(crate::text::chars_within(s, 120) == 1 + crate::text::chars_within(rest, left));
    crate::text::lemma_chars_within(s, 120);
}

/// The last component of a path is the name of a file.
pub proof fn law_file_name_is_the_last_component(dir: Seq<char>, name: Seq<char>)
    requires
        name.len() > 0,
        name != "."@ && name != ".."@,
        forall|i: int| 0 <= i < name.len() ==> #[trigger] name[i] != '/',
    ensures
        path_file_name(dir + seq!['/'] + name) == Some(name),
        path_file_name(name) == Some(name),
{
    let set = CharSet::One('/');
    crate::text::law_split_parts_at_separators(dir, '/', name, set);
    crate::text::lemma_split_whole(name, set);
    let all = split_at_set(dir, set) + seq![name];
    assert(all.drop_last() =~= split_at_set(dir, set));
    assert(all.last() == name);
    let one = seq![name];
    assert(one.drop_last().len() == 0);
}

/// The scripts look at the very file and the very pattern of a task, whatever characters stand
/// in them, and print at most 4000 bytes.
pub proof fn law_scripts_name_their_task(task: BackgroundTask)
    ensures
        exists|q: Seq<char>, p: Seq<char>|
            {
                &&& #[trigger] shell_word(q, false) == Some(task.output_path@)
                &&& #[trigger] shell_word(p, false) == Some(pgrep_pattern(task))
                &&& probe_text(task) == "\nset -u\nP="@ + q + "\nPAT="@ + p
                    + r#"
EXISTS=0
M=0
if [ -e "$P" ]; then
  EXISTS=1
  M=$(stat -c %Y "$P" 2>/dev/null) || M=$(stat -f %m "$P" 2>/dev/null) || M=0
fi
BUSY=0
HAS_PGREP=0
SELF=$$
# This script embeds the command pattern, so the probe shell (and the subshells
# it forks for $(…), which share its argv) match `pgrep -f $PAT` themselves.
# Skip our own pid and every pid whose /proc cmdline equals ours. Linux-only:
# /proc is absent on macOS host workspaces, so SELFCMD stays empty and only $$
# is skipped there. Production nspawn containers are Linux and get the full guard.
SELFCMD=$(tr '\0' ' ' < /proc/$$/cmdline 2>/dev/null)
if [ -n "$PAT" ] && command -v pgrep >/dev/null 2>&1; then
  HAS_PGREP=1
  for pid in $(pgrep -f -- "$PAT" 2>/dev/null); do
    [ "$pid" = "$SELF" ] && continue
    PIDCMD=$(tr '\0' ' ' < /proc/$pid/cmdline 2>/dev/null)
    [ -n "$SELFCMD" ] && [ "$PIDCMD" = "$SELFCMD" ] && continue
    BUSY=1
    break
  done
fi
if [ "$BUSY" = "0" ] && [ "$EXISTS" = "1" ] && command -v fuser >/dev/null 2>&1; then
  if fuser "$P" >/dev/null 2>&1; then BUSY=1; fi
fi
echo "BG $EXISTS $M $BUSY $HAS_PGREP"
"#@
                &&& tail_text(task.output_path@) == "set -u; P="@ + q
                    + "; [ -f \"$P\" ] && tail -c "@ + "4000"@ + " \"$P\" 2>/dev/null || true"@
            },
{
    let q = quoted(task.output_path@);
    let p = quoted(pgrep_pattern(task));
    law_shell_reads_quoted_text(task.output_path@);
    law_shell_reads_quoted_text(pgrep_pattern(task));
    reveal_strlit("4000");
    reveal_with_fuel(decimal, 4);
    assert(decimal(4000) =~= "4000"@);
    assert(shell_word(q, false) == Some(task.output_path@));
    assert(shell_word(p, false) == Some(pgrep_pattern(task)));
}

/// What a look printed is read off the first line that begins with `BG`: whether the file is
/// there, when it was written, whether the process runs, and whether that could be told.
pub proof fn law_look_is_read(
    before: Seq<Seq<char>>,
    line: Seq<char>,
    after: Seq<Seq<char>>,
    rest: Seq<char>,
    words: Seq<Seq<char>>,
    file: nat,
    written: nat,
    busy: nat,
    searched: nat,
)
    requires
        trimmed(line) == "BG "@ + rest,
        words_of(rest) == words,
        forall|i: int| 0 <= i < before.len() ==> !has_prefix(trimmed(#[trigger] before[i]), "BG "@),
        file <= 255 && busy <= 255 && searched <= 255 && written <= 0xffff_ffff_ffff_ffff,
        words.len() >= 3,
        words[0] == decimal(file) && words[1] == decimal(written) && words[2] == decimal(busy),
        words.len() >= 4 ==> words[3] == decimal(searched),
    ensures
        probe_lines(before + seq![line] + after) == (ProbeView::Observed {
            exists: file != 0,
            mtime_epoch: written as int,
            busy: busy != 0,
            pgrep_available: words.len() >= 4 && searched != 0,
        }),
        probe_lines(before) == (ProbeView::Unknown { reason: None }),
    decreases before.len(),
{
    let all = before + seq![line] + after;
    if before.len() == 0 {
        assert(all[0] == line);
        law_parts_of_a_text(Seq::empty(), "BG "@, rest);
        crate::text::law_numbers_read_back(file, 255);
        crate::text::law_numbers_read_back(written, 0xffff_ffff_ffff_ffff);
        crate::text::law_numbers_read_back(busy, 255);
        crate::text::law_numbers_read_back(searched, 255);
    } else {
        assert(all[0] == before[0]);
        assert(all.drop_first() =~= before.drop_first() + seq![line] + after);
        let fewer = before.drop_first();
        assert forall|i: int| 0 <= i < fewer.len() implies !has_prefix(
            trimmed(#[trigger] fewer[i]),
            "BG "@,
        ) by {
            assert(fewer[i] == before[i + 1]);
        }
        law_look_is_read(fewer, line, after, rest, words, file, written, busy, searched);
    }
}

/// When a task counts as finished: once its process is gone for 15 seconds, and was seen
/// before or could have been, as 20 seconds have passed since its start.
pub proof fn law_when_a_task_is_finished(prev: Option<BgWatch>, busy: bool, age: u64, now: u64)
    ensures
        ({
            let (finished, w) = decided(prev, busy, age, now);
            let seen = prev matches Some(p) && p.was_busy;
            &&& finished == (!busy && (seen || age >= 20) && (prev matches Some(p)
                && p.idle_since matches Some(t) && t <= now && now - t >= 15_000_000_000))
            &&& w.was_busy == (busy || seen)
            &&& busy ==> w.idle_since is None
            &&& !busy ==> w.idle_since == match prev {
                Some(p) => if p.idle_since is Some {
                    p.idle_since
                } else {
                    Some(now)
                },
                None => Some(now),
            }
        }),
{
}

/// When a task is given up: after half an hour.
pub proof fn law_when_a_task_is_given_up(started_at: u64, now: u64)
    ensures
        overdue(started_at, now) == (started_at <= now && now - started_at >= 1_800_000_000_000),
        mission_step(MissionLookup::Missing, started_at, now) == MissionStep::Remove,
        mission_step(MissionLookup::Failed, started_at, now) == MissionStep::Skip,
        mission_step(MissionLookup::Found(MissionStatus::AwaitingUser), started_at, now)
            == MissionStep::Watch,
        mission_step(MissionLookup::Found(MissionStatus::Completed), started_at, now)
            == MissionStep::Remove,
        mission_step(MissionLookup::Found(MissionStatus::Failed), started_at, now)
            == MissionStep::Remove,
        mission_step(MissionLookup::Found(MissionStatus::NotFeasible), started_at, now)
            == MissionStep::Remove,
        mission_step(MissionLookup::Found(MissionStatus::Other), started_at, now) == if started_at
            <= now && now - started_at >= 1_800_000_000_000 {
            MissionStep::Remove
        } else {
            MissionStep::Skip
        },
{
}

/// What a look leads to: a finished task has its output read where there is any, and what is
/// remembered of other tasks stays.
pub proof fn law_look_at_a_task(
    w: Map<(u128, Seq<char>), BgWatch>,
    key: (u128, Seq<char>),
    other: (u128, Seq<char>),
    exists_: bool,
    mtime_epoch: int,
    busy: bool,
    age_secs: u64,
    now: u64,
)
    requires
        other != key,
    ensures
        ({
            let probe = ProbeView::Observed {
                exists: exists_,
                mtime_epoch,
                busy,
                pgrep_available: true,
            };
            let known = if w.dom().contains(key) {
                Some(w[key])
            } else {
                None
            };
            let (step, after) = probe_step(w, key, probe, age_secs, now);
            let d = decided(known, busy, age_secs, now);
            &&& step == if d.0 {
                ProbeStep::Finished { read_output: exists_ }
            } else {
                ProbeStep::Waiting
            }
            &&& after.dom().contains(key) && after[key] == d.1
            &&& after.dom().contains(other) == w.dom().contains(other)
            &&& w.dom().contains(other) ==> after[other] == w[other]
        }),
{
}

/// The tour of a task: what is done after each step, in the order in which it is done.
pub proof fn law_tour_of_a_task(
    w: WatcherView,
    mission_id: u128,
    task: BackgroundTask,
    p: TaskProgress,
    a: TaskStep,
)
    requires
        task_step(w, mission_id, task, p, a),
    ensures
        match p {
            TaskProgress::Begun => if w.checks_done >= 64 {
                a is EndTick
            } else {
                a is LookUpMission
            },
            TaskProgress::MissionLookedUp { lookup, .. } => {
                &&& lookup == MissionLookup::Missing ==> a is Forget
                &&& lookup == MissionLookup::Failed ==> a is Leave
                &&& lookup == MissionLookup::Found(MissionStatus::AwaitingUser)
                    ==> a is LookUpWorkspace
            },
            TaskProgress::WorkspaceLookedUp { found, now } => {
                let late = task.started_at <= now && now - task.started_at >= 1_800_000_000_000;
                &&& !found ==> a is Leave
                &&& found && late ==> a is ReadOutput && a->ReadOutput_timed_out
                    && a->ReadOutput_script@ == tail_text(task.output_path@)
                &&& found && !late ==> a is Probe && a->Probe_script@ == probe_text(task)
            },
            TaskProgress::OutputRead { .. } => a is Tell,
            TaskProgress::Told { ack } => if ack == ResumeAck::Accepted {
                a is Forget
            } else {
                a is Leave
            },
            TaskProgress::Probed { .. } => a is Leave || (a is ReadOutput
                && !a->ReadOutput_timed_out && a->ReadOutput_script@ == tail_text(
                task.output_path@,
            )) || (a is Tell && a->Tell_content@ == resume_text(task, Seq::empty(), false)),
        },
        ({
            let after = watcher_after(w, mission_id, task, p);
            &&& p is Begun || p is MissionLookedUp || p is OutputRead ==> after == w
            &&& a is Probe ==> after.checks_done == w.checks_done + 1 && after.watches == w.watches
            &&& p is Told ==> after.checks_done == w.checks_done && after.watches == if a is Forget {
                w.watches.remove((mission_id, task.id@))
            } else {
                w.watches
            }
        }),
{
}

/// A registry holds, of each mission, the tasks that were recorded for it and no others.
pub proof fn law_recorded_tasks_are_held(
    m: Map<(u128, Seq<char>), BackgroundTask>,
    mission: u128,
    task: BackgroundTask,
    other: (u128, BackgroundTask),
)
    ensures
        is_task_of(m.insert((mission, task.id@), task), (mission, task)),
        !is_task_of(Map::<(u128, Seq<char>), BackgroundTask>::empty(), other),
        is_task_of(m.insert((mission, task.id@), task), other) ==> other == (mission, task)
            || is_task_of(m, other),
        is_task_of(m, other) && other.0 != mission ==> is_task_of(
            m.insert((mission, task.id@), task),
            other,
        ),
{
    let after = m.insert((mission, task.id@), task);
    assert(after.dom().contains((mission, task.id@)));
    if is_task_of(after, other) {
        let k = choose|k: (u128, Seq<char>)| #[trigger]
            after.dom().contains(k) && k.0 == other.0 && after[k] == other.1;
        if k != (mission, task.id@) {
            assert(m.dom().contains(k));
        }
    }
    if is_task_of(m, other) && other.0 != mission {
        let k = choose|k: (u128, Seq<char>)| #[trigger]
            m.dom().contains(k) && k.0 == other.0 && m[k] == other.1;
        assert(after.dom().contains(k));
    }
}

} // verus!
