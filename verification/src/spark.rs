//! Running the build of a mission on the DGX Spark: which requests are served, and how.
use vstd::prelude::*;

use crate::auth::{refusal, refuses, Refusal};
use crate::json::{object3, opt_text, Json, JsonView, NumberView};
use crate::text::{
    blank, cat2, cat3, contains, has_infix, has_prefix, is_blank, law_split_parts_at_separators,
    law_text_before_a_character, law_trim_back_cuts_the_back, law_trim_keeps_the_middle,
    lemma_split_whole, lemma_trim_back_keeps, lemma_trim_back_prefix, split_at_set, split_set, stands_at, starts_with, str_eq, trim_back,
    trim_both, trim_set, trim_set_back, trimmed, before_first, text_before, CharSet,
};

verus! {

/// A request for a build.
pub struct OffloadRequest {
    /// The root of the mission's workspace on the host.
    pub host_dir: String,
    /// Where to build, below the root.
    pub rel: String,
    pub cmd: String,
    pub priority: String,
}

/// The priority of a build, unless it is said otherwise.
pub fn default_priority() -> (r: String)
    ensures
        r@ == "P0"@,
{
    "P0".to_string()
}

/// Where the Spark is reached.
pub struct SparkConfig {
    pub arbiter_url: Option<String>,
    pub arbiter_token: Option<String>,
    pub ssh_target: Option<String>,
}

/// A build that is to be run.
pub struct OffloadPlan {
    pub url: String,
    pub token: String,
    pub ssh: String,
    pub host_dir: String,
    /// Where the workspace is copied to, below the home directory.
    pub remote_rel: String,
    /// Where the build is run.
    pub remote_cwd: String,
}

pub struct OffloadResponse {
    pub exit_code: i64,
    pub log: String,
}

/// Whether a directory is the workspace of a mission: an absolute path with the
/// mission's mark and no `..`.
pub open spec fn is_mission_dir(dir: Seq<char>) -> bool {
    &&& has_prefix(dir, "/"@)
    &&& has_infix(dir, "/workspaces/mission-"@)
    &&& !has_infix(dir, ".."@)
}

/// A path without slashes at its end.
pub open spec fn tidy(dir: Seq<char>) -> Seq<char> {
    trim_back(dir, CharSet::One('/'))
}

/// The last component of a path.
pub open spec fn last_segment(path: Seq<char>) -> Seq<char> {
    split_at_set(path, CharSet::One('/')).last()
}

/// The user in an SSH target.
pub open spec fn ssh_user(ssh: Seq<char>) -> Seq<char> {
    match before_first(ssh, '@') {
        Some(u) => u,
        None => ssh,
    }
}

/// Where the workspace is copied to, below the home directory.
pub open spec fn remote_dir(dir: Seq<char>) -> Seq<char> {
    ".spark-builds/"@ + last_segment(tidy(dir))
}

/// Where the build is run.
pub open spec fn build_dir(ssh: Seq<char>, dir: Seq<char>, rel: Seq<char>) -> Seq<char> {
    let root = "/home/"@ + ssh_user(ssh) + "/"@ + remote_dir(dir);
    if rel.len() == 0 {
        root
    } else {
        root + "/"@ + trim_both(rel, CharSet::One('/'))
    }
}

/// Why a request is refused, if it is.
pub open spec fn offload_refused(config: SparkConfig, req: OffloadRequest) -> Option<
    (u16, Seq<char>),
> {
    if config.arbiter_url is None || config.arbiter_token is None || config.ssh_target is None {
        Some((503, "spark offload not configured"@))
    } else if !is_mission_dir(req.host_dir@) {
        Some((400, "invalid host_dir"@))
    } else if blank(req.cmd@) {
        Some((400, "cmd required"@))
    } else if has_prefix(last_segment(tidy(req.host_dir@)), "-"@) {
        Some((400, "invalid host_dir"@))
    } else {
        None
    }
}

fn segment(path: &str) -> (r: String)
    ensures
        r@ == last_segment(path@),
{
    let pieces = split_set(path, CharSet::One('/'));
    proof {
        crate::text::lemma_split_nonempty(path@, CharSet::One('/'));
    }
    assert(pieces.deep_view().last() == pieces@.last()@);
    pieces[pieces.len() - 1].clone()
}

/// How a build is run, or why it is refused.
pub fn plan_offload(config: &SparkConfig, req: &OffloadRequest) -> (r: Result<OffloadPlan, Refusal>)
    ensures
        match offload_refused(*config, *req) {
            Some((status, m)) => r matches Err(e) && refuses(e, status, m),
            None => r matches Ok(p) && {
                &&& config.arbiter_url == Some(p.url)
                &&& config.arbiter_token == Some(p.token)
                &&& config.ssh_target == Some(p.ssh)
                &&& p.host_dir@ == tidy(req.host_dir@)
                &&& p.remote_rel@ == remote_dir(req.host_dir@)
                &&& p.remote_cwd@ == build_dir(p.ssh@, req.host_dir@, req.rel@)
            },
        },
{
    let (url, token, ssh) = match (&config.arbiter_url, &config.arbiter_token, &config.ssh_target) {
        (Some(url), Some(token), Some(ssh)) => (url, token, ssh),
        _ => {
            return Err(refusal(503, "spark offload not configured"));
        },
    };
    let dir = req.host_dir.as_str();
    if !starts_with(dir, "/") || !contains(dir, "/workspaces/mission-") || contains(dir, "..") {
        return Err(refusal(400, "invalid host_dir"));
    }
    if is_blank(req.cmd.as_str()) {
        return Err(refusal(400, "cmd required"));
    }
    let host_dir = trim_set_back(dir, CharSet::One('/')).to_string();
    let name = segment(host_dir.as_str());
    if starts_with(name.as_str(), "-") {
        return Err(refusal(400, "invalid host_dir"));
    }
    let user = match text_before(ssh.as_str(), '@') {
        Some(u) => u,
        None => ssh.as_str(),
    };
    let remote_rel = cat2(".spark-builds/", name.as_str());
    let mut remote_cwd = cat3("/home/", user, "/");
    remote_cwd.push_str(remote_rel.as_str());
    if !req.rel.as_str().is_empty() {
        remote_cwd.push_str("/");
        remote_cwd.push_str(trim_set(req.rel.as_str(), CharSet::One('/')));
    }
    Ok(
        OffloadPlan {
            url: url.clone(),
            token: token.clone(),
            ssh: ssh.clone(),
            host_dir,
            remote_rel,
            remote_cwd,
        },
    )
}

/// The command that copies a workspace to the Spark.
pub open spec fn upload_command(p: OffloadPlan) -> Seq<Seq<char>> {
    seq![
        "rsync"@,
        "-az"@,
        "--delete"@,
        "--exclude"@,
        ".git"@,
        "-e"@,
        "ssh"@,
        "--"@,
        p.host_dir@ + "/"@,
        p.ssh@ + ":"@ + p.remote_rel@ + "/"@,
    ]
}

/// The command that copies what was built back.
pub open spec fn download_command(p: OffloadPlan) -> Seq<Seq<char>> {
    seq![
        "rsync"@,
        "-az"@,
        "-e"@,
        "ssh"@,
        "--"@,
        p.ssh@ + ":"@ + p.remote_rel@ + "/"@,
        p.host_dir@ + "/"@,
    ]
}

fn remote_path(p: &OffloadPlan) -> (r: String)
    ensures
        r@ == p.ssh@ + ":"@ + p.remote_rel@ + "/"@,
{
    let mut out = cat3(p.ssh.as_str(), ":", p.remote_rel.as_str());
    out.push_str("/");
    out
}

pub fn upload_args(p: &OffloadPlan) -> (r: Vec<String>)
    ensures
        r.deep_view() == upload_command(*p),
{
    let mut v: Vec<String> = Vec::new();
    v.push("rsync".to_string());
    v.push("-az".to_string());
    v.push("--delete".to_string());
    v.push("--exclude".to_string());
    v.push(".git".to_string());
    v.push("-e".to_string());
    v.push("ssh".to_string());
    v.push("--".to_string());
    v.push(cat2(p.host_dir.as_str(), "/"));
    v.push(remote_path(p));
    assert(v.deep_view() =~= upload_command(*p));
    v
}

pub fn download_args(p: &OffloadPlan) -> (r: Vec<String>)
    ensures
        r.deep_view() == download_command(*p),
{
    let mut v: Vec<String> = Vec::new();
    v.push("rsync".to_string());
    v.push("-az".to_string());
    v.push("-e".to_string());
    v.push("ssh".to_string());
    v.push("--".to_string());
    v.push(remote_path(p));
    v.push(cat2(p.host_dir.as_str(), "/"));
    assert(v.deep_view() =~= download_command(*p));
    v
}

/// A directory that reaches a command is an absolute path of the mission's workspace,
/// without `..` in it, and its last component does not look like an option.
pub proof fn law_directory_is_no_option(config: SparkConfig, req: OffloadRequest)
    requires
        offload_refused(config, req) is None,
    ensures
        ({
            let dir = tidy(req.host_dir@);
            &&& has_prefix(dir, "/"@)
            &&& !has_infix(dir, ".."@)
            &&& !has_prefix(last_segment(dir), "-"@)
        }),
{
    reveal_strlit("/");
    reveal_strlit("/workspaces/mission-");
    let s = req.host_dir@;
    let mark = "/workspaces/mission-"@;
    let set = CharSet::One('/');
    let t = tidy(s);
    lemma_trim_back_prefix(s, set);
    let i = choose|i: int| #[trigger] stands_at(s, mark, i);
    assert(stands_at(s, mark, i));
    assert(s.subrange(i, i + mark.len())[1] == 'w');
    assert(s[i + 1] == 'w');
    lemma_trim_back_keeps(s, set, i + 1);
    assert(s.take(1)[0] == s[0]);
    assert(t.take(1) =~= s.take(1));
    if has_infix(t, ".."@) {
        let k = choose|k: int| #[trigger] stands_at(t, ".."@, k);
        assert(stands_at(t, ".."@, k));
        assert(s.subrange(k, k + ".."@.len()) =~= t.subrange(k, k + ".."@.len()));
        assert(stands_at(s, ".."@, k));
    }
}

/// Every path in a command stands behind the `--`, and the local one begins with `/`.
pub proof fn law_paths_are_no_options(config: SparkConfig, req: OffloadRequest, p: OffloadPlan)
    requires
        offload_refused(config, req) is None,
        p.host_dir@ == tidy(req.host_dir@),
    ensures
        upload_command(p).len() == 10,
        upload_command(p)[7] == "--"@,
        has_prefix(upload_command(p)[8], "/"@),
        download_command(p).len() == 7,
        download_command(p)[4] == "--"@,
        has_prefix(download_command(p)[6], "/"@),
{
    reveal_strlit("/");
    law_directory_is_no_option(config, req);
    let path = p.host_dir@ + "/"@;
    assert(path.take(1) =~= p.host_dir@.take(1));
}

/// Whether a build goes on after its workspace was copied, given whether the command
/// succeeded and what it printed.
pub fn after_upload(succeeded: bool, output: &str) -> (r: Result<(), Refusal>)
    ensures
        if succeeded {
            r is Ok
        } else {
            r matches Err(e) && refuses(e, 502, "rsync up failed: "@ + output@)
        },
{
    if succeeded {
        return Ok(());
    }
    let m = cat2("rsync up failed: ", output);
    Err(refusal(502, m.as_str()))
}

/// The body of the request that submits a build.
pub fn submit_body(req: &OffloadRequest, p: &OffloadPlan) -> (r: Json)
    ensures
        r@ == JsonView::Object(
            seq![
                ("cmd"@, JsonView::Text(req.cmd@)),
                ("cwd"@, JsonView::Text(p.remote_cwd@)),
                ("priority"@, JsonView::Text(req.priority@)),
            ],
        ),
{
    object3(
        "cmd",
        Json::Text(req.cmd.clone()),
        "cwd",
        Json::Text(p.remote_cwd.clone()),
        "priority",
        Json::Text(req.priority.clone()),
    )
}

/// What came of submitting a build.
pub enum SubmitReply {
    Reply(Json),
    /// The reply was no JSON.
    Unreadable(String),
    /// There was no reply.
    Unreachable(String),
}

/// The build that was submitted, or why there is none.
pub fn after_submit(reply: &SubmitReply) -> (r: Result<String, Refusal>)
    ensures
        match *reply {
            SubmitReply::Reply(j) => match opt_text(j@.get("id"@)) {
                Some(id) => r matches Ok(job) && job@ == id,
                None => r matches Err(e) && refuses(e, 502, "arbiter returned no job id"@),
            },
            SubmitReply::Unreadable(m) => r matches Err(e) && refuses(
                e,
                502,
                "arbiter submit parse: "@ + m@,
            ),
            SubmitReply::Unreachable(m) => r matches Err(e) && refuses(
                e,
                502,
                "arbiter unreachable: "@ + m@,
            ),
        },
{
    match reply {
        SubmitReply::Reply(j) => match j.get_str("id") {
            Some(id) => Ok(id.to_string()),
            None => Err(refusal(502, "arbiter returned no job id")),
        },
        SubmitReply::Unreadable(m) => {
            let m = cat2("arbiter submit parse: ", m.as_str());
            Err(refusal(502, m.as_str()))
        },
        SubmitReply::Unreachable(m) => {
            let m = cat2("arbiter unreachable: ", m.as_str());
            Err(refusal(502, m.as_str()))
        },
    }
}

/// The addresses of the arbiter.
pub fn submit_url(url: &str) -> (r: String)
    ensures
        r@ == url@ + "/build"@,
{
    cat2(url, "/build")
}

pub fn job_url(url: &str, job: &str) -> (r: String)
    ensures
        r@ == url@ + "/build/"@ + job@,
{
    cat3(url, "/build/", job)
}

/// How often a build is asked for.
pub const MAX_POLLS: u32 = 1200;

/// How many seconds pass between two questions.
pub const POLL_INTERVAL_SECS: u64 = 3;

/// What an answer to the question for a build leads to.
pub enum PollStep {
    /// The build is asked for again.
    Again,
    Done(OffloadResponse),
    /// The build took too long.
    Refused(Refusal),
}

/// Whether a build is over.
pub open spec fn build_over(reply: JsonView) -> bool {
    opt_text(reply.get("status"@)) == Some("done"@) || opt_text(reply.get("status"@)) == Some(
        "failed"@,
    )
}

/// The exit code of a build.
pub open spec fn exit_code_of(reply: JsonView) -> int {
    match reply.get("exit_code"@) {
        Some(v) => match v.as_i64() {
            Some(n) => n,
            None => -1,
        },
        None => -1,
    }
}

/// The end of a build's log.
pub open spec fn log_of(reply: JsonView) -> Seq<char> {
    match opt_text(reply.get("log_tail"@)) {
        Some(s) => s,
        None => Seq::empty(),
    }
}

/// What the answer to question number `polls` leads to; nothing came where there is no
/// `reply`.
pub fn poll_step(polls: u32, reply: &Option<Json>) -> (r: PollStep)
    requires
        1 <= polls <= MAX_POLLS,
    ensures
        match *reply {
            Some(v) => if build_over(v@) {
                r matches PollStep::Done(o) && o.exit_code == exit_code_of(v@) && o.log@ == log_of(
                    v@,
                )
            } else if polls < MAX_POLLS {
                r is Again
            } else {
                r matches PollStep::Refused(e) && refuses(e, 504, "build timed out on spark"@)
            },
            None => if polls < MAX_POLLS {
                r is Again
            } else {
                r matches PollStep::Refused(e) && refuses(e, 504, "build timed out on spark"@)
            },
        },
{
    if let Some(v) = reply {
        let over = match v.get_str("status") {
            Some(s) => str_eq(s, "done") || str_eq(s, "failed"),
            None => false,
        };
        if over {
            let exit_code: i64 = match v.get("exit_code") {
                Some(n) => match n.as_i64() {
                    Some(n) => n,
                    None => -1,
                },
                None => -1,
            };
            let log = match v.get_str("log_tail") {
                Some(s) => s.to_string(),
                None => String::new(),
            };
            return PollStep::Done(OffloadResponse { exit_code, log });
        }
    }
    if polls < MAX_POLLS {
        PollStep::Again
    } else {
        PollStep::Refused(refusal(504, "build timed out on spark"))
    }
}

// ---------------------------------------------------------------------------
// Laws
// ---------------------------------------------------------------------------

/// Which builds are refused, and why: where the Spark is not set up, where the directory is no
/// workspace of a mission, and where there is no command.
pub proof fn law_which_builds_are_refused(config: SparkConfig, req: OffloadRequest)
    ensures
        ({
            let ready = config.arbiter_url is Some && config.arbiter_token is Some
                && config.ssh_target is Some;
            let dir = req.host_dir@;
            let mission = has_prefix(dir, "/"@) && has_infix(dir, "/workspaces/mission-"@)
                && !has_infix(dir, ".."@);
            &&& !ready ==> offload_refused(config, req) == Some(
                (503u16, "spark offload not configured"@),
            )
            &&& ready && !mission ==> offload_refused(config, req) == Some(
                (400u16, "invalid host_dir"@),
            )
            &&& ready && mission && trimmed(req.cmd@).len() == 0 ==> offload_refused(config, req)
                == Some((400u16, "cmd required"@))
            &&& ready && mission && trimmed(req.cmd@).len() > 0 && !has_prefix(
                last_segment(tidy(dir)),
                "-"@,
            ) ==> offload_refused(config, req) is None
            &&& ready && mission && trimmed(req.cmd@).len() > 0 && has_prefix(
                last_segment(tidy(dir)),
                "-"@,
            ) ==> offload_refused(config, req) == Some((400u16, "invalid host_dir"@))
        }),
{
}

/// Where a workspace is copied to and built: under its own name, in the home directory of the
/// user of the Spark, and in the directory that was asked for.
pub proof fn law_where_a_build_is_run(
    parent: Seq<char>,
    name: Seq<char>,
    slashes: Seq<char>,
    user: Seq<char>,
    host: Seq<char>,
    a: Seq<char>,
    rel: Seq<char>,
    b: Seq<char>,
)
    requires
        name.len() > 0,
        forall|i: int| 0 <= i < name.len() ==> #[trigger] name[i] != '/',
        forall|i: int| 0 <= i < slashes.len() ==> #[trigger] slashes[i] == '/',
        forall|i: int| 0 <= i < user.len() ==> #[trigger] user[i] != '@',
        forall|i: int| 0 <= i < a.len() ==> #[trigger] a[i] == '/',
        forall|i: int| 0 <= i < b.len() ==> #[trigger] b[i] == '/',
        rel.len() > 0 && rel[0] != '/' && rel.last() != '/',
    ensures
        ({
            let dir = parent + seq!['/'] + name;
            let ssh = user + seq!['@'] + host;
            &&& tidy(dir + slashes) == dir
            &&& remote_dir(dir + slashes) == ".spark-builds/"@ + name
            &&& build_dir(ssh, dir + slashes, Seq::empty()) == "/home/"@ + user + "/"@ + (
            ".spark-builds/"@ + name)
            &&& build_dir(ssh, dir + slashes, a + rel + b) == "/home/"@ + user + "/"@ + (
            ".spark-builds/"@ + name) + "/"@ + rel
            &&& ssh_user(user) == user
        }),
{
    let set = CharSet::One('/');
    let dir = parent + seq!['/'] + name;
    assert(dir.last() == name.last() && name[name.len() - 1] == name.last());
    law_trim_back_cuts_the_back(dir, slashes, set);
    law_split_parts_at_separators(parent, '/', name, set);
    lemma_split_whole(name, set);
    assert((split_at_set(parent, set) + seq![name]).last() == name);
    law_text_before_a_character(user, '@', host);
    law_trim_keeps_the_middle(a, rel, b, set);
}

/// A workspace is copied to the Spark but for its history, and made to look the same there;
/// what was built is copied back.
pub proof fn law_what_is_copied(p: OffloadPlan)
    ensures
        ({
            let here = p.host_dir@ + "/"@;
            let there = p.ssh@ + ":"@ + p.remote_rel@ + "/"@;
            &&& upload_command(p) == seq![
                "rsync"@,
                "-az"@,
                "--delete"@,
                "--exclude"@,
                ".git"@,
                "-e"@,
                "ssh"@,
                "--"@,
                here,
                there,
            ]
            &&& download_command(p) == seq!["rsync"@, "-az"@, "-e"@, "ssh"@, "--"@, there, here]
        }),
{
}

/// What is read off the answer for a build.
pub proof fn law_build_is_read(reply: JsonView, n: int, log: Seq<char>)
    ensures
        build_over(reply) == (reply.get("status"@) == Some(JsonView::Text("done"@)) || reply.get(
            "status"@,
        ) == Some(JsonView::Text("failed"@))),
        reply.get("exit_code"@) == Some(JsonView::Number(NumberView::Int(n))) && i64::MIN <= n
            <= i64::MAX ==> exit_code_of(reply) == n,
        reply.get("exit_code"@) is None ==> exit_code_of(reply) == -1,
        reply.get("log_tail"@) == Some(JsonView::Text(log)) ==> log_of(reply) == log,
        reply.get("log_tail"@) is None ==> log_of(reply).len() == 0,
        MAX_POLLS == 1200,
        POLL_INTERVAL_SECS == 3,
{
}

} // verus!
