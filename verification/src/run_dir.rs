//! Run directory layout and metadata.

use vstd::prelude::*;

use crate::config::RunConfig;
use crate::replay::schema::{
    ACTION_VERSION, OBSERVATION_VERSION, REPLAY_SCHEMA_VERSION, RULES_PROFILE_VERSION,
};

verus! {

/// Run status recorded in `metadata.json`.
#[derive(Debug, Clone, Copy, PartialEq, Eq, Structural)]
pub enum RunStatus {
    Running,
    Completed,
    Interrupted,
    Failed,
}

/// Run metadata.
#[derive(Debug, Clone, PartialEq, Eq)]
pub struct RunMetadata {
    pub run_id: String,
    pub status: RunStatus,
    pub git_revision: Option<String>,
    /// Branch the binary was built from.
    pub git_branch: Option<String>,
    /// Self-play / learner seed recorded for this run.
    pub seed: u64,
    /// Hardware scheduling profile label.
    pub hardware_profile: Option<String>,
    /// Model profile label.
    pub model_profile: Option<String>,
    pub recur64_version: String,
    pub observation_version: u32,
    pub action_version: u32,
    pub rules_profile_version: u32,
    pub replay_schema_version: u32,
    pub device: String,
    pub precision: String,
    pub note: Option<String>,
}

fn clone_opt(s: &Option<String>) -> (r: Option<String>)
    ensures
        r == *s,
{
    match s {
        Some(v) => Some(v.clone()),
        None => None,
    }
}

impl RunMetadata {
    /// Metadata of a running run of `cfg`, built from the given build
    /// provenance (git revision and branch, crate version).
    pub fn new(cfg: &RunConfig, git_revision: Option<String>, git_branch: Option<String>, recur64_version: String) -> (m: Self)
        ensures
            m.run_id == cfg.run_id,
            m.status == RunStatus::Running,
            m.git_revision == git_revision,
            m.git_branch == git_branch,
            m.seed == cfg.seed,
            m.hardware_profile == cfg.hardware_profile,
            m.model_profile == cfg.model_profile,
            m.recur64_version == recur64_version,
            m.observation_version == OBSERVATION_VERSION,
            m.action_version == ACTION_VERSION,
            m.rules_profile_version == RULES_PROFILE_VERSION,
            m.replay_schema_version == REPLAY_SCHEMA_VERSION,
            m.device == cfg.device,
            m.precision == cfg.precision,
            m.note is None,
    {
        RunMetadata {
            run_id: cfg.run_id.clone(),
            status: RunStatus::Running,
            git_revision,
            git_branch,
            seed: cfg.seed,
            hardware_profile: clone_opt(&cfg.hardware_profile),
            model_profile: clone_opt(&cfg.model_profile),
            recur64_version,
            observation_version: OBSERVATION_VERSION,
            action_version: ACTION_VERSION,
            rules_profile_version: RULES_PROFILE_VERSION,
            replay_schema_version: REPLAY_SCHEMA_VERSION,
            device: cfg.device.clone(),
            precision: cfg.precision.clone(),
            note: None,
        }
    }
}

/// A single relative path component: non-empty, without separators or
/// drive colons, and neither `.` nor `..`.
pub open spec fn plain_component(part: Seq<char>) -> bool {
    &&& part.len() > 0
    &&& forall|i: int| 0 <= i < part.len() ==> part[i] != '/' && part[i] != '\\' && part[i] != ':'
    &&& part != seq!['.']
    &&& part != seq!['.', '.']
}

/// A path separator on some platform: `/`, or `\` on Windows.
pub open spec fn is_separator(c: char) -> bool {
    c == '/' || c == '\\'
}

/// A root that may carry a Windows verbatim prefix (`\\?\`), under which
/// joining rebuilds the whole path.
pub open spec fn maybe_verbatim(root: Seq<char>) -> bool {
    &&& root.len() >= 3
    &&& is_separator(root[0])
    &&& is_separator(root[1])
    &&& root[2] == '?'
}

/// A bare Windows drive prefix such as `C:`, after which no separator is
/// inserted on Windows.
pub open spec fn bare_drive(root: Seq<char>) -> bool {
    &&& root.len() == 2
    &&& root[1] == ':'
    &&& (('a' <= root[0] && root[0] <= 'z') || ('A' <= root[0] && root[0] <= 'Z'))
}

/// A root that every platform extends with exactly one separator: non-empty,
/// not ending in a separator, not a bare drive prefix, and without a
/// verbatim prefix.
pub open spec fn plain_root(root: Seq<char>) -> bool {
    &&& root.len() > 0
    &&& !is_separator(root.last())
    &&& !bare_drive(root)
    &&& !maybe_verbatim(root)
}

/// `r` ends with `part`.
pub open spec fn ends_with(r: Seq<char>, part: Seq<char>) -> bool {
    r.len() >= part.len() && r.subrange(r.len() - part.len(), r.len() as int) == part
}

/// `root` joined with one plain component: the root, then no separator or a
/// single `/` or `\`, then the component.
pub open spec fn joined(r: Seq<char>, root: Seq<char>, part: Seq<char>) -> bool {
    exists|sep: Seq<char>| (sep.len() == 0 || (sep.len() == 1 && is_separator(sep[0]))) && r == root + sep + part
}

/// `part` as an entry inside the directory `root`: the root, exactly one
/// separator (`/` or `\`), then the component.
pub open spec fn child_path(r: Seq<char>, root: Seq<char>, part: Seq<char>) -> bool {
    exists|sep: char| is_separator(sep) && r == root.push(sep) + part
}

/// `std::path::Path::join` of a plain component. Claimed: the result ends
/// with the component; unless the root may carry a Windows verbatim prefix,
/// it is the root, then nothing or one separator (`/` or `\`), then the
/// component; and for a non-empty root that does not end in a separator and
/// is not a bare drive prefix, exactly one separator is inserted. Which of
/// the two separators is left unsaid: it depends on the platform. Under a
/// verbatim prefix Windows rebuilds the path, and only that it ends with
/// the component is claimed.
#[verifier::external_body]
fn join_component(root: &str, part: &str) -> (r: String)
    requires
        plain_component(part@),
    ensures
        ends_with(r@, part@),
        !maybe_verbatim(root@) ==> joined(r@, root@, part@),
        plain_root(root@) ==> child_path(r@, root@, part@),
{
    std::path::Path::new(root).join(part).to_string_lossy().into_owned()
}

/// The name `replay`.
pub open spec fn replay_part() -> Seq<char> {
    seq!['r', 'e', 'p', 'l', 'a', 'y']
}

/// The name `checkpoints`.
pub open spec fn checkpoints_part() -> Seq<char> {
    seq!['c', 'h', 'e', 'c', 'k', 'p', 'o', 'i', 'n', 't', 's']
}

/// The name `eval`.
pub open spec fn eval_part() -> Seq<char> {
    seq!['e', 'v', 'a', 'l']
}

/// The name `report`.
pub open spec fn report_part() -> Seq<char> {
    seq!['r', 'e', 'p', 'o', 'r', 't']
}

/// The name `logs`.
pub open spec fn logs_part() -> Seq<char> {
    seq!['l', 'o', 'g', 's']
}

/// The name `reference`.
pub open spec fn reference_part() -> Seq<char> {
    seq!['r', 'e', 'f', 'e', 'r', 'e', 'n', 'c', 'e']
}

/// The name `candidate`.
pub open spec fn candidate_part() -> Seq<char> {
    seq!['c', 'a', 'n', 'd', 'i', 'd', 'a', 't', 'e']
}

proof fn lemma_child_of_plain_root_is_plain(c: Seq<char>, root: Seq<char>, part: Seq<char>)
    requires
        plain_root(root),
        plain_component(part),
        part.len() >= 3,
        child_path(c, root, part),
    ensures
        plain_root(c),
{
    let sep = choose|sep: char| is_separator(sep) && c == root.push(sep) + part;
    assert(c.last() == part.last());
    assert(c[0] == root[0]);
    if root.len() >= 3 {
        assert(c[1] == root[1] && c[2] == root[2]);
    } else if root.len() == 2 {
        assert(c[1] == root[1] && c[2] == sep);
    } else {
        assert(c[1] == sep && c[2] == part[0]);
    }
}

/// The run directory layout.
#[derive(Debug, Clone, PartialEq, Eq)]
pub struct RunDir {
    pub root: String,
}

impl RunDir {
    /// `<root>/replay`.
    pub fn replay(&self) -> (r: String)
        ensures
            ends_with(r@, replay_part()),
            !maybe_verbatim(self.root@) ==> joined(r@, self.root@, replay_part()),
            plain_root(self.root@) ==> child_path(r@, self.root@, replay_part()),
    {
        proof {
            reveal_strlit("replay");
        }
        let part = "replay";
        assert(part@ =~= replay_part());
        join_component(self.root.as_str(), part)
    }

    /// `<root>/checkpoints`.
    pub fn checkpoints(&self) -> (r: String)
        ensures
            ends_with(r@, checkpoints_part()),
            !maybe_verbatim(self.root@) ==> joined(r@, self.root@, checkpoints_part()),
            plain_root(self.root@) ==> child_path(r@, self.root@, checkpoints_part()),
    {
        proof {
            reveal_strlit("checkpoints");
        }
        let part = "checkpoints";
        assert(part@ =~= checkpoints_part());
        join_component(self.root.as_str(), part)
    }

    /// `<root>/eval`.
    pub fn eval(&self) -> (r: String)
        ensures
            ends_with(r@, eval_part()),
            !maybe_verbatim(self.root@) ==> joined(r@, self.root@, eval_part()),
            plain_root(self.root@) ==> child_path(r@, self.root@, eval_part()),
    {
        proof {
            reveal_strlit("eval");
        }
        let part = "eval";
        assert(part@ =~= eval_part());
        join_component(self.root.as_str(), part)
    }

    /// `<root>/report`.
    pub fn report(&self) -> (r: String)
        ensures
            ends_with(r@, report_part()),
            !maybe_verbatim(self.root@) ==> joined(r@, self.root@, report_part()),
            plain_root(self.root@) ==> child_path(r@, self.root@, report_part()),
    {
        proof {
            reveal_strlit("report");
        }
        let part = "report";
        assert(part@ =~= report_part());
        join_component(self.root.as_str(), part)
    }

    /// `<root>/logs`.
    pub fn logs(&self) -> (r: String)
        ensures
            ends_with(r@, logs_part()),
            !maybe_verbatim(self.root@) ==> joined(r@, self.root@, logs_part()),
            plain_root(self.root@) ==> child_path(r@, self.root@, logs_part()),
    {
        proof {
            reveal_strlit("logs");
        }
        let part = "logs";
        assert(part@ =~= logs_part());
        join_component(self.root.as_str(), part)
    }

    /// `<root>/checkpoints/reference`.
    pub fn reference_ckpt(&self) -> (r: String)
        ensures
            ends_with(r@, reference_part()),
            !maybe_verbatim(self.root@) ==> exists|c: Seq<char>|
                #[trigger] joined(c, self.root@, checkpoints_part())
                    && (maybe_verbatim(c) || joined(r@, c, reference_part())),
            plain_root(self.root@) ==> exists|c: Seq<char>|
                #[trigger] child_path(c, self.root@, checkpoints_part()) && child_path(r@, c, reference_part()),
    {
        proof {
            reveal_strlit("reference");
        }
        let c = self.checkpoints();
        let part = "reference";
        assert(part@ =~= reference_part());
        let r = join_component(c.as_str(), part);
        proof {
            if plain_root(self.root@) {
                lemma_child_of_plain_root_is_plain(c@, self.root@, checkpoints_part());
            }
        }
        r
    }

    /// `<root>/checkpoints/candidate`.
    pub fn candidate_ckpt(&self) -> (r: String)
        ensures
            ends_with(r@, candidate_part()),
            !maybe_verbatim(self.root@) ==> exists|c: Seq<char>|
                #[trigger] joined(c, self.root@, checkpoints_part())
                    && (maybe_verbatim(c) || joined(r@, c, candidate_part())),
            plain_root(self.root@) ==> exists|c: Seq<char>|
                #[trigger] child_path(c, self.root@, checkpoints_part()) && child_path(r@, c, candidate_part()),
    {
        proof {
            reveal_strlit("candidate");
        }
        let c = self.checkpoints();
        let part = "candidate";
        assert(part@ =~= candidate_part());
        let r = join_component(c.as_str(), part);
        proof {
            if plain_root(self.root@) {
                lemma_child_of_plain_root_is_plain(c@, self.root@, checkpoints_part());
            }
        }
        r
    }
}

proof fn lemma_ends_differ(a: Seq<char>, b: Seq<char>, pa: Seq<char>, pb: Seq<char>, k: int)
    requires
        ends_with(a, pa),
        ends_with(b, pb),
        1 <= k <= pa.len(),
        k <= pb.len(),
        pa[pa.len() - k] != pb[pb.len() - k],
    ensures
        a != b,
{
    if a == b {
        assert(a.subrange(a.len() - pa.len(), a.len() as int)[pa.len() - k] == a[a.len() - k]);
        assert(b.subrange(b.len() - pb.len(), b.len() as int)[pb.len() - k] == b[b.len() - k]);
    }
}

/// The areas of a run directory are distinct paths, whatever the root: any
/// results of `replay`, `checkpoints`, `eval`, `report`, `logs`,
/// `reference_ckpt` and `candidate_ckpt` (each ending with its own name,
/// as their contracts state) are pairwise different.
pub proof fn lemma_run_dir_paths_distinct(
    replay: Seq<char>,
    checkpoints: Seq<char>,
    eval: Seq<char>,
    report: Seq<char>,
    logs: Seq<char>,
    reference: Seq<char>,
    candidate: Seq<char>,
)
    requires
        ends_with(replay, replay_part()),
        ends_with(checkpoints, checkpoints_part()),
        ends_with(eval, eval_part()),
        ends_with(report, report_part()),
        ends_with(logs, logs_part()),
        ends_with(reference, reference_part()),
        ends_with(candidate, candidate_part()),
    ensures
        replay != checkpoints && replay != eval && replay != report && replay != logs,
        replay != reference && replay != candidate,
        checkpoints != eval && checkpoints != report && checkpoints != logs,
        checkpoints != reference && checkpoints != candidate,
        eval != report && eval != logs && eval != reference && eval != candidate,
        report != logs && report != reference && report != candidate,
        logs != reference && logs != candidate,
        reference != candidate,
{
    lemma_ends_differ(replay, checkpoints, replay_part(), checkpoints_part(), 1);
    lemma_ends_differ(replay, eval, replay_part(), eval_part(), 1);
    lemma_ends_differ(replay, report, replay_part(), report_part(), 1);
    lemma_ends_differ(replay, logs, replay_part(), logs_part(), 1);
    lemma_ends_differ(replay, reference, replay_part(), reference_part(), 1);
    lemma_ends_differ(replay, candidate, replay_part(), candidate_part(), 1);
    lemma_ends_differ(checkpoints, eval, checkpoints_part(), eval_part(), 1);
    lemma_ends_differ(checkpoints, report, checkpoints_part(), report_part(), 1);
    lemma_ends_differ(checkpoints, logs, checkpoints_part(), logs_part(), 2);
    lemma_ends_differ(checkpoints, reference, checkpoints_part(), reference_part(), 1);
    lemma_ends_differ(checkpoints, candidate, checkpoints_part(), candidate_part(), 1);
    lemma_ends_differ(eval, report, eval_part(), report_part(), 1);
    lemma_ends_differ(eval, logs, eval_part(), logs_part(), 1);
    lemma_ends_differ(eval, reference, eval_part(), reference_part(), 1);
    lemma_ends_differ(eval, candidate, eval_part(), candidate_part(), 1);
    lemma_ends_differ(report, logs, report_part(), logs_part(), 1);
    lemma_ends_differ(report, reference, report_part(), reference_part(), 1);
    lemma_ends_differ(report, candidate, report_part(), candidate_part(), 1);
    lemma_ends_differ(logs, reference, logs_part(), reference_part(), 1);
    lemma_ends_differ(logs, candidate, logs_part(), candidate_part(), 1);
    lemma_ends_differ(reference, candidate, reference_part(), candidate_part(), 2);
}

} // verus!
