//! The backup orchestrator's verifiable core: the one-way running state,
//! the plan of one cron-triggered job (archive name, compression mode, and
//! the destinations to fan out to), the join-then-delete rule that ends a
//! job, and the drain discipline of graceful shutdown. The scheduler
//! thread, the task runtime and the sockets live outside the library and
//! follow these rules.

use vstd::prelude::*;
use vstd::string::{StrSliceExecFns, StringExecFns};

use crate::config::BackerConfig;
use crate::utils::file::CompressType;

verus! {

/// The orchestrator's one-way state: it runs until it is terminated.
#[derive(Debug, Clone, Copy, PartialEq, Eq, Structural)]
pub enum State {
    Running,
    Terminated,
}

impl State {
    /// Whether the scheduler loop should take another tick.
    pub fn is_running(&self) -> (r: bool)
        ensures
            r == (*self == State::Running),
    {
        match self {
            State::Running => true,
            State::Terminated => false,
        }
    }
}

/// One configured backup destination.
#[derive(Debug, Clone, Copy, PartialEq, Eq, Structural)]
pub enum BackupTarget {
    /// The peer protocol server, fed over the framing codec.
    BackerServer,
    /// The Qiniu object store, fed through its vendor interface.
    Qiniu,
    /// The Aliyun object store; a placeholder that only logs.
    AliyunOss,
    /// The Tencent object store; a placeholder that only logs.
    TencentOss,
}

/// The destination a configured name denotes, if any.
pub open spec fn spec_target(name: Seq<char>) -> Option<BackupTarget> {
    if name == "backer-server"@ {
        Option::Some(BackupTarget::BackerServer)
    } else if name == "qiniu"@ {
        Option::Some(BackupTarget::Qiniu)
    } else if name == "aliyun-oss"@ {
        Option::Some(BackupTarget::AliyunOss)
    } else if name == "tencent-oss"@ {
        Option::Some(BackupTarget::TencentOss)
    } else {
        Option::None
    }
}

/// The destinations a list of configured names denotes, in list order;
/// a name that denotes none is skipped (and logged by the caller).
pub open spec fn spec_targets(names: Seq<String>) -> Seq<BackupTarget>
    decreases names.len(),
{
    if names.len() == 0 {
        Seq::empty()
    } else {
        spec_targets(names.drop_last()) + (match spec_target(names.last()@) {
            Option::Some(t) => seq![t],
            Option::None => Seq::empty(),
        })
    }
}

/// Resolves one configured destination name.
pub fn resolve_target(name: &String) -> (r: Option<BackupTarget>)
    ensures
        r == spec_target(name@),
{
    if *name == String::from_str("backer-server") {
        Some(BackupTarget::BackerServer)
    } else if *name == String::from_str("qiniu") {
        Some(BackupTarget::Qiniu)
    } else if *name == String::from_str("aliyun-oss") {
        Some(BackupTarget::AliyunOss)
    } else if *name == String::from_str("tencent-oss") {
        Some(BackupTarget::TencentOss)
    } else {
        None
    }
}

/// Everything one job run needs to know before it starts: how to pack,
/// what to call the archive, where to ship it, and whether the archive's
/// bytes must be read back into memory (only the peer server needs them).
#[derive(Debug)]
pub struct JobPlan {
    pub compress_mode: CompressType,
    pub archive_file_name: String,
    pub targets: Vec<BackupTarget>,
    pub needs_file_data: bool,
}

/// Lays out one job run from the configuration and a timestamp: tar for
/// the `tar.gz` mode and zip for every other, the archive named
/// `Archive-<timestamp>.<mode>`, one destination per recognized target
/// name in configuration order, and the archive bytes read back only when
/// the peer server is among them.
pub fn plan_backup_job(cfg: &BackerConfig, now: &str) -> (r: JobPlan)
    ensures
        r.compress_mode == (if cfg.compress_mode@ == "tar.gz"@ {
            CompressType::Tar
        } else {
            CompressType::Zip
        }),
        r.archive_file_name@ == "Archive-"@ + now@ + "."@ + cfg.compress_mode@,
        r.targets@ == spec_targets(cfg.backup_target@),
        r.needs_file_data == spec_targets(cfg.backup_target@).contains(
            BackupTarget::BackerServer,
        ),
{
    let compress_mode = if cfg.compress_mode == String::from_str("tar.gz") {
        CompressType::Tar
    } else {
        CompressType::Zip
    };
    let mut archive_file_name = String::from_str("Archive-");
    archive_file_name.append(now);
    archive_file_name.append(".");
    archive_file_name.append(cfg.compress_mode.as_str());
    let mut targets: Vec<BackupTarget> = Vec::new();
    let mut needs_file_data = false;
    let mut i: usize = 0;
    while i < cfg.backup_target.len()
        invariant
            0 <= i <= cfg.backup_target@.len(),
            targets@ == spec_targets(cfg.backup_target@.take(i as int)),
            needs_file_data == spec_targets(cfg.backup_target@.take(i as int)).contains(
                BackupTarget::BackerServer,
            ),
        decreases cfg.backup_target@.len() - i,
    {
        proof {
            assert(cfg.backup_target@.take(i as int + 1).drop_last() =~= cfg.backup_target@.take(
                i as int,
            ));
            assert(cfg.backup_target@.take(i as int + 1).last() == cfg.backup_target@[i as int]);
        }
        match resolve_target(&cfg.backup_target[i]) {
            Some(t) => {
                targets.push(t);
                if t == BackupTarget::BackerServer {
                    needs_file_data = true;
                }
                proof {
                    assert(targets@ =~= spec_targets(cfg.backup_target@.take(i as int)) + seq![t]);
                    assert(targets@.last() == t);
                    if t == BackupTarget::BackerServer {
                        assert(targets@.contains(BackupTarget::BackerServer));
                    } else {
                        assert(spec_targets(cfg.backup_target@.take(i as int + 1)).contains(
                            BackupTarget::BackerServer,
                        ) == spec_targets(cfg.backup_target@.take(i as int)).contains(
                            BackupTarget::BackerServer,
                        )) by {
                            let pre = spec_targets(cfg.backup_target@.take(i as int));
                            let post = spec_targets(cfg.backup_target@.take(i as int + 1));
                            assert(post =~= pre + seq![t]);
                            if pre.contains(BackupTarget::BackerServer) {
                                let j = choose|j: int|
                                    0 <= j < pre.len() && pre[j] == BackupTarget::BackerServer;
                                assert(post[j] == BackupTarget::BackerServer);
                            }
                            if post.contains(BackupTarget::BackerServer) {
                                let j = choose|j: int|
                                    0 <= j < post.len() && post[j] == BackupTarget::BackerServer;
                                assert(j < pre.len());
                                assert(pre[j] == BackupTarget::BackerServer);
                            }
                        }
                    }
                }
            },
            None => {
                proof {
                    assert(targets@ =~= spec_targets(cfg.backup_target@.take(i as int + 1)));
                }
            },
        }
        i = i + 1;
    }
    proof {
        assert(cfg.backup_target@.take(i as int) =~= cfg.backup_target@);
    }
    JobPlan { compress_mode, archive_file_name, targets, needs_file_data }
}

/// Relies on `chrono::Local::now` and its formatter: the current local
/// time as `date_time` text. The value depends on the clock, so nothing
/// is promised of it.
#[verifier::external_body]
fn local_timestamp() -> String {
    chrono::Local::now().format("%F_%T").to_string()
}

/// Lays out one job run against the clock: as `plan_backup_job`, with the
/// current local time as the timestamp. Whatever the clock said, the
/// modes, the destinations and the archive-name shape are those of
/// `plan_backup_job` for some timestamp.
pub fn plan_backup_job_now(cfg: &BackerConfig) -> (r: JobPlan)
    ensures
        r.compress_mode == (if cfg.compress_mode@ == "tar.gz"@ {
            CompressType::Tar
        } else {
            CompressType::Zip
        }),
        exists|ts: Seq<char>| r.archive_file_name@ == "Archive-"@ + ts + "."@ + cfg.compress_mode@,
        r.targets@ == spec_targets(cfg.backup_target@),
        r.needs_file_data == spec_targets(cfg.backup_target@).contains(
            BackupTarget::BackerServer,
        ),
{
    let now = local_timestamp();
    let r = plan_backup_job(cfg, now.as_str());
    proof {
        assert(r.archive_file_name@ == "Archive-"@ + now@ + "."@ + cfg.compress_mode@);
    }
    r
}

/// What one finished job run reports: the per-destination outcomes, in
/// plan order, and that the staged archive was deleted.
#[derive(Debug, Clone, PartialEq)]
pub struct JobReport {
    pub results: Vec<bool>,
    pub archive_deleted: bool,
}

/// Ends one job run once every destination task has been joined: each
/// destination keeps exactly its own outcome — one destination's failure
/// neither changes nor suppresses a sibling's result — and the staged
/// archive is ordered deleted unconditionally, however many failed.
pub fn finish_backup_job(targets: &Vec<BackupTarget>, outcomes: Vec<bool>) -> (r: JobReport)
    requires
        outcomes@.len() == targets@.len(),
    ensures
        r.results@ == outcomes@,
        r.archive_deleted,
{
    JobReport { results: outcomes, archive_deleted: true }
}

/// The in-flight job tasks the orchestrator owns. Graceful shutdown
/// drains this collection: every task is handed back to be awaited, none
/// is dropped or cancelled.
pub struct PendingTasks<T> {
    tasks: Vec<T>,
}

impl<T> View for PendingTasks<T> {
    type V = Seq<T>;

    closed spec fn view(&self) -> Seq<T> {
        self.tasks@
    }
}

impl<T> PendingTasks<T> {
    /// No task in flight.
    pub fn new() -> (r: Self)
        ensures
            r@ == Seq::<T>::empty(),
    {
        Self { tasks: Vec::new() }
    }

    /// Records one spawned task.
    pub fn push(&mut self, task: T)
        ensures
            final(self)@ == old(self)@.push(task),
    {
        self.tasks.push(task);
    }

    /// How many tasks are in flight.
    pub fn len(&self) -> (r: usize)
        ensures
            r == self@.len(),
    {
        self.tasks.len()
    }

    /// Hands back every in-flight task, in spawn order, leaving none
    /// behind: the caller awaits each one, so shutdown is a drain and no
    /// task observes a forced interruption.
    pub fn drain(&mut self) -> (r: Vec<T>)
        ensures
            r@ == old(self)@,
            final(self)@.len() == 0,
    {
        let mut out: Vec<T> = Vec::new();
        core::mem::swap(&mut out, &mut self.tasks);
        out
    }
}

} // verus!
