//! Job planning, the join-then-delete rule, and the shutdown drain.

use backer::backer::{
    finish_backup_job, plan_backup_job, plan_backup_job_now, resolve_target, BackupTarget,
    PendingTasks, State,
};
use backer::config::BackerConfig;
use backer::utils::file::CompressType;

fn config_with_targets(targets: &[&str]) -> BackerConfig {
    let mut cfg = BackerConfig::default();
    cfg.backup_files = vec![String::from("/etc/hosts")];
    cfg.backup_target = targets.iter().map(|t| String::from(*t)).collect();
    cfg
}

#[test]
fn state_runs_until_terminated() {
    assert!(State::Running.is_running());
    assert!(!State::Terminated.is_running());
}

#[test]
fn target_names_resolve_to_destinations() {
    assert_eq!(
        resolve_target(&String::from("backer-server")),
        Some(BackupTarget::BackerServer)
    );
    assert_eq!(resolve_target(&String::from("qiniu")), Some(BackupTarget::Qiniu));
    assert_eq!(
        resolve_target(&String::from("aliyun-oss")),
        Some(BackupTarget::AliyunOss)
    );
    assert_eq!(
        resolve_target(&String::from("tencent-oss")),
        Some(BackupTarget::TencentOss)
    );
    assert_eq!(resolve_target(&String::from("elsewhere")), None);
}

#[test]
fn plan_names_the_archive_after_timestamp_and_mode() {
    let cfg = config_with_targets(&["backer-server"]);
    let plan = plan_backup_job(&cfg, "2021-03-04_05:06:07");
    assert_eq!(plan.archive_file_name, "Archive-2021-03-04_05:06:07.tar.gz");
    assert_eq!(plan.compress_mode, CompressType::Tar);
}

#[test]
fn plan_uses_zip_for_any_other_mode() {
    let mut cfg = config_with_targets(&["qiniu"]);
    cfg.compress_mode = String::from("zip");
    let plan = plan_backup_job(&cfg, "t");
    assert_eq!(plan.compress_mode, CompressType::Zip);
    assert_eq!(plan.archive_file_name, "Archive-t.zip");
}

#[test]
fn plan_keeps_destination_order_and_skips_unknown_names() {
    let cfg = config_with_targets(&["qiniu", "mystery", "backer-server", "tencent-oss"]);
    let plan = plan_backup_job(&cfg, "t");
    assert_eq!(
        plan.targets,
        vec![
            BackupTarget::Qiniu,
            BackupTarget::BackerServer,
            BackupTarget::TencentOss
        ]
    );
}

#[test]
fn archive_bytes_are_read_back_only_for_the_peer_server() {
    let cfg = config_with_targets(&["backer-server", "qiniu"]);
    assert!(plan_backup_job(&cfg, "t").needs_file_data);
    let cfg = config_with_targets(&["qiniu", "aliyun-oss"]);
    assert!(!plan_backup_job(&cfg, "t").needs_file_data);
}

#[test]
fn plan_against_the_clock_keeps_shape() {
    let cfg = config_with_targets(&["qiniu"]);
    let plan = plan_backup_job_now(&cfg);
    assert!(plan.archive_file_name.starts_with("Archive-"));
    assert!(plan.archive_file_name.ends_with(".tar.gz"));
    assert_eq!(plan.targets, vec![BackupTarget::Qiniu]);
}

#[test]
fn one_failed_destination_changes_nothing_for_its_siblings() {
    // destinations {backer-server, qiniu}; the qiniu task is forced to fail
    let targets = vec![BackupTarget::BackerServer, BackupTarget::Qiniu];
    let report = finish_backup_job(&targets, vec![true, false]);
    assert!(report.archive_deleted, "archive must go even after a failure");
    assert_eq!(report.results, vec![true, false]);
}

#[test]
fn archive_is_deleted_whatever_the_outcomes() {
    let targets = vec![BackupTarget::Qiniu, BackupTarget::AliyunOss];
    for outcomes in [vec![false, false], vec![true, true], vec![false, true]] {
        let report = finish_backup_job(&targets, outcomes.clone());
        assert!(report.archive_deleted);
        assert_eq!(report.results, outcomes);
    }
}

#[test]
fn drain_hands_back_every_task_and_leaves_none() {
    let mut pending: PendingTasks<u32> = PendingTasks::new();
    pending.push(10);
    pending.push(20);
    pending.push(30);
    assert_eq!(pending.len(), 3);
    let drained = pending.drain();
    assert_eq!(drained, vec![10, 20, 30]);
    assert_eq!(pending.len(), 0);
}

#[test]
fn drain_of_nothing_is_empty() {
    let mut pending: PendingTasks<u32> = PendingTasks::new();
    assert!(pending.drain().is_empty());
}
