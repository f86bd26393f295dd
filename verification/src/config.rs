//! The backup configuration: what to archive, how to pack it, when to run,
//! and where to ship the result. Reading the file and parsing its YAML
//! happen outside the library; the defaults and the validation rules are
//! here, verified.

use vstd::prelude::*;
use vstd::string::StringExecFns;

verus! {

/// Why a configuration is rejected.
#[derive(Debug, Clone, PartialEq)]
pub enum ConfigError {
    BackupFilesEmpty,
    JobCronEmpty,
    TargetEmpty,
    BackerServerIpInvalid,
    RuntimeConfigInvalid(String),
    YamlConfigInvalid(String),
    QiniuAccessKeyEmpty,
    QiniuSecretKeyEmpty,
    QiniuBucketNameEmpty,
}

/// Address of the peer protocol server.
#[derive(Debug, Clone, PartialEq)]
pub struct BackerServer {
    pub ip: String,
    pub port: u16,
}

impl Default for BackerServer {
    /// No address configured.
    fn default() -> (r: Self)
        ensures
            r.ip@ == Seq::<char>::empty(),
            r.port == 0,
    {
        Self { ip: String::new(), port: 0 }
    }
}

/// Credentials of the Qiniu object store.
#[derive(Debug, Clone, PartialEq)]
pub struct QiniuServer {
    pub access_key: String,
    pub secret_key: String,
    pub bucket_name: String,
}

impl Default for QiniuServer {
    /// No credentials configured.
    fn default() -> (r: Self)
        ensures
            r.access_key@ == Seq::<char>::empty(),
            r.secret_key@ == Seq::<char>::empty(),
            r.bucket_name@ == Seq::<char>::empty(),
    {
        Self { access_key: String::new(), secret_key: String::new(), bucket_name: String::new() }
    }
}

/// Credentials of the Aliyun object store.
#[derive(Debug, Clone, PartialEq)]
pub struct AliyunOssServer {
    pub endpoint: String,
    pub access_key: String,
    pub secret_key: String,
    pub bucket_name: String,
}

impl Default for AliyunOssServer {
    /// No credentials configured.
    fn default() -> (r: Self)
        ensures
            r.endpoint@ == Seq::<char>::empty(),
            r.access_key@ == Seq::<char>::empty(),
            r.secret_key@ == Seq::<char>::empty(),
            r.bucket_name@ == Seq::<char>::empty(),
    {
        Self {
            endpoint: String::new(),
            access_key: String::new(),
            secret_key: String::new(),
            bucket_name: String::new(),
        }
    }
}

/// Credentials of the Tencent object store; that destination is a
/// placeholder and needs none yet.
#[derive(Debug, Clone, PartialEq)]
pub struct TencentOssServer {}

impl Default for TencentOssServer {
    fn default() -> (r: Self) {
        Self {  }
    }
}

/// The whole backup configuration.
#[derive(Debug, Clone, PartialEq)]
pub struct BackerConfig {
    pub backup_files: Vec<String>,
    pub compress_mode: String,
    pub archive_prefix: String,
    pub job_cron: String,
    pub backup_target: Vec<String>,
    pub backer_server: BackerServer,
    pub qiniu: QiniuServer,
    pub aliyun_oss: AliyunOssServer,
    pub tencent_oss: TencentOssServer,
}

impl Default for BackerConfig {
    /// The canonical defaults: tar.gz compression, the `Archive` name
    /// prefix, a daily-at-midnight cron, and nothing else configured.
    fn default() -> (r: Self)
        ensures
            r.backup_files@.len() == 0,
            r.compress_mode@ == "tar.gz"@,
            r.archive_prefix@ == "Archive"@,
            r.job_cron@ == "0 0 0 * * *"@,
            r.backup_target@.len() == 0,
    {
        Self {
            backup_files: Vec::new(),
            compress_mode: String::from_str("tar.gz"),
            archive_prefix: String::from_str("Archive"),
            job_cron: String::from_str("0 0 0 * * *"),
            backup_target: Vec::new(),
            backer_server: BackerServer::default(),
            qiniu: QiniuServer::default(),
            aliyun_oss: AliyunOssServer::default(),
            tencent_oss: TencentOssServer::default(),
        }
    }
}

/// The error one listed target contributes, if any: the peer server needs
/// a resolvable address, the Qiniu store needs its three credentials; any
/// other name contributes nothing here.
pub open spec fn spec_target_error(
    cfg: BackerConfig,
    backer_ip_ok: bool,
    target: Seq<char>,
) -> Option<ConfigError> {
    if target == "backer-server"@ {
        if !backer_ip_ok {
            Option::Some(ConfigError::BackerServerIpInvalid)
        } else {
            Option::None
        }
    } else if target == "qiniu"@ {
        if cfg.qiniu.access_key@.len() == 0 {
            Option::Some(ConfigError::QiniuAccessKeyEmpty)
        } else if cfg.qiniu.secret_key@.len() == 0 {
            Option::Some(ConfigError::QiniuSecretKeyEmpty)
        } else if cfg.qiniu.bucket_name@.len() == 0 {
            Option::Some(ConfigError::QiniuBucketNameEmpty)
        } else {
            Option::None
        }
    } else {
        Option::None
    }
}

/// The first error among the targets from position `i` on, in list order.
pub open spec fn spec_first_target_error(
    cfg: BackerConfig,
    backer_ip_ok: bool,
    i: int,
) -> Option<ConfigError>
    decreases cfg.backup_target@.len() - i,
{
    if i < 0 || i >= cfg.backup_target@.len() {
        Option::None
    } else {
        match spec_target_error(cfg, backer_ip_ok, cfg.backup_target@[i]@) {
            Option::Some(e) => Option::Some(e),
            Option::None => spec_first_target_error(cfg, backer_ip_ok, i + 1),
        }
    }
}

/// The outcome validation owes a configuration: the empty-list checks in
/// order, then the per-target checks in list order, `Ok` when none fires.
pub open spec fn spec_validation(cfg: BackerConfig, backer_ip_ok: bool) -> Result<
    (),
    ConfigError,
> {
    if cfg.backup_target@.len() == 0 {
        Result::Err(ConfigError::TargetEmpty)
    } else if cfg.backup_files@.len() == 0 {
        Result::Err(ConfigError::BackupFilesEmpty)
    } else if cfg.job_cron@.len() == 0 {
        Result::Err(ConfigError::JobCronEmpty)
    } else {
        match spec_first_target_error(cfg, backer_ip_ok, 0) {
            Option::Some(e) => Result::Err(e),
            Option::None => Result::Ok(()),
        }
    }
}

impl BackerConfig {
    /// Fills the three textual fields that may be left empty with their
    /// canonical defaults and leaves everything else untouched.
    pub fn apply_defaults(&mut self)
        ensures
            final(self).compress_mode@ == if old(self).compress_mode@.len() == 0 {
                "tar.gz"@
            } else {
                old(self).compress_mode@
            },
            final(self).archive_prefix@ == if old(self).archive_prefix@.len() == 0 {
                "Archive"@
            } else {
                old(self).archive_prefix@
            },
            final(self).job_cron@ == if old(self).job_cron@.len() == 0 {
                "0 0 0 * * *"@
            } else {
                old(self).job_cron@
            },
            final(self).backup_files@ == old(self).backup_files@,
            final(self).backup_target@ == old(self).backup_target@,
            final(self).backer_server == old(self).backer_server,
            final(self).qiniu == old(self).qiniu,
            final(self).aliyun_oss == old(self).aliyun_oss,
            final(self).tencent_oss == old(self).tencent_oss,
    {
        if self.compress_mode.as_str().is_empty() {
            self.compress_mode = String::from_str("tar.gz");
        }
        if self.archive_prefix.as_str().is_empty() {
            self.archive_prefix = String::from_str("Archive");
        }
        if self.job_cron.as_str().is_empty() {
            self.job_cron = String::from_str("0 0 0 * * *");
        }
    }

    /// Checks the configuration as `spec_validation` describes.
    ///
    /// `backer_ip_ok` reports whether the peer server's address is a
    /// literal IP or resolved through the resolver; that lookup happens
    /// outside the library and only its verdict is judged here.
    pub fn validate(&self, backer_ip_ok: bool) -> (r: Result<(), ConfigError>)
        ensures
            r == spec_validation(*self, backer_ip_ok),
    {
        if self.backup_target.len() == 0 {
            return Err(ConfigError::TargetEmpty);
        }
        if self.backup_files.len() == 0 {
            return Err(ConfigError::BackupFilesEmpty);
        }
        if self.job_cron.as_str().is_empty() {
            return Err(ConfigError::JobCronEmpty);
        }
        let backer_name = String::from_str("backer-server");
        let qiniu_name = String::from_str("qiniu");
        let mut i: usize = 0;
        while i < self.backup_target.len()
            invariant
                0 <= i <= self.backup_target@.len(),
                self.backup_target@.len() > 0,
                self.backup_files@.len() > 0,
                self.job_cron@.len() > 0,
                spec_first_target_error(*self, backer_ip_ok, 0) == spec_first_target_error(
                    *self,
                    backer_ip_ok,
                    i as int,
                ),
                backer_name@ == "backer-server"@,
                qiniu_name@ == "qiniu"@,
            decreases self.backup_target@.len() - i,
        {
            let target = &self.backup_target[i];
            let ghost terr = spec_target_error(*self, backer_ip_ok, self.backup_target@[i as int]@);
            if *target == backer_name {
                if !backer_ip_ok {
                    proof {
                        assert(terr == Option::Some(ConfigError::BackerServerIpInvalid));
                        assert(spec_first_target_error(*self, backer_ip_ok, i as int) == Option::Some(
                            ConfigError::BackerServerIpInvalid,
                        ));
                    }
                    return Err(ConfigError::BackerServerIpInvalid);
                }
            } else if *target == qiniu_name {
                if self.qiniu.access_key.as_str().is_empty() {
                    proof {
                        assert(spec_first_target_error(*self, backer_ip_ok, i as int) == Option::Some(
                            ConfigError::QiniuAccessKeyEmpty,
                        ));
                    }
                    return Err(ConfigError::QiniuAccessKeyEmpty);
                }
                if self.qiniu.secret_key.as_str().is_empty() {
                    proof {
                        assert(spec_first_target_error(*self, backer_ip_ok, i as int) == Option::Some(
                            ConfigError::QiniuSecretKeyEmpty,
                        ));
                    }
                    return Err(ConfigError::QiniuSecretKeyEmpty);
                }
                if self.qiniu.bucket_name.as_str().is_empty() {
                    proof {
                        assert(spec_first_target_error(*self, backer_ip_ok, i as int) == Option::Some(
                            ConfigError::QiniuBucketNameEmpty,
                        ));
                    }
                    return Err(ConfigError::QiniuBucketNameEmpty);
                }
            }
            proof {
                assert(terr is None);
                assert(spec_first_target_error(*self, backer_ip_ok, i as int)
                    == spec_first_target_error(*self, backer_ip_ok, i as int + 1));
            }
            i = i + 1;
        }
        Ok(())
    }
}

} // verus!
