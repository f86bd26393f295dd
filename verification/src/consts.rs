//! Names and defaults shared by the backup client, the server and the
//! configuration loader.

use vstd::prelude::*;

verus! {

/// Directory under the user's home where archives are staged.
pub const ARCHIVE_DIR_SUFFIX: &'static str = ".backer/archive";

/// Destination name of the peer protocol server.
pub const TARGET_BACKER_SERVER: &'static str = "backer-server";

/// Destination name of the Qiniu object store.
pub const TARGET_QINIU: &'static str = "qiniu";

/// Destination name of the Aliyun object store.
pub const TARGET_ALIYUN_OSS: &'static str = "aliyun-oss";

/// Destination name of the Tencent object store.
pub const TARGET_TENCENT_OSS: &'static str = "tencent-oss";

/// Compression mode producing a zip archive.
pub const COMPRESS_MODE_ZIP: &'static str = "zip";

/// Compression mode producing a gzip-compressed tar archive.
pub const COMPRESS_MODE_TAR: &'static str = "tar.gz";

/// Prefix of every archive file name.
pub const DEFAULT_ARCHIVE_PREFIX: &'static str = "Archive";

/// Six-field cron expression: daily at midnight.
pub const DEFAULT_CRON: &'static str = "0 0 0 * * *";

/// Destination name of the peer protocol server, as the job runner reads it.
pub const BACKUP_TARGET_BACKER_SERVER: &'static str = "backer-server";

/// Destination name of the Qiniu object store, as the job runner reads it.
pub const BACKUP_TARGET_QINIU: &'static str = "qiniu";

/// Destination name of the Aliyun object store, as the job runner reads it.
pub const BACKUP_TARGET_ALIYUN_OSS: &'static str = "aliyun-oss";

/// Destination name of the Tencent object store, as the job runner reads it.
pub const BACKUP_TARGET_TENCENT_OSS: &'static str = "tencent-oss";

} // verus!
