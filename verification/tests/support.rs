//! The small supporting pieces: errors, versions, envelopes, names and
//! path helpers.

use backer::consts;
use backer::errors::CustomError;
use backer::message::{BackerMessage, MessageType};
use backer::packet::message::{BaseMessage, FileBuffer};
use backer::server::Server;
use backer::utils::file::{file_name_of, get_file_name, read_file_info_without_file_data, FileInfo};
use backer::version::{VersionInfo, BACKER_SERVER_VERSION, BACKER_VERSION};

#[test]
fn custom_error_keeps_its_message() {
    let e = CustomError::new(String::from("boom"));
    assert_eq!(e.message().as_str(), "boom");
}

#[test]
fn constants_match_the_protocol() {
    assert_eq!(consts::TARGET_BACKER_SERVER, "backer-server");
    assert_eq!(consts::TARGET_QINIU, "qiniu");
    assert_eq!(consts::TARGET_ALIYUN_OSS, "aliyun-oss");
    assert_eq!(consts::TARGET_TENCENT_OSS, "tencent-oss");
    assert_eq!(consts::COMPRESS_MODE_ZIP, "zip");
    assert_eq!(consts::COMPRESS_MODE_TAR, "tar.gz");
    assert_eq!(consts::DEFAULT_ARCHIVE_PREFIX, "Archive");
    assert_eq!(consts::DEFAULT_CRON, "0 0 0 * * *");
    assert_eq!(consts::ARCHIVE_DIR_SUFFIX, ".backer/archive");
    assert_eq!(consts::BACKUP_TARGET_BACKER_SERVER, consts::TARGET_BACKER_SERVER);
}

#[test]
fn version_banner_lists_all_fields() {
    let v = VersionInfo {
        name: "backer",
        version: BACKER_VERSION,
        compiler: "rustc test",
        compile_time: "now",
    };
    let banner = v.render();
    assert_eq!(
        banner,
        "    Name: backer\n    Version: 0.1.1\n    Compiler: rustc test\n    CompileTime: now"
    );
    assert_eq!(BACKER_SERVER_VERSION, "0.1.1");
}

#[test]
fn envelope_keeps_tag_and_payload() {
    let m = BackerMessage::new(MessageType::Syslog, vec![1u8, 2]);
    assert_eq!(m.message_type(), MessageType::Syslog);
    assert_eq!(m.data(), &vec![1u8, 2]);
}

#[test]
fn file_name_is_the_part_after_the_last_separator() {
    assert_eq!(file_name_of("/var/backups/archive.tar.gz"), "archive.tar.gz");
    assert_eq!(file_name_of("archive.zip"), "archive.zip");
    assert_eq!(file_name_of("a/b/c"), "c");
    assert_eq!(file_name_of(""), "");
}

#[test]
fn get_file_name_rejects_what_is_not_a_file() {
    let r = get_file_name("/definitely/not/a/real/file.bin");
    let e = r.expect_err("a missing path is not a file");
    assert_eq!(
        e.message().as_str(),
        "path [/definitely/not/a/real/file.bin] is not a file"
    );
}

#[test]
fn metadata_without_content_rejects_missing_files_too() {
    assert!(read_file_info_without_file_data("/definitely/not/here").is_err());
}

#[test]
fn file_info_holds_what_it_was_given() {
    let fi = FileInfo::new(
        String::from("n"),
        String::from("/p/n"),
        Box::new(vec![3u8, 4]),
    );
    assert_eq!(fi.file_name, "n");
    assert_eq!(fi.absolute_path, "/p/n");
    assert_eq!(*fi.file_data, vec![3u8, 4]);
    let d = FileInfo::default();
    assert_eq!(d.file_name, "");
    assert!(d.file_data.is_empty());
}

#[test]
fn server_remembers_port_and_directory() {
    let s = Server::new(String::from("9618"), String::from("/tmp/backer_dir"));
    assert_eq!(s.port().as_str(), "9618");
    assert_eq!(s.backer_dir().as_str(), "/tmp/backer_dir");
}

#[test]
fn chunk_payload_codec_round_trips_via_base_message() {
    let fb = FileBuffer {
        is_begin: true,
        is_end: false,
        file_name: String::from("f"),
        buffer: vec![5u8, 6],
    };
    let bytes = fb.encode().expect("chunk should encode");
    let mut out = FileBuffer::default();
    out.decode(&bytes).expect("chunk should decode");
    assert_eq!(out, fb);
}
