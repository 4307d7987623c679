//! The inbound side.

use pesit::article::RecordFormat;
use pesit::builder::FileSpec;
use pesit::checkpoint::Checkpoint;
use pesit::datapath::{DataEnd, DataResult, Progress};
use pesit::diag::Diagnostic;
use pesit::node::admission::{
    admit_create, admit_select, begin_write, connector, read_from, write_path, Found, ReadFrom,
};
use pesit::client::model::TransferRequest;
use pesit::node::api::{
    active_transfers, create, create_server, entity_not_found, filter_transfers, not_in_progress,
    transfer_stats, update, update_server, validate_server, TransferQuery,
};
use pesit::node::backup::{
    backup_key, bundle_signature, bytes_of_base64, is_carried, open_signature, rejected, signature_text,
    signed_bytes, verdict,
    BundleSignature,
};
use pesit::node::cli::{advertised_address, Target};
use pesit::node::config::{
    bootstrapped, bootstrapped_remote, bootstrapped_server, min_tls, NodeOptions,
};
use pesit::node::handler::{
    apply_progress, authenticate, check_create, check_overwrite, check_partner, check_select,
    connector_key, interrupted_record, io_refusal, message_record, message_reply, new_record,
    on_ended, on_failed, on_started, on_uploaded, pesit_transfer_id, receive_path, restart_key,
    selected_spec, send_path, staging_name, staging_purpose, wants_checksum, continue_record,
    FileFault, Moment,
};
use pesit::node::json::parse_document;
use pesit::node::manager::{
    admits_session, cannot_stop, check_start, connection_id, framing, idle_timeout,
    listen_address, read_timeout, session_id, set_status, status, ManagerError,
};
use pesit::node::material::{
    backup_ca, backup_keystores, backup_truststores, KeyPair, Keystore, Truststore,
};
use pesit::node::metrics::{
    by_status, completed_bytes, exposition, gauge, status_of, Configured, TransferCounts,
};
use pesit::node::model::{
    glob_match, AccessType, Direction, Partner, PesitServerConfig, RemotePartner, ServerStatus,
    TransferDirection, TransferRecord, TransferStatus, VirtualFile,
};
use pesit::node::pki::{
    build_crl_entries, cn_of, expiring_keystores, hex_to_bytes, is_vault, map_pki, map_store,
    issue_record, normalize_serial, revoke, rotation_request, IssueRecord, KeystoreExpiry, PkiFault,
    RevokedEntry, StoreFault,
};
use pesit::node::schedule::{
    can_plan, check as check_schedule, create as create_schedule, outcome_text,
    update as update_schedule, ScheduledTransfer,
};
use pesit::params::{AccessType as PesitAccess, ArticleFormat, EndCode, SyncOption, Version};
use pesit::requester::Negotiated;
use pesit::responder::{ConnectRequest, SessionInfo};
use pesit::tls::TlsVersion;
use pesit::transport::Framing;
use serde_json::Value;

#[test]
fn globbing() {
    assert!(glob_match("PW*", "PWSEND"));
    assert!(glob_match("pwsend", "PWSEND"));
    assert!(!glob_match("PW?", "PWSEND"));
    assert!(glob_match("*", ""));
    let p = Partner {
        allowed_files: Some("A*, B".into()),
        ..Partner::default()
    };
    assert!(p.can_access_file("ABC"));
    assert!(p.can_access_file("B"));
    assert!(!p.can_access_file("C"));
}

#[test]
fn globs_go_by_bytes() {
    assert!(glob_match("a*b*c", "aXXbYYc"));
    assert!(!glob_match("a*b", "a"));
    assert!(glob_match("??", "\u{e9}"));
    assert!(!glob_match("?", "\u{e9}"));
    let p = Partner {
        allowed_files: Some("  ".into()),
        ..Partner::default()
    };
    assert!(p.can_access_file("X"));
}

#[test]
fn json_defaults_match_java() {
    let p = Partner {
        id: "PWSRV01".into(),
        description: Some("x".into()),
        password: Some(String::new()),
        enabled: true,
        max_connections: 10,
        ..Partner::default()
    };
    assert_eq!(p.access_type, AccessType::Both);
    let vf = VirtualFile {
        id: "PWSEND".into(),
        direction: Direction::Receive,
        receive_directory: Some("/data/received".into()),
        receive_filename_pattern: "from_cx_${transferId}".into(),
        overwrite: false,
        record_length: 4096,
        record_format: 0,
        ..VirtualFile::default()
    };
    assert_eq!(vf.record_format(), RecordFormat::Bf);
    assert!(vf.can_receive() && !vf.can_send());
    let s = PesitServerConfig {
        server_id: "PWSERVER".into(),
        port: 5001,
        max_entity_size: 32768,
        sync_points_enabled: true,
        sync_interval_kb: 256,
        auto_start: true,
        ..PesitServerConfig::default()
    };
    assert_eq!(s.max_entity_size, 32768);
    assert_eq!(s.status.name(), "STOPPED");
}

#[test]
fn schedule_serde_and_defaults() {
    let s = ScheduledTransfer {
        name: "nightly".into(),
        direction: "receive".into(),
        interval_seconds: 900,
        request: TransferRequest {
            server: Some("cx".into()),
            remote_filename: Some("PWSEND".into()),
            ..TransferRequest::default()
        },
        ..ScheduledTransfer::default()
    };
    assert_eq!(s.name, "nightly");
    assert_eq!(s.direction, "receive");
    assert_eq!(s.interval_seconds, 900);
    assert!(s.enabled, "enabled defaults to true");
    assert_eq!(s.request.server.as_deref(), Some("cx"));
    // a fresh schedule with no next_run is due immediately relative to a future tick
    let due = ScheduledTransfer {
        next_run_ms: 0,
        ..ScheduledTransfer::default()
    };
    assert!(due.next_run_ms <= pesit::service::time::now_millis());
    assert!(due.due(pesit::service::time::now_millis()));
}

fn options() -> NodeOptions {
    NodeOptions {
        api_port: 8080,
        transfer_port: 9081,
        api_bind: "0.0.0.0".into(),
        api_key: Some("secret".into()),
        security_enabled: true,
        db: "/data/pesitwizard.db".into(),
        pki_dir: "/data/pki".into(),
        checkpoint_dir: "/data/checkpoints".into(),
        client_checkpoint_dir: "/data/checkpoints-out".into(),
        receive_dir: "/data/received".into(),
        client_tls_dir: "/data/tls".into(),
        client_id: "PWCLIENT".into(),
        config: None,
        cert_rotation_days: 0,
        audit_max_entries: 50_000,
        node_id: "node-1".into(),
        cluster_nats: None,
        cluster_name: "default".into(),
        advertise_addr: None,
        client_sync_kb: 100,
        client_sync_window: 4,
        client_record_length: 4096,
        client_max_entity: 65535,
        ssl_enabled: false,
        ssl_cert: Some("c".into()),
        ssl_key: Some("k".into()),
        ssl_ca: None,
        ssl_client_auth: "need".into(),
        ssl_protocol: "TLSv1.3".into(),
        client_ssl_ca: Some("ca".into()),
        client_ssl_cert: None,
        client_ssl_key: None,
        client_ssl_insecure: false,
        client_ssl_protocol: "TLSv1.2".into(),
    }
}

#[test]
fn options_of_a_node() {
    let mut o = options();
    assert_eq!(o.effective_api_key(), Some("secret"));
    assert_eq!(o.checked_api_key(), Ok(Some("secret")));
    o.api_key = Some("a\nb".into());
    assert_eq!(
        o.checked_api_key(),
        Err("failed to parse header value".to_owned())
    );
    o.api_key = Some("a\tb\u{e9}".into());
    assert_eq!(o.checked_api_key(), Ok(Some("a\tb\u{e9}")));
    o.security_enabled = false;
    assert_eq!(o.checked_api_key(), Ok(None));

    assert_eq!(o.listener_tls(), Ok(None));
    o.ssl_enabled = true;
    let tls = o.listener_tls().ok().flatten();
    assert_eq!(tls.as_ref().map(|t| t.require_client_cert), Some(true));
    assert_eq!(tls.and_then(|t| t.min_version), Some(TlsVersion::V1_3));
    o.ssl_key = None;
    assert!(o.listener_tls().is_err());

    let e = o.engine_settings();
    assert_eq!(e.requester_id, "PWCLIENT");
    assert_eq!(e.checkpoint_dir, "/data/checkpoints-out");
    assert_eq!(e.tls_defaults.ca_file.as_deref(), Some("ca"));
    assert_eq!(e.tls_defaults.min_version, Some(TlsVersion::V1_2));
}

#[test]
fn signatures_of_bundles() {
    let judged = |text: &str| {
        let bundle = parse_document(text.as_bytes()).unwrap_or_else(|| panic!("{text}"));
        bundle_signature(&bundle)
    };
    assert_eq!(judged(r#"{"tables":{}}"#), Ok(None));
    assert_eq!(judged("[1]"), Ok(None));
    assert_eq!(
        judged(r#"{"signature":{}}"#),
        Err("signature has no value".to_owned())
    );
    assert_eq!(
        judged(r#"{"signature":{"value":"?"}}"#),
        Err("signature is not valid base64".to_owned())
    );
    assert_eq!(
        judged(r#"{"signature":{"value":"AQID"},"pki":{"ca":null}}"#),
        Err("signed bundle carries no CA certificate to verify against".to_owned())
    );
    assert_eq!(
        judged(r#"{"signature":{"value":"AQID"},"pki":{"ca":{"certificate":"PEM"}}}"#),
        Ok(Some((vec![1, 2, 3], "PEM".to_owned())))
    );
    assert!(parse_document(b"{").is_none());
}

#[test]
fn defaults() {
    let vf = VirtualFile {
        record_format: 0,
        direction: Direction::Receive,
        ..VirtualFile::default()
    };
    assert_eq!(vf.record_format(), RecordFormat::Bf);
    assert!(vf.can_receive() && !vf.can_send());
    assert_eq!(VirtualFile::default().record_format(), RecordFormat::Bu);
    let s = PesitServerConfig::default();
    assert_eq!(s.max_entity_size, 4096);
    assert_eq!(s.status.name(), "STOPPED");
    assert_eq!(TransferRecord::default().checksum_algorithm, "SHA-256");
    assert_eq!(TransferStatus::InProgress.name(), "IN_PROGRESS");
    assert_eq!(RemotePartner::default().max_connections, 5);
}

// ---- authentication ----

fn partner() -> Partner {
    Partner {
        id: "P1".into(),
        password: Some("pw".into()),
        ..Partner::default()
    }
}

fn listener() -> PesitServerConfig {
    PesitServerConfig {
        server_id: "S".into(),
        ..PesitServerConfig::default()
    }
}

fn asked(requester: &str, password: Option<&str>) -> ConnectRequest {
    ConnectRequest {
        requester: requester.into(),
        server: "S".into(),
        password: password.map(str::to_owned),
        version: Version::E,
        sync: SyncOption {
            interval_kb: 8,
            window: 2,
        },
        access: PesitAccess::Mixed,
        resync: true,
        crc: false,
        free_message: None,
        preconnect: None,
        remote_addr: "test".into(),
    }
}

#[test]
fn authentication() {
    let server = listener();
    assert_eq!(
        authenticate(None, &server, &asked("NOBODY", None))
            .err()
            .map(|r| r.diag),
        Some(Diagnostic::caller_unknown())
    );
    assert_eq!(
        authenticate(Some(&partner()), &server, &asked("P1", Some("bad")))
            .err()
            .map(|r| r.diag),
        Some(Diagnostic::caller_not_authorised())
    );
    let ok = authenticate(Some(&partner()), &server, &asked("P1", Some("pw")))
        .unwrap_or_else(|r| panic!("{}", r.diag.text()));
    assert_eq!(ok.sync.interval_kb, 32);
}

#[test]
fn another_server_is_refused() {
    let mut server = listener();
    let mut q = asked("P1", Some("pw"));
    q.server = "s".into();
    assert!(authenticate(Some(&partner()), &server, &q).is_ok());
    q.server = "OTHER".into();
    let r = authenticate(Some(&partner()), &server, &q).err();
    assert_eq!(
        r.as_ref().map(|r| r.diag),
        Some(Diagnostic::remote_congestion())
    );
    assert_eq!(
        r.and_then(|r| r.message).as_deref(),
        Some("server 'OTHER' is not served by listener 'S'")
    );
    q.server = String::new();
    assert!(authenticate(Some(&partner()), &server, &q).is_ok());
    q.server = "OTHER".into();
    server.server_id = String::new();
    assert!(authenticate(Some(&partner()), &server, &q).is_ok());
}

#[test]
fn certificates_of_a_backup() {
    let doc = |text: &str| parse_document(text.as_bytes()).unwrap_or_else(|| panic!("{text}"));
    let pair = |c: &str, k: &str| KeyPair {
        certificate: c.into(),
        private_key: k.into(),
    };
    let d = doc(
        r#"{"ca":{"certificate":"C","privateKey":"K"},
            "keystores":[{"name":"a","certificate":"c","privateKey":"k"},{"name":"b"},7],
            "truststores":[{"name":"t"},{"name":"u","certificates":"x"}]}"#,
    );
    assert_eq!(backup_ca(&d), Some(pair("C", "K")));
    assert_eq!(
        backup_keystores(&d),
        vec![Keystore {
            name: "a".into(),
            pair: pair("c", "k")
        }]
    );
    assert_eq!(
        backup_truststores(&d),
        vec![Truststore {
            name: "u".into(),
            certificates: "x".into()
        }]
    );
    let empty = doc(r#"{"ca":{"certificate":"C"},"keystores":{}}"#);
    assert_eq!(backup_ca(&empty), None);
    assert!(backup_keystores(&empty).is_empty());
    assert!(backup_truststores(&empty).is_empty());

    let meta = doc(r#"{"backend":"vault","commonName":"n","sans":["a",1,"b"],"ttlDays":30}"#);
    assert_eq!(
        issue_record(Some(&meta)),
        IssueRecord {
            backend: Some("vault".into()),
            common_name: Some("n".into()),
            sans: Some(vec!["a".into(), "b".into()]),
            ttl_days: Some(30),
        }
    );
    let nothing = IssueRecord {
        backend: None,
        common_name: None,
        sans: None,
        ttl_days: None,
    };
    assert_eq!(issue_record(Some(&doc(r#"{"ttlDays":-1,"sans":"a"}"#))), nothing);
    assert_eq!(issue_record(None), nothing);
}

#[test]
fn bootstrapped_records() {
    let p = bootstrapped(partner(), "now");
    assert_eq!(p.created_at.as_deref(), Some("now"));
    assert_eq!(bootstrapped(p, "later").created_at.as_deref(), Some("now"));
    let r = bootstrapped_remote(RemotePartner::default(), "now");
    assert_eq!(r.created_at.as_deref(), Some("now"));
    assert_eq!(r.updated_at, None);
    let s = bootstrapped_server(listener(), 7, "now");
    assert_eq!(s.id, Some(7));
    assert_eq!(s.updated_at.as_deref(), Some("now"));
    assert_eq!(bootstrapped_server(s, 8, "later").id, Some(7));
}

#[test]
fn plans_of_jobs() {
    let job = |name: &str, interval_seconds: u64, next_run_ms: i64| ScheduledTransfer {
        name: name.into(),
        interval_seconds,
        next_run_ms,
        ..ScheduledTransfer::default()
    };
    assert!(can_plan(0, 1) && can_plan(-5, 1));
    assert!(!can_plan(0, u64::MAX) && !can_plan(i64::MAX, 1));
    assert!(check_schedule(&job("a", 1, 0)).is_ok());
    // a refused job needs no plan, nor does one with a next run
    assert!(create_schedule(job(" ", u64::MAX, 0), "i".into(), 0, "now").is_err());
    let kept = update_schedule(job("a", 1, 0), job("a", u64::MAX, 5), 0, "now".into());
    assert_eq!(kept.next_run_ms, 5);
}

#[test]
fn authentication_refusals() {
    let server = listener();
    let message = |p: &Partner, q: &ConnectRequest| {
        authenticate(Some(p), &server, q)
            .err()
            .and_then(|r| r.message)
            .unwrap_or_default()
    };
    let mut off = partner();
    off.enabled = false;
    assert_eq!(message(&off, &asked("P1", Some("pw"))), "partner 'P1' is disabled");
    let mut pre = partner();
    pre.preconnect_password = Some("x".into());
    let mut q = asked("P1", Some(" pw "));
    q.preconnect = Some(("P1".into(), "y".into()));
    assert_eq!(
        message(&pre, &q),
        "invalid pre-connection password for partner 'P1'"
    );
    let mut reader = partner();
    reader.access_type = AccessType::Read;
    let mut q = asked("P1", Some("pw"));
    q.access = PesitAccess::Write;
    assert_eq!(
        message(&reader, &q),
        "partner 'P1' not authorised for Write access"
    );
}

// ---- files ----

fn session() -> SessionInfo {
    SessionInfo {
        id: "s1".into(),
        requester: "P1".into(),
        server: "S".into(),
        remote_addr: "test".into(),
        negotiated: Negotiated {
            version: Version::E,
            sync: SyncOption {
                interval_kb: 8,
                window: 2,
            },
            resync: true,
            crc: false,
        },
    }
}

fn moment() -> Moment {
    Moment {
        timestamp: "20260828_212509".into(),
        date: "2026-08-28".into(),
        time: "21-25-09".into(),
    }
}

#[test]
fn files_are_checked() {
    let p = partner();
    assert!(check_partner(Some(&p), "P1", "IN", true).is_ok());
    let mut reader = partner();
    reader.access_type = AccessType::Read;
    assert_eq!(
        check_partner(Some(&reader), "P1", "IN", true)
            .err()
            .and_then(|r| r.message)
            .as_deref(),
        Some("partner 'P1' is not allowed to send")
    );
    let mut limited = partner();
    limited.allowed_files = Some("A*".into());
    assert_eq!(
        check_partner(Some(&limited), "P1", "IN", false)
            .err()
            .and_then(|r| r.message)
            .as_deref(),
        Some("partner 'P1' may not access 'IN'")
    );
    let file = FileSpec {
        file_name: "IN".into(),
        max_reservation: 3,
        ..FileSpec::default()
    };
    assert_eq!(
        check_create(None, &file).err().map(|r| r.diag),
        Some(Diagnostic::transfer_refused())
    );
    assert_eq!(
        check_select(None, "IN").err().map(|r| r.diag),
        Some(Diagnostic::file_not_found())
    );
    let mut vf = VirtualFile {
        id: "IN".into(),
        direction: Direction::Receive,
        max_file_size: 3 * 1024,
        ..VirtualFile::default()
    };
    assert!(check_create(Some(&vf), &file).is_ok());
    assert!(check_select(Some(&vf), "IN").is_err());
    vf.max_file_size -= 1;
    assert_eq!(
        check_create(Some(&vf), &file)
            .err()
            .and_then(|r| r.message)
            .as_deref(),
        Some("file larger than the 3071 bytes allowed for 'IN'")
    );
    assert_eq!(
        check_overwrite(&vf, "/x", true).err().map(|r| r.diag),
        Some(Diagnostic::file_exists())
    );
    vf.overwrite = true;
    assert!(check_overwrite(&vf, "/x", true).is_ok());
    let r = io_refusal(FileFault::Denied, "open", "no");
    assert_eq!(r.diag, Diagnostic::cannot_open());
    assert_eq!(r.message.as_deref(), Some("open: no"));
}

#[test]
fn writes_are_admitted_and_started() {
    let p = Partner {
        id: "P1".into(),
        ..Partner::default()
    };
    let file = FileSpec {
        file_name: "IN".into(),
        ..FileSpec::default()
    };
    let vf = VirtualFile {
        id: "IN".into(),
        direction: Direction::Receive,
        receive_directory: Some("/in".into()),
        receive_filename_pattern: "${virtualFile}".into(),
        ..VirtualFile::default()
    };
    // the partner is judged before the virtual file
    assert_eq!(
        admit_create(None, None, "P1", &file).err().map(|r| r.diag),
        Some(Diagnostic::caller_unknown())
    );
    assert_eq!(
        admit_create(Some(&p), None, "P1", &file).err().map(|r| r.diag),
        Some(Diagnostic::transfer_refused())
    );
    assert_eq!(admit_create(Some(&p), Some(&vf), "P1", &file), Ok((&p, &vf)));
    assert_eq!(
        admit_select(Some(&p), None, "P1", "IN").err().map(|r| r.diag),
        Some(Diagnostic::file_not_found())
    );
    assert!(admit_select(Some(&p), Some(&vf), "P1", "IN").is_err());

    let server = listener();
    let previous = TransferRecord {
        local_path: Some("/old/IN".into()),
        ..TransferRecord::default()
    };
    assert_eq!(
        write_path(None, &vf, &server, "P1", "IN", 7, &moment()),
        "/in/IN"
    );
    assert_eq!(
        write_path(Some(&previous), &vf, &server, "P1", "IN", 7, &moment()),
        "/old/IN"
    );

    let cp = Some(Checkpoint {
        sync: 2,
        ..Checkpoint::default()
    });
    let kept = Found {
        resumed: true,
        last: cp,
        part_present: true,
        file_present: true,
    };
    assert!(!kept.forgets());
    assert_eq!(begin_write(&vf, "/in/IN", &kept), Ok(cp));
    let lost = Found {
        part_present: false,
        ..kept
    };
    assert!(lost.forgets());
    assert_eq!(begin_write(&vf, "/in/IN", &lost), Ok(None));
    let fresh = Found {
        resumed: false,
        ..kept
    };
    assert!(fresh.forgets());
    assert_eq!(
        begin_write(&vf, "/in/IN", &fresh)
            .err()
            .and_then(|r| r.message)
            .as_deref(),
        Some("/in/IN already exists")
    );
    let staged = VirtualFile {
        connector: Some("s3".into()),
        ..VirtualFile::default()
    };
    assert_eq!(connector(&staged), Some("s3"));
    assert_eq!(connector(&vf), None);
    assert_eq!(begin_write(&staged, "/in/IN", &kept), Ok(None));
    assert_eq!(
        read_from(&staged, &server),
        ReadFrom::Connector("s3".into())
    );
    assert_eq!(
        read_from(&vf, &server),
        ReadFrom::File("/data/send/IN".into())
    );
}

#[test]
fn create_select_and_records() {
    let p = partner();
    let s = session();
    let server = listener();
    let vf = VirtualFile {
        id: "IN".into(),
        direction: Direction::Receive,
        receive_directory: Some("/tmp/in".into()),
        receive_filename_pattern: "${virtualFile}_${transferId}".into(),
        ..VirtualFile::default()
    };
    let spec = FileSpec {
        file_name: "IN".into(),
        transfer_id: 7,
        ..FileSpec::default()
    };
    assert!(admit_create(Some(&p), Some(&vf), &s.requester, &spec).is_ok());
    let tid = pesit_transfer_id(spec.transfer_id, 1);
    assert_eq!(tid, 7);
    let path = write_path(None, &vf, &server, &s.requester, "IN", tid, &moment());
    assert_eq!(path, "/tmp/in/IN_7");
    let nothing = Found {
        resumed: false,
        last: None,
        part_present: false,
        file_present: false,
    };
    assert_eq!(begin_write(&vf, &path, &nothing), Ok(None));
    let mut record = new_record(
        "t1".into(),
        &s,
        &server,
        "node",
        TransferDirection::Receive,
        &p.id,
        &spec,
        tid,
        Some(&path),
        "now",
    );
    let data = DataResult {
        end: DataEnd::Completed,
        data_bytes: 3,
        articles: 1,
        last_sync: 0,
    };
    assert!(wants_checksum(&record, &data, Diagnostic::ok()));
    let checksum = pesit::service::ident::sha256_hex(b"abc");
    on_ended(&mut record, &data, Diagnostic::ok(), Some(checksum), "then");
    assert_eq!(record.status, TransferStatus::Completed);
    assert_eq!(record.bytes_transferred, 3);
    assert!(record.checksum.is_some());
    // second CREATE of the same file without overwrite is refused
    let there = Found {
        file_present: true,
        ..nothing
    };
    assert_eq!(
        begin_write(&vf, &path, &there).err().map(|r| r.diag),
        Some(Diagnostic::file_exists())
    );
    // unknown virtual file
    let unknown = FileSpec {
        file_name: "NOPE".into(),
        ..FileSpec::default()
    };
    assert_eq!(
        admit_create(Some(&p), None, &s.requester, &unknown)
            .err()
            .map(|r| r.diag),
        Some(Diagnostic::transfer_refused())
    );
    assert_eq!(
        admit_select(Some(&p), None, &s.requester, "NOPE")
            .err()
            .map(|r| r.diag),
        Some(Diagnostic::file_not_found())
    );
    // select
    let out = FileSpec {
        file_name: "OUT".into(),
        ..FileSpec::default()
    };
    let sent = VirtualFile {
        id: "OUT".into(),
        direction: Direction::Send,
        send_file: Some("/tmp/OUT".into()),
        ..VirtualFile::default()
    };
    assert!(admit_select(Some(&p), Some(&sent), &s.requester, "OUT").is_ok());
    assert_eq!(
        read_from(&sent, &server),
        ReadFrom::File("/tmp/OUT".into())
    );
    let tid = pesit_transfer_id(out.transfer_id, 1);
    let sel = selected_spec(&out, &sent, tid, 5, "260828212509".into());
    assert_eq!(sel.max_reservation, 1);
    assert_eq!(sel.article_length, 1024);
    assert_ne!(sel.transfer_id, 0);
}

#[test]
fn received_files_are_digested() {
    let data = DataResult {
        end: DataEnd::Completed,
        data_bytes: 1,
        articles: 1,
        last_sync: 0,
    };
    let mut r = TransferRecord {
        direction: Some(TransferDirection::Receive),
        ..TransferRecord::default()
    };
    assert!(wants_checksum(&r, &data, Diagnostic::ok()));
    assert!(!wants_checksum(&r, &data, Diagnostic::io_error()));
    r.direction = Some(TransferDirection::Send);
    assert!(!wants_checksum(&r, &data, Diagnostic::ok()));
}

#[test]
fn names_of_files() {
    assert_eq!(restart_key("P/1", "A.B", 7), "P_1_A_B_7");
    assert_eq!(staging_name("u", "recv-a/b.c"), "u-recv-a_b.c");
    let vf = VirtualFile {
        id: "IN".into(),
        receive_directory: Some("/in".into()),
        receive_filename_pattern: "${virtualFile}_${transferId}".into(),
        ..VirtualFile::default()
    };
    assert_eq!(staging_purpose(true, &vf, 3), "recv-IN-3");
    let server = listener();
    assert_eq!(
        receive_path(&vf, &server, "P1", "IN", 7, &moment()),
        "/in/IN_7"
    );
    let plain = VirtualFile {
        id: "IN".into(),
        receive_filename_pattern: String::new(),
        ..VirtualFile::default()
    };
    assert_eq!(
        receive_path(&plain, &server, "P1", "IN", 7, &moment()),
        "/data/received/IN_20260828_212509"
    );
    assert_eq!(
        connector_key(&plain, &server, "P1", "IN", 7, &moment(), "dflt"),
        "dflt"
    );
    let keyed = VirtualFile {
        connector_path: Some("${partnerId}/${serverId}/${date}_${time}".into()),
        ..VirtualFile::default()
    };
    assert_eq!(
        connector_key(&keyed, &server, "P1", "IN", 7, &moment(), "dflt"),
        "P1/S/2026-08-28_21-25-09"
    );
    assert_eq!(send_path(&plain, &server), "/data/send/IN");
    assert_eq!(pesit_transfer_id(0, 9), 9);
    assert_eq!(pesit_transfer_id(4, 9), 4);
}

#[test]
fn records_of_a_transfer() {
    let file = FileSpec {
        file_name: "IN".into(),
        transfer_id: 7,
        max_reservation: 2,
        ..FileSpec::default()
    };
    let server = listener();
    let mut r = new_record(
        "id".into(),
        &session(),
        &server,
        "node",
        TransferDirection::Receive,
        "P1",
        &file,
        7,
        Some("/in/IN_7"),
        "t0",
    );
    assert_eq!(r.file_size, Some(2048));
    assert_eq!(r.status, TransferStatus::Initiated);
    let cp = Checkpoint {
        sync: 2,
        file_offset: 500,
        data_bytes: 500,
        articles: 5,
    };
    continue_record(&mut r, Some("parent".into()), Some(cp));
    assert_eq!(r.last_sync_point, 2);
    on_started(&mut r, 7, cp, "t1".into());
    assert_eq!(r.status, TransferStatus::InProgress);
    let p = Progress {
        data_bytes: 1024,
        articles: 10,
        sync: 3,
        total_hint: None,
    };
    apply_progress(&mut r, &p, Some(2048), true, "t2".into());
    assert_eq!(r.progress_percent, 50);
    assert_eq!(r.last_sync_point, 3);
    let done = DataResult {
        end: DataEnd::Completed,
        data_bytes: 2000,
        articles: 20,
        last_sync: 4,
    };
    on_ended(&mut r, &done, Diagnostic::ok(), Some("sum".into()), "t3");
    assert_eq!(r.status, TransferStatus::Completed);
    assert_eq!(r.progress_percent, 100);
    assert_eq!(r.file_size, Some(2048));
    assert_eq!(r.checksum.as_deref(), Some("sum"));
    on_uploaded(&mut r, "c", "k", None, "t4".into());
    assert_eq!(r.local_path.as_deref(), Some("c:k"));
    on_uploaded(&mut r, "c", "k", Some("no"), "t5".into());
    assert_eq!(r.status, TransferStatus::Failed);
    assert_eq!(
        r.error_message.as_deref(),
        Some("connector upload failed: no")
    );
}

#[test]
fn interrupted_transfers_are_found_again() {
    let mut r = TransferRecord {
        transfer_id: "a".into(),
        pesit_transfer_id: 7,
        partner_id: Some("P1".into()),
        filename: Some("IN".into()),
        server_id: Some("S".into()),
        last_sync_point: 1,
        ..TransferRecord::default()
    };
    on_failed(&mut r, "broken".into(), "t");
    assert_eq!(r.status, TransferStatus::Interrupted);
    let mut s = TransferRecord {
        transfer_id: "b".into(),
        pesit_transfer_id: 7,
        partner_id: Some("P1".into()),
        filename: Some("IN".into()),
        server_id: Some("S".into()),
        ..TransferRecord::default()
    };
    let end = DataResult {
        end: DataEnd::Interrupted {
            code: EndCode::Other(3),
            diag: Diagnostic::voluntary_stop(),
            by_peer: true,
        },
        data_bytes: 5,
        articles: 1,
        last_sync: 1,
    };
    on_ended(&mut s, &end, Diagnostic::ok(), None, "t");
    assert_eq!(s.status, TransferStatus::Interrupted);
    assert_eq!(
        s.error_message,
        Some(format!(
            "{} (end code Other(3), by partner)",
            Diagnostic::voluntary_stop().text()
        ))
    );
    let all = vec![r, s];
    assert_eq!(
        interrupted_record(&all, "P1", "IN", 7, "S").map(|r| r.transfer_id.as_str()),
        Some("b")
    );
    assert!(interrupted_record(&all, "P1", "IN", 8, "S").is_none());
    let mut f = TransferRecord::default();
    on_failed(&mut f, "x".into(), "t");
    assert_eq!(f.status, TransferStatus::Failed);
}

#[test]
fn attributes_of_a_file_that_is_read() {
    let vf = VirtualFile {
        id: "OUT".into(),
        description: Some("d".repeat(100)),
        record_length: 70_000,
        record_format: 0,
        file_type: 3,
        ..VirtualFile::default()
    };
    let s = selected_spec(&FileSpec::default(), &vf, 9, 5, "260828212509".into());
    assert_eq!(s.max_reservation, 1);
    assert_eq!(s.article_length, 0xFFFF);
    assert_eq!(s.article_format, ArticleFormat::Fixed);
    assert_eq!(s.file_type, 3);
    assert_eq!(s.label.map(|l| l.len()), Some(80));
    let mut m = TransferRecord::default();
    message_record(&mut m, "text".into(), 4, "t".into());
    assert_eq!(m.metadata.as_deref(), Some("text"));
    assert_eq!(message_reply(true), Some(b"OK".to_vec()));
    assert_eq!(message_reply(false), None);
}

// ---- API ----

#[test]
fn entities_are_created_and_updated() {
    let p = create(partner(), false, "now").unwrap_or_else(|e| panic!("{}", e.message));
    assert_eq!(p.created_at.as_deref(), Some("now"));
    assert_eq!(
        create(partner(), true, "now").err().map(|e| e.message),
        Some("Partner 'P1' already exists".to_owned())
    );
    assert_eq!(
        create(VirtualFile::default(), false, "now")
            .err()
            .map(|e| e.message),
        Some("id is required".to_owned())
    );
    let u = update(p, "P2", true, "later").unwrap_or_else(|e| panic!("{}", e.message));
    assert_eq!(u.id, "P2");
    assert_eq!(u.created_at.as_deref(), Some("now"));
    assert_eq!(u.updated_at.as_deref(), Some("later"));
    assert_eq!(
        update(RemotePartner::default(), "R", false, "now")
            .err()
            .map(|e| e.message),
        Some("Remote partner 'R' not found".to_owned())
    );
    assert_eq!(
        entity_not_found::<VirtualFile>("V").message,
        "Virtual file 'V' not found"
    );
}

#[test]
fn listeners_are_checked() {
    let text = |c: &PesitServerConfig| validate_server(c).err().map(|e| e.message);
    let mut c = PesitServerConfig::default();
    assert_eq!(text(&c).as_deref(), Some("serverId is required"));
    c.server_id = "S".into();
    assert_eq!(text(&c), None);
    c.port = 0;
    assert_eq!(text(&c).as_deref(), Some("port is required"));
    c.port = 1;
    c.max_entity_size = 63;
    assert_eq!(text(&c).as_deref(), Some("maxEntitySize must be at least 64"));
    c.max_entity_size = 64;
    c.sync_window = 17;
    assert_eq!(
        text(&c).as_deref(),
        Some("syncWindow must be between 0 and 16")
    );
    let others = vec![listener()];
    let clash = PesitServerConfig {
        server_id: "T".into(),
        ..PesitServerConfig::default()
    };
    assert_eq!(
        create_server(clash, false, &others, 2, "now")
            .err()
            .map(|e| e.message),
        Some("port 5001 is already used by another server".to_owned())
    );
    assert_eq!(
        create_server(listener(), true, &others, 2, "now")
            .err()
            .map(|e| e.message),
        Some("server 'S' already exists".to_owned())
    );
    let fresh = PesitServerConfig {
        server_id: "T".into(),
        port: 5002,
        status: ServerStatus::Error,
        ..PesitServerConfig::default()
    };
    let t = create_server(fresh, false, &others, 2, "now")
        .unwrap_or_else(|e| panic!("{}", e.message));
    assert_eq!(t.id, Some(2));
    assert_eq!(t.status, ServerStatus::Stopped);
    let u = update_server(t, listener(), "T".into(), "later".into())
        .unwrap_or_else(|e| panic!("{}", e.message));
    assert_eq!(u.server_id, "T");
    assert_eq!(u.id, Some(2));
    assert_eq!(u.created_at.as_deref(), Some("now"));
}

#[test]
fn transfers_are_filtered() {
    let r = |id: &str, status, partner: &str| TransferRecord {
        transfer_id: id.into(),
        status,
        partner_id: Some(partner.into()),
        direction: Some(TransferDirection::Receive),
        bytes_transferred: 5,
        ..TransferRecord::default()
    };
    let all = || {
        vec![
            r("1", TransferStatus::Completed, "A"),
            r("2", TransferStatus::Paused, "B"),
            r("3", TransferStatus::Failed, "A"),
        ]
    };
    let ids = |v: Vec<TransferRecord>| v.into_iter().map(|r| r.transfer_id).collect::<Vec<_>>();
    let q = TransferQuery {
        partner_id: Some("A".into()),
        ..TransferQuery::default()
    };
    assert_eq!(ids(filter_transfers(all(), &q)), vec!["1", "3"]);
    let q = TransferQuery {
        status: Some("completed".into()),
        direction: Some("receive".into()),
        ..TransferQuery::default()
    };
    assert_eq!(ids(filter_transfers(all(), &q)), vec!["1"]);
    let q = TransferQuery {
        server_id: Some("S".into()),
        ..TransferQuery::default()
    };
    assert!(filter_transfers(all(), &q).is_empty());
    assert_eq!(ids(active_transfers(all())), vec!["2"]);
    let s = transfer_stats(&all());
    assert_eq!((s.total, s.completed, s.failed), (3, 1, 1));
    assert_eq!(s.bytes_transferred, 5);
    assert_eq!(
        not_in_progress("1", "Failed").message,
        "transfer '1' is not in progress (status Failed)"
    );
}

// ---- listeners ----

#[test]
fn listeners_start_and_stop() {
    let mut c = listener();
    assert_eq!(status(&c, None).status, ServerStatus::Stopped);
    let up = status(&c, Some((3, 6000)));
    assert!(up.running);
    assert_eq!((up.active_connections, up.port), (3, 6000));
    set_status(&mut c, ServerStatus::Running, "now");
    assert_eq!(c.last_started_at.as_deref(), Some("now"));
    assert_eq!(c.last_stopped_at, None);
    assert!(check_start("S", false, Some(&c), false).is_ok());
    assert_eq!(
        check_start("S", true, Some(&c), false),
        Err(ManagerError::AlreadyRunning("S".into()))
    );
    assert_eq!(
        check_start("S", false, None, false),
        Err(ManagerError::NotFound("S".into()))
    );
    c.ssl_enabled = true;
    assert!(matches!(
        check_start("S", false, Some(&c), false),
        Err(ManagerError::Tls(_))
    ));
    assert_eq!(cannot_stop("S", true).answer().status, 409);
    assert_eq!(cannot_stop("S", false).answer().status, 404);
    assert_eq!(
        ManagerError::Bind("a:1".into(), "busy".into()).text(),
        "cannot listen on a:1: busy"
    );
    assert_eq!(ManagerError::Store("x".into()).answer().status, 500);
    assert_eq!(listen_address(&c), "0.0.0.0:5001");
    assert_eq!(session_id(&c, 12), "S-000012");
    assert_eq!(connection_id(0), 1);
    assert_eq!(connection_id(253), 254);
    assert_eq!(connection_id(254), 1);
    assert!(admits_session(&c, 99) && !admits_session(&c, 100));
    c.tcpip_header = false;
    assert_eq!(framing(&c, true), Framing::Raw);
    assert_eq!(framing(&c, false), Framing::LengthPrefixed);
    c.read_timeout = 5;
    c.connection_timeout = 7;
    assert_eq!((read_timeout(&c), idle_timeout(&c)), (1000, 1000));
    c.connection_timeout = 7000;
    assert_eq!(idle_timeout(&c), 7000);
}

// ---- JSON documents ----

fn object(members: &[(&str, Value)]) -> Value {
    let mut map = serde_json::Map::new();
    for (k, v) in members {
        map.insert((*k).to_owned(), v.clone());
    }
    Value::Object(map)
}

#[test]
fn status_and_completed_bytes() {
    let record = |s: &str, n: u64| {
        object(&[
            ("status", Value::from(s)),
            ("bytesTransferred", Value::from(n)),
        ])
    };
    let records = vec![
        record("COMPLETED", 100),
        record("COMPLETED", 250),
        record("FAILED", 40),
        record("IN_PROGRESS", 10),
        object(&[]),
    ];
    // Status is lowercased; a missing status reads as "unknown".
    assert_eq!(status_of(&records[0]), "completed");
    assert_eq!(status_of(&records[2]), "failed");
    assert_eq!(status_of(&records[4]), "unknown");
    // Only completed transfers contribute to the byte counter.
    assert_eq!(completed_bytes(&records), 350);
    assert_eq!(completed_bytes(&[]), 0);
    assert_eq!(
        by_status(&records),
        vec![
            ("completed".to_owned(), 2),
            ("failed".to_owned(), 1),
            ("in_progress".to_owned(), 1),
            ("unknown".to_owned(), 1)
        ]
    );
}

#[test]
fn metrics_are_written() {
    let mut out = String::new();
    gauge(&mut out, "g", "Help.", 3);
    assert_eq!(out, "# HELP g Help.\n# TYPE g gauge\ng 3\n");
    let inbound = TransferCounts {
        by_status: vec![("failed".to_owned(), 2)],
        bytes: 7,
    };
    let outbound = TransferCounts {
        by_status: Vec::new(),
        bytes: 0,
    };
    let text = exposition(
        "1.2",
        &inbound,
        &outbound,
        Configured {
            partners: 1,
            files: 2,
            listeners: 3,
            up: 4,
        },
    );
    assert!(text.contains("pesitwizard_build_info{version=\"1.2\"} 1\n"));
    assert!(text
        .contains("pesitwizard_transfers_total{kind=\"inbound\",status=\"failed\"} 2\n"));
    assert!(text.contains("pesitwizard_bytes_transferred_total{kind=\"inbound\"} 7\n"));
    assert!(text.ends_with("pesitwizard_listeners_up 4\n"));
}

#[test]
fn backup_keys() {
    let row = object(&[("id", Value::from("I")), ("serverId", Value::from("S"))]);
    assert_eq!(backup_key("partners", &row).as_deref(), Some("I"));
    assert_eq!(backup_key("servers", &row).as_deref(), Some("S"));
    assert_eq!(backup_key("pki", &row).as_deref(), Some("vault"));
    assert_eq!(backup_key("partners", &object(&[("id", Value::from(1))])), None);
    assert!(is_carried("schedules") && !is_carried("transfers"));
}

#[test]
fn signed_bytes_of_bundles() {
    let bytes = |text: &str| {
        let bundle = parse_document(text.as_bytes()).unwrap_or_else(|| panic!("{text}"));
        signed_bytes(&bundle)
    };
    assert_eq!(
        bytes(r#"{ "signature": {"value": "x"}, "tables": { "pki": [1, "a"] } }"#),
        Ok(br#"{"tables":{"pki":[1,"a"]}}"#.to_vec())
    );
    assert_eq!(bytes(r#"{"tables":{}}"#), Ok(br#"{"tables":{}}"#.to_vec()));
    assert_eq!(bytes("{}"), Ok(b"{}".to_vec()));
    assert_eq!(bytes("[1]"), Err("bundle is not an object".to_owned()));
}

#[test]
fn bundle_signatures() {
    let text = signature_text(&[1, 2, 255]);
    assert_eq!(text, "AQL/");
    assert_eq!(bytes_of_base64(&text), Some(vec![1, 2, 255]));
    let open = |value: Option<&str>, certificate: Option<&str>| {
        open_signature(BundleSignature {
            value: value.map(str::to_owned),
            certificate: certificate.map(str::to_owned),
        })
    };
    assert_eq!(
        open(Some("AQL/"), Some("pem")),
        Ok((vec![1, 2, 255], "pem".to_owned()))
    );
    assert_eq!(
        open(None, Some("pem")).err().as_deref(),
        Some("signature has no value")
    );
    assert_eq!(
        open(Some("?"), Some("pem")).err().as_deref(),
        Some("signature is not valid base64")
    );
    assert_eq!(
        open(Some("AQL/"), None).err().as_deref(),
        Some("signed bundle carries no CA certificate to verify against")
    );
    assert_eq!(verdict(Ok(true)), Ok(()));
    assert!(verdict(Ok(false)).is_err());
    assert_eq!(verdict(Err("e".into())), Err("e".to_owned()));
    assert_eq!(rejected("why").message, "backup rejected: why");
}

// ---- schedules ----

#[test]
fn schedules_run_on_time() {
    let s = ScheduledTransfer {
        name: "nightly".into(),
        direction: "Receive".into(),
        interval_seconds: 900,
        ..ScheduledTransfer::default()
    };
    assert!(s.receives());
    let mut s = create_schedule(s, "1".into(), 1_000_000, "now")
        .unwrap_or_else(|e| panic!("{}", e.message));
    assert_eq!(s.next_run_ms, 1_900_000);
    assert!(!s.due(1_899_999) && s.due(1_900_000));
    s.fired(outcome_text(Ok("t1")), 1_950_000, "later");
    assert_eq!(s.last_status.as_deref(), Some("queued t1"));
    assert_eq!(s.next_run_ms, 2_850_000);
    s.ran(outcome_text(Err("no")), "by hand".into());
    assert_eq!(s.last_status.as_deref(), Some("error: no"));
    assert_eq!(s.next_run_ms, 2_850_000);
    let plan = ScheduledTransfer {
        name: "other".into(),
        interval_seconds: 0,
        ..ScheduledTransfer::default()
    };
    let u = update_schedule(s, plan, 5, "t".into());
    assert_eq!(u.id, "1");
    assert_eq!(u.next_run_ms, 1005);
    let bad = ScheduledTransfer {
        name: "x".into(),
        interval_seconds: 0,
        ..ScheduledTransfer::default()
    };
    assert_eq!(
        create_schedule(bad, "2".into(), 0, "now")
            .err()
            .map(|e| e.message),
        Some("intervalSeconds must be at least 1".to_owned())
    );
    assert!(ScheduledTransfer::default().due(0));
}

// ---- certificates ----

#[test]
fn serial_numbers() {
    assert_eq!(normalize_serial("0A:ff-0g"), "0aff0");
    assert_eq!(hex_to_bytes("0A:FF"), Some(vec![10, 255]));
    assert_eq!(hex_to_bytes("0A:F"), None);
    assert_eq!(hex_to_bytes("::"), None);
    let mut list: Vec<RevokedEntry> = Vec::new();
    assert_eq!(
        revoke(&mut list, "0A:FF", "2026-08-28T21:25:09.123Z".into()),
        Ok(true)
    );
    assert_eq!(revoke(&mut list, "0aff", "x".into()), Ok(false));
    assert_eq!(
        revoke(&mut list, "zz", "x".into()),
        Err("invalid serial".to_owned())
    );
    assert_eq!(list.len(), 1);
    list.push(RevokedEntry {
        serial: "abc".into(),
        revoked_at: "x".into(),
    });
    list.push(RevokedEntry {
        serial: "01".into(),
        revoked_at: "x".into(),
    });
    assert_eq!(
        build_crl_entries(&list),
        vec![(vec![10, 255], 1_787_952_309), (vec![1], 0)]
    );
}

#[test]
fn names_and_rotation() {
    assert_eq!(cn_of("O=Acme, CN=srv , C=FR"), "srv");
    assert_eq!(cn_of("no name"), "no name");
    let (backend, q) = rotation_request(
        IssueRecord {
            backend: None,
            common_name: None,
            sans: None,
            ttl_days: None,
        },
        "CN=a",
        vec!["b".into()],
    );
    assert_eq!(backend, "local");
    assert_eq!((q.common_name.as_str(), q.ttl_days), ("a", 365));
    assert_eq!(q.sans, vec!["b".to_owned()]);
    assert!(is_vault("VAULT") && !is_vault("local"));
    let k = |name: &str, end: &str| KeystoreExpiry {
        name: name.into(),
        not_after: end.into(),
    };
    let soon = expiring_keystores(
        vec![
            k("a", "Wed, 18 Feb 2015 23:16:09 GMT"),
            k("b", "Thu, 19 Feb 2015 23:16:09 GMT"),
            k("c", "never"),
        ],
        1_424_301_369_000 - 86_400_000,
        1,
    );
    assert_eq!(
        soon.into_iter().map(|k| k.name).collect::<Vec<_>>(),
        vec!["a"]
    );
}

#[test]
fn certificate_errors() {
    assert_eq!(map_pki(PkiFault::NoCa).status, 400);
    assert_eq!(map_pki(PkiFault::Vault("m".into())).message, "vault: m");
    assert_eq!(map_pki(PkiFault::Other("m".into())).status, 500);
    assert_eq!(
        map_store(StoreFault::Name("n".into())).message,
        "invalid name 'n'"
    );
    assert_eq!(map_store(StoreFault::MissingKey).status, 400);
    assert_eq!(map_store(StoreFault::Cert("c".into())).message, "c");
    assert_eq!(map_store(StoreFault::Io("e".into())).status, 500);
}

// ---- options ----

#[test]
fn protocols_and_addresses() {
    assert_eq!(min_tls("tlsv1.3"), TlsVersion::V1_3);
    assert_eq!(min_tls("1.3"), TlsVersion::V1_3);
    assert_eq!(min_tls("TLSv1.2"), TlsVersion::V1_2);
    assert_eq!(advertised_address(Some("x:1"), None, "b", 2), "x:1");
    assert_eq!(advertised_address(None, Some("h"), "b", 2), "h:2");
    assert_eq!(advertised_address(None, Some(""), "b", 2), "b:2");
}

#[test]
fn one_shot_commands() {
    let t = Target {
        host: "h".into(),
        port: 1,
        server_id: "S".into(),
        partner: Some("P".into()),
        password: None,
        tls: true,
        crc: true,
        no_sync: true,
        sync_kb: Some(8),
        preconnect_id: None,
        preconnect_password: None,
        no_tcpip_header: true,
    };
    let s = t.server("now");
    assert_eq!(s.name, "cli");
    assert!(s.tls_enabled && !s.tcpip_header && !s.hostname_verification);
    let q = t.transfer_request(Some("f".into()), "R".into(), true, Some(true));
    assert_eq!(q.sync_points_enabled, Some(false));
    assert_eq!(q.sync_point_interval, Some(8));
    assert_eq!(q.compression_enabled, Some(true));
    let m = t.message_request("hi".into(), true);
    assert!(m.expects_reply);
    assert_eq!(m.server.as_deref(), Some("cli"));
}
