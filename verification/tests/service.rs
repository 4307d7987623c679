//! Shared plumbing and the outbound side.

use pesit::article::RecordFormat;
use pesit::checkpoint::Checkpoint;
use pesit::client::api::{
    by_correlation, check_keystore, check_truststore, create_partner, create_server,
    enabled_servers, install_keystore, install_truststore, is_pem as holds_pem, list_transfers,
    refresh_tls_flags, remove_truststore, resumable, rustls_pem_count, set_default, stats,
    update_partner, update_server, validate_server, ListQuery,
};
use pesit::client::engine::{
    address, apply_progress, audit_of, check_receive, check_send, close_after_error, finish,
    finish_message, finished, framing, incoming_article, outgoing_article, identity, is_restart_refusal, kept_transfer_id, message_session,
    message_spec, missing_file, next_transfer_id, not_a_file, not_running, password_for,
    receive_restart, record_format, replay, reset_for_full_retry, resolve_server, retry,
    send_restart, starts_over, submit_message, submit_receive, submit_send, EngineSettings, Leaving,
};
use pesit::client::model::{
    MessageRequest, Partner, PesitServer, TransferDirection, TransferHistory, TransferRequest,
    TransferResponse, TransferStatus,
};
use pesit::cluster::{
    is_before, lease_step, leads, runs_schedules, sort_members, ChangeStep, ClusterConfig,
    ConfigChange, LeaseStep, MemberInfo,
};
use pesit::connector::{
    from_config, Backend, Connector, ConnectorConfig, ConnectorError, LocalConnector, S3Error,
    SftpConfig, SftpConnector, SftpError,
};
use pesit::builder::FileSpec;
use pesit::datapath::{cancelled_end, DataEnd, DataResult, Progress};
use pesit::diag::Diagnostic;
use pesit::error::{SessionError, TransportError};
use pesit::kind::FpduKind;
use pesit::message::MessageOutcome;
use pesit::params::{AccessType, Compression, EndCode, SyncOption};
use pesit::requester::TransferOutcome;
use pesit::service::audit::{
    filtered, stats as audit_stats, AuditEvent, Outcome, Retention, PRUNE_INTERVAL,
};
use pesit::service::http::{require_api_key, resolve_placeholders, ApiError};
use pesit::service::ident::{new_id, sha256_hex, text_of_utf8};
use pesit::service::progress::ProgressThrottle;
use pesit::service::time::{
    compact_of, date_of, elapsed_between, iso_of, now_compact, now_iso, now_millis, now_time,
    parse_millis, pesit_now, pesit_of, rfc2822_millis, time_of, today,
};
use pesit::state::Role;
use pesit::tls::{
    is_pem, parse_certs, parse_key, server_name, KeyKind, PrivateKey, ServerCheck,
    TlsClientSettings, TlsVersion,
};
use pesit::transport::Framing;

// ---- HTTP ----

#[test]
fn api_keys() {
    assert!(require_api_key(None, "/api/v1/x", None, None).is_ok());
    assert!(require_api_key(Some(b"k"), "/actuator/health", None, None).is_ok());
    let e = require_api_key(Some(b"k"), "/api/v1/x", None, None).err();
    assert_eq!(
        e,
        Some(ApiError {
            status: 401,
            message: "invalid or missing API key".into()
        })
    );
    assert!(require_api_key(Some(b"k"), "/api/v1/x", Some(b"k"), None).is_ok());
    assert!(require_api_key(Some(b"k"), "/api/v1/x", None, Some(b"Bearer k")).is_ok());
    assert!(require_api_key(Some(b"k"), "/api/v1/x", Some(b"no"), Some(b"Bearer k")).is_err());
    assert!(require_api_key(Some(b"k"), "/api/v1/x", None, Some(b"Bearer kk")).is_err());
}

#[test]
fn placeholders() {
    assert_eq!(
        resolve_placeholders("${a}_${b}_${a}", &[("a", "1"), ("b", "2")]),
        "1_2_1"
    );
    assert_eq!(resolve_placeholders("${c}", &[("a", "1")]), "${c}");
    // a value that holds a placeholder is resolved by the names behind it
    assert_eq!(
        resolve_placeholders("${a}", &[("a", "${b}"), ("b", "2")]),
        "2"
    );
}

#[test]
fn error_answers() {
    assert_eq!(ApiError::not_found("x".into()).status, 404);
    assert_eq!(ApiError::bad_request("x".into()).status, 400);
    assert_eq!(ApiError::conflict("x".into()).status, 409);
    assert_eq!(ApiError::internal("x".into()).status, 500);
}

// ---- time, identifiers ----

#[test]
fn instants_are_written_and_read() {
    let ms = 1_787_952_309_123i64;
    let iso = iso_of(ms);
    assert_eq!(iso, "2026-08-28T21:25:09.123Z");
    assert_eq!(parse_millis(&iso), Some(ms));
    assert_eq!(parse_millis("yesterday"), None);
    assert_eq!(compact_of(ms), "20260828_212509");
    assert_eq!(date_of(ms), "2026-08-28");
    assert_eq!(time_of(ms), "21-25-09");
    assert_eq!(pesit_of(ms), "260828212509");
    assert_eq!(pesit_of(-1), "691231235959");
    assert_eq!(
        rfc2822_millis("Wed, 18 Feb 2015 23:16:09 GMT"),
        Some(1_424_301_369_000)
    );
    assert_eq!(rfc2822_millis("soon"), None);
    assert_eq!(
        rfc2822_millis("31 Dec 262142 23:59:60 +0000"),
        Some(8_210_266_876_800_000)
    );
    assert_eq!(
        elapsed_between(
            &Some("2026-08-28T21:25:09.123Z".into()),
            &Some("2026-08-28T21:25:10.000Z".into())
        ),
        Some(877)
    );
    assert_eq!(elapsed_between(&None, &Some("x".into())), None);
}

#[test]
fn the_clock_runs() {
    let a = now_millis();
    let b = parse_millis(&now_iso()).unwrap_or_default();
    assert!(a > 1_600_000_000_000 && b >= a);
    assert_eq!(now_compact().len(), 15);
    assert_eq!(today().len(), 10);
    assert_eq!(now_time().len(), 8);
    assert_eq!(pesit_now().len(), 12);
}

#[test]
fn identifiers_differ() {
    let a = new_id();
    let b = new_id();
    assert_ne!(a, b);
    assert_eq!(a.len(), 36);
    assert_eq!(a.as_bytes()[14], b'4');
}

#[test]
fn digests_and_texts() {
    assert_eq!(
        sha256_hex(b"abc"),
        "ba7816bf8f01cfea414140de5dae2223b00361a396177a9cb410ff61f20015ad"
    );
    assert_eq!(text_of_utf8(b"caf\xc3\xa9"), "caf\u{e9}");
    assert_eq!(text_of_utf8(b"a\xff"), "a\u{fffd}");
}

// ---- audit ----

#[test]
fn audit_events_are_filtered_and_counted() {
    let events = vec![
        AuditEvent::failure(
            "3".into(),
            "t".into(),
            "config",
            "create",
            "partner:A".into(),
            "already exists".into(),
        ),
        AuditEvent::success("2".into(), "t".into(), "listener", "start", "SRV1".into()),
        AuditEvent::success("1".into(), "t".into(), "config", "create", "partner:A".into()),
    ];
    assert_eq!(audit_stats(&events), (3, 2, 1));
    assert_eq!(events[0].outcome, Outcome::Failure);
    assert_eq!(events[0].detail.as_deref(), Some("already exists"));
    let config = filtered(events, Some("CONFIG"), 10);
    assert_eq!(
        config.iter().map(|e| e.id.as_str()).collect::<Vec<_>>(),
        vec!["3", "1"]
    );
    assert_eq!(filtered(config, None, 1).len(), 1);
}

#[test]
fn the_log_is_pruned_now_and_then() {
    let mut r = Retention::new(3);
    assert!(r.on_write());
    for _ in 1..PRUNE_INTERVAL {
        assert!(!r.on_write());
    }
    assert!(r.on_write());
    let mut open = Retention::new(0);
    assert!(!open.on_write());
}

// ---- TLS ----

#[test]
fn pem_files() {
    assert!(is_pem("/etc/ssl/ca.pem"));
    assert!(is_pem("x.CRT"));
    assert!(is_pem("dir.d/key.Key/"));
    assert!(is_pem("a.pem/."));
    assert!(!is_pem(".pem"));
    assert!(!is_pem("a.pem/.."));
    assert!(!is_pem("pem"));
    assert!(!is_pem("a.pem.txt"));
    assert!(!is_pem(""));
    assert!(!is_pem("/"));
}

#[test]
fn pem_texts_are_parsed() {
    let certs = b"-----BEGIN CERTIFICATE-----\nAQID\n-----END CERTIFICATE-----\n\
        -----BEGIN CERTIFICATE-----\nBAU=\n-----END CERTIFICATE-----\n";
    assert_eq!(
        parse_certs("a.pem", certs),
        Ok(vec![vec![1, 2, 3], vec![4, 5]])
    );
    assert_eq!(parse_certs("a.pem", b"nothing"), Ok(vec![]));
    assert_eq!(
        parse_certs("a.pem", b"-----BEGIN CERTIFICATE-----\n!\n-----END CERTIFICATE-----\n"),
        Err("invalid PEM in a.pem".to_owned())
    );
    let key = |name: &str| format!("-----BEGIN {name}-----\nAQID\n-----END {name}-----\n");
    for (name, kind) in [
        ("PRIVATE KEY", KeyKind::Pkcs8),
        ("RSA PRIVATE KEY", KeyKind::Pkcs1),
        ("EC PRIVATE KEY", KeyKind::Sec1),
    ] {
        assert_eq!(
            parse_key("k.pem", key(name).as_bytes()),
            Ok(PrivateKey {
                kind,
                der: vec![1, 2, 3]
            })
        );
    }
    assert_eq!(
        parse_key("k.pem", certs),
        Err("invalid PEM in k.pem".to_owned())
    );
}

#[test]
fn server_names_are_parsed() {
    assert!(matches!(
        server_name("example.com"),
        Ok(rustls::pki_types::ServerName::DnsName(_))
    ));
    assert!(matches!(
        server_name("127.0.0.1"),
        Ok(rustls::pki_types::ServerName::IpAddress(_))
    ));
    assert_eq!(
        server_name("not a host").err().as_deref(),
        Some("invalid server name not a host")
    );
}

#[test]
fn tls_clients() {
    let mut s = TlsClientSettings::default();
    assert_eq!(s.server_check(), ServerCheck::ChainAndName);
    s.verify_hostname = Some(false);
    assert_eq!(s.server_check(), ServerCheck::Chain);
    s.insecure = true;
    assert_eq!(s.server_check(), ServerCheck::Nothing);
    s.cert_file = Some("c".into());
    assert!(!s.shows_certificate());
    s.key_file = Some("k".into());
    assert!(s.shows_certificate());
}

// ---- transfer requests ----

fn settings() -> EngineSettings {
    EngineSettings {
        checkpoint_dir: "/cp".into(),
        receive_dir: "/data/in".into(),
        requester_id: "ME".into(),
        sync_interval_kb: 100,
        sync_window: 4,
        record_length: 4096,
        max_entity_size: 65535,
        tls_defaults: TlsClientSettings {
            ca_file: Some("/ca".into()),
            ..TlsClientSettings::default()
        },
    }
}

fn server(id: &str, name: &str) -> PesitServer {
    PesitServer {
        id: id.into(),
        name: name.into(),
        host: "h".into(),
        server_id: "SRV".into(),
        ..PesitServer::default()
    }
}

#[test]
fn sync_intervals() {
    let q = |bytes, kb| TransferRequest {
        sync_point_interval_bytes: bytes,
        sync_point_interval: kb,
        ..TransferRequest::default()
    };
    assert_eq!(q(None, None).sync_interval_kb(32), 32);
    assert_eq!(q(Some(10), None).sync_interval_kb(32), 1);
    assert_eq!(q(Some(1 << 40), None).sync_interval_kb(32), 0xFFFE);
    assert_eq!(q(None, Some(64)).sync_interval_kb(32), 64);
    assert_eq!(q(None, Some(0xFFFF)).sync_interval_kb(32), 0xFFFE);
    assert_eq!(q(None, Some(131_072)).sync_interval_kb(32), 128);
    assert_eq!(q(None, Some(0)).sync_interval_kb(32), 32);
}

#[test]
fn virtual_files() {
    let mut q = TransferRequest {
        virtual_file: Some("V".into()),
        ..TransferRequest::default()
    };
    assert_eq!(q.virtual_file(), Some("V"));
    q.remote_filename = Some("R".into());
    assert_eq!(q.virtual_file(), Some("R"));
    q.remote_filename = Some(String::new());
    assert_eq!(q.virtual_file(), None);
}

#[test]
fn servers_are_resolved() {
    let mut d = server("3", "c");
    d.default_server = true;
    let all = vec![server("1", "a"), server("2", "b"), d];
    let id = |n| resolve_server(&all, n).map(|s| s.id.clone());
    assert_eq!(id(Some("b")), Ok("2".to_owned()));
    assert_eq!(id(Some("1")), Ok("1".to_owned()));
    assert_eq!(id(None), Ok("3".to_owned()));
    assert_eq!(id(Some("")), Ok("3".to_owned()));
    assert_eq!(
        id(Some("x")).err().map(|e| e.message),
        Some("server 'x' not found".to_owned())
    );
    let none: Vec<PesitServer> = Vec::new();
    assert_eq!(
        resolve_server(&none, None).err().map(|e| e.message),
        Some("server '<default>' not found".to_owned())
    );
}

#[test]
fn passwords_and_identities() {
    let partners = vec![Partner {
        id: "1".into(),
        partner_id: "ME".into(),
        description: None,
        password: Some("stored".into()),
        created_at: None,
        updated_at: None,
    }];
    assert_eq!(
        password_for(&partners, "ME", Some("given")).as_deref(),
        Some("given")
    );
    assert_eq!(
        password_for(&partners, "ME", Some("")).as_deref(),
        Some("stored")
    );
    assert_eq!(password_for(&partners, "YOU", None), None);
    assert_eq!(identity(&Some("X".into()), "ME"), "X");
    assert_eq!(identity(&None, "ME"), "ME");
}

#[test]
fn session_parameters() {
    let mut s = server("1", "a");
    s.preconnect_id = Some("PRE".into());
    s.read_timeout = 10;
    let q = TransferRequest {
        compression_enabled: Some(true),
        ..TransferRequest::default()
    };
    let c = settings().requester_config(&s, "ME", Some("pw".into()), &q, AccessType::Write);
    assert_eq!(c.requester_id, "ME");
    assert_eq!(c.server_id, "SRV");
    assert_eq!(
        c.sync,
        SyncOption {
            interval_kb: 100,
            window: 4
        }
    );
    assert_eq!(c.compression, Compression::Mixed);
    assert_eq!(c.timeout_ms, 1000);
    assert_eq!(c.preconnect.map(|p| p.identifier), Some("PRE".to_owned()));
    let t = settings().tls_settings(&s);
    assert_eq!(t.ca_file.as_deref(), Some("/ca"));
    assert_eq!(t.min_version, Some(TlsVersion::V1_2));
    assert_eq!(t.verify_hostname, Some(true));
    assert_eq!(address(&s), "h:5000");
    assert_eq!(framing(&s), Framing::LengthPrefixed);
    s.tls_enabled = true;
    s.tcpip_header = false;
    assert_eq!(framing(&s), Framing::Raw);
    assert_eq!(record_format(&q), RecordFormat::Bu);
}

#[test]
fn paths_and_file_attributes() {
    let s = settings();
    assert_eq!(s.receive_path(Some("/abs"), "R", "T"), "/abs");
    assert_eq!(s.receive_path(Some("rel"), "R", "T"), "/data/in/rel");
    assert_eq!(s.receive_path(None, "R", "T"), "/data/in/R_T");
    let f = s.file_spec(
        &TransferRequest::default(),
        "R",
        Some(1025),
        9,
        true,
        "260828212509".into(),
    );
    assert_eq!(f.max_reservation, 2);
    assert_eq!(f.article_length, 4096);
    assert_eq!(f.transfer_id, 9);
    assert!(f.restarted);
    assert_eq!(f.creation_date.as_deref(), Some("260828212509"));
}

#[test]
fn transfer_identifiers() {
    assert_eq!(next_transfer_id(0), 1);
    assert_eq!(next_transfer_id(5), 5);
    assert_eq!(next_transfer_id(0xFF_FFFF), 1);
    assert_eq!(next_transfer_id(0x100_0000), 1);
    let cp = Checkpoint {
        sync: 1,
        ..Checkpoint::default()
    };
    assert_eq!(kept_transfer_id(Some(cp), 7), Some(7));
    assert_eq!(kept_transfer_id(None, 7), None);
    assert_eq!(kept_transfer_id(Some(cp), 0), None);
    assert_eq!(send_restart(None, Some(cp)), Some(cp));
}

#[test]
fn articles_in_ebcdic() {
    let plain = TransferRequest::default();
    let coded = TransferRequest {
        ebcdic: Some(true),
        ..TransferRequest::default()
    };
    let s = settings();
    let code = |r: &TransferRequest| s.file_spec(r, "R", None, 1, false, "D".into()).data_code;
    assert_eq!(code(&plain), None);
    assert_eq!(code(&coded), Some(1));
    assert_eq!(outgoing_article(&plain, b"A1".to_vec()), b"A1".to_vec());
    assert_eq!(outgoing_article(&coded, b"A1".to_vec()), vec![0xC1, 0xF1]);
    assert_eq!(incoming_article(&coded, &[0xC1, 0xF1]), b"A1".to_vec());
    assert_eq!(incoming_article(&plain, b"A1"), b"A1".to_vec());
}

#[test]
fn transfers_are_planned() {
    let s = settings();
    let history = TransferHistory {
        remote_filename: Some("R".into()),
        file_size: Some(2048),
        pesit_transfer_id: 7,
        ..TransferHistory::default()
    };
    let req = TransferRequest::default();
    let cp = Checkpoint {
        sync: 2,
        file_offset: 10,
        data_bytes: 10,
        articles: 1,
    };
    let send = s.send_plan(&history, &req, None, 9, "D".into());
    assert_eq!(send.restart, None);
    assert_eq!(send.file.file_name, "R");
    assert_eq!(send.file.transfer_id, 9);
    assert_eq!(send.file.max_reservation, 2);
    assert!(!send.file.restarted);
    let again = s.send_plan(&history, &req, Some(cp), 7, "D".into());
    assert_eq!(again.restart, Some(cp));
    assert!(again.file.restarted);

    let receive = s.receive_plan(&history, &req, None, "D".into());
    assert_eq!(receive.file.transfer_id, 0);
    assert_eq!(receive.file.max_reservation, 0);
    let resumed = s.receive_plan(&history, &req, Some(cp), "D".into());
    assert_eq!(resumed.file.transfer_id, 7);
    assert!(resumed.file.restarted);

    assert_eq!(receive_restart(Some(cp), true), Some(cp));
    assert_eq!(receive_restart(Some(cp), false), None);
    assert_eq!(receive_restart(None, true), None);
}

#[test]
fn outcomes_are_summed_up() {
    let out = TransferOutcome {
        transfer_id: 7,
        data: DataResult {
            end: cancelled_end(Role::Server),
            data_bytes: 12,
            articles: 3,
            last_sync: 1,
        },
        remote: FileSpec::default(),
        started_from: Checkpoint::default(),
        diag: Diagnostic::ok(),
    };
    assert_eq!(
        finished(&out, None),
        (
            12,
            DataEnd::Interrupted {
                code: EndCode::CancelByServer,
                diag: Diagnostic::voluntary_stop(),
                by_peer: false,
            },
            Diagnostic::ok(),
            None
        )
    );
}

#[test]
fn requests_are_checked() {
    let mut q = TransferRequest::default();
    assert_eq!(
        check_send(&q).err().map(|e| e.message),
        Some("filename is required".to_owned())
    );
    q.filename = Some("f".into());
    assert_eq!(
        check_send(&q).err().map(|e| e.message),
        Some("remoteFilename is required".to_owned())
    );
    assert!(check_receive(&q).is_err());
    q.remote_filename = Some("R".into());
    assert!(check_send(&q).is_ok() && check_receive(&q).is_ok());
    assert_eq!(
        missing_file("f", "gone").message,
        "file not found: f (gone)"
    );
    assert_eq!(not_a_file("f").message, "f is not a regular file");
    assert_eq!(
        not_running("t", TransferStatus::Failed).message,
        "transfer 't' is not running (status Failed)"
    );
}

#[test]
fn a_transfer_from_its_start_to_its_retry() {
    let s = server("1", "a");
    let q = TransferRequest {
        filename: Some("f".into()),
        remote_filename: Some("R".into()),
        correlation_id: Some("c".into()),
        ..TransferRequest::default()
    };
    let mut h = submit_send("id".into(), &s, q, "ME", 2000, "2026-08-28T21:25:09.000Z", None);
    assert_eq!(h.status, TransferStatus::InProgress);
    assert_eq!(h.partner_id.as_deref(), Some("ME"));
    assert_eq!(h.file_size, Some(2000));
    let early = match retry(h, "id") {
        Ok(_) => panic!("retried while running"),
        Err(e) => e,
    };
    assert_eq!(early.status, 409);
    let q = TransferRequest {
        filename: Some("f".into()),
        remote_filename: Some("R".into()),
        ..TransferRequest::default()
    };
    h = submit_send("id".into(), &s, q, "ME", 2000, "2026-08-28T21:25:09.000Z", None);
    let mut throttle = ProgressThrottle::new();
    let p = Progress {
        data_bytes: 1000,
        articles: 1,
        sync: 2,
        total_hint: None,
    };
    let changed = throttle.on_progress(&p, 0);
    assert_eq!(changed, Some(true));
    assert_eq!(throttle.on_progress(&p, 0), None);
    assert_eq!(throttle.on_progress(&p, 1000), Some(false));
    apply_progress(&mut h, &p, true);
    assert_eq!(h.last_sync_point, 2);
    let end = DataEnd::Interrupted {
        code: EndCode::CancelByServer,
        diag: Diagnostic::voluntary_stop(),
        by_peer: true,
    };
    let ok = finish(
        &mut h,
        "2026-08-28T21:25:10.500Z".into(),
        Ok((1000, end, Diagnostic::ok(), None)),
    );
    assert!(!ok);
    assert_eq!(h.status, TransferStatus::Interrupted);
    assert_eq!(
        h.diagnostic_code,
        Some(Diagnostic::voluntary_stop().label())
    );
    let r = TransferResponse::from(&h);
    assert_eq!(r.duration_ms, Some(1500));
    let a = audit_of(&h, ok, "e".into(), "now".into());
    assert_eq!(a.action, "send");
    assert_eq!(a.target.as_deref(), Some("f -> a"));
    assert_eq!(a.outcome, Outcome::Failure);
    let again = retry(h, "id").unwrap_or_else(|e| panic!("{}", e.message));
    assert_eq!(again.resume_from_transfer_id.as_deref(), Some("id"));
    assert_eq!(again.server.as_deref(), Some("1"));
}

#[test]
fn a_completed_transfer_is_replayed() {
    let s = server("1", "a");
    let mut prev = TransferHistory::new("p".into());
    prev.local_filename = Some("/old".into());
    prev.pesit_transfer_id = 4;
    prev.last_sync_point = 3;
    let q = TransferRequest {
        remote_filename: Some("R".into()),
        ..TransferRequest::default()
    };
    let mut h = submit_receive(
        "id".into(),
        &s,
        q,
        "ME",
        "/new".into(),
        "now",
        Some(&prev),
    );
    assert_eq!(h.local_filename.as_deref(), Some("/old"));
    assert_eq!(h.pesit_transfer_id, 4);
    reset_for_full_retry(&mut h);
    assert_eq!(h.last_sync_point, 0);
    let ok = finish(
        &mut h,
        "later".into(),
        Ok((10, DataEnd::Completed, Diagnostic::ok(), Some("sum".into()))),
    );
    assert!(ok);
    assert_eq!(h.status, TransferStatus::Completed);
    assert_eq!(h.file_size, Some(10));
    let q = replay(h);
    assert_eq!(q.resume_from_transfer_id, None);
    assert_eq!(q.filename.as_deref(), Some("/old"));
}

#[test]
fn failures_are_recorded() {
    let mut h = TransferHistory::default();
    finish(
        &mut h,
        "now".into(),
        Err(SessionError::Timeout("reply")),
    );
    assert_eq!(h.status, TransferStatus::Failed);
    assert_eq!(
        h.error_message.as_deref(),
        Some("timeout waiting for reply")
    );
    let mut h = TransferHistory::default();
    finish(
        &mut h,
        "now".into(),
        Ok((
            1,
            DataEnd::EndedWithError(Diagnostic::io_error()),
            Diagnostic::ok(),
            None,
        )),
    );
    assert_eq!(h.error_message, Some(Diagnostic::io_error().text()));
}

#[test]
fn errors_decide_how_a_session_is_left() {
    let refused = SessionError::Refused {
        request: FpduKind::Create,
        diag: Diagnostic::file_exists(),
        message: None,
    };
    assert!(is_restart_refusal(&refused));
    assert!(starts_over(true, &refused));
    assert!(!starts_over(false, &refused));
    assert_eq!(close_after_error(&refused), Leaving::Release);
    let gone = SessionError::Transport(TransportError::Closed);
    assert!(!is_restart_refusal(&gone));
    assert_eq!(close_after_error(&gone), Leaving::Drop);
    assert_eq!(
        close_after_error(&SessionError::Cancelled),
        Leaving::Abort(SessionError::Cancelled.abort_diag())
    );
}

#[test]
fn messages_are_recorded() {
    let s = server("1", "a");
    let q = MessageRequest {
        server: None,
        partner_id: None,
        password: Some("pw".into()),
        message: "hello".into(),
        message_name: None,
        correlation_id: None,
        expects_reply: true,
    };
    assert_eq!(message_spec(&q, 6).file_name, "MESSAGE");
    assert_eq!(message_session(&q).sync_points_enabled, Some(false));
    let mut h = submit_message("id".into(), &s, &q, "ME", 5, "now");
    assert_eq!(h.direction, Some(TransferDirection::Message));
    let reply = finish_message(
        &mut h,
        "later".into(),
        5,
        Ok(MessageOutcome {
            diag: Diagnostic::ok(),
            reply: Some(b"hi \xff".to_vec()),
        }),
    );
    assert_eq!(reply.as_deref(), Some("hi \u{fffd}"));
    assert_eq!(h.status, TransferStatus::Completed);
    let mut h = submit_message("id".into(), &s, &q, "ME", 5, "now");
    let reply = finish_message(
        &mut h,
        "later".into(),
        5,
        Ok(MessageOutcome {
            diag: Diagnostic::message_not_accepted(),
            reply: Some(b"x".to_vec()),
        }),
    );
    assert_eq!(reply, None);
    assert_eq!(h.status, TransferStatus::Failed);
}

// ---- outbound API ----

#[test]
fn servers_are_created_and_updated() {
    let all = vec![server("1", "a")];
    assert_eq!(
        create_server(&all, server("", " "), "2".into(), "now")
            .err()
            .map(|e| e.message),
        Some("name is required".to_owned())
    );
    let mut nohost = server("", "b");
    nohost.host = String::new();
    assert_eq!(
        validate_server(&nohost).err().map(|e| e.message),
        Some("host is required".to_owned())
    );
    let mut noport = server("", "b");
    noport.port = 0;
    assert_eq!(
        validate_server(&noport).err().map(|e| e.message),
        Some("port is required".to_owned())
    );
    assert_eq!(
        create_server(&all, server("", "a"), "2".into(), "now")
            .err()
            .map(|e| e.status),
        Some(409)
    );
    let b = create_server(&all, server("", "b"), "2".into(), "now")
        .unwrap_or_else(|e| panic!("{}", e.message));
    assert_eq!(b.id, "2");
    assert_eq!(b.created_at.as_deref(), Some("now"));
    let mut old = server("1", "a");
    old.ca_file = Some("/ca".into());
    old.cert_file = Some("/c".into());
    old.key_file = Some("/k".into());
    let u = update_server(old, server("x", "a2"), "later".into())
        .unwrap_or_else(|e| panic!("{}", e.message));
    assert_eq!(u.id, "1");
    assert!(u.truststore_configured && u.keystore_configured);
    assert_eq!(enabled_servers(vec![u]).len(), 1);
}

#[test]
fn one_server_is_the_default() {
    let mut a = server("1", "a");
    a.default_server = true;
    let mut all = vec![a, server("2", "b"), server("3", "c")];
    let changed = set_default(&mut all, "2", "now");
    assert_eq!(changed, vec![0, 1]);
    assert_eq!(
        all.iter().map(|s| s.default_server).collect::<Vec<_>>(),
        vec![false, true, false]
    );
    assert_eq!(all[2].updated_at, None);
}

#[test]
fn certificates_are_checked() {
    let pem = b"x\n-----BEGIN CERTIFICATE-----\nAA\n-----END CERTIFICATE-----\n-----BEGIN CERTIFICATE-----";
    assert!(holds_pem(pem));
    assert_eq!(rustls_pem_count(pem), 2);
    assert_eq!(check_truststore(pem, "f"), Ok(2));
    assert!(check_truststore(b"-----BEGIN KEY", "f")
        .err()
        .is_some_and(|e| e.contains("no certificate")));
    assert!(check_keystore(b"nothing", "f")
        .err()
        .is_some_and(|e| e.starts_with("'f' is not a PEM file")));
    let mut s = server("1", "a");
    install_truststore(&mut s, "/ca".into(), "now".into());
    assert!(s.tls_enabled && s.truststore_configured);
    install_keystore(&mut s, "/k", "now".into());
    assert!(s.keystore_configured);
    assert_eq!(remove_truststore(&mut s).as_deref(), Some("/ca"));
    assert!(!s.truststore_configured);
    s.key_file = None;
    refresh_tls_flags(&mut s);
    assert!(!s.keystore_configured);
}

#[test]
fn partners_are_created() {
    let p = |id: &str| Partner {
        id: String::new(),
        partner_id: id.into(),
        description: None,
        password: None,
        created_at: None,
        updated_at: None,
    };
    let all = vec![p("A")];
    assert!(create_partner(&all, p(""), "1".into(), "now").is_err());
    assert_eq!(
        create_partner(&all, p("A"), "1".into(), "now")
            .err()
            .map(|e| e.message),
        Some("partner 'A' already exists".to_owned())
    );
    let b = create_partner(&all, p("B"), "1".into(), "now")
        .unwrap_or_else(|e| panic!("{}", e.message));
    let c = update_partner(b, p("C"), "later".into());
    assert_eq!(c.id, "1");
    assert_eq!(c.created_at.as_deref(), Some("now"));
}

#[test]
fn transfers_are_listed() {
    let make = |id: &str, status, direction, sync| {
        let mut h = TransferHistory::new(id.into());
        h.status = status;
        h.direction = direction;
        h.last_sync_point = sync;
        h.bytes_transferred = 10;
        h.correlation_id = Some(format!("c{id}"));
        h
    };
    let all = || {
        vec![
            make("1", TransferStatus::Completed, Some(TransferDirection::Send), 0),
            make("2", TransferStatus::Failed, Some(TransferDirection::Receive), 3),
            make("3", TransferStatus::InProgress, None, 1),
        ]
    };
    let ids = |v: Vec<TransferHistory>| v.into_iter().map(|h| h.id).collect::<Vec<_>>();
    let q = ListQuery {
        status: Some("failed".into()),
        ..ListQuery::default()
    };
    assert_eq!(ids(list_transfers(all(), &q)), vec!["2"]);
    let q = ListQuery {
        direction: Some("Send".into()),
        ..ListQuery::default()
    };
    assert_eq!(ids(list_transfers(all(), &q)), vec!["1"]);
    let q = ListQuery {
        limit: Some(2),
        ..ListQuery::default()
    };
    assert_eq!(ids(list_transfers(all(), &q)), vec!["1", "2"]);
    assert_eq!(ids(resumable(all())), vec!["2"]);
    assert_eq!(
        by_correlation(all(), "c3").map(ids),
        Ok(vec!["3".to_owned()])
    );
    assert_eq!(
        by_correlation(all(), "no").err().map(|e| e.message),
        Some("no transfer with correlation id 'no'".to_owned())
    );
    let s = stats(&all());
    assert_eq!(
        (s.total, s.completed, s.failed, s.in_progress),
        (3, 1, 1, 1)
    );
    assert_eq!(s.bytes_transferred, 10);
}

// ---- connectors ----

#[test]
fn attempts_and_waits() {
    let c = Connector::local(LocalConnector::new("/base".into()));
    let mut a = c.attempts();
    assert_eq!(a.on_failure(), Some(200));
    assert_eq!(a.on_failure(), Some(400));
    assert_eq!(a.on_failure(), None);
    let mut once = c.with_max_attempts(0).attempts();
    assert_eq!(once.on_failure(), None);
}

/// Total of the waits of an operation that always fails.
fn waited(c: &Connector) -> u64 {
    let mut attempts = c.attempts();
    let mut total = 0;
    while let Some(ms) = attempts.on_failure() {
        total += ms;
    }
    total
}

#[test]
fn fetch_retries_with_backoff_then_fails() {
    let c = Connector::local(LocalConnector::new("/base".into()));
    assert!(waited(&c) >= 600);
}

#[test]
fn max_attempts_one_does_not_retry() {
    let c = Connector::local(LocalConnector::new("/base".into())).with_max_attempts(1);
    assert!(waited(&c) < 200);
}

#[test]
fn remote_paths() {
    let l = LocalConnector::new("/base".into());
    assert_eq!(l.resolve("//sub/x"), "/base/sub/x");
    let s = |base: Option<&str>| {
        SftpConnector::new(SftpConfig {
            host: "h".into(),
            port: 22,
            user: "u".into(),
            password: None,
            base_path: base.map(str::to_owned),
        })
    };
    assert_eq!(s(Some("/in//")).path("/x"), "/in/x");
    assert_eq!(s(None).path("/x"), "/x");
    assert_eq!(s(None).test_directory(), ".");
}

#[test]
fn connectors_are_configured() {
    let mut cfg = ConnectorConfig {
        id: "c".into(),
        kind: "s3".into(),
        bucket: None,
        region: None,
        endpoint: None,
        access_key: Some("a".into()),
        secret_key: None,
        path_style: true,
        host: None,
        port: 0,
        user: None,
        password: None,
        base_path: None,
    };
    assert_eq!(
        from_config(&cfg).err().map(|e| e.message),
        Some("S3 connector needs a bucket".to_owned())
    );
    cfg.bucket = Some("b".into());
    let c = from_config(&cfg).unwrap_or_else(|e| panic!("{}", e.message));
    assert_eq!(c.kind(), "s3");
    match c.backend() {
        Backend::S3(s) => {
            assert_eq!(s.region_name(), "us-east-1");
            assert_eq!(s.keys(), None);
        }
        other => panic!("{other:?}"),
    }
    cfg.kind = "sftp".into();
    assert_eq!(
        from_config(&cfg).err().map(|e| e.message),
        Some("SFTP connector needs a host".to_owned())
    );
    cfg.host = Some("h".into());
    match from_config(&cfg)
        .unwrap_or_else(|e| panic!("{}", e.message))
        .backend()
    {
        Backend::Sftp(s) => assert_eq!(s.config().port, 22),
        other => panic!("{other:?}"),
    }
    cfg.kind = "other".into();
    match from_config(&cfg)
        .unwrap_or_else(|e| panic!("{}", e.message))
        .backend()
    {
        Backend::Local(l) => assert_eq!(l.base(), "/"),
        other => panic!("{other:?}"),
    }
    assert_eq!(
        ConnectorError::S3(S3Error::S3("x".into())).text(),
        "s3: x"
    );
    assert_eq!(
        ConnectorError::Sftp(SftpError::Auth).text(),
        "SFTP authentication failed"
    );
    assert_eq!(ConnectorError::Local("x".into()).text(), "local: x");
}

// ---- cluster ----

fn cluster() -> ClusterConfig {
    ClusterConfig {
        url: "nats://n".into(),
        name: "prod".into(),
        node_id: "a".into(),
        node_addr: "h:1".into(),
        version: "1".into(),
        heartbeat_ms: 5000,
    }
}

#[test]
fn cluster_names_and_times() {
    let n = cluster().names();
    assert_eq!(n.members, "pesit_prod_members");
    assert_eq!(n.leader, "pesit_prod_leader");
    assert_eq!(n.config, "pesit.prod.config");
    assert_eq!(n.sync, "pesit.prod.sync");
    let t = cluster().times();
    assert_eq!((t.member_age, t.lease_age, t.lease_tick), (15000, 10000, 2500));
    assert_eq!(cluster().member(1700).last_seen, "@1700");
}

#[test]
fn the_lease_decides_who_leads() {
    assert_eq!(lease_step(Some("a"), "a"), LeaseStep::Renew);
    assert_eq!(lease_step(Some("b"), "a"), LeaseStep::Follow);
    assert_eq!(lease_step(None, "a"), LeaseStep::Claim);
    assert!(leads(LeaseStep::Renew, false));
    assert!(!leads(LeaseStep::Follow, true));
    assert!(leads(LeaseStep::Claim, true) && !leads(LeaseStep::Claim, false));
    assert!(runs_schedules(None) && runs_schedules(Some(true)) && !runs_schedules(Some(false)));
}

#[test]
fn configuration_changes() {
    let c = ConfigChange::announce("b", "put", "partners", "P1", Some("{}".into()));
    assert_eq!(c.step("a"), ChangeStep::Put);
    assert_eq!(c.step("b"), ChangeStep::Ignore);
    let d = ConfigChange::announce("b", "delete", "partners", "P1", None);
    assert_eq!(d.step("a"), ChangeStep::Delete);
    let e = ConfigChange::announce("b", "put", "partners", "P1", None);
    assert_eq!(e.step("a"), ChangeStep::Ignore);
    let f = ConfigChange::announce("b", "put", "servers", "S", Some("{}".into()));
    assert_eq!(f.step("a"), ChangeStep::Ignore);
}

#[test]
fn members_are_sorted() {
    let m = |id: &str| MemberInfo {
        node_id: id.into(),
        addr: String::new(),
        version: String::new(),
        last_seen: String::new(),
    };
    let mut first = m("b");
    first.addr = "1".into();
    let sorted = sort_members(vec![first, m("a"), m("ab"), m("b")]);
    assert_eq!(sorted[2].addr, "1");
    assert_eq!(
        sorted.iter().map(|m| m.node_id.as_str()).collect::<Vec<_>>(),
        vec!["a", "ab", "b", "b"]
    );
    assert!(is_before("a", "ab") && !is_before("ab", "a") && !is_before("a", "a"));
}
