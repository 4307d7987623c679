//! Sessions: both ends of a connection, driven against each other in memory.

use pesit::builder::FileSpec;
use pesit::checkpoint::{Checkpoint, CheckpointStore, MemoryCheckpoints};
use pesit::datapath::{
    check_counts, interrupt, interrupt_step, DataEnd, DataParams, DataResult, InterruptStep,
};
use pesit::diag::Diagnostic;
use pesit::ebcdic::{
    char_of, code_of, from_ebcdic, is_preconnect, marks, parse_preconnect, preconnect_message,
    to_ebcdic, PRECONNECT_ACK, PRECONNECT_LEN, PRECONNECT_NAK,
};
use pesit::error::{SessionError, TransportError};
use pesit::fpdu::{DecodeError, Fpdu};
use pesit::frame::{decode_entity, single_entity};
use pesit::io::{append_article, ArticleSink, ArticleSource, Position, VecSink, VecSource};
use pesit::article::RecordFormat;
use pesit::kind::FpduKind;
use pesit::link::Link;
use pesit::message::{message_fpdus, on_segmented_answer, IncomingMessage, MessageOutcome};
use pesit::params::{AccessType, Compression, EndCode, FpduExt, RequestedAttributes, SyncOption};
use pesit::pi::Pi;
use pesit::receiver::{DataReceiver, ReceiveStep};
use pesit::requester::{
    preconnect_accepted, FileTransfer, Preconnect, Requester, RequesterConfig, Stage, TransferOutcome,
    TransferSpec,
};
use pesit::responder::{
    detect_crc, ConnectAccept, CreateAccept, Indication, ReadStart, Refusal, Responder,
    ResponderConfig,
};
use pesit::sender::{DataSender, SendNeed, SendStep};
use pesit::state::{LocalEvent, Machine, Role, State};
use pesit::transport::{frame_entity, FrameState, Framing, HeaderStep, MAX_ENTITY};

fn shown(e: SessionError) -> String {
    e.text()
}

fn responder() -> Responder {
    Responder::new(&ResponderConfig {
        session_id: "S-000001".into(),
        conn_id: 9,
        timeout_ms: 60_000,
        idle_timeout_ms: 60_000,
        remote_addr: "test".into(),
    })
}

fn config() -> RequesterConfig {
    RequesterConfig {
        requester_id: "CLIENT".into(),
        server_id: "SERVER".into(),
        password: Some("pw".into()),
        ..RequesterConfig::default()
    }
}

/// Establish a session.
fn connect(cfg: RequesterConfig, accept: ConnectAccept) -> (Requester, Responder) {
    let mut server = responder();
    let crc = cfg.crc;
    let (machine, fpdu) = Requester::connect(&cfg);
    let entity = single_entity(&fpdu, crc).unwrap_or_default();
    assert_eq!(detect_crc(&entity), crc);
    let asked = server
        .on_connect(&entity, None, "test".into())
        .unwrap_or_else(|e| panic!("{}", shown(e)));
    assert_eq!(asked.requester, "CLIENT");
    assert_eq!(asked.server, "SERVER");
    assert_eq!(asked.password.as_deref(), Some("pw"));
    let reply = server
        .accept_connect(&asked, &accept)
        .unwrap_or_else(|e| panic!("{}", shown(e)));
    let client = Requester::on_connect_reply(machine, cfg, &reply)
        .unwrap_or_else(|e| panic!("{}", shown(e)));
    assert_eq!(client.negotiated(), server.negotiated());
    assert_eq!(client.peer_id(), 9);
    (client, server)
}

/// One request of the requester, answered by `answer`.
fn exchange(
    client: &mut Requester,
    transfer: &mut FileTransfer,
    store: &mut MemoryCheckpoints,
    answer: &mut dyn FnMut(&Fpdu) -> Fpdu,
) -> Result<(), SessionError> {
    let q = transfer
        .request(client)
        .unwrap_or_else(|| panic!("no request"));
    client.start(q.event)?;
    let reply = answer(&q.fpdu);
    let taken = client.on_reply(q.fpdu.kind, q.expect, reply);
    let taken = match taken {
        Ok(Some(f)) => Ok(f),
        Ok(None) => panic!("dropped"),
        Err(e) => Err(e),
    };
    transfer.on_answer(client, taken, store)
}

/// The data phase, from a sender to a receiver in memory. Stops after `stop_after` articles, if
/// that is given, by an interruption of the sender.
fn move_data(
    send_machine: &mut Machine,
    send_params: DataParams,
    source: &mut VecSource,
    send_store: &mut MemoryCheckpoints,
    recv_machine: &mut Machine,
    recv_params: DataParams,
    sink: &mut VecSink,
    recv_store: &mut MemoryCheckpoints,
    start: Checkpoint,
    stop_after: Option<u64>,
) -> (DataResult, DataResult) {
    let crc = send_params.crc;
    let peer = send_params.peer_id;
    let mut tx = DataSender::new(send_params, start);
    let mut rx = DataReceiver::new(recv_params, start);
    let mut received = None;
    let mut sent: Option<DataResult> = None;
    loop {
        if sent.is_none() {
            assert_eq!(tx.need(false), SendNeed::Article);
            let stop = stop_after.is_some_and(|n| tx.progress(None).articles >= n);
            if stop {
                tx.on_cancel();
            } else {
                match source.next_article().unwrap_or_else(|e| panic!("{}", shown(e))) {
                    Some(a) => {
                        let offset = source.position().file_offset;
                        tx.on_article(send_machine, &a, offset, send_store)
                            .unwrap_or_else(|e| panic!("{}", shown(e)));
                    }
                    None => {
                        sent = Some(
                            tx.on_end(send_machine)
                                .unwrap_or_else(|e| panic!("{}", shown(e))),
                        );
                    }
                }
            }
            let mut entities = tx.take_ready();
            if stop {
                let idt = interrupt(
                    send_machine,
                    peer,
                    Diagnostic::voluntary_stop(),
                    EndCode::CancelByRequester,
                )
                .unwrap_or_else(|e| panic!("{}", shown(e)));
                entities.push(single_entity(&idt, crc).unwrap_or_default());
            }
            for e in entities {
                assert!(e.len() <= send_params.max_entity);
                for f in decode_entity(&e, crc).unwrap_or_else(|e| panic!("{}", e.text())) {
                    let step = rx
                        .on_fpdu(recv_machine, &f, recv_store)
                        .unwrap_or_else(|e| panic!("{}", shown(e)));
                    match step {
                        ReceiveStep::Continue => {}
                        ReceiveStep::Articles(list, fault) => {
                            assert_eq!(fault, None);
                            for a in &list {
                                sink.write_article(a)
                                    .unwrap_or_else(|e| panic!("{}", shown(e)));
                            }
                        }
                        ReceiveStep::Sync(n) => {
                            let at = sink
                                .checkpoint()
                                .unwrap_or_else(|e| panic!("{}", shown(e)))
                                .file_offset;
                            let ack = rx
                                .on_checkpoint(recv_machine, n, at, recv_store)
                                .unwrap_or_else(|e| panic!("{}", shown(e)));
                            if let Some(ack) = ack {
                                let s = tx
                                    .on_fpdu(send_machine, &ack, send_store)
                                    .unwrap_or_else(|e| panic!("{}", shown(e)));
                                assert!(matches!(s, SendStep::Continue));
                            }
                        }
                        ReceiveStep::Ended(end) => received = Some(rx.result(end)),
                        ReceiveStep::Interrupted(ack, end) => {
                            received = Some(rx.result(end));
                            let s = interrupt_step(send_machine, peer, &ack)
                                .unwrap_or_else(|e| panic!("{}", shown(e)));
                            assert_eq!(s, InterruptStep::Done);
                            sent = Some(tx.result(DataEnd::Interrupted {
                                code: EndCode::CancelByRequester,
                                diag: Diagnostic::voluntary_stop(),
                                by_peer: false,
                            }));
                        }
                        ReceiveStep::Rewind(..) => panic!("rewind"),
                    }
                }
            }
        }
        if let (Some(a), Some(b)) = (sent, received) {
            return (a, b);
        }
    }
}

/// Send a file from the client to the server.
fn write_file(
    client: &mut Requester,
    server: &mut Responder,
    articles: Vec<Vec<u8>>,
    spec: &TransferSpec,
    store: &mut MemoryCheckpoints,
    server_store: &mut MemoryCheckpoints,
    sink: &mut VecSink,
    restart: Option<Checkpoint>,
    stop_after: Option<u64>,
) -> TransferOutcome {
    let mut source = VecSource::new(articles);
    let mut t = FileTransfer::send_file(client, spec);
    let mut asked: Option<FileSpec> = None;
    let mut size = 0u16;
    exchange(client, &mut t, store, &mut |f| {
        match server.on_fpdu(f).unwrap_or_else(|e| panic!("{}", shown(e))) {
            Indication::Create(s) => {
                let accept = CreateAccept {
                    transfer_id: Some(77),
                    restart,
                    max_article: 0,
                    handle: 1,
                    free_message: None,
                };
                let (_, n, ack) = server
                    .accept_create(&s, &accept)
                    .unwrap_or_else(|e| panic!("{}", shown(e)));
                size = n;
                asked = Some(s);
                ack
            }
            other => panic!("{other:?}"),
        }
    })
    .unwrap_or_else(|e| panic!("{}", shown(e)));
    let asked = asked.unwrap_or_else(|| panic!("no CREATE"));
    let mut compression = Compression::Off;
    exchange(client, &mut t, store, &mut |f| {
        let orf = server
            .expect(FpduKind::Orf, f.clone())
            .unwrap_or_else(|e| panic!("{}", shown(e)))
            .unwrap_or_else(|| panic!("dropped"));
        let (c, ack) = server
            .on_open(&orf)
            .unwrap_or_else(|e| panic!("{}", shown(e)));
        compression = c;
        ack
    })
    .unwrap_or_else(|e| panic!("{}", shown(e)));
    let mut start = Checkpoint::default();
    exchange(client, &mut t, store, &mut |f| {
        server
            .expect(FpduKind::Write, f.clone())
            .unwrap_or_else(|e| panic!("{}", shown(e)))
            .unwrap_or_else(|| panic!("dropped"));
        let (cp, ack) = server
            .on_write(asked.restarted, restart, server_store)
            .unwrap_or_else(|e| panic!("{}", shown(e)));
        start = cp;
        ack
    })
    .unwrap_or_else(|e| panic!("{}", shown(e)));
    assert_eq!(t.stage(), Stage::Data);
    assert_eq!(t.started_from(), start);
    source
        .rewind(Position::of(start))
        .unwrap_or_else(|e| panic!("{}", shown(e)));
    sink.truncate(Position::of(start))
        .unwrap_or_else(|e| panic!("{}", shown(e)));
    let send_params = t.data_params(client);
    let recv_params = server.data_params(&asked, compression, size, 0);
    let (sent, got) = move_data(
        client.machine(),
        send_params,
        &mut source,
        store,
        server.machine(),
        recv_params,
        sink,
        server_store,
        start,
        stop_after,
    );
    if stop_after.is_none() {
        assert_eq!(sent.data_bytes, got.data_bytes);
        assert_eq!(sent.articles, got.articles);
    }
    t.on_data(sent);
    let mut diag = Diagnostic::ok();
    while t.stage() != Stage::Done {
        exchange(client, &mut t, store, &mut |f| {
            let (ack, _) = server
                .on_close(&mut diag, &got, f)
                .unwrap_or_else(|e| panic!("{}", shown(e)));
            ack.unwrap_or_else(|| panic!("no answer"))
        })
        .unwrap_or_else(|e| panic!("{}", shown(e)));
    }
    t.outcome()
}

fn records(n: usize, len: usize) -> Vec<Vec<u8>> {
    (0..n)
        .map(|i| (0..len).map(|j| ((i * 7 + j / 3) % 251) as u8).collect())
        .collect()
}

fn spec_of(name: &str, len: u16) -> TransferSpec {
    TransferSpec {
        file: FileSpec {
            file_name: name.into(),
            transfer_id: 5,
            article_length: len,
            ..FileSpec::default()
        },
        restart: None,
    }
}

#[test]
fn a_file_is_written() {
    let (mut client, mut server) = connect(config(), ConnectAccept::default());
    let articles = records(200, 1000);
    let mut store = MemoryCheckpoints::new();
    let mut server_store = MemoryCheckpoints::new();
    let mut sink = VecSink::new();
    let out = write_file(
        &mut client,
        &mut server,
        articles.clone(),
        &spec_of("DATA", 1000),
        &mut store,
        &mut server_store,
        &mut sink,
        None,
        None,
    );
    assert!(out.is_complete());
    assert_eq!(out.transfer_id, 77);
    assert_eq!(out.data.data_bytes, 200_000);
    assert_eq!(out.data.articles, 200);
    assert!(out.data.last_sync >= 6);
    assert_eq!(sink.bytes(), articles.concat());
}

#[test]
fn a_compressed_file_with_check_bytes_is_written() {
    let cfg = RequesterConfig {
        crc: true,
        compression: Compression::Mixed,
        max_entity: 512,
        sync: SyncOption {
            interval_kb: 1,
            window: 0,
        },
        ..config()
    };
    let accept = ConnectAccept {
        compression: Compression::Mixed,
        max_entity: 300,
        ..ConnectAccept::default()
    };
    let (mut client, mut server) = connect(cfg, accept);
    let articles = records(60, 120);
    let mut sink = VecSink::new();
    let out = write_file(
        &mut client,
        &mut server,
        articles.clone(),
        &spec_of("DATA", 200),
        &mut MemoryCheckpoints::new(),
        &mut MemoryCheckpoints::new(),
        &mut sink,
        None,
        None,
    );
    assert!(out.is_complete());
    assert!(out.data.data_bytes < 60 * 120);
    assert_eq!(sink.bytes(), articles.concat());
}

#[test]
fn an_interrupted_write_is_restarted() {
    let cfg = RequesterConfig {
        sync: SyncOption {
            interval_kb: 1,
            window: 4,
        },
        ..config()
    };
    let (mut client, mut server) = connect(cfg, ConnectAccept::default());
    let articles = records(40, 300);
    let mut store = MemoryCheckpoints::new();
    let mut server_store = MemoryCheckpoints::new();
    let mut sink = VecSink::new();
    let out = write_file(
        &mut client,
        &mut server,
        articles.clone(),
        &spec_of("DATA", 300),
        &mut store,
        &mut server_store,
        &mut sink,
        None,
        Some(20),
    );
    assert!(!out.is_complete());
    assert!(matches!(
        out.data.end,
        DataEnd::Interrupted { by_peer: false, .. }
    ));
    let last = server_store.last().unwrap_or_else(|| panic!("no checkpoint"));
    assert!(last.sync > 0);
    let mut spec = spec_of("DATA", 300);
    spec.restart = Some(last);
    let out = write_file(
        &mut client,
        &mut server,
        articles.clone(),
        &spec,
        &mut store,
        &mut server_store,
        &mut sink,
        Some(last),
        None,
    );
    assert!(out.is_complete());
    assert_eq!(out.started_from, last);
    assert_eq!(sink.bytes(), articles.concat());
}

#[test]
fn a_file_is_read() {
    let (mut client, mut server) = connect(config(), ConnectAccept::default());
    let articles = records(20, 500);
    let mut source = VecSource::new(articles.clone());
    let mut store = MemoryCheckpoints::new();
    let mut server_store = MemoryCheckpoints::new();
    let mut t = FileTransfer::receive_file(&client, &spec_of("OUT", 400));
    let mut answer = FileSpec::default();
    exchange(&mut client, &mut t, &mut store, &mut |f| {
        match server.on_fpdu(f).unwrap_or_else(|e| panic!("{}", shown(e))) {
            Indication::Select(asked, attrs) => {
                assert_eq!(attrs, RequestedAttributes::all());
                let told = FileSpec {
                    file_name: "OUT".into(),
                    article_length: 500,
                    ..FileSpec::default()
                };
                let (told, ack) = server
                    .accept_select(&asked, told, attrs)
                    .unwrap_or_else(|e| panic!("{}", shown(e)));
                answer = told;
                ack
            }
            other => panic!("{other:?}"),
        }
    })
    .unwrap_or_else(|e| panic!("{}", shown(e)));
    assert_eq!(answer.transfer_id, 5);
    let mut compression = Compression::Mixed;
    exchange(&mut client, &mut t, &mut store, &mut |f| {
        server
            .expect(FpduKind::Orf, f.clone())
            .unwrap_or_else(|e| panic!("{}", shown(e)));
        let (c, ack) = server.on_open(f).unwrap_or_else(|e| panic!("{}", shown(e)));
        compression = c;
        ack
    })
    .unwrap_or_else(|e| panic!("{}", shown(e)));
    exchange(&mut client, &mut t, &mut store, &mut |f| {
        server
            .expect(FpduKind::Read, f.clone())
            .unwrap_or_else(|e| panic!("{}", shown(e)));
        match server
            .on_read(f, &mut server_store)
            .unwrap_or_else(|e| panic!("{}", shown(e)))
        {
            ReadStart::From(cp, ack) => {
                assert_eq!(cp, Checkpoint::default());
                ack
            }
            ReadStart::Refused(_, e) => panic!("{}", shown(e)),
        }
    })
    .unwrap_or_else(|e| panic!("{}", shown(e)));
    let recv_params = t.data_params(&client);
    assert_eq!(recv_params.max_article, 500);
    let send_params = server.data_params(&answer, compression, answer.max_entity_size, 0);
    let mut sink = VecSink::new();
    let (sent, got) = move_data(
        server.machine(),
        send_params,
        &mut source,
        &mut server_store,
        client.machine(),
        recv_params,
        &mut sink,
        &mut store,
        Checkpoint::default(),
        None,
    );
    t.on_data(got);
    let mut diag = Diagnostic::ok();
    while t.stage() != Stage::Done {
        exchange(&mut client, &mut t, &mut store, &mut |f| {
            server
                .on_close(&mut diag, &sent, f)
                .unwrap_or_else(|e| panic!("{}", shown(e)))
                .0
                .unwrap_or_else(|| panic!("no answer"))
        })
        .unwrap_or_else(|e| panic!("{}", shown(e)));
    }
    assert!(t.outcome().is_complete());
    assert_eq!(sink.bytes(), articles.concat());
    // the session ends
    let q = client.release();
    client
        .start(q.event)
        .unwrap_or_else(|e| panic!("{}", shown(e)));
    let i = server
        .on_fpdu(&q.fpdu)
        .unwrap_or_else(|e| panic!("{}", shown(e)));
    let relconf = match i {
        Indication::Released(f) => f,
        other => panic!("{other:?}"),
    };
    let r = client
        .on_reply(q.fpdu.kind, q.expect, relconf)
        .unwrap_or_else(|e| panic!("{}", shown(e)));
    assert!(r.is_some());
}

#[test]
fn an_unknown_restart_point_is_refused() {
    let (mut client, mut server) = connect(config(), ConnectAccept::default());
    let mut t = FileTransfer::receive_file(&client, &spec_of("OUT", 400));
    let mut store = MemoryCheckpoints::new();
    exchange(&mut client, &mut t, &mut store, &mut |f| {
        match server.on_fpdu(f).unwrap_or_else(|e| panic!("{}", shown(e))) {
            Indication::Select(asked, attrs) => {
                server
                    .accept_select(&asked, FileSpec::default(), attrs)
                    .unwrap_or_else(|e| panic!("{}", shown(e)))
                    .1
            }
            other => panic!("{other:?}"),
        }
    })
    .unwrap_or_else(|e| panic!("{}", shown(e)));
    exchange(&mut client, &mut t, &mut store, &mut |f| {
        server
            .expect(FpduKind::Orf, f.clone())
            .unwrap_or_else(|e| panic!("{}", shown(e)));
        server
            .on_open(f)
            .unwrap_or_else(|e| panic!("{}", shown(e)))
            .1
    })
    .unwrap_or_else(|e| panic!("{}", shown(e)));
    let read = pesit::builder::read(9, 4);
    server
        .expect(FpduKind::Read, read.clone())
        .unwrap_or_else(|e| panic!("{}", shown(e)));
    match server
        .on_read(&read, &mut MemoryCheckpoints::new())
        .unwrap_or_else(|e| panic!("{}", shown(e)))
    {
        ReadStart::Refused(ack, e) => {
            assert_eq!(ack.diag(), Some(Diagnostic::restart_unknown_sync()));
            assert_eq!(
                shown(e),
                "negotiation failure: requester asked to restart at unknown sync point 4"
            );
        }
        other => panic!("{other:?}"),
    }
}

#[test]
fn refused_connections_and_requests() {
    let cfg = config();
    let mut server = responder();
    let (machine, fpdu) = Requester::connect(&cfg);
    let entity = single_entity(&fpdu, false).unwrap_or_default();
    server
        .on_connect(&entity, None, "test".into())
        .unwrap_or_else(|e| panic!("{}", shown(e)));
    let refusal = Refusal::with_message(Diagnostic::caller_unknown(), "who are you".into());
    let (reply, error) = server
        .refuse_connect(refusal)
        .unwrap_or_else(|e| panic!("{}", shown(e)));
    assert!(matches!(error, SessionError::Refused { .. }));
    assert!(server.farewell(&error).is_none());
    let e = Requester::on_connect_reply(machine, cfg, &reply)
        .err()
        .unwrap_or(SessionError::Cancelled);
    assert_eq!(
        e,
        SessionError::Refused {
            request: FpduKind::Connect,
            diag: Diagnostic::caller_unknown(),
            message: Some("who are you".into()),
        }
    );

    // a requester that may only read does not get to write
    let cfg = RequesterConfig {
        access: AccessType::Read,
        ..config()
    };
    let (mut client, mut server) = connect(cfg, ConnectAccept::default());
    let mut t = FileTransfer::send_file(&client, &spec_of("IN", 100));
    let r = exchange(
        &mut client,
        &mut t,
        &mut MemoryCheckpoints::new(),
        &mut |f| match server.on_fpdu(f).unwrap_or_else(|e| panic!("{}", shown(e))) {
            Indication::Refused(ack) => ack,
            other => panic!("{other:?}"),
        },
    );
    assert_eq!(
        r.err(),
        Some(SessionError::Refused {
            request: FpduKind::Create,
            diag: Diagnostic::select_negotiation(),
            message: None,
        })
    );
}

#[test]
fn the_crc_option_has_to_match() {
    let cfg = RequesterConfig {
        crc: true,
        ..config()
    };
    let (_, fpdu) = Requester::connect(&cfg);
    let mut server = responder();
    let bare = single_entity(&fpdu, false).unwrap_or_default();
    let e = server
        .on_connect(&bare, None, "test".into())
        .err()
        .unwrap_or(SessionError::Cancelled);
    assert_eq!(
        e,
        SessionError::Decode(DecodeError {
            diag: Diagnostic::invalid_parameter(),
            detail: "PI 1 does not match the presence of a CRC".into(),
        })
    );
    let abort = server.farewell(&e).unwrap_or_else(|| panic!("no ABORT"));
    assert_eq!(abort.kind, FpduKind::Abort);
    assert_eq!(abort.diag(), Some(Diagnostic::invalid_parameter()));
}

#[test]
fn messages_long_and_short() {
    let (mut client, mut server) = connect(config(), ConnectAccept::default());
    let spec = FileSpec {
        file_name: "MSG".into(),
        transfer_id: 3,
        ..FileSpec::default()
    };
    for (text, limit) in [(b"hi".to_vec(), 4096usize), (vec![b'z'; 900], 128)] {
        let fpdus = message_fpdus(client.peer_id(), &spec, &text, true, limit, false);
        assert_eq!(fpdus.len() == 1, text.len() < 10);
        client
            .start(LocalEvent::Message)
            .unwrap_or_else(|e| panic!("{}", shown(e)));
        let mut m = match server
            .on_fpdu(&fpdus[0])
            .unwrap_or_else(|e| panic!("{}", shown(e)))
        {
            Indication::Message(m, complete) => {
                assert_eq!(complete, fpdus.len() == 1);
                m
            }
            other => panic!("{other:?}"),
        };
        for (i, f) in fpdus.iter().enumerate().skip(1) {
            let done = m
                .on_segment(server.machine(), f)
                .unwrap_or_else(|e| panic!("{}", shown(e)));
            assert_eq!(done, i + 1 == fpdus.len());
        }
        assert_eq!(m.message, text);
        assert!(m.expects_reply);
        let ack = server
            .accept_message(&m, Some(b"OK"))
            .unwrap_or_else(|e| panic!("{}", shown(e)));
        let ack = if fpdus.len() == 1 {
            client
                .on_reply(FpduKind::Msg, FpduKind::AckMsg, ack)
                .unwrap_or_else(|e| panic!("{}", shown(e)))
                .unwrap_or_else(|| panic!("dropped"))
        } else {
            client
                .start(LocalEvent::DataEnd)
                .unwrap_or_else(|e| panic!("{}", shown(e)));
            on_segmented_answer(client.machine(), ack).unwrap_or_else(|e| panic!("{}", shown(e)))
        };
        let out = MessageOutcome::of(&ack);
        assert!(out.diag.is_ok());
        assert_eq!(out.reply, Some(b"OK".to_vec()));
    }
}

#[test]
fn message_fpdus_fit_their_entities() {
    let blank = FileSpec::default();
    let bare = pesit::builder::msg(FpduKind::Msg, 1, &blank, false, None).encoded_len();
    for len in [1usize, 200, 253, 254, 255, 256, 300, 1000] {
        for limit in bare + 3..bare + 310 {
            for crc in [false, true] {
                let check = if crc { 2 } else { 0 };
                if bare + 3 + check > limit {
                    continue;
                }
                let fpdus = message_fpdus(1, &blank, &vec![7; len], false, limit, crc);
                assert!(fpdus.iter().all(|f| f.encoded_len() + check <= limit));
                let whole =
                    pesit::builder::msg(FpduKind::Msg, 1, &blank, false, Some(&vec![7; len]));
                assert_eq!(fpdus.len() == 1, whole.encoded_len() + check <= limit);
            }
        }
    }
}

#[test]
fn articles_are_received_without_a_limit() {
    let params = DataParams {
        peer_id: 9,
        sync: SyncOption::none(),
        resync: false,
        compression: Compression::Mixed,
        crc: false,
        max_entity: 4096,
        multi_article: true,
        max_article: 0,
        timeout_ms: 1000,
        role: Role::Server,
    };
    let mut machine = receiving_machine();
    let mut rx = DataReceiver::new(params, Checkpoint::default());
    let store = MemoryCheckpoints::new();
    let data = Fpdu::data(FpduKind::Dtf, 9, 0, vec![5, b'h', b'e', b'l', b'l', b'o']);
    assert_eq!(
        rx.on_fpdu(&mut machine, &data, &store),
        Ok(ReceiveStep::Articles(vec![b"hello".to_vec()], None))
    );
    let end = pesit::builder::dtf_end(9, Diagnostic::ok());
    assert_eq!(
        rx.on_fpdu(&mut machine, &end, &store),
        Ok(ReceiveStep::Ended(DataEnd::Completed))
    );
    assert_eq!(
        rx.result(DataEnd::Completed),
        DataResult {
            end: DataEnd::Completed,
            data_bytes: 6,
            articles: 1,
            last_sync: 0,
        }
    );
}

#[test]
fn a_refused_fpdu_leaves_the_session_to_be_aborted() {
    let (client, mut server) = connect(config(), ConnectAccept::default());
    assert_eq!(client.max_entity(), usize::from(config().max_entity));
    let e = server
        .on_fpdu(&pesit::builder::syn(9, 1))
        .err()
        .unwrap_or_else(|| panic!("taken"));
    assert!(server.farewell(&e).is_some());
}

#[test]
fn a_message_segment_out_of_place_is_an_error() {
    let mut m = Machine::new(Role::Server);
    let first = pesit::builder::msg(FpduKind::MsgDm, 1, &FileSpec::default(), false, Some(b"a"));
    let mut incoming = IncomingMessage::begin(&first);
    assert!(!incoming.expects_reply);
    let e = incoming
        .on_segment(&mut m, &pesit::builder::msg_segment(FpduKind::MsgFm, 1, b"b"))
        .err();
    assert_eq!(
        e,
        Some(SessionError::Protocol {
            state: State::Cn01,
            kind: FpduKind::MsgFm
        })
    );
}

#[test]
fn both_ends_resynchronise() {
    let params = DataParams {
        peer_id: 9,
        sync: SyncOption {
            interval_kb: 1,
            window: 8,
        },
        resync: true,
        compression: Compression::Off,
        crc: false,
        max_entity: 4096,
        multi_article: true,
        max_article: 600,
        timeout_ms: 1000,
        role: Role::Requester,
    };
    let mut machine = sending_machine();
    let mut store = MemoryCheckpoints::new();
    let mut tx = DataSender::new(params, Checkpoint::default());
    for i in 1..=4u64 {
        tx.on_article(&mut machine, &[i as u8; 600], i * 600, &mut store)
            .unwrap_or_else(|e| panic!("{}", shown(e)));
    }
    assert_eq!(store.last().map(|c| c.sync), Some(3));
    let resyn = pesit::builder::resyn(1, Diagnostic::transmission_error(), 2);
    match tx
        .on_fpdu(&mut machine, &resyn, &mut store)
        .unwrap_or_else(|e| panic!("{}", shown(e)))
    {
        SendStep::Rewind(ack, at) => {
            assert_eq!(ack.kind, FpduKind::AckResyn);
            assert_eq!(ack.restart_point(), Some(2));
            assert_eq!(
                at,
                Position {
                    file_offset: 1200,
                    data_bytes: 1200,
                    articles: 2
                }
            );
        }
        other => panic!("{other:?}"),
    }
    assert_eq!(tx.progress(Some(10)).data_bytes, 1200);
    assert_eq!(tx.progress(Some(10)).sync, 2);

    // the receiver of a damaged entity asks for the same
    let mut rm = receiving_machine();
    let mut rx = DataReceiver::new(params, Checkpoint::default());
    let mut rstore = MemoryCheckpoints::new();
    rx.on_checkpoint(&mut rm, 2, 1200, &mut rstore)
        .unwrap_or_else(|e| panic!("{}", shown(e)));
    let damaged = SessionError::Decode(DecodeError {
        diag: Diagnostic::transmission_error(),
        detail: "CRC error".into(),
    });
    assert!(rx.recovers_from(&damaged));
    assert!(!rx.recovers_from(&SessionError::Cancelled));
    let q = rx
        .request_resync(&mut rm)
        .unwrap_or_else(|e| panic!("{}", shown(e)));
    assert_eq!(q.restart_point(), Some(2));
    let none = rx.on_resync_answer(
        &mut rm,
        &Fpdu::data(FpduKind::Dtf, 1, 0, vec![1]),
        &rstore,
    );
    assert_eq!(none, Ok(None));
    let unknown = rx.on_resync_answer(&mut rm, &pesit::builder::ack_resyn(1, 7), &rstore);
    assert_eq!(
        unknown,
        Err(SessionError::Negotiation(
            "unknown restart point 7 in ACK(RESYN)".into()
        ))
    );
}

/// Hand entities to a receiver; the articles go to `out`, the acknowledgements back.
fn deliver(
    entities: Vec<Vec<u8>>,
    machine: &mut Machine,
    rx: &mut DataReceiver,
    store: &mut MemoryCheckpoints,
    out: &mut Vec<Vec<u8>>,
) -> Vec<Fpdu> {
    let mut acks = Vec::new();
    for e in entities {
        for f in decode_entity(&e, false).unwrap_or_else(|e| panic!("{}", e.text())) {
            match rx.on_fpdu(machine, &f, store).unwrap_or_else(|e| panic!("{}", shown(e))) {
                ReceiveStep::Articles(list, None) => out.extend(list),
                ReceiveStep::Sync(n) => {
                    let at = out.iter().map(|a| a.len() as u64).sum();
                    acks.extend(
                        rx.on_checkpoint(machine, n, at, store)
                            .unwrap_or_else(|e| panic!("{}", shown(e))),
                    );
                }
                ReceiveStep::Continue | ReceiveStep::Ended(DataEnd::Completed) => {}
                other => panic!("{other:?}"),
            }
        }
    }
    acks
}

#[test]
fn a_resynchronised_file_arrives() {
    for compression in [Compression::Off, Compression::Mixed] {
        let params = DataParams {
            peer_id: 9,
            sync: SyncOption {
                interval_kb: 1,
                window: 8,
            },
            resync: true,
            compression,
            crc: false,
            max_entity: 4096,
            multi_article: true,
            max_article: 600,
            timeout_ms: 1000,
            role: Role::Requester,
        };
        let file: Vec<Vec<u8>> = (0..7u8)
            .map(|i| (0..600u32).map(|j| (j * j / 7) as u8 ^ i).collect())
            .collect();
        let (mut sm, mut rm) = (sending_machine(), receiving_machine());
        let (mut sent, mut got) = (MemoryCheckpoints::new(), MemoryCheckpoints::new());
        let mut tx = DataSender::new(params, Checkpoint::default());
        let mut rx = DataReceiver::new(params, Checkpoint::default());
        let mut out = Vec::new();
        let mut next = 0;
        let mut damaged = false;
        while next < file.len() {
            tx.on_article(&mut sm, &file[next], (next as u64 + 1) * 600, &mut sent)
                .unwrap_or_else(|e| panic!("{}", shown(e)));
            next += 1;
            let ready = tx.take_ready();
            if next == 5 && !damaged {
                // this entity does not arrive as it was sent
                damaged = true;
                let q = rx
                    .request_resync(&mut rm)
                    .unwrap_or_else(|e| panic!("{}", shown(e)));
                let SendStep::Rewind(ack, at) = tx
                    .on_fpdu(&mut sm, &q, &mut sent)
                    .unwrap_or_else(|e| panic!("{}", shown(e)))
                else {
                    panic!("no rewind");
                };
                let back = rx
                    .on_resync_answer(&mut rm, &ack, &got)
                    .unwrap_or_else(|e| panic!("{}", shown(e)))
                    .unwrap_or_else(|| panic!("no position"));
                assert_eq!(back, at);
                assert!(at.articles > 0 && (at.articles as usize) < next);
                out.truncate(at.articles as usize);
                next = at.articles as usize;
                continue;
            }
            for ack in deliver(ready, &mut rm, &mut rx, &mut got, &mut out) {
                let s = tx
                    .on_fpdu(&mut sm, &ack, &mut sent)
                    .unwrap_or_else(|e| panic!("{}", shown(e)));
                assert!(matches!(s, SendStep::Continue));
            }
        }
        let end = tx.on_end(&mut sm).unwrap_or_else(|e| panic!("{}", shown(e)));
        deliver(tx.take_ready(), &mut rm, &mut rx, &mut got, &mut out);
        assert_eq!(out, file);
        assert_eq!(rx.result(DataEnd::Completed), end);
        assert_eq!(end.articles, 7);
    }
}

#[test]
fn a_full_article_grows_in_compression() {
    let params = DataParams {
        peer_id: 9,
        sync: SyncOption::none(),
        resync: false,
        compression: Compression::Mixed,
        crc: false,
        max_entity: 65535,
        multi_article: false,
        max_article: 4096,
        timeout_ms: 1000,
        role: Role::Requester,
    };
    let article: Vec<u8> = (0..4096u32).map(|i| (i * i / 3 + i) as u8 | 1).collect();
    let (mut sm, mut rm) = (sending_machine(), receiving_machine());
    let mut store = MemoryCheckpoints::new();
    let mut tx = DataSender::new(params, Checkpoint::default());
    let mut rx = DataReceiver::new(params, Checkpoint::default());
    tx.on_article(&mut sm, &article, 4096, &mut store)
        .unwrap_or_else(|e| panic!("{}", shown(e)));
    let end = tx.on_end(&mut sm).unwrap_or_else(|e| panic!("{}", shown(e)));
    assert!(end.data_bytes > 4096);
    let mut out = Vec::new();
    deliver(tx.take_ready(), &mut rm, &mut rx, &mut store, &mut out);
    assert_eq!(out, vec![article]);
    assert_eq!(rx.result(DataEnd::Completed), end);
}

#[test]
fn the_first_part_of_a_long_message() {
    let blank = FileSpec::default();
    let bare = pesit::builder::msg(FpduKind::Msg, 1, &blank, false, None).encoded_len();
    for (space, head) in [
        (1, 1),
        (3, 1),
        (4, 1),
        (5, 2),
        (100, 97),
        (256, 253),
        (257, 254),
        (258, 254),
        (259, 255),
        (300, 296),
    ] {
        let fpdus = message_fpdus(1, &blank, &[7; 1000], false, bare + space, false);
        assert_eq!(fpdus[0].kind, FpduKind::MsgDm);
        assert_eq!(fpdus[0].get(Pi::Message).map(<[u8]>::len), Some(head));
    }
    // as long as it fits, it is not cut
    let whole = message_fpdus(1, &blank, &[7; 98], false, bare + 100, false);
    assert_eq!(whole.len(), 1);
}

fn apply_all(m: &mut Machine, events: &[pesit::state::Event]) {
    for e in events {
        m.apply(*e).unwrap_or_else(|e| panic!("{}", e.text()));
    }
}

fn sending_machine() -> Machine {
    let mut m = Machine::new(Role::Requester);
    let l = pesit::state::Event::local;
    let r = |k| pesit::state::Event::received(k, false);
    apply_all(
        &mut m,
        &[
            l(LocalEvent::Connect),
            r(FpduKind::Aconnect),
            l(LocalEvent::Create),
            r(FpduKind::AckCreate),
            l(LocalEvent::Open),
            r(FpduKind::AckOrf),
            l(LocalEvent::Write),
            r(FpduKind::AckWrite),
        ],
    );
    m
}

fn receiving_machine() -> Machine {
    let mut m = Machine::new(Role::Server);
    let l = pesit::state::Event::local;
    let r = |k| pesit::state::Event::received(k, false);
    apply_all(
        &mut m,
        &[
            r(FpduKind::Connect),
            l(LocalEvent::Accept),
            r(FpduKind::Create),
            l(LocalEvent::Accept),
            r(FpduKind::Orf),
            l(LocalEvent::Accept),
            r(FpduKind::Write),
            l(LocalEvent::Accept),
        ],
    );
    m
}

#[test]
fn the_window_holds_the_sender_back() {
    let params = DataParams {
        peer_id: 9,
        sync: SyncOption {
            interval_kb: 1,
            window: 2,
        },
        resync: false,
        compression: Compression::Off,
        crc: false,
        max_entity: 4096,
        multi_article: false,
        max_article: 1000,
        timeout_ms: 1000,
        role: Role::Requester,
    };
    let mut machine = sending_machine();
    let mut store = MemoryCheckpoints::new();
    let mut tx = DataSender::new(params, Checkpoint::default());
    let mut n = 0u64;
    assert_eq!(tx.need(true), SendNeed::Stop);
    while tx.need(false) == SendNeed::Article {
        n += 1;
        tx.on_article(&mut machine, &[7; 1000], n * 1000, &mut store)
            .unwrap_or_else(|e| panic!("{}", shown(e)));
    }
    assert_eq!(n, 3);
    tx.on_fpdu(&mut machine, &pesit::builder::ack_syn(1, 1), &mut store)
        .unwrap_or_else(|e| panic!("{}", shown(e)));
    assert_eq!(tx.need(false), SendNeed::Article);
    let e = tx
        .on_fpdu(
            &mut machine,
            &pesit::builder::resyn(1, Diagnostic::transmission_error(), 1),
            &mut store,
        )
        .err();
    assert_eq!(
        e,
        Some(SessionError::Negotiation(
            "RESYN received but resynchronisation was not negotiated".into()
        ))
    );
}

#[test]
fn counters_have_to_agree() {
    let f = pesit::builder::trans_end(1, Some(10), Some(2));
    assert_eq!(check_counts(&f, 10, 2), Ok(()));
    assert_eq!(
        check_counts(&f, 11, 2),
        Err(SessionError::Counts(
            "peer counted 10 data bytes, 11 transferred".into()
        ))
    );
    assert_eq!(
        check_counts(&f, 10, 3),
        Err(SessionError::Counts(
            "peer counted 2 articles, 3 transferred".into()
        ))
    );
}

#[test]
fn memory_store() {
    let mut s = MemoryCheckpoints::new();
    for i in 1..=3 {
        s.record(Checkpoint {
            sync: i,
            file_offset: u64::from(i) * 100,
            data_bytes: u64::from(i) * 100,
            articles: u64::from(i),
        });
    }
    assert_eq!(s.get(0), Some(Checkpoint::default()));
    assert_eq!(s.get(2).map(|c| c.file_offset), Some(200));
    assert_eq!(s.last().map(|c| c.sync), Some(3));
    assert_eq!(s.last_acknowledged(), None);
    s.acknowledge(2);
    assert_eq!(s.last_acknowledged().map(|c| c.sync), Some(2));
    assert_eq!(s.get(1), None);
    assert_eq!(s.get(3).map(|c| c.sync), Some(3));

    let mut t = MemoryCheckpoints::from_parts(&s.all().into_iter().rev().collect::<Vec<_>>(), 2);
    let numbers = |s: &MemoryCheckpoints| s.all().iter().map(|c| c.sync).collect::<Vec<_>>();
    assert_eq!(numbers(&t), vec![2, 3]);
    t.clear();
    assert_eq!(t.acknowledged(), 0);
    assert!(t.all().is_empty());
    assert_eq!(t.last(), None);
}

#[test]
fn a_link_hands_out_the_fpdus_of_an_entity() {
    let mut link = Link::new();
    let a = pesit::builder::syn(5, 1);
    let b = pesit::builder::syn(5, 2);
    let mut entity = a.encode().unwrap_or_default();
    entity.extend(b.encode().unwrap_or_default());
    let first = link
        .receive(&entity)
        .unwrap_or_else(|e| panic!("{}", shown(e)));
    assert_eq!(first, a);
    assert_eq!(link.next(), Some(b));
    assert_eq!(link.next(), None);
    assert_eq!(
        link.receive(&[]),
        Err(SessionError::Transport(TransportError::Invalid(0)))
    );
}

#[test]
fn entities_are_prefixed_with_their_length() {
    let framed = frame_entity(Framing::LengthPrefixed, &[1, 2, 3]).unwrap_or_default();
    assert_eq!(framed, vec![0, 3, 1, 2, 3]);
    let raw = frame_entity(Framing::Raw, &[1, 2, 3]).unwrap_or_default();
    assert_eq!(raw, vec![1, 2, 3]);
    assert!(frame_entity(Framing::LengthPrefixed, &vec![0; 70_000]).is_err());
}

/// Read an entity off the bytes of a stream.
fn read_entity(
    state: &mut FrameState,
    crc: bool,
    stream: &mut Vec<u8>,
) -> Result<Vec<u8>, TransportError> {
    let mut take = |n: usize| {
        if stream.len() < n {
            return Err(TransportError::Closed);
        }
        let rest = stream.split_off(n);
        Ok(std::mem::replace(stream, rest))
    };
    let head = take(2)?;
    let mut entity = match state.on_header(head[0], head[1], crc, marks()) {
        HeaderStep::WithHead(n) => {
            let mut entity = head;
            entity.extend(take(n)?);
            entity
        }
        HeaderStep::WithoutHead(n) => take(n)?,
        HeaderStep::Refused(e) => return Err(e),
    };
    if state.on_entity(&entity, crc) {
        entity.extend(take(2)?);
    }
    Ok(entity)
}

fn framed(framing: Framing, entity: &[u8]) -> Vec<u8> {
    frame_entity(framing, entity).unwrap_or_default()
}

#[test]
fn length_prefixed_round_trip() {
    let mut state = FrameState::new(Framing::LengthPrefixed, MAX_ENTITY);
    let e1 = vec![0, 6, 0xC0, 0x02, 1, 0];
    let e2 = vec![0, 8, 0xC0, 0x03, 1, 0, 20, 1];
    let mut stream = framed(Framing::LengthPrefixed, &e1);
    stream.extend(framed(Framing::LengthPrefixed, &e2));
    assert_eq!(read_entity(&mut state, false, &mut stream), Ok(e1));
    assert_eq!(read_entity(&mut state, false, &mut stream), Ok(e2));
}

#[test]
fn raw_round_trip_with_crc() {
    let mut state = FrameState::new(Framing::Raw, MAX_ENTITY);
    let mut e1 = vec![0, 6, 0xC0, 0x02, 1, 0];
    pesit::crc::append(&mut e1);
    let mut e2 = vec![0, 8, 0xC0, 0x03, 1, 0, 20, 1];
    pesit::crc::append(&mut e2);
    let mut both = e1.clone();
    both.extend_from_slice(&e2);
    let mut stream = framed(Framing::Raw, &both);
    assert_eq!(read_entity(&mut state, true, &mut stream), Ok(e1));
    assert_eq!(read_entity(&mut state, true, &mut stream), Ok(e2));
}

#[test]
fn preconnect_without_prefix() {
    let mut state = FrameState::new(Framing::LengthPrefixed, MAX_ENTITY);
    let m = preconnect_message("ID", "PW");
    let mut stream = m.clone();
    stream.extend(framed(Framing::LengthPrefixed, &[0, 6, 0xC0, 0x02, 1, 0]));
    assert_eq!(read_entity(&mut state, false, &mut stream), Ok(m));
    assert_eq!(
        read_entity(&mut state, false, &mut stream),
        Ok(vec![0, 6, 0xC0, 0x02, 1, 0])
    );
}

#[test]
fn closed_and_too_large() {
    let mut state = FrameState::new(Framing::LengthPrefixed, MAX_ENTITY);
    assert_eq!(
        read_entity(&mut state, false, &mut Vec::new()),
        Err(TransportError::Closed)
    );
    let mut state = FrameState::new(Framing::LengthPrefixed, 10);
    let mut stream = framed(Framing::LengthPrefixed, &[0u8; 20]);
    assert_eq!(
        read_entity(&mut state, false, &mut stream),
        Err(TransportError::TooLarge(20, 10))
    );
}

#[test]
fn check_bytes_behind_a_raw_connect() {
    let cfg = RequesterConfig {
        crc: true,
        ..config()
    };
    let (_, connect) = Requester::connect(&cfg);
    let entity = connect.encode().unwrap_or_default();
    let mut state = FrameState::new(Framing::Raw, MAX_ENTITY);
    assert!(state.on_entity(&entity, false));
    assert!(!state.on_entity(&entity, false), "only the first FPDU tells");
    let mut prefixed = FrameState::new(Framing::LengthPrefixed, MAX_ENTITY);
    assert!(!prefixed.on_entity(&entity, false));
}

#[test]
fn preconnect_and_raw_framing() {
    let cfg = RequesterConfig {
        preconnect: Some(Preconnect {
            identifier: "CLIENT".into(),
            password: "PWD".into(),
        }),
        crc: true,
        ..config()
    };
    let (machine, connect) = Requester::connect(&cfg);
    // what the requester sends
    let mut stream = framed(Framing::Raw, &preconnect_message("CLIENT", "PWD"));
    stream.extend(framed(
        Framing::Raw,
        &single_entity(&connect, true).unwrap_or_default(),
    ));
    let mut state = FrameState::new(Framing::Raw, MAX_ENTITY);
    let first = read_entity(&mut state, false, &mut stream).unwrap_or_default();
    let preconnect = parse_preconnect(&first);
    assert_eq!(
        preconnect,
        Some(("CLIENT".to_owned(), "PWD".to_owned()))
    );
    let entity = read_entity(&mut state, false, &mut stream).unwrap_or_default();
    assert!(stream.is_empty(), "the check bytes belong to the CONNECT");
    let mut server = responder();
    let asked = server
        .on_connect(&entity, preconnect, "duplex".into())
        .unwrap_or_else(|e| panic!("{}", shown(e)));
    assert!(server.negotiated().crc);
    let reply = server
        .accept_connect(&asked, &ConnectAccept::default())
        .unwrap_or_else(|e| panic!("{}", shown(e)));
    // what the server sends
    let mut stream = framed(Framing::Raw, &PRECONNECT_ACK);
    stream.extend(framed(
        Framing::Raw,
        &single_entity(&reply, true).unwrap_or_default(),
    ));
    let mut state = FrameState::new(Framing::Raw, MAX_ENTITY);
    let answer = read_entity(&mut state, false, &mut stream).unwrap_or_default();
    assert!(preconnect_accepted(&answer, &PRECONNECT_ACK));
    let entity = read_entity(&mut state, true, &mut stream).unwrap_or_default();
    let reply = decode_entity(&entity, true).unwrap_or_else(|e| panic!("{}", e.text()));
    let mut client = Requester::on_connect_reply(machine, cfg, &reply[0])
        .unwrap_or_else(|e| panic!("{}", shown(e)));
    let data: Vec<Vec<u8>> = (0..20usize)
        .map(|i| (0..3000).map(|j| ((i * 7 + j) % 251) as u8).collect())
        .collect();
    let mut sink = VecSink::new();
    let out = write_file(
        &mut client,
        &mut server,
        data.clone(),
        &spec_of("RAW", 3000),
        &mut MemoryCheckpoints::new(),
        &mut MemoryCheckpoints::new(),
        &mut sink,
        None,
        None,
    );
    assert!(out.is_complete());
    assert_eq!(sink.bytes(), data.concat());
}

#[test]
fn preconnection_messages() {
    let m = preconnect_message("CLIENT", "PWD");
    assert_eq!(m.len(), PRECONNECT_LEN);
    assert_eq!(
        m,
        vec![
            0xD7, 0xC5, 0xE2, 0xC9, 0xE3, 0x40, 0x40, 0x40, 0xC3, 0xD3, 0xC9, 0xC5, 0xD5, 0xE3,
            0x40, 0x40, 0xD7, 0xE6, 0xC4, 0x40, 0x40, 0x40, 0x40, 0x40
        ]
    );
    assert!(is_preconnect(&m));
    assert_eq!(
        parse_preconnect(&m),
        Some(("CLIENT".to_owned(), "PWD".to_owned()))
    );
    assert!(!is_preconnect(&m[..23]));
    assert_eq!(parse_preconnect(&[0u8; 24]), None);
    // what does not fit is cut
    assert_eq!(
        parse_preconnect(&preconnect_message("ABCDEFGHIJ", "a-9z")),
        Some(("ABCDEFGH".to_owned(), "a-9z".to_owned()))
    );
    // what has no code is a question mark
    assert_eq!(code_of('\u{20ac}'), code_of('?'));
}

#[test]
fn bytes_are_translated() {
    let all: Vec<u8> = (0..=255).collect();
    assert_eq!(from_ebcdic(&to_ebcdic(&all)), all);
    assert_eq!(to_ebcdic(&from_ebcdic(&all)), all);
    assert_eq!(
        to_ebcdic(b"Az09 -_@[]{}"),
        vec![0xC1, 0xA9, 0xF0, 0xF9, 0x40, 0x60, 0x6D, 0x7C, 0xBA, 0xBB, 0xC0, 0xD0]
    );
    assert_eq!(code_of('\u{e9}'), 0x51);
    for b in 0..=255u8 {
        assert_eq!(code_of(char_of(b)), b);
    }
}

#[test]
fn preconnection_answers() {
    assert!(preconnect_accepted(&PRECONNECT_ACK, &PRECONNECT_ACK));
    assert!(!preconnect_accepted(&PRECONNECT_NAK, &PRECONNECT_ACK));
    assert!(preconnect_accepted(&[1, 2, 3, 4, 5], &[1, 2, 3, 4]));
    assert!(!preconnect_accepted(&[1, 2, 3], &[1, 2, 3, 4]));
    assert!(!preconnect_accepted(&[1, 2, 3, 9], &[1, 2, 3, 4]));
}

#[test]
fn articles_become_file_bytes() {
    let (bytes, at) = append_article(RecordFormat::Tv, Position::default(), b"line");
    assert_eq!(bytes, b"line\n".to_vec());
    assert_eq!(at.file_offset, 5);
    assert_eq!(at.data_bytes, 4);
    assert_eq!(at.articles, 1);
}

#[test]
fn errors_are_rendered() {
    assert_eq!(
        shown(SessionError::Transport(TransportError::Closed)),
        "transport: connection closed by the peer"
    );
    assert_eq!(
        TransportError::TooLarge(7, 5).text(),
        "entity of 7 bytes exceeds the limit of 5 bytes"
    );
    assert!(shown(SessionError::Cancelled).contains("cancelled"));
    assert_eq!(
        SessionError::PreconnectRefused.abort_diag(),
        Diagnostic::caller_not_authorised()
    );
    assert_eq!(
        SessionError::Timeout("reply").abort_diag(),
        Diagnostic::timeout()
    );
    let f = Fpdu::new(FpduKind::AckCreate)
        .with_diag(Diagnostic::file_exists())
        .with_text(Pi::DiagComplement, "there");
    assert!(f.is_negative());
}
