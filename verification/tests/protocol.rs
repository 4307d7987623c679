//! Protocol data units: parameters, framing, articles, compression, the state tables.

use pesit::article::{
    article_to_bytes, articles_of, ArticleCutter, ArticlePacker, Reassembler, ReassemblyError,
    RecordError, RecordFormat,
};
use pesit::builder::{
    abort, ack_create, ack_crf, ack_deselect, ack_idt, ack_msg, ack_orf, ack_read, ack_resyn,
    ack_syn, ack_trans_end, ack_write, aconnect, crf, deselect, dtf_end, idt, msg, msg_segment,
    nack_select, orf, rconnect, read, relconf, release, resyn, syn, trans_end,
    ConnectParams, FileSpec,
};
use pesit::compress::{
    compress, decompress, Compressor, DecompressError, Decompressor, Mode, Reference,
};
use pesit::crc::{append, compute, verify};
use pesit::diag::Diagnostic;
use pesit::fpdu::{decode_num, encode_num, Fpdu, Param};
use pesit::frame::{decode_entity, peek_kind, split_entity, EntityBuilder};
use pesit::kind::FpduKind;
use pesit::link::Link;
use pesit::params::{
    format_datetime, AccessType, ArticleFormat, Compression, EndCode, RequestedAttributes,
    SyncOption, Version,
};
use pesit::pi::{Pgi, Pi};
use pesit::state::{Event, LocalEvent, Machine, Role, State, TransitionError};

// ---- articles ----

#[test]
fn cut_binary() {
    let mut c = ArticleCutter::new(RecordFormat::Bu, 4);
    c.push(b"abcdefghij");
    assert_eq!(c.next_article().unwrap_or_default(), Some(b"abcd".to_vec()));
    assert_eq!(c.next_article().unwrap_or_default(), Some(b"efgh".to_vec()));
    assert_eq!(c.next_article().unwrap_or_default(), None);
    assert_eq!(c.finish().unwrap_or_default(), Some(b"ij".to_vec()));
    let mut f = ArticleCutter::new(RecordFormat::Bf, 4);
    f.push(b"abcdef");
    assert_eq!(f.next_article().unwrap_or_default(), Some(b"abcd".to_vec()));
    assert_eq!(f.finish(), Err(RecordError::UnfilledRecord(2, 4)));
}

#[test]
fn cut_text() {
    let mut c = ArticleCutter::new(RecordFormat::Tv, 10);
    c.push(b"hello\r\nworld\n\nlast");
    assert_eq!(c.next_article().unwrap_or_default(), Some(b"hello".to_vec()));
    assert_eq!(c.next_article().unwrap_or_default(), Some(b"world".to_vec()));
    assert_eq!(c.next_article().unwrap_or_default(), Some(b" ".to_vec()));
    assert_eq!(c.next_article().unwrap_or_default(), None);
    assert_eq!(c.finish().unwrap_or_default(), Some(b"last".to_vec()));
    let mut f = ArticleCutter::new(RecordFormat::Tf, 6);
    f.push(b"ab\ntoolongline\n");
    assert_eq!(f.next_article().unwrap_or_default(), Some(b"ab    ".to_vec()));
    assert_eq!(f.next_article(), Err(RecordError::LineTooLong(11, 6)));
    assert_eq!(article_to_bytes(RecordFormat::Tf, b"ab    "), b"ab\n".to_vec());
    assert_eq!(article_to_bytes(RecordFormat::Tv, b"ab"), b"ab\n".to_vec());
    assert_eq!(article_to_bytes(RecordFormat::Bu, b"ab"), b"ab".to_vec());
}

#[test]
fn pack_multi_article() {
    let mut p = ArticlePacker::new(9, 6 + 20, true);
    assert!(p.push(b"12345").is_empty()); // 7 bytes pending
    assert!(p.push(b"67890").is_empty()); // 14
    let out = p.push(b"abcdefg"); // 9 more would exceed 20 -> flush
    assert_eq!(out.len(), 1);
    assert_eq!(out[0].kind, FpduKind::Dtf);
    assert_eq!(out[0].id_src, 2);
    assert_eq!(
        articles_of(&out[0]).unwrap_or_default(),
        vec![&b"12345"[..], &b"67890"[..]]
    );
    let f = p.flush().map(|f| (f.id_src, f.data));
    assert_eq!(f, Some((0, b"abcdefg".to_vec())));
    assert!(p.flush().is_none());
}

#[test]
fn segmentation() {
    let mut p = ArticlePacker::new(9, 6 + 4, true);
    assert!(p.push(b"ab").is_empty());
    let out = p.push(b"0123456789");
    let kinds: Vec<_> = out.iter().map(|f| f.kind).collect();
    assert_eq!(
        kinds,
        vec![
            FpduKind::Dtf,
            FpduKind::DtfDa,
            FpduKind::DtfMa,
            FpduKind::DtfFa
        ]
    );
    let mut r = Reassembler::new(0);
    let mut got = Vec::new();
    for f in &out {
        got.extend(r.feed(f).unwrap_or_default());
    }
    assert_eq!(got, vec![b"ab".to_vec(), b"0123456789".to_vec()]);
    assert_eq!(
        r.feed(&Fpdu::data(FpduKind::DtfFa, 9, 0, vec![1])),
        Err(ReassemblyError::NoStart(FpduKind::DtfFa))
    );
}

#[test]
fn bad_multi_article() {
    let f = Fpdu::data(FpduKind::Dtf, 1, 2, vec![0, 1, b'a']);
    assert!(articles_of(&f).is_err());
}

#[test]
fn reassembly_faults() {
    let mut r = Reassembler::new(4);
    assert_eq!(
        r.feed(&Fpdu::data(FpduKind::DtfDa, 9, 0, vec![0; 5])),
        Err(ReassemblyError::TooLong(4))
    );
    assert!(r.feed(&Fpdu::data(FpduKind::DtfDa, 9, 0, vec![0; 3])).is_ok());
    assert_eq!(
        r.feed(&Fpdu::data(FpduKind::Dtf, 9, 0, vec![0])),
        Err(ReassemblyError::Interleaved(FpduKind::Dtf))
    );
    assert_eq!(
        r.feed(&Fpdu::data(FpduKind::DtfFa, 9, 0, vec![0; 2])),
        Err(ReassemblyError::TooLong(4))
    );
}

// ---- builders ----

#[test]
fn connect_and_create_validate() {
    let c = ConnectParams {
        requester: "PWSRV01".into(),
        server: "CETOM1".into(),
        password: Some("secret".into()),
        version: Version::E,
        sync: SyncOption {
            interval_kb: 256,
            window: 2,
        },
        access: AccessType::Write,
        resync: true,
        crc: true,
        timeout: None,
        free_message: None,
    }
    .build(7);
    let bytes = c.encode().unwrap_or_default();
    let d = Fpdu::decode(&bytes).unwrap_or_else(|e| panic!("{}", e.text()));
    assert_eq!(d.get_num(Pi::Crc), Some(1));
    assert_eq!(d.get_text(Pi::AccessControl).as_deref(), Some("secret"));
    assert_eq!(d.id_src, 7);

    let spec = FileSpec {
        file_name: "PWSEND".into(),
        transfer_id: 42,
        max_entity_size: 32768,
        article_format: ArticleFormat::Variable,
        article_length: 4096,
        max_reservation: 12,
        creation_date: Some("260828120000".into()),
        ..FileSpec::default()
    };
    let create = spec.create(0x62);
    let d = Fpdu::decode(&create.encode().unwrap_or_default())
        .unwrap_or_else(|e| panic!("{}", e.text()));
    assert_eq!(FileSpec::from_fpdu(&d), spec);
    let sel = spec.select(0x62, RequestedAttributes::all());
    let d =
        Fpdu::decode(&sel.encode().unwrap_or_default()).unwrap_or_else(|e| panic!("{}", e.text()));
    assert_eq!(d.get(Pi::RequestedAttributes), Some(&[7u8][..]));
    let ack = spec.ack_select(1, RequestedAttributes::all());
    let d =
        Fpdu::decode(&ack.encode().unwrap_or_default()).unwrap_or_else(|e| panic!("{}", e.text()));
    assert_eq!(d.get_num(Pi::ArticleLength), Some(4096));
    assert!(d.pgi(Pgi::HistoricalAttributes).is_some());
}

#[test]
fn all_builders_validate() {
    let fpdus = vec![
        aconnect(
            1,
            2,
            Version::E,
            SyncOption {
                interval_kb: 32,
                window: 1,
            },
            true,
            Some("hi"),
        ),
        rconnect(1, Diagnostic::caller_unknown(), Some("unknown")),
        release(2, 1, Diagnostic::ok()),
        relconf(1, 2),
        abort(2, 1, Diagnostic::timeout()),
        ack_create(1, Diagnostic::ok(), Some(5), 4096, None),
        nack_select(1, Diagnostic::file_not_found(), Some("no")),
        deselect(2, Diagnostic::ok()),
        ack_deselect(1, Diagnostic::ok()),
        orf(2, Compression::Mixed),
        ack_orf(1, Diagnostic::ok(), Compression::Horizontal),
        crf(2, Diagnostic::ok()),
        ack_crf(1, Diagnostic::ok()),
        read(2, 3),
        ack_read(1, Diagnostic::ok()),
        pesit::builder::write(2),
        ack_write(1, Diagnostic::ok(), 0),
        dtf_end(2, Diagnostic::ok()),
        syn(2, 12),
        ack_syn(1, 12),
        resyn(2, Diagnostic::transmission_error(), 11),
        ack_resyn(1, 11),
        idt(2, Diagnostic::voluntary_stop(), EndCode::CancelByRequester),
        ack_idt(1),
        trans_end(2, Some(1_000_000), Some(245)),
        ack_trans_end(1, Diagnostic::ok(), Some(1_000_000), Some(245)),
        msg(
            FpduKind::Msg,
            2,
            &FileSpec {
                file_name: "MSG".into(),
                transfer_id: 1,
                ..FileSpec::default()
            },
            true,
            Some(b"hello"),
        ),
        msg_segment(FpduKind::MsgFm, 2, b"tail"),
        ack_msg(1, Diagnostic::ok(), Some(1), Some(b"ok")),
    ];
    for f in fpdus {
        let bytes = f.encode().unwrap_or_else(|e| panic!("{}", e.text()));
        let d = Fpdu::decode(&bytes)
            .unwrap_or_else(|e| panic!("{} for {}", e.text(), f.describe()));
        assert_eq!(d, f);
    }
}

// ---- compression ----

fn check_round_trip(mode: Mode, article: &[u8], reference: &[u8]) -> Vec<u8> {
    let c = compress(mode, article, reference);
    let mut out = Vec::new();
    decompress(&c, reference, 1 << 16, &mut out).unwrap_or_else(|e| panic!("{}", e.text()));
    assert_eq!(out, article, "mode {mode:?}");
    c
}

#[test]
fn literal() {
    let a = vec![7u8; 130];
    let c = check_round_trip(Mode::Literal, &a, &[0; 130]);
    assert_eq!(c.len(), 130 + 3);
    assert_eq!(c[0], 63);
    assert_eq!(c[64], 63);
    assert_eq!(c[128], 4);
}

#[test]
fn horizontal_runs() {
    let a = b"aaaaabcdddddddddefggggggggggggggggggggggggggggggggggggggggggggggggggggggggggggggggggggggggggggggggggggggggggggggggggggggggggggggggggggggggggggg";
    let r = vec![0; a.len()];
    let c = check_round_trip(Mode::Horizontal, a, &r);
    assert!(c.len() < a.len());
    // "aaaaa" -> 0x85 'a'; "bc" -> 2 'b' 'c'; "ddddddddd" -> 0x89 'd'; "ef" -> 2 'e' 'f' ...
    assert_eq!(&c[..8], &[0x85, b'a', 2, b'b', b'c', 0x89, b'd', 2]);
    check_round_trip(Mode::Horizontal, b"x", &[0]);
    check_round_trip(Mode::Horizontal, b"xy", &[0, 0]);
    check_round_trip(Mode::Horizontal, b"xx", &[0, 0]);
    check_round_trip(Mode::Horizontal, b"xxy", &[0, 0, 0]);
    check_round_trip(Mode::Horizontal, b"abcabcaabbcc", &[0; 12]);
    check_round_trip(Mode::Horizontal, &[9u8; 63], &[0; 63]);
    check_round_trip(Mode::Horizontal, &[9u8; 64], &[0; 64]);
}

#[test]
fn vertical_and_mixed() {
    let reference: Vec<u8> = (0..200u32).map(|i| (i % 7) as u8).collect();
    let mut a = reference.clone();
    a[10] = 99;
    a[11] = 99;
    a[150..160].copy_from_slice(&[5; 10]);
    let cv = check_round_trip(Mode::Vertical, &a, &reference);
    let cm = check_round_trip(Mode::Mixed, &a, &reference);
    assert!(cv.len() < a.len());
    assert!(cm.len() <= cv.len());
    assert_eq!(cv[0], 0xC0 | 0x0A);
    check_round_trip(Mode::Vertical, &a, &[0; 200]);
    check_round_trip(Mode::Mixed, &a, &[0; 200]);
    check_round_trip(Mode::Vertical, &reference, &reference);
}

#[test]
fn stateful_round_trip() {
    let mut comp = Compressor::new(Compression::Mixed, 64);
    let mut dec = Decompressor::new(64);
    let articles: Vec<Vec<u8>> = vec![
        b"hello world".to_vec(),
        b"hello there".to_vec(),
        b"hello".to_vec(),
        vec![1; 64],
        vec![1; 60],
    ];
    for (i, a) in articles.iter().enumerate() {
        if i == 3 {
            comp.sync_point();
        }
        let c = comp.compress(a);
        if i == 0 || i == 3 {
            assert_eq!(c[0] & 0xC0, 0, "literal after sync point");
        }
        assert_eq!(dec.decompress(&c).unwrap_or_default(), a.as_slice());
    }
}

#[test]
fn errors() {
    let mut out = Vec::new();
    assert_eq!(
        decompress(&[0x41], &[0; 4], 16, &mut out),
        Err(DecompressError::InvalidHeader(0x41))
    );
    assert_eq!(
        decompress(&[0x83], &[0; 4], 16, &mut out),
        Err(DecompressError::Truncated)
    );
    assert_eq!(
        decompress(&[3, 1, 2], &[0; 4], 16, &mut out),
        Err(DecompressError::Truncated)
    );
    assert_eq!(
        decompress(&[0x84, 1], &[0; 4], 2, &mut out),
        Err(DecompressError::TooLong(2))
    );
}

// ---- check bytes ----

#[test]
fn round_trip() {
    for msg in [
        &b""[..],
        b"\x00\x06\xc0\x02\x05\x00",
        b"\x00\x2f\x40\x20\x00\x01\x03\x08CXCLIENT\x04\x08PESITSRV\x06\x01\x02\x16\x01\x00",
        &[0xffu8; 300][..],
    ] {
        let mut v = msg.to_vec();
        append(&mut v);
        assert!(verify(&v), "{msg:?}");
        v[0] ^= 1;
        assert!(!verify(&v));
    }
}

#[test]
fn matches_connect_express_algorithm() {
    // Reference vector for interoperability cross-checking.
    fn cx(msg: &[u8]) -> [u8; 2] {
        let mut buf = msg.to_vec();
        buf.extend_from_slice(&[0, 0]);
        let (mut s1, mut s2) = (0u16, 0u16);
        for &b in &buf {
            s1 += u16::from(b);
            if s1 > 0xFE {
                s1 -= 0xFF;
            }
            s2 += s1;
            if s2 > 0xFE {
                s2 -= 0xFF;
            }
        }
        s1 %= 255;
        s2 %= 255;
        let c0 = if s1 >= s2 {
            (s1 - s2) as u8
        } else {
            (s1.wrapping_sub(s2) as u8).wrapping_sub(1)
        };
        let s1b = (2 * s1) % 255;
        let c1 = if s2 >= s1b {
            (s2 - s1b) as u8
        } else {
            (s2.wrapping_sub(s1b) as u8).wrapping_sub(1)
        };
        [c0, c1]
    }
    for msg in [
        &b"hello world"[..],
        b"\x00\x0e\x00\x0e\x40\x21\x62\xe2\x06\x01\x02\x07\x03\x00\x20\x02",
        &[0xfe; 17][..],
    ] {
        assert_eq!(compute(msg), cx(msg));
    }
}

#[test]
fn one_changed_byte_is_detected() {
    let mut v = b"a message".to_vec();
    append(&mut v);
    for i in 0..v.len() {
        let mut w = v.clone();
        w[i] = w[i].wrapping_add(3);
        assert!(!verify(&w));
    }
    // 0 and 255 are alike to the check bytes.
    let mut z = vec![0u8; 4];
    append(&mut z);
    z[2] = 255;
    assert!(verify(&z));
}

// ---- diagnostics ----

#[test]
fn bytes_round_trip() {
    let d = Diagnostic::file_not_found();
    assert_eq!(d.to_bytes(), [2, 0, 205]);
    assert_eq!(Diagnostic::from_bytes(&[2, 0, 205]), Some(d));
    assert_eq!(Diagnostic::from_bytes(&[0, 0, 0]), Some(Diagnostic::ok()));
    assert!(Diagnostic::ok().is_ok());
    assert_eq!(
        Diagnostic::new(3, 318).description(),
        Diagnostic::invalid_parameter().description()
    );
    assert_eq!(Diagnostic::timeout().text(), "D3-317 Timer expired");
}

// ---- FPDUs ----

#[test]
fn numbers() {
    assert_eq!(encode_num(0), vec![0]);
    assert_eq!(encode_num(255), vec![255]);
    assert_eq!(encode_num(256), vec![1, 0]);
    assert_eq!(encode_num(0x0102_0304), vec![1, 2, 3, 4]);
    assert_eq!(decode_num(&[1, 2, 3, 4]), 0x0102_0304);
    assert_eq!(decode_num(&[]), 0);
}

#[test]
fn connect_round_trip() {
    let mut f = Fpdu::new(FpduKind::Connect).with_ids(0, 1);
    f.set_text(Pi::Requester, "CXCLIENT")
        .set_text(Pi::Server, "PESITSRV")
        .set_num(Pi::Version, 2)
        .set(Pi::SyncOption, vec![0, 32, 2])
        .set_num(Pi::AccessType, 0);
    let bytes = f.encode().unwrap_or_default();
    assert_eq!(bytes[..6], [0, bytes.len() as u8, 0x40, 0x20, 0, 1]);
    let g = Fpdu::decode(&bytes).unwrap_or_else(|e| panic!("{}", e.text()));
    assert_eq!(f, g);
    assert_eq!(g.get_text(Pi::Requester).as_deref(), Some("CXCLIENT"));
    assert_eq!(g.get_num(Pi::Version), Some(2));
    // canonical order is enforced by set()
    assert_eq!(
        g.params.iter().map(Param::code).collect::<Vec<_>>(),
        vec![3, 4, 6, 7, 22]
    );
}

#[test]
fn create_with_groups() {
    let f = Fpdu::new(FpduKind::Create)
        .with_ids(0x62, 0)
        .with_pgi(
            Pgi::FileId,
            vec![(Pi::FileName, b"PWSEND".to_vec()), (Pi::FileType, vec![0])],
        )
        .with_num(Pi::TransferId, 0x1234)
        .with_num(Pi::Priority, 0)
        .with_num(Pi::MaxEntitySize, 32768)
        .with_pgi(
            Pgi::LogicalAttributes,
            vec![
                (Pi::ArticleFormat, vec![0x80]),
                (Pi::ArticleLength, vec![0x10, 0]),
            ],
        )
        .with_pgi(Pgi::PhysicalAttributes, vec![(Pi::MaxReservation, vec![5])])
        .with_pgi(
            Pgi::HistoricalAttributes,
            vec![(Pi::CreationDate, b"260828120000".to_vec())],
        );
    let bytes = f.encode().unwrap_or_default();
    let g = Fpdu::decode(&bytes).unwrap_or_else(|e| panic!("{}", e.text()));
    assert_eq!(f, g);
    assert_eq!(g.get_text(Pi::FileName).as_deref(), Some("PWSEND"));
    assert_eq!(g.pgi(Pgi::FileId).map(|i| i[0].0), Some(Pi::FileType));
    assert_eq!(g.get_num(Pi::ArticleLength), Some(4096));
    assert_eq!(g.get_num(Pi::MaxReservation), Some(5));
}

#[test]
fn strict_validation() {
    // wrong order: PI 4 before PI 3
    let bytes = [
        0, 16, 0x40, 0x20, 0, 1, 4, 1, b'S', 3, 1, b'C', 6, 1, 2, 22,
    ];
    let mut v = bytes.to_vec();
    v.push(1);
    v.push(0);
    v[1] = v.len() as u8;
    let err = Fpdu::decode(&v).err().map(|e| e.diag);
    assert_eq!(err, Some(Diagnostic::invalid_parameter()));
    assert!(Fpdu::decode_lenient(&v).is_ok());
    // missing mandatory PI 22
    let f = Fpdu::new(FpduKind::Connect)
        .with_text(Pi::Requester, "A")
        .with_text(Pi::Server, "B")
        .with_num(Pi::Version, 2);
    let v = f.encode().unwrap_or_default();
    assert_eq!(
        Fpdu::decode(&v).err().map(|e| e.diag),
        Some(Diagnostic::invalid_parameter())
    );
    // zero length
    let v = [0u8, 8, 0xC0, 0x02, 1, 0, 2, 0];
    assert!(Fpdu::decode(&v).is_err());
    // length mismatch
    let v = [0u8, 9, 0xC0, 0x02, 1, 0];
    assert_eq!(
        Fpdu::decode(&v).err().map(|e| e.diag),
        Some(Diagnostic::remote_protocol_error())
    );
}

#[test]
fn extended_length() {
    let msg = vec![b'x'; 300];
    let f = Fpdu::new(FpduKind::MsgMm)
        .with_ids(5, 0)
        .with(Pi::Message, msg.clone());
    let v = f.encode().unwrap_or_default();
    assert_eq!(v[6], 91);
    assert_eq!(v[7], 0xFF);
    assert_eq!(u16::from_be_bytes([v[8], v[9]]), 300);
    let g = Fpdu::decode(&v).unwrap_or_else(|e| panic!("{}", e.text()));
    assert_eq!(g.get(Pi::Message), Some(msg.as_slice()));
}

#[test]
fn data_fpdu() {
    let f = Fpdu::data(FpduKind::Dtf, 0x62, 0, vec![1, 2, 3]);
    let v = f.encode().unwrap_or_default();
    assert_eq!(v, vec![0, 9, 0, 0, 0x62, 0, 1, 2, 3]);
    assert_eq!(Fpdu::decode(&v).unwrap_or_else(|e| panic!("{}", e.text())), f);
}

#[test]
fn kinds_round_trip() {
    for k in &FpduKind::ALL {
        assert_eq!(FpduKind::from_codes(k.phase(), k.type_code()), Some(*k));
        // templates are in ascending order
        let t = k.template();
        assert!(t.windows(2).all(|w| w[0].code < w[1].code), "{}", k.name());
    }
    assert_eq!(FpduKind::Create.ack(), Some(FpduKind::AckCreate));
    assert!(FpduKind::AckSyn.is_ack());
}

#[test]
fn descriptions() {
    let f = Fpdu::new(FpduKind::Create)
        .with_ids(0x62, 0)
        .with_pgi(
            Pgi::FileId,
            vec![(Pi::FileName, b"A\"B".to_vec()), (Pi::FileType, vec![0])],
        )
        .with_num(Pi::TransferId, 0x1234);
    let text = f.describe();
    assert!(text.contains("PI12=\"A\\\"B\""), "{text}");
    assert!(text.contains("PI13=4660"), "{text}");
}

// ---- entities ----

#[test]
fn concat_and_split() {
    let mut b = EntityBuilder::new(64, false);
    let dtf = Fpdu::data(FpduKind::Dtf, 5, 0, vec![1, 2, 3, 4]);
    let syn = Fpdu::new(FpduKind::Syn)
        .with_ids(5, 0)
        .with_num(Pi::SyncNumber, 7);
    assert!(b.fits(dtf.encoded_len()));
    b.push(&dtf).unwrap_or_default();
    b.push(&syn).unwrap_or_default();
    assert_eq!(b.count(), 2);
    let entity = b.take();
    let parts = split_entity(&entity, false).unwrap_or_default();
    assert_eq!(parts.len(), 2);
    let fpdus = decode_entity(&entity, false).unwrap_or_default();
    assert_eq!(fpdus[0], dtf);
    assert_eq!(fpdus[1], syn);
    assert!(b.is_empty());
}

#[test]
fn crc_entities() {
    let mut b = EntityBuilder::new(64, true);
    let syn = Fpdu::new(FpduKind::Syn)
        .with_ids(5, 0)
        .with_num(Pi::SyncNumber, 7);
    b.push(&syn).unwrap_or_default();
    assert!(!b.fits(6)); // no concatenation with CRC
    let entity = b.take();
    assert_eq!(entity.len(), syn.encoded_len() + 2);
    let fpdus = decode_entity(&entity, true).unwrap_or_default();
    assert_eq!(fpdus, vec![syn]);
    let mut bad = entity.clone();
    bad[7] ^= 0xFF;
    assert_eq!(
        split_entity(&bad, true).err().map(|e| e.diag),
        Some(Diagnostic::transmission_error())
    );
    assert!(split_entity(&entity, false).is_err());
}

#[test]
fn remaining_space() {
    let mut b = EntityBuilder::new(20, false);
    assert_eq!(b.remaining(), 20);
    b.push_encoded(&[0, 6, 0, 0, 1, 0]);
    assert_eq!(b.remaining(), 14);
    assert!(!b.fits(15));
}

// ---- parameters ----

#[test]
fn sync_negotiation() {
    let p = SyncOption {
        interval_kb: 256,
        window: 16,
    };
    let l = SyncOption {
        interval_kb: 32,
        window: 2,
    };
    assert_eq!(
        SyncOption::negotiate(p, l),
        SyncOption {
            interval_kb: 32,
            window: 2
        }
    );
    assert_eq!(
        SyncOption::negotiate(p, SyncOption::none()),
        SyncOption::none()
    );
    let u = SyncOption {
        interval_kb: SyncOption::UNDEFINED_INTERVAL,
        window: 1,
    };
    assert_eq!(SyncOption::negotiate(u, l).interval_kb, 32);
    assert_eq!(
        SyncOption::from_bytes(&[1, 0, 4]),
        Some(SyncOption {
            interval_kb: 256,
            window: 4
        })
    );
    assert_eq!(p.to_bytes(), vec![1, 0, 16]);
    assert_eq!(p.interval_bytes(), Some(262_144));
}

#[test]
fn compression_negotiation() {
    assert_eq!(
        Compression::negotiate(Compression::Mixed, Compression::Horizontal),
        Compression::Horizontal
    );
    assert_eq!(
        Compression::negotiate(Compression::Vertical, Compression::Horizontal),
        Compression::Off
    );
    assert_eq!(
        Compression::negotiate(Compression::Horizontal, Compression::Mixed),
        Compression::Horizontal
    );
    assert_eq!(Compression::from_bytes(&[1, 3]), Some(Compression::Mixed));
    assert_eq!(Compression::from_bytes(&[0, 1]), Some(Compression::Off));
}

#[test]
fn misc_codes() {
    assert_eq!(AccessType::from_code(2), Some(AccessType::Mixed));
    assert_eq!(EndCode::from_code(16), EndCode::CancelByRequester);
    assert_eq!(RequestedAttributes::all().code(), 7);
    assert_eq!(ArticleFormat::from_bytes(&[0x80]), ArticleFormat::Variable);
    assert_eq!(format_datetime(2026, 8, 28, 21, 5, 9), "260828210509");
}

#[test]
fn codes_round_trip() {
    for pi in &Pi::ALL {
        assert_eq!(Pi::from_code(pi.code()), Some(*pi));
    }
    for pgi in &Pgi::ALL {
        assert_eq!(Pgi::from_code(pgi.code()), Some(*pgi));
    }
    assert!(Pi::ALL.windows(2).all(|w| w[0].code() < w[1].code()));
}

#[test]
fn groups() {
    assert_eq!(Pgi::of(Pi::FileName), Some(Pgi::FileId));
    assert_eq!(Pgi::of(Pi::ArticleLength), Some(Pgi::LogicalAttributes));
    assert_eq!(Pgi::of(Pi::Diag), None);
    assert!(Pgi::FileId.contains(Pi::Requester));
}

// ---- state tables ----

fn run(role: Role, events: &[Event]) -> Result<State, TransitionError> {
    let mut m = Machine::new(role);
    for e in events {
        m.apply(*e)?;
    }
    Ok(m.state())
}

#[test]
fn requester_write_transfer() {
    let r = |k| Event::received(k, false);
    let l = Event::local;
    let s = run(
        Role::Requester,
        &[
            l(LocalEvent::Connect),
            r(FpduKind::Aconnect),
            l(LocalEvent::Create),
            r(FpduKind::AckCreate),
            l(LocalEvent::Open),
            r(FpduKind::AckOrf),
            l(LocalEvent::Write),
            r(FpduKind::AckWrite),
            l(LocalEvent::SendData),
            l(LocalEvent::Sync),
            l(LocalEvent::SendData),
            r(FpduKind::AckSyn),
            l(LocalEvent::DataEnd),
            r(FpduKind::AckSyn),
            l(LocalEvent::TransferEnd),
            r(FpduKind::AckTransEnd),
            l(LocalEvent::Close),
            r(FpduKind::AckCrf),
            l(LocalEvent::Deselect),
            r(FpduKind::AckDeselect),
            l(LocalEvent::Release),
            r(FpduKind::Relconf),
        ],
    );
    assert_eq!(s, Ok(State::Cn01));
}

#[test]
fn server_read_transfer_with_resync_and_idt() {
    let r = |k| Event::received(k, false);
    let l = Event::local;
    let s = run(
        Role::Server,
        &[
            r(FpduKind::Connect),
            l(LocalEvent::Accept),
            r(FpduKind::Select),
            l(LocalEvent::Accept),
            r(FpduKind::Orf),
            l(LocalEvent::Accept),
            r(FpduKind::Read),
            l(LocalEvent::Accept),
            l(LocalEvent::SendData),
            l(LocalEvent::Sync),
            r(FpduKind::Resyn),
            l(LocalEvent::Accept),
            l(LocalEvent::SendData),
            r(FpduKind::Idt),
            l(LocalEvent::Accept),
            r(FpduKind::Crf),
            l(LocalEvent::Accept),
            r(FpduKind::Deselect),
            l(LocalEvent::Accept),
            r(FpduKind::Release),
            l(LocalEvent::Accept),
        ],
    );
    assert_eq!(s, Ok(State::Cn01));
}

#[test]
fn negative_acks_and_errors() {
    let mut m = Machine::new(Role::Requester);
    m.apply(Event::local(LocalEvent::Connect)).unwrap_or_default();
    m.apply(Event::received(FpduKind::Aconnect, false))
        .unwrap_or_default();
    m.apply(Event::local(LocalEvent::Create)).unwrap_or_default();
    m.apply(Event::received(FpduKind::AckCreate, true))
        .unwrap_or_default();
    assert_eq!(m.state(), State::Cn03);
    assert!(m.apply(Event::received(FpduKind::Dtf, false)).is_err());
    assert_eq!(m.state(), State::Cn03);
    m.apply(Event::received(FpduKind::Abort, false))
        .unwrap_or_default();
    assert_eq!(m.state(), State::Cn01);
}

#[test]
fn late_ack_syn_is_ignored() {
    let mut m = Machine::new(Role::Requester);
    for e in [
        Event::local(LocalEvent::Connect),
        Event::received(FpduKind::Aconnect, false),
        Event::local(LocalEvent::Create),
        Event::received(FpduKind::AckCreate, false),
        Event::local(LocalEvent::Open),
        Event::received(FpduKind::AckOrf, false),
        Event::local(LocalEvent::Write),
        Event::received(FpduKind::AckWrite, false),
        Event::local(LocalEvent::DataEnd),
        Event::local(LocalEvent::TransferEnd),
    ] {
        m.apply(e).unwrap_or_default();
    }
    assert_eq!(m.state(), State::Tde08A);
    assert_eq!(
        m.apply(Event::received(FpduKind::AckSyn, false)),
        Ok(true)
    );
    assert_eq!(m.state(), State::Tde08A);
}

#[test]
fn a_refused_event_names_its_state() {
    let mut m = Machine::new(Role::Requester);
    let e = m
        .apply(Event::local(LocalEvent::Create))
        .err()
        .map(|e| e.text());
    assert_eq!(
        e.as_deref(),
        Some("event Local(Create) not allowed in state Cn01")
    );
}

// ---- small questions ----

#[test]
fn states_tell_what_goes_on() {
    assert!(!State::Cn01.is_connected() && State::Cn03.is_connected());
    assert!(State::Tde02A.is_sending() && !State::Tde02A.is_receiving());
    assert!(State::Tdl02A.is_receiving() && !State::Tdl02A.is_sending());
    assert!(State::Tde01A.in_transfer() && !State::Cn03.in_transfer());
    let m = Machine::new(Role::Requester);
    assert!(m.accepts(Event::local(LocalEvent::Connect)));
    assert!(!m.accepts(Event::local(LocalEvent::SendData)));
}

#[test]
fn fpdus_tell_what_they_are() {
    assert!(FpduKind::Dtf.concatenable() && FpduKind::Syn.concatenable());
    assert!(!FpduKind::Connect.concatenable());
    assert_eq!(peek_kind(&[0, 6, 0x40, 0x20, 1, 0]), Some(FpduKind::Connect));
    assert_eq!(peek_kind(&[0, 6, 0x40]), None);
    let mut f = Fpdu::new(FpduKind::Abort);
    f.set_diag(Diagnostic::io_error());
    assert_eq!(f.diag(), Some(Diagnostic::io_error()));
    let mut g = Fpdu::new(FpduKind::Create);
    g.set_pgi(
        Pgi::FileId,
        vec![(Pi::FileName, b"A".to_vec()), (Pi::FileType, vec![0])],
    );
    assert_eq!(g.get(Pi::FileType), Some([0u8].as_slice()));
    assert_eq!(g.get_text(Pi::FileName).as_deref(), Some("A"));
}

#[test]
fn the_top_level_comes_before_the_groups() {
    let f = Fpdu::new(FpduKind::Create)
        .with_pgi(Pgi::FileId, vec![(Pi::FileName, vec![b'G'])])
        .with(Pi::FileName, vec![b'T']);
    assert_eq!(f.get(Pi::FileName), Some([b'T'].as_slice()));
    let g = Fpdu::new(FpduKind::Create)
        .with_pgi(Pgi::FileId, vec![(Pi::FileName, vec![b'G'])]);
    assert_eq!(g.get(Pi::FileName), Some([b'G'].as_slice()));
}

#[test]
fn descriptions_are_read_back() {
    let spec = FileSpec {
        requester: Some(String::new()),
        client_id: Some("x".repeat(40)),
        transfer_id: 0xFFFF_FFFF,
        ..FileSpec::default()
    };
    assert_eq!(FileSpec::from_fpdu(&spec.create(3)), spec);
}

#[test]
fn articles_without_a_limit() {
    let mut d = Decompressor::new(0);
    assert_eq!(
        d.decompress(&[5, b'h', b'e', b'l', b'l', b'o']),
        Ok(b"hello".to_vec())
    );
    let mut c = Compressor::new(Compression::Mixed, 0);
    let mut d = Decompressor::new(0);
    for article in [
        b"ab".to_vec(),
        vec![0u8; 300],
        b"ab".to_vec(),
        [b"ab".to_vec(), vec![0u8; 500]].concat(),
    ] {
        let wire = c.compress(&article);
        assert_eq!(d.decompress(&wire), Ok(article));
    }
    // a fault leaves the reference as it was
    assert!(d.decompress(&[0xC5, 0x41]).is_err());
    let wire = c.compress(b"abc");
    assert_eq!(d.decompress(&wire), Ok(b"abc".to_vec()));
}

#[test]
fn diagnostics_that_end_a_transfer_for_good() {
    assert!(Diagnostic::new(2, 214).forbids_restart());
    assert!(!Diagnostic::new(3, 214).forbids_restart());
}

#[test]
fn pending_articles() {
    let mut p = ArticlePacker::new(1, 512, true);
    assert!(!p.has_pending());
    assert!(p.push(b"abc").is_empty());
    assert!(p.has_pending());
    assert!(p.flush().is_some());
    assert!(!p.has_pending());
}

#[test]
fn links_take_fpdus_back() {
    let mut link = Link::new();
    link.set_max_entity(3);
    link.unread(syn(1, 7));
    link.unread(syn(1, 8));
    assert_eq!(link.next(), Some(syn(1, 8)));
    assert_eq!(link.next(), Some(syn(1, 7)));
    assert_eq!(link.next(), None);
    let mut r = Reference::new(4);
    assert_eq!(r.capacity(), 4);
    r.update(b"abcdef");
    assert_eq!(r.capacity(), 6);
}
