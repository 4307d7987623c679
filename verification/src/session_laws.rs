//! What both ends of a session agree on once it is established.

use crate::builder::{diag_fpdu, opt_text_bytes, spec_aconnect, ConnectParams};
use crate::builder_laws::{
    add_single, clean_opt, finish, flag_bytes, lemma_admits, lemma_clean_opt, lemma_num_sizes,
    read_nothing, read_number, read_text, start, val, present,
};
use crate::checkpoint::{Checkpoint, CheckpointsV};
use crate::diag::Diagnostic;
use crate::fpdu::{num_bytes, text_bytes, FpduV};
use crate::fpdu_laws::well_formed;
use crate::kind::FpduKind;
use crate::params::{Compression, SyncOption, Version};
use crate::pi::Pi;
use crate::requester::{FileTransferV, Negotiated, RequesterConfig, REQUESTER_ID};
use crate::responder::{ConnectAccept, ConnectRequestV, ResponderV};
use crate::text::opt_text;
use vstd::prelude::*;

verus! {

/// Whether session parameters have a wire form in full: clean texts within the limits of their
/// parameters.
pub open spec fn connectable(cfg: RequesterConfig) -> bool {
    &&& clean_opt(Some(cfg.requester_id@), 24)
    &&& clean_opt(Some(cfg.server_id@), 24)
    &&& clean_opt(opt_text(cfg.password), 16)
    &&& clean_opt(opt_text(cfg.free_message), 254)
    &&& cfg.sync.interval_kb == 0 ==> cfg.sync == SyncOption::none()
}

/// Wire form of a synchronisation option, where there is one.
pub open spec fn sync_bytes(s: SyncOption) -> Option<Seq<u8>> {
    if s.enabled() {
        Some(s.spec_bytes())
    } else {
        None
    }
}

proof fn read_sync(f: FpduV, s: SyncOption)
    requires
        val(f, Pi::SyncOption) == sync_bytes(s),
    ensures
        s.enabled() ==> f.sync_option() == Some(s),
        !s.enabled() ==> f.sync_option() is None,
{
    reveal(val);
    crate::params::law_sync_option_round_trip(s);
}

proof fn read_flag(f: FpduV, pi: Pi, b: bool)
    requires
        val(f, pi) == flag_bytes(b),
    ensures
        (f.number(pi) == Some(1u64)) == b,
{
    if b {
        read_number(f, pi, 1);
    } else {
        read_nothing(f, pi);
    }
}

/// The server reads from a CONNECT what the requester put into it, and the CONNECT passes the
/// strict reading of the server.
pub proof fn law_connect_is_read_back(cfg: RequesterConfig)
    requires
        connectable(cfg),
    ensures
        well_formed(cfg.spec_connect(), true),
        ConnectRequestV::of(cfg.spec_connect()) == (ConnectRequestV {
            requester: cfg.requester_id@,
            server: cfg.server_id@,
            password: opt_text(cfg.password),
            version: cfg.version,
            sync: cfg.sync,
            access: cfg.access,
            resync: cfg.resync,
            crc: cfg.crc,
            free_message: opt_text(cfg.free_message),
        }),
{
    let k = FpduKind::Connect;
    lemma_admits(k, 0, 1);
    lemma_admits(k, 1, 3);
    lemma_admits(k, 2, 4);
    lemma_admits(k, 3, 5);
    lemma_admits(k, 4, 6);
    lemma_admits(k, 5, 7);
    lemma_admits(k, 6, 22);
    lemma_admits(k, 7, 23);
    lemma_admits(k, 9, 99);
    lemma_clean_opt(Some(cfg.requester_id@), 24);
    lemma_clean_opt(Some(cfg.server_id@), 24);
    lemma_clean_opt(opt_text(cfg.password), 16);
    lemma_clean_opt(opt_text(cfg.free_message), 254);
    lemma_num_sizes(1);
    lemma_num_sizes(cfg.version.code() as nat);
    lemma_num_sizes(cfg.access.code() as nat);
    let f0 = start(k, 0, REQUESTER_ID);
    let f1 = add_single(f0, k, 0, Pi::Crc, flag_bytes(cfg.crc));
    let f2 = add_single(f1, k, 2, Pi::Requester, Some(text_bytes(cfg.requester_id@)));
    let f3 = add_single(f2, k, 4, Pi::Server, Some(text_bytes(cfg.server_id@)));
    let f4 = add_single(f3, k, 5, Pi::AccessControl, opt_text_bytes(opt_text(cfg.password)));
    let f5 = add_single(f4, k, 6, Pi::Version, Some(num_bytes(cfg.version.code() as nat)));
    let f6 = add_single(f5, k, 7, Pi::SyncOption, sync_bytes(cfg.sync));
    let f7 = add_single(f6, k, 8, Pi::AccessType, Some(num_bytes(cfg.access.code() as nat)));
    let f8 = add_single(f7, k, 23, Pi::Resync, flag_bytes(cfg.resync));
    let f9 = add_single(f8, k, 24, Pi::FreeMessage, opt_text_bytes(opt_text(cfg.free_message)));
    assert(f9 == cfg.spec_connect());
    assert(present(f9, 3) && present(f9, 4) && present(f9, 6) && present(f9, 22));
    finish(f9, k, 100);
    read_flag(f9, Pi::Crc, cfg.crc);
    read_flag(f9, Pi::Resync, cfg.resync);
    read_text(f9, Pi::Requester, Some(cfg.requester_id@));
    read_text(f9, Pi::Server, Some(cfg.server_id@));
    read_text(f9, Pi::AccessControl, opt_text(cfg.password));
    read_text(f9, Pi::FreeMessage, opt_text(cfg.free_message));
    read_number(f9, Pi::Version, cfg.version.code());
    read_number(f9, Pi::AccessType, cfg.access.code());
    read_sync(f9, cfg.sync);
}

/// Whether connection parameters have a wire form in full.
pub open spec fn buildable(c: ConnectParams) -> bool {
    &&& clean_opt(Some(c.requester@), 24)
    &&& clean_opt(Some(c.server@), 24)
    &&& clean_opt(opt_text(c.password), 16)
    &&& clean_opt(opt_text(c.free_message), 254)
    &&& c.sync.interval_kb == 0 ==> c.sync == SyncOption::none()
}

/// The server reads from a CONNECT the parameters that it was built from, its timer included.
pub proof fn law_connect_parameters_are_read_back(c: ConnectParams, id_src: u8)
    requires
        buildable(c),
    ensures
        well_formed(c.spec_build(id_src), true),
        c.spec_build(id_src).kind == FpduKind::Connect,
        c.spec_build(id_src).id_src == id_src,
        c.timeout matches Some(t) ==> c.spec_build(id_src).number(Pi::Timeout) == Some(t as u64),
        c.timeout is None ==> c.spec_build(id_src).number(Pi::Timeout) is None,
        ConnectRequestV::of(c.spec_build(id_src)) == (ConnectRequestV {
            requester: c.requester@,
            server: c.server@,
            password: opt_text(c.password),
            version: c.version,
            sync: c.sync,
            access: c.access,
            resync: c.resync,
            crc: c.crc,
            free_message: opt_text(c.free_message),
        }),
{
    let k = FpduKind::Connect;
    lemma_admits(k, 0, 1);
    lemma_admits(k, 1, 3);
    lemma_admits(k, 2, 4);
    lemma_admits(k, 3, 5);
    lemma_admits(k, 4, 6);
    lemma_admits(k, 5, 7);
    lemma_admits(k, 6, 22);
    lemma_admits(k, 7, 23);
    lemma_admits(k, 8, 26);
    lemma_admits(k, 9, 99);
    lemma_clean_opt(Some(c.requester@), 24);
    lemma_clean_opt(Some(c.server@), 24);
    lemma_clean_opt(opt_text(c.password), 16);
    lemma_clean_opt(opt_text(c.free_message), 254);
    lemma_num_sizes(1);
    lemma_num_sizes(c.version.code() as nat);
    lemma_num_sizes(c.access.code() as nat);
    let timer = match c.timeout {
        Some(t) => Some(num_bytes(t as nat)),
        None => None,
    };
    if let Some(t) = c.timeout {
        lemma_num_sizes(t as nat);
    }
    let f0 = start(k, 0, id_src);
    let f1 = add_single(f0, k, 0, Pi::Crc, flag_bytes(c.crc));
    let f2 = add_single(f1, k, 2, Pi::Requester, Some(text_bytes(c.requester@)));
    let f3 = add_single(f2, k, 4, Pi::Server, Some(text_bytes(c.server@)));
    let f4 = add_single(f3, k, 5, Pi::AccessControl, opt_text_bytes(opt_text(c.password)));
    let f5 = add_single(f4, k, 6, Pi::Version, Some(num_bytes(c.version.code() as nat)));
    let f6 = add_single(f5, k, 7, Pi::SyncOption, sync_bytes(c.sync));
    let f7 = add_single(f6, k, 8, Pi::AccessType, Some(num_bytes(c.access.code() as nat)));
    let f8 = add_single(f7, k, 23, Pi::Resync, flag_bytes(c.resync));
    let f9 = add_single(f8, k, 24, Pi::Timeout, timer);
    let f = add_single(f9, k, 27, Pi::FreeMessage, opt_text_bytes(opt_text(c.free_message)));
    assert(f == c.spec_build(id_src));
    assert(present(f, 3) && present(f, 4) && present(f, 6) && present(f, 22));
    finish(f, k, 100);
    read_flag(f, Pi::Crc, c.crc);
    read_flag(f, Pi::Resync, c.resync);
    read_text(f, Pi::Requester, Some(c.requester@));
    read_text(f, Pi::Server, Some(c.server@));
    read_text(f, Pi::AccessControl, opt_text(c.password));
    read_text(f, Pi::FreeMessage, opt_text(c.free_message));
    read_number(f, Pi::Version, c.version.code());
    read_number(f, Pi::AccessType, c.access.code());
    read_sync(f, c.sync);
    match c.timeout {
        Some(t) => {
            read_number(f, Pi::Timeout, t as u64);
        },
        None => {
            read_nothing(f, Pi::Timeout);
        },
    }
}

/// The values of an ACONNECT.
proof fn lemma_aconnect(
    id_dst: u8,
    id_src: u8,
    n: Negotiated,
    free_message: Option<Seq<char>>,
) -> (f: FpduV)
    requires
        clean_opt(free_message, 254),
    ensures
        f == spec_aconnect(id_dst, id_src, n.version, n.sync, n.resync, free_message),
        well_formed(f, true),
        f.version() == Some(n.version),
        n.sync.enabled() ==> f.sync_option() == Some(n.sync),
        !n.sync.enabled() ==> f.sync_option() is None,
        (f.number(Pi::Resync) == Some(1u64)) == n.resync,
{
    let k = FpduKind::Aconnect;
    lemma_admits(k, 1, 6);
    lemma_admits(k, 2, 7);
    lemma_admits(k, 3, 23);
    lemma_admits(k, 4, 99);
    lemma_clean_opt(free_message, 254);
    lemma_num_sizes(1);
    lemma_num_sizes(n.version.code() as nat);
    let f0 = start(k, id_dst, id_src);
    let f1 = add_single(f0, k, 0, Pi::Version, Some(num_bytes(n.version.code() as nat)));
    let f2 = add_single(f1, k, 7, Pi::SyncOption, sync_bytes(n.sync));
    let f3 = add_single(f2, k, 8, Pi::Resync, flag_bytes(n.resync));
    let f4 = add_single(f3, k, 24, Pi::FreeMessage, opt_text_bytes(free_message));
    assert(present(f4, 6));
    finish(f4, k, 100);
    read_number(f4, Pi::Version, n.version.code());
    read_sync(f4, n.sync);
    read_flag(f4, Pi::Resync, n.resync);
    f4
}

/// Both ends of an established session hold the same negotiated parameters: what the requester
/// reads from the ACONNECT is what the server settled on.
pub proof fn law_both_ends_agree(
    cfg: RequesterConfig,
    s: ResponderV,
    accept: ConnectAccept,
    conn_id: u8,
)
    requires
        connectable(cfg),
        clean_opt(opt_text(accept.free_message), 254),
        s.negotiated.crc == cfg.crc,
    ensures
        ({
            let asked = ConnectRequestV::of(cfg.spec_connect());
            let n = s.settled(asked, accept);
            let reply = spec_aconnect(
                REQUESTER_ID,
                conn_id,
                n.version,
                n.sync,
                n.resync,
                opt_text(accept.free_message),
            );
            &&& well_formed(reply, true)
            &&& cfg.spec_negotiated(reply) == n
        }),
{
    law_connect_is_read_back(cfg);
    let asked = ConnectRequestV::of(cfg.spec_connect());
    let n = s.settled(asked, accept);
    let reply = lemma_aconnect(REQUESTER_ID, conn_id, n, opt_text(accept.free_message));
    assert(cfg.spec_negotiated(reply).sync == n.sync);
}

/// The checkpoint that the server names for a restarted write is the one that the requester
/// resumes from, where the requester knows it.
pub proof fn law_restart_point_is_agreed(
    t: FileTransferV,
    peer_id: u8,
    start: Checkpoint,
    store: CheckpointsV,
)
    requires
        t.sending,
        t.file.restarted,
        store.at(start.sync) == Some(start),
    ensures
        ({
            let ack = diag_fpdu(FpduKind::AckWrite, peer_id, 0, Diagnostic::ok()).with_number(
                Pi::RestartPoint,
                start.sync as nat,
            );
            t.started(ack, store) matches Ok(u) && u.start == start
        }),
{
    let f = diag_fpdu(FpduKind::AckWrite, peer_id, 0, Diagnostic::ok());
    let f0 = FpduV::between(FpduKind::AckWrite, peer_id, 0);
    crate::fpdu_laws::law_set_keeps_canonical_order(
        f0.params,
        crate::fpdu::ParamV::Pi { pi: Pi::Diag, value: Diagnostic::ok().spec_bytes() },
    );
    crate::fpdu::lemma_insertion_point_range(f0.params, Pi::Diag.spec_code());
    assert(f.params.len() == 1);
    assert(f.params[0] is Pi);
    crate::fpdu_laws::law_get_after_set(f, Pi::RestartPoint, num_bytes(start.sync as nat));
    crate::fpdu::law_number_round_trip(start.sync as nat);
}

/// Both ends compress alike: the requester reads from the ACK(ORF) the compression that the
/// server settled on.
pub proof fn law_compression_is_agreed(
    t: FileTransferV,
    wanted: Compression,
    local: Compression,
    peer_id: u8,
    store: CheckpointsV,
)
    requires
        t.sending,
    ensures
        ({
            let settled = Compression::spec_negotiate(wanted, local);
            let ack = diag_fpdu(FpduKind::AckOrf, peer_id, 0, Diagnostic::ok()).with_compression(
                settled,
            );
            t.opened(ack, wanted, store) matches Ok(u) && u.compression == settled
        }),
{
    let settled = Compression::spec_negotiate(wanted, local);
    let f = diag_fpdu(FpduKind::AckOrf, peer_id, 0, Diagnostic::ok());
    let f0 = FpduV::between(FpduKind::AckOrf, peer_id, 0);
    crate::fpdu_laws::law_set_keeps_canonical_order(
        f0.params,
        crate::fpdu::ParamV::Pi { pi: Pi::Diag, value: Diagnostic::ok().spec_bytes() },
    );
    crate::fpdu::lemma_insertion_point_range(f0.params, Pi::Diag.spec_code());
    assert(f.params.len() == 1);
    assert(f.params[0] is Pi);
    crate::params::law_compression_round_trip(settled);
    if settled != Compression::Off {
        crate::fpdu_laws::law_get_after_set(f, Pi::Compression, settled.spec_bytes());
    } else {
        crate::fpdu_laws::law_set_leaves_other_parameters(
            f0,
            Pi::Diag,
            Diagnostic::ok().spec_bytes(),
            Pi::Compression,
        );
        assert(f0.value(Pi::Compression) is None);
    }
}

} // verus!
