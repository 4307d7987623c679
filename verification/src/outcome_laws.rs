//! What is told of an outcome: results carry the counters they were reached with, errors are never
//! told as success, and answers carry the status of their kind.

use crate::builder::FileSpecV;
use crate::checkpoint::{ascending, by_number, holds, lemma_find, Checkpoint, CheckpointsV};
use crate::datapath::{peer_text, DataEnd, DataResult};
use crate::diag::Diagnostic;
use crate::error::SessionError;
use crate::fpdu::{spec_unit_len, FpduV};
use crate::kind::FpduKind;
use crate::message::{first_room, fitting, leading, message_plan, spec_segments};
use crate::pi::Pi;
use crate::receiver::ReceiverV;
use crate::responder::ResponderV;
use crate::sender::SenderV;
use crate::service::http::{missing_key, ApiErrorV};
use crate::text::{dec, dec_padded};
use crate::text_laws::law_padding_keeps_the_number;
use crate::tls::{extension, file_name, spec_is_pem};
use vstd::prelude::*;

verus! {

// ---- results ----

/// The result of a data phase says how it ended, and what was counted up to then, at either side.
pub proof fn law_results_carry_the_counters(s: SenderV, r: ReceiverV, end: DataEnd)
    ensures
        s.result(end) == (DataResult {
            end,
            data_bytes: s.data_bytes,
            articles: s.articles,
            last_sync: s.sync_no,
        }),
        r.result(end) == (DataResult {
            end,
            data_bytes: r.data_bytes,
            articles: r.articles,
            last_sync: r.last_sync,
        }),
{
}

/// The server keeps of a closing request what its answer says of it: where the request is answered,
/// the diagnostic that is kept is the one known to have gone wrong.
pub proof fn law_closing_diagnostics_agree(
    s: ResponderV,
    diag: Diagnostic,
    data: DataResult,
    f: FpduV,
)
    ensures
        s.close_step(diag, data, f) matches Ok((_, kept, _, _)) ==> kept == s.diag_behind(
            diag,
            data,
            f,
        ),
        crate::exchange::receive_fault(s.state, f) is Some ==> s.diag_behind(diag, data, f) == diag,
{
}

// ---- errors ----

/// An error is told with the diagnostic it came with, where it came with one; any other one with a
/// diagnostic of its own, and never as success.
pub proof fn law_errors_are_told(e: SessionError)
    ensures
        e matches SessionError::Decode(d) ==> e.spec_abort_diag() == d.diag,
        e matches SessionError::Aborted { diag, .. } ==> e.spec_abort_diag() == diag,
        e matches SessionError::Refused { diag, .. } ==> e.spec_abort_diag() == diag,
        e !is Decode && e !is Aborted && e !is Refused ==> e.spec_abort_diag().kind != 0
            && e.spec_abort_diag().code != 0,
        e is Io ==> e.spec_abort_diag() == Diagnostic::io_error(),
        e is Timeout ==> e.spec_abort_diag() == Diagnostic::timeout(),
        e is Cancelled ==> e.spec_abort_diag() == Diagnostic::voluntary_stop(),
        e is Counts ==> e.spec_abort_diag() == Diagnostic::invalid_counts(),
        e is Record ==> e.spec_abort_diag() == Diagnostic::record_too_long(),
        e is Protocol || e is Reassembly || e is Decompress ==> e.spec_abort_diag()
            == Diagnostic::remote_protocol_error(),
        e is Negotiation ==> e.spec_abort_diag() == Diagnostic::negotiation_failure(),
        e is Transport ==> e.spec_abort_diag() == Diagnostic::network_incident(),
        e is PreconnectRefused ==> e.spec_abort_diag() == Diagnostic::caller_not_authorised(),
{
}

/// What the peer has to say is its free message, and where there is none, the complement of its
/// diagnostic.
pub proof fn law_the_peer_is_quoted(f: FpduV)
    ensures
        f.string(Pi::FreeMessage) is Some ==> peer_text(f) == f.string(Pi::FreeMessage),
        f.string(Pi::FreeMessage) is None ==> peer_text(f) == f.string(Pi::DiagComplement),
{
}

/// The label of a diagnostic names its kind and its code, and different diagnostics have different
/// labels.
pub proof fn law_diagnostics_have_labels_of_their_own(a: Diagnostic, b: Diagnostic)
    ensures
        a.spec_label() == "D"@ + dec(a.kind as nat) + "-"@ + dec_padded(a.code as nat, 3),
        a.kind == b.kind ==> (a.spec_label() == b.spec_label() <==> a == b),
{
    let head = "D"@ + dec(a.kind as nat) + "-"@;
    law_padding_keeps_the_number(a.code as nat, 3);
    law_padding_keeps_the_number(b.code as nat, 3);
    if a.kind == b.kind && a.spec_label() == b.spec_label() {
        let x = dec_padded(a.code as nat, 3);
        let y = dec_padded(b.code as nat, 3);
        assert((head + x).skip(head.len() as int) =~= x);
        assert((head + y).skip(head.len() as int) =~= y);
    }
}

/// Answers carry the status of their kind, and the message they are given.
pub proof fn law_answers_have_their_status(message: Seq<char>)
    ensures
        ApiErrorV::bad_request(message).status == 400,
        ApiErrorV::not_found(message).status == 404,
        ApiErrorV::conflict(message).status == 409,
        ApiErrorV::internal(message).status == 500,
        missing_key().status == 401,
        ApiErrorV::bad_request(message).message == message,
        ApiErrorV::not_found(message).message == message,
        ApiErrorV::conflict(message).message == message,
        ApiErrorV::internal(message).message == message,
{
}

// ---- checkpoints ----

/// The last acknowledged checkpoint is the recorded one of that number, and an acknowledgement of a
/// recorded point makes it the last, unless a later one was acknowledged before.
pub proof fn law_acknowledged_checkpoints_are_known(v: CheckpointsV, cp: Checkpoint)
    requires
        cp.sync != 0,
    ensures
        v.acknowledged <= cp.sync ==> v.recorded(cp).after_acknowledge(cp.sync).last_acknowledged()
            == Some(cp),
        CheckpointsV::empty().last_acknowledged() is None,
        v.acknowledged == 0 ==> v.last_acknowledged() is None,
        v.last_acknowledged() matches Some(c) ==> v.points.contains_key(v.acknowledged) && c
            == v.points[v.acknowledged],
        CheckpointsV::empty().at(cp.sync) is None,
        CheckpointsV::empty().at(0) == Some(
            Checkpoint { sync: 0, file_offset: 0, data_bytes: 0, articles: 0 },
        ),
        v.at(0) == CheckpointsV::empty().at(0),
{
}

/// The last checkpoint is the recorded one with the largest number.
pub proof fn law_the_last_checkpoint_is_the_largest(v: CheckpointsV, cp: Checkpoint, k: u32)
    ensures
        v.is_last(k) ==> v.points.contains_key(k) && forall|j: u32| #[trigger]
            v.points.contains_key(j) ==> j <= k,
        v.is_last(k) && cp.sync > k ==> v.recorded(cp).is_last(cp.sync),
        v.is_last(k) && cp.sync <= k ==> v.recorded(cp).is_last(k),
        CheckpointsV::empty().recorded(cp).is_last(cp.sync),
        !CheckpointsV::empty().is_last(k),
{
}

/// A list of checkpoints is in order exactly where every number is larger than all before it; it then
/// holds each of its checkpoints under its number, and no other.
pub proof fn law_lists_of_checkpoints_are_ordered(list: Seq<Checkpoint>, cp: Checkpoint)
    ensures
        ascending(Seq::empty()),
        ascending(list.push(cp)) <==> ascending(list) && forall|i: int|
            0 <= i < list.len() ==> (#[trigger] list[i]).sync < cp.sync,
        by_number(Seq::empty()) == Map::<u32, Checkpoint>::empty(),
        ascending(list.push(cp)) ==> by_number(list.push(cp)) == by_number(list).insert(
            cp.sync,
            cp,
        ),
{
    let more = list.push(cp);
    let n = list.len() as int;
    assert(more[n] == cp);
    assert(by_number(Seq::empty()) =~= Map::<u32, Checkpoint>::empty());
    if ascending(more) {
        assert forall|i: int, j: int| 0 <= i < j < list.len() implies (#[trigger] list[i]).sync < (
        #[trigger] list[j]).sync by {
            assert(more[i] == list[i] && more[j] == list[j]);
        }
        assert forall|i: int| 0 <= i < list.len() implies (#[trigger] list[i]).sync < cp.sync by {
            assert(more[i].sync < more[n].sync);
        }
        let m = by_number(list).insert(cp.sync, cp);
        assert forall|k: u32| by_number(more).contains_key(k) <==> m.contains_key(k) by {
            if holds(more, k) && k != cp.sync {
                let i = choose|i: int| 0 <= i < more.len() && (#[trigger] more[i]).sync == k;
                assert(list[i] == more[i]);
            }
            if holds(list, k) {
                let i = choose|i: int| 0 <= i < list.len() && (#[trigger] list[i]).sync == k;
                assert(more[i] == list[i]);
            }
        }
        assert forall|k: u32| by_number(more).contains_key(k) implies by_number(more)[k] == m[k] by {
            let i = choose|i: int| 0 <= i < more.len() && (#[trigger] more[i]).sync == k;
            lemma_find(more, i);
            if i < n {
                assert(more[i] == list[i]);
                lemma_find(list, i);
                assert(list[i].sync < cp.sync);
            }
        }
        assert(by_number(more) =~= m);
    }
    if ascending(list) && forall|i: int| 0 <= i < list.len() ==> (#[trigger] list[i]).sync < cp.sync {
        assert forall|i: int, j: int| 0 <= i < j < more.len() implies (#[trigger] more[i]).sync < (
        #[trigger] more[j]).sync by {
            assert(more[i] == list[i]);
            if j < n {
                assert(more[j] == list[j]);
            }
        }
    }
}

// ---- messages ----

/// A message goes out in one FPDU exactly where it fits into an entity; else it is cut, and every
/// part but the last is taken from its front.
pub proof fn law_messages_are_cut_only_where_they_must(
    peer_id: u8,
    file: FileSpecV,
    message: Seq<u8>,
    expects_reply: bool,
    max_entity: usize,
    crc: bool,
)
    ensures
        ({
            let plan = message_plan(peer_id, file, message, expects_reply, max_entity, crc);
            let room = first_room(peer_id, file, expects_reply, max_entity, crc);
            &&& message.len() <= room ==> plan.len() == 1 && plan[0].kind == FpduKind::Msg
            &&& message.len() > room ==> plan.len() >= 2 && plan[0].kind == FpduKind::MsgDm
                && plan.last().kind == FpduKind::MsgFm && forall|i: int|
                0 < i < plan.len() - 1 ==> (#[trigger] plan[i]).kind == FpduKind::MsgMm
        }),
{
    let room = first_room(peer_id, file, expects_reply, max_entity, crc);
    if message.len() > room {
        let cut = crate::message::head_len(peer_id, file, expects_reply, max_entity, crc);
        let seg = crate::message::segment_room(max_entity, crc);
        let rest = message.skip(cut as int);
        lemma_segment_kinds(peer_id, rest, seg);
        let plan = message_plan(peer_id, file, message, expects_reply, max_entity, crc);
        let tail = spec_segments(peer_id, rest, seg);
        assert forall|i: int| 0 < i < plan.len() - 1 implies (#[trigger] plan[i]).kind
            == FpduKind::MsgMm by {
            assert(plan[i] == tail[i - 1]);
        }
        assert(plan.last() == tail.last());
    }
}

proof fn lemma_segment_kinds(peer_id: u8, rest: Seq<u8>, room: nat)
    ensures
        ({
            let s = spec_segments(peer_id, rest, room);
            &&& s.len() >= 1
            &&& s.last().kind == FpduKind::MsgFm
            &&& forall|i: int|
                0 <= i < s.len() - 1 ==> (#[trigger] s[i]).kind == FpduKind::MsgMm
        }),
    decreases rest.len(),
{
    if room > 0 && rest.len() > room {
        let tail = spec_segments(peer_id, rest.skip(room as int), room);
        lemma_segment_kinds(peer_id, rest.skip(room as int), room);
        let s = spec_segments(peer_id, rest, room);
        assert(s.last() == tail.last());
        assert forall|i: int| 0 <= i < s.len() - 1 implies (#[trigger] s[i]).kind
            == FpduKind::MsgMm by {
            if i > 0 {
                assert(s[i] == tail[i - 1]);
            }
        }
    }
}

/// As much of a message goes into a space as fits with its code and its length, and not a byte more;
/// the first part of a longer one leaves room for three bytes of them at least.
pub proof fn law_messages_fill_their_space(space: nat, n: nat)
    ensures
        space >= 3 ==> spec_unit_len(fitting(space)) <= space,
        space >= 3 && n > fitting(space) ==> spec_unit_len(n) > space,
        space >= 4 ==> leading(space) <= fitting(space) && leading(space) + 3 <= space,
        space >= 4 ==> leading(space) + 3 == space || leading(space) == fitting(space),
        fitting(space) >= 1 && leading(space) >= 1,
{
}

// ---- file names ----

/// A file is taken for a PEM file by what stands behind the last dot of its name, whatever its case.
pub proof fn law_pem_files_have_their_names(dir: Seq<char>, stem: Seq<char>, ext: Seq<char>)
    requires
        stem.len() > 0,
        forall|i: int| 0 <= i < stem.len() ==> stem[i] != '/',
        ext.len() > 0,
        forall|i: int| 0 <= i < ext.len() ==> ext[i] != '/' && ext[i] != '.',
    ensures
        ({
            let path = dir + seq!['/'] + stem + seq!['.'] + ext;
            &&& file_name(path) == Some(stem + seq!['.'] + ext)
            &&& extension(path) == Some(ext)
            &&& spec_is_pem(path) <==> crate::text::lower(ext) == seq!['p', 'e', 'm']
                || crate::text::lower(ext) == seq!['c', 'r', 't'] || crate::text::lower(ext)
                == seq!['k', 'e', 'y']
        }),
{
    let name = stem + seq!['.'] + ext;
    let path = dir + seq!['/'] + stem + seq!['.'] + ext;
    let front = dir + seq!['/'];
    assert(path =~= front + name);
    assert forall|i: int| 0 <= i < name.len() implies name[i] != '/' by {}
    lemma_last_slash(front, name);
    assert(crate::tls::behind_slash(path) == front.len());
    assert(path.skip(front.len() as int) =~= name);
    let last = name[name.len() - 1];
    assert(last == ext[ext.len() - 1]);
    assert(name.len() > 1);
    assert(seq!['.'].len() == 1);
    assert(name != seq!['.', '.']) by {
        assert(seq!['.', '.'][1] == '.');
        assert(name.len() == 2 ==> name[1] == last);
    }
    assert(file_name(path) == Some(name));
    lemma_last_dot(stem, ext);
    assert(crate::tls::last_dot(name) == Some(stem.len() as int));
    assert(name.skip(stem.len() as int + 1) =~= ext);
    assert(extension(path) == Some(ext));
}

proof fn lemma_last_slash(front: Seq<char>, name: Seq<char>)
    requires
        front.len() > 0 && front.last() == '/',
        forall|i: int| 0 <= i < name.len() ==> name[i] != '/',
    ensures
        crate::tls::behind_slash(front + name) == front.len(),
    decreases name.len(),
{
    if name.len() == 0 {
        assert(front + name =~= front);
    } else {
        lemma_last_slash(front, name.drop_last());
        assert((front + name).drop_last() =~= front + name.drop_last());
        assert((front + name).last() == name[name.len() - 1]);
    }
}

proof fn lemma_last_dot(stem: Seq<char>, ext: Seq<char>)
    requires
        forall|i: int| 0 <= i < ext.len() ==> ext[i] != '.',
    ensures
        crate::tls::last_dot(stem + seq!['.'] + ext) == Some(stem.len() as int),
    decreases ext.len(),
{
    let s = stem + seq!['.'] + ext;
    if ext.len() > 0 {
        lemma_last_dot(stem, ext.drop_last());
        assert(s.drop_last() =~= stem + seq!['.'] + ext.drop_last());
        assert(s.last() == ext[ext.len() - 1]);
    }
}

} // verus!
