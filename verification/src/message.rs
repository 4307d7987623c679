//! Messages: cut into FPDUs that fit the entities on one side, put together again on the other.

use crate::builder;
use crate::builder::{spec_msg, FileSpec, FileSpecV};
use crate::crc::CRC_LEN;
use crate::diag::Diagnostic;
use crate::error::{SessionError, SessionErrorV};
use crate::exchange::{receive_fault, dropped, state_behind, take_received};
use crate::fpdu::{
    bytes_to_vec, canonical, clamp_usize, insertion_point, item_value, items_sorted,
    params_bytes, placed, spec_unit_len, Fpdu, FpduV, Items, ParamV, HEADER_LEN,
};
use crate::fpdu_laws::{
    law_get_after_set, law_group_items_are_sorted, law_set_keeps_canonical_order,
    lemma_lookup_none,
};
use crate::article::fpdus_view;
use crate::kind::FpduKind;
use crate::params::FpduExt;
use crate::pi::{Pgi, Pi};
use crate::state::{Machine, State};
use vstd::prelude::*;

verus! {

/// Bytes kept free beside the header and the message in the FPDUs behind the first.
pub const SEGMENT_RESERVE: usize = 6;

/// The longest message whose unit takes at most `space` bytes; at least one byte.
pub open spec fn fitting(space: nat) -> nat {
    if space >= 259 {
        (space - 4) as nat
    } else if space >= 256 {
        254
    } else if space >= 3 {
        (space - 2) as nat
    } else {
        1
    }
}

/// The part of a longer message that goes into its first FPDU, where its unit may take `space`
/// bytes: three bytes are kept for its code and its length, and a fourth where the length takes it;
/// at least one byte.
pub open spec fn leading(space: nat) -> nat {
    if space >= 4 && space - 3 < fitting(space) {
        (space - 3) as nat
    } else if space >= 4 {
        fitting(space)
    } else {
        1
    }
}

/// Bytes of a message that fit beside `overhead` bytes in an entity; at least one.
pub open spec fn message_room(max_entity: usize, overhead: nat) -> nat {
    if max_entity > overhead {
        (max_entity - overhead) as nat
    } else {
        1
    }
}

/// Bytes of the check value of an entity.
pub open spec fn crc_len(crc: bool) -> nat {
    if crc {
        CRC_LEN as nat
    } else {
        0
    }
}

/// Segments of the rest of a message, at most `room` bytes each; the last one is final.
pub open spec fn spec_segments(peer_id: u8, rest: Seq<u8>, room: nat) -> Seq<FpduV>
    decreases rest.len(),
{
    if room == 0 || rest.len() <= room {
        seq![FpduV::between(FpduKind::MsgFm, peer_id, 0).with_message(rest)]
    } else {
        seq![
            FpduV::between(FpduKind::MsgMm, peer_id, 0).with_message(rest.take(room as int)),
        ] + spec_segments(peer_id, rest.skip(room as int), room)
    }
}

/// Bytes that the unit of a message may take in its first FPDU.
pub open spec fn first_space(
    peer_id: u8,
    file: FileSpecV,
    expects_reply: bool,
    max_entity: usize,
    crc: bool,
) -> nat {
    let taken = clamp_usize(
        spec_msg(FpduKind::Msg, peer_id, file, expects_reply, None).wire_len(),
    ) as nat + crc_len(crc);
    if max_entity > taken {
        (max_entity - taken) as nat
    } else {
        0
    }
}

/// Room for a whole message in its first FPDU.
pub open spec fn first_room(
    peer_id: u8,
    file: FileSpecV,
    expects_reply: bool,
    max_entity: usize,
    crc: bool,
) -> nat {
    fitting(first_space(peer_id, file, expects_reply, max_entity, crc))
}

/// Length of the part of a segmented message in its first FPDU.
pub open spec fn head_len(
    peer_id: u8,
    file: FileSpecV,
    expects_reply: bool,
    max_entity: usize,
    crc: bool,
) -> nat {
    leading(first_space(peer_id, file, expects_reply, max_entity, crc))
}

/// Room for a message in the FPDUs behind the first.
pub open spec fn segment_room(max_entity: usize, crc: bool) -> nat {
    message_room(max_entity, HEADER_LEN as nat + SEGMENT_RESERVE as nat + crc_len(crc))
}

/// FPDUs that carry a message: one where it fits in an entity, else a first one and segments.
pub open spec fn message_plan(
    peer_id: u8,
    file: FileSpecV,
    message: Seq<u8>,
    expects_reply: bool,
    max_entity: usize,
    crc: bool,
) -> Seq<FpduV> {
    let room = first_room(peer_id, file, expects_reply, max_entity, crc);
    if message.len() <= room {
        seq![spec_msg(FpduKind::Msg, peer_id, file, expects_reply, Some(message))]
    } else {
        let cut = head_len(peer_id, file, expects_reply, max_entity, crc);
        seq![
            spec_msg(
                FpduKind::MsgDm,
                peer_id,
                file,
                expects_reply,
                Some(message.take(cut as int)),
            ),
        ] + spec_segments(peer_id, message.skip(cut as int), segment_room(max_entity, crc))
    }
}

fn room_beside(max_entity: usize, overhead: usize) -> (r: usize)
    ensures
        r == message_room(max_entity, overhead as nat),
        r >= 1,
{
    if max_entity > overhead {
        max_entity - overhead
    } else {
        1
    }
}

fn longest_fitting(space: usize) -> (r: usize)
    ensures
        r == fitting(space as nat),
        r >= 1,
{
    if space >= 259 {
        space - 4
    } else if space >= 256 {
        254
    } else if space >= 3 {
        space - 2
    } else {
        1
    }
}

fn leading_part(space: usize) -> (r: usize)
    ensures
        r == leading(space as nat),
        1 <= r <= fitting(space as nat),
{
    let fits: usize = longest_fitting(space);
    if space < 4 {
        1
    } else if space - 3 < fits {
        space - 3
    } else {
        fits
    }
}

/// Cut a message into the FPDUs that carry it.
#[must_use]
pub fn message_fpdus(
    peer_id: u8,
    file: &FileSpec,
    message: &[u8],
    expects_reply: bool,
    max_entity: usize,
    crc: bool,
) -> (r: Vec<Fpdu>)
    ensures
        fpdus_view(r@) == message_plan(peer_id, file@, message@, expects_reply, max_entity, crc),
{
    let check: usize = if crc {
        CRC_LEN
    } else {
        0
    };
    let first = builder::msg(FpduKind::Msg, peer_id, file, expects_reply, None);
    let taken: usize = first.encoded_len().saturating_add(check);
    let space: usize = max_entity.saturating_sub(taken);
    let room: usize = longest_fitting(space);
    let mut out: Vec<Fpdu> = Vec::new();
    if message.len() <= room {
        out.push(builder::msg(FpduKind::Msg, peer_id, file, expects_reply, Some(message)));
        proof {
            assert(fpdus_view(out@) =~= message_plan(
                peer_id,
                file@,
                message@,
                expects_reply,
                max_entity,
                crc,
            ));
        }
        return out;
    }
    let cut: usize = leading_part(space);
    let head = vstd::slice::slice_subrange(message, 0, cut);
    out.push(builder::msg(FpduKind::MsgDm, peer_id, file, expects_reply, Some(head)));
    let seg_room: usize = room_beside(max_entity, HEADER_LEN + SEGMENT_RESERVE + check);
    let ghost rest = message@.skip(cut as int);
    let ghost first_view = spec_msg(
        FpduKind::MsgDm,
        peer_id,
        file@,
        expects_reply,
        Some(message@.take(cut as int)),
    );
    proof {
        assert(head@ =~= message@.take(cut as int));
        assert(fpdus_view(out@) =~= seq![first_view]);
    }
    let mut at: usize = cut;
    while message.len() - at > seg_room
        invariant
            cut <= at < message.len(),
            seg_room >= 1,
            rest == message@.skip(cut as int),
            seq![first_view] + spec_segments(peer_id, rest, seg_room as nat) == fpdus_view(out@)
                + spec_segments(peer_id, message@.skip(at as int), seg_room as nat),
        decreases message.len() - at,
    {
        let ghost before = fpdus_view(out@);
        let ghost tail = message@.skip(at as int);
        let part = vstd::slice::slice_subrange(message, at, at + seg_room);
        out.push(builder::msg_segment(FpduKind::MsgMm, peer_id, part));
        proof {
            assert(part@ =~= tail.take(seg_room as int));
            assert(tail.skip(seg_room as int) =~= message@.skip(at + seg_room));
            let f = FpduV::between(FpduKind::MsgMm, peer_id, 0).with_message(
                tail.take(seg_room as int),
            );
            assert(fpdus_view(out@) =~= before.push(f));
            assert(before + (seq![f] + spec_segments(
                peer_id,
                tail.skip(seg_room as int),
                seg_room as nat,
            )) =~= before.push(f) + spec_segments(
                peer_id,
                tail.skip(seg_room as int),
                seg_room as nat,
            ));
        }
        at += seg_room;
    }
    let ghost before = fpdus_view(out@);
    let part = vstd::slice::slice_subrange(message, at, message.len());
    out.push(builder::msg_segment(FpduKind::MsgFm, peer_id, part));
    proof {
        assert(part@ =~= message@.skip(at as int));
        let f = FpduV::between(FpduKind::MsgFm, peer_id, 0).with_message(part@);
        assert(fpdus_view(out@) =~= before.push(f));
        assert(before + seq![f] =~= before.push(f));
    }
    out
}

/// Outcome of a message.
#[derive(Debug, PartialEq, Eq)]
pub struct MessageOutcome {
    /// Diagnostic of the ACK(MSG).
    pub diag: Diagnostic,
    /// Reply message (PI 91) when the server sent one.
    pub reply: Option<Vec<u8>>,
}

/// Value of an optional byte string.
pub open spec fn opt_vec(o: Option<Vec<u8>>) -> Option<Seq<u8>> {
    match o {
        Some(v) => Some(v@),
        None => None,
    }
}

impl MessageOutcome {
    /// Outcome that an ACK(MSG) tells.
    #[must_use]
    pub fn of(ack: &Fpdu) -> (r: Self)
        ensures
            r.diag == ack@.diag_or_ok(),
            opt_vec(r.reply) == ack@.value(Pi::Message),
    {
        let reply = match ack.get(Pi::Message) {
            Some(v) => Some(bytes_to_vec(v)),
            None => None,
        };
        MessageOutcome { diag: ack.diag_or_ok(), reply }
    }
}

/// What a FPDU means to a message that was sent in segments.
pub open spec fn segmented_answer_step(st: State, f: FpduV) -> Result<FpduV, SessionErrorV> {
    match receive_fault(st, f) {
        Some(e) => Err(e),
        None => if f.kind != FpduKind::AckMsg {
            Err(SessionErrorV::Protocol(state_behind(st, f), f.kind))
        } else if f.negative() {
            Err(
                SessionErrorV::Refused(
                    FpduKind::Msg,
                    f.diag_or_ok(),
                    f.string(Pi::FreeMessage),
                ),
            )
        } else {
            Ok(f)
        },
    }
}

/// Take the answer to a message that was sent in segments.
pub fn on_segmented_answer(machine: &mut Machine, f: Fpdu) -> (r: Result<Fpdu, SessionError>)
    ensures
        final(machine).spec_role() == old(machine).spec_role(),
        final(machine).spec_state() == state_behind(old(machine).spec_state(), f@),
        match segmented_answer_step(old(machine).spec_state(), f@) {
            Ok(a) => r is Ok && r->Ok_0@ == a,
            Err(e) => r is Err && r->Err_0@ == e,
        },
{
    match take_received(machine, &f) {
        Ok(_) => {},
        Err(e) => {
            return Err(e);
        },
    }
    if f.kind != FpduKind::AckMsg {
        return Err(SessionError::Protocol { state: machine.state(), kind: f.kind });
    }
    if f.is_negative() {
        return Err(
            SessionError::Refused {
                request: FpduKind::Msg,
                diag: f.diag_or_ok(),
                message: f.get_text(Pi::FreeMessage),
            },
        );
    }
    Ok(f)
}

/// Bytes of a message that a FPDU carries.
pub open spec fn message_part(f: FpduV) -> Seq<u8> {
    match f.value(Pi::Message) {
        Some(m) => m,
        None => Seq::empty(),
    }
}

/// Bytes of a message that FPDUs carry, in their order.
pub open spec fn message_parts(fs: Seq<FpduV>) -> Seq<u8>
    decreases fs.len(),
{
    if fs.len() == 0 {
        Seq::empty()
    } else {
        message_part(fs.first()) + message_parts(fs.skip(1))
    }
}

/// A message under reception.
#[derive(Debug, PartialEq, Eq)]
pub struct IncomingMessage {
    /// File attributes that came with the message.
    pub spec: FileSpec,
    /// Whether the sender asks for a reply.
    pub expects_reply: bool,
    /// The message, as far as it has arrived.
    pub message: Vec<u8>,
}

/// Value of a message under reception.
#[verifier::ext_equal]
pub struct IncomingMessageV {
    /// File attributes.
    pub spec: FileSpecV,
    /// Whether a reply is asked for.
    pub expects_reply: bool,
    /// The message so far.
    pub message: Seq<u8>,
}

impl View for IncomingMessage {
    type V = IncomingMessageV;

    open spec fn view(&self) -> IncomingMessageV {
        IncomingMessageV {
            spec: self.spec@,
            expects_reply: self.expects_reply,
            message: self.message@,
        }
    }
}

impl IncomingMessageV {
    /// A message at its first FPDU.
    pub open spec fn of(first: FpduV) -> IncomingMessageV {
        IncomingMessageV {
            spec: FileSpecV::of(first),
            expects_reply: match first.number(Pi::RequestedAttributes) {
                Some(a) => a % 2 == 1,
                None => false,
            },
            message: message_part(first),
        }
    }

    /// A message behind a FPDU that finds the machine in state `st`, and whether it is complete.
    pub open spec fn segment_step(self, st: State, f: FpduV) -> Result<
        (IncomingMessageV, bool),
        SessionErrorV,
    > {
        match receive_fault(st, f) {
            Some(e) => Err(e),
            None => if dropped(st, f) {
                Ok((self, false))
            } else if f.kind == FpduKind::MsgMm || f.kind == FpduKind::MsgFm {
                Ok(
                    (
                        IncomingMessageV { message: self.message + message_part(f), ..self },
                        f.kind == FpduKind::MsgFm,
                    ),
                )
            } else {
                Err(SessionErrorV::Protocol(state_behind(st, f), f.kind))
            },
        }
    }
}

impl IncomingMessage {
    /// Start with the first FPDU of a message.
    #[must_use]
    pub fn begin(first: &Fpdu) -> (r: Self)
        ensures
            r@ == IncomingMessageV::of(first@),
    {
        let expects_reply: bool = match first.get_num(Pi::RequestedAttributes) {
            Some(a) => a % 2 == 1,
            None => false,
        };
        let message = match first.get(Pi::Message) {
            Some(v) => bytes_to_vec(v),
            None => Vec::new(),
        };
        let r = IncomingMessage { spec: FileSpec::from_fpdu(first), expects_reply, message };
        proof {
            assert(r@ =~= IncomingMessageV::of(first@));
        }
        r
    }

    /// Take a FPDU behind the first one. Tells whether the message is complete.
    pub fn on_segment(&mut self, machine: &mut Machine, f: &Fpdu) -> (r: Result<
        bool,
        SessionError,
    >)
        ensures
            final(machine).spec_role() == old(machine).spec_role(),
            final(machine).spec_state() == state_behind(old(machine).spec_state(), f@),
            match old(self)@.segment_step(old(machine).spec_state(), f@) {
                Ok((m, complete)) => final(self)@ == m && r == Ok::<bool, SessionError>(complete),
                Err(e) => r is Err && r->Err_0@ == e && final(self)@ == old(self)@,
            },
    {
        match take_received(machine, f) {
            Ok(false) => {},
            Ok(true) => {
                return Ok(false);
            },
            Err(e) => {
                return Err(e);
            },
        }
        match f.kind {
            FpduKind::MsgMm | FpduKind::MsgFm => {
                match f.get(Pi::Message) {
                    Some(v) => {
                        self.message.extend_from_slice(v);
                    },
                    None => {},
                }
                proof {
                    assert(self@.message =~= old(self)@.message + message_part(f@));
                }
                Ok(f.kind == FpduKind::MsgFm)
            },
            k => Err(SessionError::Protocol { state: machine.state(), kind: k }),
        }
    }
}

// ---- laws ----

/// Whether no unit of a FPDU, single or in a group, holds a parameter.
pub open spec fn free_of(f: FpduV, pi: Pi) -> bool {
    forall|i: int| 0 <= i < f.params.len() ==> (#[trigger] f.params[i]).value_of(pi) is None
}

proof fn lemma_placed_free(f: FpduV, p: ParamV, pi: Pi)
    requires
        canonical(f.params),
        free_of(f, pi),
        p.value_of(pi) is None,
    ensures
        canonical(placed(f.params, p)),
        forall|i: int|
            0 <= i < placed(f.params, p).len() ==> (#[trigger] placed(f.params, p)[i]).value_of(
                pi,
            ) is None,
{
    law_set_keeps_canonical_order(f.params, p);
    crate::fpdu::lemma_insertion_point_range(f.params, p.spec_code());
    let out = placed(f.params, p);
    let k = insertion_point(f.params, p.spec_code());
    assert forall|i: int| 0 <= i < out.len() implies (#[trigger] out[i]).value_of(pi) is None by {
        if out.len() == f.params.len() {
            if i == k {
            } else {
                assert(out[i] == f.params[i]);
            }
        } else if i < k {
            assert(out[i] == f.params[i]);
        } else if i > k {
            assert(out[i] == f.params[i - 1]);
        }
    }
}

proof fn lemma_no_item(items: Items, pi: Pi)
    requires
        forall|i: int| 0 <= i < items.len() ==> (#[trigger] items[i]).0 != pi,
    ensures
        item_value(items, pi) is None,
    decreases items.len(),
{
    if items.len() > 0 {
        let front = items.drop_last();
        assert forall|i: int| 0 <= i < front.len() implies (#[trigger] front[i]).0 != pi by {
            assert(front[i] == items[i]);
        }
        lemma_no_item(front, pi);
        assert(items.last() == items[items.len() - 1]);
    }
}

proof fn lemma_no_sorted_item(items: Items, pi: Pi)
    requires
        forall|i: int| 0 <= i < items.len() ==> (#[trigger] items[i]).0 != pi,
    ensures
        item_value(items_sorted(items), pi) is None,
{
    broadcast use vstd::seq_lib::group_to_multiset_ensures;

    law_group_items_are_sorted(items);
    let s = items_sorted(items);
    assert forall|i: int| 0 <= i < s.len() implies (#[trigger] s[i]).0 != pi by {
        assert(s.contains(s[i]));
        assert(s.to_multiset().count(s[i]) > 0);
        assert(items.contains(s[i]));
    }
    lemma_no_item(s, pi);
}

/// The FPDU of a message without the message.
proof fn lemma_message_frame(
    kind: FpduKind,
    peer_id: u8,
    file: FileSpecV,
    expects_reply: bool,
) -> (base: FpduV)
    ensures
        base.kind == kind,
        canonical(base.params),
        free_of(base, Pi::Message),
        forall|m: Option<Seq<u8>>| #[trigger]
            spec_msg(kind, peer_id, file, expects_reply, m) == base.with_message(
                match m {
                    Some(m) => m,
                    None => Seq::empty(),
                },
            ),
{
    let f0 = FpduV::between(kind, peer_id, 0);
    let ids = file.file_id_group();
    lemma_no_sorted_item(ids, Pi::Message);
    lemma_placed_free(
        f0,
        ParamV::Pgi { pgi: Pgi::FileId, items: items_sorted(ids) },
        Pi::Message,
    );
    let f1 = f0.with_group(Pgi::FileId, ids);
    let f2 = lemma_single_free(
        f1,
        Pi::TransferId,
        Some(crate::fpdu::num_bytes(file.transfer_id as nat)),
    );
    let f3 = lemma_single_free(
        f2,
        Pi::RequestedAttributes,
        if expects_reply {
            Some(seq![1u8])
        } else {
            None
        },
    );
    let f4 = lemma_single_free(
        f3,
        Pi::DataCode,
        match file.data_code {
            Some(b) => Some(seq![b]),
            None => None,
        },
    );
    let f5 = lemma_single_free(f4, Pi::Priority, Some(seq![file.priority]));
    let f6 = match file.historical_group() {
        Some(h) => {
            lemma_no_sorted_item(h, Pi::Message);
            lemma_placed_free(
                f5,
                ParamV::Pgi { pgi: Pgi::HistoricalAttributes, items: items_sorted(h) },
                Pi::Message,
            );
            f5.with_group(Pgi::HistoricalAttributes, h)
        },
        None => f5,
    };
    let f7 = lemma_single_free(
        f6,
        Pi::ClientId,
        match file.client_id {
            Some(t) => Some(crate::fpdu::text_bytes(t)),
            None => None,
        },
    );
    let f8 = lemma_single_free(
        f7,
        Pi::BankId,
        match file.bank_id {
            Some(t) => Some(crate::fpdu::text_bytes(t)),
            None => None,
        },
    );
    f8
}

proof fn lemma_single_free(f: FpduV, pi: Pi, value: Option<Seq<u8>>) -> (r: FpduV)
    requires
        canonical(f.params),
        free_of(f, Pi::Message),
        pi != Pi::Message,
    ensures
        r == (match value {
            Some(v) => f.with_param(pi, v),
            None => f,
        }),
        r.kind == f.kind,
        canonical(r.params),
        free_of(r, Pi::Message),
{
    match value {
        Some(v) => {
            lemma_placed_free(f, ParamV::Pi { pi, value: v }, Pi::Message);
            f.with_param(pi, v)
        },
        None => f,
    }
}

proof fn lemma_message_part(base: FpduV, m: Seq<u8>)
    requires
        canonical(base.params),
        free_of(base, Pi::Message),
    ensures
        message_part(base.with_message(m)) == m,
{
    if m.len() > 0 {
        law_get_after_set(base, Pi::Message, m);
    } else {
        lemma_lookup_none(base.params, Pi::Message);
        assert(m =~= Seq::empty());
    }
}

proof fn lemma_segments_rebuild(peer_id: u8, rest: Seq<u8>, room: nat)
    ensures
        message_parts(spec_segments(peer_id, rest, room)) == rest,
    decreases rest.len(),
{
    let segments = spec_segments(peer_id, rest, room);
    if room == 0 || rest.len() <= room {
        lemma_message_part(FpduV::between(FpduKind::MsgFm, peer_id, 0), rest);
        assert(segments.skip(1) =~= Seq::<FpduV>::empty());
        assert(message_parts(segments.skip(1)) =~= Seq::<u8>::empty());
        assert(rest + Seq::<u8>::empty() =~= rest);
    } else {
        let tail = spec_segments(peer_id, rest.skip(room as int), room);
        lemma_message_part(
            FpduV::between(FpduKind::MsgMm, peer_id, 0),
            rest.take(room as int),
        );
        lemma_segments_rebuild(peer_id, rest.skip(room as int), room);
        assert(segments.skip(1) =~= tail);
        assert(rest.take(room as int) + rest.skip(room as int) =~= rest);
    }
}

/// A message arrives as it was sent: the parts that its FPDUs carry, put together in their order,
/// are the message, however it was cut.
pub proof fn law_message_is_rebuilt(
    peer_id: u8,
    file: FileSpecV,
    message: Seq<u8>,
    expects_reply: bool,
    max_entity: usize,
    crc: bool,
)
    ensures
        message_parts(message_plan(peer_id, file, message, expects_reply, max_entity, crc))
            == message,
{
    let room = first_room(peer_id, file, expects_reply, max_entity, crc);
    let plan = message_plan(peer_id, file, message, expects_reply, max_entity, crc);
    if message.len() <= room {
        let base = lemma_message_frame(FpduKind::Msg, peer_id, file, expects_reply);
        assert(plan[0] == spec_msg(FpduKind::Msg, peer_id, file, expects_reply, Some(message)));
        lemma_message_part(base, message);
        assert(plan.skip(1) =~= Seq::<FpduV>::empty());
        assert(message_parts(plan.skip(1)) =~= Seq::<u8>::empty());
        assert(message + Seq::<u8>::empty() =~= message);
    } else {
        let cut = head_len(peer_id, file, expects_reply, max_entity, crc);
        let head = message.take(cut as int);
        let rest = message.skip(cut as int);
        let base = lemma_message_frame(FpduKind::MsgDm, peer_id, file, expects_reply);
        assert(plan[0] == spec_msg(FpduKind::MsgDm, peer_id, file, expects_reply, Some(head)));
        lemma_message_part(base, head);
        lemma_segments_rebuild(peer_id, rest, segment_room(max_entity, crc));
        assert(plan.skip(1) =~= spec_segments(peer_id, rest, segment_room(max_entity, crc)));
        assert(head + rest =~= message);
    }
}

/// Whether FPDUs are the parts of one segmented message, in the state of a server that has taken
/// its first part: all are taken, and the last one completes it.
pub open spec fn segments_taken(st: State, m: IncomingMessageV, fs: Seq<FpduV>) -> Option<
    (State, IncomingMessageV),
>
    decreases fs.len(),
{
    if fs.len() == 0 {
        None
    } else {
        match m.segment_step(st, fs.first()) {
            Ok((n, true)) => if fs.len() == 1 {
                Some((state_behind(st, fs.first()), n))
            } else {
                None
            },
            Ok((n, false)) => segments_taken(state_behind(st, fs.first()), n, fs.skip(1)),
            Err(_) => None,
        }
    }
}

proof fn lemma_segments_taken(peer_id: u8, m: IncomingMessageV, rest: Seq<u8>, room: nat)
    ensures
        segments_taken(State::Mg01B, m, spec_segments(peer_id, rest, room)) == Some(
            (State::Mg04B, IncomingMessageV { message: m.message + rest, ..m }),
        ),
    decreases rest.len(),
{
    let segments = spec_segments(peer_id, rest, room);
    if room == 0 || rest.len() <= room {
        lemma_message_part(FpduV::between(FpduKind::MsgFm, peer_id, 0), rest);
    } else {
        let head = rest.take(room as int);
        let tail = rest.skip(room as int);
        let f = FpduV::between(FpduKind::MsgMm, peer_id, 0).with_message(head);
        lemma_message_part(FpduV::between(FpduKind::MsgMm, peer_id, 0), head);
        let n = IncomingMessageV { message: m.message + head, ..m };
        assert(segments.first() == f);
        assert(f.kind == FpduKind::MsgMm);
        assert(m.segment_step(State::Mg01B, f) == Ok::<_, SessionErrorV>((n, false)));
        lemma_segments_taken(peer_id, n, tail, room);
        assert(segments.skip(1) =~= spec_segments(peer_id, tail, room));
        assert(n.message + tail =~= m.message + rest) by {
            assert(head + tail =~= rest);
        }
    }
}

/// The server puts a message together as it was sent: a message that is sent in segments is
/// complete at its last FPDU and not before, and reads as the message that was cut.
pub proof fn law_segmented_message_is_received(
    peer_id: u8,
    file: FileSpecV,
    message: Seq<u8>,
    expects_reply: bool,
    max_entity: usize,
    crc: bool,
)
    requires
        message.len() > first_room(peer_id, file, expects_reply, max_entity, crc),
    ensures
        ({
            let plan = message_plan(peer_id, file, message, expects_reply, max_entity, crc);
            let begun = IncomingMessageV::of(plan.first());
            &&& plan.first().kind == FpduKind::MsgDm
            &&& state_behind(State::Cn03, plan.first()) == State::Mg01B
            &&& segments_taken(State::Mg01B, begun, plan.skip(1)) == Some(
                (State::Mg04B, IncomingMessageV { message, ..begun }),
            )
        }),
{
    let cut = head_len(peer_id, file, expects_reply, max_entity, crc);
    let plan = message_plan(peer_id, file, message, expects_reply, max_entity, crc);
    let head = message.take(cut as int);
    let rest = message.skip(cut as int);
    let base = lemma_message_frame(FpduKind::MsgDm, peer_id, file, expects_reply);
    assert(plan.first() == spec_msg(FpduKind::MsgDm, peer_id, file, expects_reply, Some(head)));
    lemma_message_part(base, head);
    let begun = IncomingMessageV::of(plan.first());
    assert(plan.skip(1) =~= spec_segments(peer_id, rest, segment_room(max_entity, crc)));
    lemma_segments_taken(peer_id, begun, rest, segment_room(max_entity, crc));
    assert(head + rest =~= message);
}

proof fn lemma_inserted_len(params: Seq<ParamV>, k: int, p: ParamV)
    requires
        0 <= k <= params.len(),
    ensures
        params_bytes(params.insert(k, p)).len() == params_bytes(params).len() + p.bytes().len(),
    decreases params.len(),
{
    let out = params.insert(k, p);
    if k == params.len() {
        assert(out.drop_last() =~= params);
    } else {
        lemma_inserted_len(params.drop_last(), k, p);
        assert(out.drop_last() =~= params.drop_last().insert(k, p));
        assert(out.last() == params.last());
    }
}

/// A message adds its unit to the length of a FPDU that holds none yet.
proof fn lemma_message_len(base: FpduV, m: Seq<u8>)
    requires
        !base.kind.spec_is_data(),
        free_of(base, Pi::Message),
        m.len() > 0,
    ensures
        base.with_message(m).wire_len() == base.wire_len() + spec_unit_len(m.len()),
{
    let p = ParamV::Pi { pi: Pi::Message, value: m };
    let k = insertion_point(base.params, p.spec_code());
    crate::fpdu::lemma_insertion_point_range(base.params, p.spec_code());
    if k < base.params.len() && base.params[k].spec_code() == p.spec_code() {
        match base.params[k] {
            ParamV::Pi { pi: q, .. } => {
                crate::pi::law_pi_code_round_trip(q);
                crate::pi::law_pi_code_round_trip(Pi::Message);
                assert(base.params[k].value_of(Pi::Message) is Some);
            },
            ParamV::Pgi { pgi, .. } => {
                crate::pi::law_pi_and_pgi_codes_are_disjoint(Pi::Message, pgi);
            },
        }
    }
    lemma_inserted_len(base.params, k, p);
    assert(p.bytes().len() == spec_unit_len(m.len()));
}

proof fn lemma_segments_fit(peer_id: u8, rest: Seq<u8>, max_entity: usize, crc: bool)
    requires
        HEADER_LEN + spec_unit_len(1) + crc_len(crc) <= max_entity,
    ensures
        ({
            let plan = spec_segments(peer_id, rest, segment_room(max_entity, crc));
            forall|i: int|
                0 <= i < plan.len() ==> (#[trigger] plan[i]).wire_len() + crc_len(crc)
                    <= max_entity
        }),
    decreases rest.len(),
{
    let room = segment_room(max_entity, crc);
    let last = FpduV::between(FpduKind::MsgFm, peer_id, 0);
    let inner = FpduV::between(FpduKind::MsgMm, peer_id, 0);
    assert(params_bytes(last.params) =~= Seq::<u8>::empty());
    assert(params_bytes(inner.params) =~= Seq::<u8>::empty());
    if rest.len() <= room {
        if rest.len() > 0 {
            lemma_message_len(last, rest);
        }
    } else {
        lemma_message_len(inner, rest.take(room as int));
        lemma_segments_fit(peer_id, rest.skip(room as int), max_entity, crc);
        let plan = spec_segments(peer_id, rest, room);
        let tail = spec_segments(peer_id, rest.skip(room as int), room);
        assert forall|i: int| 0 <= i < plan.len() implies (#[trigger] plan[i]).wire_len()
            + crc_len(crc) <= max_entity by {
            if i > 0 {
                assert(plan[i] == tail[i - 1]);
            }
        }
    }
}

/// Every FPDU of a message fits in an entity, its check bytes with it, wherever one byte of the
/// message does.
pub proof fn law_message_fpdus_fit(
    peer_id: u8,
    file: FileSpecV,
    message: Seq<u8>,
    expects_reply: bool,
    max_entity: usize,
    crc: bool,
)
    requires
        spec_msg(FpduKind::Msg, peer_id, file, expects_reply, None).wire_len() + spec_unit_len(1)
            + crc_len(crc) <= max_entity,
    ensures
        ({
            let plan = message_plan(peer_id, file, message, expects_reply, max_entity, crc);
            forall|i: int|
                0 <= i < plan.len() ==> (#[trigger] plan[i]).wire_len() + crc_len(crc)
                    <= max_entity
        }),
{
    let whole = lemma_message_frame(FpduKind::Msg, peer_id, file, expects_reply);
    let first = lemma_message_frame(FpduKind::MsgDm, peer_id, file, expects_reply);
    assert(spec_msg(FpduKind::Msg, peer_id, file, expects_reply, None) == whole);
    assert(spec_msg(FpduKind::MsgDm, peer_id, file, expects_reply, None) == first);
    assert(whole.params == first.params);
    let room = first_room(peer_id, file, expects_reply, max_entity, crc);
    assert(whole.wire_len() + spec_unit_len(room) + crc_len(crc) <= max_entity);
    if message.len() <= room {
        if message.len() > 0 {
            lemma_message_len(whole, message);
        }
    } else {
        let cut = head_len(peer_id, file, expects_reply, max_entity, crc);
        lemma_message_len(first, message.take(cut as int));
        lemma_segments_fit(peer_id, message.skip(cut as int), max_entity, crc);
    }
}

} // verus!
