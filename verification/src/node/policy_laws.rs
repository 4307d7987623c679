//! What a node lets through and what it refuses, and why: every rule decides in both directions,
//! and a refusal says which rule it comes from.

use crate::builder::FileSpecV;
use crate::diag::Diagnostic;
use crate::node::admission::{
    overwrite_refusal, read_refusal, restart_of, spec_write_path, write_refusal, Found,
};
use crate::node::handler::{
    connect_refusal, create_refusal, name_values, partner_refusal, safe_char, safe_name,
    select_refusal, spec_receive_path, spec_restart_key, Moment,
};
use crate::node::manager::ManagerError;
use crate::node::model::{
    comma, folded, globbed, listed, AccessType, Direction, Partner, PesitServerConfig,
    TransferRecord, VirtualFile,
};
use crate::params::AccessType as PesitAccess;
use crate::responder::ConnectRequest;
use crate::text::{dec, lower, trimmed};
use crate::text_laws::law_numbers_are_written_in_decimal;
use vstd::prelude::*;
use vstd::utf8::encode_utf8;

verus! {

// ---- connections ----

/// Whether a password that was given is the one expected, where one is expected.
pub open spec fn knows_password(expected: Option<String>, given: Seq<char>) -> bool {
    expected is None || expected->0@.len() == 0 || trimmed(given) == expected->0@
}

/// A requester is let in exactly where it is configured and enabled, gives the right passwords, asks
/// for access that it has, and addresses this listener. An unknown requester, one that is not
/// authorised, and one at the wrong listener are told apart.
pub proof fn law_connections_are_judged(
    partner: Option<Partner>,
    server_id: Seq<char>,
    req: ConnectRequest,
)
    ensures
        ({
            let given = match req.password {
                Some(t) => t@,
                None => Seq::empty(),
            };
            let known = partner is Some;
            let p = partner->0;
            let authorised = known && p.enabled && knows_password(p.password, given) && (
            req.preconnect is None || knows_password(
                p.preconnect_password,
                (req.preconnect->0).1@,
            )) && (req.access == PesitAccess::Write ==> p.access_type != AccessType::Read) && (
            req.access == PesitAccess::Read ==> p.access_type != AccessType::Write);
            let addressed = server_id.len() == 0 || req.server@.len() == 0 || lower(req.server@)
                == lower(server_id);
            &&& connect_refusal(partner, server_id, req) is None <==> authorised && addressed
            &&& !known ==> connect_refusal(partner, server_id, req)->0.diag
                == Diagnostic::caller_unknown()
            &&& known && !authorised ==> connect_refusal(partner, server_id, req)->0.diag
                == Diagnostic::caller_not_authorised()
            &&& authorised && !addressed ==> connect_refusal(partner, server_id, req)->0.diag
                == Diagnostic::remote_congestion()
        }),
{
}

// ---- files ----

/// A partner may transfer a file exactly where it is configured, may go that way, and has the file
/// on its list. What it may not do is refused as such, and an unknown one as unknown.
pub proof fn law_partners_are_judged(
    partner: Option<Partner>,
    requester: Seq<char>,
    file: Seq<char>,
    write: bool,
)
    ensures
        ({
            let p = partner->0;
            let free = p.allowed_files is None || trimmed(p.allowed_files->0@).len() == 0;
            let may = partner is Some && (if write {
                p.access_type == AccessType::Write || p.access_type == AccessType::Both
            } else {
                p.access_type == AccessType::Read || p.access_type == AccessType::Both
            }) && (free || listed(p.allowed_files->0@, file));
            &&& partner_refusal(partner, requester, file, write) is None <==> may
            &&& partner is None ==> partner_refusal(partner, requester, file, write)->0.diag
                == Diagnostic::caller_unknown()
            &&& partner is Some && !may ==> partner_refusal(partner, requester, file, write)->0.diag
                == Diagnostic::transfer_refused()
        }),
{
}

/// A virtual file takes a transfer exactly where it is configured and enabled, goes that way, and
/// has room for what is announced; a limit of zero is none.
pub proof fn law_virtual_files_are_judged(
    vf: Option<VirtualFile>,
    file: FileSpecV,
    name: Seq<char>,
)
    ensures
        ({
            let v = vf->0;
            let takes = vf is Some && v.enabled && (v.direction == Direction::Receive
                || v.direction == Direction::Both);
            let room = v.max_file_size == 0 || file.max_reservation * 1024 <= v.max_file_size;
            &&& create_refusal(vf, file) is None <==> takes && room
            &&& !takes ==> create_refusal(vf, file)->0.diag == Diagnostic::transfer_refused()
            &&& takes && !room ==> create_refusal(vf, file)->0.diag == Diagnostic::disk_quota()
        }),
        ({
            let v = vf->0;
            let gives = vf is Some && v.enabled && (v.direction == Direction::Send || v.direction
                == Direction::Both);
            &&& select_refusal(vf, name) is None <==> gives
            &&& vf is None ==> select_refusal(vf, name)->0.diag == Diagnostic::file_not_found()
            &&& vf is Some && !gives ==> select_refusal(vf, name)->0.diag
                == Diagnostic::transfer_refused()
        }),
{
}

/// A request is let through exactly where both the partner and the virtual file allow it, and the
/// partner is judged first.
pub proof fn law_both_rules_are_asked(
    partner: Option<Partner>,
    vf: Option<VirtualFile>,
    requester: Seq<char>,
    file: FileSpecV,
)
    ensures
        write_refusal(partner, vf, requester, file) is None <==> partner_refusal(
            partner,
            requester,
            file.file_name,
            true,
        ) is None && create_refusal(vf, file) is None,
        read_refusal(partner, vf, requester, file.file_name) is None <==> partner_refusal(
            partner,
            requester,
            file.file_name,
            false,
        ) is None && select_refusal(vf, file.file_name) is None,
        partner_refusal(partner, requester, file.file_name, true) is Some ==> write_refusal(
            partner,
            vf,
            requester,
            file,
        ) == partner_refusal(partner, requester, file.file_name, true),
        partner_refusal(partner, requester, file.file_name, false) is Some ==> read_refusal(
            partner,
            vf,
            requester,
            file.file_name,
        ) == partner_refusal(partner, requester, file.file_name, false),
{
}

/// A file that is there is only refused to a write that neither goes on with an interrupted transfer
/// nor may overwrite, and then as one that exists.
pub proof fn law_existing_files_are_protected(vf: VirtualFile, path: Seq<char>, found: Found)
    ensures
        overwrite_refusal(vf, path, found) is Some <==> found.file_present && !found.resumed
            && !vf.overwrite,
        overwrite_refusal(vf, path, found) matches Some(why) ==> why.diag
            == Diagnostic::file_exists(),
{
}

/// A write resumes exactly where it goes on with an interrupted transfer, its data is still there,
/// and the file is not staged for a connector; then from the last checkpoint. Else it starts at
/// the beginning.
pub proof fn law_interrupted_writes_resume(vf: VirtualFile, found: Found)
    ensures
        ({
            let staged = vf.connector is Some && vf.connector->0@.len() > 0;
            &&& found.resumed && found.part_present && !staged ==> restart_of(vf, found)
                == found.last
            &&& !(found.resumed && found.part_present) || staged ==> restart_of(vf, found) is None
        }),
{
}

/// An interrupted transfer goes on with the file that it has written before.
pub proof fn law_resumed_writes_keep_their_file(
    previous: TransferRecord,
    vf: VirtualFile,
    server: PesitServerConfig,
    requester: Seq<char>,
    file: Seq<char>,
    tid: u32,
    at: Moment,
)
    ensures
        previous.local_path matches Some(p) ==> spec_write_path(
            Some(previous),
            vf,
            server,
            requester,
            file,
            tid,
            at,
        ) == p@,
        previous.local_path is None ==> spec_write_path(
            Some(previous),
            vf,
            server,
            requester,
            file,
            tid,
            at,
        ) == spec_receive_path(vf, server, requester, file, tid, at),
        spec_write_path(None, vf, server, requester, file, tid, at) == spec_receive_path(
            vf,
            server,
            requester,
            file,
            tid,
            at,
        ),
{
}

// ---- patterns ----

/// A pattern without wildcards matches exactly the texts that are the same up to the case of ASCII
/// letters; a `?` in it matches any one byte.
pub proof fn law_patterns_without_star(p: Seq<u8>, t: Seq<u8>)
    requires
        forall|i: int| 0 <= i < p.len() ==> #[trigger] p[i] != 0x2a,
    ensures
        globbed(p, t) <==> p.len() == t.len() && forall|i: int|
            0 <= i < p.len() ==> (#[trigger] p[i] == 0x3f || folded(p[i]) == folded(t[i])),
    decreases p.len(),
{
    if p.len() > 0 && t.len() > 0 {
        let q = p.skip(1);
        let u = t.skip(1);
        assert forall|i: int| 0 <= i < q.len() implies #[trigger] q[i] != 0x2a by {
            assert(q[i] == p[i + 1]);
        }
        law_patterns_without_star(q, u);
        if globbed(p, t) {
            assert forall|i: int| 0 <= i < p.len() implies (#[trigger] p[i] == 0x3f || folded(p[i])
                == folded(t[i])) by {
                if i > 0 {
                    assert(q[i - 1] == p[i] && u[i - 1] == t[i]);
                }
            }
        }
        if p.len() == t.len() && forall|i: int|
            0 <= i < p.len() ==> (#[trigger] p[i] == 0x3f || folded(p[i]) == folded(t[i])) {
            assert(p[0] == 0x3f || folded(p[0]) == folded(t[0]));
            assert forall|i: int| 0 <= i < q.len() implies (#[trigger] q[i] == 0x3f || folded(q[i])
                == folded(u[i])) by {
                assert(q[i] == p[i + 1] && u[i] == t[i + 1]);
            }
        }
    }
}

/// A `*` stands for any run of bytes, the empty one included.
pub proof fn law_star_stands_for_any_run(p: Seq<u8>, t: Seq<u8>)
    ensures
        globbed(seq![0x2au8] + p, t) <==> exists|n: int|
            0 <= n <= t.len() && globbed(p, #[trigger] t.skip(n)),
    decreases t.len(),
{
    let s = seq![0x2au8] + p;
    assert(s.skip(1) =~= p);
    assert(t.skip(0) =~= t);
    if t.len() > 0 {
        let u = t.skip(1);
        law_star_stands_for_any_run(p, u);
        if globbed(s, t) && !globbed(p, t) {
            let n = choose|n: int| 0 <= n <= u.len() && globbed(p, #[trigger] u.skip(n));
            assert(u.skip(n) =~= t.skip(n + 1));
        }
        if exists|n: int| 0 <= n <= t.len() && globbed(p, #[trigger] t.skip(n)) {
            let n = choose|n: int| 0 <= n <= t.len() && globbed(p, #[trigger] t.skip(n));
            if n > 0 {
                assert(u.skip(n - 1) =~= t.skip(n));
            }
        }
    } else if exists|n: int| 0 <= n <= t.len() && globbed(p, #[trigger] t.skip(n)) {
        let n = choose|n: int| 0 <= n <= t.len() && globbed(p, #[trigger] t.skip(n));
        assert(n == 0);
    }
}

/// Bytes are the same up to case exactly where they are the same, or are the two forms of one ASCII
/// letter.
pub proof fn law_bytes_fold_by_letter(a: u8, b: u8)
    ensures
        folded(a) == folded(b) <==> a == b || (0x41 <= a <= 0x5a && b == a + 0x20) || (0x41 <= b
            <= 0x5a && a == b + 0x20),
{
}

pub(crate) proof fn lemma_comma_of(p: Seq<char>, rest: Seq<char>)
    requires
        forall|i: int| 0 <= i < p.len() ==> p[i] != ',',
    ensures
        comma(p) == p.len(),
        comma(p + seq![','] + rest) == p.len(),
    decreases p.len(),
{
    if p.len() > 0 {
        let q = p.skip(1);
        assert forall|i: int| 0 <= i < q.len() implies q[i] != ',' by {
            assert(q[i] == p[i + 1]);
        }
        lemma_comma_of(q, rest);
        assert((p + seq![','] + rest).skip(1) =~= q + seq![','] + rest);
    }
}

/// A file is on a list exactly where one of the patterns between its commas matches it, blanks
/// around the pattern left out; the order of the patterns does not matter.
pub proof fn law_lists_hold_patterns(p: Seq<char>, rest: Seq<char>, file: Seq<char>)
    requires
        forall|i: int| 0 <= i < p.len() ==> p[i] != ',',
    ensures
        listed(p, file) <==> globbed(encode_utf8(trimmed(p)), encode_utf8(file)),
        listed(p + seq![','] + rest, file) <==> globbed(
            encode_utf8(trimmed(p)),
            encode_utf8(file),
        ) || listed(rest, file),
{
    lemma_comma_of(p, rest);
    let all = p + seq![','] + rest;
    assert(p.take(p.len() as int) =~= p);
    assert(all.take(p.len() as int) =~= p);
    assert(all.skip(p.len() as int + 1) =~= rest);
}

// ---- names ----

/// A safe name has the length of the name and its safe characters; every other one is replaced.
pub proof fn law_safe_names_keep_what_is_safe(t: Seq<char>, dots: bool)
    ensures
        safe_name(t, dots).len() == t.len(),
        forall|i: int|
            0 <= i < t.len() ==> {
                let c = #[trigger] t[i];
                let safe = ('0' <= c && c <= '9') || ('a' <= c && c <= 'z') || ('A' <= c && c
                    <= 'Z') || c == '_' || c == '-' || (dots && c == '.');
                safe_name(t, dots)[i] == if safe {
                    c
                } else {
                    '_'
                }
            },
        safe_name(safe_name(t, dots), dots) == safe_name(t, dots),
{
    assert(safe_name(safe_name(t, dots), dots) =~= safe_name(t, dots));
}

/// Transfers of one file by one requester have different keys, unless they have one identifier; the
/// same transfer has the same key whenever it is asked for.
pub proof fn law_transfers_have_keys_of_their_own(
    requester: Seq<char>,
    file: Seq<char>,
    a: u32,
    b: u32,
)
    ensures
        spec_restart_key(requester, file, a) == spec_restart_key(requester, file, b) <==> a == b,
{
    let head = requester + "_"@ + file + "_"@;
    let x = dec(a as nat);
    let y = dec(b as nat);
    law_numbers_are_written_in_decimal(a as nat);
    law_numbers_are_written_in_decimal(b as nat);
    let ka = spec_restart_key(requester, file, a);
    let kb = spec_restart_key(requester, file, b);
    if ka == kb {
        assert(ka.len() == head.len() + x.len() && kb.len() == head.len() + y.len());
        assert forall|i: int| 0 <= i < x.len() implies x[i] == y[i] by {
            let k = head.len() + i;
            assert((head + x)[k] == x[i] && (head + y)[k] == y[i]);
            assert(ka[k] == safe_char(x[i], false) && kb[k] == safe_char(y[i], false));
        }
        assert(x =~= y);
    }
}

/// A received file goes into the directory of its virtual file where that has one, else into that
/// of the listener, unless its name is a path of its own.
pub proof fn law_received_files_have_a_directory(
    vf: VirtualFile,
    server: PesitServerConfig,
    requester: Seq<char>,
    file: Seq<char>,
    tid: u32,
    at: Moment,
)
    ensures
        ({
            let own = vf.receive_directory is Some && vf.receive_directory->0@.len() > 0;
            let dir = if own {
                vf.receive_directory->0@
            } else {
                server.receive_directory@
            };
            let path = spec_receive_path(vf, server, requester, file, tid, at);
            path.len() > 0 && path[0] == '/' || dir.is_prefix_of(path)
        }),
{
    let own = vf.receive_directory is Some && vf.receive_directory->0@.len() > 0;
    let dir = if own {
        vf.receive_directory->0@
    } else {
        server.receive_directory@
    };
    let name = crate::service::http::resolved(
        if vf.receive_filename_pattern@.len() == 0 {
            crate::node::handler::DEFAULT_PATTERN@
        } else {
            vf.receive_filename_pattern@
        },
        name_values(file, tid, at, requester, server.server_id@),
    );
    crate::text_laws::law_paths_stand_behind_their_directory(dir, name);
}

/// A name pattern can use the file, the identifier of the transfer, the moment, the partner and the
/// listener, each under its own name.
pub proof fn law_names_can_use_the_transfer(
    file: Seq<char>,
    tid: u32,
    at: Moment,
    requester: Seq<char>,
    server_id: Seq<char>,
)
    ensures
        ({
            let v = name_values(file, tid, at, requester, server_id);
            &&& v.contains(("virtualFile"@, file))
            &&& v.contains(("transferId"@, dec(tid as nat)))
            &&& v.contains(("timestamp"@, at.timestamp@))
            &&& v.contains(("date"@, at.date@))
            &&& v.contains(("time"@, at.time@))
            &&& v.contains(("partnerId"@, requester))
            &&& v.contains(("serverId"@, server_id))
            &&& v.len() == 7
        }),
{
    let v = name_values(file, tid, at, requester, server_id);
    assert(v[0] == ("virtualFile"@, file));
    assert(v[1] == ("transferId"@, dec(tid as nat)));
    assert(v[2] == ("timestamp"@, at.timestamp@));
    assert(v[3] == ("date"@, at.date@));
    assert(v[4] == ("time"@, at.time@));
    assert(v[5] == ("partnerId"@, requester));
    assert(v[6] == ("serverId"@, server_id));
}

/// A listener that is unknown is not found, one in the wrong state is a conflict, and anything else
/// that goes wrong is an error of the node.
pub proof fn law_listener_errors_have_their_status(e: ManagerError)
    ensures
        e is NotFound ==> e.spec_status() == 404,
        e is AlreadyRunning || e is NotRunning ==> e.spec_status() == 409,
        !(e is NotFound || e is AlreadyRunning || e is NotRunning) ==> e.spec_status() == 500,
{
}

} // verus!
