//! Whether a partner may write or read a file, where the file is, and where a write starts from.

use crate::builder::{FileSpec, FileSpecV};
use crate::checkpoint::Checkpoint;
use crate::diag::Diagnostic;
use crate::node::handler::{
    check_create, check_overwrite, check_partner, check_select, create_refusal, partner_refusal,
    receive_path, select_refusal, send_path, spec_receive_path, Moment,
};
use crate::node::model::{Partner, PesitServerConfig, TransferRecord, VirtualFile};
use crate::responder::{Refusal, RefusalV};
use crate::text::{filled, joined_path, non_empty, opt_text};
use vstd::prelude::*;

verus! {

/// What a reference leads to.
pub open spec fn held<T>(o: Option<&T>) -> Option<T> {
    match o {
        Some(x) => Some(*x),
        None => None,
    }
}

// ---- F.CREATE ----

/// Why a write is refused before anything is looked up on disk, if it is: the partner is judged
/// before the virtual file.
pub open spec fn write_refusal(
    partner: Option<Partner>,
    vf: Option<VirtualFile>,
    requester: Seq<char>,
    file: FileSpecV,
) -> Option<RefusalV> {
    match partner_refusal(partner, requester, file.file_name, true) {
        Some(why) => Some(why),
        None => create_refusal(vf, file),
    }
}

/// Judge a request to write a file.
pub fn admit_create<'a>(
    partner: Option<&'a Partner>,
    vf: Option<&'a VirtualFile>,
    requester: &str,
    file: &FileSpec,
) -> (r: Result<(&'a Partner, &'a VirtualFile), Refusal>)
    ensures
        match write_refusal(held(partner), held(vf), requester@, file@) {
            Some(why) => r is Err && r->Err_0@ == why,
            None => partner is Some && vf is Some && r == Ok::<(&Partner, &VirtualFile), Refusal>(
                (partner->0, vf->0),
            ),
        },
{
    let p = match check_partner(partner, requester, file.file_name.as_str(), true) {
        Ok(p) => p,
        Err(e) => {
            return Err(e);
        },
    };
    match check_create(vf, file) {
        Ok(v) => Ok((p, v)),
        Err(e) => Err(e),
    }
}

/// Where a file is written: an interrupted transfer goes on with its own file.
pub open spec fn spec_write_path(
    previous: Option<TransferRecord>,
    vf: VirtualFile,
    server: PesitServerConfig,
    requester: Seq<char>,
    file: Seq<char>,
    tid: u32,
    at: Moment,
) -> Seq<char> {
    if previous is Some && previous->0.local_path is Some {
        previous->0.local_path->0@
    } else {
        spec_receive_path(vf, server, requester, file, tid, at)
    }
}

/// Where a file is written.
#[must_use]
pub fn write_path(
    previous: Option<&TransferRecord>,
    vf: &VirtualFile,
    server: &PesitServerConfig,
    requester: &str,
    file: &str,
    tid: u32,
    at: &Moment,
) -> (r: String)
    ensures
        r@ == spec_write_path(held(previous), *vf, *server, requester@, file@, tid, *at),
{
    match previous {
        Some(p) => match &p.local_path {
            Some(path) => path.clone(),
            None => receive_path(vf, server, requester, file, tid, at),
        },
        None => receive_path(vf, server, requester, file, tid, at),
    }
}

/// Connector behind a virtual file.
pub open spec fn connector_of(vf: VirtualFile) -> Option<Seq<char>> {
    non_empty(opt_text(vf.connector))
}

/// Connector behind a virtual file.
#[must_use]
pub fn connector(vf: &VirtualFile) -> (r: Option<&str>)
    ensures
        crate::text::opt_str(r) == connector_of(*vf),
{
    filled(&vf.connector)
}

/// What is on disk when a write begins.
#[derive(Debug, Clone, Copy, PartialEq, Eq)]
pub struct Found {
    /// The write goes on with an interrupted transfer.
    pub resumed: bool,
    /// Last checkpoint of the transfer.
    pub last: Option<Checkpoint>,
    /// The data received before the interruption is there.
    pub part_present: bool,
    /// A complete file of that name is there.
    pub file_present: bool,
}

impl Found {
    /// The checkpoint whose data is there.
    pub open spec fn spec_kept(self) -> Option<Checkpoint> {
        if self.resumed && self.part_present {
            self.last
        } else {
            None
        }
    }

    /// The checkpoint whose data is there.
    #[must_use]
    pub fn kept(&self) -> (r: Option<Checkpoint>)
        ensures
            r == self.spec_kept(),
    {
        if self.resumed && self.part_present {
            self.last
        } else {
            None
        }
    }

    /// Whether the checkpoints of the transfer are forgotten: there is nothing to go on with.
    #[must_use]
    pub fn forgets(&self) -> (r: bool)
        ensures
            r == (self.spec_kept() is None),
    {
        self.kept().is_none()
    }
}

/// Why a write is refused for what is on disk, if it is.
pub open spec fn overwrite_refusal(vf: VirtualFile, path: Seq<char>, found: Found) -> Option<
    RefusalV,
> {
    if !found.resumed && found.file_present && !vf.overwrite {
        Some(RefusalV::told(Diagnostic::file_exists(), path + " already exists"@))
    } else {
        None
    }
}

/// Checkpoint that a write starts from: one whose data is there, unless the file is staged for a
/// connector.
pub open spec fn restart_of(vf: VirtualFile, found: Found) -> Option<Checkpoint> {
    if connector_of(vf) is Some {
        None
    } else {
        found.spec_kept()
    }
}

/// Where a write starts from.
pub fn begin_write(vf: &VirtualFile, path: &str, found: &Found) -> (r: Result<
    Option<Checkpoint>,
    Refusal,
>)
    ensures
        match overwrite_refusal(*vf, path@, *found) {
            Some(why) => r is Err && r->Err_0@ == why,
            None => r == Ok::<Option<Checkpoint>, Refusal>(restart_of(*vf, *found)),
        },
{
    if !found.resumed {
        match check_overwrite(vf, path, found.file_present) {
            Ok(()) => {},
            Err(e) => {
                return Err(e);
            },
        }
    }
    match connector(vf) {
        Some(_) => Ok(None),
        None => Ok(found.kept()),
    }
}

// ---- F.SELECT ----

/// Why a read is refused before anything is looked up on disk, if it is: the partner is judged
/// before the virtual file.
pub open spec fn read_refusal(
    partner: Option<Partner>,
    vf: Option<VirtualFile>,
    requester: Seq<char>,
    file: Seq<char>,
) -> Option<RefusalV> {
    match partner_refusal(partner, requester, file, false) {
        Some(why) => Some(why),
        None => select_refusal(vf, file),
    }
}

/// Judge a request to read a file.
pub fn admit_select<'a>(
    partner: Option<&'a Partner>,
    vf: Option<&'a VirtualFile>,
    requester: &str,
    file: &str,
) -> (r: Result<(&'a Partner, &'a VirtualFile), Refusal>)
    ensures
        match read_refusal(held(partner), held(vf), requester@, file@) {
            Some(why) => r is Err && r->Err_0@ == why,
            None => partner is Some && vf is Some && r == Ok::<(&Partner, &VirtualFile), Refusal>(
                (partner->0, vf->0),
            ),
        },
{
    let p = match check_partner(partner, requester, file, false) {
        Ok(p) => p,
        Err(e) => {
            return Err(e);
        },
    };
    match check_select(vf, file) {
        Ok(v) => Ok((p, v)),
        Err(e) => Err(e),
    }
}

/// Where a file to send comes from.
#[derive(Debug, PartialEq, Eq)]
pub enum ReadFrom {
    /// A connector, by its identifier.
    Connector(String),
    /// A local file.
    File(String),
}

/// Where a file to send comes from.
#[must_use]
pub fn read_from(vf: &VirtualFile, server: &PesitServerConfig) -> (r: ReadFrom)
    ensures
        match connector_of(*vf) {
            Some(id) => r is Connector && r->Connector_0@ == id,
            None => r is File && r->File_0@ == (match non_empty(opt_text(vf.send_file)) {
                Some(p) => p,
                None => joined_path(server.send_directory@, vf.id@),
            }),
        },
{
    match connector(vf) {
        Some(id) => ReadFrom::Connector(id.to_owned()),
        None => ReadFrom::File(send_path(vf, server)),
    }
}

// ---- laws ----

/// A write that is let through comes from a partner that may write that file, goes to an enabled
/// virtual file that takes incoming transfers, and announces no more than the file may hold.
pub proof fn law_admitted_writes_are_allowed(
    partner: Option<Partner>,
    vf: Option<VirtualFile>,
    requester: Seq<char>,
    file: FileSpecV,
)
    requires
        write_refusal(partner, vf, requester, file) is None,
    ensures
        partner is Some && partner->0.access_type.can_write(),
        partner->0.spec_can_access_file(file.file_name),
        vf is Some && vf->0.enabled && vf->0.can_receive(),
        vf->0.max_file_size > 0 ==> file.max_reservation * 1024 <= vf->0.max_file_size,
{
}

/// A read that is let through comes from a partner that may read that file, and is of an enabled
/// virtual file that may be sent.
pub proof fn law_admitted_reads_are_allowed(
    partner: Option<Partner>,
    vf: Option<VirtualFile>,
    requester: Seq<char>,
    file: Seq<char>,
)
    requires
        read_refusal(partner, vf, requester, file) is None,
    ensures
        partner is Some && partner->0.access_type.can_read(),
        partner->0.spec_can_access_file(file),
        vf is Some && vf->0.enabled && vf->0.can_send(),
{
}

/// A write starts behind its beginning only where it goes on with an interrupted transfer whose
/// data is still there, and then from the last checkpoint of that transfer.
pub proof fn law_writes_restart_on_kept_data(vf: VirtualFile, found: Found)
    requires
        restart_of(vf, found) is Some,
    ensures
        found.resumed && found.part_present && restart_of(vf, found) == found.last,
        connector_of(vf) is None,
{
}

/// No file is overwritten without leave: where one is there, a write that begins either may
/// overwrite it or goes on with an interrupted transfer.
pub proof fn law_files_are_kept(vf: VirtualFile, path: Seq<char>, found: Found)
    requires
        overwrite_refusal(vf, path, found) is None,
        found.file_present,
    ensures
        vf.overwrite || found.resumed,
{
}

} // verus!
