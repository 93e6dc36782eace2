//! Giving up the rights of the superuser.
//!
//! The keys are taken with the rights of the superuser. Everything that is
//! written afterwards is to belong to the user who called, and what the tool's
//! directory holds already is handed over.

use vstd::prelude::*;

use crate::bytes::{matches_at, occurs_at};
use crate::media_search::Place;
use crate::paths::PathParts;
use crate::text::{decimal, decimal_text, law_parsed_u32, parse_u32, parsed_u32, zeros};

verus! {

// ---------------------------------------------------------------------------
// Who takes over
// ---------------------------------------------------------------------------

/// The user and the group that take over: those that `sudo` names, where the
/// superuser runs the program for somebody else.
pub open spec fn calling_user(
    euid: u32,
    sudo_uid: Option<Seq<char>>,
    sudo_gid: Option<Seq<char>>,
) -> Option<(u32, u32)> {
    if euid != 0 {
        None
    } else {
        match (sudo_uid, sudo_gid) {
            (Some(uid), Some(gid)) => match (parsed_u32(uid), parsed_u32(gid)) {
                (Some(uid), Some(gid)) => if uid != 0 {
                    Some((uid, gid))
                } else {
                    None
                },
                _ => None,
            },
            _ => None,
        }
    }
}

/// What an optional text says.
pub open spec fn optional_text(text: Option<&str>) -> Option<Seq<char>> {
    match text {
        Some(text) => Some(text@),
        None => None,
    }
}

/// Finds out who takes over.
pub fn caller_of_sudo(euid: u32, sudo_uid: Option<&str>, sudo_gid: Option<&str>) -> (caller: Option<
    (u32, u32),
>)
    ensures
        caller == calling_user(euid, optional_text(sudo_uid), optional_text(sudo_gid)),
{
    if euid != 0 {
        return None;
    }
    let uid = match sudo_uid {
        Some(text) => parse_u32(text),
        None => None,
    };
    let gid = match sudo_gid {
        Some(text) => parse_u32(text),
        None => None,
    };
    match (uid, gid) {
        (Some(uid), Some(gid)) => if uid != 0 {
            Some((uid, gid))
        } else {
            None
        },
        _ => None,
    }
}

/// A call that must not fail.
#[derive(Debug, Clone, Copy, PartialEq, Eq, Structural)]
pub enum PrivilegeCall {
    SetGid,
    SetUid,
}

impl PrivilegeCall {
    /// The call's name.
    pub open spec fn name(self) -> Seq<char> {
        match self {
            PrivilegeCall::SetGid => "setgid"@,
            PrivilegeCall::SetUid => "setuid"@,
        }
    }

    /// The call's name.
    pub fn as_str(self) -> (name: &'static str)
        ensures
            name@ == self.name(),
    {
        match self {
            PrivilegeCall::SetGid => "setgid",
            PrivilegeCall::SetUid => "setuid",
        }
    }
}

/// Where the way to fewer rights stands, for the user `uid` of the group `gid`.
#[derive(Debug, Clone, Copy, PartialEq, Eq, Structural)]
pub enum PrivilegeStage {
    /// The tool's directory is to be handed over, with all that it holds.
    HandOver { uid: u32, gid: u32 },
    /// The tool's directory is to be closed to everybody else.
    Tighten { uid: u32, gid: u32 },
    /// The mask is to be set, which closes files that are made from now on to
    /// everybody else.
    Umask { mask: u32, uid: u32, gid: u32 },
    /// The group is to be taken on.
    SetGid { uid: u32, gid: u32 },
    /// The user is to be taken on.
    SetUid { uid: u32 },
    /// The rights are given up, or there was nobody to give them to.
    Done,
    /// The group or the user could not be taken on.
    Failed { call: PrivilegeCall, id: u32 },
}

/// Where the way starts. Without a caller there is none.
pub open spec fn first_privilege_stage(caller: Option<(u32, u32)>, base_exists: bool) -> PrivilegeStage {
    match caller {
        None => PrivilegeStage::Done,
        Some((uid, gid)) => if base_exists {
            PrivilegeStage::HandOver { uid, gid }
        } else {
            PrivilegeStage::Umask { mask: 0o077, uid, gid }
        },
    }
}

/// How the outcome of a step moves the way on. Only the superuser can hand files
/// over and change the group, so the user comes last. The group and the user must
/// be taken on; any other failure is passed over.
pub open spec fn next_privilege_stage(stage: PrivilegeStage, ok: bool) -> PrivilegeStage {
    match stage {
        PrivilegeStage::HandOver { uid, gid } => PrivilegeStage::Tighten { uid, gid },
        PrivilegeStage::Tighten { uid, gid } => PrivilegeStage::Umask { mask: 0o077, uid, gid },
        PrivilegeStage::Umask { uid, gid, .. } => PrivilegeStage::SetGid { uid, gid },
        PrivilegeStage::SetGid { uid, gid } => if ok {
            PrivilegeStage::SetUid { uid }
        } else {
            PrivilegeStage::Failed { call: PrivilegeCall::SetGid, id: gid }
        },
        PrivilegeStage::SetUid { uid } => if ok {
            PrivilegeStage::Done
        } else {
            PrivilegeStage::Failed { call: PrivilegeCall::SetUid, id: uid }
        },
        stage => stage,
    }
}

/// Starts on the way to fewer rights.
pub fn drop_privileges_if_sudo(caller: Option<(u32, u32)>, base_exists: bool) -> (stage:
    PrivilegeStage)
    ensures
        stage == first_privilege_stage(caller, base_exists),
{
    match caller {
        None => PrivilegeStage::Done,
        Some((uid, gid)) => if base_exists {
            PrivilegeStage::HandOver { uid, gid }
        } else {
            PrivilegeStage::Umask { mask: 0o077, uid, gid }
        },
    }
}

impl PrivilegeStage {
    /// Takes the outcome of the step.
    pub fn answer(self, ok: bool) -> (next: PrivilegeStage)
        ensures
            next == next_privilege_stage(self, ok),
    {
        match self {
            PrivilegeStage::HandOver { uid, gid } => PrivilegeStage::Tighten { uid, gid },
            PrivilegeStage::Tighten { uid, gid } => PrivilegeStage::Umask { mask: 0o077, uid, gid },
            PrivilegeStage::Umask { uid, gid, .. } => PrivilegeStage::SetGid { uid, gid },
            PrivilegeStage::SetGid { uid, gid } => if ok {
                PrivilegeStage::SetUid { uid }
            } else {
                PrivilegeStage::Failed { call: PrivilegeCall::SetGid, id: gid }
            },
            PrivilegeStage::SetUid { uid } => if ok {
                PrivilegeStage::Done
            } else {
                PrivilegeStage::Failed { call: PrivilegeCall::SetUid, id: uid }
            },
            stage => stage,
        }
    }
}

/// Says that the group or the user could not be taken on.
pub fn privilege_message(call: PrivilegeCall, id: u32, error: &str) -> (message: String)
    ensures
        message@ == call.name() + "("@ + decimal(id as nat) + ") 失败: "@ + error@,
{
    let mut message = call.as_str().to_owned();
    message.append("(");
    message.append(decimal_text(id as u128).as_str());
    message.append(") 失败: ");
    message.append(error);
    message
}

/// The user is taken on only right behind a group that was taken on: never when
/// the group failed.
pub proof fn law_no_user_behind_a_failed_group(stage: PrivilegeStage, ok: bool)
    ensures
        next_privilege_stage(stage, ok) is SetUid && !(stage is SetUid) ==> stage is SetGid && ok,
        stage is SetGid && !ok ==> next_privilege_stage(stage, ok) is Failed,
        stage is Failed || stage is Done ==> next_privilege_stage(stage, ok) == stage,
{
}

/// The way behind `n` outcomes: where it stands, and the steps that were taken, in
/// order.
pub open spec fn run_privileges(
    outcome: spec_fn(PrivilegeStage) -> bool,
    stage: PrivilegeStage,
    n: nat,
) -> (PrivilegeStage, Seq<PrivilegeStage>)
    decreases n,
{
    if n == 0 || stage is Done || stage is Failed {
        (stage, Seq::empty())
    } else {
        let rest = run_privileges(
            outcome,
            next_privilege_stage(stage, outcome(stage)),
            (n - 1) as nat,
        );
        (rest.0, seq![stage] + rest.1)
    }
}

/// The steps up to the group, in order.
pub open spec fn steps_to_the_group(uid: u32, gid: u32, base_exists: bool) -> Seq<PrivilegeStage> {
    (if base_exists {
        seq![PrivilegeStage::HandOver { uid, gid }, PrivilegeStage::Tighten { uid, gid }]
    } else {
        Seq::empty()
    }) + seq![
        PrivilegeStage::Umask { mask: 0o077, uid, gid },
        PrivilegeStage::SetGid { uid, gid },
    ]
}

/// Unless the superuser runs the program for another user, nothing is done. Else
/// the rights are given up exactly where the group and behind it the user are
/// taken on. Where the group fails, the way ends with that error, and the user is
/// never changed.
pub proof fn law_privileges(
    outcome: spec_fn(PrivilegeStage) -> bool,
    euid: u32,
    sudo_uid: Option<Seq<char>>,
    sudo_gid: Option<Seq<char>>,
    base_exists: bool,
    n: nat,
)
    requires
        n >= 5,
    ensures
        ({
            let caller = calling_user(euid, sudo_uid, sudo_gid);
            let (end, steps) = run_privileges(
                outcome,
                first_privilege_stage(caller, base_exists),
                n,
            );
            match caller {
                None => end == PrivilegeStage::Done && steps.len() == 0,
                Some((uid, gid)) => {
                    let group = PrivilegeStage::SetGid { uid, gid };
                    let user = PrivilegeStage::SetUid { uid };
                    let first = steps_to_the_group(uid, gid, base_exists);
                    &&& euid == 0 && uid != 0
                    &&& !outcome(group) ==> steps == first && end == (PrivilegeStage::Failed {
                        call: PrivilegeCall::SetGid,
                        id: gid,
                    })
                    &&& outcome(group) ==> steps == first.push(user) && end == if outcome(user) {
                        PrivilegeStage::Done
                    } else {
                        PrivilegeStage::Failed { call: PrivilegeCall::SetUid, id: uid }
                    }
                },
            }
        }),
{
    reveal_with_fuel(run_privileges, 7);
    if let Some((uid, gid)) = calling_user(euid, sudo_uid, sudo_gid) {
        let group = PrivilegeStage::SetGid { uid, gid };
        let user = PrivilegeStage::SetUid { uid };
        let first = steps_to_the_group(uid, gid, base_exists);
        let steps = run_privileges(
            outcome,
            first_privilege_stage(Some((uid, gid)), base_exists),
            n,
        ).1;
        if outcome(group) {
            assert(steps =~= first.push(user));
        } else {
            assert(steps =~= first);
        }
    }
}

// ---------------------------------------------------------------------------
// Tightening
// ---------------------------------------------------------------------------

/// `.json`.
pub open spec fn json_extension() -> Seq<u8> {
    seq![0x2eu8, 0x6a, 0x73, 0x6f, 0x6e]
}

/// A name has the extension `json`: that stands behind the last dot, which is not
/// the first character.
pub open spec fn is_json_name(name: Seq<u8>) -> bool {
    name.len() > 5 && occurs_at(name, json_extension(), name.len() - 5)
}

/// Tells whether a file of the tool's directory may hold keys and is to be
/// readable by its owner alone.
pub fn tighten_perms(name: &[u8]) -> (tighten: bool)
    ensures
        tighten == is_json_name(name@),
{
    let extension: [u8; 5] = [0x2e, 0x6a, 0x73, 0x6f, 0x6e];
    assert(extension@ =~= json_extension());
    name.len() > 5 && matches_at(name, extension.as_slice(), name.len() - 5)
}

// ---------------------------------------------------------------------------
// Handing a tree over
// ---------------------------------------------------------------------------

/// What is left to be done.
#[derive(Debug)]
pub enum OwnTask {
    /// Hand over what is at the path, and what it holds.
    Visit(PathParts),
    /// Stop: a directory could not be read to its end.
    Stop,
}

/// What is left to be done.
pub enum OwnTaskView {
    Visit(Place),
    Stop,
}

impl View for OwnTask {
    type V = OwnTaskView;

    open spec fn view(&self) -> OwnTaskView {
        match self {
            OwnTask::Visit(path) => OwnTaskView::Visit(path@),
            OwnTask::Stop => OwnTaskView::Stop,
        }
    }
}

/// What several tasks say.
pub open spec fn tasks_view(tasks: Seq<OwnTask>) -> Seq<OwnTaskView> {
    tasks.map_values(|t: OwnTask| t@)
}

/// Where the walk through a tree stands. What is left is done from its end.
#[derive(Debug)]
pub enum OwnStage {
    /// The path is to be handed over.
    Own { path: PathParts, left: Vec<OwnTask> },
    /// Is the path a directory? Links are not followed.
    Look { path: PathParts, left: Vec<OwnTask> },
    /// What does the directory hold?
    List { path: PathParts, left: Vec<OwnTask> },
    /// The walk is over, and went well or did not.
    Done(bool),
}

/// Where the walk through a tree stands.
pub enum OwnStageView {
    Own { path: Place, left: Seq<OwnTaskView> },
    Look { path: Place, left: Seq<OwnTaskView> },
    List { path: Place, left: Seq<OwnTaskView> },
    Done(bool),
}

impl View for OwnStage {
    type V = OwnStageView;

    open spec fn view(&self) -> OwnStageView {
        match self {
            OwnStage::Own { path, left } => OwnStageView::Own {
                path: path@,
                left: tasks_view(left@),
            },
            OwnStage::Look { path, left } => OwnStageView::Look {
                path: path@,
                left: tasks_view(left@),
            },
            OwnStage::List { path, left } => OwnStageView::List {
                path: path@,
                left: tasks_view(left@),
            },
            OwnStage::Done(well) => OwnStageView::Done(*well),
        }
    }
}

/// What a directory holds, as far as it could be read.
#[derive(Debug)]
pub struct Listing {
    pub names: Vec<Vec<u8>>,
    /// There may be more, which could not be read.
    pub cut: bool,
}

/// What a directory holds, as far as it could be read.
pub struct ListingView {
    pub names: Seq<Seq<u8>>,
    pub cut: bool,
}

impl View for Listing {
    type V = ListingView;

    open spec fn view(&self) -> ListingView {
        ListingView { names: self.names@.map_values(|n: Vec<u8>| n@), cut: self.cut }
    }
}

/// An answer of the disk.
#[derive(Debug)]
pub enum OwnReply {
    /// The path is handed over, or could not be.
    Owned(bool),
    /// `None` where it cannot be told.
    IsDir(Option<bool>),
    /// `None` where the directory cannot be read.
    Listed(Option<Listing>),
}

/// An answer of the disk.
pub enum OwnReplyView {
    Owned(bool),
    IsDir(Option<bool>),
    Listed(Option<ListingView>),
}

impl View for OwnReply {
    type V = OwnReplyView;

    open spec fn view(&self) -> OwnReplyView {
        match self {
            OwnReply::Owned(ok) => OwnReplyView::Owned(*ok),
            OwnReply::IsDir(is_dir) => OwnReplyView::IsDir(*is_dir),
            OwnReply::Listed(None) => OwnReplyView::Listed(None),
            OwnReply::Listed(Some(listing)) => OwnReplyView::Listed(Some(listing@)),
        }
    }
}

/// The visits of what a directory holds, the last name first, so that the first
/// one is visited first.
pub open spec fn visits(dir: Place, names: Seq<Seq<u8>>) -> Seq<OwnTaskView> {
    names.reverse().map_values(|name: Seq<u8>| OwnTaskView::Visit(dir.push(name)))
}

/// What is to be done for a directory.
pub open spec fn dir_tasks(dir: Place, listing: ListingView) -> Seq<OwnTaskView> {
    if listing.cut {
        seq![OwnTaskView::Stop] + visits(dir, listing.names)
    } else {
        visits(dir, listing.names)
    }
}

/// Goes on with the last of what is left.
pub open spec fn own_next(left: Seq<OwnTaskView>) -> OwnStageView {
    if left.len() == 0 {
        OwnStageView::Done(true)
    } else {
        match left.last() {
            OwnTaskView::Visit(path) => OwnStageView::Own { path, left: left.drop_last() },
            OwnTaskView::Stop => OwnStageView::Done(false),
        }
    }
}

/// How an answer moves the walk on. An answer to another question does not.
pub open spec fn next_own_stage(stage: OwnStageView, reply: OwnReplyView) -> OwnStageView {
    match (stage, reply) {
        (OwnStageView::Own { path, left }, OwnReplyView::Owned(ok)) => if ok {
            OwnStageView::Look { path, left }
        } else {
            OwnStageView::Done(false)
        },
        (OwnStageView::Look { path, left }, OwnReplyView::IsDir(is_dir)) => match is_dir {
            Some(true) => OwnStageView::List { path, left },
            Some(false) => own_next(left),
            None => OwnStageView::Done(false),
        },
        (OwnStageView::List { path, left }, OwnReplyView::Listed(listing)) => match listing {
            Some(listing) => own_next(left + dir_tasks(path, listing)),
            None => OwnStageView::Done(false),
        },
        (stage, _) => stage,
    }
}

/// Goes on with the last of what is left.
fn stage_for_tasks(left: Vec<OwnTask>) -> (stage: OwnStage)
    ensures
        stage@ == own_next(tasks_view(left@)),
{
    let ghost before = left@;
    let mut left = left;
    match left.pop() {
        None => OwnStage::Done(true),
        Some(OwnTask::Visit(path)) => {
            assert(tasks_view(left@) =~= tasks_view(before).drop_last());
            assert(tasks_view(before).last() == OwnTaskView::Visit(path@));
            OwnStage::Own { path, left }
        },
        Some(OwnTask::Stop) => {
            assert(tasks_view(before).last() == OwnTaskView::Stop);
            OwnStage::Done(false)
        },
    }
}

/// Starts to hand a directory over.
pub fn chown_recursive() -> (stage: OwnStage)
    ensures
        stage@ == (OwnStageView::Own { path: Seq::empty(), left: Seq::empty() }),
{
    let left: Vec<OwnTask> = Vec::new();
    assert(tasks_view(left@) =~= Seq::empty());
    OwnStage::Own { path: PathParts::here(), left }
}

impl OwnStage {
    /// Takes the answer of the disk.
    pub fn answer(self, reply: OwnReply) -> (next: OwnStage)
        ensures
            next@ == next_own_stage(self@, reply@),
    {
        match (self, reply) {
            (OwnStage::Own { path, left }, OwnReply::Owned(ok)) => if ok {
                OwnStage::Look { path, left }
            } else {
                OwnStage::Done(false)
            },
            (OwnStage::Look { path, left }, OwnReply::IsDir(is_dir)) => match is_dir {
                Some(true) => OwnStage::List { path, left },
                Some(false) => stage_for_tasks(left),
                None => OwnStage::Done(false),
            },
            (OwnStage::List { path, left }, OwnReply::Listed(listing)) => match listing {
                Some(listing) => {
                    let mut left = left;
                    push_dir_tasks(&mut left, &path, &listing);
                    stage_for_tasks(left)
                },
                None => OwnStage::Done(false),
            },
            (stage, _) => stage,
        }
    }
}

/// Adds what is to be done for a directory.
fn push_dir_tasks(left: &mut Vec<OwnTask>, dir: &PathParts, listing: &Listing)
    ensures
        tasks_view(final(left)@) == tasks_view(old(left)@) + dir_tasks(dir@, listing@),
{
    let ghost first = tasks_view(left@);
    let ghost wanted = visits(dir@, listing@.names);
    if listing.cut {
        left.push(OwnTask::Stop);
        assert(tasks_view(left@) =~= first + seq![OwnTaskView::Stop]);
    }
    let ghost before = tasks_view(left@);
    let n: usize = listing.names.len();
    let mut i: usize = n;
    assert(before + wanted.take(0) =~= before);
    while i > 0
        invariant
            i <= n,
            n == listing.names@.len(),
            wanted == visits(dir@, listing@.names),
            wanted.len() == n,
            tasks_view(left@) == before + wanted.take(n - i),
        decreases i,
    {
        i -= 1;
        let path = dir.join_bytes(listing.names[i].as_slice());
        let ghost so_far = left@;
        left.push(OwnTask::Visit(path));
        assert(wanted[n - 1 - i] == OwnTaskView::Visit(path@));
        assert(tasks_view(left@) =~= tasks_view(so_far).push(OwnTaskView::Visit(path@)));
        assert(before + wanted.take(n - i) =~= (before + wanted.take(n - i - 1)).push(
            OwnTaskView::Visit(path@),
        ));
    }
    assert(wanted.take(wanted.len() as int) =~= wanted);
    assert(tasks_view(left@) =~= first + dir_tasks(dir@, listing@));
}

/// What a disk says while a tree is handed over.
pub struct OwnDisk {
    pub owned: spec_fn(Place) -> bool,
    pub is_dir: spec_fn(Place) -> Option<bool>,
    pub listing: spec_fn(Place) -> Option<ListingView>,
}

/// The answer of a disk.
pub open spec fn own_reply(disk: OwnDisk, stage: OwnStageView) -> OwnReplyView {
    match stage {
        OwnStageView::Own { path, .. } => OwnReplyView::Owned((disk.owned)(path)),
        OwnStageView::Look { path, .. } => OwnReplyView::IsDir((disk.is_dir)(path)),
        OwnStageView::List { path, .. } => OwnReplyView::Listed((disk.listing)(path)),
        OwnStageView::Done(_) => OwnReplyView::Owned(false),
    }
}

/// A walk that is answered `n` times: where it stands, and the paths that were
/// handed over, in order.
pub open spec fn run_own(disk: OwnDisk, stage: OwnStageView, owned: Seq<Place>, n: nat) -> (
    OwnStageView,
    Seq<Place>,
)
    decreases n,
{
    if n == 0 {
        (stage, owned)
    } else {
        run_own(
            disk,
            next_own_stage(stage, own_reply(disk, stage)),
            match stage {
                OwnStageView::Own { path, .. } => if (disk.owned)(path) {
                    owned.push(path)
                } else {
                    owned
                },
                _ => owned,
            },
            (n - 1) as nat,
        )
    }
}

/// What a stage has still to do.
spec fn pending(stage: OwnStageView) -> Seq<OwnTaskView> {
    match stage {
        OwnStageView::Own { path, left } => left.push(OwnTaskView::Visit(path)),
        OwnStageView::Look { left, .. } => left,
        OwnStageView::List { left, .. } => left,
        OwnStageView::Done(_) => Seq::empty(),
    }
}

/// A path that is handed over, and what it holds is not looked at yet.
spec fn is_open(stage: OwnStageView, path: Place) -> bool {
    match stage {
        OwnStageView::Look { path: p, .. } => p == path,
        OwnStageView::List { path: p, .. } => p == path,
        _ => false,
    }
}

/// A path is handed over, or will be.
spec fn covered(stage: OwnStageView, owned: Seq<Place>, path: Place) -> bool {
    owned.contains(path) || pending(stage).contains(OwnTaskView::Visit(path))
}

/// What a directory holds is handed over, or will be.
spec fn contents_covered(disk: OwnDisk, stage: OwnStageView, owned: Seq<Place>, path: Place) -> bool {
    (disk.is_dir)(path) == Some(true) ==> {
        &&& (disk.listing)(path) matches Some(listing)
        &&& listing.cut ==> pending(stage).contains(OwnTaskView::Stop)
        &&& forall|i: int|
            0 <= i < listing.names.len() ==> covered(
                stage,
                owned,
                path.push(#[trigger] listing.names[i]),
            )
    }
}

/// What holds at every stage of a walk that has not failed.
spec fn own_inv(disk: OwnDisk, stage: OwnStageView, owned: Seq<Place>) -> bool {
    &&& covered(stage, owned, Seq::empty())
    &&& forall|path: Place|
        #![trigger owned.contains(path)]
        owned.contains(path) && !is_open(stage, path) ==> contents_covered(disk, stage, owned, path)
}

proof fn lemma_own_next(left: Seq<OwnTaskView>)
    requires
        own_next(left) != OwnStageView::Done(false),
    ensures
        pending(own_next(left)) == left,
        forall|path: Place| !is_open(own_next(left), path),
{
    if left.len() > 0 {
        assert(left.drop_last().push(left.last()) =~= left);
    } else {
        assert(left =~= Seq::empty());
    }
}

/// What is pending stays pending or is handed over.
proof fn lemma_covered_stays(
    disk: OwnDisk,
    stage: OwnStageView,
    owned: Seq<Place>,
    next: OwnStageView,
    next_owned: Seq<Place>,
    path: Place,
)
    requires
        forall|task: OwnTaskView| #[trigger]
            pending(stage).contains(task) ==> pending(next).contains(task) || (
            task matches OwnTaskView::Visit(p) && next_owned.contains(p)),
        forall|p: Place| #[trigger] owned.contains(p) ==> next_owned.contains(p),
        contents_covered(disk, stage, owned, path),
    ensures
        contents_covered(disk, next, next_owned, path),
{
    if (disk.is_dir)(path) == Some(true) {
        let listing = (disk.listing)(path)->0;
        assert forall|i: int| 0 <= i < listing.names.len() implies covered(
            next,
            next_owned,
            path.push(#[trigger] listing.names[i]),
        ) by {
            let child = path.push(listing.names[i]);
            assert(covered(stage, owned, child));
            if !owned.contains(child) {
                assert(pending(stage).contains(OwnTaskView::Visit(child)));
            }
        }
    }
}

proof fn lemma_own_step(disk: OwnDisk, stage: OwnStageView, owned: Seq<Place>)
    requires
        own_inv(disk, stage, owned),
        !(stage is Done),
        next_own_stage(stage, own_reply(disk, stage)) != OwnStageView::Done(false),
    ensures
        ({
            let next = next_own_stage(stage, own_reply(disk, stage));
            let next_owned = match stage {
                OwnStageView::Own { path, .. } => if (disk.owned)(path) {
                    owned.push(path)
                } else {
                    owned
                },
                _ => owned,
            };
            own_inv(disk, next, next_owned)
        }),
{
    let next = next_own_stage(stage, own_reply(disk, stage));
    let base = Seq::<Seq<u8>>::empty();
    match stage {
        OwnStageView::Own { path, left } => {
            let next_owned = owned.push(path);
            assert(next_owned[owned.len() as int] == path);
            assert forall|p: Place| #[trigger] owned.contains(p) implies next_owned.contains(p) by {
                let i = choose|i: int| 0 <= i < owned.len() && owned[i] == p;
                assert(next_owned[i] == p);
            }
            assert forall|task: OwnTaskView| #[trigger]
                pending(stage).contains(task) implies pending(next).contains(task) || (
            task matches OwnTaskView::Visit(p) && next_owned.contains(p)) by {
                let all = pending(stage);
                let i = choose|i: int| 0 <= i < all.len() && all[i] == task;
                if i < left.len() {
                    assert(left[i] == task);
                }
            }
            assert(covered(next, next_owned, base)) by {
                if !owned.contains(base) {
                    assert(pending(stage).contains(OwnTaskView::Visit(base)));
                }
            }
            assert forall|p: Place|
                #![trigger next_owned.contains(p)]
                next_owned.contains(p) && !is_open(next, p) implies contents_covered(
                disk,
                next,
                next_owned,
                p,
            ) by {
                let i = choose|i: int| 0 <= i < next_owned.len() && next_owned[i] == p;
                assert(i < owned.len());
                assert(owned[i] == p);
                assert(owned.contains(p));
                lemma_covered_stays(disk, stage, owned, next, next_owned, p);
            }
        },
        OwnStageView::Look { path, left } => {
            if (disk.is_dir)(path) == Some(true) {
                assert forall|p: Place|
                    #![trigger owned.contains(p)]
                    owned.contains(p) && !is_open(next, p) implies contents_covered(
                    disk,
                    next,
                    owned,
                    p,
                ) by {
                    lemma_covered_stays(disk, stage, owned, next, owned, p);
                }
            } else {
                lemma_own_next(left);
                assert forall|p: Place|
                    #![trigger owned.contains(p)]
                    owned.contains(p) && !is_open(next, p) implies contents_covered(
                    disk,
                    next,
                    owned,
                    p,
                ) by {
                    if p != path {
                        lemma_covered_stays(disk, stage, owned, next, owned, p);
                    }
                }
            }
        },
        OwnStageView::List { path, left } => {
            let listing = (disk.listing)(path)->0;
            let tasks = dir_tasks(path, listing);
            let all = left + tasks;
            lemma_own_next(all);
            assert forall|task: OwnTaskView| #[trigger]
                pending(stage).contains(task) implies pending(next).contains(task) by {
                let i = choose|i: int| 0 <= i < left.len() && left[i] == task;
                assert(all[i] == task);
            }
            assert(contents_covered(disk, next, owned, path)) by {
                let names = listing.names;
                let shift: int = if listing.cut {
                    1
                } else {
                    0
                };
                if listing.cut {
                    assert(all[left.len() as int] == OwnTaskView::Stop);
                }
                assert forall|i: int| 0 <= i < names.len() implies covered(
                    next,
                    owned,
                    path.push(#[trigger] names[i]),
                ) by {
                    let at = left.len() + shift + (names.len() - 1 - i);
                    assert(visits(path, names)[names.len() - 1 - i] == OwnTaskView::Visit(
                        path.push(names[i]),
                    ));
                    assert(all[at] == OwnTaskView::Visit(path.push(names[i])));
                    assert(pending(next).contains(OwnTaskView::Visit(path.push(names[i]))));
                }
            }
            assert forall|p: Place|
                #![trigger owned.contains(p)]
                owned.contains(p) && !is_open(next, p) implies contents_covered(
                disk,
                next,
                owned,
                p,
            ) by {
                if p != path {
                    lemma_covered_stays(disk, stage, owned, next, owned, p);
                }
            }
        },
        OwnStageView::Done(_) => {},
    }
}

proof fn lemma_run_own(disk: OwnDisk, stage: OwnStageView, owned: Seq<Place>, n: nat)
    requires
        own_inv(disk, stage, owned),
        run_own(disk, stage, owned, n).0 == OwnStageView::Done(true),
    ensures
        own_inv(disk, OwnStageView::Done(true), run_own(disk, stage, owned, n).1),
    decreases n,
{
    if n > 0 {
        let next = next_own_stage(stage, own_reply(disk, stage));
        if next == OwnStageView::Done(false) {
            lemma_failed_stays(disk, owned, (n - 1) as nat);
            if let OwnStageView::Own { path, .. } = stage {
                lemma_failed_stays(disk, owned.push(path), (n - 1) as nat);
            }
        } else if !(stage is Done) {
            lemma_own_step(disk, stage, owned);
            let next_owned = match stage {
                OwnStageView::Own { path, .. } => if (disk.owned)(path) {
                    owned.push(path)
                } else {
                    owned
                },
                _ => owned,
            };
            lemma_run_own(disk, next, next_owned, (n - 1) as nat);
        } else {
            lemma_run_own(disk, stage, owned, (n - 1) as nat);
        }
    }
}

proof fn lemma_failed_stays(disk: OwnDisk, owned: Seq<Place>, n: nat)
    ensures
        run_own(disk, OwnStageView::Done(false), owned, n).0 == OwnStageView::Done(false),
    decreases n,
{
    if n > 0 {
        lemma_failed_stays(disk, owned, (n - 1) as nat);
    }
}

/// A walk that ends well has handed the directory itself over, and of each
/// directory that it has handed over, all that it holds.
pub proof fn law_all_is_handed_over(disk: OwnDisk, n: nat)
    requires
        run_own(
            disk,
            OwnStageView::Own { path: Seq::empty(), left: Seq::empty() },
            Seq::empty(),
            n,
        ).0 == OwnStageView::Done(true),
    ensures
        ({
            let owned = run_own(
                disk,
                OwnStageView::Own { path: Seq::empty(), left: Seq::empty() },
                Seq::empty(),
                n,
            ).1;
            &&& owned.contains(Seq::<Seq<u8>>::empty())
            &&& forall|path: Place|
                #![trigger owned.contains(path)]
                owned.contains(path) && (disk.is_dir)(path) == Some(true) ==> {
                    &&& (disk.listing)(path) matches Some(listing)
                    &&& !listing.cut
                    &&& forall|i: int|
                        0 <= i < listing.names.len() ==> owned.contains(
                            path.push(#[trigger] listing.names[i]),
                        )
                }
        }),
{
    let base = Seq::<Seq<u8>>::empty();
    let start = OwnStageView::Own { path: base, left: Seq::empty() };
    let none = Seq::<Place>::empty();
    assert(pending(start)[0] == OwnTaskView::Visit(base));
    assert(own_inv(disk, start, none));
    lemma_run_own(disk, start, none, n);
    let owned = run_own(disk, start, none, n).1;
    let end = OwnStageView::Done(true);
    assert forall|path: Place|
        #![trigger owned.contains(path)]
        owned.contains(path) && (disk.is_dir)(path) == Some(true) implies {
        &&& (disk.listing)(path) matches Some(listing)
        &&& !listing.cut
        &&& forall|i: int|
            0 <= i < listing.names.len() ==> owned.contains(path.push(#[trigger] listing.names[i]))
    } by {
        assert(!is_open(end, path));
        assert(contents_covered(disk, end, owned, path));
        let listing = (disk.listing)(path)->0;
        assert forall|i: int| 0 <= i < listing.names.len() implies owned.contains(
            path.push(#[trigger] listing.names[i]),
        ) by {
            assert(covered(end, owned, path.push(listing.names[i])));
        }
    }
}

/// A tree that ends: no path of directories below `path` is longer than `depth`.
pub open spec fn tree_ends(disk: OwnDisk, path: Place, depth: nat) -> bool
    decreases depth,
{
    (disk.is_dir)(path) == Some(true) ==> match (disk.listing)(path) {
        Some(listing) => depth > 0 && forall|i: int|
            0 <= i < listing.names.len() ==> tree_ends(
                disk,
                path.push(#[trigger] listing.names[i]),
                (depth - 1) as nat,
            ),
        None => true,
    }
}

/// A tree that can be handed over: what is at `path`, and where that is a
/// directory, all that it holds.
pub open spec fn can_be_handed_over(disk: OwnDisk, path: Place, depth: nat) -> bool
    decreases depth,
{
    (disk.owned)(path) && match ((disk.is_dir)(path), (disk.listing)(path)) {
        (Some(true), Some(listing)) => depth > 0 && !listing.cut && forall|i: int|
            0 <= i < listing.names.len() ==> can_be_handed_over(
                disk,
                path.push(#[trigger] listing.names[i]),
                (depth - 1) as nat,
            ),
        (Some(false), _) => true,
        _ => false,
    }
}

spec fn task_ends(disk: OwnDisk, task: OwnTaskView, depth: nat) -> bool {
    task matches OwnTaskView::Visit(path) ==> tree_ends(disk, path, depth)
}

spec fn task_goes_well(disk: OwnDisk, task: OwnTaskView, depth: nat) -> bool {
    task matches OwnTaskView::Visit(path) && can_be_handed_over(disk, path, depth)
}

spec fn all_go_well(disk: OwnDisk, tasks: Seq<OwnTaskView>, depth: nat) -> bool {
    forall|i: int| 0 <= i < tasks.len() ==> task_goes_well(disk, #[trigger] tasks[i], depth)
}

proof fn lemma_run_own_joined(
    disk: OwnDisk,
    stage: OwnStageView,
    owned: Seq<Place>,
    a: nat,
    b: nat,
)
    ensures
        run_own(disk, stage, owned, a + b) == ({
            let (middle, owned) = run_own(disk, stage, owned, a);
            run_own(disk, middle, owned, b)
        }),
    decreases a,
{
    if a > 0 {
        let next = next_own_stage(stage, own_reply(disk, stage));
        let more = match stage {
            OwnStageView::Own { path, .. } => if (disk.owned)(path) {
                owned.push(path)
            } else {
                owned
            },
            _ => owned,
        };
        lemma_run_own_joined(disk, next, more, (a - 1) as nat, b);
    }
}

/// The tasks of a directory go well where the directory was read to its end and
/// all that it holds can be handed over.
proof fn lemma_dir_tasks(disk: OwnDisk, path: Place, listing: ListingView, depth: nat)
    requires
        (disk.is_dir)(path) == Some(true),
        (disk.listing)(path) == Some(listing),
        tree_ends(disk, path, depth),
    ensures
        depth > 0,
        forall|i: int|
            0 <= i < dir_tasks(path, listing).len() ==> task_ends(
                disk,
                #[trigger] dir_tasks(path, listing)[i],
                (depth - 1) as nat,
            ),
        (disk.owned)(path) ==> can_be_handed_over(disk, path, depth) == all_go_well(
            disk,
            dir_tasks(path, listing),
            (depth - 1) as nat,
        ),
{
    let below = (depth - 1) as nat;
    let names = listing.names;
    let tasks = dir_tasks(path, listing);
    let first: int = if listing.cut {
        1
    } else {
        0
    };
    assert(tasks.len() == first + names.len());
    assert((disk.listing)(path)->0 == listing);
    assert forall|i: int| 0 <= i < names.len() implies tree_ends(
        disk,
        path.push(#[trigger] names[i]),
        below,
    ) by {}
    assert forall|i: int| 0 <= i < names.len() implies tasks[first + names.len() - 1 - i]
        == OwnTaskView::Visit(path.push(#[trigger] names[i])) by {}
    assert forall|i: int| 0 <= i < tasks.len() implies task_ends(disk, #[trigger] tasks[i], below) by {
        if i >= first {
            let at = first + names.len() - 1 - i;
            assert(tree_ends(disk, path.push(names[at]), below));
            assert(tasks[i] == OwnTaskView::Visit(path.push(names[at])));
        }
    }
    if listing.cut {
        assert(!task_goes_well(disk, tasks[0], below));
    } else {
        if all_go_well(disk, tasks, below) {
            assert forall|i: int| 0 <= i < names.len() implies can_be_handed_over(
                disk,
                path.push(#[trigger] names[i]),
                below,
            ) by {
                assert(task_goes_well(disk, tasks[names.len() - 1 - i], below));
            }
        }
        if can_be_handed_over(disk, path, depth) {
            assert forall|i: int| 0 <= i < tasks.len() implies task_goes_well(
                disk,
                #[trigger] tasks[i],
                below,
            ) by {
                let at = names.len() - 1 - i;
                assert(can_be_handed_over(disk, path.push(names[at]), below));
                assert(tasks[i] == OwnTaskView::Visit(path.push(names[at])));
            }
        }
    }
}

/// Behind a tree that ends, the walk goes on with what was left, or has failed.
proof fn lemma_visit_ends(
    disk: OwnDisk,
    path: Place,
    left: Seq<OwnTaskView>,
    owned: Seq<Place>,
    depth: nat,
) -> (n: nat)
    requires
        tree_ends(disk, path, depth),
    ensures
        run_own(disk, OwnStageView::Own { path, left }, owned, n).0 == if can_be_handed_over(
            disk,
            path,
            depth,
        ) {
            own_next(left)
        } else {
            OwnStageView::Done(false)
        },
    decreases depth, 0nat,
{
    reveal_with_fuel(run_own, 4);
    let start = OwnStageView::Own { path, left };
    if !(disk.owned)(path) {
        1
    } else {
        match ((disk.is_dir)(path), (disk.listing)(path)) {
            (Some(true), Some(listing)) => {
                let tasks = dir_tasks(path, listing);
                lemma_dir_tasks(disk, path, listing, depth);
                let b = lemma_tasks_end(disk, left, tasks, owned.push(path), (depth - 1) as nat);
                lemma_run_own_joined(disk, start, owned, 3, b);
                3 + b
            },
            (Some(true), None) => 3,
            _ => 2,
        }
    }
}

/// Behind tasks that end, the walk goes on with what was left, or has failed.
proof fn lemma_tasks_end(
    disk: OwnDisk,
    left: Seq<OwnTaskView>,
    tasks: Seq<OwnTaskView>,
    owned: Seq<Place>,
    depth: nat,
) -> (n: nat)
    requires
        forall|i: int| 0 <= i < tasks.len() ==> task_ends(disk, #[trigger] tasks[i], depth),
    ensures
        run_own(disk, own_next(left + tasks), owned, n).0 == if all_go_well(disk, tasks, depth) {
            own_next(left)
        } else {
            OwnStageView::Done(false)
        },
    decreases depth, tasks.len(),
{
    if tasks.len() == 0 {
        assert(left + tasks =~= left);
        0
    } else {
        let front = tasks.drop_last();
        let last = tasks[tasks.len() - 1];
        assert((left + tasks).last() == last);
        assert((left + tasks).drop_last() =~= left + front);
        assert(task_ends(disk, last, depth));
        assert forall|i: int| 0 <= i < front.len() implies task_ends(
            disk,
            #[trigger] front[i],
            depth,
        ) by {
            assert(front[i] == tasks[i]);
        }
        match last {
            OwnTaskView::Stop => {
                assert(!task_goes_well(disk, last, depth));
                0
            },
            OwnTaskView::Visit(path) => {
                let start = OwnStageView::Own { path, left: left + front };
                let a = lemma_visit_ends(disk, path, left + front, owned, depth);
                if can_be_handed_over(disk, path, depth) {
                    let more = run_own(disk, start, owned, a).1;
                    let b = lemma_tasks_end(disk, left, front, more, depth);
                    lemma_run_own_joined(disk, start, owned, a, b);
                    assert(all_go_well(disk, tasks, depth) == all_go_well(disk, front, depth)) by {
                        if all_go_well(disk, front, depth) {
                            assert forall|i: int| 0 <= i < tasks.len() implies task_goes_well(
                                disk,
                                #[trigger] tasks[i],
                                depth,
                            ) by {
                                if i < front.len() {
                                    assert(front[i] == tasks[i]);
                                }
                            }
                        }
                        if all_go_well(disk, tasks, depth) {
                            assert forall|i: int| 0 <= i < front.len() implies task_goes_well(
                                disk,
                                #[trigger] front[i],
                                depth,
                            ) by {
                                assert(front[i] == tasks[i]);
                            }
                        }
                    }
                    a + b
                } else {
                    assert(!task_goes_well(disk, last, depth));
                    a
                }
            },
        }
    }
}

/// Where the tree ends, the walk ends. It ends well exactly where all of the tree
/// can be handed over.
pub proof fn law_handing_over_ends(disk: OwnDisk, depth: nat)
    requires
        tree_ends(disk, Seq::empty(), depth),
    ensures
        exists|n: nat|
            (#[trigger] run_own(
                disk,
                OwnStageView::Own { path: Seq::empty(), left: Seq::empty() },
                Seq::empty(),
                n,
            )).0 == OwnStageView::Done(can_be_handed_over(disk, Seq::empty(), depth)),
{
    let start = OwnStageView::Own { path: Seq::empty(), left: Seq::empty() };
    let n = lemma_visit_ends(disk, Seq::empty(), Seq::empty(), Seq::empty(), depth);
    assert(run_own(disk, start, Seq::empty(), n).0 == OwnStageView::Done(
        can_be_handed_over(disk, Seq::empty(), depth),
    ));
}

// ---------------------------------------------------------------------------
// Who takes over, and in which steps
// ---------------------------------------------------------------------------

/// The user and the group that `sudo` names in decimal take over, whoever they are,
/// but only from the superuser, and only where the user is another one.
pub proof fn law_calling_user(euid: u32, uid: nat, gid: nat)
    requires
        uid <= u32::MAX,
        gid <= u32::MAX,
    ensures
        euid == 0 && uid != 0 ==> calling_user(euid, Some(decimal(uid)), Some(decimal(gid)))
            == Some((uid as u32, gid as u32)),
        euid != 0 || uid == 0 ==> calling_user(euid, Some(decimal(uid)), Some(decimal(gid))) is None,
        calling_user(euid, None, Some(decimal(gid))) is None,
        calling_user(euid, Some(decimal(uid)), None) is None,
{
    law_parsed_u32(uid, 0);
    law_parsed_u32(gid, 0);
    assert(zeros(0) + decimal(uid) =~= decimal(uid));
    assert(zeros(0) + decimal(gid) =~= decimal(gid));
}

/// Nobody takes over where `sudo` names no numbers of 32 bits, and who does is not
/// the superuser.
pub proof fn law_nobody_takes_over(euid: u32, uid: Seq<char>, gid: Seq<char>)
    ensures
        parsed_u32(uid) is None || parsed_u32(gid) is None ==> calling_user(
            euid,
            Some(uid),
            Some(gid),
        ) is None,
        calling_user(euid, Some(uid), Some(gid)) matches Some(caller) ==> {
            &&& euid == 0
            &&& caller.0 != 0
            &&& parsed_u32(uid) == Some(caller.0)
            &&& parsed_u32(gid) == Some(caller.1)
        },
{
}

/// The steps of a caller: where the tool's directory is there, it is handed over and
/// closed to others first; then the mask is set that closes new files to others;
/// then the group is taken on, and behind it the user. Each step is for the very
/// user and group that take over.
pub proof fn law_steps(
    outcome: spec_fn(PrivilegeStage) -> bool,
    uid: u32,
    gid: u32,
    base_exists: bool,
    n: nat,
)
    requires
        n >= 5,
    ensures
        ({
            let steps = run_privileges(
                outcome,
                first_privilege_stage(Some((uid, gid)), base_exists),
                n,
            ).1;
            let group = PrivilegeStage::SetGid { uid, gid };
            let mask = PrivilegeStage::Umask { mask: 0o077, uid, gid };
            &&& base_exists ==> steps.take(4) == seq![
                PrivilegeStage::HandOver { uid, gid },
                PrivilegeStage::Tighten { uid, gid },
                mask,
                group,
            ]
            &&& !base_exists ==> steps.take(2) == seq![mask, group]
            &&& outcome(group) ==> steps.last() == (PrivilegeStage::SetUid { uid })
            &&& !outcome(group) ==> steps.last() == group
            &&& steps.len() == (if base_exists {
                4int
            } else {
                2
            }) + if outcome(group) {
                1int
            } else {
                0
            }
        }),
{
    reveal_with_fuel(run_privileges, 7);
    let steps = run_privileges(
        outcome,
        first_privilege_stage(Some((uid, gid)), base_exists),
        n,
    ).1;
    let group = PrivilegeStage::SetGid { uid, gid };
    let user = PrivilegeStage::SetUid { uid };
    let mask = PrivilegeStage::Umask { mask: 0o077, uid, gid };
    let hand = PrivilegeStage::HandOver { uid, gid };
    let close = PrivilegeStage::Tighten { uid, gid };
    if base_exists {
        if outcome(group) {
            assert(steps =~= seq![hand, close, mask, group, user]);
        } else {
            assert(steps =~= seq![hand, close, mask, group]);
        }
    } else {
        if outcome(group) {
            assert(steps =~= seq![mask, group, user]);
        } else {
            assert(steps =~= seq![mask, group]);
        }
    }
}

/// Every name that ends with `.json` and has something before it is tightened, and
/// no other.
pub proof fn law_json_names(stem: Seq<u8>, name: Seq<u8>)
    ensures
        stem.len() > 0 ==> is_json_name(stem + seq![0x2eu8, 0x6a, 0x73, 0x6f, 0x6e]),
        is_json_name(name) ==> name.len() > 5 && name == name.take(name.len() - 5) + seq![
            0x2eu8,
            0x6a,
            0x73,
            0x6f,
            0x6e,
        ],
{
    let whole = stem + seq![0x2eu8, 0x6a, 0x73, 0x6f, 0x6e];
    assert(json_extension() =~= seq![0x2eu8, 0x6a, 0x73, 0x6f, 0x6e]);
    assert(whole.subrange(stem.len() as int, stem.len() as int + 5) =~= json_extension());
    if is_json_name(name) {
        let at = name.len() - 5;
        assert(name.subrange(at, at + 5) == json_extension());
        assert(name =~= name.take(at) + name.subrange(at, at + 5));
    }
}

/// What a directory holds is visited in the order in which it is listed, each name
/// once, before what was left; where the directory was cut short, the walk stops
/// behind it.
pub proof fn law_visits(dir: Place, listing: ListingView, i: int)
    requires
        0 <= i < listing.names.len(),
    ensures
        ({
            let tasks = dir_tasks(dir, listing);
            let n = tasks.len();
            &&& n == listing.names.len() + if listing.cut {
                1int
            } else {
                0
            }
            &&& tasks[n - 1 - i] == OwnTaskView::Visit(dir.push(listing.names[i]))
            &&& listing.cut ==> tasks[0] == OwnTaskView::Stop
        }),
{
}

/// Tasks, answers and listings say what they hold.
pub proof fn law_own_views(task: OwnTask, reply: OwnReply, listing: Listing, i: int)
    ensures
        task matches OwnTask::Visit(path) ==> task@ == OwnTaskView::Visit(path@),
        task is Stop ==> task@ == OwnTaskView::Stop,
        reply matches OwnReply::Owned(ok) ==> reply@ == OwnReplyView::Owned(ok),
        reply matches OwnReply::IsDir(yes) ==> reply@ == OwnReplyView::IsDir(yes),
        reply matches OwnReply::Listed(Some(list)) ==> reply@ == OwnReplyView::Listed(Some(list@)),
        reply matches OwnReply::Listed(None) ==> reply@ == OwnReplyView::Listed(None),
        listing@.cut == listing.cut,
        listing@.names.len() == listing.names@.len(),
        0 <= i < listing.names@.len() ==> listing@.names[i] == listing.names@[i]@,
{
}

/// A text that is there says itself.
pub proof fn law_optional_text(text: &str)
    ensures
        optional_text(Some(text)) == Some(text@),
        optional_text(None) is None,
{
}

/// Where a walk stands says the path, and what is left in its order.
pub proof fn law_own_stage_view(stage: OwnStage, tasks: Seq<OwnTask>, i: int)
    ensures
        stage matches OwnStage::Own { path, left } ==> stage@ == (OwnStageView::Own {
            path: path@,
            left: tasks_view(left@),
        }),
        stage matches OwnStage::Look { path, left } ==> stage@ == (OwnStageView::Look {
            path: path@,
            left: tasks_view(left@),
        }),
        stage matches OwnStage::List { path, left } ==> stage@ == (OwnStageView::List {
            path: path@,
            left: tasks_view(left@),
        }),
        stage matches OwnStage::Done(well) ==> stage@ == OwnStageView::Done(well),
        tasks_view(tasks).len() == tasks.len(),
        0 <= i < tasks.len() ==> tasks_view(tasks)[i] == tasks[i]@,
{
}

/// An answer to another question does not move a walk, and nothing moves one that is
/// over.
pub proof fn law_other_answers_do_not_count(stage: OwnStageView, reply: OwnReplyView)
    ensures
        stage is Own && !(reply is Owned) ==> next_own_stage(stage, reply) == stage,
        stage is Look && !(reply is IsDir) ==> next_own_stage(stage, reply) == stage,
        stage is List && !(reply is Listed) ==> next_own_stage(stage, reply) == stage,
        stage is Done ==> next_own_stage(stage, reply) == stage,
{
}

} // verus!
