//! From a message to the local file of its attachment.
//!
//! The resource database gives the digest of the attachment's content, and the
//! attachment directory a file whose name starts with it.

use vstd::prelude::*;
use vstd::utf8::encode_utf8;

use crate::attachment::{kind_name, kind_type, AttachmentId, AttachmentKind};
use crate::digest::{hex, md5_digest, md5_hex};
use crate::media_search::{
    first_months, months_to_search, next_search_stage, question_of, search_from, MediaSearch, Place,
    SearchAnswer, SearchAnswerView, SearchKeyView, SearchQuestion, SearchStage, SearchStageView,
};
use crate::paths::PathParts;
use crate::resource_db::{
    chat_query, exact_query, latest_query, lookup_md5_blocking, md5_in, md5_reply, next_md5_stage,
    Md5Lookup, Md5Reply, Md5ReplyView, Md5Stage, Md5StageView, MessageKey, ResourceAnswers,
};
use crate::search_outcome::{
    answer_of, law_search_ends, law_search_finds_the_file, lemma_media_file_limit, media_file, run_search, Disk,
};
use crate::sql::{SqlQuery, SqlQueryView};
use crate::packed_info::packed_md5;
use crate::text::{holds_text, signed_decimal, signed_decimal_text, texts_view};

verus! {

/// An attachment and its local file.
#[derive(Debug, Clone)]
pub struct ResolvedAttachment {
    pub id: AttachmentId,
    /// The digest of the content, in small hexadecimal digits.
    pub md5: String,
    /// The file, below the attachment directory.
    pub dat_path: PathParts,
    /// The file's length in bytes; 0 where it cannot be told.
    pub size: u64,
}

/// Why an attachment has no local file.
#[derive(Debug)]
pub enum ResolveError {
    /// The resource database has no digest for the message.
    NoResource { chat: String, local_id: i64, type_lo32: i64 },
    /// No file in the attachment directory fits.
    NoFile { kind: AttachmentKind, md5: String, chat: String, create_time: i64 },
}

impl ResolveError {
    /// The words for an error.
    pub open spec fn words(self) -> Seq<char> {
        match self {
            ResolveError::NoResource { chat, local_id, type_lo32 } => {
                "message_resource.db 中找不到 chat="@ + chat@ + " local_id="@ + signed_decimal(
                    local_id as int,
                ) + " type="@ + signed_decimal(type_lo32 as int)
                    + " 的资源行（可能是非附件消息或资源库未同步）"@
            },
            ResolveError::NoFile { kind, md5, chat, create_time } => {
                "找不到本地附件文件（kind="@ + kind_name(kind) + " md5="@ + md5@ + " chat="@ + chat@
                    + " create_time="@ + signed_decimal(create_time as int)
                    + "）— 微信可能尚未下载该附件，或附件已被清理"@
            },
        }
    }

    /// Says what went wrong.
    pub fn message(&self) -> (message: String)
        ensures
            message@ == self.words(),
    {
        match self {
            ResolveError::NoResource { chat, local_id, type_lo32 } => {
                let mut message = "message_resource.db 中找不到 chat=".to_owned();
                message.append(chat.as_str());
                message.append(" local_id=");
                message.append(signed_decimal_text(*local_id).as_str());
                message.append(" type=");
                message.append(signed_decimal_text(*type_lo32).as_str());
                message.append(" 的资源行（可能是非附件消息或资源库未同步）");
                message
            },
            ResolveError::NoFile { kind, md5, chat, create_time } => {
                let mut message = "找不到本地附件文件（kind=".to_owned();
                message.append(kind.as_str());
                message.append(" md5=");
                message.append(md5.as_str());
                message.append(" chat=");
                message.append(chat.as_str());
                message.append(" create_time=");
                message.append(signed_decimal_text(*create_time).as_str());
                message.append("）— 微信可能尚未下载该附件，或附件已被清理");
                message
            },
        }
    }
}

// ---------------------------------------------------------------------------
// The steps
// ---------------------------------------------------------------------------

/// What is wanted next.
#[derive(Debug)]
pub enum ResolveQuestion {
    /// The answer of the resource database.
    Query(SqlQuery),
    /// Something about the attachment directory.
    Disk(SearchQuestion),
    /// The length of a file. `None` where it cannot be told.
    Size(PathParts),
    /// Nothing: the attachment is resolved, or cannot be.
    Nothing,
}

/// An answer to a question.
#[derive(Debug)]
pub enum ResolveAnswer {
    Query(Md5Reply),
    Disk(SearchAnswer),
    Size(Option<u64>),
}

/// An answer to a question.
pub enum ResolveAnswerView {
    Query(Md5ReplyView),
    Disk(SearchAnswerView),
    Size(Option<u64>),
}

impl View for ResolveAnswer {
    type V = ResolveAnswerView;

    open spec fn view(&self) -> ResolveAnswerView {
        match self {
            ResolveAnswer::Query(reply) => ResolveAnswerView::Query(reply@),
            ResolveAnswer::Disk(answer) => ResolveAnswerView::Disk(answer@),
            ResolveAnswer::Size(size) => ResolveAnswerView::Size(*size),
        }
    }
}

/// An attachment on its way to its file.
#[derive(Debug)]
pub enum Resolution {
    /// Its digest is looked up. The file will be searched in the chat's
    /// directory, in these months first.
    Lookup { kind: AttachmentKind, chat_dir: String, months: Vec<String>, lookup: Md5Lookup },
    /// Its file is searched.
    Search { id: AttachmentId, search: MediaSearch },
    /// Its file is known, but for the length.
    Size { id: AttachmentId, md5: String, dat_path: PathParts },
    /// It is resolved, or cannot be.
    Done(Result<ResolvedAttachment, ResolveError>),
}

/// How the way ended.
pub enum OutcomeView {
    NoResource,
    NoFile { md5: Seq<char> },
    Found { md5: Seq<char>, place: Place, size: u64 },
}

/// Where an attachment stands on its way.
pub enum ResolutionView {
    Lookup {
        kind: AttachmentKind,
        chat_dir: Seq<char>,
        months: Seq<Seq<char>>,
        stage: Md5StageView,
    },
    Search { key: SearchKeyView, stage: SearchStageView },
    Size { md5: Seq<char>, place: Place },
    Done(OutcomeView),
}

impl View for Resolution {
    type V = ResolutionView;

    open spec fn view(&self) -> ResolutionView {
        match self {
            Resolution::Lookup { kind, chat_dir, months, lookup } => ResolutionView::Lookup {
                kind: *kind,
                chat_dir: chat_dir@,
                months: texts_view(months@),
                stage: lookup.stage@,
            },
            Resolution::Search { id, search } => ResolutionView::Search {
                key: search.key@,
                stage: search.stage@,
            },
            Resolution::Size { id, md5, dat_path } => ResolutionView::Size {
                md5: md5@,
                place: dat_path@,
            },
            Resolution::Done(Ok(found)) => ResolutionView::Done(
                OutcomeView::Found { md5: found.md5@, place: found.dat_path@, size: found.size },
            ),
            Resolution::Done(Err(ResolveError::NoResource { .. })) => ResolutionView::Done(
                OutcomeView::NoResource,
            ),
            Resolution::Done(Err(ResolveError::NoFile { md5, .. })) => ResolutionView::Done(
                OutcomeView::NoFile { md5: md5@ },
            ),
        }
    }
}

impl Resolution {
    /// This is the way of the attachment `id`: whatever is asked or reported is
    /// asked or reported of it.
    pub open spec fn is_of(self, id: AttachmentId) -> bool {
        match self {
            Resolution::Lookup { kind, lookup, .. } => {
                &&& kind == id.kind
                &&& lookup.key == (MessageKey {
                    chat: id.chat,
                    local_id: id.local_id,
                    create_time: id.create_time,
                    type_lo32: kind_type(id.kind),
                })
            },
            Resolution::Search { id: own, search } => own == id && search.key.kind == id.kind,
            Resolution::Size { id: own, .. } => own == id,
            Resolution::Done(Ok(found)) => found.id == id,
            Resolution::Done(Err(ResolveError::NoResource { chat, local_id, type_lo32 })) => {
                chat == id.chat && local_id == id.local_id && type_lo32 == kind_type(id.kind)
            },
            Resolution::Done(Err(ResolveError::NoFile { kind, chat, create_time, .. })) => {
                kind == id.kind && chat == id.chat && create_time == id.create_time
            },
        }
    }
}

/// Goes on when the digest is known, or is known to be missing.
pub open spec fn behind_lookup(
    kind: AttachmentKind,
    chat_dir: Seq<char>,
    months: Seq<Seq<char>>,
    stage: Md5StageView,
) -> ResolutionView {
    match stage {
        Md5StageView::Done(None) => ResolutionView::Done(OutcomeView::NoResource),
        Md5StageView::Done(Some(md5)) => ResolutionView::Search {
            key: SearchKeyView { kind, file_md5: md5, chat_dir },
            stage: SearchStageView::Chat { months },
        },
        stage => ResolutionView::Lookup { kind, chat_dir, months, stage },
    }
}

/// Goes on when the file is found, or is known to be missing.
pub open spec fn behind_search(key: SearchKeyView, stage: SearchStageView) -> ResolutionView {
    match stage {
        SearchStageView::Done(None) => ResolutionView::Done(
            OutcomeView::NoFile { md5: key.file_md5 },
        ),
        SearchStageView::Done(Some(place)) => ResolutionView::Size { md5: key.file_md5, place },
        stage => ResolutionView::Search { key, stage },
    }
}

/// How an answer moves an attachment on. An answer to another question does not.
pub open spec fn next_resolution(at: ResolutionView, answer: ResolveAnswerView) -> ResolutionView {
    match (at, answer) {
        (
            ResolutionView::Lookup { kind, chat_dir, months, stage },
            ResolveAnswerView::Query(reply),
        ) => behind_lookup(kind, chat_dir, months, next_md5_stage(stage, reply)),
        (ResolutionView::Search { key, stage }, ResolveAnswerView::Disk(answer)) => behind_search(
            key,
            next_search_stage(key, stage, answer),
        ),
        (ResolutionView::Size { md5, place }, ResolveAnswerView::Size(size)) => {
            ResolutionView::Done(
                OutcomeView::Found {
                    md5,
                    place,
                    size: match size {
                        Some(size) => size,
                        None => 0,
                    },
                },
            )
        },
        (at, _) => at,
    }
}

/// The query of a lookup's stage.
pub open spec fn md5_query(key: MessageKey, stage: Md5StageView) -> Option<SqlQueryView> {
    match stage {
        Md5StageView::Chat => Some(chat_query(key)),
        Md5StageView::Exact(chat_id) => Some(exact_query(key, chat_id)),
        Md5StageView::Latest(chat_id) => Some(latest_query(key, chat_id)),
        Md5StageView::Done(_) => None,
    }
}

impl Resolution {
    /// What is wanted next.
    pub fn question(&self) -> (question: ResolveQuestion)
        ensures
            match *self {
                Resolution::Lookup { lookup, .. } => match md5_query(lookup.key, lookup.stage@) {
                    Some(query) => question matches ResolveQuestion::Query(q) && q@ == query,
                    None => question is Nothing,
                },
                Resolution::Search { search, .. } => {
                    question matches ResolveQuestion::Disk(q) && q@ == question_of(
                        search.key@,
                        search.stage@,
                    )
                },
                Resolution::Size { dat_path, .. } => {
                    question matches ResolveQuestion::Size(path) && path@ == dat_path@
                },
                Resolution::Done(_) => question is Nothing,
            },
    {
        match self {
            Resolution::Lookup { lookup, .. } => match lookup.query() {
                Some(query) => ResolveQuestion::Query(query),
                None => ResolveQuestion::Nothing,
            },
            Resolution::Search { search, .. } => ResolveQuestion::Disk(search.question()),
            Resolution::Size { dat_path, .. } => ResolveQuestion::Size(dat_path.copy()),
            Resolution::Done(_) => ResolveQuestion::Nothing,
        }
    }

    /// Takes the answer to the question.
    pub fn answer(self, answer: ResolveAnswer) -> (next: Resolution)
        ensures
            next@ == next_resolution(self@, answer@),
            forall|id: AttachmentId| #[trigger] self.is_of(id) ==> next.is_of(id),
    {
        match (self, answer) {
            (
                Resolution::Lookup { kind, chat_dir, months, lookup },
                ResolveAnswer::Query(reply),
            ) => after_lookup(kind, chat_dir, months, lookup.answer(reply)),
            (Resolution::Search { id, search }, ResolveAnswer::Disk(answer)) => after_search(
                id,
                search.answer(answer),
            ),
            (Resolution::Size { id, md5, dat_path }, ResolveAnswer::Size(size)) => {
                let size: u64 = match size {
                    Some(size) => size,
                    None => 0,
                };
                Resolution::Done(Ok(ResolvedAttachment { id, md5, dat_path, size }))
            },
            (at, _) => at,
        }
    }
}

/// Goes on when the digest is known, or is known to be missing.
fn after_lookup(
    kind: AttachmentKind,
    chat_dir: String,
    months: Vec<String>,
    lookup: Md5Lookup,
) -> (next: Resolution)
    ensures
        next@ == behind_lookup(kind, chat_dir@, texts_view(months@), lookup.stage@),
        forall|id: AttachmentId| #[trigger]
            (Resolution::Lookup { kind, chat_dir, months, lookup }).is_of(id) ==> next.is_of(id),
{
    let Md5Lookup { key, stage } = lookup;
    match stage {
        Md5Stage::Done(None) => Resolution::Done(
            Err(
                ResolveError::NoResource {
                    chat: key.chat,
                    local_id: key.local_id,
                    type_lo32: key.type_lo32,
                },
            ),
        ),
        Md5Stage::Done(Some(meta)) => {
            let id = AttachmentId {
                chat: key.chat,
                local_id: key.local_id,
                create_time: key.create_time,
                kind,
            };
            Resolution::Search { id, search: search_from(chat_dir, months, meta.md5, kind) }
        },
        stage => Resolution::Lookup { kind, chat_dir, months, lookup: Md5Lookup { key, stage } },
    }
}

/// Goes on when the file is found, or is known to be missing.
fn after_search(id: AttachmentId, search: MediaSearch) -> (next: Resolution)
    ensures
        next@ == behind_search(search.key@, search.stage@),
        search.key.kind == id.kind ==> next.is_of(id),
{
    let MediaSearch { key, stage } = search;
    match stage {
        SearchStage::Done(None) => Resolution::Done(
            Err(
                ResolveError::NoFile {
                    kind: id.kind,
                    md5: key.file_md5,
                    chat: id.chat,
                    create_time: id.create_time,
                },
            ),
        ),
        SearchStage::Done(Some(dat_path)) => Resolution::Size { id, md5: key.file_md5, dat_path },
        stage => Resolution::Search { id, search: MediaSearch { key, stage } },
    }
}

/// Starts on the way to an attachment's file, which is to be searched in these
/// months first.
pub fn resolve_in_months(id: AttachmentId, months: Vec<String>) -> (start: Resolution)
    ensures
        start.is_of(id),
        start@ == (ResolutionView::Lookup {
            kind: id.kind,
            chat_dir: hex(md5_digest(encode_utf8(id.chat@))),
            months: texts_view(months@),
            stage: Md5StageView::Chat,
        }),
{
    let chat_dir = md5_hex(id.chat.as_str());
    let lookup = lookup_md5_blocking(
        id.chat,
        id.local_id,
        id.create_time,
        id.kind.message_type(),
    );
    Resolution::Lookup { kind: id.kind, chat_dir, months, lookup }
}

/// Starts on the way to an attachment's file, which is to be searched first in
/// the months around the message's time.
pub fn resolve_blocking(id: AttachmentId) -> (start: Resolution)
    ensures
        start.is_of(id),
        start@ matches ResolutionView::Lookup { kind, chat_dir, months, stage } && {
            &&& kind == id.kind
            &&& chat_dir == hex(md5_digest(encode_utf8(id.chat@)))
            &&& stage == Md5StageView::Chat
            &&& first_months(id.create_time as int, id.kind, months)
        },
{
    let months = months_to_search(id.create_time, id.kind);
    resolve_in_months(id, months)
}

// ---------------------------------------------------------------------------
// What is resolved
// ---------------------------------------------------------------------------

/// The answer that a database and a disk give.
pub open spec fn resolve_answer(
    answers: ResourceAnswers,
    disk: Disk,
    at: ResolutionView,
) -> ResolveAnswerView {
    match at {
        ResolutionView::Lookup { stage, .. } => ResolveAnswerView::Query(md5_reply(answers, stage)),
        ResolutionView::Search { key, stage } => ResolveAnswerView::Disk(
            answer_of(disk, question_of(key, stage)),
        ),
        ResolutionView::Size { place, .. } => ResolveAnswerView::Size(Some((disk.size)(place))),
        ResolutionView::Done(_) => ResolveAnswerView::Size(None),
    }
}

/// Where an attachment stands when it is answered `n` times.
pub open spec fn run_resolution(
    answers: ResourceAnswers,
    disk: Disk,
    at: ResolutionView,
    n: nat,
) -> ResolutionView
    decreases n,
{
    if n == 0 {
        at
    } else {
        run_resolution(
            answers,
            disk,
            next_resolution(at, resolve_answer(answers, disk, at)),
            (n - 1) as nat,
        )
    }
}

/// The digest that a database has for a message: that of the row with its time,
/// or, where there is none, that of the latest row.
pub open spec fn digest_in(answers: ResourceAnswers) -> Option<Seq<char>> {
    if answers.chat_id is None {
        None
    } else if answers.exact is Some {
        md5_in(answers.exact)
    } else {
        md5_in(answers.latest)
    }
}

/// What becomes of the file that a disk has.
pub open spec fn outcome_of(disk: Disk, md5: Seq<char>, found: Option<Place>) -> OutcomeView {
    match found {
        Some(place) => OutcomeView::Found { md5, place, size: (disk.size)(place) },
        None => OutcomeView::NoFile { md5 },
    }
}

proof fn lemma_done_stays(answers: ResourceAnswers, disk: Disk, outcome: OutcomeView, n: nat)
    ensures
        run_resolution(answers, disk, ResolutionView::Done(outcome), n) == ResolutionView::Done(
            outcome,
        ),
    decreases n,
{
    if n > 0 {
        lemma_done_stays(answers, disk, outcome, (n - 1) as nat);
    }
}

/// A search that is part of the way ends as it does alone.
proof fn lemma_search(
    answers: ResourceAnswers,
    disk: Disk,
    key: SearchKeyView,
    stage: SearchStageView,
    n: nat,
) -> (m: nat)
    requires
        !(stage is Done),
    ensures
        m <= n,
        run_resolution(answers, disk, ResolutionView::Search { key, stage }, n) matches
            ResolutionView::Done(outcome) ==> {
            &&& run_search(disk, key, stage, m) matches SearchStageView::Done(found)
            &&& outcome == outcome_of(disk, key.file_md5, found)
        },
    decreases n,
{
    if n == 0 {
        0
    } else {
        let next = next_search_stage(key, stage, answer_of(disk, question_of(key, stage)));
        let left = (n - 1) as nat;
        reveal_with_fuel(run_resolution, 3);
        reveal_with_fuel(run_search, 2);
        match next {
            SearchStageView::Done(None) => {
                lemma_done_stays(
                    answers,
                    disk,
                    OutcomeView::NoFile { md5: key.file_md5 },
                    left,
                );
                1
            },
            SearchStageView::Done(Some(place)) => {
                if left > 0 {
                    lemma_done_stays(
                        answers,
                        disk,
                        OutcomeView::Found { md5: key.file_md5, place, size: (disk.size)(place) },
                        (left - 1) as nat,
                    );
                }
                1
            },
            _ => lemma_search(answers, disk, key, next, left) + 1,
        }
    }
}

/// An attachment that comes to the end of its way has come to what the database
/// and the disk say of it. Without a digest nothing is searched; with one, the
/// file is the one that the disk has for it.
pub proof fn law_resolution(
    answers: ResourceAnswers,
    disk: Disk,
    kind: AttachmentKind,
    chat_dir: Seq<char>,
    months: Seq<Seq<char>>,
    n: nat,
)
    ensures
        run_resolution(
            answers,
            disk,
            ResolutionView::Lookup { kind, chat_dir, months, stage: Md5StageView::Chat },
            n,
        ) matches ResolutionView::Done(outcome) ==> match digest_in(answers) {
            None => outcome == OutcomeView::NoResource,
            Some(md5) => {
                let key = SearchKeyView { kind, file_md5: md5, chat_dir };
                &&& media_file(disk, key, months, n) matches Some(found)
                &&& outcome == outcome_of(disk, md5, found)
            },
        },
{
    let start = ResolutionView::Lookup { kind, chat_dir, months, stage: Md5StageView::Chat };
    reveal_with_fuel(run_resolution, 4);
    if n >= 1 {
        lemma_done_stays(answers, disk, OutcomeView::NoResource, (n - 1) as nat);
    }
    if n >= 2 {
        lemma_done_stays(answers, disk, OutcomeView::NoResource, (n - 2) as nat);
    }
    if n >= 3 {
        lemma_done_stays(answers, disk, OutcomeView::NoResource, (n - 3) as nat);
    }
    if let Some(md5) = digest_in(answers) {
        let key = SearchKeyView { kind, file_md5: md5, chat_dir };
        let asked: nat = if answers.exact is Some {
            2
        } else {
            3
        };
        if n >= asked {
            let left = (n - asked) as nat;
            let m = lemma_search(answers, disk, key, SearchStageView::Chat { months }, left);
            law_search_finds_the_file(disk, key, months, m);
            if media_file(disk, key, months, m) is Some {
                lemma_media_file_limit(disk, key, months, m, n);
            }
        }
    }
}

/// A search that ends alone ends as part of the way.
proof fn lemma_search_ends(
    answers: ResourceAnswers,
    disk: Disk,
    key: SearchKeyView,
    stage: SearchStageView,
    m: nat,
) -> (n: nat)
    requires
        !(stage is Done),
        run_search(disk, key, stage, m) is Done,
    ensures
        run_resolution(answers, disk, ResolutionView::Search { key, stage }, n) is Done,
    decreases m,
{
    let next = next_search_stage(key, stage, answer_of(disk, question_of(key, stage)));
    reveal_with_fuel(run_resolution, 3);
    match next {
        SearchStageView::Done(None) => 1,
        SearchStageView::Done(Some(_)) => 2,
        _ => lemma_search_ends(answers, disk, key, next, (m - 1) as nat) + 1,
    }
}

/// Every attachment comes to the end of its way: always where it is no voice
/// message or where the database has no digest for it, and else where the tree
/// that is searched for a voice message ends.
pub proof fn law_resolution_ends(
    answers: ResourceAnswers,
    disk: Disk,
    kind: AttachmentKind,
    chat_dir: Seq<char>,
    months: Seq<Seq<char>>,
    limit: nat,
)
    requires
        kind == AttachmentKind::Voice ==> match digest_in(answers) {
            Some(md5) => media_file(
                disk,
                SearchKeyView { kind, file_md5: md5, chat_dir },
                months,
                limit,
            ) is Some,
            None => true,
        },
    ensures
        exists|n: nat| #[trigger]
            run_resolution(
                answers,
                disk,
                ResolutionView::Lookup { kind, chat_dir, months, stage: Md5StageView::Chat },
                n,
            ) is Done,
{
    let start = ResolutionView::Lookup { kind, chat_dir, months, stage: Md5StageView::Chat };
    reveal_with_fuel(run_resolution, 4);
    match digest_in(answers) {
        None => {
            lemma_done_stays(answers, disk, OutcomeView::NoResource, 1);
            lemma_done_stays(answers, disk, OutcomeView::NoResource, 2);
            assert(run_resolution(answers, disk, start, 3) is Done);
        },
        Some(md5) => {
            let key = SearchKeyView { kind, file_md5: md5, chat_dir };
            let stage = SearchStageView::Chat { months };
            law_search_ends(disk, key, months, limit);
            let m = choose|m: nat| #[trigger] run_search(disk, key, stage, m) is Done;
            let left = lemma_search_ends(answers, disk, key, stage, m);
            let asked: nat = if answers.exact is Some {
                2
            } else {
                3
            };
            assert(run_resolution(answers, disk, start, asked + left) is Done);
        },
    }
}

/// An attachment that comes to the end of its way has no resource exactly where the
/// database knows no digest: where the chat is unknown, where the row with the
/// message's time has none, or where there is no such row and the latest one has
/// none. Else the file that the disk has for that very digest is found, with its own
/// length, or none is.
pub proof fn law_outcome(
    answers: ResourceAnswers,
    disk: Disk,
    kind: AttachmentKind,
    chat_dir: Seq<char>,
    months: Seq<Seq<char>>,
    n: nat,
    outcome: OutcomeView,
)
    requires
        run_resolution(
            answers,
            disk,
            ResolutionView::Lookup { kind, chat_dir, months, stage: Md5StageView::Chat },
            n,
        ) == ResolutionView::Done(outcome),
    ensures
        ({
            let row = if answers.exact is Some {
                answers.exact
            } else {
                answers.latest
            };
            let known = answers.chat_id is Some && row is Some && packed_md5(row->0) is Some;
            &&& outcome is NoResource <==> !known
            &&& known ==> {
                let md5 = packed_md5(row->0)->0;
                let key = SearchKeyView { kind, file_md5: md5, chat_dir };
                &&& media_file(disk, key, months, n) is Some
                &&& media_file(disk, key, months, n) matches Some(Some(place)) ==> outcome == (
                OutcomeView::Found { md5, place, size: (disk.size)(place) })
                &&& media_file(disk, key, months, n) == Some(None::<Place>) ==> outcome == (
                OutcomeView::NoFile { md5 })
            }
        }),
{
    law_resolution(answers, disk, kind, chat_dir, months, n);
}

/// A message is looked up by its own chat, number, time and type, and what is
/// reported is reported of it.
pub proof fn law_way_is_of_its_attachment(at: Resolution, id: AttachmentId)
    requires
        at.is_of(id),
    ensures
        at matches Resolution::Lookup { kind, lookup, .. } ==> {
            &&& kind == id.kind
            &&& lookup.key.chat == id.chat
            &&& lookup.key.local_id == id.local_id
            &&& lookup.key.create_time == id.create_time
            &&& lookup.key.type_lo32 == kind_type(id.kind)
        },
        at matches Resolution::Search { id: own, search } ==> own == id && search.key.kind
            == id.kind,
        at matches Resolution::Size { id: own, .. } ==> own == id,
        at matches Resolution::Done(Ok(found)) ==> found.id == id,
        at matches Resolution::Done(Err(ResolveError::NoResource { chat, local_id, type_lo32 }))
            ==> chat == id.chat && local_id == id.local_id && type_lo32 == kind_type(id.kind),
        at matches Resolution::Done(Err(ResolveError::NoFile { kind, chat, create_time, .. }))
            ==> kind == id.kind && chat == id.chat && create_time == id.create_time,
{
}

/// Where an attachment stands says the digest, the place and the length that were
/// found.
pub proof fn law_resolution_view(at: Resolution)
    ensures
        at matches Resolution::Done(Ok(found)) ==> at@ == ResolutionView::Done(
            OutcomeView::Found { md5: found.md5@, place: found.dat_path@, size: found.size },
        ),
        at matches Resolution::Done(Err(ResolveError::NoFile { md5, .. })) ==> at@
            == ResolutionView::Done(OutcomeView::NoFile { md5: md5@ }),
        at matches Resolution::Done(Err(ResolveError::NoResource { .. })) ==> at@
            == ResolutionView::Done(OutcomeView::NoResource),
        at matches Resolution::Size { md5, dat_path, .. } ==> at@ == (ResolutionView::Size {
            md5: md5@,
            place: dat_path@,
        }),
        at matches Resolution::Search { search, .. } ==> at@ == (ResolutionView::Search {
            key: search.key@,
            stage: search.stage@,
        }),
        at matches Resolution::Lookup { kind, chat_dir, months, lookup } ==> at@ == (
        ResolutionView::Lookup {
            kind,
            chat_dir: chat_dir@,
            months: texts_view(months@),
            stage: lookup.stage@,
        }),
{
}

/// A length that cannot be told counts as 0, and any other as itself.
pub proof fn law_length(md5: Seq<char>, place: Place, size: u64)
    ensures
        next_resolution(
            ResolutionView::Size { md5, place },
            ResolveAnswerView::Size(Some(size)),
        ) == ResolutionView::Done(OutcomeView::Found { md5, place, size }),
        next_resolution(ResolutionView::Size { md5, place }, ResolveAnswerView::Size(None))
            == ResolutionView::Done(OutcomeView::Found { md5, place, size: 0 }),
{
}

/// Each stage of a lookup asks its own query.
pub proof fn law_queries(key: MessageKey, chat_id: int)
    ensures
        md5_query(key, Md5StageView::Chat) == Some(chat_query(key)),
        md5_query(key, Md5StageView::Exact(chat_id)) == Some(exact_query(key, chat_id)),
        md5_query(key, Md5StageView::Latest(chat_id)) == Some(latest_query(key, chat_id)),
{
}

/// The words for an attachment without a file name its kind, its digest, its chat
/// and its time.
pub proof fn law_words_for_no_file(
    kind: AttachmentKind,
    md5: String,
    chat: String,
    create_time: i64,
)
    ensures
        ({
            let words = ResolveError::NoFile { kind, md5, chat, create_time }.words();
            &&& holds_text(words, kind_name(kind))
            &&& holds_text(words, md5@)
            &&& holds_text(words, chat@)
            &&& holds_text(words, signed_decimal(create_time as int))
        }),
{
    let words = ResolveError::NoFile { kind, md5, chat, create_time }.words();
    let a = "找不到本地附件文件（kind="@;
    let b = a + kind_name(kind) + " md5="@;
    let c = b + md5@ + " chat="@;
    let d = c + chat@ + " create_time="@;
    let time = signed_decimal(create_time as int);
    let end = "）— 微信可能尚未下载该附件，或附件已被清理"@;
    assert(words == d + time + end);
    lemma_holds(words, a, kind_name(kind));
    lemma_holds(words, b, md5@);
    lemma_holds(words, c, chat@);
    lemma_holds(words, d, time);
}

/// The words for a message without a digest name its chat, its number and its type.
pub proof fn law_words_for_no_resource(chat: String, local_id: i64, type_lo32: i64)
    ensures
        ({
            let words = ResolveError::NoResource { chat, local_id, type_lo32 }.words();
            &&& holds_text(words, chat@)
            &&& holds_text(words, signed_decimal(local_id as int))
            &&& holds_text(words, signed_decimal(type_lo32 as int))
        }),
{
    let words = ResolveError::NoResource { chat, local_id, type_lo32 }.words();
    let a = "message_resource.db 中找不到 chat="@;
    let b = a + chat@ + " local_id="@;
    let c = b + signed_decimal(local_id as int) + " type="@;
    lemma_holds(words, a, chat@);
    lemma_holds(words, b, signed_decimal(local_id as int));
    lemma_holds(words, c, signed_decimal(type_lo32 as int));
}

/// A text that starts with two texts holds the second.
proof fn lemma_holds(words: Seq<char>, before: Seq<char>, part: Seq<char>)
    requires
        before.len() + part.len() <= words.len(),
        words.subrange(before.len() as int, (before.len() + part.len()) as int) =~= part,
    ensures
        holds_text(words, part),
{
    assert(words.subrange(before.len() as int, before.len() as int + part.len()) == part);
}

/// An answer to another question does not move an attachment, and nothing moves one
/// at the end of its way.
pub proof fn law_other_answers_do_not_count(at: ResolutionView, answer: ResolveAnswerView)
    ensures
        at is Lookup && !(answer is Query) ==> next_resolution(at, answer) == at,
        at is Search && !(answer is Disk) ==> next_resolution(at, answer) == at,
        at is Size && !(answer is Size) ==> next_resolution(at, answer) == at,
        at is Done ==> next_resolution(at, answer) == at,
{
}

} // verus!
