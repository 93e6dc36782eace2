//! Looking a voice message up in the media database.
//!
//! The table `VoiceInfo` has had several shapes. In the present one a row names
//! its chat by a number, in the older one by name; either may lack the message's
//! time. A voice message may lie in several rows, which are put together in the
//! order of their numbers.

use vstd::prelude::*;

use crate::sql::{SqlQuery, SqlQueryView, SqlValue, SqlValueView};
use crate::sql_meaning::{
    any_text, column_is, comes_before, comparison_text, holds, in_column, is_answer,
    law_equals_sign, lemma_column_is, lemma_select_text, less, meets, one_holds, pick_text,
    picked_text, picked_value, select_text, term_value, under_name, Comparison, Datum, OrderKey,
    Pick, Picked, Select, TableRow, Term,
};
use crate::text::{decimal, is_one_of, texts_view};

verus! {

// ---------------------------------------------------------------------------
// Putting rows together
// ---------------------------------------------------------------------------

/// A voice message.
#[derive(Debug, Clone)]
pub struct ResolvedVoiceMedia {
    pub data: Vec<u8>,
    pub chunks: usize,
    pub svr_id: Option<i64>,
}

/// A row of `VoiceInfo`.
#[derive(Debug, Clone)]
pub struct VoiceRow {
    pub index: i64,
    pub chunk: Vec<u8>,
    pub svr_id: Option<i64>,
}

/// A row of `VoiceInfo`.
pub struct VoiceRowView {
    pub index: int,
    pub chunk: Seq<u8>,
    pub svr_id: Option<i64>,
}

impl View for VoiceRow {
    type V = VoiceRowView;

    open spec fn view(&self) -> VoiceRowView {
        VoiceRowView { index: self.index as int, chunk: self.chunk@, svr_id: self.svr_id }
    }
}

/// The rows, each by what it says.
pub open spec fn rows_view(rows: Seq<VoiceRow>) -> Seq<VoiceRowView> {
    rows.map_values(|r: VoiceRow| r@)
}

/// Puts a row behind those whose number is not higher.
pub open spec fn insert_row(sorted: Seq<VoiceRowView>, row: VoiceRowView) -> Seq<VoiceRowView>
    decreases sorted.len(),
{
    if sorted.len() == 0 || sorted.last().index <= row.index {
        sorted.push(row)
    } else {
        insert_row(sorted.drop_last(), row).push(sorted.last())
    }
}

/// The rows by rising number; rows of one number keep their order.
pub open spec fn in_order(rows: Seq<VoiceRowView>) -> Seq<VoiceRowView>
    decreases rows.len(),
{
    if rows.len() == 0 {
        Seq::empty()
    } else {
        insert_row(in_order(rows.drop_last()), rows.last())
    }
}

/// The bytes of the rows, one row behind the other.
pub open spec fn joined(rows: Seq<VoiceRowView>) -> Seq<u8>
    decreases rows.len(),
{
    if rows.len() == 0 {
        Seq::empty()
    } else {
        joined(rows.drop_last()) + rows.last().chunk
    }
}

/// The first server number that a row gives.
pub open spec fn first_svr_id(rows: Seq<VoiceRowView>) -> Option<i64>
    decreases rows.len(),
{
    if rows.len() == 0 {
        None
    } else if rows[0].svr_id is Some {
        rows[0].svr_id
    } else {
        first_svr_id(rows.drop_first())
    }
}

/// A voice message.
pub struct VoiceMediaView {
    pub data: Seq<u8>,
    pub chunks: nat,
    pub svr_id: Option<i64>,
}

impl View for ResolvedVoiceMedia {
    type V = VoiceMediaView;

    open spec fn view(&self) -> VoiceMediaView {
        VoiceMediaView { data: self.data@, chunks: self.chunks as nat, svr_id: self.svr_id }
    }
}

/// The voice message in some rows; rows without a byte hold none.
pub open spec fn assembled(rows: Seq<VoiceRowView>) -> Option<VoiceMediaView> {
    let sorted = in_order(rows);
    if joined(sorted).len() == 0 {
        None
    } else {
        Some(
            VoiceMediaView {
                data: joined(sorted),
                chunks: rows.len(),
                svr_id: first_svr_id(sorted),
            },
        )
    }
}

proof fn lemma_insert_row(sorted: Seq<VoiceRowView>, row: VoiceRowView, at: int)
    requires
        0 <= at <= sorted.len(),
        forall|j: int| at <= j < sorted.len() ==> (#[trigger] sorted[j]).index > row.index,
        at > 0 ==> sorted[at - 1].index <= row.index,
    ensures
        insert_row(sorted, row) == sorted.insert(at, row),
    decreases sorted.len(),
{
    if at < sorted.len() {
        lemma_insert_row(sorted.drop_last(), row, at);
        assert(sorted.drop_last().insert(at, row).push(sorted.last()) =~= sorted.insert(at, row));
    } else {
        assert(sorted.push(row) =~= sorted.insert(at, row));
    }
}

proof fn lemma_insert_row_len(sorted: Seq<VoiceRowView>, row: VoiceRowView)
    ensures
        insert_row(sorted, row).len() == sorted.len() + 1,
    decreases sorted.len(),
{
    if sorted.len() > 0 && sorted.last().index > row.index {
        lemma_insert_row_len(sorted.drop_last(), row);
    }
}

/// The rows that carry one number, in the order in which they stand.
pub open spec fn with_index(rows: Seq<VoiceRowView>, index: int) -> Seq<VoiceRowView> {
    rows.filter(|r: VoiceRowView| r.index == index)
}

proof fn lemma_filter_push(rows: Seq<VoiceRowView>, row: VoiceRowView, index: int)
    ensures
        with_index(rows.push(row), index) == if row.index == index {
            with_index(rows, index).push(row)
        } else {
            with_index(rows, index)
        },
{
    reveal(Seq::filter);
    assert(rows.push(row).drop_last() =~= rows);
}

proof fn lemma_insert_row_law(sorted: Seq<VoiceRowView>, row: VoiceRowView, index: int)
    requires
        forall|i: int, j: int|
            0 <= i < j < sorted.len() ==> (#[trigger] sorted[i]).index <= (#[trigger] sorted[j]).index,
    ensures
        forall|i: int, j: int|
            0 <= i < j < insert_row(sorted, row).len() ==> (#[trigger] insert_row(sorted, row)[i]).index
                <= (#[trigger] insert_row(sorted, row)[j]).index,
        with_index(insert_row(sorted, row), index) == with_index(sorted.push(row), index),
        insert_row(sorted, row).to_multiset() == sorted.to_multiset().insert(row),
        insert_row(sorted, row).len() > 0,
        insert_row(sorted, row).last() == if sorted.len() > 0 && sorted.last().index > row.index {
            sorted.last()
        } else {
            row
        },
    decreases sorted.len(),
{
    broadcast use vstd::seq_lib::group_to_multiset_ensures;

    if sorted.len() > 0 && sorted.last().index > row.index {
        let front = sorted.drop_last();
        let last = sorted.last();
        lemma_insert_row_law(front, row, index);
        lemma_insert_row_len(front, row);
        let inner = insert_row(front, row);
        assert(sorted =~= front.push(last));
        lemma_filter_push(inner, last, index);
        lemma_filter_push(front, row, index);
        lemma_filter_push(front, last, index);
        lemma_filter_push(sorted, row, index);
        assert(inner.to_multiset().insert(last) =~= front.to_multiset().insert(row).insert(last));
        assert(sorted.to_multiset().insert(row) =~= front.to_multiset().insert(last).insert(row));
        let whole = insert_row(sorted, row);
        assert(whole == inner.push(last));
        assert forall|i: int, j: int| 0 <= i < j < whole.len() implies (#[trigger] whole[i]).index <= (
        #[trigger] whole[j]).index by {
            if j == inner.len() {
                assert(whole[i] == inner[i]);
                if i < inner.len() - 1 {
                    assert(inner[i].index <= inner[inner.len() - 1].index);
                }
                if front.len() > 0 {
                    assert(sorted[front.len() - 1].index <= sorted[front.len() as int].index);
                }
            } else {
                assert(whole[i] == inner[i] && whole[j] == inner[j]);
            }
        }
    } else {
        let whole = sorted.push(row);
        assert forall|i: int, j: int| 0 <= i < j < whole.len() implies (#[trigger] whole[i]).index <= (
        #[trigger] whole[j]).index by {
            if j == sorted.len() && i < sorted.len() - 1 {
                assert(sorted[i].index <= sorted[sorted.len() - 1].index);
            }
        }
    }
}

/// Ordering the rows loses and adds none, lets their numbers rise, and keeps the
/// order of rows with one number.
pub proof fn law_in_order(rows: Seq<VoiceRowView>, index: int)
    ensures
        forall|i: int, j: int|
            0 <= i < j < in_order(rows).len() ==> (#[trigger] in_order(rows)[i]).index <= (
            #[trigger] in_order(rows)[j]).index,
        in_order(rows).to_multiset() == rows.to_multiset(),
        with_index(in_order(rows), index) == with_index(rows, index),
    decreases rows.len(),
{
    broadcast use vstd::seq_lib::group_to_multiset_ensures;

    if rows.len() > 0 {
        let front = rows.drop_last();
        let row = rows.last();
        law_in_order(front, index);
        lemma_insert_row_law(in_order(front), row, index);
        assert(rows =~= front.push(row));
        lemma_filter_push(front, row, index);
        lemma_filter_push(in_order(front), row, index);
    }
}

/// Orders rows by their numbers.
fn sort_rows(rows: Vec<VoiceRow>) -> (sorted: Vec<VoiceRow>)
    ensures
        rows_view(sorted@) == in_order(rows_view(rows@)),
{
    let mut sorted: Vec<VoiceRow> = Vec::new();
    let ghost all = rows@;
    assert(rows_view(all).take(0) =~= Seq::empty());
    assert(rows_view(sorted@) =~= Seq::empty());
    for row in it: rows
        invariant
            it.seq() == all,
            rows_view(sorted@) == in_order(rows_view(all).take(it.index() as int)),
    {
        let ghost view = rows_view(all);
        let ghost i = it.index() as int;
        let ghost before = rows_view(sorted@);
        let mut at: usize = sorted.len();
        while at > 0 && sorted[at - 1].index > row.index
            invariant
                at <= sorted@.len(),
                before == rows_view(sorted@),
                forall|j: int| at <= j < sorted@.len() ==> (#[trigger] before[j]).index > row.index,
            decreases at,
        {
            at -= 1;
        }
        proof {
            lemma_insert_row(before, row@, at as int);
            assert(view.take(i + 1).drop_last() =~= view.take(i));
            assert(view.take(i + 1).last() == row@);
        }
        sorted.insert(at, row);
        assert(rows_view(sorted@) =~= before.insert(at as int, row@));
    }
    assert(rows_view(all).take(all.len() as int) =~= rows_view(all));
    sorted
}

/// Puts the rows of a voice message together.
pub fn assemble_voice(rows: Vec<VoiceRow>) -> (media: Option<ResolvedVoiceMedia>)
    ensures
        match media {
            Some(m) => assembled(rows_view(rows@)) == Some(m@),
            None => assembled(rows_view(rows@)) is None,
        },
{
    let chunks: usize = rows.len();
    let sorted = sort_rows(rows);
    let ghost view = rows_view(sorted@);
    let mut data: Vec<u8> = Vec::new();
    let mut svr_id: Option<i64> = None;
    let mut i: usize = 0;
    assert(view.take(0) =~= Seq::empty());
    assert(view.skip(0) =~= view);
    while i < sorted.len()
        invariant
            i <= sorted@.len(),
            view == rows_view(sorted@),
            data@ == joined(view.take(i as int)),
            svr_id is Some ==> svr_id == first_svr_id(view),
            svr_id is None ==> first_svr_id(view) == first_svr_id(view.skip(i as int)),
        decreases sorted@.len() - i,
    {
        assert(view.take(i + 1).drop_last() =~= view.take(i as int));
        assert(view.skip(i as int).drop_first() =~= view.skip(i + 1));
        let row = &sorted[i];
        let ghost so_far = data@;
        data.extend_from_slice(row.chunk.as_slice());
        assert(data@ =~= so_far + row.chunk@);
        if svr_id.is_none() {
            svr_id = row.svr_id;
        }
        i += 1;
    }
    assert(view.take(view.len() as int) =~= view);
    if data.len() == 0 {
        return None;
    }
    Some(ResolvedVoiceMedia { data, chunks, svr_id })
}

// ---------------------------------------------------------------------------
// Finding the rows
// ---------------------------------------------------------------------------

/// The columns of `VoiceInfo` that a lookup can use.
#[derive(Debug, Clone, Copy, PartialEq, Eq, Structural)]
pub struct VoiceColumns {
    pub voice_data: bool,
    pub data_index: bool,
    pub svr_id: bool,
    pub local_id: bool,
    pub chat_name_id: bool,
    pub create_time: bool,
    pub msgid: bool,
    pub user_name: bool,
    pub msgtime: bool,
}

/// The usable columns among those of these names.
pub open spec fn columns_among(names: Seq<Seq<char>>) -> VoiceColumns {
    VoiceColumns {
        voice_data: names.contains("voice_data"@),
        data_index: names.contains("data_index"@),
        svr_id: names.contains("svr_id"@),
        local_id: names.contains("local_id"@),
        chat_name_id: names.contains("chat_name_id"@),
        create_time: names.contains("create_time"@),
        msgid: names.contains("msgid"@),
        user_name: names.contains("user_name"@),
        msgtime: names.contains("msgtime"@),
    }
}

/// Looks for the usable columns among names.
pub fn voice_columns(names: &Vec<String>) -> (columns: VoiceColumns)
    ensures
        columns == columns_among(texts_view(names@)),
{
    VoiceColumns {
        voice_data: is_one_of(names, "voice_data"),
        data_index: is_one_of(names, "data_index"),
        svr_id: is_one_of(names, "svr_id"),
        local_id: is_one_of(names, "local_id"),
        chat_name_id: is_one_of(names, "chat_name_id"),
        create_time: is_one_of(names, "create_time"),
        msgid: is_one_of(names, "msgid"),
        user_name: is_one_of(names, "user_name"),
        msgtime: is_one_of(names, "msgtime"),
    }
}

/// The voice message that is looked up.
#[derive(Debug)]
pub struct VoiceKey {
    pub chat: String,
    pub local_id: i64,
    pub create_time: i64,
}

/// Where a lookup stands.
#[derive(Debug)]
pub enum VoiceStage {
    /// Is there a table `VoiceInfo`?
    Table,
    /// The names of its columns are wanted.
    Columns,
    /// The chat's number is wanted.
    Chat(VoiceColumns),
    /// The rows of the chat with this number are wanted.
    ByChatId(VoiceColumns, i64),
    /// The rows of the chat of this name are wanted.
    ByUserName(VoiceColumns),
    /// The lookup is over.
    Done(Option<ResolvedVoiceMedia>),
}

/// Where a lookup stands.
pub enum VoiceStageView {
    Table,
    Columns,
    Chat(VoiceColumns),
    ByChatId(VoiceColumns, int),
    ByUserName(VoiceColumns),
    Done(Option<VoiceMediaView>),
}

impl View for VoiceStage {
    type V = VoiceStageView;

    open spec fn view(&self) -> VoiceStageView {
        match self {
            VoiceStage::Table => VoiceStageView::Table,
            VoiceStage::Columns => VoiceStageView::Columns,
            VoiceStage::Chat(columns) => VoiceStageView::Chat(*columns),
            VoiceStage::ByChatId(columns, id) => VoiceStageView::ByChatId(*columns, *id as int),
            VoiceStage::ByUserName(columns) => VoiceStageView::ByUserName(*columns),
            VoiceStage::Done(None) => VoiceStageView::Done(None),
            VoiceStage::Done(Some(media)) => VoiceStageView::Done(Some(media@)),
        }
    }
}

/// What the database answered.
#[derive(Debug)]
pub enum VoiceReply {
    /// Did the query give a row?
    Exists(bool),
    /// The names of a table's columns.
    Columns(Vec<String>),
    /// A chat's number; `None` where the query gave no row, or failed.
    ChatId(Option<i64>),
    /// The rows of a voice message. A missing number counts as 0 and a missing
    /// chunk as empty.
    Rows(Vec<VoiceRow>),
}

/// What the database answered.
pub enum VoiceReplyView {
    Exists(bool),
    Columns(Seq<Seq<char>>),
    ChatId(Option<int>),
    Rows(Seq<VoiceRowView>),
}

impl View for VoiceReply {
    type V = VoiceReplyView;

    open spec fn view(&self) -> VoiceReplyView {
        match self {
            VoiceReply::Exists(found) => VoiceReplyView::Exists(*found),
            VoiceReply::Columns(names) => VoiceReplyView::Columns(texts_view(names@)),
            VoiceReply::ChatId(None) => VoiceReplyView::ChatId(None),
            VoiceReply::ChatId(Some(id)) => VoiceReplyView::ChatId(Some(*id as int)),
            VoiceReply::Rows(rows) => VoiceReplyView::Rows(rows_view(rows@)),
        }
    }
}

/// Where the lookup goes when rows cannot be had by the chat's number: to the
/// older shape of the table, if the table has it.
pub open spec fn older_shape(columns: VoiceColumns) -> VoiceStageView {
    if columns.msgid && columns.user_name {
        VoiceStageView::ByUserName(columns)
    } else {
        VoiceStageView::Done(None)
    }
}

/// How an answer moves a lookup on. An answer to another question does not.
pub open spec fn next_voice_stage(stage: VoiceStageView, reply: VoiceReplyView) -> VoiceStageView {
    match (stage, reply) {
        (VoiceStageView::Table, VoiceReplyView::Exists(found)) => if found {
            VoiceStageView::Columns
        } else {
            VoiceStageView::Done(None)
        },
        (VoiceStageView::Columns, VoiceReplyView::Columns(names)) => {
            let columns = columns_among(names);
            if !columns.voice_data {
                VoiceStageView::Done(None)
            } else if columns.local_id && columns.chat_name_id {
                VoiceStageView::Chat(columns)
            } else {
                older_shape(columns)
            }
        },
        (VoiceStageView::Chat(columns), VoiceReplyView::ChatId(Some(id))) => {
            VoiceStageView::ByChatId(columns, id)
        },
        (VoiceStageView::Chat(_), VoiceReplyView::ChatId(None)) => VoiceStageView::Done(None),
        (VoiceStageView::ByChatId(columns, _), VoiceReplyView::Rows(rows)) => if rows.len() == 0 {
            older_shape(columns)
        } else {
            VoiceStageView::Done(assembled(rows))
        },
        (VoiceStageView::ByUserName(_), VoiceReplyView::Rows(rows)) => VoiceStageView::Done(
            assembled(rows),
        ),
        (stage, _) => stage,
    }
}

/// The text of the query for the rows that meet a condition.
pub open spec fn rows_query_text(columns: VoiceColumns, condition: Seq<char>) -> Seq<char> {
    "SELECT "@ + (if columns.data_index {
        "CAST(COALESCE(data_index, '0') AS INTEGER)"@
    } else {
        "0"@
    }) + " AS voice_index, voice_data, "@ + (if columns.svr_id {
        "svr_id"@
    } else {
        "NULL"@
    }) + " AS voice_svr_id FROM VoiceInfo WHERE "@ + condition + " ORDER BY voice_index, rowid"@
}

/// Asks for the rows of a chat with a number; by the message's time too, where
/// the table has it.
pub open spec fn by_chat_id_query(
    key: VoiceKey,
    columns: VoiceColumns,
    chat_id: int,
) -> SqlQueryView {
    if columns.create_time {
        SqlQueryView {
            text: rows_query_text(
                columns,
                "chat_name_id = ?1 AND local_id = ?2 AND create_time = ?3"@,
            ),
            params: seq![
                SqlValueView::Integer(chat_id),
                SqlValueView::Integer(key.local_id as int),
                SqlValueView::Integer(key.create_time as int),
            ],
        }
    } else {
        SqlQueryView {
            text: rows_query_text(columns, "chat_name_id = ?1 AND local_id = ?2"@),
            params: seq![
                SqlValueView::Integer(chat_id),
                SqlValueView::Integer(key.local_id as int),
            ],
        }
    }
}

/// Asks for the rows of a chat of a name; by the message's time too, where the
/// table has it.
pub open spec fn by_user_name_query(key: VoiceKey, columns: VoiceColumns) -> SqlQueryView {
    if columns.msgtime {
        SqlQueryView {
            text: rows_query_text(columns, "user_name = ?1 AND msgid = ?2 AND msgtime = ?3"@),
            params: seq![
                SqlValueView::Text(key.chat@),
                SqlValueView::Integer(key.local_id as int),
                SqlValueView::Integer(key.create_time as int),
            ],
        }
    } else {
        SqlQueryView {
            text: rows_query_text(columns, "user_name = ?1 AND msgid = ?2"@),
            params: seq![
                SqlValueView::Text(key.chat@),
                SqlValueView::Integer(key.local_id as int),
            ],
        }
    }
}

/// The query whose answer a stage wants.
pub open spec fn voice_query(key: VoiceKey, stage: VoiceStageView) -> Option<SqlQueryView> {
    match stage {
        VoiceStageView::Table => Some(
            SqlQueryView {
                text: "SELECT 1 FROM sqlite_master WHERE type='table' AND name='VoiceInfo'"@,
                params: seq![],
            },
        ),
        VoiceStageView::Columns => Some(
            SqlQueryView { text: "PRAGMA table_info(VoiceInfo)"@, params: seq![] },
        ),
        VoiceStageView::Chat(_) => Some(
            SqlQueryView {
                text: "SELECT rowid FROM Name2Id WHERE user_name = ?1"@,
                params: seq![SqlValueView::Text(key.chat@)],
            },
        ),
        VoiceStageView::ByChatId(columns, id) => Some(by_chat_id_query(key, columns, id)),
        VoiceStageView::ByUserName(columns) => Some(by_user_name_query(key, columns)),
        VoiceStageView::Done(_) => None,
    }
}

/// A lookup of a voice message.
#[derive(Debug)]
pub struct VoiceLookup {
    pub key: VoiceKey,
    pub stage: VoiceStage,
}

/// Starts a lookup.
pub fn lookup_voice_media_blocking(chat: String, local_id: i64, create_time: i64) -> (lookup:
    VoiceLookup)
    ensures
        lookup.key == (VoiceKey { chat, local_id, create_time }),
        lookup.stage@ == VoiceStageView::Table,
{
    VoiceLookup { key: VoiceKey { chat, local_id, create_time }, stage: VoiceStage::Table }
}

/// Writes the query for the rows that meet a condition.
pub fn query_voice_rows(columns: VoiceColumns, condition: &str) -> (text: String)
    ensures
        text@ == rows_query_text(columns, condition@),
{
    let mut text = "SELECT ".to_owned();
    if columns.data_index {
        text.append("CAST(COALESCE(data_index, '0') AS INTEGER)");
    } else {
        text.append("0");
    }
    text.append(" AS voice_index, voice_data, ");
    if columns.svr_id {
        text.append("svr_id");
    } else {
        text.append("NULL");
    }
    text.append(" AS voice_svr_id FROM VoiceInfo WHERE ");
    text.append(condition);
    text.append(" ORDER BY voice_index, rowid");
    text
}

fn stage_in_older_shape(columns: VoiceColumns) -> (stage: VoiceStage)
    ensures
        stage@ == older_shape(columns),
{
    if columns.msgid && columns.user_name {
        VoiceStage::ByUserName(columns)
    } else {
        VoiceStage::Done(None)
    }
}

impl VoiceLookup {
    /// The query whose answer is wanted; none when the lookup is over.
    pub fn query(&self) -> (query: Option<SqlQuery>)
        ensures
            match query {
                Some(q) => voice_query(self.key, self.stage@) == Some(q@),
                None => voice_query(self.key, self.stage@) is None,
            },
    {
        let query = match &self.stage {
            VoiceStage::Table => SqlQuery {
                text:
                    "SELECT 1 FROM sqlite_master WHERE type='table' AND name='VoiceInfo'".to_owned(),
                params: Vec::new(),
            },
            VoiceStage::Columns => SqlQuery {
                text: "PRAGMA table_info(VoiceInfo)".to_owned(),
                params: Vec::new(),
            },
            VoiceStage::Chat(_) => SqlQuery {
                text: "SELECT rowid FROM Name2Id WHERE user_name = ?1".to_owned(),
                params: vec![SqlValue::Text(self.key.chat.clone())],
            },
            VoiceStage::ByChatId(columns, id) => if columns.create_time {
                SqlQuery {
                    text: query_voice_rows(
                        *columns,
                        "chat_name_id = ?1 AND local_id = ?2 AND create_time = ?3",
                    ),
                    params: vec![
                        SqlValue::Integer(*id),
                        SqlValue::Integer(self.key.local_id),
                        SqlValue::Integer(self.key.create_time),
                    ],
                }
            } else {
                SqlQuery {
                    text: query_voice_rows(*columns, "chat_name_id = ?1 AND local_id = ?2"),
                    params: vec![
                        SqlValue::Integer(*id),
                        SqlValue::Integer(self.key.local_id),
                    ],
                }
            },
            VoiceStage::ByUserName(columns) => if columns.msgtime {
                SqlQuery {
                    text: query_voice_rows(
                        *columns,
                        "user_name = ?1 AND msgid = ?2 AND msgtime = ?3",
                    ),
                    params: vec![
                        SqlValue::Text(self.key.chat.clone()),
                        SqlValue::Integer(self.key.local_id),
                        SqlValue::Integer(self.key.create_time),
                    ],
                }
            } else {
                SqlQuery {
                    text: query_voice_rows(*columns, "user_name = ?1 AND msgid = ?2"),
                    params: vec![
                        SqlValue::Text(self.key.chat.clone()),
                        SqlValue::Integer(self.key.local_id),
                    ],
                }
            },
            VoiceStage::Done(_) => {
                return None;
            },
        };
        assert(query@.params =~= voice_query(self.key, self.stage@)->0.params);
        Some(query)
    }

    /// Takes the answer to the query.
    pub fn answer(self, reply: VoiceReply) -> (lookup: VoiceLookup)
        ensures
            lookup.key == self.key,
            lookup.stage@ == next_voice_stage(self.stage@, reply@),
    {
        let VoiceLookup { key, stage } = self;
        let stage = match (stage, reply) {
            (VoiceStage::Table, VoiceReply::Exists(found)) => if found {
                VoiceStage::Columns
            } else {
                VoiceStage::Done(None)
            },
            (VoiceStage::Columns, VoiceReply::Columns(names)) => {
                let columns = voice_columns(&names);
                if !columns.voice_data {
                    VoiceStage::Done(None)
                } else if columns.local_id && columns.chat_name_id {
                    VoiceStage::Chat(columns)
                } else {
                    stage_in_older_shape(columns)
                }
            },
            (VoiceStage::Chat(columns), VoiceReply::ChatId(Some(id))) => {
                VoiceStage::ByChatId(columns, id)
            },
            (VoiceStage::Chat(_), VoiceReply::ChatId(None)) => VoiceStage::Done(None),
            (VoiceStage::ByChatId(columns, _), VoiceReply::Rows(rows)) => if rows.len() == 0 {
                stage_in_older_shape(columns)
            } else {
                VoiceStage::Done(assemble_voice(rows))
            },
            (VoiceStage::ByUserName(_), VoiceReply::Rows(rows)) => VoiceStage::Done(
                assemble_voice(rows),
            ),
            (stage, _) => stage,
        };
        VoiceLookup { key, stage }
    }
}

/// What a database answers to the queries of one lookup.
pub struct VoiceAnswers {
    pub table: bool,
    pub columns: Seq<Seq<char>>,
    pub chat_id: Option<int>,
    pub by_chat_id: Seq<VoiceRowView>,
    pub by_user_name: Seq<VoiceRowView>,
}

/// The answer to the query of a stage.
pub open spec fn voice_reply(answers: VoiceAnswers, stage: VoiceStageView) -> VoiceReplyView {
    match stage {
        VoiceStageView::Table => VoiceReplyView::Exists(answers.table),
        VoiceStageView::Columns => VoiceReplyView::Columns(answers.columns),
        VoiceStageView::Chat(_) => VoiceReplyView::ChatId(answers.chat_id),
        VoiceStageView::ByChatId(_, _) => VoiceReplyView::Rows(answers.by_chat_id),
        _ => VoiceReplyView::Rows(answers.by_user_name),
    }
}

/// A lookup that is answered `n` times.
pub open spec fn run_voice(answers: VoiceAnswers, stage: VoiceStageView, n: nat) -> VoiceStageView
    decreases n,
{
    if n == 0 {
        stage
    } else {
        run_voice(
            answers,
            next_voice_stage(stage, voice_reply(answers, stage)),
            (n - 1) as nat,
        )
    }
}

/// What a lookup finds in a database: the rows of the table's present shape,
/// where it has that shape and knows the chat; where they are none, or the table
/// lacks that shape, the rows of the older shape.
pub open spec fn voice_outcome(answers: VoiceAnswers) -> Option<VoiceMediaView> {
    let columns = columns_among(answers.columns);
    let present = columns.local_id && columns.chat_name_id;
    let older = columns.msgid && columns.user_name;
    if !answers.table || !columns.voice_data {
        None
    } else if present && answers.chat_id is None {
        None
    } else if present && answers.by_chat_id.len() > 0 {
        assembled(answers.by_chat_id)
    } else if older {
        assembled(answers.by_user_name)
    } else {
        None
    }
}

/// Five answers end every lookup, with what the database holds of the message.
pub proof fn law_voice_lookup_finds_the_rows(answers: VoiceAnswers)
    ensures
        run_voice(answers, VoiceStageView::Table, 5) == VoiceStageView::Done(
            voice_outcome(answers),
        ),
{
    reveal_with_fuel(run_voice, 6);
}

/// Every query for rows asks for the wanted chat and for the number of the wanted
/// message.
pub proof fn law_rows_are_asked_for_by_chat(key: VoiceKey, columns: VoiceColumns, chat_id: int)
    ensures
        by_chat_id_query(key, columns, chat_id).params.take(2) == seq![
            SqlValueView::Integer(chat_id),
            SqlValueView::Integer(key.local_id as int),
        ],
        by_user_name_query(key, columns).params.take(2) == seq![
            SqlValueView::Text(key.chat@),
            SqlValueView::Integer(key.local_id as int),
        ],
{
}

/// Where the table holds the time of its messages, every query for rows asks for
/// the time of the wanted one.
pub proof fn law_rows_are_asked_for_by_time(key: VoiceKey, columns: VoiceColumns, chat_id: int)
    ensures
        columns.create_time ==> by_chat_id_query(key, columns, chat_id).params.contains(
            SqlValueView::Integer(key.create_time as int),
        ),
        columns.msgtime ==> by_user_name_query(key, columns).params.contains(
            SqlValueView::Integer(key.create_time as int),
        ),
{
    if columns.create_time {
        assert(by_chat_id_query(key, columns, chat_id).params[2] == SqlValueView::Integer(
            key.create_time as int,
        ));
    }
    if columns.msgtime {
        assert(by_user_name_query(key, columns).params[2] == SqlValueView::Integer(
            key.create_time as int,
        ));
    }
}

// ---------------------------------------------------------------------------
// What a voice message is made of
// ---------------------------------------------------------------------------

/// A row says its number, its bytes and its server number, and rows say so in
/// their order.
pub proof fn law_rows_view(rows: Seq<VoiceRow>, i: int)
    requires
        0 <= i < rows.len(),
    ensures
        rows_view(rows).len() == rows.len(),
        rows_view(rows)[i].index == rows[i].index,
        rows_view(rows)[i].chunk == rows[i].chunk@,
        rows_view(rows)[i].svr_id == rows[i].svr_id,
{
}

/// A voice message says its bytes, the number of its rows and its server number.
pub proof fn law_media_view(media: ResolvedVoiceMedia)
    ensures
        media@.data == media.data@,
        media@.chunks == media.chunks,
        media@.svr_id == media.svr_id,
{
}

/// How many bytes the rows have together.
pub open spec fn total_len(rows: Seq<VoiceRowView>) -> nat
    decreases rows.len(),
{
    if rows.len() == 0 {
        0
    } else {
        total_len(rows.drop_last()) + rows.last().chunk.len()
    }
}

/// Putting rows together loses and adds no byte: there are as many as the rows
/// have, and each byte of each row stands behind the bytes of the rows before it.
pub proof fn law_joined(rows: Seq<VoiceRowView>, i: int, k: int)
    ensures
        joined(rows).len() == total_len(rows),
        0 <= i < rows.len() && 0 <= k < rows[i].chunk.len() ==> {
            &&& total_len(rows.take(i)) + k < joined(rows).len()
            &&& joined(rows)[total_len(rows.take(i)) + k] == rows[i].chunk[k]
        },
    decreases rows.len(),
{
    if rows.len() > 0 {
        let front = rows.drop_last();
        law_joined(front, i, k);
        if 0 <= i < front.len() {
            assert(front.take(i) =~= rows.take(i));
        } else if i == front.len() {
            assert(rows.take(i) =~= front);
        }
    }
}

proof fn lemma_no_bytes(rows: Seq<VoiceRowView>)
    ensures
        total_len(rows) == 0 <==> forall|i: int|
            0 <= i < rows.len() ==> (#[trigger] rows[i]).chunk.len() == 0,
    decreases rows.len(),
{
    if rows.len() > 0 {
        let front = rows.drop_last();
        lemma_no_bytes(front);
        if total_len(rows) == 0 {
            assert forall|i: int| 0 <= i < rows.len() implies (#[trigger] rows[i]).chunk.len()
                == 0 by {
                if i < front.len() {
                    assert(front[i] == rows[i]);
                }
            }
        }
        if forall|i: int| 0 <= i < rows.len() ==> (#[trigger] rows[i]).chunk.len() == 0 {
            assert(rows[rows.len() - 1].chunk.len() == 0);
            assert forall|i: int| 0 <= i < front.len() implies (#[trigger] front[i]).chunk.len()
                == 0 by {
                assert(front[i] == rows[i]);
            }
        }
    }
}

/// The server number is that of the first row that has one.
pub proof fn law_first_svr_id(rows: Seq<VoiceRowView>)
    ensures
        match first_svr_id(rows) {
            Some(id) => exists|i: int|
                {
                    &&& 0 <= i < rows.len()
                    &&& (#[trigger] rows[i]).svr_id == Some(id)
                    &&& forall|j: int| 0 <= j < i ==> (#[trigger] rows[j]).svr_id is None
                },
            None => forall|j: int| 0 <= j < rows.len() ==> (#[trigger] rows[j]).svr_id is None,
        },
    decreases rows.len(),
{
    if rows.len() > 0 {
        if rows[0].svr_id is None {
            let rest = rows.drop_first();
            law_first_svr_id(rest);
            match first_svr_id(rest) {
                Some(id) => {
                    let i = choose|i: int|
                        {
                            &&& 0 <= i < rest.len()
                            &&& (#[trigger] rest[i]).svr_id == Some(id)
                            &&& forall|j: int| 0 <= j < i ==> (#[trigger] rest[j]).svr_id is None
                        };
                    assert(rows[i + 1].svr_id == Some(id));
                    assert forall|j: int| 0 <= j < i + 1 implies (#[trigger] rows[j]).svr_id is None by {
                        if j > 0 {
                            assert(rest[j - 1].svr_id is None);
                        }
                    }
                },
                None => {
                    assert forall|j: int| 0 <= j < rows.len() implies (
                    #[trigger] rows[j]).svr_id is None by {
                        if j > 0 {
                            assert(rest[j - 1].svr_id is None);
                        }
                    }
                },
            }
        } else {
            assert(rows[0].svr_id is Some);
        }
    }
}

/// A voice message is all bytes of its rows, in the order of the rows' numbers;
/// there is none where no row has a byte. It tells how many rows it was made of.
pub proof fn law_assembled(rows: Seq<VoiceRowView>, i: int, k: int)
    ensures
        assembled(rows) is None <==> forall|j: int|
            0 <= j < rows.len() ==> (#[trigger] rows[j]).chunk.len() == 0,
        assembled(rows) matches Some(media) ==> {
            let sorted = in_order(rows);
            &&& media.chunks == rows.len()
            &&& sorted.len() == rows.len()
            &&& media.data.len() == total_len(sorted)
            &&& 0 <= i < sorted.len() && 0 <= k < sorted[i].chunk.len() ==> {
                &&& total_len(sorted.take(i)) + k < media.data.len()
                &&& media.data[total_len(sorted.take(i)) + k] == sorted[i].chunk[k]
            }
            &&& media.svr_id == first_svr_id(sorted)
        },
{
    let sorted = in_order(rows);
    law_joined(sorted, i, k);
    lemma_no_bytes(sorted);
    law_in_order(rows, 0);
    lemma_same_members(rows, sorted);
    if forall|j: int| 0 <= j < rows.len() ==> (#[trigger] rows[j]).chunk.len() == 0 {
        assert forall|j: int| 0 <= j < sorted.len() implies (#[trigger] sorted[j]).chunk.len()
            == 0 by {
            assert(sorted.contains(sorted[j]));
            let l = choose|l: int| 0 <= l < rows.len() && rows[l] == sorted[j];
            assert(rows[l].chunk.len() == 0);
        }
    }
    if forall|j: int| 0 <= j < sorted.len() ==> (#[trigger] sorted[j]).chunk.len() == 0 {
        assert forall|j: int| 0 <= j < rows.len() implies (#[trigger] rows[j]).chunk.len() == 0 by {
            assert(rows.contains(rows[j]));
            assert(sorted.contains(rows[j]));
            let l = choose|l: int| 0 <= l < sorted.len() && sorted[l] == rows[j];
            assert(sorted[l].chunk.len() == 0);
        }
    }
}

proof fn lemma_same_members(rows: Seq<VoiceRowView>, sorted: Seq<VoiceRowView>)
    requires
        sorted.to_multiset() == rows.to_multiset(),
    ensures
        sorted.len() == rows.len(),
        forall|row: VoiceRowView| #[trigger] sorted.contains(row) <==> rows.contains(row),
{
    broadcast use vstd::seq_lib::group_to_multiset_ensures;

    assert(sorted.len() == sorted.to_multiset().len());
    assert(rows.len() == rows.to_multiset().len());
    assert forall|row: VoiceRowView| #[trigger] sorted.contains(row) <==> rows.contains(row) by {
        assert(sorted.contains(row) <==> sorted.to_multiset().count(row) > 0);
        assert(rows.contains(row) <==> rows.to_multiset().count(row) > 0);
    }
}

/// A voice message in one row is that row's bytes.
pub proof fn law_one_row(row: VoiceRowView)
    requires
        row.chunk.len() > 0,
    ensures
        assembled(seq![row]) == Some(
            VoiceMediaView { data: row.chunk, chunks: 1, svr_id: row.svr_id },
        ),
{
    let rows = seq![row];
    let none = rows.drop_last();
    assert(none =~= Seq::empty());
    reveal_with_fuel(in_order, 2);
    reveal_with_fuel(joined, 2);
    reveal_with_fuel(first_svr_id, 2);
    assert(in_order(rows) =~= rows);
    assert(joined(rows) =~= row.chunk);
}

// ---------------------------------------------------------------------------
// What the queries find
// ---------------------------------------------------------------------------

/// The statement that asks for rows under some conditions.
pub open spec fn rows_statement(
    columns: VoiceColumns,
    conditions: Seq<Seq<Comparison>>,
) -> Select {
    Select {
        picks: seq![
            Pick {
                picked: if columns.data_index {
                    Picked::WholeNumber { column: "data_index"@, missing: 0 }
                } else {
                    Picked::Number(0)
                },
                name: Some("voice_index"@),
            },
            Pick { picked: Picked::Column("voice_data"@), name: None },
            Pick {
                picked: if columns.svr_id {
                    Picked::Column("svr_id"@)
                } else {
                    Picked::Null
                },
                name: Some("voice_svr_id"@),
            },
        ],
        table: "VoiceInfo"@,
        conditions,
        order: seq![
            OrderKey { name: "voice_index"@, descending: false },
            OrderKey { name: "rowid"@, descending: false },
        ],
        limit: None,
    }
}

/// The statement that asks for rows by the chat's number.
pub open spec fn by_chat_id_statement(columns: VoiceColumns) -> Select {
    rows_statement(
        columns,
        if columns.create_time {
            seq![
                column_is("chat_name_id"@, 1),
                column_is("local_id"@, 2),
                column_is("create_time"@, 3),
            ]
        } else {
            seq![column_is("chat_name_id"@, 1), column_is("local_id"@, 2)]
        },
    )
}

/// The statement that asks for rows by the chat's name.
pub open spec fn by_user_name_statement(columns: VoiceColumns) -> Select {
    rows_statement(
        columns,
        if columns.msgtime {
            seq![column_is("user_name"@, 1), column_is("msgid"@, 2), column_is("msgtime"@, 3)]
        } else {
            seq![column_is("user_name"@, 1), column_is("msgid"@, 2)]
        },
    )
}

/// The statement that asks for the chat's number.
pub open spec fn name_statement() -> Select {
    Select {
        picks: seq![Pick { picked: Picked::Column("rowid"@), name: None }],
        table: "Name2Id"@,
        conditions: seq![column_is("user_name"@, 1)],
        order: seq![],
        limit: None,
    }
}

proof fn lemma_digits()
    ensures
        decimal(0) == "0"@,
        decimal(1) == "1"@,
        decimal(2) == "2"@,
        decimal(3) == "3"@,
{
    reveal_strlit("0");
    reveal_strlit("1");
    reveal_strlit("2");
    reveal_strlit("3");
}

proof fn lemma_comparisons()
    ensures
        comparison_text(column_is("chat_name_id"@, 1)[0]) == "chat_name_id = ?1"@,
        comparison_text(column_is("local_id"@, 2)[0]) == "local_id = ?2"@,
        comparison_text(column_is("create_time"@, 3)[0]) == "create_time = ?3"@,
        comparison_text(column_is("user_name"@, 1)[0]) == "user_name = ?1"@,
        comparison_text(column_is("msgid"@, 2)[0]) == "msgid = ?2"@,
        comparison_text(column_is("msgtime"@, 3)[0]) == "msgtime = ?3"@,
{
    lemma_digits();
    reveal_strlit("?");
    reveal_strlit(" ");
    reveal_strlit("=");
    reveal_strlit("1");
    reveal_strlit("2");
    reveal_strlit("3");
    reveal_strlit("chat_name_id");
    reveal_strlit("chat_name_id = ?1");
    reveal_strlit("local_id");
    reveal_strlit("local_id = ?2");
    reveal_strlit("create_time");
    reveal_strlit("create_time = ?3");
    reveal_strlit("user_name");
    reveal_strlit("user_name = ?1");
    reveal_strlit("msgid");
    reveal_strlit("msgid = ?2");
    reveal_strlit("msgtime");
    reveal_strlit("msgtime = ?3");
}

proof fn lemma_regroup_picks(
    index: Seq<char>,
    named: Seq<char>,
    first: Seq<char>,
    comma: Seq<char>,
    second: Seq<char>,
    id: Seq<char>,
    third: Seq<char>,
)
    ensures
        (index + named + first) + comma + second + comma + (id + named + third) == index + (named
            + first + comma + second + comma) + id + (named + third),
{
    assert((index + named + first) + comma + second + comma + (id + named + third) =~= index + (
    named + first + comma + second + comma) + id + (named + third));
}

proof fn lemma_regroup_statement(
    select: Seq<char>,
    index: Seq<char>,
    middle: Seq<char>,
    id: Seq<char>,
    third: Seq<char>,
    from: Seq<char>,
    table: Seq<char>,
    filter: Seq<char>,
    condition: Seq<char>,
    order: Seq<char>,
)
    ensures
        select + (index + middle + id + third) + from + table + filter + condition + order
            + Seq::<char>::empty() == select + index + middle + id + (third + from + table + filter)
            + condition + order,
{
    assert(select + (index + middle + id + third) + from + table + filter + condition + order
        + Seq::<char>::empty() =~= select + index + middle + id + (third + from + table + filter)
        + condition + order);
}

/// The pieces of a query for rows.
proof fn lemma_row_words()
    ensures
        " AS voice_index, voice_data, "@ == " AS "@ + "voice_index"@ + ", "@ + "voice_data"@
            + ", "@,
        " AS voice_svr_id FROM VoiceInfo WHERE "@ == (" AS "@ + "voice_svr_id"@) + " FROM "@
            + "VoiceInfo"@ + " WHERE "@,
        " ORDER BY voice_index, rowid"@ == " ORDER BY "@ + ("voice_index"@ + ", "@ + "rowid"@),
        "CAST(COALESCE("@ + "data_index"@ + ", '"@ + "0"@ + "') AS INTEGER)"@
            == "CAST(COALESCE(data_index, '0') AS INTEGER)"@,
{
    reveal_strlit(" AS voice_index, voice_data, ");
    reveal_strlit(" AS ");
    reveal_strlit("voice_index");
    reveal_strlit(", ");
    reveal_strlit("voice_data");
    reveal_strlit(" AS voice_svr_id FROM VoiceInfo WHERE ");
    reveal_strlit("voice_svr_id");
    reveal_strlit(" FROM ");
    reveal_strlit("VoiceInfo");
    reveal_strlit(" WHERE ");
    reveal_strlit(" ORDER BY voice_index, rowid");
    reveal_strlit(" ORDER BY ");
    reveal_strlit("rowid");
    reveal_strlit("CAST(COALESCE(");
    reveal_strlit("data_index");
    reveal_strlit(", '");
    reveal_strlit("0");
    reveal_strlit("') AS INTEGER)");
    reveal_strlit("CAST(COALESCE(data_index, '0') AS INTEGER)");
}

proof fn lemma_rows_text(columns: VoiceColumns, conditions: Seq<Seq<Comparison>>, text: Seq<char>)
    requires
        2 <= conditions.len() <= 3,
        text == if conditions.len() == 2 {
            any_text(conditions[0]) + " AND "@ + any_text(conditions[1])
        } else {
            any_text(conditions[0]) + " AND "@ + any_text(conditions[1]) + " AND "@ + any_text(
                conditions[2],
            )
        },
    ensures
        select_text(rows_statement(columns, conditions)) == rows_query_text(columns, text),
{
    let s = rows_statement(columns, conditions);
    lemma_digits();
    lemma_select_text(s);
    lemma_row_words();
    let index = picked_text(s.picks[0].picked);
    let id = picked_text(s.picks[2].picked);
    lemma_regroup_picks(
        index,
        " AS "@,
        "voice_index"@,
        ", "@,
        "voice_data"@,
        id,
        "voice_svr_id"@,
    );
    lemma_regroup_statement(
        "SELECT "@,
        index,
        " AS voice_index, voice_data, "@,
        id,
        " AS "@ + "voice_svr_id"@,
        " FROM "@,
        "VoiceInfo"@,
        " WHERE "@,
        text,
        " ORDER BY voice_index, rowid"@,
    );
}

/// A row of the wanted voice message, in the table's present shape.
pub open spec fn is_voice_row(
    row: TableRow,
    key: VoiceKey,
    columns: VoiceColumns,
    chat_id: int,
) -> bool {
    &&& in_column(row, "chat_name_id"@) == Datum::Integer(chat_id)
    &&& in_column(row, "local_id"@) == Datum::Integer(key.local_id as int)
    &&& columns.create_time ==> in_column(row, "create_time"@) == Datum::Integer(
        key.create_time as int,
    )
}

/// A row of the wanted voice message, in the table's older shape.
pub open spec fn is_older_voice_row(row: TableRow, key: VoiceKey, columns: VoiceColumns) -> bool {
    &&& in_column(row, "user_name"@) == Datum::Text(key.chat@)
    &&& in_column(row, "msgid"@) == Datum::Integer(key.local_id as int)
    &&& columns.msgtime ==> in_column(row, "msgtime"@) == Datum::Integer(key.create_time as int)
}

proof fn lemma_chat_id_meets(key: VoiceKey, columns: VoiceColumns, chat_id: int, row: TableRow)
    ensures
        meets(
            by_chat_id_statement(columns),
            row,
            by_chat_id_query(key, columns, chat_id).params,
        ) <==> is_voice_row(row, key, columns, chat_id),
{
    let s = by_chat_id_statement(columns);
    let params = by_chat_id_query(key, columns, chat_id).params;
    lemma_column_is("chat_name_id"@, 1, row, params);
    lemma_column_is("local_id"@, 2, row, params);
    if columns.create_time {
        lemma_column_is("create_time"@, 3, row, params);
    }
    if meets(s, row, params) {
        assert(one_holds(s.conditions[0], row, params));
        assert(one_holds(s.conditions[1], row, params));
        if columns.create_time {
            assert(one_holds(s.conditions[2], row, params));
        }
    }
}

proof fn lemma_user_name_meets(key: VoiceKey, columns: VoiceColumns, row: TableRow)
    ensures
        meets(
            by_user_name_statement(columns),
            row,
            by_user_name_query(key, columns).params,
        ) <==> is_older_voice_row(row, key, columns),
{
    let s = by_user_name_statement(columns);
    let params = by_user_name_query(key, columns).params;
    lemma_column_is("user_name"@, 1, row, params);
    lemma_column_is("msgid"@, 2, row, params);
    if columns.msgtime {
        lemma_column_is("msgtime"@, 3, row, params);
    }
    if meets(s, row, params) {
        assert(one_holds(s.conditions[0], row, params));
        assert(one_holds(s.conditions[1], row, params));
        if columns.msgtime {
            assert(one_holds(s.conditions[2], row, params));
        }
    }
}

/// What a statement for rows picks from a row: the row's number, where the table
/// has one, and else 0; its bytes; and its server number, where the table has one.
pub open spec fn picks_row(s: Select, columns: VoiceColumns, row: TableRow) -> bool {
    &&& s.table == "VoiceInfo"@
    &&& s.picks.len() == 3
    &&& picked_value(s.picks[0].picked, row) == if columns.data_index && !(in_column(
        row,
        "data_index"@,
    ) is Null) {
        in_column(row, "data_index"@)
    } else {
        Datum::Integer(0)
    }
    &&& picked_value(s.picks[1].picked, row) == in_column(row, "voice_data"@)
    &&& picked_value(s.picks[2].picked, row) == if columns.svr_id {
        in_column(row, "svr_id"@)
    } else {
        Datum::Null
    }
}

/// On every table, the query by the chat's number gives exactly the rows of the
/// wanted message: those with its chat and its number and, where the table holds
/// the time, with its time.
pub proof fn law_rows_by_chat_id(
    key: VoiceKey,
    columns: VoiceColumns,
    chat_id: int,
    table: Seq<TableRow>,
    places: Seq<int>,
)
    requires
        is_answer(
            by_chat_id_statement(columns),
            by_chat_id_query(key, columns, chat_id).params,
            table,
            places,
        ),
    ensures
        by_chat_id_query(key, columns, chat_id).text == select_text(by_chat_id_statement(columns)),
        forall|k: int|
            0 <= k < table.len() ==> (places.contains(k) <==> is_voice_row(
                #[trigger] table[k],
                key,
                columns,
                chat_id,
            )) && picks_row(by_chat_id_statement(columns), columns, table[k]),
{
    let s = by_chat_id_statement(columns);
    let params = by_chat_id_query(key, columns, chat_id).params;
    let condition = if columns.create_time {
        "chat_name_id = ?1 AND local_id = ?2 AND create_time = ?3"@
    } else {
        "chat_name_id = ?1 AND local_id = ?2"@
    };
    lemma_comparisons();
    assert(condition == if columns.create_time {
        "chat_name_id = ?1"@ + " AND "@ + "local_id = ?2"@ + " AND "@ + "create_time = ?3"@
    } else {
        "chat_name_id = ?1"@ + " AND "@ + "local_id = ?2"@
    }) by {
        reveal_strlit("chat_name_id = ?1 AND local_id = ?2 AND create_time = ?3");
        reveal_strlit("chat_name_id = ?1 AND local_id = ?2");
        reveal_strlit("chat_name_id = ?1");
        reveal_strlit("local_id = ?2");
        reveal_strlit("create_time = ?3");
        reveal_strlit(" AND ");
    }
    lemma_rows_text(columns, s.conditions, condition);
    assert forall|k: int| 0 <= k < table.len() implies (places.contains(k) <==> is_voice_row(
        #[trigger] table[k],
        key,
        columns,
        chat_id,
    )) && picks_row(s, columns, table[k]) by {
        lemma_chat_id_meets(key, columns, chat_id, table[k]);
        if places.contains(k) {
            let i = choose|i: int| 0 <= i < places.len() && places[i] == k;
            assert(meets(s, table[places[i]], params));
        }
    }
}

/// On every table, the query by the chat's name gives exactly the rows of the
/// wanted message: those with its chat and its number and, where the table holds
/// the time, with its time.
pub proof fn law_rows_by_user_name(
    key: VoiceKey,
    columns: VoiceColumns,
    table: Seq<TableRow>,
    places: Seq<int>,
)
    requires
        is_answer(
            by_user_name_statement(columns),
            by_user_name_query(key, columns).params,
            table,
            places,
        ),
    ensures
        by_user_name_query(key, columns).text == select_text(by_user_name_statement(columns)),
        forall|k: int|
            0 <= k < table.len() ==> (places.contains(k) <==> is_older_voice_row(
                #[trigger] table[k],
                key,
                columns,
            )) && picks_row(by_user_name_statement(columns), columns, table[k]),
{
    let s = by_user_name_statement(columns);
    let params = by_user_name_query(key, columns).params;
    let condition = if columns.msgtime {
        "user_name = ?1 AND msgid = ?2 AND msgtime = ?3"@
    } else {
        "user_name = ?1 AND msgid = ?2"@
    };
    lemma_comparisons();
    assert(condition == if columns.msgtime {
        "user_name = ?1"@ + " AND "@ + "msgid = ?2"@ + " AND "@ + "msgtime = ?3"@
    } else {
        "user_name = ?1"@ + " AND "@ + "msgid = ?2"@
    }) by {
        reveal_strlit("user_name = ?1 AND msgid = ?2 AND msgtime = ?3");
        reveal_strlit("user_name = ?1 AND msgid = ?2");
        reveal_strlit("user_name = ?1");
        reveal_strlit("msgid = ?2");
        reveal_strlit("msgtime = ?3");
        reveal_strlit(" AND ");
    }
    lemma_rows_text(columns, s.conditions, condition);
    assert forall|k: int| 0 <= k < table.len() implies (places.contains(k) <==> is_older_voice_row(
        #[trigger] table[k],
        key,
        columns,
    )) && picks_row(s, columns, table[k]) by {
        lemma_user_name_meets(key, columns, table[k]);
        if places.contains(k) {
            let i = choose|i: int| 0 <= i < places.len() && places[i] == k;
            assert(meets(s, table[places[i]], params));
        }
    }
}

/// On every table, the query for the chat gives exactly the rows with the chat's
/// name. What is picked is the row's number.
pub proof fn law_name_query(
    key: VoiceKey,
    columns: VoiceColumns,
    table: Seq<TableRow>,
    places: Seq<int>,
)
    requires
        voice_query(key, VoiceStageView::Chat(columns)) is Some,
        is_answer(
            name_statement(),
            voice_query(key, VoiceStageView::Chat(columns))->0.params,
            table,
            places,
        ),
    ensures
        voice_query(key, VoiceStageView::Chat(columns))->0.text == select_text(name_statement()),
        name_statement().table == "Name2Id"@,
        name_statement().picks.len() == 1,
        name_statement().picks[0].picked == Picked::Column("rowid"@),
        forall|k: int|
            0 <= k < table.len() ==> (places.contains(k) <==> in_column(
                #[trigger] table[k],
                "user_name"@,
            ) == Datum::Text(key.chat@)),
{
    let s = name_statement();
    let params = voice_query(key, VoiceStageView::Chat(columns))->0.params;
    lemma_comparisons();
    lemma_select_text(s);
    reveal_strlit("SELECT ");
    reveal_strlit("rowid");
    reveal_strlit(" FROM ");
    reveal_strlit("Name2Id");
    reveal_strlit(" WHERE ");
    reveal_strlit("user_name = ?1");
    reveal_strlit("SELECT rowid FROM Name2Id WHERE user_name = ?1");
    assert forall|k: int| 0 <= k < table.len() implies (places.contains(k) <==> in_column(
        #[trigger] table[k],
        "user_name"@,
    ) == Datum::Text(key.chat@)) by {
        lemma_column_is("user_name"@, 1, table[k], params);
        assert(meets(s, table[k], params) ==> one_holds(s.conditions[0], table[k], params));
        assert(one_holds(s.conditions[0], table[k], params) ==> meets(s, table[k], params));
        if places.contains(k) {
            let i = choose|i: int| 0 <= i < places.len() && places[i] == k;
            assert(meets(s, table[places[i]], params));
        }
    }
}

/// The statement that asks whether the table is there.
pub open spec fn table_statement() -> Select {
    Select {
        picks: seq![Pick { picked: Picked::Number(1), name: None }],
        table: "sqlite_master"@,
        conditions: seq![
            seq![
                Comparison {
                    left: Term::Column("type"@),
                    gap: ""@,
                    sign: "="@,
                    right: Term::Quoted("table"@),
                },
            ],
            seq![
                Comparison {
                    left: Term::Column("name"@),
                    gap: ""@,
                    sign: "="@,
                    right: Term::Quoted("VoiceInfo"@),
                },
            ],
        ],
        order: seq![],
        limit: None,
    }
}

/// The first query gives a row exactly where there is a table of the name
/// `VoiceInfo`.
pub proof fn law_table_query(key: VoiceKey, schema: Seq<TableRow>, places: Seq<int>)
    requires
        is_answer(table_statement(), Seq::empty(), schema, places),
    ensures
        voice_query(key, VoiceStageView::Table) == Some(
            SqlQueryView { text: select_text(table_statement()), params: Seq::empty() },
        ),
        places.len() > 0 <==> exists|k: int|
            0 <= k < schema.len() && in_column(#[trigger] schema[k], "type"@) == Datum::Text(
                "table"@,
            ) && in_column(schema[k], "name"@) == Datum::Text("VoiceInfo"@),
{
    let s = table_statement();
    let none = Seq::<SqlValueView>::empty();
    lemma_digits();
    lemma_select_text(s);
    reveal_strlit("SELECT ");
    reveal_strlit("1");
    reveal_strlit(" FROM ");
    reveal_strlit("sqlite_master");
    reveal_strlit(" WHERE ");
    reveal_strlit("type");
    reveal_strlit("");
    reveal_strlit("=");
    reveal_strlit("'");
    reveal_strlit("table");
    reveal_strlit("name");
    reveal_strlit("VoiceInfo");
    reveal_strlit(" AND ");
    reveal_strlit("SELECT 1 FROM sqlite_master WHERE type='table' AND name='VoiceInfo'");
    assert(select_text(s)
        =~= "SELECT 1 FROM sqlite_master WHERE type='table' AND name='VoiceInfo'"@);
    assert(voice_query(key, VoiceStageView::Table)->0.params =~= none);
    assert forall|k: int| 0 <= k < schema.len() implies (places.contains(k) <==> in_column(
        #[trigger] schema[k],
        "type"@,
    ) == Datum::Text("table"@) && in_column(schema[k], "name"@) == Datum::Text("VoiceInfo"@)) by {
        let row = schema[k];
        law_equals_sign(in_column(row, "type"@), Datum::Text("table"@));
        law_equals_sign(in_column(row, "name"@), Datum::Text("VoiceInfo"@));
        let a = s.conditions[0];
        let b = s.conditions[1];
        assert(holds(a[0], row, none) ==> one_holds(a, row, none));
        assert(holds(b[0], row, none) ==> one_holds(b, row, none));
        if meets(s, row, none) {
            assert(one_holds(a, row, none));
            assert(one_holds(b, row, none));
        }
        if places.contains(k) {
            let i = choose|i: int| 0 <= i < places.len() && places[i] == k;
            assert(meets(s, schema[places[i]], none));
        }
    }
    if places.len() > 0 {
        assert(places.contains(places[0]));
        assert(0 <= places[0] < schema.len());
        assert(in_column(schema[places[0]], "type"@) == Datum::Text("table"@));
    }
}

// ---------------------------------------------------------------------------
// What a lookup comes to
// ---------------------------------------------------------------------------

/// A lookup uses the columns that the table has, by their names, and no others.
pub proof fn law_columns(names: Seq<Seq<char>>, name: Seq<char>)
    ensures
        ({
            let columns = columns_among(names.push(name));
            let before = columns_among(names);
            &&& columns.voice_data <==> before.voice_data || name == "voice_data"@
            &&& columns.data_index <==> before.data_index || name == "data_index"@
            &&& columns.svr_id <==> before.svr_id || name == "svr_id"@
            &&& columns.local_id <==> before.local_id || name == "local_id"@
            &&& columns.chat_name_id <==> before.chat_name_id || name == "chat_name_id"@
            &&& columns.create_time <==> before.create_time || name == "create_time"@
            &&& columns.msgid <==> before.msgid || name == "msgid"@
            &&& columns.user_name <==> before.user_name || name == "user_name"@
            &&& columns.msgtime <==> before.msgtime || name == "msgtime"@
        }),
{
    assert forall|wanted: Seq<char>| #[trigger] names.push(name).contains(wanted) <==> (
    names.contains(wanted) || name == wanted) by {
        let more = names.push(name);
        if names.contains(wanted) {
            let i = choose|i: int| 0 <= i < names.len() && names[i] == wanted;
            assert(more[i] == wanted);
        }
        if name == wanted {
            assert(more[names.len() as int] == wanted);
        }
        if more.contains(wanted) {
            let i = choose|i: int| 0 <= i < more.len() && more[i] == wanted;
            if i < names.len() {
                assert(names[i] == wanted);
            }
        }
    }
}

/// Without the table, or without its column of bytes, there is no voice message.
/// In a table of the present shape an unknown chat has none, and where rows are
/// found, the message is made of them. Else, in a table of the older shape, the
/// message is made of the rows that are found there.
pub proof fn law_lookup_uses_the_right_rows(answers: VoiceAnswers, n: nat)
    requires
        n >= 5,
    ensures
        ({
            let end = run_voice(answers, VoiceStageView::Table, n);
            let present = answers.columns.contains("local_id"@) && answers.columns.contains("chat_name_id"@);
            let older = answers.columns.contains("msgid"@) && answers.columns.contains("user_name"@);
            &&& !answers.table || !answers.columns.contains("voice_data"@) ==> end == VoiceStageView::Done(None)
            &&& answers.table && answers.columns.contains("voice_data"@) ==> {
                &&& present && answers.chat_id is None ==> end == VoiceStageView::Done(None)
                &&& present && answers.chat_id is Some && answers.by_chat_id.len() > 0 ==> end
                    == VoiceStageView::Done(assembled(answers.by_chat_id))
                &&& older && (!present || answers.chat_id is Some && answers.by_chat_id.len() == 0)
                    ==> end == VoiceStageView::Done(assembled(answers.by_user_name))
                &&& !older && !(present && answers.by_chat_id.len() > 0) ==> end
                    == VoiceStageView::Done(None)
            }
        }),
{
    law_voice_lookup_finds_the_rows(answers);
    lemma_voice_done_stays(answers, VoiceStageView::Table, 5, n);
}

proof fn lemma_voice_done_stays(answers: VoiceAnswers, stage: VoiceStageView, m: nat, n: nat)
    requires
        m <= n,
        run_voice(answers, stage, m) is Done,
    ensures
        run_voice(answers, stage, n) == run_voice(answers, stage, m),
    decreases n,
{
    if m == 0 {
        if n > 0 {
            lemma_voice_done_stays(answers, stage, 0, (n - 1) as nat);
        }
    } else {
        let next = next_voice_stage(stage, voice_reply(answers, stage));
        lemma_voice_done_stays(answers, next, (m - 1) as nat, (n - 1) as nat);
    }
}

/// The rows of an answer come by rising number, and rows of one number in the
/// order in which they were written.
pub proof fn law_order_of_rows(
    columns: VoiceColumns,
    conditions: Seq<Seq<Comparison>>,
    a: TableRow,
    b: TableRow,
)
    ensures
        ({
            let number = |row: TableRow|
                if columns.data_index && !(in_column(row, "data_index"@) is Null) {
                    in_column(row, "data_index"@)
                } else {
                    Datum::Integer(0)
                };
            comes_before(rows_statement(columns, conditions), a, b, 0) <==> {
                ||| less(number(a), number(b))
                ||| !less(number(b), number(a)) && less(
                    in_column(a, "rowid"@),
                    in_column(b, "rowid"@),
                )
            }
        }),
{
    let s = rows_statement(columns, conditions);
    reveal_strlit("voice_index");
    reveal_strlit("voice_svr_id");
    reveal_strlit("rowid");
    assert("voice_index"@.len() != "voice_svr_id"@.len());
    assert("rowid"@.len() != "voice_svr_id"@.len());
    assert("rowid"@.len() != "voice_index"@.len());
    reveal_with_fuel(comes_before, 3);
    reveal_with_fuel(under_name, 4);
}

/// A table without columns has none that a lookup can use.
pub proof fn law_no_columns()
    ensures
        ({
            let columns = columns_among(Seq::empty());
            &&& !columns.voice_data && !columns.data_index && !columns.svr_id
            &&& !columns.local_id && !columns.chat_name_id && !columns.create_time
            &&& !columns.msgid && !columns.user_name && !columns.msgtime
        }),
{
}

/// Stages and answers say what they hold.
pub proof fn law_voice_views(stage: VoiceStage, reply: VoiceReply)
    ensures
        stage matches VoiceStage::Chat(columns) ==> stage@ == VoiceStageView::Chat(columns),
        stage matches VoiceStage::ByChatId(columns, id) ==> stage@ == VoiceStageView::ByChatId(
            columns,
            id as int,
        ),
        stage matches VoiceStage::ByUserName(columns) ==> stage@ == VoiceStageView::ByUserName(
            columns,
        ),
        stage matches VoiceStage::Done(Some(media)) ==> stage@ == VoiceStageView::Done(
            Some(media@),
        ),
        stage matches VoiceStage::Done(None) ==> stage@ == VoiceStageView::Done(None),
        stage is Table ==> stage@ == VoiceStageView::Table,
        stage is Columns ==> stage@ == VoiceStageView::Columns,
        reply matches VoiceReply::Exists(found) ==> reply@ == VoiceReplyView::Exists(found),
        reply matches VoiceReply::Columns(names) ==> reply@ == VoiceReplyView::Columns(
            texts_view(names@),
        ),
        reply matches VoiceReply::ChatId(Some(id)) ==> reply@ == VoiceReplyView::ChatId(
            Some(id as int),
        ),
        reply matches VoiceReply::ChatId(None) ==> reply@ == VoiceReplyView::ChatId(None),
        reply matches VoiceReply::Rows(rows) ==> reply@ == VoiceReplyView::Rows(rows_view(rows@)),
{
}

/// Each stage asks its own query: first for the table, then for its columns, for the
/// chat, and for the rows. The rows are asked for with the chat's number that was
/// answered.
pub proof fn law_voice_queries(key: VoiceKey, columns: VoiceColumns, chat_id: int)
    ensures
        voice_query(key, VoiceStageView::Columns) == Some(
            SqlQueryView { text: "PRAGMA table_info(VoiceInfo)"@, params: Seq::empty() },
        ),
        voice_query(key, VoiceStageView::Chat(columns)) is Some,
        voice_query(key, VoiceStageView::ByChatId(columns, chat_id)) == Some(
            by_chat_id_query(key, columns, chat_id),
        ),
        voice_query(key, VoiceStageView::ByUserName(columns)) == Some(
            by_user_name_query(key, columns),
        ),
        next_voice_stage(VoiceStageView::Chat(columns), VoiceReplyView::ChatId(Some(chat_id)))
            == VoiceStageView::ByChatId(columns, chat_id),
{
}

/// The rows are asked for with the columns that the table was found to have.
pub proof fn law_columns_are_used(names: Seq<Seq<char>>)
    ensures
        ({
            let next = next_voice_stage(VoiceStageView::Columns, VoiceReplyView::Columns(names));
            &&& next matches VoiceStageView::Chat(columns) ==> columns == columns_among(names)
            &&& next matches VoiceStageView::ByUserName(columns) ==> columns == columns_among(names)
            &&& !(next is ByChatId)
        }),
{
}

/// An answer to another question does not move a lookup, and nothing moves one that
/// is over.
pub proof fn law_other_answers_do_not_count(stage: VoiceStageView, reply: VoiceReplyView)
    ensures
        stage is Table && !(reply is Exists) ==> next_voice_stage(stage, reply) == stage,
        stage is Columns && !(reply is Columns) ==> next_voice_stage(stage, reply) == stage,
        stage is Chat && !(reply is ChatId) ==> next_voice_stage(stage, reply) == stage,
        (stage is ByChatId || stage is ByUserName) && !(reply is Rows) ==> next_voice_stage(
            stage,
            reply,
        ) == stage,
        stage is Done ==> next_voice_stage(stage, reply) == stage,
{
}

} // verus!
