//! Looking a message's attachment up in the resource database.
//!
//! Within a chat the numbers of messages are used again, so the row with the
//! message's time is asked for first. Where the database holds another time,
//! the latest row of that number and type is taken.

use vstd::prelude::*;

use crate::packed_info::{extract_md5_from_packed_info, packed_md5};
use crate::sql::{SqlQuery, SqlQueryView, SqlValue, SqlValueView};
use crate::sql_meaning::{
    any_text, column_is, comes_before, comparison_text, holds, in_column, is_answer, joined_by, law_equals_sign,
    lemma_any_text, lemma_column_is, lemma_select_text, less, meets, one_holds, picked_value, remainder, select_text, term_value,
    under_name, Comparison, Datum, OrderKey, Pick, Picked, Select, TableRow, Term,
};
use crate::text::decimal;

verus! {

/// What the resource database says of an attachment.
#[derive(Debug, Clone)]
pub struct AttachmentMetadata {
    pub md5: String,
}

/// The message that is looked up.
#[derive(Debug)]
pub struct MessageKey {
    pub chat: String,
    pub local_id: i64,
    pub create_time: i64,
    /// The low 32 bits of the message's type; the high bits are flags.
    pub type_lo32: i64,
}

/// Where a lookup stands.
#[derive(Debug)]
pub enum Md5Stage {
    /// The chat's number is wanted.
    Chat,
    /// The information of the row with the message's time is wanted.
    Exact(i64),
    /// The information of the latest row is wanted.
    Latest(i64),
    /// The lookup is over.
    Done(Option<AttachmentMetadata>),
}

/// Where a lookup stands.
pub enum Md5StageView {
    Chat,
    Exact(int),
    Latest(int),
    Done(Option<Seq<char>>),
}

impl View for Md5Stage {
    type V = Md5StageView;

    open spec fn view(&self) -> Md5StageView {
        match self {
            Md5Stage::Chat => Md5StageView::Chat,
            Md5Stage::Exact(chat_id) => Md5StageView::Exact(*chat_id as int),
            Md5Stage::Latest(chat_id) => Md5StageView::Latest(*chat_id as int),
            Md5Stage::Done(None) => Md5StageView::Done(None),
            Md5Stage::Done(Some(meta)) => Md5StageView::Done(Some(meta.md5@)),
        }
    }
}

/// What the database answered. A query without a row, or that fails, is
/// answered with `None`.
#[derive(Debug)]
pub enum Md5Reply {
    ChatId(Option<i64>),
    PackedInfo(Option<Vec<u8>>),
}

/// What the database answered.
pub enum Md5ReplyView {
    ChatId(Option<int>),
    PackedInfo(Option<Seq<u8>>),
}

impl View for Md5Reply {
    type V = Md5ReplyView;

    open spec fn view(&self) -> Md5ReplyView {
        match self {
            Md5Reply::ChatId(None) => Md5ReplyView::ChatId(None),
            Md5Reply::ChatId(Some(id)) => Md5ReplyView::ChatId(Some(*id as int)),
            Md5Reply::PackedInfo(None) => Md5ReplyView::PackedInfo(None),
            Md5Reply::PackedInfo(Some(blob)) => Md5ReplyView::PackedInfo(Some(blob@)),
        }
    }
}

/// A lookup of an attachment's digest.
#[derive(Debug)]
pub struct Md5Lookup {
    pub key: MessageKey,
    pub stage: Md5Stage,
}

/// The digest in a row's information, or nothing where there is no row.
pub open spec fn md5_in(blob: Option<Seq<u8>>) -> Option<Seq<char>> {
    match blob {
        Some(blob) => packed_md5(blob),
        None => None,
    }
}

/// How an answer moves a lookup on. An answer to another question does not.
pub open spec fn next_md5_stage(stage: Md5StageView, reply: Md5ReplyView) -> Md5StageView {
    match (stage, reply) {
        (Md5StageView::Chat, Md5ReplyView::ChatId(None)) => Md5StageView::Done(None),
        (Md5StageView::Chat, Md5ReplyView::ChatId(Some(id))) => Md5StageView::Exact(id),
        (Md5StageView::Exact(_), Md5ReplyView::PackedInfo(Some(blob))) => Md5StageView::Done(
            packed_md5(blob),
        ),
        (Md5StageView::Exact(id), Md5ReplyView::PackedInfo(None)) => Md5StageView::Latest(id),
        (Md5StageView::Latest(_), Md5ReplyView::PackedInfo(blob)) => Md5StageView::Done(
            md5_in(blob),
        ),
        (stage, _) => stage,
    }
}

/// Starts a lookup.
pub fn lookup_md5_blocking(chat: String, local_id: i64, create_time: i64, type_lo32: i64) -> (lookup:
    Md5Lookup)
    ensures
        lookup.key == (MessageKey { chat, local_id, create_time, type_lo32 }),
        lookup.stage@ == Md5StageView::Chat,
{
    Md5Lookup {
        key: MessageKey { chat, local_id, create_time, type_lo32 },
        stage: Md5Stage::Chat,
    }
}

/// Asks for a chat's number.
pub open spec fn chat_query(key: MessageKey) -> SqlQueryView {
    SqlQueryView {
        text: "SELECT rowid FROM ChatName2Id WHERE user_name = ?1"@,
        params: seq![SqlValueView::Text(key.chat@)],
    }
}

/// Asks for the information of the row with the message's time; of several, the
/// one that was written last.
pub open spec fn exact_query(key: MessageKey, chat_id: int) -> SqlQueryView {
    SqlQueryView {
        text: "SELECT packed_info FROM MessageResourceInfo WHERE chat_id = ?1 AND message_local_id = ?2 AND (message_local_type = ?3 OR message_local_type % 4294967296 = ?3) AND message_create_time = ?4 ORDER BY rowid DESC LIMIT 1"@,
        params: seq![
            SqlValueView::Integer(chat_id),
            SqlValueView::Integer(key.local_id as int),
            SqlValueView::Integer(key.type_lo32 as int),
            SqlValueView::Integer(key.create_time as int),
        ],
    }
}

/// Asks for the information of the latest row.
pub open spec fn latest_query(key: MessageKey, chat_id: int) -> SqlQueryView {
    SqlQueryView {
        text: "SELECT packed_info FROM MessageResourceInfo WHERE chat_id = ?1 AND message_local_id = ?2 AND (message_local_type = ?3 OR message_local_type % 4294967296 = ?3) ORDER BY message_create_time DESC LIMIT 1"@,
        params: seq![
            SqlValueView::Integer(chat_id),
            SqlValueView::Integer(key.local_id as int),
            SqlValueView::Integer(key.type_lo32 as int),
        ],
    }
}

impl Md5Lookup {
    /// The query whose answer is wanted; none when the lookup is over.
    pub fn query(&self) -> (query: Option<SqlQuery>)
        ensures
            match self.stage@ {
                Md5StageView::Chat => query matches Some(q) && q@ == chat_query(self.key),
                Md5StageView::Exact(id) => query matches Some(q) && q@ == exact_query(self.key, id),
                Md5StageView::Latest(id) => query matches Some(q) && q@ == latest_query(
                    self.key,
                    id,
                ),
                Md5StageView::Done(_) => query is None,
            },
    {
        match &self.stage {
            Md5Stage::Chat => {
                let query = SqlQuery {
                    text: "SELECT rowid FROM ChatName2Id WHERE user_name = ?1".to_owned(),
                    params: vec![SqlValue::Text(self.key.chat.clone())],
                };
                assert(query@.params =~= chat_query(self.key).params);
                Some(query)
            },
            Md5Stage::Exact(chat_id) => {
                let query = SqlQuery {
                    text: "SELECT packed_info FROM MessageResourceInfo WHERE chat_id = ?1 AND message_local_id = ?2 AND (message_local_type = ?3 OR message_local_type % 4294967296 = ?3) AND message_create_time = ?4 ORDER BY rowid DESC LIMIT 1".to_owned(),
                    params: vec![
                        SqlValue::Integer(*chat_id),
                        SqlValue::Integer(self.key.local_id),
                        SqlValue::Integer(self.key.type_lo32),
                        SqlValue::Integer(self.key.create_time),
                    ],
                };
                assert(query@.params =~= exact_query(self.key, *chat_id as int).params);
                Some(query)
            },
            Md5Stage::Latest(chat_id) => {
                let query = SqlQuery {
                    text: "SELECT packed_info FROM MessageResourceInfo WHERE chat_id = ?1 AND message_local_id = ?2 AND (message_local_type = ?3 OR message_local_type % 4294967296 = ?3) ORDER BY message_create_time DESC LIMIT 1".to_owned(),
                    params: vec![
                        SqlValue::Integer(*chat_id),
                        SqlValue::Integer(self.key.local_id),
                        SqlValue::Integer(self.key.type_lo32),
                    ],
                };
                assert(query@.params =~= latest_query(self.key, *chat_id as int).params);
                Some(query)
            },
            Md5Stage::Done(_) => None,
        }
    }

    /// Takes the answer to the query.
    pub fn answer(self, reply: Md5Reply) -> (lookup: Md5Lookup)
        ensures
            lookup.key == self.key,
            lookup.stage@ == next_md5_stage(self.stage@, reply@),
    {
        let Md5Lookup { key, stage } = self;
        let stage = match (stage, reply) {
            (Md5Stage::Chat, Md5Reply::ChatId(None)) => Md5Stage::Done(None),
            (Md5Stage::Chat, Md5Reply::ChatId(Some(id))) => Md5Stage::Exact(id),
            (Md5Stage::Exact(_), Md5Reply::PackedInfo(Some(blob))) => {
                Md5Stage::Done(metadata_of(blob))
            },
            (Md5Stage::Exact(id), Md5Reply::PackedInfo(None)) => Md5Stage::Latest(id),
            (Md5Stage::Latest(_), Md5Reply::PackedInfo(Some(blob))) => {
                Md5Stage::Done(metadata_of(blob))
            },
            (Md5Stage::Latest(_), Md5Reply::PackedInfo(None)) => Md5Stage::Done(None),
            (stage, _) => stage,
        };
        Md5Lookup { key, stage }
    }
}

/// What a row's information says.
fn metadata_of(blob: Vec<u8>) -> (meta: Option<AttachmentMetadata>)
    ensures
        match meta {
            Some(m) => packed_md5(blob@) == Some(m.md5@),
            None => packed_md5(blob@) is None,
        },
{
    match extract_md5_from_packed_info(blob.as_slice()) {
        Some(md5) => Some(AttachmentMetadata { md5 }),
        None => None,
    }
}

/// What a database answers to the queries of one lookup.
pub struct ResourceAnswers {
    pub chat_id: Option<int>,
    pub exact: Option<Seq<u8>>,
    pub latest: Option<Seq<u8>>,
}

/// The answer to the query of a stage.
pub open spec fn md5_reply(answers: ResourceAnswers, stage: Md5StageView) -> Md5ReplyView {
    match stage {
        Md5StageView::Chat => Md5ReplyView::ChatId(answers.chat_id),
        Md5StageView::Exact(_) => Md5ReplyView::PackedInfo(answers.exact),
        _ => Md5ReplyView::PackedInfo(answers.latest),
    }
}

/// A lookup that is answered `n` times.
pub open spec fn run_md5(answers: ResourceAnswers, stage: Md5StageView, n: nat) -> Md5StageView
    decreases n,
{
    if n == 0 {
        stage
    } else {
        run_md5(
            answers,
            next_md5_stage(stage, md5_reply(answers, stage)),
            (n - 1) as nat,
        )
    }
}

/// Three answers end every lookup. It gives nothing for an unknown chat; else
/// the row with the message's time decides, and only where there is none the
/// latest row.
pub proof fn law_exact_time_wins(answers: ResourceAnswers)
    ensures
        run_md5(answers, Md5StageView::Chat, 3) == Md5StageView::Done(
            if answers.chat_id is None {
                None
            } else if answers.exact is Some {
                md5_in(answers.exact)
            } else {
                md5_in(answers.latest)
            },
        ),
{
    reveal_with_fuel(run_md5, 4);
}

// ---------------------------------------------------------------------------
// What the queries find
// ---------------------------------------------------------------------------

/// A row belongs to a message: it has the message's chat and number, and the low
/// 32 bits of its type are those of the message's type.
pub open spec fn is_row_of(row: TableRow, key: MessageKey, chat_id: int) -> bool {
    &&& in_column(row, "chat_id"@) == Datum::Integer(chat_id)
    &&& in_column(row, "message_local_id"@) == Datum::Integer(key.local_id as int)
    &&& in_column(row, "message_local_type"@) matches Datum::Integer(t) && (t == key.type_lo32
        || remainder(t, 0x1_0000_0000) == key.type_lo32)
}

/// A row has the message's time.
pub open spec fn has_time_of(row: TableRow, key: MessageKey) -> bool {
    in_column(row, "message_create_time"@) == Datum::Integer(key.create_time as int)
}

/// The flags in the high bits of a row's type do not count.
pub proof fn law_flags_do_not_count(row: TableRow, key: MessageKey, chat_id: int, t: int)
    requires
        0 <= key.type_lo32 < 0x1_0000_0000,
        in_column(row, "message_local_type"@) == Datum::Integer(t),
        in_column(row, "chat_id"@) == Datum::Integer(chat_id),
        in_column(row, "message_local_id"@) == Datum::Integer(key.local_id as int),
    ensures
        is_row_of(row, key, chat_id) ==> t % 0x1_0000_0000 == key.type_lo32,
        t >= 0 && t % 0x1_0000_0000 == key.type_lo32 ==> is_row_of(row, key, chat_id),
{
}

/// The comparisons of which one must hold for a row's type.
pub open spec fn wanted_type() -> Seq<Comparison> {
    seq![
        Comparison {
            left: Term::Column("message_local_type"@),
            gap: " "@,
            sign: "="@,
            right: Term::Param(3),
        },
        Comparison {
            left: Term::Remainder { column: "message_local_type"@, by: 4294967296 },
            gap: " "@,
            sign: "="@,
            right: Term::Param(3),
        },
    ]
}

proof fn lemma_wanted_type(row: TableRow, params: Seq<SqlValueView>, wanted: int)
    requires
        params.len() >= 3,
        params[2] == SqlValueView::Integer(wanted),
    ensures
        one_holds(wanted_type(), row, params) <==> (in_column(
            row,
            "message_local_type"@,
        ) matches Datum::Integer(t) && (t == wanted || remainder(t, 0x1_0000_0000) == wanted)),
{
    let whole = wanted_type()[0];
    let low = wanted_type()[1];
    law_equals_sign(term_value(whole.left, row, params), term_value(whole.right, row, params));
    law_equals_sign(term_value(low.left, row, params), term_value(low.right, row, params));
    assert(holds(whole, row, params) ==> one_holds(wanted_type(), row, params));
    assert(holds(low, row, params) ==> one_holds(wanted_type(), row, params));
}

/// The statement that asks for the row with the message's time.
pub open spec fn exact_statement() -> Select {
    Select {
        picks: seq![Pick { picked: Picked::Column("packed_info"@), name: None }],
        table: "MessageResourceInfo"@,
        conditions: seq![
            column_is("chat_id"@, 1),
            column_is("message_local_id"@, 2),
            wanted_type(),
            column_is("message_create_time"@, 4),
        ],
        order: seq![OrderKey { name: "rowid"@, descending: true }],
        limit: Some(1),
    }
}

/// The statement that asks for the latest row.
pub open spec fn latest_statement() -> Select {
    Select {
        picks: seq![Pick { picked: Picked::Column("packed_info"@), name: None }],
        table: "MessageResourceInfo"@,
        conditions: seq![
            column_is("chat_id"@, 1),
            column_is("message_local_id"@, 2),
            wanted_type(),
        ],
        order: seq![OrderKey { name: "message_create_time"@, descending: true }],
        limit: Some(1),
    }
}

/// The statement that asks for a chat's number.
pub open spec fn chat_statement() -> Select {
    Select {
        picks: seq![Pick { picked: Picked::Column("rowid"@), name: None }],
        table: "ChatName2Id"@,
        conditions: seq![column_is("user_name"@, 1)],
        order: seq![],
        limit: None,
    }
}

proof fn lemma_decimals()
    ensures
        decimal(1) == "1"@,
        decimal(2) == "2"@,
        decimal(3) == "3"@,
        decimal(4) == "4"@,
        decimal(4294967296) == "4294967296"@,
{
    reveal_strlit("1");
    reveal_strlit("2");
    reveal_strlit("3");
    reveal_strlit("4");
    reveal_strlit("4294967296");
    reveal_with_fuel(decimal, 11);
}

/// The words that the statements have in common.
proof fn lemma_words()
    ensures
        comparison_text(column_is("chat_id"@, 1)[0]) == "chat_id = ?1"@,
        comparison_text(column_is("message_local_id"@, 2)[0]) == "message_local_id = ?2"@,
        comparison_text(column_is("message_create_time"@, 4)[0]) == "message_create_time = ?4"@,
        comparison_text(column_is("user_name"@, 1)[0]) == "user_name = ?1"@,
        any_text(wanted_type())
            == "(message_local_type = ?3 OR message_local_type % 4294967296 = ?3)"@,
{
    lemma_decimals();
    lemma_any_text(wanted_type());
    reveal_strlit("?");
    reveal_strlit(" ");
    reveal_strlit("=");
    reveal_strlit("(");
    reveal_strlit(")");
    reveal_strlit(" OR ");
    reveal_strlit(" % ");
    reveal_strlit("1");
    reveal_strlit("2");
    reveal_strlit("3");
    reveal_strlit("4");
    reveal_strlit("4294967296");
    reveal_strlit("chat_id");
    reveal_strlit("chat_id = ?1");
    reveal_strlit("message_local_id");
    reveal_strlit("message_local_id = ?2");
    reveal_strlit("message_create_time");
    reveal_strlit("message_create_time = ?4");
    reveal_strlit("user_name");
    reveal_strlit("user_name = ?1");
    reveal_strlit("message_local_type");
    reveal_strlit("(message_local_type = ?3 OR message_local_type % 4294967296 = ?3)");
}

proof fn lemma_exact_text(key: MessageKey, chat_id: int)
    ensures
        select_text(exact_statement()) == exact_query(key, chat_id).text,
{
    lemma_decimals();
    lemma_words();
    lemma_select_text(exact_statement());
    reveal_strlit("SELECT ");
    reveal_strlit("packed_info");
    reveal_strlit(" FROM ");
    reveal_strlit("MessageResourceInfo");
    reveal_strlit(" WHERE ");
    reveal_strlit(" AND ");
    reveal_strlit(" ORDER BY ");
    reveal_strlit("rowid");
    reveal_strlit(" DESC");
    reveal_strlit(" LIMIT ");
    reveal_strlit("1");
    reveal_strlit("chat_id = ?1");
    reveal_strlit("message_local_id = ?2");
    reveal_strlit("message_create_time = ?4");
    reveal_strlit("(message_local_type = ?3 OR message_local_type % 4294967296 = ?3)");
    reveal_strlit(
        "SELECT packed_info FROM MessageResourceInfo WHERE chat_id = ?1 AND message_local_id = ?2 AND (message_local_type = ?3 OR message_local_type % 4294967296 = ?3) AND message_create_time = ?4 ORDER BY rowid DESC LIMIT 1",
    );
}

proof fn lemma_latest_text(key: MessageKey, chat_id: int)
    ensures
        select_text(latest_statement()) == latest_query(key, chat_id).text,
{
    lemma_decimals();
    lemma_words();
    lemma_select_text(latest_statement());
    reveal_strlit("SELECT ");
    reveal_strlit("packed_info");
    reveal_strlit(" FROM ");
    reveal_strlit("MessageResourceInfo");
    reveal_strlit(" WHERE ");
    reveal_strlit(" AND ");
    reveal_strlit(" ORDER BY ");
    reveal_strlit("message_create_time");
    reveal_strlit(" DESC");
    reveal_strlit(" LIMIT ");
    reveal_strlit("1");
    reveal_strlit("chat_id = ?1");
    reveal_strlit("message_local_id = ?2");
    reveal_strlit("(message_local_type = ?3 OR message_local_type % 4294967296 = ?3)");
    reveal_strlit(
        "SELECT packed_info FROM MessageResourceInfo WHERE chat_id = ?1 AND message_local_id = ?2 AND (message_local_type = ?3 OR message_local_type % 4294967296 = ?3) ORDER BY message_create_time DESC LIMIT 1",
    );
}

proof fn lemma_exact_meets(key: MessageKey, chat_id: int, row: TableRow)
    ensures
        meets(exact_statement(), row, exact_query(key, chat_id).params) <==> is_row_of(
            row,
            key,
            chat_id,
        ) && has_time_of(row, key),
{
    let s = exact_statement();
    let params = exact_query(key, chat_id).params;
    lemma_column_is("chat_id"@, 1, row, params);
    lemma_column_is("message_local_id"@, 2, row, params);
    lemma_column_is("message_create_time"@, 4, row, params);
    lemma_wanted_type(row, params, key.type_lo32 as int);
    if meets(s, row, params) {
        assert(one_holds(s.conditions[0], row, params));
        assert(one_holds(s.conditions[1], row, params));
        assert(one_holds(s.conditions[2], row, params));
        assert(one_holds(s.conditions[3], row, params));
    }
}

proof fn lemma_latest_meets(key: MessageKey, chat_id: int, row: TableRow)
    ensures
        meets(latest_statement(), row, latest_query(key, chat_id).params) <==> is_row_of(
            row,
            key,
            chat_id,
        ),
{
    let s = latest_statement();
    let params = latest_query(key, chat_id).params;
    lemma_column_is("chat_id"@, 1, row, params);
    lemma_column_is("message_local_id"@, 2, row, params);
    lemma_wanted_type(row, params, key.type_lo32 as int);
    if meets(s, row, params) {
        assert(one_holds(s.conditions[0], row, params));
        assert(one_holds(s.conditions[1], row, params));
        assert(one_holds(s.conditions[2], row, params));
    }
}

/// The order of a statement with one falling key.
proof fn lemma_one_falling_key(s: Select, a: TableRow, b: TableRow)
    requires
        s.picks.len() == 1,
        s.picks[0].name is None,
        s.order.len() == 1,
        s.order[0].descending,
    ensures
        comes_before(s, a, b, 0) == less(
            in_column(b, s.order[0].name),
            in_column(a, s.order[0].name),
        ),
{
    reveal_with_fuel(comes_before, 2);
    reveal_with_fuel(under_name, 2);
}

/// On every table, the query for the exact time gives at most one row. It is a row
/// of the wanted message with the message's time, and no such row was written
/// behind it; where the query gives none, there is no such row. What is picked is
/// the row's information.
pub proof fn law_exact_query(
    key: MessageKey,
    chat_id: int,
    table: Seq<TableRow>,
    places: Seq<int>,
)
    requires
        is_answer(exact_statement(), exact_query(key, chat_id).params, table, places),
    ensures
        exact_query(key, chat_id).text == select_text(exact_statement()),
        exact_statement().table == "MessageResourceInfo"@,
        exact_statement().picks.len() == 1,
        exact_statement().picks[0].picked == Picked::Column("packed_info"@),
        places.len() <= 1,
        places.len() == 1 ==> {
            let row = table[places[0]];
            &&& 0 <= places[0] < table.len()
            &&& is_row_of(row, key, chat_id)
            &&& has_time_of(row, key)
            &&& forall|k: int|
                0 <= k < table.len() && is_row_of(#[trigger] table[k], key, chat_id) && has_time_of(
                    table[k],
                    key,
                ) && k != places[0] ==> !less(
                    in_column(row, "rowid"@),
                    in_column(table[k], "rowid"@),
                )
        },
        places.len() == 0 ==> forall|k: int|
            0 <= k < table.len() ==> !(is_row_of(#[trigger] table[k], key, chat_id) && has_time_of(
                table[k],
                key,
            )),
{
    let s = exact_statement();
    let params = exact_query(key, chat_id).params;
    lemma_exact_text(key, chat_id);
    if places.len() == 1 {
        let row = table[places[0]];
        lemma_exact_meets(key, chat_id, row);
        assert forall|k: int|
            0 <= k < table.len() && is_row_of(#[trigger] table[k], key, chat_id) && has_time_of(
                table[k],
                key,
            ) && k != places[0] implies !less(
            in_column(row, "rowid"@),
            in_column(table[k], "rowid"@),
        ) by {
            lemma_exact_meets(key, chat_id, table[k]);
            lemma_one_falling_key(s, table[k], row);
            assert(!places.contains(k));
            assert(!comes_before(s, table[k], table[places[0]], 0));
        }
    }
    if places.len() == 0 {
        assert forall|k: int| 0 <= k < table.len() implies !(is_row_of(
            #[trigger] table[k],
            key,
            chat_id,
        ) && has_time_of(table[k], key)) by {
            lemma_exact_meets(key, chat_id, table[k]);
            assert(!places.contains(k));
        }
    }
}

/// On every table, the query for the latest row gives at most one row. It is a row
/// of the wanted message, and no such row has a later time; where the query gives
/// none, there is no such row. What is picked is the row's information.
pub proof fn law_latest_query(
    key: MessageKey,
    chat_id: int,
    table: Seq<TableRow>,
    places: Seq<int>,
)
    requires
        is_answer(latest_statement(), latest_query(key, chat_id).params, table, places),
    ensures
        latest_query(key, chat_id).text == select_text(latest_statement()),
        latest_statement().table == "MessageResourceInfo"@,
        latest_statement().picks.len() == 1,
        latest_statement().picks[0].picked == Picked::Column("packed_info"@),
        places.len() <= 1,
        places.len() == 1 ==> {
            let row = table[places[0]];
            &&& 0 <= places[0] < table.len()
            &&& is_row_of(row, key, chat_id)
            &&& forall|k: int|
                0 <= k < table.len() && is_row_of(#[trigger] table[k], key, chat_id) && k
                    != places[0] ==> !less(
                    in_column(row, "message_create_time"@),
                    in_column(table[k], "message_create_time"@),
                )
        },
        places.len() == 0 ==> forall|k: int|
            0 <= k < table.len() ==> !is_row_of(#[trigger] table[k], key, chat_id),
{
    let s = latest_statement();
    lemma_latest_text(key, chat_id);
    if places.len() == 1 {
        let row = table[places[0]];
        lemma_latest_meets(key, chat_id, row);
        assert forall|k: int|
            0 <= k < table.len() && is_row_of(#[trigger] table[k], key, chat_id) && k
                != places[0] implies !less(
            in_column(row, "message_create_time"@),
            in_column(table[k], "message_create_time"@),
        ) by {
            lemma_latest_meets(key, chat_id, table[k]);
            lemma_one_falling_key(s, table[k], row);
            assert(!places.contains(k));
            assert(!comes_before(s, table[k], table[places[0]], 0));
        }
    }
    if places.len() == 0 {
        assert forall|k: int| 0 <= k < table.len() implies !is_row_of(
            #[trigger] table[k],
            key,
            chat_id,
        ) by {
            lemma_latest_meets(key, chat_id, table[k]);
            assert(!places.contains(k));
        }
    }
}

/// On every table, the query for a chat gives exactly the rows with the chat's
/// name. What is picked is the row's number.
pub proof fn law_chat_query(key: MessageKey, table: Seq<TableRow>, places: Seq<int>)
    requires
        is_answer(chat_statement(), chat_query(key).params, table, places),
    ensures
        chat_query(key).text == select_text(chat_statement()),
        chat_statement().table == "ChatName2Id"@,
        chat_statement().picks.len() == 1,
        chat_statement().picks[0].picked == Picked::Column("rowid"@),
        forall|i: int| 0 <= i < places.len() ==> 0 <= #[trigger] places[i] < table.len(),
        forall|k: int|
            0 <= k < table.len() ==> (places.contains(k) <==> in_column(
                #[trigger] table[k],
                "user_name"@,
            ) == Datum::Text(key.chat@)),
{
    let s = chat_statement();
    let params = chat_query(key).params;
    lemma_words();
    lemma_select_text(s);
    reveal_strlit("SELECT ");
    reveal_strlit("rowid");
    reveal_strlit(" FROM ");
    reveal_strlit("ChatName2Id");
    reveal_strlit(" WHERE ");
    reveal_strlit("user_name = ?1");
    reveal_strlit("SELECT rowid FROM ChatName2Id WHERE user_name = ?1");
    assert forall|k: int| 0 <= k < table.len() implies (places.contains(k) <==> in_column(
        #[trigger] table[k],
        "user_name"@,
    ) == Datum::Text(key.chat@)) by {
        lemma_column_is("user_name"@, 1, table[k], params);
        assert(meets(s, table[k], params) ==> one_holds(s.conditions[0], table[k], params));
        assert(one_holds(s.conditions[0], table[k], params) ==> meets(s, table[k], params));
        if places.contains(k) {
            let i = choose|i: int| 0 <= i < places.len() && places[i] == k;
            assert(meets(s, table[places[i]], params));
        }
    }
}

/// An answer says what was answered.
pub proof fn law_reply_view(reply: Md5Reply)
    ensures
        reply matches Md5Reply::ChatId(Some(id)) ==> reply@ == Md5ReplyView::ChatId(Some(id as int)),
        reply matches Md5Reply::ChatId(None) ==> reply@ == Md5ReplyView::ChatId(None),
        reply matches Md5Reply::PackedInfo(Some(blob)) ==> reply@ == Md5ReplyView::PackedInfo(
            Some(blob@),
        ),
        reply matches Md5Reply::PackedInfo(None) ==> reply@ == Md5ReplyView::PackedInfo(None),
{
}

/// A stage says the chat's number, or what was found.
pub proof fn law_md5_stage_view(stage: Md5Stage)
    ensures
        stage matches Md5Stage::Exact(id) ==> stage@ == Md5StageView::Exact(id as int),
        stage matches Md5Stage::Latest(id) ==> stage@ == Md5StageView::Latest(id as int),
        stage matches Md5Stage::Done(Some(meta)) ==> stage@ == Md5StageView::Done(Some(meta.md5@)),
        stage matches Md5Stage::Done(None) ==> stage@ == Md5StageView::Done(None),
        stage is Chat ==> stage@ == Md5StageView::Chat,
{
}

/// From the third answer on, a lookup has ended. Where the chat is known and a row
/// has the message's time, it gives the digest in that row's information, and
/// nothing where there is none in it; where no row has the time, that of the latest
/// row. An unknown chat, or no row, gives nothing. The chat that is asked for is the
/// one that was answered.
pub proof fn law_lookup_gives_the_digest(answers: ResourceAnswers, n: nat)
    requires
        n >= 3,
    ensures
        answers.chat_id is None ==> run_md5(answers, Md5StageView::Chat, n) == Md5StageView::Done(
            None,
        ),
        answers.chat_id is Some && answers.exact is Some ==> run_md5(answers, Md5StageView::Chat, n)
            == Md5StageView::Done(packed_md5(answers.exact->0)),
        answers.chat_id is Some && answers.exact is None && answers.latest is Some ==> run_md5(
            answers,
            Md5StageView::Chat,
            n,
        ) == Md5StageView::Done(packed_md5(answers.latest->0)),
        answers.chat_id is Some && answers.exact is None && answers.latest is None ==> run_md5(
            answers,
            Md5StageView::Chat,
            n,
        ) == Md5StageView::Done(None),
        answers.chat_id is Some ==> run_md5(answers, Md5StageView::Chat, 1) == Md5StageView::Exact(
            answers.chat_id->0,
        ),
        answers.chat_id is Some && answers.exact is None ==> run_md5(answers, Md5StageView::Chat, 2)
            == Md5StageView::Latest(answers.chat_id->0),
{
    reveal_with_fuel(run_md5, 4);
    lemma_md5_done_stays(answers, Md5StageView::Chat, 3, n);
}

proof fn lemma_md5_done_stays(answers: ResourceAnswers, stage: Md5StageView, m: nat, n: nat)
    requires
        m <= n,
        run_md5(answers, stage, m) is Done,
    ensures
        run_md5(answers, stage, n) == run_md5(answers, stage, m),
    decreases n,
{
    if m == 0 {
        if n > 0 {
            lemma_md5_done_stays(answers, stage, 0, (n - 1) as nat);
        }
    } else {
        let next = next_md5_stage(stage, md5_reply(answers, stage));
        lemma_md5_done_stays(answers, next, (m - 1) as nat, (n - 1) as nat);
    }
}

/// An answer to another question does not move a lookup, and nothing moves one that
/// is over.
pub proof fn law_other_answers_do_not_count(stage: Md5StageView, reply: Md5ReplyView)
    ensures
        stage is Chat && !(reply is ChatId) ==> next_md5_stage(stage, reply) == stage,
        (stage is Exact || stage is Latest) && !(reply is PackedInfo) ==> next_md5_stage(
            stage,
            reply,
        ) == stage,
        stage is Done ==> next_md5_stage(stage, reply) == stage,
{
}

} // verus!
