use rusqlite::types::Value;
use rusqlite::{params_from_iter, Connection};
use wx_cli::attachment::{AttachmentId, AttachmentKind};
use wx_cli::media_search::{SearchAnswer, SearchQuestion};
use wx_cli::resolve::{
    resolve_blocking, resolve_in_months, Resolution, ResolveAnswer, ResolveQuestion,
};
use wx_cli::resource_db::{lookup_md5_blocking, AttachmentMetadata, Md5Reply, Md5Stage};
use wx_cli::sql::{SqlQuery, SqlValue};
use wx_cli::voice_db::{
    assemble_voice, lookup_voice_media_blocking, query_voice_rows, voice_columns,
    ResolvedVoiceMedia, VoiceReply, VoiceRow, VoiceStage,
};

fn values(query: &SqlQuery) -> Vec<Value> {
    query
        .params
        .iter()
        .map(|p| match p {
            SqlValue::Integer(n) => Value::Integer(*n),
            SqlValue::Text(t) => Value::Text(t.clone()),
        })
        .collect()
}

fn one_integer(conn: &Connection, query: &SqlQuery) -> Option<i64> {
    conn.query_row(&query.text, params_from_iter(values(query)), |row| row.get(0))
        .ok()
}

fn one_blob(conn: &Connection, query: &SqlQuery) -> Option<Vec<u8>> {
    conn.query_row(&query.text, params_from_iter(values(query)), |row| row.get(0))
        .ok()
}

fn md5_of(
    conn: &Connection,
    chat: &str,
    local_id: i64,
    create_time: i64,
    type_lo32: i64,
) -> Option<AttachmentMetadata> {
    let mut lookup = lookup_md5_blocking(chat.to_string(), local_id, create_time, type_lo32);
    while let Some(query) = lookup.query() {
        let reply = match lookup.stage {
            Md5Stage::Chat => Md5Reply::ChatId(one_integer(conn, &query)),
            _ => Md5Reply::PackedInfo(one_blob(conn, &query)),
        };
        lookup = lookup.answer(reply);
    }
    match lookup.stage {
        Md5Stage::Done(found) => found,
        _ => panic!("the lookup has not ended"),
    }
}

fn voice_of(
    conn: &Connection,
    chat: &str,
    local_id: i64,
    create_time: i64,
) -> Option<ResolvedVoiceMedia> {
    let mut lookup = lookup_voice_media_blocking(chat.to_string(), local_id, create_time);
    while let Some(query) = lookup.query() {
        let reply = match lookup.stage {
            VoiceStage::Table => VoiceReply::Exists(one_integer(conn, &query).is_some()),
            VoiceStage::Columns => {
                let mut stmt = conn.prepare(&query.text).unwrap();
                let names = stmt
                    .query_map([], |row| row.get::<_, String>(1))
                    .unwrap()
                    .collect::<Result<Vec<_>, _>>()
                    .unwrap();
                VoiceReply::Columns(names)
            }
            VoiceStage::Chat(_) => VoiceReply::ChatId(one_integer(conn, &query)),
            _ => {
                let mut stmt = conn.prepare(&query.text).unwrap();
                let rows = stmt
                    .query_map(params_from_iter(values(&query)), |row| {
                        Ok(VoiceRow {
                            index: row.get::<_, i64>(0).unwrap_or(0),
                            chunk: row.get::<_, Vec<u8>>(1).unwrap_or_default(),
                            svr_id: row.get::<_, i64>(2).ok(),
                        })
                    })
                    .unwrap()
                    .collect::<Result<Vec<_>, _>>()
                    .unwrap();
                VoiceReply::Rows(rows)
            }
        };
        lookup = lookup.answer(reply);
    }
    match lookup.stage {
        VoiceStage::Done(found) => found,
        _ => panic!("the lookup has not ended"),
    }
}

fn marked(digest: &[u8; 32]) -> Vec<u8> {
    let mut blob = vec![0x12, 0x22, 0x0A, 0x20];
    blob.extend_from_slice(digest);
    blob
}

fn resource_db() -> Connection {
    let conn = Connection::open_in_memory().unwrap();
    conn.execute("CREATE TABLE ChatName2Id (user_name TEXT)", [])
        .unwrap();
    conn.execute(
        "INSERT INTO ChatName2Id (rowid, user_name) VALUES (1, 'room@chatroom')",
        [],
    )
    .unwrap();
    conn.execute(
        "CREATE TABLE MessageResourceInfo (
            chat_id INTEGER,
            message_local_id INTEGER,
            message_local_type INTEGER,
            message_create_time INTEGER,
            packed_info BLOB
        )",
        [],
    )
    .unwrap();
    conn
}

fn add_resource(conn: &Connection, local_type: i64, create_time: i64, blob: Vec<u8>) {
    conn.execute(
        "INSERT INTO MessageResourceInfo
         (chat_id, message_local_id, message_local_type, message_create_time, packed_info)
         VALUES (?1, ?2, ?3, ?4, ?5)",
        (1i64, 7i64, local_type, create_time, blob),
    )
    .unwrap();
}

#[test]
fn lookup_md5_prefers_exact_create_time_over_latest_reuse() {
    let conn = resource_db();
    add_resource(&conn, 3, 1000, marked(b"11111111111111111111111111111111"));
    add_resource(&conn, 3, 2000, marked(b"22222222222222222222222222222222"));
    let old = md5_of(&conn, "room@chatroom", 7, 1000, 3).unwrap();
    let new = md5_of(&conn, "room@chatroom", 7, 2000, 3).unwrap();
    assert_eq!(old.md5, "11111111111111111111111111111111");
    assert_eq!(new.md5, "22222222222222222222222222222222");
}

#[test]
fn lookup_md5_falls_back_to_the_latest_row() {
    let conn = resource_db();
    add_resource(&conn, 3, 2000, marked(b"22222222222222222222222222222222"));
    add_resource(&conn, 3, 1000, marked(b"11111111111111111111111111111111"));
    let found = md5_of(&conn, "room@chatroom", 7, 1500, 3).unwrap();
    assert_eq!(found.md5, "22222222222222222222222222222222");
    assert!(md5_of(&conn, "other@chatroom", 7, 1000, 3).is_none());
    assert!(md5_of(&conn, "room@chatroom", 8, 1000, 3).is_none());
    assert!(md5_of(&conn, "room@chatroom", 7, 1000, 34).is_none());
}

#[test]
fn lookup_md5_ignores_the_flags_of_a_type() {
    let conn = resource_db();
    let flagged = (5i64 << 32) + 3;
    add_resource(&conn, flagged, 1000, marked(b"44444444444444444444444444444444"));
    let found = md5_of(&conn, "room@chatroom", 7, 1000, 3).unwrap();
    assert_eq!(found.md5, "44444444444444444444444444444444");
}

#[test]
fn an_exact_row_without_a_digest_gives_nothing() {
    let conn = resource_db();
    add_resource(&conn, 3, 1000, vec![0; 8]);
    add_resource(&conn, 3, 2000, marked(b"22222222222222222222222222222222"));
    assert!(md5_of(&conn, "room@chatroom", 7, 1000, 3).is_none());
}

fn media_db() -> Connection {
    let conn = Connection::open_in_memory().unwrap();
    conn.execute("CREATE TABLE Name2Id (user_name TEXT)", [])
        .unwrap();
    conn.execute(
        "INSERT INTO Name2Id (rowid, user_name) VALUES (9, 'room@chatroom')",
        [],
    )
    .unwrap();
    conn.execute(
        "CREATE TABLE VoiceInfo (
            chat_name_id INTEGER,
            create_time INTEGER,
            local_id INTEGER,
            svr_id INTEGER,
            voice_data BLOB,
            data_index TEXT DEFAULT '0'
        )",
        [],
    )
    .unwrap();
    conn
}

fn add_voice(conn: &Connection, chat_id: i64, create_time: i64, data: &[u8], index: &str) {
    conn.execute(
        "INSERT INTO VoiceInfo
         (chat_name_id, create_time, local_id, svr_id, voice_data, data_index)
         VALUES (?1, ?2, ?3, ?4, ?5, ?6)",
        (chat_id, create_time, 7i64, 123i64, data, index),
    )
    .unwrap();
}

#[test]
fn lookup_voice_media_reads_chunks_from_media_db() {
    let conn = media_db();
    add_voice(&conn, 9, 2000, b"two", "2");
    add_voice(&conn, 9, 2000, b"one", "1");
    let media = voice_of(&conn, "room@chatroom", 7, 2000).unwrap();
    assert_eq!(media.data, b"onetwo");
    assert_eq!(media.chunks, 2);
    assert_eq!(media.svr_id, Some(123));
}

#[test]
fn lookup_voice_media_keeps_rows_scoped_to_chat() {
    let conn = media_db();
    conn.execute(
        "INSERT INTO Name2Id (rowid, user_name) VALUES (10, 'other@chatroom')",
        [],
    )
    .unwrap();
    for (chat_id, data) in [(10i64, b"wrong".as_slice()), (9i64, b"right".as_slice())] {
        add_voice(&conn, chat_id, 2000, data, "0");
    }
    let media = voice_of(&conn, "room@chatroom", 7, 2000).unwrap();
    assert_eq!(media.data, b"right");
}

#[test]
fn lookup_voice_media_uses_create_time_to_disambiguate_reused_local_id() {
    let conn = media_db();
    for (create_time, data) in [(1000i64, b"old".as_slice()), (2000i64, b"new".as_slice())] {
        add_voice(&conn, 9, create_time, data, "0");
    }
    let media = voice_of(&conn, "room@chatroom", 7, 2000).unwrap();
    assert_eq!(media.data, b"new");
    assert!(voice_of(&conn, "room@chatroom", 7, 3000).is_none());
}

fn legacy_media_db() -> Connection {
    let conn = Connection::open_in_memory().unwrap();
    conn.execute(
        "CREATE TABLE VoiceInfo (
            user_name TEXT,
            msgid INTEGER,
            msgtime INTEGER,
            voice_data BLOB
        )",
        [],
    )
    .unwrap();
    conn
}

#[test]
fn lookup_voice_media_reads_legacy_schema_without_chunk_columns() {
    let conn = legacy_media_db();
    conn.execute(
        "INSERT INTO VoiceInfo (user_name, msgid, msgtime, voice_data)
         VALUES (?1, ?2, ?3, ?4)",
        ("room@chatroom", 7i64, 2000i64, b"voice"),
    )
    .unwrap();
    let media = voice_of(&conn, "room@chatroom", 7, 2000).unwrap();
    assert_eq!(media.data, b"voice");
    assert_eq!(media.chunks, 1);
    assert_eq!(media.svr_id, None);
}

#[test]
fn lookup_voice_media_legacy_schema_uses_msgtime_to_disambiguate_reused_msgid() {
    let conn = legacy_media_db();
    for (msgtime, data) in [(1000i64, b"old".as_slice()), (2000i64, b"new".as_slice())] {
        conn.execute(
            "INSERT INTO VoiceInfo (user_name, msgid, msgtime, voice_data)
             VALUES (?1, ?2, ?3, ?4)",
            ("room@chatroom", 7i64, msgtime, data),
        )
        .unwrap();
    }
    let media = voice_of(&conn, "room@chatroom", 7, 2000).unwrap();
    assert_eq!(media.data, b"new");
    assert!(voice_of(&conn, "room@chatroom", 7, 3000).is_none());
}

#[test]
fn a_database_without_the_table_or_its_data_gives_nothing() {
    let conn = Connection::open_in_memory().unwrap();
    assert!(voice_of(&conn, "room@chatroom", 7, 2000).is_none());
    conn.execute("CREATE TABLE VoiceInfo (user_name TEXT, msgid INTEGER)", [])
        .unwrap();
    assert!(voice_of(&conn, "room@chatroom", 7, 2000).is_none());
}

#[test]
fn rows_are_put_together_in_order() {
    let row = |index: i64, chunk: &[u8], svr_id: Option<i64>| VoiceRow {
        index,
        chunk: chunk.to_vec(),
        svr_id,
    };
    let media = assemble_voice(vec![
        row(2, b"c", Some(5)),
        row(1, b"a", None),
        row(1, b"b", Some(4)),
    ])
    .unwrap();
    assert_eq!(media.data, b"abc");
    assert_eq!(media.chunks, 3);
    assert_eq!(media.svr_id, Some(4));
    assert!(assemble_voice(vec![row(1, b"", Some(4))]).is_none());
    assert!(assemble_voice(Vec::new()).is_none());
}

#[test]
fn the_row_query_follows_the_columns() {
    let names = vec!["voice_data".to_string(), "svr_id".to_string()];
    let text = query_voice_rows(voice_columns(&names), "msgid = ?1");
    assert_eq!(
        text,
        "SELECT 0 AS voice_index, voice_data, svr_id AS voice_svr_id FROM VoiceInfo \
         WHERE msgid = ?1 ORDER BY voice_index, rowid"
    );
}

fn picture(create_time: i64) -> AttachmentId {
    AttachmentId {
        chat: "room@chatroom".to_string(),
        local_id: 7,
        create_time,
        kind: AttachmentKind::Image,
    }
}

#[test]
fn an_attachment_is_resolved_by_digest_and_file() {
    let conn = resource_db();
    add_resource(&conn, 3, 1000, marked(b"11111111111111111111111111111111"));
    let mut way = resolve_in_months(picture(1000), vec!["1970-01".to_string()]);
    let mut questions = Vec::new();
    loop {
        let answer = match way.question() {
            ResolveQuestion::Query(query) => ResolveAnswer::Query(match query.params.len() {
                1 => Md5Reply::ChatId(one_integer(&conn, &query)),
                _ => Md5Reply::PackedInfo(one_blob(&conn, &query)),
            }),
            ResolveQuestion::Disk(SearchQuestion::IsDir(path)) => {
                questions.push(path.parts.len());
                ResolveAnswer::Disk(SearchAnswer::Yes(true))
            }
            ResolveQuestion::Disk(SearchQuestion::IsFile(path)) => ResolveAnswer::Disk(
                SearchAnswer::Yes(path.parts[3].ends_with(b"_h.dat")),
            ),
            ResolveQuestion::Size(_) => ResolveAnswer::Size(Some(77)),
            _ => break,
        };
        way = way.answer(answer);
    }
    assert_eq!(questions, vec![1]);
    let found = match way {
        Resolution::Done(Ok(found)) => found,
        _ => panic!("the attachment is not resolved"),
    };
    assert_eq!(found.md5, "11111111111111111111111111111111");
    assert_eq!(found.size, 77);
    assert_eq!(found.id.local_id, 7);
    let names: Vec<String> = found
        .dat_path
        .parts
        .iter()
        .map(|p| String::from_utf8(p.clone()).unwrap())
        .collect();
    assert_eq!(names[0], format!("{:x}", md5::compute(b"room@chatroom")));
    assert_eq!(names[1], "1970-01");
    assert_eq!(names[2], "Img");
    assert_eq!(names[3], "11111111111111111111111111111111_h.dat");
}

#[test]
fn a_missing_resource_and_a_missing_file_are_told_apart() {
    let way = resolve_blocking(picture(1000)).answer(ResolveAnswer::Query(Md5Reply::ChatId(None)));
    match way {
        Resolution::Done(Err(error)) => assert_eq!(
            error.message(),
            "message_resource.db 中找不到 chat=room@chatroom local_id=7 type=3 的资源行（可能是非附件消息或资源库未同步）"
        ),
        _ => panic!("no error"),
    }
    let way = resolve_blocking(picture(-5))
        .answer(ResolveAnswer::Query(Md5Reply::ChatId(Some(1))))
        .answer(ResolveAnswer::Query(Md5Reply::PackedInfo(Some(marked(
            b"11111111111111111111111111111111",
        )))))
        .answer(ResolveAnswer::Disk(SearchAnswer::Yes(false)));
    match way {
        Resolution::Done(Err(error)) => assert_eq!(
            error.message(),
            "找不到本地附件文件（kind=image md5=11111111111111111111111111111111 chat=room@chatroom create_time=-5）— 微信可能尚未下载该附件，或附件已被清理"
        ),
        _ => panic!("no error"),
    }
}
