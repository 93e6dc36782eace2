//! The texts of the configuration and of the key file, which are JSON objects.

use vstd::prelude::*;

use crate::text::{is_white_space, law_trimmed_core, trim, trimmed};

verus! {

// ---------------------------------------------------------------------------
// JSON objects
// ---------------------------------------------------------------------------

/// The object of the crate `serde_json`.
#[verifier::external_type_specification]
#[verifier::external_body]
#[verifier::reject_recursive_types(K)]
#[verifier::reject_recursive_types(V)]
pub struct ExJsonMap<K, V>(serde_json::Map<K, V>);

/// The value of the crate `serde_json`.
#[verifier::external_type_specification]
#[verifier::external_body]
pub struct ExJsonValue(serde_json::Value);

/// What stands under a key of an object.
pub enum JsonView {
    /// A string.
    Text(Seq<char>),
    /// An object whose only member is a string: its key, and the string.
    Nested(Seq<char>, Seq<char>),
    /// Anything else, by its JSON text without white space.
    Other(Seq<char>),
}

/// What stands under the keys of an object.
pub type Members = Map<Seq<char>, JsonView>;

/// The members of an object.
pub uninterp spec fn json_contents(
    object: serde_json::Map<String, serde_json::Value>,
) -> Map<Seq<char>, JsonView>;

/// The members of the JSON object that a text holds. Nothing where the text is no
/// JSON object.
pub uninterp spec fn json_members(text: Seq<char>) -> Option<Map<Seq<char>, JsonView>>;

/// The JSON text of an object, laid out for people to read. Nothing where there is
/// none.
pub uninterp spec fn json_pretty(members: Map<Seq<char>, JsonView>) -> Option<Seq<char>>;

/// What an object says that may not be there.
pub open spec fn object_view(
    object: Option<serde_json::Map<String, serde_json::Value>>,
) -> Option<Members> {
    match object {
        Some(object) => Some(json_contents(object)),
        None => None,
    }
}

/// What a text says that may not be there.
pub open spec fn text_view(text: Option<String>) -> Option<Seq<char>> {
    match text {
        Some(text) => Some(text@),
        None => None,
    }
}

/// The string under a key; nothing where there is no such key, or no string under
/// it.
pub open spec fn string_under(members: Members, key: Seq<char>) -> Option<Seq<char>> {
    if members.dom().contains(key) {
        match members[key] {
            JsonView::Text(text) => Some(text),
            _ => None,
        }
    } else {
        None
    }
}

/// All members are strings, or objects whose only member is a string.
pub open spec fn all_plain(members: Members) -> bool {
    forall|key: Seq<char>| #[trigger]
        members.dom().contains(key) ==> !(members[key] is Other)
}

/// Something that is put under a key.
#[derive(Debug)]
pub enum NewMember {
    /// A string.
    Text(String),
    /// An object with one string.
    Nested { key: String, text: String },
}

impl View for NewMember {
    type V = JsonView;

    open spec fn view(&self) -> JsonView {
        match self {
            NewMember::Text(text) => JsonView::Text(text@),
            NewMember::Nested { key, text } => JsonView::Nested(key@, text@),
        }
    }
}

/// Reads a text as a JSON object.
///
/// It calls `serde_json::from_str` for a `Value` and `Value::as_object`. The result
/// depends on the text alone. What JSON is, is not said here.
#[verifier::external_body]
fn parse_object(text: &str) -> (object: Option<serde_json::Map<String, serde_json::Value>>)
    ensures
        object_view(object) == json_members(text@),
{
    let value = serde_json::from_str::<serde_json::Value>(text).ok()?;
    value.as_object().cloned()
}

/// Makes an object without members.
///
/// It calls `serde_json::Map::new`.
#[verifier::external_body]
fn empty_object() -> (object: serde_json::Map<String, serde_json::Value>)
    ensures
        json_contents(object) == Members::empty(),
{
    serde_json::Map::new()
}

/// Tells whether an object has a key.
///
/// It calls `serde_json::Map::contains_key`.
#[verifier::external_body]
fn has_key(object: &serde_json::Map<String, serde_json::Value>, key: &str) -> (found: bool)
    ensures
        found == json_contents(*object).dom().contains(key@),
{
    object.contains_key(key)
}

/// Reads the string under a key.
///
/// It calls `serde_json::Map::get` and `Value::as_str`: there is a string where the
/// key is there and its value is one.
#[verifier::external_body]
fn text_under(object: &serde_json::Map<String, serde_json::Value>, key: &str) -> (text: Option<
    String,
>)
    ensures
        text_view(text) == string_under(json_contents(*object), key@),
{
    object.get(key)?.as_str().map(str::to_owned)
}

/// Puts a member into an object.
///
/// It calls `serde_json::Map::insert`, which replaces what stood under the key and
/// leaves the other members alone. A string becomes `Value::String`, and an object
/// with one string `Value::Object`.
#[verifier::external_body]
fn put_member(
    object: &mut serde_json::Map<String, serde_json::Value>,
    key: &str,
    member: NewMember,
)
    ensures
        json_contents(*final(object)) == json_contents(*old(object)).insert(key@, member@),
{
    let value = match member {
        NewMember::Text(text) => serde_json::Value::String(text),
        NewMember::Nested { key, text } => serde_json::Value::Object(
            core::iter::once((key, serde_json::Value::String(text))).collect(),
        ),
    };
    object.insert(key.to_owned(), value);
}

/// Writes an object as JSON, for people to read.
///
/// It calls `serde_json::to_string_pretty`, whose result depends on the members
/// alone: an object keeps them in the order of their keys. An object is always
/// written: its keys are strings, a number that JSON lacks is written as `null`, and
/// writing to memory does not fail. Strings and objects of strings are read back as
/// they were. What the text looks like is not said here, nor whether other values
/// are read back.
#[verifier::external_body]
fn pretty_object(object: &serde_json::Map<String, serde_json::Value>) -> (text: Option<String>)
    ensures
        text is Some,
        text_view(text) == json_pretty(json_contents(*object)),
        all_plain(json_contents(*object)) ==> json_members(text->0@) == Some(
            json_contents(*object),
        ),
{
    serde_json::to_string_pretty(object).ok()
}

// ---------------------------------------------------------------------------
// Reading
// ---------------------------------------------------------------------------

/// Reads the configuration from the text of its file, if there is one.
pub fn read_config_map(content: Option<String>) -> (config: Option<
    serde_json::Map<String, serde_json::Value>,
>)
    ensures
        object_view(config) == match content {
            Some(text) => json_members(text@),
            None => None,
        },
{
    match content {
        Some(text) => parse_object(text.as_str()),
        None => None,
    }
}

/// The string that a configuration has under a key.
pub open spec fn config_string(config: Option<Members>, key: Seq<char>) -> Option<Seq<char>> {
    match config {
        Some(members) => string_under(members, key),
        None => None,
    }
}

/// The string that a configuration has under a key, without white space at its
/// ends; nothing where nothing is left.
pub open spec fn config_setting(config: Option<Members>, key: Seq<char>) -> Option<Seq<char>> {
    match config_string(config, key) {
        Some(text) if trimmed(text).len() > 0 => Some(trimmed(text)),
        _ => None,
    }
}

/// Takes the string that a configuration has under a key.
pub fn raw_string(
    config: &Option<serde_json::Map<String, serde_json::Value>>,
    key: &str,
) -> (text: Option<String>)
    ensures
        text_view(text) == config_string(object_view(*config), key@),
{
    match config {
        Some(object) => text_under(object, key),
        None => None,
    }
}

/// Takes the string that a configuration has under a key, without white space at
/// its ends.
pub fn existing_string(
    config: &Option<serde_json::Map<String, serde_json::Value>>,
    key: &str,
) -> (text: Option<String>)
    ensures
        text_view(text) == config_setting(object_view(*config), key@),
{
    match raw_string(config, key) {
        Some(text) => {
            let core = trim(text.as_str());
            if core.as_str().unicode_len() > 0 {
                Some(core)
            } else {
                None
            }
        },
        None => None,
    }
}

// ---------------------------------------------------------------------------
// The key file
// ---------------------------------------------------------------------------

/// The key of a database.
#[derive(Debug)]
pub struct KeyEntry {
    pub db_name: String,
    pub enc_key: String,
}

/// What the key file says: under the name of each database, its key. Of several
/// entries for one database the last one counts.
pub open spec fn key_members(entries: Seq<KeyEntry>) -> Members
    decreases entries.len(),
{
    if entries.len() == 0 {
        Map::empty()
    } else {
        key_members(entries.drop_last()).insert(
            entries.last().db_name@,
            JsonView::Nested("enc_key"@, entries.last().enc_key@),
        )
    }
}

proof fn lemma_keys_are_plain(entries: Seq<KeyEntry>)
    ensures
        all_plain(key_members(entries)),
    decreases entries.len(),
{
    if entries.len() > 0 {
        lemma_keys_are_plain(entries.drop_last());
    }
}

/// The key file has exactly the names of the entries, and under each name the key
/// of the last entry with that name.
pub proof fn law_last_key_counts(entries: Seq<KeyEntry>, name: Seq<char>)
    ensures
        key_members(entries).dom().contains(name) <==> exists|i: int|
            0 <= i < entries.len() && (#[trigger] entries[i]).db_name@ == name,
        forall|i: int|
            0 <= i < entries.len() && (#[trigger] entries[i]).db_name@ == name && (forall|j: int|
                i < j < entries.len() ==> (#[trigger] entries[j]).db_name@ != name) ==> key_members(
                entries,
            )[name] == JsonView::Nested("enc_key"@, entries[i].enc_key@),
    decreases entries.len(),
{
    if entries.len() > 0 {
        let front = entries.drop_last();
        let last = entries.len() - 1;
        law_last_key_counts(front, name);
        if entries[last].db_name@ != name {
            if exists|i: int| 0 <= i < front.len() && (#[trigger] front[i]).db_name@ == name {
                let i = choose|i: int|
                    0 <= i < front.len() && (#[trigger] front[i]).db_name@ == name;
                assert(entries[i].db_name@ == name);
            }
            if exists|i: int| 0 <= i < entries.len() && (#[trigger] entries[i]).db_name@ == name {
                let i = choose|i: int|
                    0 <= i < entries.len() && (#[trigger] entries[i]).db_name@ == name;
                assert(front[i].db_name@ == name);
            }
            assert forall|i: int|
                0 <= i < entries.len() && (#[trigger] entries[i]).db_name@ == name && (forall|
                    j: int,
                |
                    i < j < entries.len() ==> (#[trigger] entries[j]).db_name@
                        != name) implies key_members(entries)[name] == JsonView::Nested(
                "enc_key"@,
                entries[i].enc_key@,
            ) by {
                assert(front[i] == entries[i]);
                assert forall|j: int| i < j < front.len() implies (#[trigger] front[j]).db_name@
                    != name by {
                    assert(front[j] == entries[j]);
                }
            }
        } else {
            assert forall|i: int|
                0 <= i < entries.len() && (#[trigger] entries[i]).db_name@ == name && (forall|
                    j: int,
                |
                    i < j < entries.len() ==> (#[trigger] entries[j]).db_name@
                        != name) implies i == last by {
                if i < last {
                    assert(entries[last].db_name@ != name);
                }
            }
        }
    }
}

/// Writes the text of the key file, which is read back as it was.
pub fn keys_text(entries: &Vec<KeyEntry>) -> (text: Option<String>)
    ensures
        text_view(text) == json_pretty(key_members(entries@)),
        text is Some,
        json_members(text->0@) == Some(key_members(entries@)),
{
    let mut object = empty_object();
    let mut i: usize = 0;
    assert(entries@.take(0) =~= Seq::empty());
    while i < entries.len()
        invariant
            i <= entries@.len(),
            json_contents(object) == key_members(entries@.take(i as int)),
        decreases entries@.len() - i,
    {
        assert(entries@.take(i + 1).drop_last() =~= entries@.take(i as int));
        assert(entries@.take(i + 1).last() == entries@[i as int]);
        let member = NewMember::Nested {
            key: "enc_key".to_owned(),
            text: entries[i].enc_key.clone(),
        };
        put_member(&mut object, entries[i].db_name.as_str(), member);
        i += 1;
    }
    assert(entries@.take(entries@.len() as int) =~= entries@);
    proof {
        lemma_keys_are_plain(entries@);
    }
    pretty_object(&object)
}

// ---------------------------------------------------------------------------
// Changing a configuration
// ---------------------------------------------------------------------------

/// A member that is written into a configuration.
#[derive(Debug)]
pub struct ConfigUpdate {
    pub key: String,
    pub text: String,
    /// A member with this key stays as it is.
    pub only_if_absent: bool,
}

/// A member that is written into a configuration.
pub struct ConfigUpdateView {
    pub key: Seq<char>,
    pub text: Seq<char>,
    pub only_if_absent: bool,
}

impl View for ConfigUpdate {
    type V = ConfigUpdateView;

    open spec fn view(&self) -> ConfigUpdateView {
        ConfigUpdateView {
            key: self.key@,
            text: self.text@,
            only_if_absent: self.only_if_absent,
        }
    }
}

/// What several members say.
pub open spec fn updates_view(updates: Seq<ConfigUpdate>) -> Seq<ConfigUpdateView> {
    updates.map_values(|u: ConfigUpdate| u@)
}

/// The members of an earlier configuration; none where there is no such text, or
/// it is no JSON object.
pub open spec fn earlier_members(earlier: Option<String>) -> Members {
    match earlier {
        Some(text) => match json_members(text@) {
            Some(members) => members,
            None => Map::empty(),
        },
        None => Map::empty(),
    }
}

/// What the members become when others are written, one behind the other.
pub open spec fn set_up_members(members: Members, updates: Seq<ConfigUpdateView>) -> Members
    decreases updates.len(),
{
    if updates.len() == 0 {
        members
    } else {
        let front = set_up_members(members, updates.drop_last());
        let last = updates.last();
        if last.only_if_absent && front.dom().contains(last.key) {
            front
        } else {
            front.insert(last.key, JsonView::Text(last.text))
        }
    }
}

proof fn lemma_updates_are_plain(members: Members, updates: Seq<ConfigUpdateView>)
    requires
        all_plain(members),
    ensures
        all_plain(set_up_members(members, updates)),
    decreases updates.len(),
{
    if updates.len() > 0 {
        lemma_updates_are_plain(members, updates.drop_last());
    }
}

/// Writes the text of a configuration from an earlier one and from what is to be
/// written into it. There always is one. It is read back as it was, unless the
/// earlier one holds more than strings.
pub fn updated_text(earlier: Option<String>, updates: &Vec<ConfigUpdate>) -> (text: Option<String>)
    ensures
        text is Some,
        text_view(text) == json_pretty(
            set_up_members(earlier_members(earlier), updates_view(updates@)),
        ),
        all_plain(earlier_members(earlier)) ==> json_members(text->0@) == Some(
            set_up_members(earlier_members(earlier), updates_view(updates@)),
        ),
{
    let mut object = match read_config_map(earlier) {
        Some(object) => object,
        None => empty_object(),
    };
    let ghost start = earlier_members(earlier);
    let ghost all = updates_view(updates@);
    let mut i: usize = 0;
    assert(json_contents(object) == start);
    assert(all.take(0) =~= Seq::empty());
    while i < updates.len()
        invariant
            i <= updates@.len(),
            all == updates_view(updates@),
            json_contents(object) == set_up_members(start, all.take(i as int)),
        decreases updates@.len() - i,
    {
        assert(all.take(i + 1).drop_last() =~= all.take(i as int));
        assert(all.take(i + 1).last() == updates@[i as int]@);
        let present = has_key(&object, updates[i].key.as_str());
        if !(updates[i].only_if_absent && present) {
            put_member(
                &mut object,
                updates[i].key.as_str(),
                NewMember::Text(updates[i].text.clone()),
            );
        }
        i += 1;
    }
    assert(all.take(all.len() as int) =~= all);
    proof {
        if all_plain(start) {
            lemma_updates_are_plain(start, all);
        }
    }
    pretty_object(&object)
}

// ---------------------------------------------------------------------------
// What a configuration says
// ---------------------------------------------------------------------------

/// A string under a key is found there, whatever it is, and nothing else is taken
/// for a string.
pub proof fn law_config_string(members: Members, key: Seq<char>, text: Seq<char>)
    ensures
        config_string(Some(members.insert(key, JsonView::Text(text))), key) == Some(text),
        config_string(Some(members.remove(key)), key) is None,
        config_string(None, key) is None,
        forall|a: Seq<char>, b: Seq<char>|
            config_string(
                Some(#[trigger] members.insert(key, JsonView::Nested(a, b))),
                key,
            ) is None,
        forall|a: Seq<char>|
            config_string(Some(#[trigger] members.insert(key, JsonView::Other(a))), key) is None,
{
}

/// A setting is the string under its key, without the white space at its ends.
/// Where only white space stands there, or no string, there is no setting.
pub proof fn law_config_setting(
    members: Members,
    key: Seq<char>,
    before: Seq<char>,
    core: Seq<char>,
    behind: Seq<char>,
)
    requires
        forall|i: int| 0 <= i < before.len() ==> is_white_space(#[trigger] before[i]),
        forall|i: int| 0 <= i < behind.len() ==> is_white_space(#[trigger] behind[i]),
        core.len() > 0 ==> !is_white_space(core.first()) && !is_white_space(core.last()),
    ensures
        core.len() > 0 ==> config_setting(
            Some(members.insert(key, JsonView::Text(before + core + behind))),
            key,
        ) == Some(core),
        core.len() == 0 ==> config_setting(
            Some(members.insert(key, JsonView::Text(before + core + behind))),
            key,
        ) is None,
        config_setting(Some(members.remove(key)), key) is None,
        config_setting(None, key) is None,
{
    law_trimmed_core(before, core, behind);
}

/// A member that is written says its key and its text.
pub proof fn law_updates_view(updates: Seq<ConfigUpdate>, i: int)
    requires
        0 <= i < updates.len(),
    ensures
        updates_view(updates).len() == updates.len(),
        updates_view(updates)[i].key == updates[i].key@,
        updates_view(updates)[i].text == updates[i].text@,
        updates_view(updates)[i].only_if_absent == updates[i].only_if_absent,
{
}

/// A new member says what it is made of.
pub proof fn law_new_member_view(member: NewMember)
    ensures
        member matches NewMember::Text(text) ==> member@ == JsonView::Text(text@),
        member matches NewMember::Nested { key, text } ==> member@ == JsonView::Nested(key@, text@),
{
}

/// An earlier configuration has the members of its JSON object, and none where it is
/// none.
pub proof fn law_earlier_members(text: String)
    ensures
        json_members(text@) is Some ==> earlier_members(Some(text)) == json_members(text@)->0,
        json_members(text@) is None ==> earlier_members(Some(text)) == Members::empty(),
        earlier_members(None) == Members::empty(),
{
}

/// Writing a member changes that member and no other, and a member that is there is
/// left alone where only a missing one is to be written.
pub proof fn law_one_update(
    members: Members,
    updates: Seq<ConfigUpdateView>,
    update: ConfigUpdateView,
    key: Seq<char>,
)
    ensures
        ({
            let before = set_up_members(members, updates);
            let after = set_up_members(members, updates.push(update));
            &&& set_up_members(members, Seq::empty()) == members
            &&& key != update.key ==> after.dom().contains(key) == before.dom().contains(key)
                && after[key] == before[key]
            &&& after.dom().contains(update.key)
            &&& !update.only_if_absent || !before.dom().contains(update.key)
                ==> after[update.key] == JsonView::Text(update.text)
            &&& update.only_if_absent && before.dom().contains(update.key) ==> after == before
        }),
{
    assert(updates.push(update).drop_last() =~= updates);
}

/// What may not be there says itself where it is there.
pub proof fn law_optional_views(
    text: String,
    object: serde_json::Map<String, serde_json::Value>,
)
    ensures
        text_view(Some(text)) == Some(text@),
        text_view(None) is None,
        object_view(Some(object)) == Some(json_contents(object)),
        object_view(None) is None,
{
}

} // verus!
