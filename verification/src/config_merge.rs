//! Which file holds the configuration, and what a set-up writes into it.

use vstd::prelude::*;

use crate::config_text::{
    all_plain, earlier_members, json_members, json_pretty, set_up_members, text_view, updated_text,
    updates_view, ConfigUpdate, ConfigUpdateView, JsonView, Members,
};
use crate::init::{path_shown, InitTarget};

verus! {

// ---------------------------------------------------------------------------
// The file
// ---------------------------------------------------------------------------

/// A directory that may hold the configuration.
#[derive(Debug, Clone, Copy, PartialEq, Eq, Structural)]
pub enum ConfigPlace {
    /// The tool's own directory.
    CliDir,
    /// The directory that the tool was started in.
    WorkingDir,
    /// The directory of the program.
    ProgramDir,
}

/// Chooses the directory of the configuration. A profile has its configuration in
/// the tool's own directory. Else a configuration that lies in the working
/// directory, or beside the program, is used.
pub fn find_or_create_config_path(
    profile_is_active: bool,
    in_working_dir: bool,
    beside_program: bool,
) -> (place: ConfigPlace)
    ensures
        place == if profile_is_active {
            ConfigPlace::CliDir
        } else if in_working_dir {
            ConfigPlace::WorkingDir
        } else if beside_program {
            ConfigPlace::ProgramDir
        } else {
            ConfigPlace::CliDir
        },
{
    if profile_is_active {
        return ConfigPlace::CliDir;
    }
    if in_working_dir {
        return ConfigPlace::WorkingDir;
    }
    if beside_program {
        return ConfigPlace::ProgramDir;
    }
    ConfigPlace::CliDir
}

/// The name of the configuration file.
pub fn config_file_name() -> (name: &'static str)
    ensures
        name@ == "config.json"@,
{
    "config.json"
}

/// The name of the key file.
pub fn keys_file_name() -> (name: &'static str)
    ensures
        name@ == "all_keys.json"@,
{
    "all_keys.json"
}

// ---------------------------------------------------------------------------
// Its members
// ---------------------------------------------------------------------------

/// A member that replaces an earlier one.
pub open spec fn replacing(key: Seq<char>, text: Seq<char>) -> ConfigUpdateView {
    ConfigUpdateView { key, text, only_if_absent: false }
}

/// A member for where there is none.
pub open spec fn default_for(key: Seq<char>, text: Seq<char>) -> ConfigUpdateView {
    ConfigUpdateView { key, text, only_if_absent: true }
}

/// A member that replaces an earlier one, where there is something to write.
pub open spec fn replacing_if(key: Seq<char>, text: Option<Seq<char>>) -> Seq<ConfigUpdateView> {
    match text {
        Some(text) => seq![replacing(key, text)],
        None => Seq::empty(),
    }
}

/// What a set-up writes: the data directory and the process; where they are
/// missing, the names of the key file and of the directory for decrypted files;
/// and the bundle id and the application where they are known.
pub open spec fn target_updates(target: InitTarget) -> Seq<ConfigUpdateView> {
    seq![
        replacing("db_dir"@, target.db_dir.shown()),
        default_for("keys_file"@, "all_keys.json"@),
        default_for("decrypted_dir"@, "decrypted"@),
        replacing("wechat_process"@, target.process@),
    ] + replacing_if("bundle_id"@, text_view(target.bundle_id)) + replacing_if(
        "app_path"@,
        path_shown(target.app_path),
    )
}

/// Makes a member.
fn update(key: &str, text: String, only_if_absent: bool) -> (update: ConfigUpdate)
    ensures
        update@ == (ConfigUpdateView { key: key@, text: text@, only_if_absent }),
{
    ConfigUpdate { key: key.to_owned(), text, only_if_absent }
}

/// Lists what a set-up writes.
pub fn config_updates(target: &InitTarget) -> (updates: Vec<ConfigUpdate>)
    ensures
        updates_view(updates@) == target_updates(*target),
{
    let mut updates: Vec<ConfigUpdate> = Vec::new();
    updates.push(update("db_dir", target.db_dir.display(), false));
    updates.push(update("keys_file", "all_keys.json".to_owned(), true));
    updates.push(update("decrypted_dir", "decrypted".to_owned(), true));
    updates.push(update("wechat_process", target.process.clone(), false));
    if let Some(id) = &target.bundle_id {
        updates.push(update("bundle_id", id.clone(), false));
    }
    if let Some(path) = &target.app_path {
        updates.push(update("app_path", path.display(), false));
    }
    assert(updates_view(updates@) =~= target_updates(*target));
    updates
}

/// Writes the text of the configuration file, from the text that it had before.
/// There always is one. It is read back as it was, unless the earlier one holds
/// more than strings.
pub fn config_file_text(earlier: Option<String>, target: &InitTarget) -> (text: Option<String>)
    ensures
        text is Some,
        text_view(text) == json_pretty(
            set_up_members(earlier_members(earlier), target_updates(*target)),
        ),
        all_plain(earlier_members(earlier)) ==> json_members(text->0@) == Some(
            set_up_members(earlier_members(earlier), target_updates(*target)),
        ),
{
    let updates = config_updates(target);
    updated_text(earlier, &updates)
}

/// A key that a set-up writes to.
pub open spec fn is_own_key(key: Seq<char>) -> bool {
    ||| key == "db_dir"@
    ||| key == "keys_file"@
    ||| key == "decrypted_dir"@
    ||| key == "wechat_process"@
    ||| key == "bundle_id"@
    ||| key == "app_path"@
}

proof fn lemma_keys_differ()
    ensures
        "db_dir"@ != "keys_file"@,
        "db_dir"@ != "decrypted_dir"@,
        "db_dir"@ != "wechat_process"@,
        "db_dir"@ != "bundle_id"@,
        "db_dir"@ != "app_path"@,
        "keys_file"@ != "decrypted_dir"@,
        "keys_file"@ != "wechat_process"@,
        "keys_file"@ != "bundle_id"@,
        "keys_file"@ != "app_path"@,
        "decrypted_dir"@ != "wechat_process"@,
        "decrypted_dir"@ != "bundle_id"@,
        "decrypted_dir"@ != "app_path"@,
        "wechat_process"@ != "bundle_id"@,
        "wechat_process"@ != "app_path"@,
        "bundle_id"@ != "app_path"@,
{
    reveal_strlit("db_dir");
    reveal_strlit("keys_file");
    reveal_strlit("decrypted_dir");
    reveal_strlit("wechat_process");
    reveal_strlit("bundle_id");
    reveal_strlit("app_path");
    assert("db_dir"@.len() == 6);
    assert("decrypted_dir"@.len() == 13);
    assert("wechat_process"@.len() == 14);
    assert("keys_file"@[0] != "bundle_id"@[0]);
}

/// The value that a list of members without repeated keys leaves under a key.
proof fn lemma_updated_under(
    members: Members,
    updates: Seq<ConfigUpdateView>,
    key: Seq<char>,
)
    requires
        forall|i: int, j: int|
            0 <= i < j < updates.len() ==> (#[trigger] updates[i]).key != (
            #[trigger] updates[j]).key,
    ensures
        ({
            let after = set_up_members(members, updates);
            &&& (forall|i: int| 0 <= i < updates.len() ==> (#[trigger] updates[i]).key != key)
                ==> after.dom().contains(key) == members.dom().contains(key) && after[key]
                == members[key]
            &&& forall|i: int|
                0 <= i < updates.len() && (#[trigger] updates[i]).key == key ==> {
                    &&& after.dom().contains(key)
                    &&& after[key] == if updates[i].only_if_absent && members.dom().contains(key) {
                        members[key]
                    } else {
                        JsonView::Text(updates[i].text)
                    }
                }
        }),
    decreases updates.len(),
{
    if updates.len() > 0 {
        let front = updates.drop_last();
        assert forall|i: int, j: int| 0 <= i < j < front.len() implies (#[trigger] front[i]).key != (
        #[trigger] front[j]).key by {
            assert(updates[i].key != updates[j].key);
        }
        lemma_updated_under(members, front, key);
        assert forall|i: int| 0 <= i < front.len() implies (#[trigger] front[i]).key
            != updates.last().key by {
            assert(updates[i].key != updates[updates.len() - 1].key);
        }
        if updates.last().key == key {
            assert forall|i: int| 0 <= i < updates.len() && (#[trigger] updates[i]).key
                == key implies i == updates.len() - 1 by {
                if i < updates.len() - 1 {
                    assert(updates[i].key != updates[updates.len() - 1].key);
                }
            }
        } else {
            if forall|i: int| 0 <= i < updates.len() ==> (#[trigger] updates[i]).key != key {
                assert forall|i: int| 0 <= i < front.len() implies (#[trigger] front[i]).key
                    != key by {
                    assert(updates[i].key != key);
                }
            }
            assert forall|i: int| 0 <= i < updates.len() && (#[trigger] updates[i]).key
                == key implies front[i] == updates[i] && i < front.len() by {}
        }
    }
}

/// A set-up writes the data directory and the process, keeps the names of the key
/// file and of the directory for decrypted files where they are set, writes the
/// bundle id and the application where they are known, and leaves every other
/// member alone.
pub proof fn law_config(target: InitTarget, before: Members, key: Seq<char>)
    ensures
        ({
            let after = set_up_members(before, target_updates(target));
            let stays = after.dom().contains(key) == before.dom().contains(key) && after[key]
                == before[key];
            &&& after.dom().contains("db_dir"@) && after["db_dir"@] == JsonView::Text(
                target.db_dir.shown(),
            )
            &&& after.dom().contains("wechat_process"@) && after["wechat_process"@]
                == JsonView::Text(target.process@)
            &&& after.dom().contains("keys_file"@) && after["keys_file"@]
                == if before.dom().contains("keys_file"@) {
                before["keys_file"@]
            } else {
                JsonView::Text("all_keys.json"@)
            }
            &&& after.dom().contains("decrypted_dir"@) && after["decrypted_dir"@]
                == if before.dom().contains("decrypted_dir"@) {
                before["decrypted_dir"@]
            } else {
                JsonView::Text("decrypted"@)
            }
            &&& key == "bundle_id"@ ==> match target.bundle_id {
                Some(id) => after.dom().contains(key) && after[key] == JsonView::Text(
                    id@,
                ),
                None => stays,
            }
            &&& key == "app_path"@ ==> match target.app_path {
                Some(path) => after.dom().contains(key) && after[key] == JsonView::Text(
                    path.shown(),
                ),
                None => stays,
            }
            &&& !is_own_key(key) ==> stays
        }),
{
    let updates = target_updates(target);
    lemma_keys_differ();
    assert(updates[0].key == "db_dir"@);
    assert(updates[1].key == "keys_file"@);
    assert(updates[2].key == "decrypted_dir"@);
    assert(updates[3].key == "wechat_process"@);
    if target.bundle_id is Some {
        assert(updates[4].key == "bundle_id"@);
        if target.app_path is Some {
            assert(updates[5].key == "app_path"@);
        }
    } else if target.app_path is Some {
        assert(updates[4].key == "app_path"@);
    }
    lemma_updated_under(before, updates, "db_dir"@);
    lemma_updated_under(before, updates, "keys_file"@);
    lemma_updated_under(before, updates, "decrypted_dir"@);
    lemma_updated_under(before, updates, "wechat_process"@);
    lemma_updated_under(before, updates, key);
}

} // verus!
