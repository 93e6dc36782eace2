//! Setting the tool up: which data directory, which keys, which configuration.
//!
//! A directory, an application or a bundle id that the user names selects the
//! target, and what an earlier configuration says of another target is left
//! aside. Without one the earlier configuration stands.
//!
//! Here stands what is decided on the way. The caller does what an action says
//! and tells what came of it.

use vstd::prelude::*;

use crate::config_text::{
    config_setting, config_string, existing_string, object_view, raw_string, text_view, KeyEntry,
    Members,
};
use crate::text::{
    contains_text, holds_text, law_holds_text, law_trimmed_twice, lossy_text, trim, trimmed,
    utf8_lossy,
};

verus! {

// ---------------------------------------------------------------------------
// What the user and the earlier configuration say
// ---------------------------------------------------------------------------

/// The system that the tool runs on.
#[derive(Debug, Clone, Copy, PartialEq, Eq, Structural)]
pub enum HostOs {
    MacOs,
    Linux,
    Windows,
    Other,
}

/// The name of the chat client's process.
pub open spec fn process_name(os: HostOs) -> Seq<char> {
    match os {
        HostOs::MacOs => "WeChat"@,
        HostOs::Linux => "wechat"@,
        HostOs::Windows => "Weixin.exe"@,
        HostOs::Other => "WeChat"@,
    }
}

/// Names the chat client's process.
pub fn default_process_name(os: HostOs) -> (name: String)
    ensures
        name@ == process_name(os),
{
    match os {
        HostOs::MacOs => "WeChat".to_owned(),
        HostOs::Linux => "wechat".to_owned(),
        HostOs::Windows => "Weixin.exe".to_owned(),
        HostOs::Other => "WeChat".to_owned(),
    }
}

/// A path, by its bytes or as a text.
#[derive(Debug)]
pub enum InitPath {
    Bytes(Vec<u8>),
    Text(String),
}

impl InitPath {
    /// How the path is shown and written down.
    pub open spec fn shown(self) -> Seq<char> {
        match self {
            InitPath::Bytes(bytes) => utf8_lossy(bytes@),
            InitPath::Text(text) => text@,
        }
    }

    /// Shows the path.
    pub fn display(&self) -> (text: String)
        ensures
            text@ == self.shown(),
    {
        match self {
            InitPath::Bytes(bytes) => lossy_text(bytes.as_slice()),
            InitPath::Text(text) => text.clone(),
        }
    }
}

/// What the user asks for.
#[derive(Debug)]
pub struct InitArgs {
    pub force: bool,
    pub db_dir: Option<InitPath>,
    pub app: Option<InitPath>,
    pub bundle_id: Option<String>,
    pub wechat_process: Option<String>,
}

impl InitArgs {
    /// The user names what is to be read.
    pub open spec fn selects_target(self) -> bool {
        self.db_dir is Some || self.app is Some || self.bundle_id is Some
    }

    /// The user names anything.
    pub open spec fn selects(self) -> bool {
        self.selects_target() || self.wechat_process is Some
    }
}

/// Files that show, where they are there, that the tool is set up already.
#[derive(Debug)]
pub struct ReadyCheck {
    /// The data directory.
    pub db_dir: String,
    /// The key file, seen from the configuration's directory.
    pub keys_file: String,
}

/// What is to be done, as far as it can be told without looking at files.
#[derive(Debug)]
pub struct InitPlan {
    /// What is to be looked at first.
    pub check: Option<ReadyCheck>,
    /// The data directory that the user names.
    pub given_db_dir: Option<InitPath>,
    /// The data directory of the earlier configuration.
    pub existing_db_dir: Option<InitPath>,
    pub app_path: Option<InitPath>,
    pub bundle_id: Option<String>,
    pub process: String,
    pub os: HostOs,
}

/// The members of an earlier configuration.
pub type Config = Option<Members>;

/// What an optional text says, or else something else.
pub open spec fn or_else(text: Option<Seq<char>>, other: Seq<char>) -> Seq<char> {
    match text {
        Some(text) => text,
        None => other,
    }
}

/// An earlier configuration is worth looking at files for: the user does not
/// insist on anything, and it names a data directory that is no placeholder.
pub open spec fn may_be_ready(args: InitArgs, config: Config) -> bool {
    let db_dir = or_else(config_string(config, "db_dir"@), ""@);
    &&& !args.force
    &&& !args.selects()
    &&& config is Some
    &&& db_dir.len() > 0
    &&& !holds_text(db_dir, "your_wxid"@)
}

/// A setting of the earlier configuration, unless the user selects a target.
pub open spec fn setting_kept(args: InitArgs, config: Config, key: Seq<char>) -> Option<Seq<char>> {
    if args.selects_target() {
        None
    } else {
        config_setting(config, key)
    }
}

/// The bundle id that is known without looking at the application: that of the
/// user, where it is not blank, or that of the earlier configuration.
pub open spec fn known_bundle_id(args: InitArgs, config: Config) -> Option<Seq<char>> {
    match args.bundle_id {
        Some(id) => if trimmed(id@).len() > 0 {
            Some(id@)
        } else {
            None
        },
        None => setting_kept(args, config, "bundle_id"@),
    }
}

/// The process that holds the keys: the one that the user names, else that of the
/// earlier configuration, else the usual one.
pub open spec fn chosen_process(args: InitArgs, config: Config, os: HostOs) -> Seq<char> {
    match args.wechat_process {
        Some(name) => name@,
        None => or_else(config_setting(config, "wechat_process"@), process_name(os)),
    }
}

/// How a path that may not be there is shown.
pub open spec fn path_shown(path: Option<InitPath>) -> Option<Seq<char>> {
    match path {
        Some(path) => Some(path.shown()),
        None => None,
    }
}

/// A path that is the text of a setting.
pub open spec fn is_setting(path: Option<InitPath>, setting: Option<Seq<char>>) -> bool {
    match (path, setting) {
        (Some(InitPath::Text(text)), Some(setting)) => text@ == setting,
        (None, None) => true,
        _ => false,
    }
}

/// Takes a setting of the earlier configuration as a path.
fn path_setting(
    keep: bool,
    config: &Option<serde_json::Map<String, serde_json::Value>>,
    key: &str,
) -> (path: Option<InitPath>)
    ensures
        is_setting(
            path,
            if keep {
                config_setting(object_view(*config), key@)
            } else {
                None
            },
        ),
{
    if !keep {
        return None;
    }
    match existing_string(config, key) {
        Some(text) => Some(InitPath::Text(text)),
        None => None,
    }
}

/// Plans what is to be done.
pub fn plan_init(
    args: InitArgs,
    config: Option<serde_json::Map<String, serde_json::Value>>,
    os: HostOs,
) -> (plan: InitPlan)
    ensures
        match plan.check {
            Some(check) => {
                &&& may_be_ready(args, object_view(config))
                &&& Some(check.db_dir@) == config_string(object_view(config), "db_dir"@)
                &&& check.keys_file@ == or_else(
                    config_string(object_view(config), "keys_file"@),
                    "all_keys.json"@,
                )
            },
            None => !may_be_ready(args, object_view(config)),
        },
        plan.given_db_dir == args.db_dir,
        is_setting(plan.existing_db_dir, setting_kept(args, object_view(config), "db_dir"@)),
        match args.app {
            Some(path) => plan.app_path == Some(path),
            None => is_setting(
                plan.app_path,
                setting_kept(args, object_view(config), "app_path"@),
            ),
        },
        text_view(plan.bundle_id) == known_bundle_id(args, object_view(config)),
        plan.bundle_id is Some ==> is_bundle_id(plan.bundle_id),
        plan.process@ == chosen_process(args, object_view(config), os),
        plan.os == os,
{
    let target_selector_supplied = args.db_dir.is_some() || args.app.is_some()
        || args.bundle_id.is_some();
    let selector_supplied = target_selector_supplied || args.wechat_process.is_some();
    let keep = !target_selector_supplied;
    let check = if !args.force && !selector_supplied {
        ready_check(&config)
    } else {
        None
    };
    let existing_db_dir = path_setting(keep, &config, "db_dir");
    let app_path = match args.app {
        Some(path) => Some(path),
        None => path_setting(keep, &config, "app_path"),
    };
    let bundle_id = match args.bundle_id {
        Some(id) => if trim(id.as_str()).as_str().unicode_len() > 0 {
            Some(id)
        } else {
            None
        },
        None => if keep {
            existing_string(&config, "bundle_id")
        } else {
            None
        },
    };
    proof {
        if let Some(text) = config_string(object_view(config), "bundle_id"@) {
            law_trimmed_twice(text);
        }
    }
    let process = match args.wechat_process {
        Some(name) => name,
        None => match existing_string(&config, "wechat_process") {
            Some(name) => name,
            None => default_process_name(os),
        },
    };
    InitPlan {
        check,
        given_db_dir: args.db_dir,
        existing_db_dir,
        app_path,
        bundle_id,
        process,
        os,
    }
}

/// Takes from the earlier configuration what is to be looked at.
fn ready_check(config: &Option<serde_json::Map<String, serde_json::Value>>) -> (check: Option<
    ReadyCheck,
>)
    ensures
        match check {
            Some(check) => {
                &&& check.db_dir@.len() > 0
                &&& !holds_text(check.db_dir@, "your_wxid"@)
                &&& Some(check.db_dir@) == config_string(object_view(*config), "db_dir"@)
                &&& check.keys_file@ == or_else(
                    config_string(object_view(*config), "keys_file"@),
                    "all_keys.json"@,
                )
            },
            None => {
                let db_dir = or_else(config_string(object_view(*config), "db_dir"@), ""@);
                db_dir.len() == 0 || holds_text(db_dir, "your_wxid"@)
            },
        },
{
    proof {
        reveal_strlit("");
    }
    let db_dir = match raw_string(config, "db_dir") {
        Some(text) => text,
        None => {
            return None;
        },
    };
    if db_dir.as_str().unicode_len() == 0 || contains_text(db_dir.as_str(), "your_wxid") {
        return None;
    }
    let keys_file = match raw_string(config, "keys_file") {
        Some(text) => text,
        None => "all_keys.json".to_owned(),
    };
    Some(ReadyCheck { db_dir, keys_file })
}

// ---------------------------------------------------------------------------
// The way to a configuration
// ---------------------------------------------------------------------------

/// What is to be read, and how.
#[derive(Debug)]
pub struct InitTarget {
    pub db_dir: InitPath,
    pub bundle_id: Option<String>,
    pub app_path: Option<InitPath>,
    pub process: String,
}

/// Why the tool cannot be set up.
#[derive(Debug)]
pub enum InitError {
    /// An application is named, and its bundle id, which leads to the data
    /// directory, cannot be read.
    NoBundleId,
    /// The data directory that the user names is no directory.
    NoDataDir(InitPath),
    /// No data directory was found.
    NotDetected { bundle_id: Option<String> },
}

/// Says of which application no data directory was found.
pub open spec fn bundle_hint(bundle_id: Option<String>) -> Seq<char> {
    match bundle_id {
        Some(id) => "（bundle_id: "@ + id@ + "）"@,
        None => ""@,
    }
}

impl InitError {
    /// The words for an error. The configuration file is shown where the user may
    /// write into it.
    pub open spec fn words(self, config_path: Seq<char>) -> Seq<char> {
        match self {
            InitError::NoBundleId => {
                "无法从 --app 读取 bundle id；请同时传 --bundle-id 或 --db-dir"@
            },
            InitError::NoDataDir(path) => "指定的 db_storage 目录不存在: "@ + path.shown(),
            InitError::NotDetected { bundle_id } => {
                "未能自动检测到微信数据目录"@ + bundle_hint(bundle_id)
                    + "\n请编辑配置文件并填写 db_dir 字段:\n  "@ + config_path
                    + "\n或运行: wx init --db-dir <data_root>/xwechat_files/<wxid>/db_storage"@
            },
        }
    }

    /// Says what went wrong.
    pub fn message(&self, config_path: &str) -> (message: String)
        ensures
            message@ == self.words(config_path@),
    {
        match self {
            InitError::NoBundleId => {
                "无法从 --app 读取 bundle id；请同时传 --bundle-id 或 --db-dir".to_owned()
            },
            InitError::NoDataDir(path) => {
                let mut message = "指定的 db_storage 目录不存在: ".to_owned();
                message.append(path.display().as_str());
                message
            },
            InitError::NotDetected { bundle_id } => {
                let mut message = "未能自动检测到微信数据目录".to_owned();
                match bundle_id {
                    Some(id) => {
                        message.append("（bundle_id: ");
                        message.append(id.as_str());
                        message.append("）");
                        assert(message@ =~= "未能自动检测到微信数据目录"@ + bundle_hint(*bundle_id));
                    },
                    None => message.append(""),
                }
                message.append("\n请编辑配置文件并填写 db_dir 字段:\n  ");
                message.append(config_path);
                message.append(
                    "\n或运行: wx init --db-dir <data_root>/xwechat_files/<wxid>/db_storage",
                );
                message
            },
        }
    }
}

/// Where the set-up stands.
#[derive(Debug)]
pub enum InitStage {
    /// Is the data directory there that an earlier configuration names?
    DataDirThere { plan: InitPlan, check: ReadyCheck },
    /// Is the key file there that an earlier configuration names?
    KeysThere { plan: InitPlan, check: ReadyCheck },
    /// What is the full path of the application?
    NormalizeApp { plan: InitPlan, app: InitPath },
    /// What bundle id does the application have?
    AppBundle { plan: InitPlan, app: InitPath },
    /// What bundle id does the data directory belong to?
    DbBundle { plan: InitPlan },
    /// What is the full path of the data directory that the user names?
    NormalizeGiven { plan: InitPlan, path: InitPath },
    /// Is that a directory?
    GivenIsDir { plan: InitPlan, path: InitPath },
    /// Is the data directory of the earlier configuration a directory?
    ExistingIsDir { plan: InitPlan, path: InitPath },
    /// What is its full path?
    NormalizeExisting { plan: InitPlan, path: InitPath },
    /// Where is a data directory?
    Detect { plan: InitPlan },
    /// The keys are to be taken from the process.
    Scan { target: InitTarget },
    /// The rights of the superuser are to be given up.
    DropPrivileges { target: InitTarget, entries: Vec<KeyEntry> },
    /// The configuration's directory is to be made.
    MakeConfigDir { target: InitTarget, entries: Vec<KeyEntry> },
    /// The key file is to be written.
    WriteKeys { target: InitTarget, entries: Vec<KeyEntry> },
    /// The configuration is to be written.
    WriteConfig { target: InitTarget },
    /// A daemon with the earlier configuration is to be stopped.
    StopDaemon,
    /// The tool is set up.
    Done,
    /// The tool was set up already, for this data directory.
    Ready(String),
    Failed(InitError),
}

/// What came of an action.
#[derive(Debug)]
pub enum InitEvent {
    /// The answer to whether something is there.
    Yes(bool),
    /// A full path, or the path itself where it has none.
    Path(InitPath),
    Bundle(Option<String>),
    Detected(Option<InitPath>),
    Scanned(Vec<KeyEntry>),
    /// It is done.
    Done,
}

/// A bundle id says something.
pub open spec fn is_bundle_id(id: Option<String>) -> bool {
    id matches Some(id) && trimmed(id@).len() > 0
}

/// The bundle id: the known one, else that of the application, else that of the
/// data directory. Only macOS has bundle ids of applications and of data
/// directories.
pub open spec fn bundle_id_of(
    os: HostOs,
    known: Option<String>,
    of_app: Option<String>,
    of_db_dir: Option<String>,
) -> Option<String> {
    if is_bundle_id(known) {
        known
    } else if os != HostOs::MacOs {
        None
    } else if of_app is Some {
        of_app
    } else {
        of_db_dir
    }
}

/// Chooses the bundle id. Only macOS has bundle ids of applications and of data
/// directories.
pub fn resolve_bundle_id(
    os: HostOs,
    explicit: Option<String>,
    of_app: Option<String>,
    of_db_dir: Option<String>,
) -> (id: Option<String>)
    ensures
        id == bundle_id_of(os, explicit, of_app, of_db_dir),
{
    if let Some(id) = explicit {
        if trim(id.as_str()).as_str().unicode_len() > 0 {
            return Some(id);
        }
    }
    if os != HostOs::MacOs {
        return None;
    }
    match of_app {
        Some(id) => Some(id),
        None => of_db_dir,
    }
}

/// What is to be read with a data directory.
pub open spec fn target_of(plan: InitPlan, db_dir: InitPath) -> InitTarget {
    InitTarget {
        db_dir,
        bundle_id: plan.bundle_id,
        app_path: plan.app_path,
        process: plan.process,
    }
}

impl InitPlan {
    /// The data directory whose bundle id may be asked for.
    pub fn db_dir_for_bundle(&self) -> (path: Option<&InitPath>)
        ensures
            path == match (&self.given_db_dir, &self.existing_db_dir) {
                (Some(path), _) => Some(path),
                (None, Some(path)) => Some(path),
                (None, None) => None,
            },
    {
        match &self.given_db_dir {
            Some(path) => Some(path),
            None => match &self.existing_db_dir {
                Some(path) => Some(path),
                None => None,
            },
        }
    }
}

/// Goes on with the data directory.
pub open spec fn to_db_dir(plan: InitPlan) -> InitStage {
    match (plan.given_db_dir, plan.existing_db_dir) {
        (Some(path), _) => InitStage::NormalizeGiven {
            plan: InitPlan { given_db_dir: None, ..plan },
            path,
        },
        (None, Some(path)) => InitStage::ExistingIsDir {
            plan: InitPlan { existing_db_dir: None, ..plan },
            path,
        },
        (None, None) => if plan.app_path is Some && plan.bundle_id is None {
            InitStage::Failed(InitError::NoBundleId)
        } else {
            InitStage::Detect { plan }
        },
    }
}

/// Goes on with the bundle id that the data directory belongs to.
pub open spec fn to_db_bundle(plan: InitPlan) -> InitStage {
    if plan.given_db_dir is Some || plan.existing_db_dir is Some {
        InitStage::DbBundle { plan }
    } else {
        to_db_dir(plan)
    }
}

/// Goes on with the bundle id of an application whose full path is known. Only on
/// macOS it is asked for.
pub open spec fn to_bundle(plan: InitPlan, app: Option<InitPath>) -> InitStage {
    if is_bundle_id(plan.bundle_id) {
        to_db_dir(InitPlan { app_path: app, ..plan })
    } else if plan.os != HostOs::MacOs {
        to_db_dir(InitPlan { bundle_id: None, app_path: app, ..plan })
    } else {
        match app {
            Some(app) => InitStage::AppBundle {
                plan: InitPlan { bundle_id: None, app_path: None, ..plan },
                app,
            },
            None => to_db_bundle(InitPlan { bundle_id: None, app_path: None, ..plan }),
        }
    }
}

/// Goes on with the application.
pub open spec fn to_app(plan: InitPlan) -> InitStage {
    match plan.app_path {
        Some(app) => InitStage::NormalizeApp { plan: InitPlan { app_path: None, ..plan }, app },
        None => to_bundle(plan, None),
    }
}

/// Where the set-up starts.
pub open spec fn first_init_stage(plan: InitPlan) -> InitStage {
    match plan.check {
        Some(check) => InitStage::DataDirThere { plan: InitPlan { check: None, ..plan }, check },
        None => to_app(plan),
    }
}

/// How an event moves the set-up on. An event that does not belong to the action
/// does not.
pub open spec fn next_init_stage(stage: InitStage, event: InitEvent) -> InitStage {
    match (stage, event) {
        (InitStage::DataDirThere { plan, check }, InitEvent::Yes(yes)) => if yes {
            InitStage::KeysThere { plan, check }
        } else {
            to_app(plan)
        },
        (InitStage::KeysThere { plan, check }, InitEvent::Yes(yes)) => if yes {
            InitStage::Ready(check.db_dir)
        } else {
            to_app(plan)
        },
        (InitStage::NormalizeApp { plan, .. }, InitEvent::Path(app)) => to_bundle(plan, Some(app)),
        (InitStage::AppBundle { plan, app }, InitEvent::Bundle(id)) => {
            let plan = InitPlan { bundle_id: id, app_path: Some(app), ..plan };
            if id is Some {
                to_db_dir(plan)
            } else {
                to_db_bundle(plan)
            }
        },
        (InitStage::DbBundle { plan }, InitEvent::Bundle(id)) => to_db_dir(
            InitPlan { bundle_id: id, ..plan },
        ),
        (InitStage::NormalizeGiven { plan, .. }, InitEvent::Path(path)) => InitStage::GivenIsDir {
            plan,
            path,
        },
        (InitStage::GivenIsDir { plan, path }, InitEvent::Yes(yes)) => if yes {
            InitStage::Scan { target: target_of(plan, path) }
        } else {
            InitStage::Failed(InitError::NoDataDir(path))
        },
        (InitStage::ExistingIsDir { plan, path }, InitEvent::Yes(yes)) => if yes {
            InitStage::NormalizeExisting { plan, path }
        } else {
            InitStage::Detect { plan }
        },
        (InitStage::NormalizeExisting { plan, .. }, InitEvent::Path(path)) => InitStage::Scan {
            target: target_of(plan, path),
        },
        (InitStage::Detect { plan }, InitEvent::Detected(found)) => match found {
            Some(path) => InitStage::Scan { target: target_of(plan, path) },
            None => InitStage::Failed(InitError::NotDetected { bundle_id: plan.bundle_id }),
        },
        (InitStage::Scan { target }, InitEvent::Scanned(entries)) => InitStage::DropPrivileges {
            target,
            entries,
        },
        (InitStage::DropPrivileges { target, entries }, InitEvent::Done) => {
            InitStage::MakeConfigDir { target, entries }
        },
        (InitStage::MakeConfigDir { target, entries }, InitEvent::Done) => InitStage::WriteKeys {
            target,
            entries,
        },
        (InitStage::WriteKeys { target, .. }, InitEvent::Done) => InitStage::WriteConfig { target },
        (InitStage::WriteConfig { .. }, InitEvent::Done) => InitStage::StopDaemon,
        (InitStage::StopDaemon, InitEvent::Done) => InitStage::Done,
        (stage, _) => stage,
    }
}

/// Goes on with the data directory.
fn stage_for_db_dir(plan: InitPlan) -> (stage: InitStage)
    ensures
        stage == to_db_dir(plan),
{
    let InitPlan { check, given_db_dir, existing_db_dir, app_path, bundle_id, process, os } = plan;
    match (given_db_dir, existing_db_dir) {
        (Some(path), existing_db_dir) => InitStage::NormalizeGiven {
            plan: InitPlan {
                check,
                given_db_dir: None,
                existing_db_dir,
                app_path,
                bundle_id,
                process,
                os,
            },
            path,
        },
        (None, Some(path)) => InitStage::ExistingIsDir {
            plan: InitPlan {
                check,
                given_db_dir: None,
                existing_db_dir: None,
                app_path,
                bundle_id,
                process,
                os,
            },
            path,
        },
        (None, None) => if app_path.is_some() && bundle_id.is_none() {
            InitStage::Failed(InitError::NoBundleId)
        } else {
            InitStage::Detect {
                plan: InitPlan {
                    check,
                    given_db_dir: None,
                    existing_db_dir: None,
                    app_path,
                    bundle_id,
                    process,
                    os,
                },
            }
        },
    }
}

/// Goes on with the bundle id that the data directory belongs to.
fn stage_for_db_bundle(plan: InitPlan) -> (stage: InitStage)
    ensures
        stage == to_db_bundle(plan),
{
    if plan.given_db_dir.is_some() || plan.existing_db_dir.is_some() {
        InitStage::DbBundle { plan }
    } else {
        stage_for_db_dir(plan)
    }
}

/// Goes on with the bundle id of an application whose full path is known.
fn stage_for_bundle(plan: InitPlan, app: Option<InitPath>) -> (stage: InitStage)
    ensures
        stage == to_bundle(plan, app),
{
    let InitPlan { check, given_db_dir, existing_db_dir, bundle_id, process, os, .. } = plan;
    match resolve_bundle_id(os, bundle_id, None, None) {
        Some(id) => stage_for_db_dir(
            InitPlan {
                check,
                given_db_dir,
                existing_db_dir,
                app_path: app,
                bundle_id: Some(id),
                process,
                os,
            },
        ),
        None if os != HostOs::MacOs => stage_for_db_dir(
            InitPlan {
                check,
                given_db_dir,
                existing_db_dir,
                app_path: app,
                bundle_id: None,
                process,
                os,
            },
        ),
        None => {
            let plan = InitPlan {
                check,
                given_db_dir,
                existing_db_dir,
                app_path: None,
                bundle_id: None,
                process,
                os,
            };
            match app {
                Some(app) => InitStage::AppBundle { plan, app },
                None => stage_for_db_bundle(plan),
            }
        },
    }
}

/// Goes on with the application.
fn stage_for_app(plan: InitPlan) -> (stage: InitStage)
    ensures
        stage == to_app(plan),
{
    let InitPlan { check, given_db_dir, existing_db_dir, app_path, bundle_id, process, os } = plan;
    let plan = InitPlan {
        check,
        given_db_dir,
        existing_db_dir,
        app_path: None,
        bundle_id,
        process,
        os,
    };
    match app_path {
        Some(app) => InitStage::NormalizeApp { plan, app },
        None => stage_for_bundle(plan, None),
    }
}

/// What is to be read with a data directory.
fn init_target(plan: InitPlan, db_dir: InitPath) -> (target: InitTarget)
    ensures
        target == target_of(plan, db_dir),
{
    InitTarget {
        db_dir,
        bundle_id: plan.bundle_id,
        app_path: plan.app_path,
        process: plan.process,
    }
}

/// Starts the set-up.
pub fn cmd_init(plan: InitPlan) -> (stage: InitStage)
    ensures
        stage == first_init_stage(plan),
{
    let InitPlan { check, given_db_dir, existing_db_dir, app_path, bundle_id, process, os } = plan;
    let plan = InitPlan {
        check: None,
        given_db_dir,
        existing_db_dir,
        app_path,
        bundle_id,
        process,
        os,
    };
    match check {
        Some(check) => InitStage::DataDirThere { plan, check },
        None => stage_for_app(plan),
    }
}

impl InitStage {
    /// Takes what came of the action.
    pub fn answer(self, event: InitEvent) -> (next: InitStage)
        ensures
            next == next_init_stage(self, event),
    {
        match (self, event) {
            (InitStage::DataDirThere { plan, check }, InitEvent::Yes(yes)) => if yes {
                InitStage::KeysThere { plan, check }
            } else {
                stage_for_app(plan)
            },
            (InitStage::KeysThere { plan, check }, InitEvent::Yes(yes)) => if yes {
                InitStage::Ready(check.db_dir)
            } else {
                stage_for_app(plan)
            },
            (InitStage::NormalizeApp { plan, .. }, InitEvent::Path(app)) => stage_for_bundle(
                plan,
                Some(app),
            ),
            (InitStage::AppBundle { plan, app }, InitEvent::Bundle(id)) => {
                let known = id.is_some();
                let plan = InitPlan {
                    check: plan.check,
                    given_db_dir: plan.given_db_dir,
                    existing_db_dir: plan.existing_db_dir,
                    app_path: Some(app),
                    bundle_id: id,
                    process: plan.process,
                    os: plan.os,
                };
                if known {
                    stage_for_db_dir(plan)
                } else {
                    stage_for_db_bundle(plan)
                }
            },
            (InitStage::DbBundle { plan }, InitEvent::Bundle(id)) => stage_for_db_dir(
                InitPlan {
                    check: plan.check,
                    given_db_dir: plan.given_db_dir,
                    existing_db_dir: plan.existing_db_dir,
                    app_path: plan.app_path,
                    bundle_id: id,
                    process: plan.process,
                    os: plan.os,
                },
            ),
            (InitStage::NormalizeGiven { plan, .. }, InitEvent::Path(path)) => {
                InitStage::GivenIsDir { plan, path }
            },
            (InitStage::GivenIsDir { plan, path }, InitEvent::Yes(yes)) => if yes {
                InitStage::Scan { target: init_target(plan, path) }
            } else {
                InitStage::Failed(InitError::NoDataDir(path))
            },
            (InitStage::ExistingIsDir { plan, path }, InitEvent::Yes(yes)) => if yes {
                InitStage::NormalizeExisting { plan, path }
            } else {
                InitStage::Detect { plan }
            },
            (InitStage::NormalizeExisting { plan, .. }, InitEvent::Path(path)) => InitStage::Scan {
                target: init_target(plan, path),
            },
            (InitStage::Detect { plan }, InitEvent::Detected(found)) => match found {
                Some(path) => InitStage::Scan { target: init_target(plan, path) },
                None => InitStage::Failed(InitError::NotDetected { bundle_id: plan.bundle_id }),
            },
            (InitStage::Scan { target }, InitEvent::Scanned(entries)) => {
                InitStage::DropPrivileges { target, entries }
            },
            (InitStage::DropPrivileges { target, entries }, InitEvent::Done) => {
                InitStage::MakeConfigDir { target, entries }
            },
            (InitStage::MakeConfigDir { target, entries }, InitEvent::Done) => {
                InitStage::WriteKeys { target, entries }
            },
            (InitStage::WriteKeys { target, .. }, InitEvent::Done) => InitStage::WriteConfig {
                target,
            },
            (InitStage::WriteConfig { .. }, InitEvent::Done) => InitStage::StopDaemon,
            (InitStage::StopDaemon, InitEvent::Done) => InitStage::Done,
            (stage, _) => stage,
        }
    }
}

// ---------------------------------------------------------------------------
// What is set up
// ---------------------------------------------------------------------------

/// What a machine says to the questions of the set-up.
pub struct InitWorld {
    pub exists: spec_fn(Seq<char>) -> bool,
    pub keys_exist: spec_fn(Seq<char>) -> bool,
    pub is_dir: spec_fn(InitPath) -> bool,
    pub full_path: spec_fn(InitPath) -> InitPath,
    pub bundle_of_app: spec_fn(InitPath) -> Option<String>,
    pub bundle_of_db_dir: spec_fn(InitPath) -> Option<String>,
    pub detected: spec_fn(Option<String>) -> Option<InitPath>,
    pub entries: spec_fn(InitTarget) -> Vec<KeyEntry>,
}

/// What comes of the action of a stage.
pub open spec fn init_event(world: InitWorld, stage: InitStage) -> InitEvent {
    match stage {
        InitStage::DataDirThere { check, .. } => InitEvent::Yes((world.exists)(check.db_dir@)),
        InitStage::KeysThere { check, .. } => InitEvent::Yes(
            (world.keys_exist)(check.keys_file@),
        ),
        InitStage::NormalizeApp { app, .. } => InitEvent::Path((world.full_path)(app)),
        InitStage::AppBundle { app, .. } => InitEvent::Bundle((world.bundle_of_app)(app)),
        InitStage::DbBundle { plan } => InitEvent::Bundle(db_bundle(world, plan)),
        InitStage::NormalizeGiven { path, .. } => InitEvent::Path((world.full_path)(path)),
        InitStage::GivenIsDir { path, .. } => InitEvent::Yes((world.is_dir)(path)),
        InitStage::ExistingIsDir { path, .. } => InitEvent::Yes((world.is_dir)(path)),
        InitStage::NormalizeExisting { path, .. } => InitEvent::Path((world.full_path)(path)),
        InitStage::Detect { plan } => InitEvent::Detected((world.detected)(plan.bundle_id)),
        InitStage::Scan { target } => InitEvent::Scanned((world.entries)(target)),
        _ => InitEvent::Done,
    }
}

/// The bundle id that a plan's data directory belongs to.
pub open spec fn db_bundle(world: InitWorld, plan: InitPlan) -> Option<String> {
    match (plan.given_db_dir, plan.existing_db_dir) {
        (Some(path), _) => (world.bundle_of_db_dir)(path),
        (None, Some(path)) => (world.bundle_of_db_dir)(path),
        (None, None) => None,
    }
}

/// Where the set-up stands behind `n` actions.
pub open spec fn run_init(world: InitWorld, stage: InitStage, n: nat) -> InitStage
    decreases n,
{
    if n == 0 {
        stage
    } else {
        run_init(world, next_init_stage(stage, init_event(world, stage)), (n - 1) as nat)
    }
}

/// The application's full path.
pub open spec fn full_app_path(world: InitWorld, plan: InitPlan) -> Option<InitPath> {
    match plan.app_path {
        Some(app) => Some((world.full_path)(app)),
        None => None,
    }
}

/// The bundle id of a plan: the known one; else, on macOS, that of the
/// application, else the one that the data directory belongs to.
pub open spec fn full_bundle_id(world: InitWorld, plan: InitPlan) -> Option<String> {
    bundle_id_of(
        plan.os,
        plan.bundle_id,
        match full_app_path(world, plan) {
            Some(app) => (world.bundle_of_app)(app),
            None => None,
        },
        db_bundle(world, plan),
    )
}

/// The data directory of a plan: the one that the user names, which must be one;
/// else that of the earlier configuration, where it is one; else one that is
/// found.
pub open spec fn chosen_db_dir(world: InitWorld, plan: InitPlan) -> Result<InitPath, InitError> {
    let bundle_id = full_bundle_id(world, plan);
    match (plan.given_db_dir, plan.existing_db_dir) {
        (Some(path), _) => {
            let path = (world.full_path)(path);
            if (world.is_dir)(path) {
                Ok(path)
            } else {
                Err(InitError::NoDataDir(path))
            }
        },
        (None, Some(path)) if (world.is_dir)(path) => Ok((world.full_path)(path)),
        (None, None) if plan.app_path is Some && bundle_id is None => Err(InitError::NoBundleId),
        _ => match (world.detected)(bundle_id) {
            Some(path) => Ok(path),
            None => Err(InitError::NotDetected { bundle_id }),
        },
    }
}

/// An earlier set-up stands: its data directory and its key file are there.
pub open spec fn is_ready(world: InitWorld, plan: InitPlan) -> bool {
    plan.check matches Some(check) && (world.exists)(check.db_dir@) && (world.keys_exist)(
        check.keys_file@,
    )
}

/// The target of a plan that comes to a scan.
pub open spec fn planned_target(world: InitWorld, plan: InitPlan, db_dir: InitPath) -> InitTarget {
    InitTarget {
        db_dir,
        bundle_id: full_bundle_id(world, plan),
        app_path: full_app_path(world, plan),
        process: plan.process,
    }
}

/// The stage at which the keys are taken, or the end where none are taken.
pub open spec fn before_scan(world: InitWorld, plan: InitPlan) -> InitStage {
    if is_ready(world, plan) {
        InitStage::Ready(plan.check->0.db_dir)
    } else {
        match chosen_db_dir(world, plan) {
            Ok(db_dir) => InitStage::Scan { target: planned_target(world, plan, db_dir) },
            Err(error) => InitStage::Failed(error),
        }
    }
}

/// What comes of a plan whose application and bundle id are settled.
spec fn settled(world: InitWorld, plan: InitPlan) -> InitStage {
    match (plan.given_db_dir, plan.existing_db_dir) {
        (Some(path), _) => given_settled(world, plan, (world.full_path)(path)),
        (None, Some(path)) => existing_settled(world, plan, path),
        (None, None) => if plan.app_path is Some && plan.bundle_id is None {
            InitStage::Failed(InitError::NoBundleId)
        } else {
            detection_settled(world, plan)
        },
    }
}

spec fn given_settled(world: InitWorld, plan: InitPlan, path: InitPath) -> InitStage {
    if (world.is_dir)(path) {
        InitStage::Scan { target: target_of(plan, path) }
    } else {
        InitStage::Failed(InitError::NoDataDir(path))
    }
}

spec fn existing_settled(world: InitWorld, plan: InitPlan, path: InitPath) -> InitStage {
    if (world.is_dir)(path) {
        InitStage::Scan { target: target_of(plan, (world.full_path)(path)) }
    } else {
        detection_settled(world, plan)
    }
}

spec fn detection_settled(world: InitWorld, plan: InitPlan) -> InitStage {
    match (world.detected)(plan.bundle_id) {
        Some(path) => InitStage::Scan { target: target_of(plan, path) },
        None => InitStage::Failed(InitError::NotDetected { bundle_id: plan.bundle_id }),
    }
}

/// A plan with its application's full path.
spec fn with_app(plan: InitPlan, app: Option<InitPath>) -> InitPlan {
    InitPlan { app_path: app, ..plan }
}

/// A plan with its bundle id.
spec fn with_bundle(plan: InitPlan, bundle_id: Option<String>) -> InitPlan {
    InitPlan { bundle_id, ..plan }
}

/// What comes of a plan whose application has its full path.
spec fn app_settled(world: InitWorld, plan: InitPlan) -> InitStage {
    let of_app = match plan.app_path {
        Some(app) => (world.bundle_of_app)(app),
        None => None,
    };
    settled(
        world,
        with_bundle(plan, bundle_id_of(plan.os, plan.bundle_id, of_app, db_bundle(world, plan))),
    )
}

/// What a stage before the scan will come to.
spec fn outlook(world: InitWorld, stage: InitStage) -> InitStage {
    match stage {
        InitStage::DataDirThere { plan, check } => if (world.exists)(check.db_dir@) && (
        world.keys_exist)(check.keys_file@) {
            InitStage::Ready(check.db_dir)
        } else {
            app_settled(world, with_app(plan, full_app_path(world, plan)))
        },
        InitStage::KeysThere { plan, check } => if (world.keys_exist)(check.keys_file@) {
            InitStage::Ready(check.db_dir)
        } else {
            app_settled(world, with_app(plan, full_app_path(world, plan)))
        },
        InitStage::NormalizeApp { plan, app } => app_settled(
            world,
            with_app(plan, Some((world.full_path)(app))),
        ),
        InitStage::AppBundle { plan, app } => app_settled(
            world,
            with_bundle(with_app(plan, Some(app)), None),
        ),
        InitStage::DbBundle { plan } => settled(world, with_bundle(plan, db_bundle(world, plan))),
        InitStage::NormalizeGiven { plan, path } => given_settled(
            world,
            plan,
            (world.full_path)(path),
        ),
        InitStage::GivenIsDir { plan, path } => given_settled(world, plan, path),
        InitStage::ExistingIsDir { plan, path } => existing_settled(world, plan, path),
        InitStage::NormalizeExisting { plan, path } => InitStage::Scan {
            target: target_of(plan, (world.full_path)(path)),
        },
        InitStage::Detect { plan } => detection_settled(world, plan),
        stage => stage,
    }
}

/// How many actions a stage is before the scan, at most.
spec fn actions_left(stage: InitStage) -> nat {
    match stage {
        InitStage::DataDirThere { .. } => 9,
        InitStage::KeysThere { .. } => 8,
        InitStage::NormalizeApp { .. } => 7,
        InitStage::AppBundle { .. } => 6,
        InitStage::DbBundle { .. } => 5,
        InitStage::NormalizeGiven { .. } => 4,
        InitStage::GivenIsDir { .. } => 3,
        InitStage::ExistingIsDir { .. } => 3,
        InitStage::NormalizeExisting { .. } => 2,
        InitStage::Detect { .. } => 1,
        _ => 0,
    }
}

/// An application is asked for its bundle id only where none is known, and only on
/// macOS.
spec fn asks_in_order(stage: InitStage) -> bool {
    stage matches InitStage::AppBundle { plan, .. } ==> plan.bundle_id is None && plan.os
        == HostOs::MacOs
}

proof fn lemma_to_db_dir(world: InitWorld, plan: InitPlan)
    ensures
        outlook(world, to_db_dir(plan)) == settled(world, plan),
        actions_left(to_db_dir(plan)) <= 4,
{
}

proof fn lemma_to_db_bundle(world: InitWorld, plan: InitPlan)
    requires
        plan.bundle_id is None,
    ensures
        outlook(world, to_db_bundle(plan)) == settled(
            world,
            with_bundle(plan, db_bundle(world, plan)),
        ),
        actions_left(to_db_bundle(plan)) <= 5,
{
    lemma_to_db_dir(world, plan);
    assert(with_bundle(plan, None) == plan);
}

proof fn lemma_to_bundle(world: InitWorld, plan: InitPlan, app: Option<InitPath>)
    ensures
        outlook(world, to_bundle(plan, app)) == app_settled(world, with_app(plan, app)),
        actions_left(to_bundle(plan, app)) <= 6,
{
    let known = with_app(plan, app);
    lemma_to_db_dir(world, known);
    if is_bundle_id(plan.bundle_id) {
        assert(with_bundle(known, plan.bundle_id) == known);
    } else if plan.os != HostOs::MacOs {
        lemma_to_db_dir(world, with_bundle(known, None));
    } else {
        let none = InitPlan { bundle_id: None, app_path: None, ..plan };
        lemma_to_db_bundle(world, none);
        match app {
            Some(app) => {
                assert(with_bundle(with_app(none, Some(app)), None) == with_bundle(known, None));
            },
            None => {
                assert(with_bundle(none, db_bundle(world, none)) == with_bundle(
                    known,
                    db_bundle(world, known),
                ));
            },
        }
    }
}

proof fn lemma_to_app(world: InitWorld, plan: InitPlan)
    ensures
        outlook(world, to_app(plan)) == app_settled(
            world,
            with_app(plan, full_app_path(world, plan)),
        ),
        actions_left(to_app(plan)) <= 7,
{
    match plan.app_path {
        Some(app) => {
            let none = with_app(plan, None);
            let full = Some((world.full_path)(app));
            assert(with_app(none, full) == with_app(plan, full));
        },
        None => lemma_to_bundle(world, plan, None),
    }
}

proof fn lemma_init_step(world: InitWorld, stage: InitStage)
    requires
        actions_left(stage) > 0,
        asks_in_order(stage),
    ensures
        ({
            let next = next_init_stage(stage, init_event(world, stage));
            &&& actions_left(next) < actions_left(stage)
            &&& outlook(world, next) == outlook(world, stage)
            &&& asks_in_order(next)
        }),
{
    match stage {
        InitStage::DataDirThere { plan, .. } => lemma_to_app(world, plan),
        InitStage::KeysThere { plan, .. } => lemma_to_app(world, plan),
        InitStage::NormalizeApp { plan, app } => lemma_to_bundle(
            world,
            plan,
            Some((world.full_path)(app)),
        ),
        InitStage::AppBundle { plan, app } => {
            let id = (world.bundle_of_app)(app);
            let known = InitPlan { bundle_id: id, app_path: Some(app), ..plan };
            let start = with_bundle(with_app(plan, Some(app)), None);
            if id is Some {
                lemma_to_db_dir(world, known);
                assert(with_bundle(start, id) == known);
            } else {
                lemma_to_db_bundle(world, known);
                assert(with_bundle(start, db_bundle(world, start)) == with_bundle(
                    known,
                    db_bundle(world, known),
                ));
            }
        },
        InitStage::DbBundle { plan } => lemma_to_db_dir(
            world,
            with_bundle(plan, db_bundle(world, plan)),
        ),
        _ => {},
    }
}

proof fn lemma_reaches(world: InitWorld, stage: InitStage) -> (n: nat)
    requires
        asks_in_order(stage),
    ensures
        run_init(world, stage, n) == outlook(world, stage),
    decreases actions_left(stage),
{
    if actions_left(stage) == 0 {
        0
    } else {
        lemma_init_step(world, stage);
        lemma_reaches(world, next_init_stage(stage, init_event(world, stage))) + 1
    }
}

/// Every set-up comes to its scan, with the target that was planned, or ends
/// before: as ready where an earlier set-up stands, and else with an error.
pub proof fn law_init_target(world: InitWorld, plan: InitPlan)
    ensures
        exists|n: nat| #[trigger]
            run_init(world, first_init_stage(plan), n) == before_scan(world, plan),
{
    let start = first_init_stage(plan);
    let unchecked = InitPlan { check: None, ..plan };
    let full = full_app_path(world, plan);
    lemma_to_app(world, plan);
    lemma_to_app(world, unchecked);
    let ready_plan = with_app(plan, full);
    let bundle = full_bundle_id(world, plan);
    assert(with_bundle(ready_plan, bundle).process == plan.process);
    assert(db_bundle(world, ready_plan) == db_bundle(world, plan));
    assert(db_bundle(world, with_app(unchecked, full)) == db_bundle(world, plan));
    let n = lemma_reaches(world, start);
    assert(run_init(world, start, n) == before_scan(world, plan));
}

/// From its scan every set-up comes to its end.
pub proof fn law_scan_leads_to_the_end(world: InitWorld, target: InitTarget)
    ensures
        run_init(world, InitStage::Scan { target }, 6) == InitStage::Done,
{
    reveal_with_fuel(run_init, 7);
}

/// Where the set-up stands behind some events.
pub open spec fn after_events(stage: InitStage, events: Seq<InitEvent>) -> InitStage
    decreases events.len(),
{
    if events.len() == 0 {
        stage
    } else {
        next_init_stage(after_events(stage, events.drop_last()), events.last())
    }
}

/// A set-up that has no other bundle id than the known one.
spec fn keeps_known_id(stage: InitStage, start: InitPlan) -> bool {
    let known = bundle_id_of(start.os, start.bundle_id, None, None);
    match stage {
        InitStage::DataDirThere { plan, .. }
        | InitStage::KeysThere { plan, .. }
        | InitStage::NormalizeApp { plan, .. } => {
            plan.os == start.os && plan.bundle_id == start.bundle_id
        },
        InitStage::AppBundle { .. } | InitStage::DbBundle { .. } => false,
        InitStage::NormalizeGiven { plan, .. }
        | InitStage::GivenIsDir { plan, .. }
        | InitStage::ExistingIsDir { plan, .. }
        | InitStage::NormalizeExisting { plan, .. }
        | InitStage::Detect { plan } => plan.bundle_id == known,
        InitStage::Scan { target }
        | InitStage::DropPrivileges { target, .. }
        | InitStage::MakeConfigDir { target, .. }
        | InitStage::WriteKeys { target, .. }
        | InitStage::WriteConfig { target } => target.bundle_id == known,
        _ => true,
    }
}

proof fn lemma_known_id_is_kept(start: InitPlan, events: Seq<InitEvent>)
    requires
        start.os != HostOs::MacOs,
    ensures
        keeps_known_id(after_events(first_init_stage(start), events), start),
    decreases events.len(),
{
    if events.len() > 0 {
        lemma_known_id_is_kept(start, events.drop_last());
    }
}

/// On a system without bundle ids none is ever asked for, whatever comes of the
/// actions: the data directory is searched with the known bundle id, and the keys
/// are taken and the configuration is written with it.
pub proof fn law_bundle_ids_are_asked_for_on_macos_only(plan: InitPlan, events: Seq<InitEvent>)
    requires
        plan.os != HostOs::MacOs,
    ensures
        ({
            let stage = after_events(first_init_stage(plan), events);
            let known = if is_bundle_id(plan.bundle_id) {
                plan.bundle_id
            } else {
                None
            };
            &&& !(stage is AppBundle) && !(stage is DbBundle)
            &&& stage matches InitStage::Detect { plan } ==> plan.bundle_id == known
            &&& stage matches InitStage::Scan { target } ==> target.bundle_id == known
            &&& stage matches InitStage::WriteConfig { target } ==> target.bundle_id == known
        }),
{
    lemma_known_id_is_kept(plan, events);
}

/// A stage writes files.
pub open spec fn writes_files(stage: InitStage) -> bool {
    stage is MakeConfigDir || stage is WriteKeys || stage is WriteConfig
}

/// Files are written only behind the scan, and only when the rights of the
/// superuser are given up.
pub proof fn law_rights_are_given_up_before_writing(stage: InitStage, event: InitEvent)
    ensures
        ({
            let next = next_init_stage(stage, event);
            &&& writes_files(next) && !writes_files(stage) ==> stage is DropPrivileges
            &&& next is DropPrivileges && !(stage is DropPrivileges) ==> stage is Scan
        }),
{
}

// ---------------------------------------------------------------------------
// What the user's word and the earlier configuration are worth
// ---------------------------------------------------------------------------

/// An earlier set-up is looked at only where the user asks for nothing at all, and
/// the earlier configuration names a data directory that is no placeholder.
pub proof fn law_may_be_ready(args: InitArgs, config: Config)
    ensures
        may_be_ready(args, config) <==> {
            &&& !args.force
            &&& args.db_dir is None
            &&& args.app is None
            &&& args.bundle_id is None
            &&& args.wechat_process is None
            &&& config_string(config, "db_dir"@) is Some
            &&& config_string(config, "db_dir"@)->0.len() > 0
            &&& !holds_text(config_string(config, "db_dir"@)->0, "your_wxid"@)
        },
{
    reveal_strlit("");
}

/// A directory, an application or a bundle id that the user names leaves every
/// setting of the earlier configuration aside that speaks of a target; a process
/// does not.
pub proof fn law_settings_kept(args: InitArgs, config: Config, key: Seq<char>)
    ensures
        args.db_dir is Some || args.app is Some || args.bundle_id is Some ==> setting_kept(
            args,
            config,
            key,
        ) is None,
        args.db_dir is None && args.app is None && args.bundle_id is None ==> setting_kept(
            args,
            config,
            key,
        ) == config_setting(config, key),
{
}

/// A bundle id that the user names counts as it is, unless it is blank, and then
/// none does. Without one, that of the earlier configuration counts, unless the user
/// names a directory or an application.
pub proof fn law_known_bundle_id(args: InitArgs, config: Config)
    ensures
        args.bundle_id is Some && trimmed(args.bundle_id->0@).len() > 0 ==> known_bundle_id(
            args,
            config,
        ) == Some(args.bundle_id->0@),
        args.bundle_id is Some && trimmed(args.bundle_id->0@).len() == 0 ==> known_bundle_id(
            args,
            config,
        ) is None,
        args.bundle_id is None && (args.db_dir is Some || args.app is Some) ==> known_bundle_id(
            args,
            config,
        ) is None,
        args.bundle_id is None && args.db_dir is None && args.app is None ==> known_bundle_id(
            args,
            config,
        ) == config_setting(config, "bundle_id"@),
{
}

/// The process that the user names counts, whatever it is called; else that of the
/// earlier configuration; else the usual one of the system.
pub proof fn law_chosen_process(args: InitArgs, config: Config, os: HostOs)
    ensures
        args.wechat_process is Some ==> chosen_process(args, config, os)
            == args.wechat_process->0@,
        args.wechat_process is None && config_setting(config, "wechat_process"@) is Some
            ==> chosen_process(args, config, os) == config_setting(config, "wechat_process"@)->0,
        args.wechat_process is None && config_setting(config, "wechat_process"@) is None
            ==> chosen_process(args, config, os) == match os {
            HostOs::Linux => "wechat"@,
            HostOs::Windows => "Weixin.exe"@,
            _ => "WeChat"@,
        },
{
}

/// A path is shown as it is where it is a text, and a setting is taken as a text.
pub proof fn law_paths_are_shown(text: String, setting: Option<Seq<char>>, path: Option<InitPath>)
    ensures
        InitPath::Text(text).shown() == text@,
        is_setting(path, setting) ==> path_shown(path) == setting,
        is_setting(path, setting) && path is Some ==> path->0 is Text,
{
}

/// A known bundle id counts before that of the application, and that before the one
/// of the data directory; off macOS only the known one does. A blank one is not
/// known.
pub proof fn law_bundle_id_of(
    os: HostOs,
    known: Option<String>,
    of_app: Option<String>,
    of_db_dir: Option<String>,
)
    ensures
        known is Some && trimmed(known->0@).len() > 0 ==> bundle_id_of(
            os,
            known,
            of_app,
            of_db_dir,
        ) == known,
        known is None || trimmed(known->0@).len() == 0 ==> {
            &&& !(os is MacOs) ==> bundle_id_of(os, known, of_app, of_db_dir) is None
            &&& os is MacOs && of_app is Some ==> bundle_id_of(os, known, of_app, of_db_dir)
                == of_app
            &&& os is MacOs && of_app is None ==> bundle_id_of(os, known, of_app, of_db_dir)
                == of_db_dir
        },
{
}

/// A set-up that stands ends as ready, with its data directory. Any other comes to
/// its scan or to an error. The data directory that the user names must be one, and
/// is taken with its full path; that of the earlier configuration is taken where it
/// is one; else one is looked for with the bundle id, unless an application is named
/// whose bundle id is not known. The process is the planned one, and the application
/// has its full path.
pub proof fn law_what_is_scanned(world: InitWorld, plan: InitPlan)
    ensures
        exists|n: nat|
            {
                let end = #[trigger] run_init(world, first_init_stage(plan), n);
                let ready = plan.check is Some && (world.exists)(plan.check->0.db_dir@) && (
                world.keys_exist)(plan.check->0.keys_file@);
                let app = match plan.app_path {
                    Some(app) => Some((world.full_path)(app)),
                    None => None,
                };
                let of_app = match app {
                    Some(app) => (world.bundle_of_app)(app),
                    None => None,
                };
                let of_dir = match (plan.given_db_dir, plan.existing_db_dir) {
                    (Some(path), _) => (world.bundle_of_db_dir)(path),
                    (None, Some(path)) => (world.bundle_of_db_dir)(path),
                    (None, None) => None,
                };
                let bundle_id = bundle_id_of(plan.os, plan.bundle_id, of_app, of_dir);
                let scan = |db_dir: InitPath|
                    InitStage::Scan {
                        target: InitTarget {
                            db_dir,
                            bundle_id,
                            app_path: app,
                            process: plan.process,
                        },
                    };
                let given = plan.given_db_dir;
                let earlier = plan.existing_db_dir;
                let looked_for = (world.detected)(bundle_id);
                &&& ready ==> end == InitStage::Ready(plan.check->0.db_dir)
                &&& !ready && given is Some && (world.is_dir)((world.full_path)(given->0)) ==> end
                    == scan((world.full_path)(given->0))
                &&& !ready && given is Some && !(world.is_dir)((world.full_path)(given->0)) ==> end
                    == InitStage::Failed(InitError::NoDataDir((world.full_path)(given->0)))
                &&& !ready && given is None && earlier is Some && (world.is_dir)(earlier->0) ==> end
                    == scan((world.full_path)(earlier->0))
                &&& !ready && given is None && earlier is None && app is Some && bundle_id is None
                    ==> end == InitStage::Failed(InitError::NoBundleId)
                &&& !ready && given is None && (if earlier is Some {
                    !(world.is_dir)(earlier->0)
                } else {
                    app is None || bundle_id is Some
                }) ==> end == match looked_for {
                    Some(path) => scan(path),
                    None => InitStage::Failed(InitError::NotDetected { bundle_id }),
                }
            },
{
    law_init_target(world, plan);
    let n = choose|n: nat| #[trigger]
        run_init(world, first_init_stage(plan), n) == before_scan(world, plan);
    assert(run_init(world, first_init_stage(plan), n) == before_scan(world, plan));
}

/// Behind a scan the rights are given up, the directory is made, the very keys that
/// the scan gave are written, and then the configuration for the very target that was
/// scanned; then the daemon is stopped.
pub proof fn law_what_is_written(world: InitWorld, target: InitTarget)
    ensures
        ({
            let start = InitStage::Scan { target };
            let entries = (world.entries)(target);
            &&& run_init(world, start, 1) == (InitStage::DropPrivileges { target, entries })
            &&& run_init(world, start, 2) == (InitStage::MakeConfigDir { target, entries })
            &&& run_init(world, start, 3) == (InitStage::WriteKeys { target, entries })
            &&& run_init(world, start, 4) == (InitStage::WriteConfig { target })
            &&& run_init(world, start, 5) == InitStage::StopDaemon
            &&& run_init(world, start, 6) == InitStage::Done
        }),
{
    reveal_with_fuel(run_init, 7);
}

/// The words for a directory that is none name it. Those for a directory that was
/// not found name the bundle id, where one is known, and the configuration file.
pub proof fn law_init_words(path: InitPath, id: String, config_path: Seq<char>)
    ensures
        holds_text(InitError::NoDataDir(path).words(config_path), path.shown()),
        holds_text(InitError::NotDetected { bundle_id: Some(id) }.words(config_path), id@),
        holds_text(InitError::NotDetected { bundle_id: Some(id) }.words(config_path), config_path),
        holds_text(InitError::NotDetected { bundle_id: None }.words(config_path), config_path),
{
    let a = "指定的 db_storage 目录不存在: "@;
    law_holds_text(a, path.shown(), Seq::empty());
    assert(a + path.shown() + Seq::<char>::empty() =~= InitError::NoDataDir(path).words(
        config_path,
    ));
    let start = "未能自动检测到微信数据目录"@;
    let open = "（bundle_id: "@;
    let close = "）"@;
    let ask = "\n请编辑配置文件并填写 db_dir 字段:\n  "@;
    let end = "\n或运行: wx init --db-dir <data_root>/xwechat_files/<wxid>/db_storage"@;
    let some = InitError::NotDetected { bundle_id: Some(id) }.words(config_path);
    let none = InitError::NotDetected { bundle_id: None }.words(config_path);
    law_holds_text(start + open, id@, close + ask + config_path + end);
    assert(some =~= start + open + id@ + (close + ask + config_path + end));
    law_holds_text(start + bundle_hint(Some(id)) + ask, config_path, end);
    law_holds_text(start + bundle_hint(None) + ask, config_path, end);
}

/// A path of bytes is shown as the text that they are read as.
pub proof fn law_bytes_are_shown(bytes: Vec<u8>)
    ensures
        InitPath::Bytes(bytes).shown() == utf8_lossy(bytes@),
{
}

/// An event that does not belong to the action does not move a set-up, and nothing
/// moves one at its end.
pub proof fn law_other_events_do_not_count(stage: InitStage, event: InitEvent)
    ensures
        (stage is DataDirThere || stage is KeysThere || stage is GivenIsDir || stage is ExistingIsDir)
            && !(event is Yes) ==> next_init_stage(stage, event) == stage,
        (stage is NormalizeApp || stage is NormalizeGiven || stage is NormalizeExisting) && !(
        event is Path) ==> next_init_stage(stage, event) == stage,
        (stage is AppBundle || stage is DbBundle) && !(event is Bundle) ==> next_init_stage(
            stage,
            event,
        ) == stage,
        stage is Detect && !(event is Detected) ==> next_init_stage(stage, event) == stage,
        stage is Scan && !(event is Scanned) ==> next_init_stage(stage, event) == stage,
        (stage is DropPrivileges || stage is MakeConfigDir || stage is WriteKeys
            || stage is WriteConfig || stage is StopDaemon) && !(event is Done) ==> next_init_stage(
            stage,
            event,
        ) == stage,
        stage is Done || stage is Ready || stage is Failed ==> next_init_stage(stage, event)
            == stage,
{
}

} // verus!
