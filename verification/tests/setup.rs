use wx_cli::config_merge::{
    config_file_name, config_file_text, config_updates, find_or_create_config_path, keys_file_name,
    ConfigPlace,
};
use wx_cli::config_text::{
    existing_string, keys_text, raw_string, read_config_map, updated_text, ConfigUpdate, KeyEntry,
};
use wx_cli::init::{
    cmd_init, default_process_name, plan_init, resolve_bundle_id, HostOs, InitArgs, InitError,
    InitEvent, InitPath, InitPlan, InitStage, InitTarget,
};
use wx_cli::paths::PathParts;
use wx_cli::privileges::{
    caller_of_sudo, chown_recursive, drop_privileges_if_sudo, privilege_message, tighten_perms,
    Listing, OwnReply, OwnStage, PrivilegeCall, PrivilegeStage,
};
use wx_cli::text::{
    contains_text, decimal_text, parse_u32, same_text, signed_decimal_text, trim, zero_padded_text,
};

// ---------------------------------------------------------------------------
// Texts
// ---------------------------------------------------------------------------

#[test]
fn numbers_in_decimal() {
    assert_eq!(decimal_text(0), "0");
    assert_eq!(decimal_text(u128::MAX), u128::MAX.to_string());
    assert_eq!(signed_decimal_text(i64::MIN), i64::MIN.to_string());
    assert_eq!(zero_padded_text(7, 4), "0007");
    assert_eq!(zero_padded_text(-7, 4), "-007");
    assert_eq!(zero_padded_text(12345, 4), "12345");
    for text in ["0", "+7", "4294967295", "007"] {
        assert_eq!(parse_u32(text), text.parse::<u32>().ok());
        assert!(parse_u32(text).is_some());
    }
    for text in ["", "+", "-1", "-0", "4294967296", "99999999999999999999999", " 1", "1 ", "1a"] {
        assert_eq!(parse_u32(text), None);
        assert!(text.parse::<u32>().is_err());
    }
}

#[test]
fn texts_are_compared_and_trimmed() {
    for text in ["  a b\u{3000}", "\n\t", "", "你 好"] {
        let once = trim(text);
        assert_eq!(trim(&once), once);
    }
    assert!(same_text("你好", "你好"));
    assert!(!same_text("你好", "你"));
    assert!(contains_text("/a/your_wxid/b", "your_wxid"));
    assert!(!contains_text("/a/your_wxi", "your_wxid"));
    assert!(contains_text("", ""));
    assert_eq!(trim("\u{2003} a b\u{85}\n"), "a b");
    assert_eq!(trim(" \t"), "");
}

// ---------------------------------------------------------------------------
// The earlier configuration
// ---------------------------------------------------------------------------

fn config(text: &str) -> Option<serde_json::Map<String, serde_json::Value>> {
    read_config_map(Some(text.to_string()))
}

#[test]
fn configurations_are_json_objects() {
    assert!(read_config_map(None).is_none());
    assert!(config("not json").is_none());
    assert!(config("[1, 2]").is_none());
    let cfg = config("{\"b\": \" x \", \"a\": 3, \"c\": \"  \", \"b\": \" y \"}");
    let keys: Vec<String> = cfg.as_ref().unwrap().keys().cloned().collect();
    assert_eq!(keys, vec!["a", "b", "c"]);
    assert_eq!(raw_string(&cfg, "b"), Some(" y ".to_string()));
    assert_eq!(existing_string(&cfg, "b"), Some("y".to_string()));
    assert_eq!(existing_string(&cfg, "a"), None);
    assert_eq!(existing_string(&cfg, "c"), None);
    assert_eq!(existing_string(&cfg, "d"), None);
    assert_eq!(existing_string(&None, "b"), None);
}

#[test]
fn keys_are_written_under_their_databases() {
    let entry = |db_name: &str, enc_key: &str| KeyEntry {
        db_name: db_name.to_string(),
        enc_key: enc_key.to_string(),
    };
    let text = keys_text(&vec![entry("m/b.db", "22"), entry("a.db", "11")]).unwrap();
    assert_eq!(
        text,
        "{\n  \"a.db\": {\n    \"enc_key\": \"11\"\n  },\n  \"m/b.db\": {\n    \"enc_key\": \"22\"\n  }\n}"
    );
    assert_eq!(keys_text(&Vec::new()).unwrap(), "{}");
    let text = keys_text(&vec![entry("a.db", "11"), entry("b.db", "33"), entry("a.db", "22")]);
    assert_eq!(
        text.unwrap(),
        "{\n  \"a.db\": {\n    \"enc_key\": \"22\"\n  },\n  \"b.db\": {\n    \"enc_key\": \"33\"\n  }\n}"
    );
}

// ---------------------------------------------------------------------------
// The plan
// ---------------------------------------------------------------------------

fn bytes_path(path: &str) -> InitPath {
    InitPath::Bytes(path.as_bytes().to_vec())
}

fn no_args() -> InitArgs {
    InitArgs {
        force: false,
        db_dir: None,
        app: None,
        bundle_id: None,
        wechat_process: None,
    }
}

fn path_words(path: &Option<InitPath>) -> Option<String> {
    path.as_ref().map(|p| p.display())
}

const EARLIER: &str = "{\"db_dir\": \"/data\", \"keys_file\": \"k.json\", \"app_path\": \" /App \", \
                       \"bundle_id\": \"com.x\", \"wechat_process\": \"WX\"}";

#[test]
fn an_earlier_configuration_is_looked_at_first() {
    let plan = plan_init(no_args(), config(EARLIER), HostOs::Linux);
    let check = plan.check.unwrap();
    assert_eq!(check.db_dir, "/data");
    assert_eq!(check.keys_file, "k.json");
    assert_eq!(path_words(&plan.existing_db_dir), Some("/data".to_string()));
    assert_eq!(path_words(&plan.app_path), Some("/App".to_string()));
    assert_eq!(plan.bundle_id, Some("com.x".to_string()));
    assert_eq!(plan.process, "WX");

    let plan = plan_init(no_args(), config("{\"db_dir\": \"/data\"}"), HostOs::Linux);
    assert_eq!(plan.check.unwrap().keys_file, "all_keys.json");
    assert_eq!(plan.process, "wechat");
    let plan = plan_init(no_args(), config("{\"db_dir\": \"/x/your_wxid/db\"}"), HostOs::MacOs);
    assert!(plan.check.is_none());
    assert_eq!(plan.process, "WeChat");
    assert!(plan_init(no_args(), config("{\"db_dir\": \"\"}"), HostOs::Linux).check.is_none());
    assert!(plan_init(no_args(), None, HostOs::Linux).check.is_none());
    let mut args = no_args();
    args.force = true;
    assert!(plan_init(args, config(EARLIER), HostOs::Linux).check.is_none());
}

#[test]
fn a_selected_target_leaves_the_earlier_one_aside() {
    let mut args = no_args();
    args.db_dir = Some(bytes_path("/other"));
    let plan = plan_init(args, config(EARLIER), HostOs::Linux);
    assert!(plan.check.is_none());
    assert_eq!(path_words(&plan.given_db_dir), Some("/other".to_string()));
    assert!(plan.existing_db_dir.is_none());
    assert!(plan.app_path.is_none());
    assert!(plan.bundle_id.is_none());
    assert_eq!(plan.process, "WX");

    let mut args = no_args();
    args.wechat_process = Some("mine".to_string());
    let plan = plan_init(args, config(EARLIER), HostOs::Linux);
    assert!(plan.check.is_none());
    assert_eq!(plan.bundle_id, Some("com.x".to_string()));
    assert_eq!(plan.process, "mine");

    let mut args = no_args();
    args.bundle_id = Some("  ".to_string());
    let plan = plan_init(args, config(EARLIER), HostOs::Linux);
    assert!(plan.bundle_id.is_none());
    assert!(plan.existing_db_dir.is_none());
}

#[test]
fn process_names_and_bundle_ids() {
    assert_eq!(default_process_name(HostOs::MacOs), "WeChat");
    assert_eq!(default_process_name(HostOs::Linux), "wechat");
    assert_eq!(default_process_name(HostOs::Windows), "Weixin.exe");
    assert_eq!(default_process_name(HostOs::Other), "WeChat");
    let id = |text: &str| Some(text.to_string());
    let mac = HostOs::MacOs;
    assert_eq!(resolve_bundle_id(mac, id("a"), id("b"), id("c")), id("a"));
    assert_eq!(resolve_bundle_id(mac, id(" "), id("b"), id("c")), id("b"));
    assert_eq!(resolve_bundle_id(mac, None, None, id("c")), id("c"));
    assert_eq!(resolve_bundle_id(mac, id(""), None, None), None);
    for os in [HostOs::Linux, HostOs::Windows, HostOs::Other] {
        assert_eq!(resolve_bundle_id(os, id("a"), id("b"), id("c")), id("a"));
        assert_eq!(resolve_bundle_id(os, id(" "), id("b"), id("c")), None);
        assert_eq!(resolve_bundle_id(os, None, id("b"), id("c")), None);
    }
}

// ---------------------------------------------------------------------------
// The way to a configuration
// ---------------------------------------------------------------------------

struct FakeHost {
    dirs: Vec<&'static str>,
    keys: bool,
    bundle_of_app: Option<&'static str>,
    bundle_of_db: Option<&'static str>,
    detected: Option<&'static str>,
}

fn host() -> FakeHost {
    FakeHost {
        dirs: Vec::new(),
        keys: false,
        bundle_of_app: None,
        bundle_of_db: None,
        detected: None,
    }
}

/// Runs a set-up. A full path is the path behind `/full`.
fn set_up(host: &FakeHost, plan: InitPlan) -> (InitStage, Vec<String>, Option<InitTarget>) {
    let mut stage = cmd_init(plan);
    let mut steps = Vec::new();
    let mut target = None;
    let is_dir = |path: &str| host.dirs.iter().any(|d| *d == path);
    let full = |path: &InitPath| {
        InitEvent::Path(bytes_path(&format!("/full{}", path.display())))
    };
    let id = |id: Option<&str>| InitEvent::Bundle(id.map(str::to_string));
    loop {
        let (step, event) = match &stage {
            InitStage::DataDirThere { check, .. } => {
                ("data", InitEvent::Yes(is_dir(&check.db_dir)))
            }
            InitStage::KeysThere { .. } => ("keys", InitEvent::Yes(host.keys)),
            InitStage::NormalizeApp { app, .. } => ("app", full(app)),
            InitStage::AppBundle { .. } => ("app bundle", id(host.bundle_of_app)),
            InitStage::DbBundle { plan } => {
                assert!(plan.db_dir_for_bundle().is_some());
                ("db bundle", id(host.bundle_of_db))
            }
            InitStage::NormalizeGiven { path, .. } => ("given", full(path)),
            InitStage::GivenIsDir { path, .. } => {
                ("given dir", InitEvent::Yes(is_dir(&path.display())))
            }
            InitStage::ExistingIsDir { path, .. } => {
                ("existing dir", InitEvent::Yes(is_dir(&path.display())))
            }
            InitStage::NormalizeExisting { path, .. } => ("existing", full(path)),
            InitStage::Detect { .. } => {
                ("detect", InitEvent::Detected(host.detected.map(bytes_path)))
            }
            InitStage::Scan { .. } => ("scan", InitEvent::Scanned(Vec::new())),
            InitStage::DropPrivileges { .. } => ("rights", InitEvent::Done),
            InitStage::MakeConfigDir { .. } => ("dir", InitEvent::Done),
            InitStage::WriteKeys { .. } => ("write keys", InitEvent::Done),
            InitStage::WriteConfig { .. } => ("write config", InitEvent::Done),
            InitStage::StopDaemon => ("stop", InitEvent::Done),
            _ => break,
        };
        steps.push(step.to_string());
        stage = match stage {
            InitStage::WriteConfig { target: t } => {
                let copy = InitTarget {
                    db_dir: bytes_path(&t.db_dir.display()),
                    bundle_id: t.bundle_id.clone(),
                    app_path: t.app_path.as_ref().map(|p| bytes_path(&p.display())),
                    process: t.process.clone(),
                };
                target = Some(copy);
                InitStage::WriteConfig { target: t }.answer(event)
            }
            stage => stage.answer(event),
        };
    }
    (stage, steps, target)
}

const TO_THE_END: [&str; 6] = ["scan", "rights", "dir", "write keys", "write config", "stop"];

fn with_end(first: &[&str]) -> Vec<String> {
    first
        .iter()
        .chain(TO_THE_END.iter())
        .map(|s| s.to_string())
        .collect()
}

#[test]
fn a_finished_setup_is_left_alone() {
    let mut h = host();
    h.dirs = vec!["/data"];
    h.keys = true;
    let plan = plan_init(no_args(), config(EARLIER), HostOs::Linux);
    let (stage, steps, _) = set_up(&h, plan);
    assert!(matches!(stage, InitStage::Ready(dir) if dir == "/data"));
    assert_eq!(steps, vec!["data", "keys"]);
}

#[test]
fn missing_keys_are_scanned_for_again() {
    let mut h = host();
    h.dirs = vec!["/data"];
    let plan = plan_init(no_args(), config(EARLIER), HostOs::Linux);
    let (stage, steps, target) = set_up(&h, plan);
    assert!(matches!(stage, InitStage::Done));
    assert_eq!(
        steps,
        with_end(&["data", "keys", "app", "existing dir", "existing"])
    );
    let target = target.unwrap();
    assert_eq!(target.db_dir.display(), "/full/data");
    assert_eq!(target.bundle_id, Some("com.x".to_string()));
    assert_eq!(path_words(&target.app_path), Some("/full/App".to_string()));
}

#[test]
fn a_named_directory_must_be_one() {
    let mut args = no_args();
    args.db_dir = Some(bytes_path("/named"));
    let (stage, steps, _) = set_up(&host(), plan_init(args, None, HostOs::MacOs));
    assert_eq!(steps, vec!["db bundle", "given", "given dir"]);
    match stage {
        InitStage::Failed(error) => assert_eq!(
            error.message("/c/config.json"),
            "指定的 db_storage 目录不存在: /full/named"
        ),
        _ => panic!("no error"),
    }
    let mut args = no_args();
    args.db_dir = Some(bytes_path("/named"));
    let mut h = host();
    h.dirs = vec!["/full/named"];
    h.bundle_of_db = Some("of.db");
    let (stage, steps, target) = set_up(&h, plan_init(args, None, HostOs::MacOs));
    assert!(matches!(stage, InitStage::Done));
    assert_eq!(steps, with_end(&["db bundle", "given", "given dir"]));
    assert_eq!(target.unwrap().bundle_id, Some("of.db".to_string()));
}

#[test]
fn an_application_without_a_bundle_id_leads_nowhere() {
    let mut args = no_args();
    args.app = Some(bytes_path("/App"));
    let (stage, steps, _) = set_up(&host(), plan_init(args, None, HostOs::MacOs));
    assert_eq!(steps, vec!["app", "app bundle"]);
    match stage {
        InitStage::Failed(error) => {
            assert!(matches!(error, InitError::NoBundleId));
            assert_eq!(
                error.message(""),
                "无法从 --app 读取 bundle id；请同时传 --bundle-id 或 --db-dir"
            );
        }
        _ => panic!("no error"),
    }
    let mut args = no_args();
    args.app = Some(bytes_path("/App"));
    let mut h = host();
    h.bundle_of_app = Some("of.app");
    h.detected = Some("/found");
    let (_, steps, target) = set_up(&h, plan_init(args, None, HostOs::MacOs));
    assert_eq!(steps, with_end(&["app", "app bundle", "detect"]));
    let target = target.unwrap();
    assert_eq!(target.db_dir.display(), "/found");
    assert_eq!(target.bundle_id, Some("of.app".to_string()));
}

#[test]
fn a_data_directory_that_is_not_found_is_asked_for() {
    let (stage, steps, _) = set_up(&host(), plan_init(no_args(), None, HostOs::Linux));
    assert_eq!(steps, vec!["detect"]);
    match stage {
        InitStage::Failed(error) => assert_eq!(
            error.message("/c/config.json"),
            "未能自动检测到微信数据目录\n请编辑配置文件并填写 db_dir 字段:\n  /c/config.json\n或运行: wx init --db-dir <data_root>/xwechat_files/<wxid>/db_storage"
        ),
        _ => panic!("no error"),
    }
    let mut args = no_args();
    args.bundle_id = Some("com.y".to_string());
    let (stage, _, _) = set_up(&host(), plan_init(args, None, HostOs::Linux));
    match stage {
        InitStage::Failed(error) => assert!(error
            .message("c")
            .starts_with("未能自动检测到微信数据目录（bundle_id: com.y）\n")),
        _ => panic!("no error"),
    }
}

#[test]
fn bundle_ids_are_asked_for_on_macos_only() {
    for os in [HostOs::Linux, HostOs::Windows, HostOs::Other] {
        let mut h = host();
        h.dirs = vec!["/full/named"];
        h.bundle_of_app = Some("of.app");
        h.bundle_of_db = Some("of.db");
        h.detected = Some("/found");
        let mut args = no_args();
        args.db_dir = Some(bytes_path("/named"));
        args.app = Some(bytes_path("/App"));
        let (stage, steps, target) = set_up(&h, plan_init(args, None, os));
        assert!(matches!(stage, InitStage::Done));
        assert_eq!(steps, with_end(&["app", "given", "given dir"]));
        let target = target.unwrap();
        assert_eq!(target.bundle_id, None);
        assert_eq!(path_words(&target.app_path), Some("/full/App".to_string()));

        let mut args = no_args();
        args.app = Some(bytes_path("/App"));
        let (stage, steps, _) = set_up(&h, plan_init(args, None, os));
        assert!(matches!(stage, InitStage::Failed(InitError::NoBundleId)));
        assert_eq!(steps, vec!["app"]);

        let mut args = no_args();
        args.app = Some(bytes_path("/App"));
        args.bundle_id = Some(" com.y ".to_string());
        let (_, steps, target) = set_up(&h, plan_init(args, None, os));
        assert_eq!(steps, with_end(&["app", "detect"]));
        assert_eq!(target.unwrap().bundle_id, Some(" com.y ".to_string()));
    }
}

#[test]
fn an_earlier_directory_that_is_gone_is_searched_for() {
    let mut h = host();
    h.detected = Some("/found");
    let plan = plan_init(no_args(), config("{\"db_dir\": \"/data\"}"), HostOs::MacOs);
    let (_, steps, target) = set_up(&h, plan);
    assert_eq!(
        steps,
        with_end(&["data", "db bundle", "existing dir", "detect"])
    );
    assert_eq!(target.unwrap().db_dir.display(), "/found");
}

// ---------------------------------------------------------------------------
// The configuration that is written
// ---------------------------------------------------------------------------

#[test]
fn configurations_have_their_place() {
    assert_eq!(find_or_create_config_path(true, true, true), ConfigPlace::CliDir);
    assert_eq!(find_or_create_config_path(false, true, true), ConfigPlace::WorkingDir);
    assert_eq!(find_or_create_config_path(false, false, true), ConfigPlace::ProgramDir);
    assert_eq!(find_or_create_config_path(false, false, false), ConfigPlace::CliDir);
    assert_eq!(config_file_name(), "config.json");
    assert_eq!(keys_file_name(), "all_keys.json");
}

#[test]
fn a_new_configuration_has_every_default() {
    let target = InitTarget {
        db_dir: InitPath::Bytes(b"/d\xff".to_vec()),
        bundle_id: None,
        app_path: None,
        process: "wechat".to_string(),
    };
    let expected = "{\n  \"db_dir\": \"/d\u{fffd}\",\n  \"decrypted_dir\": \"decrypted\",\n  \"keys_file\": \"all_keys.json\",\n  \"wechat_process\": \"wechat\"\n}";
    assert_eq!(config_file_text(None, &target).unwrap(), expected);
    assert_eq!(
        config_file_text(Some("no json".to_string()), &target).unwrap(),
        expected
    );
    assert_eq!(
        config_file_text(Some("[]".to_string()), &target).unwrap(),
        expected
    );
    assert_eq!(config_updates(&target).len(), 4);
}

#[test]
fn an_earlier_configuration_keeps_its_other_members() {
    let target = InitTarget {
        db_dir: bytes_path("/d"),
        bundle_id: Some("com.x".to_string()),
        app_path: Some(bytes_path("/App")),
        process: "wechat".to_string(),
    };
    let earlier = "{\"theme\": {\"dark\": true, \"n\": 1.5}, \"keys_file\": 7, \"db_dir\": \"/old\", \"bundle_id\": \"b\"}";
    let text = config_file_text(Some(earlier.to_string()), &target).unwrap();
    assert_eq!(
        text,
        "{\n  \"app_path\": \"/App\",\n  \"bundle_id\": \"com.x\",\n  \"db_dir\": \"/d\",\n  \"decrypted_dir\": \"decrypted\",\n  \"keys_file\": 7,\n  \"theme\": {\n    \"dark\": true,\n    \"n\": 1.5\n  },\n  \"wechat_process\": \"wechat\"\n}"
    );
    let again = config(&text);
    assert_eq!(existing_string(&again, "db_dir"), Some("/d".to_string()));
    assert_eq!(existing_string(&again, "bundle_id"), Some("com.x".to_string()));
}

#[test]
fn strings_of_a_configuration_are_read_back() {
    let odd = "a\"b\\c\n\u{1}你\u{1f600}/";
    let update = |key: &str, only_if_absent: bool| ConfigUpdate {
        key: key.to_string(),
        text: odd.to_string(),
        only_if_absent,
    };
    let text = updated_text(None, &vec![update(odd, false), update("k", true)]).unwrap();
    let again = config(&text);
    assert_eq!(raw_string(&again, odd), Some(odd.to_string()));
    assert_eq!(raw_string(&again, "k"), Some(odd.to_string()));
}

// ---------------------------------------------------------------------------
// Rights
// ---------------------------------------------------------------------------

#[test]
fn only_sudo_names_a_caller() {
    assert_eq!(caller_of_sudo(0, Some("501"), Some("20")), Some((501, 20)));
    assert_eq!(caller_of_sudo(501, Some("501"), Some("20")), None);
    assert_eq!(caller_of_sudo(0, None, Some("20")), None);
    assert_eq!(caller_of_sudo(0, Some("501"), None), None);
    assert_eq!(caller_of_sudo(0, Some("0"), Some("0")), None);
    assert_eq!(caller_of_sudo(0, Some("x"), Some("20")), None);
    assert_eq!(caller_of_sudo(0, Some("501"), Some("0")), Some((501, 0)));
}

/// Takes the way with every outcome as given, and lists the stages on it.
fn give_up(base_exists: bool, outcome: fn(PrivilegeStage) -> bool) -> Vec<PrivilegeStage> {
    let mut stage = drop_privileges_if_sudo(Some((501, 20)), base_exists);
    let mut stages = vec![stage];
    while !matches!(stage, PrivilegeStage::Done | PrivilegeStage::Failed { .. }) {
        stage = stage.answer(outcome(stage));
        stages.push(stage);
    }
    stages
}

#[test]
fn rights_are_given_up_in_order() {
    assert_eq!(drop_privileges_if_sudo(None, true), PrivilegeStage::Done);
    assert_eq!(
        give_up(true, |_| true),
        vec![
            PrivilegeStage::HandOver { uid: 501, gid: 20 },
            PrivilegeStage::Tighten { uid: 501, gid: 20 },
            PrivilegeStage::Umask { mask: 0o077, uid: 501, gid: 20 },
            PrivilegeStage::SetGid { uid: 501, gid: 20 },
            PrivilegeStage::SetUid { uid: 501 },
            PrivilegeStage::Done,
        ]
    );
    assert_eq!(
        give_up(false, |_| true),
        vec![
            PrivilegeStage::Umask { mask: 0o077, uid: 501, gid: 20 },
            PrivilegeStage::SetGid { uid: 501, gid: 20 },
            PrivilegeStage::SetUid { uid: 501 },
            PrivilegeStage::Done,
        ]
    );
}

#[test]
fn failures_on_the_way_to_fewer_rights() {
    let end = |outcome: fn(PrivilegeStage) -> bool| give_up(true, outcome).pop().unwrap();
    let stages = give_up(true, |s| !matches!(s, PrivilegeStage::SetGid { .. }));
    assert!(!stages.iter().any(|s| matches!(s, PrivilegeStage::SetUid { .. })));
    assert_eq!(
        stages.last(),
        Some(&PrivilegeStage::Failed { call: PrivilegeCall::SetGid, id: 20 })
    );
    assert_eq!(
        end(|s| !matches!(s, PrivilegeStage::SetUid { .. })),
        PrivilegeStage::Failed { call: PrivilegeCall::SetUid, id: 501 }
    );
    assert_eq!(
        end(|s| matches!(s, PrivilegeStage::SetGid { .. } | PrivilegeStage::SetUid { .. })),
        PrivilegeStage::Done
    );
    assert_eq!(
        privilege_message(PrivilegeCall::SetGid, 20, "no"),
        "setgid(20) 失败: no"
    );
    assert_eq!(
        privilege_message(PrivilegeCall::SetUid, 501, "no"),
        "setuid(501) 失败: no"
    );
}

#[test]
fn json_files_are_tightened() {
    assert!(tighten_perms(b"all_keys.json"));
    assert!(tighten_perms(b"..json"));
    assert!(!tighten_perms(b".json"));
    assert!(!tighten_perms(b"json"));
    assert!(!tighten_perms(b"a.jsonl"));
    assert!(!tighten_perms(b"a.JSON"));
    for name in ["all_keys.json", "..json", ".json", "json", "a.jsonl", "a.JSON", "a.b.json"] {
        let extension = std::path::Path::new(name).extension().and_then(|e| e.to_str());
        assert_eq!(tighten_perms(name.as_bytes()), extension == Some("json"));
    }
}

fn shown_path(path: &PathParts) -> String {
    path.parts
        .iter()
        .map(|p| String::from_utf8_lossy(p).into_owned())
        .collect::<Vec<_>>()
        .join("/")
}

/// Hands a tree over in which the given directories hold the given names.
fn hand_over(dirs: &[(&str, &[&str], bool)], fails: &str) -> (Vec<String>, bool) {
    let find = |path: &str| dirs.iter().find(|d| d.0 == path);
    let mut owned = Vec::new();
    let mut stage = chown_recursive();
    loop {
        let reply = match &stage {
            OwnStage::Own { path, .. } => {
                let path = shown_path(path);
                let ok = path != fails;
                if ok {
                    owned.push(path);
                }
                OwnReply::Owned(ok)
            }
            OwnStage::Look { path, .. } => OwnReply::IsDir(Some(find(&shown_path(path)).is_some())),
            OwnStage::List { path, .. } => {
                OwnReply::Listed(find(&shown_path(path)).map(|d| Listing {
                    names: d.1.iter().map(|n| n.as_bytes().to_vec()).collect(),
                    cut: d.2,
                }))
            }
            OwnStage::Done(well) => return (owned, *well),
        };
        stage = stage.answer(reply);
    }
}

#[test]
fn a_tree_is_handed_over_from_the_top() {
    let dirs: [(&str, &[&str], bool); 3] = [
        ("", &["a", "b", "c"], false),
        ("b", &["x", "y"], false),
        ("b/x", &[], false),
    ];
    let (owned, well) = hand_over(&dirs, "none");
    assert!(well);
    assert_eq!(owned, vec!["", "a", "b", "b/x", "b/y", "c"]);
    let (owned, well) = hand_over(&dirs, "b/y");
    assert!(!well);
    assert_eq!(owned, vec!["", "a", "b", "b/x"]);
}

#[test]
fn a_directory_that_is_cut_short_ends_the_walk() {
    let dirs: [(&str, &[&str], bool); 2] = [("", &["a", "b"], false), ("a", &["x"], true)];
    let (owned, well) = hand_over(&dirs, "none");
    assert!(!well);
    assert_eq!(owned, vec!["", "a", "a/x"]);
}
