use std::collections::HashMap;

use magic_eye::persist::{
    backup_file_path, config_dir_path, config_file_path, plan_address_update, plan_update, temp_file_path, FileStep,
};
use magic_eye::settings::{ConfigError, SettingValue, Settings};

fn text(v: &str) -> SettingValue {
    SettingValue::Text(v.to_string())
}

fn apply(files: &mut HashMap<String, String>, step: &FileStep) {
    match step {
        FileStep::Write { path, contents } => {
            files.insert(path.clone(), contents.clone());
        }
        FileStep::Rename { from, to } => {
            if let Some(c) = files.remove(from) {
                files.insert(to.clone(), c);
            }
        }
    }
}

#[test]
fn paths_are_joined() {
    assert_eq!(config_dir_path("/home/u/.config"), "/home/u/.config/magiceEye");
    assert_eq!(config_file_path("/cfg"), "/cfg/settings.json");
    assert_eq!(temp_file_path("/cfg/settings.json"), "/cfg/settings.json.tmp");
    assert_eq!(backup_file_path("/cfg/settings.json"), "/cfg/settings.json.corrupt");
}

#[test]
fn update_plan_writes_then_renames() {
    let mut patch = Settings::new();
    patch.set("b", text("2"));
    let plan = plan_update("/cfg/settings.json", Some("{\"a\":\"1\"}"), patch);
    assert_eq!(plan.merged.get("a"), Some(&text("1")));
    assert_eq!(plan.merged.get("b"), Some(&text("2")));
    assert_eq!(
        plan.steps,
        vec![
            FileStep::Write {
                path: "/cfg/settings.json.tmp".to_string(),
                contents: "{\"a\":\"1\",\"b\":\"2\"}".to_string(),
            },
            FileStep::Rename {
                from: "/cfg/settings.json.tmp".to_string(),
                to: "/cfg/settings.json".to_string(),
            },
        ]
    );
}

#[test]
fn update_plan_without_file_starts_empty() {
    let mut patch = Settings::new();
    patch.set("a", text("1"));
    let plan = plan_update("/s.json", None, patch);
    assert_eq!(plan.merged.to_json(), "{\"a\":\"1\"}");
}

#[test]
fn update_plan_on_corrupt_file_keeps_backup() {
    let mut patch = Settings::new();
    patch.set("a", text("1"));
    let plan = plan_update("/s.json", Some("{oops"), patch);
    assert_eq!(plan.merged.to_json(), "{\"a\":\"1\"}");
    assert_eq!(
        plan.steps,
        vec![
            FileStep::Write { path: "/s.json.corrupt".to_string(), contents: "{oops".to_string() },
            FileStep::Write { path: "/s.json.tmp".to_string(), contents: "{\"a\":\"1\"}".to_string() },
            FileStep::Rename { from: "/s.json.tmp".to_string(), to: "/s.json".to_string() },
        ]
    );
}

#[test]
fn interrupted_recovery_leaves_old_or_new_file() {
    let old = "{oops".to_string();
    let mut patch = Settings::new();
    patch.set("a", text("2"));
    let plan = plan_update("/s.json", Some(&old), patch);
    let new = plan.merged.to_json();
    for done in 0..=plan.steps.len() {
        let mut files = HashMap::new();
        files.insert("/s.json".to_string(), old.clone());
        for step in &plan.steps[..done] {
            apply(&mut files, step);
        }
        let now = files.get("/s.json").unwrap();
        assert!(*now == old || *now == new);
        if done == plan.steps.len() {
            assert_eq!(*now, new);
            assert_eq!(files.get("/s.json.corrupt"), Some(&old));
        }
    }
}

#[test]
fn interrupted_write_leaves_old_or_new_file() {
    let old = "{\"a\":\"1\"}".to_string();
    let mut patch = Settings::new();
    patch.set("a", text("2"));
    let plan = plan_update("/s.json", Some(&old), patch);
    let new = plan.merged.to_json();
    for done in 0..=plan.steps.len() {
        let mut files = HashMap::new();
        files.insert("/s.json".to_string(), old.clone());
        for step in &plan.steps[..done] {
            apply(&mut files, step);
        }
        let now = files.get("/s.json").unwrap();
        assert!(*now == old || *now == new);
        assert!(Settings::from_json(now).is_ok());
        if done == plan.steps.len() {
            assert_eq!(*now, new);
        }
    }
}

#[test]
fn address_update_round_trip() {
    let plan = plan_address_update("/s.json", None, "192.168.1.5:8080").unwrap();
    let text = plan.merged.to_json();
    let back = Settings::load(Some(&text)).unwrap();
    assert_eq!(back.target_address(), Some("192.168.1.5:8080".to_string()));
}

#[test]
fn address_update_keeps_other_settings() {
    let plan = plan_address_update("/s.json", Some("{\"api_ip\":\"x\",\"k\":\"v\"}"), "y:1").unwrap();
    assert_eq!(plan.merged.get("k"), Some(&text("v")));
    assert_eq!(plan.merged.target_address(), Some("y:1".to_string()));
}

#[test]
fn update_keeps_scalar_settings() {
    let mut patch = Settings::new();
    patch.set("b", text("2"));
    let plan = plan_update("/s.json", Some("{\"port\":8080,\"on\":false}"), patch);
    assert_eq!(plan.steps.len(), 2);
    assert_eq!(plan.merged.to_json(), "{\"b\":\"2\",\"on\":false,\"port\":8080}");
}

#[test]
fn empty_address_update_is_refused() {
    assert_eq!(
        plan_address_update("/s.json", Some("{oops"), "").unwrap_err(),
        ConfigError::EmptyAddress
    );
}
