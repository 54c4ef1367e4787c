use txtbatch::config::{
    clean_dir_value, config_file, load_dir, save_dir, BaseVar, ConfigEnv, ConfigError, ConfigFileError,
};
use txtbatch::request::RequestError;
use txtbatch::{canonical_clean, operation_from, Operation};

fn env(windows: bool) -> ConfigEnv {
    ConfigEnv { windows, appdata: false, userprofile: false, xdg_config_home: false, home: false }
}

fn located(e: &ConfigEnv) -> (BaseVar, Vec<String>) {
    let found = config_file(e).unwrap();
    (found.base, found.parts)
}

fn parts(names: &[&str]) -> Vec<String> {
    names.iter().map(|n| n.to_string()).collect()
}

#[test]
fn config_file_prefers_xdg() {
    let mut e = env(false);
    e.home = true;
    assert_eq!(located(&e), (BaseVar::Home, parts(&[".config", "txtbatch", "config.ini"])));
    e.xdg_config_home = true;
    assert_eq!(located(&e), (BaseVar::XdgConfigHome, parts(&["txtbatch", "config.ini"])));
}

#[test]
fn config_file_on_windows() {
    let mut e = env(true);
    e.home = true;
    assert_eq!(located(&e).0, BaseVar::Home);
    e.userprofile = true;
    assert_eq!(located(&e).0, BaseVar::UserProfile);
    e.appdata = true;
    assert_eq!(located(&e), (BaseVar::AppData, parts(&["txtbatch", "config.ini"])));
    assert_eq!(BaseVar::AppData.var_name(), "APPDATA");
    assert_eq!(BaseVar::XdgConfigHome.var_name(), "XDG_CONFIG_HOME");
}

#[test]
fn config_file_needs_a_base() {
    assert!(matches!(config_file(&env(false)), Err(ConfigError::NoConfigDir)));
    assert!(matches!(config_file(&env(true)), Err(ConfigError::NoConfigDir)));
}

fn saved_then_loaded(dir: &str) -> Option<String> {
    let bytes = save_dir(dir);
    let text = String::from_utf8(bytes).unwrap();
    load_dir(Some(&text)).unwrap()
}

#[test]
fn save_load_roundtrip() {
    assert_eq!(saved_then_loaded(r"C:\dir\somewhere"), Some(r"C:\dir\somewhere".to_string()));
    assert_eq!(saved_then_loaded("/home/u/第一 目录"), Some("/home/u/第一 目录".to_string()));
    assert_eq!(saved_then_loaded("a;b#c=d:e"), Some("a;b#c=d:e".to_string()));
}

#[test]
fn saved_file_names_section_and_key() {
    let text = String::from_utf8(save_dir("D:\\x")).unwrap();
    assert!(text.starts_with("[default]"));
    assert!(text.contains("dir="));
}

#[test]
fn load_dir_keeps_value() {
    assert_eq!(clean_dir_value(Some(r"C:\dir\somewhere")), Some(r"C:\dir\somewhere".to_string()));
    assert_eq!(load_dir(Some("[default]\ndir=/work\n")), Ok(Some("/work".to_string())));
}

#[test]
fn missing_file_loads_none() {
    assert_eq!(load_dir(None), Ok(None));
    assert_eq!(load_dir(Some("[other]\ndir=/work\n")), Ok(None));
    assert_eq!(clean_dir_value(None), None);
}

#[test]
fn blank_value_loads_none() {
    assert_eq!(load_dir(Some("[default]\ndir=\n")), Ok(None));
    assert_eq!(clean_dir_value(Some("")), None);
    assert_eq!(clean_dir_value(Some(" \t\0\0 ")), None);
}

#[test]
fn load_dir_skips_byte_order_mark() {
    assert_eq!(load_dir(Some("\u{feff}[default]\ndir=/work\n")), Ok(Some("/work".to_string())));
}

#[test]
fn load_dir_rejects_unparsable_text() {
    assert_eq!(load_dir(Some("[default]\ndir=\"/work\n")), Err(ConfigFileError::Unparsable));
}

#[test]
fn load_dir_trims_space_and_nul() {
    assert_eq!(clean_dir_value(Some("  /work/dir \0\0")), Some("/work/dir".to_string()));
    assert_eq!(clean_dir_value(Some("\0 D:\\x \0")), Some("D:\\x".to_string()));
    assert_eq!(clean_dir_value(Some("\u{3000}/w\u{a0}")), Some("/w".to_string()));
}

#[test]
fn canonical_clean_strips_verbatim_prefix_text() {
    assert_eq!(canonical_clean(r"\\?\C:\work"), r"C:\work");
    assert_eq!(canonical_clean("/tmp/work"), "/tmp/work");
    assert_eq!(canonical_clean(r"\\server\share"), r"\\server\share");
}

#[test]
fn operation_from_modes() {
    match operation_from("replace", "a", "b", "", "", 0) {
        Ok(Operation::Replace { find, replace }) => {
            assert_eq!(find, "a");
            assert_eq!(replace, "b");
        }
        _ => panic!("expected a replace"),
    }
    match operation_from("insert", "", "", "x", "y", 0) {
        Ok(Operation::Insert { after, insert }) => {
            assert_eq!(after, "x");
            assert_eq!(insert, "y");
        }
        _ => panic!("expected an insert"),
    }
    match operation_from("repeat", "123", "", "", "", 3) {
        Ok(Operation::Repeat { find, count }) => {
            assert_eq!(find, "123");
            assert_eq!(count, 3);
        }
        _ => panic!("expected a repeat"),
    }
    assert!(matches!(operation_from("replace", "", "b", "", "", 0), Err(RequestError::EmptyFind)));
    assert!(matches!(operation_from("repeat", "", "", "", "", 2), Err(RequestError::EmptyFind)));
    assert!(matches!(operation_from("insert", "a", "", "", "y", 0), Err(RequestError::EmptyAfter)));
    assert!(matches!(operation_from("rotate", "a", "b", "c", "d", 1), Err(RequestError::UnknownMode)));
}
