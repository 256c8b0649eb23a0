use sodium_launcher::model::{LibraryEntry, LibraryRule};
use sodium_launcher::platform::{
    bundled_java, classpath_separator, find_java_binary, game_dir_location, java_home_candidate,
    mojang_os_name, natives_key, BaseDirectory, Platform,
};
use sodium_launcher::rules::library_is_allowed;

fn rule(action: Option<&str>, os: Option<&str>) -> LibraryRule {
    LibraryRule { action: action.map(|s| s.to_string()), os_name: os.map(|s| s.to_string()) }
}

fn lib_with_rules(rules: Option<Vec<LibraryRule>>) -> LibraryEntry {
    LibraryEntry {
        name: None,
        url: None,
        rules,
        has_natives: false,
        artifact: None,
        classifiers: vec![],
    }
}

#[test]
fn os_names_follow_mojang() {
    assert_eq!(mojang_os_name(Platform::Windows), "windows");
    assert_eq!(mojang_os_name(Platform::MacOs), "osx");
    assert_eq!(mojang_os_name(Platform::Linux), "linux");
}

#[test]
fn natives_keys_follow_os_names() {
    for p in [Platform::Windows, Platform::MacOs, Platform::Linux] {
        assert_eq!(natives_key(p), format!("natives-{}", mojang_os_name(p)));
    }
    assert_eq!(natives_key(Platform::MacOs), "natives-osx");
}

#[test]
fn classpath_separators() {
    assert_eq!(classpath_separator(Platform::Windows), ";");
    assert_eq!(classpath_separator(Platform::MacOs), ":");
    assert_eq!(classpath_separator(Platform::Linux), ":");
}

#[test]
fn game_dir_per_platform() {
    let mac = game_dir_location(Platform::MacOs);
    assert_eq!(mac.base, BaseDirectory::Home);
    assert_eq!(mac.components, vec!["Library", "Application Support", "sodium"]);
    assert_eq!(mac.missing_base_error, "Home introuvable");
    let win = game_dir_location(Platform::Windows);
    assert_eq!(win.base, BaseDirectory::Data);
    assert_eq!(win.components, vec![".sodium"]);
    assert_eq!(win.missing_base_error, "AppData\\Roaming introuvable");
    let linux = game_dir_location(Platform::Linux);
    assert_eq!(linux.base, BaseDirectory::Home);
    assert_eq!(linux.components, vec![".sodium"]);
}

#[test]
fn java_binary_choice() {
    assert_eq!(java_home_candidate(Platform::Linux, "/opt/jdk"), "/opt/jdk/bin/java");
    assert_eq!(java_home_candidate(Platform::Windows, "C:\\jdk"), "C:\\jdk\\bin\\javaw.exe");
    assert_eq!(bundled_java(Platform::Windows), "runtime\\java\\bin\\javaw.exe");
    assert_eq!(find_java_binary(Platform::Linux, Some("/opt/jdk"), true, true), "/opt/jdk/bin/java");
    assert_eq!(find_java_binary(Platform::Linux, Some("/opt/jdk"), false, true), "runtime/java/bin/java");
    assert_eq!(find_java_binary(Platform::Linux, None, true, false), "java");
    assert_eq!(find_java_binary(Platform::Windows, None, false, false), "javaw.exe");
    assert_eq!(find_java_binary(Platform::MacOs, None, false, true), "runtime/java/bin/java");
}

#[test]
fn library_without_rules_is_allowed() {
    let lib = lib_with_rules(None);
    assert!(library_is_allowed(&lib, Platform::Linux));
    assert!(library_is_allowed(&lib, Platform::Windows));
}

#[test]
fn empty_rules_refuse() {
    let lib = lib_with_rules(Some(vec![]));
    assert!(!library_is_allowed(&lib, Platform::Linux));
}

#[test]
fn allow_all_but_osx() {
    let lib = lib_with_rules(Some(vec![rule(Some("allow"), None), rule(Some("disallow"), Some("osx"))]));
    assert!(library_is_allowed(&lib, Platform::Linux));
    assert!(library_is_allowed(&lib, Platform::Windows));
    assert!(!library_is_allowed(&lib, Platform::MacOs));
}

#[test]
fn only_on_osx() {
    let lib = lib_with_rules(Some(vec![rule(Some("allow"), Some("osx"))]));
    assert!(library_is_allowed(&lib, Platform::MacOs));
    assert!(!library_is_allowed(&lib, Platform::Linux));
}

#[test]
fn missing_action_counts_as_disallow() {
    let lib = lib_with_rules(Some(vec![rule(Some("allow"), None), rule(None, Some("windows"))]));
    assert!(!library_is_allowed(&lib, Platform::Windows));
    assert!(library_is_allowed(&lib, Platform::Linux));
}

#[test]
fn unknown_action_is_ignored() {
    let lib = lib_with_rules(Some(vec![rule(Some("allow"), None), rule(Some("maybe"), None)]));
    assert!(library_is_allowed(&lib, Platform::Linux));
}

#[test]
fn last_applicable_rule_wins() {
    let lib = lib_with_rules(Some(vec![
        rule(Some("disallow"), Some("linux")),
        rule(Some("allow"), Some("linux")),
        rule(Some("disallow"), Some("windows")),
    ]));
    assert!(library_is_allowed(&lib, Platform::Linux));
    assert!(!library_is_allowed(&lib, Platform::Windows));
    assert!(!library_is_allowed(&lib, Platform::MacOs));
}
