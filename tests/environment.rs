use std::collections::HashMap;

use skybox::env::{
    blank_keys, lookup, parse_environ, plan_env_import, split_at_char, split_key_value,
    split_nul_entries, EnvPlan,
};

fn pairs(v: &[(&str, &str)]) -> Vec<(String, String)> {
    v.iter().map(|(k, x)| (k.to_string(), x.to_string())).collect()
}

fn apply(env: &mut HashMap<String, String>, plan: &EnvPlan) {
    for k in &plan.unset {
        env.remove(k);
    }
    for (k, v) in &plan.set {
        env.insert(k.clone(), v.clone());
    }
}

fn task_env(v: &[(&str, &str)]) -> HashMap<String, String> {
    v.iter().map(|(k, x)| (k.to_string(), x.to_string())).collect()
}

#[test]
fn splits_like_str_split() {
    assert_eq!(split_at_char("a=b=c", '='), vec!["a", "b", "c"]);
    assert_eq!(split_at_char("", '='), vec![""]);
    assert_eq!(split_at_char("=", '='), vec!["", ""]);
}

#[test]
fn nul_entries_of_a_block() {
    assert_eq!(split_nul_entries("A=1\0B=2\0"), vec!["A=1", "B=2"]);
    assert_eq!(split_nul_entries("A=1\0B=2"), vec!["A=1", "B=2"]);
    assert_eq!(split_nul_entries(""), Vec::<String>::new());
    assert_eq!(split_nul_entries("A=1\0\0B=2\0"), vec!["A=1", "", "B=2"]);
}

#[test]
fn key_value_split_at_first_equals() {
    assert_eq!(
        split_key_value("PATH=/bin:/usr/bin"),
        Some((String::from("PATH"), String::from("/bin:/usr/bin")))
    );
    assert_eq!(split_key_value("X=a=b"), Some((String::from("X"), String::from("a=b"))));
    assert_eq!(split_key_value("EMPTY="), Some((String::from("EMPTY"), String::new())));
    assert_eq!(split_key_value("NOEQUALS"), None);
}

#[test]
fn environ_block_parsing() {
    assert_eq!(
        parse_environ("HOME=/root\0TERM=xterm\0").unwrap(),
        pairs(&[("HOME", "/root"), ("TERM", "xterm")])
    );
    assert_eq!(
        parse_environ("A=1\0broken\0").unwrap_err(),
        "[skybox] couldn't parse environ value broken"
    );
}

#[test]
fn lookup_takes_last_pair() {
    let v = pairs(&[("A", "1"), ("B", "2"), ("A", "3")]);
    assert_eq!(lookup(&v, &String::from("A")), Some(2));
    assert_eq!(lookup(&v, &String::from("B")), Some(1));
    assert_eq!(lookup(&v, &String::from("C")), None);
}

#[test]
fn blank_descriptor_variable_is_unset() {
    // Descriptor sets FOO="" while the container defines FOO=bar.
    let desc = pairs(&[("FOO", "")]);
    let plan = plan_env_import(&desc, "FOO=bar\0PATH=/usr/bin\0").unwrap();
    let mut env = task_env(&[("FOO", "host"), ("HOME", "/home/u")]);
    apply(&mut env, &plan);
    assert!(!env.contains_key("FOO"));
    assert_eq!(env.get("PATH").map(String::as_str), Some("/usr/bin"));
    assert_eq!(env.get("HOME").map(String::as_str), Some("/home/u"));
}

#[test]
fn locale_variables_are_denied() {
    let plan = plan_env_import(&Vec::new(), "LANG=C.UTF-8\0LC_ALL=C\0X=1\0").unwrap();
    let mut env = task_env(&[("LANG", "de_CH"), ("LANGUAGE", "de"), ("LC_ALL", "de_CH")]);
    apply(&mut env, &plan);
    assert!(!env.contains_key("LANG"));
    assert!(!env.contains_key("LANGUAGE"));
    assert!(!env.contains_key("LC_ALL"));
    assert_eq!(env.get("X").map(String::as_str), Some("1"));
}

#[test]
fn locale_kept_when_descriptor_sets_it() {
    let desc = pairs(&[("LANG", "en_US.UTF-8"), ("LC_ALL", "")]);
    let plan = plan_env_import(&desc, "LANG=C\0LC_ALL=C\0").unwrap();
    let mut env = task_env(&[("LANG", "de_CH"), ("LC_ALL", "de_CH")]);
    apply(&mut env, &plan);
    assert_eq!(env.get("LANG").map(String::as_str), Some("en_US.UTF-8"));
    assert!(!env.contains_key("LC_ALL"));
    assert!(!env.contains_key("LANGUAGE"));
}

#[test]
fn descriptor_value_wins_over_container() {
    let desc = pairs(&[("MODE", "fast")]);
    let plan = plan_env_import(&desc, "MODE=slow\0OTHER=c\0OTHER=d\0").unwrap();
    let mut env = task_env(&[("MODE", "host"), ("OTHER", "host")]);
    apply(&mut env, &plan);
    assert_eq!(env.get("MODE").map(String::as_str), Some("fast"));
    assert_eq!(env.get("OTHER").map(String::as_str), Some("d"));
}

#[test]
fn later_descriptor_pair_overrides_earlier() {
    let desc = pairs(&[("A", ""), ("A", "x"), ("B", "y"), ("B", "")]);
    let plan = plan_env_import(&desc, "A=c\0B=c\0").unwrap();
    let mut env = task_env(&[("A", "h"), ("B", "h")]);
    apply(&mut env, &plan);
    assert_eq!(env.get("A").map(String::as_str), Some("x"));
    assert!(!env.contains_key("B"));
}

#[test]
fn malformed_container_environment_fails() {
    assert!(plan_env_import(&Vec::new(), "GOOD=1\0BAD\0").is_err());
}

#[test]
fn blank_keys_of_descriptor() {
    let desc = pairs(&[("A", ""), ("B", "1"), ("C", "2"), ("C", "")]);
    let mut keys = blank_keys(&desc);
    keys.sort();
    keys.dedup();
    assert_eq!(keys, vec!["A", "C"]);
}

#[test]
fn variables_the_container_lacks_are_left_alone() {
    let desc = pairs(&[("ONLY_DESC", "x"), ("BLANK_ONLY", ""), ("LANGUAGE", "fr")]);
    let plan = plan_env_import(&desc, "PATH=/bin\0").unwrap();
    let mut env = task_env(&[("BLANK_ONLY", "host"), ("KEEP", "1"), ("LANG", "de")]);
    apply(&mut env, &plan);
    assert!(!env.contains_key("ONLY_DESC"));
    assert_eq!(env.get("BLANK_ONLY").map(String::as_str), Some("host"));
    assert_eq!(env.get("KEEP").map(String::as_str), Some("1"));
    assert!(!env.contains_key("LANG"));
    assert!(!env.contains_key("LANGUAGE"));
    assert_eq!(env.get("PATH").map(String::as_str), Some("/bin"));
}

#[test]
fn blank_keys_then_import_leaves_blank_unset() {
    let desc = pairs(&[("FOO", ""), ("BAR", "")]);
    let mut env = task_env(&[("FOO", "host"), ("BAR", "host")]);
    for k in blank_keys(&desc) {
        env.remove(&k);
    }
    let plan = plan_env_import(&desc, "FOO=bar\0").unwrap();
    apply(&mut env, &plan);
    assert!(!env.contains_key("FOO"));
    assert!(!env.contains_key("BAR"));
}

#[test]
fn import_error_names_first_bad_entry() {
    assert_eq!(
        plan_env_import(&Vec::new(), "A=1\0bad1\0bad2\0").err(),
        Some(String::from("[skybox] couldn't parse environ value bad1"))
    );
}
