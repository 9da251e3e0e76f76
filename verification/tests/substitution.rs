use testdrive::subst::substitute;
use testdrive::vars::Environment;

fn env_of(pairs: &[(&str, &str)]) -> Environment {
    let mut env = Environment::new();
    for (k, v) in pairs {
        env.set(k.to_string(), v.to_string());
    }
    env
}

#[test]
fn replaces_every_occurrence() {
    let env = env_of(&[("name", "world")]);
    let out = substitute("hello ${name} and ${name}!", &env).unwrap();
    assert_eq!(out, "hello world and world!");
    assert!(!out.contains("${"));
}

#[test]
fn replaces_distinct_names() {
    let env = env_of(&[("a", "1"), ("b", "2")]);
    let out = substitute("${a}+${b}=${b}${a}", &env).unwrap();
    assert_eq!(out, "1+2=21");
}

#[test]
fn missing_name_fails_with_that_name() {
    let env = env_of(&[]);
    let err = substitute("x ${missing} y", &env).unwrap_err();
    assert_eq!(err.name, "missing");
    assert_eq!(err.message(), "unknown variable: missing");
}

#[test]
fn scan_continues_and_reports_last_missing_name() {
    // the scan keeps replacing after a failed lookup, and the reported
    // name is the last missing one met
    let env = env_of(&[("known", "k")]);
    let err = substitute("${first} ${known} ${second}", &env).unwrap_err();
    assert_eq!(err.name, "second");
}

#[test]
fn later_binding_shadows_earlier() {
    let mut env = Environment::new();
    env.set("x".to_string(), "old".to_string());
    env.set("x".to_string(), "new".to_string());
    let out = substitute("${x}", &env).unwrap();
    assert_eq!(out, "new");
}

#[test]
fn merge_is_last_write_wins() {
    let mut env = Environment::new();
    env.set("a".to_string(), "0".to_string());
    env.merge(&vec![
        ("a".to_string(), "1".to_string()),
        ("b".to_string(), "2".to_string()),
        ("a".to_string(), "3".to_string()),
    ]);
    assert_eq!(substitute("${a}${b}", &env).unwrap(), "32");
}

#[test]
fn unmatched_forms_pass_through() {
    let env = env_of(&[("x", "v")]);
    assert_eq!(substitute("$", &env).unwrap(), "$");
    assert_eq!(substitute("${", &env).unwrap(), "${");
    assert_eq!(substitute("${}", &env).unwrap(), "${}");
    assert_eq!(substitute("$x", &env).unwrap(), "$x");
    assert_eq!(substitute("${unclosed", &env).unwrap(), "${unclosed");
    assert_eq!(substitute("}$", &env).unwrap(), "}$");
}

#[test]
fn dollar_before_occurrence() {
    let env = env_of(&[("x", "v")]);
    assert_eq!(substitute("$${x}", &env).unwrap(), "$v");
}

#[test]
fn empty_text_and_no_references() {
    let env = env_of(&[("x", "v")]);
    assert_eq!(substitute("", &env).unwrap(), "");
    assert_eq!(substitute("plain text", &env).unwrap(), "plain text");
}

#[test]
fn environment_lookup() {
    let env = env_of(&[("k", "v")]);
    assert_eq!(env.get(&"k".to_string()).unwrap().as_str(), "v");
    assert!(env.get(&"absent".to_string()).is_none());
}
