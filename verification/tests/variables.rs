use rush::env::functions::Functions;
use rush::env::variables::Variables;
use rush::lang::ast::Command;
use rush::lang::word::Word;

#[test]
fn absent_and_empty_are_told_apart() {
    let mut vars = Variables::new();
    assert!(!vars.is_defined("x"));
    assert!(!vars.has_value("x"));
    assert_eq!(vars.value("x"), "");

    vars.define("x", "");
    assert!(vars.is_defined("x"));
    assert!(!vars.has_value("x"));
    assert_eq!(vars.value("x"), "");

    vars.define("x", "1");
    assert!(vars.is_defined("x"));
    assert!(vars.has_value("x"));
    assert_eq!(vars.value("x"), "1");
}

#[test]
fn last_write_stands() {
    let mut vars = Variables::new();
    vars.define("k", "first");
    vars.define("other", "x");
    vars.define("k", "second");
    assert_eq!(vars.entry("k").or_insert("third"), "second");
    assert_eq!(vars.entry("k").or_insert_null("fourth"), "second");
    assert!(vars.is_defined("k"));
    assert_eq!(vars.value("k"), "second");
    vars.define("k", "");
    assert_eq!(vars.entry("k").or_insert("fifth"), "");
    assert_eq!(vars.value("k"), "");
    assert_eq!(vars.entry("k").or_insert_null("sixth"), "sixth");
    assert_eq!(vars.value("k"), "sixth");
}

#[test]
fn remove_is_idempotent() {
    let mut vars = Variables::new();
    vars.define("a", "1");
    vars.remove("a");
    assert!(!vars.is_defined("a"));
    vars.remove("a");
    assert!(!vars.is_defined("a"));
    assert_eq!(vars.entry("a").remove(), None);
    vars.define("a", "2");
    assert_eq!(vars.entry("a").remove(), Some("2".to_string()));
    assert!(!vars.is_defined("a"));
}

#[test]
fn entry_defaults_follow_parameter_expansion() {
    let mut vars = Variables::new();
    vars.define("empty", "");
    vars.define("full", "value");

    // ${x-v}
    assert_eq!(vars.entry("unset").default("v"), "v");
    assert_eq!(vars.entry("empty").default("v"), "");
    assert_eq!(vars.entry("full").default("v"), "value");
    assert!(!vars.is_defined("unset"));

    // ${x:-v}
    assert_eq!(vars.entry("unset").default_null("v"), "v");
    assert_eq!(vars.entry("empty").default_null("v"), "v");
    assert_eq!(vars.entry("full").default_null("v"), "value");
    assert!(!vars.is_defined("unset"));
    assert_eq!(vars.value("empty"), "");

    // ${x=v}
    assert_eq!(vars.entry("unset").or_insert("v"), "v");
    assert_eq!(vars.value("unset"), "v");
    assert_eq!(vars.entry("empty").or_insert("v"), "");
    assert_eq!(vars.entry("full").or_insert("v"), "value");

    // ${x:=v}
    assert_eq!(vars.entry("unset2").or_insert_null("w"), "w");
    assert_eq!(vars.value("unset2"), "w");
    assert_eq!(vars.entry("empty").or_insert_null("w"), "w");
    assert_eq!(vars.value("empty"), "w");
    assert_eq!(vars.entry("full").or_insert_null("w"), "value");

    assert_eq!(vars.entry("full").insert("new"), "new");
    assert_eq!(vars.value("full"), "new");
    assert_eq!(vars.entry("full").name(), "full");
}

#[test]
fn names_come_in_order() {
    let mut vars = Variables::new();
    for name in ["zeta", "alpha", "beta", "alphabet", "Alpha", "", "b"] {
        vars.define(name, name);
    }
    vars.define("beta", "again");
    assert_eq!(
        vars.names(),
        vec!["", "Alpha", "alpha", "alphabet", "b", "beta", "zeta"]
    );
    vars.remove("alpha");
    assert_eq!(vars.names(), vec!["", "Alpha", "alphabet", "b", "beta", "zeta"]);
    assert_eq!(vars.value("beta"), "again");
}

#[test]
fn clone_is_independent() {
    let mut vars = Variables::new();
    vars.define("a", "1");
    vars.define("b", "2");
    let mut copy = vars.clone();
    copy.define("a", "changed");
    copy.define("c", "3");
    assert_eq!(vars.value("a"), "1");
    assert!(!vars.is_defined("c"));
    assert_eq!(copy.value("a"), "changed");
    assert_eq!(copy.value("b"), "2");
}

#[test]
fn functions_are_stored_by_name() {
    let mut functions = Functions::new();
    assert!(functions.value("f").is_none());
    functions.insert("f", Command::simple(vec![Word::parse("true")]));
    functions.insert("g", Command::Comment("g".to_string()));
    assert_eq!(
        functions.value("f"),
        Some(Command::simple(vec![Word::parse("true")]))
    );
    functions.insert("f", Command::simple(vec![Word::parse("false")]));
    assert_eq!(
        functions.value("f"),
        Some(Command::simple(vec![Word::parse("false")]))
    );
    assert_eq!(functions.names(), vec!["f", "g"]);
    functions.remove("f");
    assert!(!functions.is_defined("f"));
    assert!(functions.is_defined("g"));
    functions.remove("f");
    let copy = functions.clone();
    assert_eq!(copy.value("g"), Some(Command::Comment("g".to_string())));
}

#[test]
fn entry_reads_the_current_value() {
    let mut vars = Variables::new();
    assert_eq!(vars.entry("x").get(), None);
    vars.define("x", "");
    assert_eq!(vars.entry("x").get(), Some(String::new()));
    vars.define("x", "1");
    assert_eq!(vars.entry("x").get(), Some("1".to_string()));
}

#[test]
fn and_modify_touches_only_a_present_name() {
    let mut vars = Variables::new();
    vars.entry("x").and_modify(|v| v + "!");
    assert!(!vars.is_defined("x"));
    vars.define("x", "a");
    let value = vars.entry("x").and_modify(|v| v + "!").or_insert("b");
    assert_eq!(value, "a!");
    assert_eq!(vars.value("x"), "a!");
}

#[test]
fn or_insert_with_calls_the_default_only_when_absent() {
    let mut vars = Variables::new();
    let mut calls = 0;
    let made = vars.entry("x").or_insert_with(|| {
        calls += 1;
        "made".to_string()
    });
    assert_eq!(made, "made");
    assert_eq!(calls, 1);
    let kept = vars.entry("x").or_insert_with(|| {
        calls += 1;
        "again".to_string()
    });
    assert_eq!(kept, "made");
    assert_eq!(calls, 1);
    assert_eq!(vars.value("x"), "made");
}
