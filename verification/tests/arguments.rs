use player_control::action::ActionDesc;
use player_control::arguments::{collect_names, expand, is_well_closed};

fn names(command: &str) -> Vec<String> {
    ActionDesc::generate_args(command).iter().cloned().collect()
}

fn filled(command: &str, values: &[&str]) -> Option<String> {
    assert!(is_well_closed(command));
    let values: Vec<String> = values.iter().map(|v| v.to_string()).collect();
    expand(command, &ActionDesc::generate_args(command), &values)
}

#[test]
fn placeholders_give_arguments() {
    assert_eq!(names("cp {from} {to#path}"), vec!["from", "to#path"]);
    assert_eq!(names("echo hello"), Vec::<String>::new());
    assert_eq!(names(""), Vec::<String>::new());
    assert_eq!(names("{file name}"), vec!["file name"]);
}

#[test]
fn an_argument_is_asked_for_once() {
    assert_eq!(names("{b} {a} {b} {c} {a}"), vec!["b", "a", "c"]);
}

#[test]
fn names_end_where_other_characters_start() {
    assert_eq!(names("{width:5}"), vec!["width"]);
    assert_eq!(names("{a-b}"), vec!["a"]);
    assert_eq!(names("{-}"), vec![""]);
    assert_eq!(names("{}"), vec![""]);
    assert_eq!(names("{größe_1}"), vec!["größe_1"]);
    assert_eq!(names("{\u{2013}x}"), vec![""]);
}

#[test]
fn only_the_innermost_braces_enclose_a_placeholder() {
    assert_eq!(names("{a{b}c}"), vec!["b"]);
    assert_eq!(names("{{x}}"), vec!["x"]);
    assert_eq!(names("a } b { c"), Vec::<String>::new());
    assert_eq!(names("{a\nb}"), vec!["a"]);
}

#[test]
fn names_are_gathered_in_order() {
    let list = ["x", "y", "x", "", "y", ""].iter().map(|s| s.to_string()).collect();
    let set: Vec<String> = collect_names(list).iter().cloned().collect();
    assert_eq!(set, vec!["x", "y", ""]);
}

#[test]
fn templates_are_closed_or_not() {
    for template in ["", "plain", "{a}", "{{", "}}", "{{a", "a: b", "{a:5}", "{a:065535}", "}", "{a{b}", "echo 999999 {a}", "10:99999"] {
        assert!(is_well_closed(template), "{template:?}");
    }
    for template in ["{", "{a", "{{{", "x {a:", "{a:#", "{a:+x", "{a:65536}", "{a:.70000}", "{a}{b:99999999999999999999}"] {
        assert!(!is_well_closed(template), "{template:?}");
    }
}

#[test]
fn values_take_the_place_of_their_names() {
    assert_eq!(filled("cp {from} {to}", &["a", "b", "c"]), Some("cp a b".to_string()));
    assert_eq!(filled("{x}{x}", &["{x}"]), Some("{x}{x}".to_string()));
    assert_eq!(filled("{}", &["v"]), Some("v".to_string()));
    assert_eq!(filled("{a#hint}", &["v"]), Some("v".to_string()));
    assert_eq!(filled("{a b}", &["v"]), Some("v".to_string()));
    assert_eq!(filled("ls {file#path on the player}", &["/x"]), Some("ls /x".to_string()));
    assert_eq!(filled("{größe } {a}", &["5", "b"]), Some("5 b".to_string()));
}

#[test]
fn commands_without_placeholders_stay_as_they_are() {
    assert_eq!(filled("reboot now", &[]), Some("reboot now".to_string()));
    assert_eq!(filled("awk '{{print}}'", &[]), Some("awk '{print}'".to_string()));
}

#[test]
fn layouts_are_obeyed() {
    assert_eq!(filled("[{a:5}]", &["xy"]), Some("[xy   ]".to_string()));
    assert_eq!(filled("[{a:>5}]", &["xy"]), Some("[   xy]".to_string()));
    assert_eq!(filled("[{a:.1}]", &["xy"]), Some("[x]".to_string()));
}

#[test]
fn missing_values_are_noticed() {
    assert_eq!(filled("{a} {b}", &["x"]), None);
    assert_eq!(filled("{a-b}", &["x"]), None);
    assert_eq!(filled("{ a}", &["x"]), None);
    assert_eq!(filled("{a:q}", &["x"]), None);
}
