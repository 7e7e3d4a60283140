//! The recorder called directly: what it records and what it refuses.

use mendax::fib::Fib;
use mendax::lie::{Lie, LookValue};
use mendax::source::{engine, get_src, inferred_name, Limits};
use mendax::speed::Speed;
use mendax::MendaxError;

#[test]
fn a_tag_can_be_given_once() {
    let mut lie = Lie::new(false);
    assert_eq!(lie.tag("x"), Ok(()));
    lie.show("between");
    assert_eq!(
        lie.tag("x"),
        Err(MendaxError::DuplicateTag { name: "x".into() })
    );
    assert_eq!(lie.fibs().len(), 2);
}

#[test]
fn a_tag_outside_blocks_the_same_tag_inside_a_screen() {
    let mut lie = Lie::new(false);
    lie.tag("x").unwrap();
    lie.open_screen(None).unwrap();
    assert_eq!(
        lie.tag("x"),
        Err(MendaxError::DuplicateTag { name: "x".into() })
    );
    lie.close_screen();
    assert_eq!(
        lie.fibs(),
        &[
            Fib::Tag { name: "x".into() },
            Fib::Screen {
                apparent_cmd: None,
                fibs: vec![]
            }
        ]
    );
}

#[test]
fn a_tag_inside_a_screen_blocks_the_same_tag_outside() {
    let mut lie = Lie::new(false);
    lie.open_screen(None).unwrap();
    lie.tag("x").unwrap();
    lie.close_screen();
    assert_eq!(
        lie.tag("x"),
        Err(MendaxError::DuplicateTag { name: "x".into() })
    );
    lie.open_screen(None).unwrap();
    assert_eq!(
        lie.tag("x"),
        Err(MendaxError::DuplicateTag { name: "x".into() })
    );
}

#[test]
fn a_tag_is_known_by_its_name_without_white_space() {
    let mut lie = Lie::new(false);
    lie.tag("  spaced\t\n").unwrap();
    lie.tag("\u{a0}wide\u{3000}").unwrap();
    lie.tag("two words").unwrap();
    assert_eq!(
        lie.fibs(),
        &[
            Fib::Tag {
                name: "spaced".into()
            },
            Fib::Tag {
                name: "wide".into()
            },
            Fib::Tag {
                name: "two words".into()
            }
        ]
    );
    assert_eq!(
        lie.tag("spaced "),
        Err(MendaxError::DuplicateTag {
            name: "spaced".into()
        })
    );
}

#[test]
fn reserved_names_are_no_tags() {
    let mut lie = Lie::new(false);
    for name in ["", "   ", "?", "!", " ? ", "\t!\n"] {
        assert_eq!(
            lie.tag(name),
            Err(MendaxError::InvalidTagName {
                name: name.trim().into()
            })
        );
    }
    assert!(lie.fibs().is_empty());
    assert_eq!(lie.tag("?!"), Ok(()));
}

#[test]
fn a_screen_in_a_screen_is_refused_and_changes_nothing() {
    let mut lie = Lie::new(false);
    lie.show("outside");
    lie.open_screen(Some("top")).unwrap();
    lie.show("inside");
    assert!(!lie.root());
    assert_eq!(lie.open_screen(None), Err(MendaxError::NestedScreens));
    assert_eq!(
        lie.open_screen(Some("htop")),
        Err(MendaxError::NestedScreens)
    );
    assert_eq!(
        lie.fibs(),
        &[Fib::Show {
            text: "outside".into()
        }]
    );
    lie.close_screen();
    assert!(lie.root());
    assert_eq!(
        lie.fibs(),
        &[
            Fib::Show {
                text: "outside".into()
            },
            Fib::Screen {
                apparent_cmd: Some("top".into()),
                fibs: vec![Fib::Show {
                    text: "inside".into()
                }]
            }
        ]
    );
    assert_eq!(lie.open_screen(None), Ok(()));
}

#[test]
fn closing_without_a_screen_does_nothing() {
    let mut lie = Lie::new(false);
    lie.show("only");
    lie.close_screen();
    assert_eq!(
        lie.fibs(),
        &[Fib::Show {
            text: "only".into()
        }]
    );
}

#[test]
fn a_forbidden_command_is_refused_and_changes_nothing() {
    let mut lie = Lie::new(false);
    assert!(!lie.allows_system());
    lie.show("before");
    assert_eq!(lie.system(None, "rm -rf /"), Err(MendaxError::SystemForbidden));
    assert_eq!(
        lie.system(Some("ls"), "rm -rf /"),
        Err(MendaxError::SystemForbidden)
    );
    assert_eq!(lie.system_simple("ls"), Err(MendaxError::SystemForbidden));
    assert_eq!(lie.fibs().len(), 1);
    lie.open_screen(None).unwrap();
    assert_eq!(lie.system(None, "ls"), Err(MendaxError::SystemForbidden));
    lie.close_screen();
    assert_eq!(
        lie.into_fibs(),
        vec![
            Fib::Show {
                text: "before".into()
            },
            Fib::Screen {
                apparent_cmd: None,
                fibs: vec![]
            }
        ]
    );
}

#[test]
fn an_allowed_command_is_recorded() {
    let mut lie = Lie::new(true);
    assert!(lie.allows_system());
    assert_eq!(lie.system_simple("ls"), Ok(()));
    assert_eq!(lie.system(Some("la"), "ls -Al"), Ok(()));
    assert_eq!(
        lie.fibs(),
        &[
            Fib::System {
                apparent_cmd: None,
                cmd: "ls".into()
            },
            Fib::System {
                apparent_cmd: Some("la".into()),
                cmd: "ls -Al".into()
            }
        ]
    );
}

#[test]
fn the_three_ways_to_run() {
    let mut lie = Lie::new(false);
    lie.run_no_output("foo");
    lie.run_short("bar", "qwer");
    lie.run_long("baz", vec!["asdf".into(), "fdsa".into()]);
    lie.run("quux", vec![]);
    assert_eq!(
        lie.fibs(),
        &[
            Fib::Run {
                cmd: "foo".into(),
                result: vec![]
            },
            Fib::Run {
                cmd: "bar".into(),
                result: vec!["qwer".into()]
            },
            Fib::Run {
                cmd: "baz".into(),
                result: vec!["asdf".into(), "fdsa".into()]
            },
            Fib::Run {
                cmd: "quux".into(),
                result: vec![]
            },
        ]
    );
}

#[test]
fn the_small_calls_append() {
    let mut lie = Lie::new(false);
    lie.sleep(250);
    lie.stop();
    lie.enter("y");
    lie.clear();
    assert_eq!(
        lie.fibs(),
        &[
            Fib::Sleep { millis: 250 },
            Fib::Stop,
            Fib::Enter { msg: "y".into() },
            Fib::Clear
        ]
    );
}

fn text(key: &str, value: &str) -> (String, LookValue) {
    (key.into(), LookValue::Text(value.into()))
}

#[test]
fn a_later_option_overrides_an_earlier_one() {
    let mut lie = Lie::new(false);
    let options = vec![
        text("cwd", "/a"),
        text("host", "h"),
        text("cwd", "/b"),
        ("final_prompt".into(), LookValue::Flag(true)),
        ("speed".into(), LookValue::Number(Speed::parse("0").unwrap())),
    ];
    assert_eq!(lie.look(&options), Ok(()));
    assert_eq!(
        lie.fibs(),
        &[Fib::Look {
            speed: Speed::parse("0"),
            title: None,
            cwd: Some("/b".into()),
            user: None,
            host: Some("h".into()),
            final_prompt: Some(true),
        }]
    );
}

#[test]
fn the_first_option_that_is_refused_decides() {
    let mut lie = Lie::new(false);
    lie.show("kept");
    let options = vec![
        text("cwd", "/a"),
        text("colour", "red"),
        ("speed".into(), LookValue::Flag(true)),
    ];
    assert_eq!(
        lie.look(&options),
        Err(MendaxError::UnknownField {
            field: "colour".into(),
            expected: vec![
                "cwd".into(),
                "final_prompt".into(),
                "host".into(),
                "speed".into(),
                "title".into(),
                "user".into()
            ]
        })
    );
    let options = vec![
        ("speed".into(), LookValue::Flag(true)),
        text("colour", "red"),
    ];
    assert_eq!(
        lie.look(&options),
        Err(MendaxError::MismatchedType {
            expecting: "f64".into(),
            actual: "bool".into()
        })
    );
    assert_eq!(lie.fibs().len(), 1);
}

#[test]
fn each_option_takes_its_type() {
    let number = || LookValue::Number(Speed::parse("1.5").unwrap());
    for key in ["title", "cwd", "host", "user", "final_prompt"] {
        let mut lie = Lie::new(false);
        assert_eq!(
            lie.look(&vec![(key.into(), number())]),
            Err(MendaxError::MismatchedType {
                expecting: "string".into(),
                actual: "f64".into()
            }),
            "{key}"
        );
        assert_eq!(
            lie.look(&vec![(key.into(), LookValue::Other("array".into()))]),
            Err(MendaxError::MismatchedType {
                expecting: "string".into(),
                actual: "array".into()
            }),
            "{key}"
        );
    }
    let mut lie = Lie::new(false);
    assert_eq!(
        lie.look(&vec![text("speed", "fast")]),
        Err(MendaxError::MismatchedType {
            expecting: "f64".into(),
            actual: "string".into()
        })
    );
    assert_eq!(
        lie.look(&vec![text("Speed", "fast")]),
        Err(MendaxError::UnknownField {
            field: "Speed".into(),
            expected: vec![
                "cwd".into(),
                "final_prompt".into(),
                "host".into(),
                "speed".into(),
                "title".into(),
                "user".into()
            ]
        })
    );
}

#[test]
fn every_failure_has_its_message() {
    assert_eq!(
        MendaxError::UnknownField {
            field: "a\"b\n".into(),
            expected: vec!["x".into(), "y".into()]
        }
        .to_string(),
        "unknown field \"a\\\"b\\n\", expected one of: x, y"
    );
    assert_eq!(
        MendaxError::UnknownField {
            field: "plain".into(),
            expected: vec![]
        }
        .to_string(),
        "unknown field \"plain\", expected one of: "
    );
    assert_eq!(
        MendaxError::MismatchedType {
            expecting: "f64".into(),
            actual: "string".into()
        }
        .to_string(),
        "Data type incorrect: string (expecting f64)"
    );
    assert_eq!(
        MendaxError::SystemForbidden.to_string(),
        "system calls are forbidden at this sandbox level"
    );
    assert_eq!(MendaxError::KeyboardInterrupt.to_string(), "^C");
    assert_eq!(MendaxError::NestedScreens.to_string(), "cannot nest screens");
    assert_eq!(
        MendaxError::AmbiguousSource {
            f1: "foo".into(),
            f2: "foo.rhai".into()
        }
        .to_string(),
        "ambiguous source: both foo and foo.rhai exist"
    );
    assert_eq!(
        MendaxError::NoSuchSource { stem: "foo".into() }.to_string(),
        "could not read file 'foo' or 'foo.rhai'"
    );
    assert_eq!(
        MendaxError::DuplicateTag { name: "x".into() }.to_string(),
        "tag 'x' defined multiple times"
    );
    assert_eq!(
        MendaxError::InvalidTagName { name: "".into() }.to_string(),
        "tag '' is reserved"
    );
    assert_eq!(MendaxError::LieInUse.to_string(), "lie in use");
}

#[test]
fn config_ambiguous_files_rejected() {
    let script = r#"lie.show("asdf")"#;
    let err = get_src("test-lie", Some(script.into()), Some(script.into())).unwrap_err();
    let err_string = err.to_string();
    assert!(
        err_string.contains("both test-lie and test-lie.rhai exist"),
        "unexpected error: {err_string}"
    );
}

#[test]
fn config_file_extension_optional() {
    let script: String = r#"lie.show("hello");"#.into();
    assert_eq!(
        get_src("tester.rhai", Some(script.clone()), None),
        Ok(script.clone())
    );
    assert_eq!(get_src("tester", None, Some(script.clone())), Ok(script));
}

#[test]
fn a_script_that_is_nowhere_is_reported() {
    assert_eq!(
        get_src("foo", None, None),
        Err(MendaxError::NoSuchSource { stem: "foo".into() })
    );
    assert_eq!(inferred_name("foo"), "foo.rhai");
    assert_eq!(inferred_name(""), ".rhai");
}

#[test]
fn both_files_are_named_where_both_exist() {
    assert_eq!(
        get_src("foo", Some("a".into()), Some("b".into())),
        Err(MendaxError::AmbiguousSource {
            f1: "foo".into(),
            f2: "foo.rhai".into()
        })
    );
}

#[test]
fn a_script_that_is_not_trusted_is_bounded() {
    let bounded = engine(false);
    assert_eq!(
        bounded.limits,
        Some(Limits {
            max_array_size: 1000,
            max_call_levels: 100,
            max_expr_depth: 100,
            max_function_expr_depth: 100,
            max_map_size: 1000,
            max_operations: 10000,
            max_string_size: 15000,
        })
    );
    assert!(bounded.strict_variables);
    assert!(bounded.fail_on_invalid_map_property);
    let free = engine(true);
    assert_eq!(free.limits, None);
    assert!(free.strict_variables);
    assert!(free.fail_on_invalid_map_property);
}
