//! Sessions written as scripts, run by the scripting engine against the
//! recorder.

use mendax::dry_run::DryRun;
use mendax::fib::Fib;
use mendax::lie::{Lie, LookValue};
use mendax::source::{engine, get_src};
use mendax::speed::Speed;
use mendax::MendaxError;
use rhai::{
    Array, CustomType, Dynamic, Engine, EvalAltResult, FnPtr, NativeCallContext, Scope,
    TypeBuilder,
};
use std::cell::RefCell;
use std::rc::Rc;

#[derive(Debug)]
struct Failure(MendaxError);

impl std::fmt::Display for Failure {
    fn fmt(&self, f: &mut std::fmt::Formatter<'_>) -> std::fmt::Result {
        f.write_str(&self.0.to_string())
    }
}

impl std::error::Error for Failure {}

fn failure(e: MendaxError, ctx: &NativeCallContext) -> Box<EvalAltResult> {
    match e {
        MendaxError::MismatchedType { expecting, actual } => Box::new(
            EvalAltResult::ErrorMismatchDataType(expecting, actual, ctx.position()),
        ),
        other => Box::new(EvalAltResult::ErrorSystem(
            "mendax error".into(),
            Box::new(Failure(other)),
        )),
    }
}

#[derive(Clone)]
struct SharedLie(Rc<RefCell<Lie>>);

impl SharedLie {
    fn new(allow_system: bool) -> Self {
        Self(Rc::new(RefCell::new(Lie::new(allow_system))))
    }

    fn run_no_output(
        _ctx: NativeCallContext,
        lie: &mut Self,
        cmd: &str,
    ) -> Result<(), Box<EvalAltResult>> {
        lie.0.borrow_mut().run_no_output(cmd);
        Ok(())
    }

    fn run_short(
        _ctx: NativeCallContext,
        lie: &mut Self,
        cmd: &str,
        result: &str,
    ) -> Result<(), Box<EvalAltResult>> {
        lie.0.borrow_mut().run_short(cmd, result);
        Ok(())
    }

    fn run_long(
        _ctx: NativeCallContext,
        lie: &mut Self,
        cmd: &str,
        result: Array,
    ) -> Result<(), Box<EvalAltResult>> {
        lie.0
            .borrow_mut()
            .run_long(cmd, result.into_iter().map(|l| l.cast()).collect());
        Ok(())
    }

    fn show(_ctx: NativeCallContext, lie: &mut Self, text: &str) -> Result<(), Box<EvalAltResult>> {
        lie.0.borrow_mut().show(text);
        Ok(())
    }

    fn cd(_ctx: NativeCallContext, lie: &mut Self, dir: &str) -> Result<(), Box<EvalAltResult>> {
        lie.0.borrow_mut().cd(dir);
        Ok(())
    }

    fn system_simple(
        ctx: NativeCallContext,
        lie: &mut Self,
        cmd: &str,
    ) -> Result<(), Box<EvalAltResult>> {
        let result = lie.0.borrow_mut().system_simple(cmd);
        result.map_err(|e| failure(e, &ctx))
    }

    fn system(
        ctx: NativeCallContext,
        lie: &mut Self,
        apparent_cmd: &str,
        cmd: &str,
    ) -> Result<(), Box<EvalAltResult>> {
        let result = lie.0.borrow_mut().system(Some(apparent_cmd), cmd);
        result.map_err(|e| failure(e, &ctx))
    }

    fn screen_simple(
        ctx: NativeCallContext,
        lie: &mut Self,
        f: FnPtr,
    ) -> Result<(), Box<EvalAltResult>> {
        Self::screen_of(ctx, lie, None, f)
    }

    fn screen(
        ctx: NativeCallContext,
        lie: &mut Self,
        apparent_cmd: &str,
        f: FnPtr,
    ) -> Result<(), Box<EvalAltResult>> {
        Self::screen_of(ctx, lie, Some(apparent_cmd), f)
    }

    fn screen_of(
        ctx: NativeCallContext,
        lie: &mut Self,
        apparent_cmd: Option<&str>,
        f: FnPtr,
    ) -> Result<(), Box<EvalAltResult>> {
        let opened = lie.0.borrow_mut().open_screen(apparent_cmd);
        opened.map_err(|e| failure(e, &ctx))?;
        f.call_within_context::<()>(&ctx, (lie.clone(),))?;
        lie.0.borrow_mut().close_screen();
        Ok(())
    }

    fn look(
        ctx: NativeCallContext,
        lie: &mut Self,
        options: rhai::Map,
    ) -> Result<(), Box<EvalAltResult>> {
        let options: Vec<(String, LookValue)> = options
            .iter()
            .map(|(k, v)| (k.to_string(), look_value(v)))
            .collect();
        let result = lie.0.borrow_mut().look(&options);
        result.map_err(|e| failure(e, &ctx))
    }

    fn tag(ctx: NativeCallContext, lie: &mut Self, name: &str) -> Result<(), Box<EvalAltResult>> {
        let result = lie.0.borrow_mut().tag(name);
        result.map_err(|e| failure(e, &ctx))
    }

    fn sleep(_ctx: NativeCallContext, lie: &mut Self, millis: i64) -> Result<(), Box<EvalAltResult>> {
        lie.0.borrow_mut().sleep(millis as u64);
        Ok(())
    }

    fn stop(_ctx: NativeCallContext, lie: &mut Self) -> Result<(), Box<EvalAltResult>> {
        lie.0.borrow_mut().stop();
        Ok(())
    }

    fn enter(_ctx: NativeCallContext, lie: &mut Self, msg: &str) -> Result<(), Box<EvalAltResult>> {
        lie.0.borrow_mut().enter(msg);
        Ok(())
    }

    fn clear(_ctx: NativeCallContext, lie: &mut Self) -> Result<(), Box<EvalAltResult>> {
        lie.0.borrow_mut().clear();
        Ok(())
    }
}

fn look_value(v: &Dynamic) -> LookValue {
    if let Some(number) = v.clone().try_cast::<f64>() {
        LookValue::Number(speed(number))
    } else if let Some(text) = v.clone().try_cast::<String>() {
        LookValue::Text(text)
    } else if let Some(flag) = v.clone().try_cast::<bool>() {
        LookValue::Flag(flag)
    } else if v.is_int() {
        LookValue::Other("i64".into())
    } else if v.is_array() {
        LookValue::Other("array".into())
    } else if v.is_map() {
        LookValue::Other("map".into())
    } else {
        LookValue::Other("()".into())
    }
}

fn speed(number: f64) -> Speed {
    Speed::parse(&number.to_string()).unwrap()
}

impl CustomType for SharedLie {
    fn build(mut builder: TypeBuilder<Self>) {
        builder
            .with_name("Lie")
            .with_fn("run", Self::run_no_output)
            .with_fn("run", Self::run_short)
            .with_fn("run", Self::run_long)
            .with_fn("show", Self::show)
            .with_fn("cd", Self::cd)
            .with_fn("system", Self::system_simple)
            .with_fn("system", Self::system)
            .with_fn("screen", Self::screen_simple)
            .with_fn("screen", Self::screen)
            .with_fn("look", Self::look)
            .with_fn("tag", Self::tag)
            .with_fn("sleep", Self::sleep)
            .with_fn("stop", Self::stop)
            .with_fn("enter", Self::enter)
            .with_fn("clear", Self::clear);
    }
}

fn scripting(unrestricted: bool) -> Engine {
    let mut scripting = Engine::new();
    scripting.build_type::<SharedLie>();
    let sandbox = engine(unrestricted);
    if let Some(limits) = sandbox.limits {
        scripting.set_max_array_size(limits.max_array_size);
        scripting.set_max_call_levels(limits.max_call_levels);
        scripting.set_max_expr_depths(limits.max_expr_depth, limits.max_function_expr_depth);
        scripting.set_max_map_size(limits.max_map_size);
        scripting.set_max_operations(limits.max_operations);
        scripting.set_max_string_size(limits.max_string_size);
    }
    scripting.set_strict_variables(sandbox.strict_variables);
    scripting.set_fail_on_invalid_map_property(sandbox.fail_on_invalid_map_property);
    scripting
}

fn test_script(unrestricted: bool, script: &str) -> Result<Lie, Box<EvalAltResult>> {
    let scripting = scripting(unrestricted);
    let mut scope = Scope::new();
    scope.push("lie", SharedLie::new(unrestricted));
    let ast = scripting.compile_with_scope(&scope, script)?;
    scripting.run_ast_with_scope(&mut scope, &ast)?;
    let shared = scope.get_value::<SharedLie>("lie").unwrap();
    let lie = shared.0.replace(Lie::new(unrestricted));
    Ok(lie)
}

fn script_error(unrestricted: bool, script: &str) -> String {
    match test_script(unrestricted, script) {
        Ok(_) => panic!("the script was accepted"),
        Err(e) => e.to_string(),
    }
}

fn run_fibs() -> Vec<Fib> {
    vec![
        Fib::Run {
            cmd: "foo".into(),
            result: vec![],
        },
        Fib::Run {
            cmd: "bar".into(),
            result: vec!["qwer".into()],
        },
        Fib::Run {
            cmd: "baz".into(),
            result: vec!["asdf".into(), "fdsa".into()],
        },
    ]
}

const RUN_SCRIPT: &str = r#"
                lie.run("foo");
                lie.run("bar", "qwer");
                lie.run("baz", ["asdf", "fdsa"]);
            "#;

#[test]
fn lie_run() {
    let lie = test_script(false, RUN_SCRIPT).unwrap();
    assert_eq!(lie.fibs(), &run_fibs()[..]);
}

#[test]
fn config_run() {
    let lie = test_script(false, RUN_SCRIPT).unwrap();
    assert_eq!(lie.into_fibs(), run_fibs());
}

#[test]
fn lie_show() {
    let lie = test_script(
        true,
        r#"
                lie.show("foobar");
            "#,
    )
    .unwrap();
    assert_eq!(
        lie.fibs(),
        &[Fib::Show {
            text: "foobar".into()
        }]
    );
}

#[test]
fn config_show() {
    let lie = test_script(
        true,
        r#"
                lie.show("foobar");
            "#,
    )
    .unwrap();
    assert_eq!(
        lie.into_fibs(),
        vec![Fib::Show {
            text: "foobar".into()
        }]
    );
}

fn cd_fibs() -> Vec<Fib> {
    vec![
        Fib::Run {
            cmd: "cd /foo/bar".into(),
            result: vec![],
        },
        Fib::Look {
            cwd: Some("/foo/bar".into()),
            speed: None,
            title: None,
            user: None,
            host: None,
            final_prompt: None,
        },
    ]
}

#[test]
fn lie_cd() {
    let lie = test_script(
        true,
        r#"
                lie.cd("/foo/bar");
            "#,
    )
    .unwrap();
    assert_eq!(lie.fibs(), &cd_fibs()[..]);
}

#[test]
fn config_cd() {
    let lie = test_script(
        true,
        r#"
                lie.cd("/foo/bar");
            "#,
    )
    .unwrap();
    assert_eq!(lie.into_fibs(), cd_fibs());
}

fn check_system() {
    {
        let lie = test_script(
            true,
            r#"
                    lie.system("ls");
                    lie.system("la", "ls -Al");
                "#,
        )
        .unwrap();

        assert_eq!(
            lie.fibs(),
            &[
                Fib::System {
                    cmd: "ls".into(),
                    apparent_cmd: None,
                },
                Fib::System {
                    cmd: "ls -Al".into(),
                    apparent_cmd: Some("la".into()),
                },
            ]
        );
    }

    {
        match test_script(false, r#"lie.system("foo");"#) {
            Err(e) => assert_eq!(
                e.to_string(),
                "mendax error: system calls are forbidden at this sandbox level"
            ),
            _ => assert!(false, "system was allowed"),
        }
    }
}

#[test]
fn lie_system() {
    check_system();
}

#[test]
fn config_system() {
    check_system();
}

fn check_screen() {
    {
        assert_eq!(
            test_script(
                true,
                r#"
                        lie.screen(|lie| {
                            lie.system("ls", "sudo ls /root");
                        });
                    "#,
            )
            .unwrap()
            .fibs(),
            &[Fib::Screen {
                apparent_cmd: None,
                fibs: vec![Fib::System {
                    cmd: "sudo ls /root".into(),
                    apparent_cmd: Some("ls".into()),
                }]
            }]
        );

        assert_eq!(
            script_error(
                false,
                r#"
                        lie.screen(|lie| {
                            lie.system("ls", "sudo ls /root");
                        });
                    "#,
            ),
            "mendax error: system calls are forbidden at this sandbox level",
        );
    }

    {
        assert_eq!(
            test_script(
                true,
                r#"
                        lie.screen("man foo", |lie| {
                            lie.system("ls", "sudo ls /root");
                        });
                    "#,
            )
            .unwrap()
            .fibs(),
            &[Fib::Screen {
                apparent_cmd: Some("man foo".into()),
                fibs: vec![Fib::System {
                    cmd: "sudo ls /root".into(),
                    apparent_cmd: Some("ls".into()),
                }]
            }]
        );

        assert_eq!(
            script_error(
                false,
                r#"
                        lie.screen("man foo", |lie| {
                            lie.system("ls", "sudo ls /root");
                        });
                    "#,
            ),
            "mendax error: system calls are forbidden at this sandbox level",
        );
    }
}

#[test]
fn lie_screen() {
    check_screen();
}

#[test]
fn config_screen() {
    check_screen();
}

fn check_tag() {
    assert_eq!(
        test_script(false, r#"lie.tag("foo")"#).unwrap().fibs(),
        &[Fib::Tag { name: "foo".into() }],
    );

    assert_eq!(
        script_error(
            false,
            r#"
                    lie.tag("foo");
                    lie.tag("foo");
                "#,
        ),
        "mendax error: tag 'foo' defined multiple times",
    );

    assert_eq!(
        script_error(
            false,
            r#"
                    lie.tag("foo");
                    lie.screen(|lie| {
                        lie.tag("foo");
                    });
                "#,
        ),
        "mendax error: tag 'foo' defined multiple times",
    );

    assert_eq!(
        script_error(
            false,
            r#"
                    lie.screen(|lie| {
                        lie.tag("foo");
                    });
                    lie.tag("foo");
                "#,
        ),
        "mendax error: tag 'foo' defined multiple times",
    );
}

#[test]
fn lie_tag() {
    check_tag();

    assert_eq!(
        script_error(
            false,
            r#"
                    lie.tag("!")
                "#,
        ),
        "mendax error: tag '!' is reserved",
    );

    assert_eq!(
        script_error(
            false,
            r#"
                    lie.tag("?")
                "#,
        ),
        "mendax error: tag '?' is reserved",
    );
}

#[test]
fn config_tag() {
    check_tag();
}

fn check_look() {
    assert_eq!(
        test_script(false, r#"lie.look(#{});"#).unwrap().fibs(),
        &[Fib::Look {
            speed: None,
            title: None,
            cwd: None,
            host: None,
            user: None,
            final_prompt: None,
        }],
    );

    assert_eq!(
        test_script(
            false,
            r#"
                    lie.look(#{
                        speed: 100.0,
                        title: "on the origin of electric toasters",
                        cwd: "~/toast",
                        user: "methos",
                        host: "gaia",
                        final_prompt: false,
                    });
                "#
        )
        .unwrap()
        .fibs(),
        &[Fib::Look {
            speed: Some(speed(100.0)),
            title: Some("on the origin of electric toasters".into()),
            cwd: Some("~/toast".into()),
            host: Some("gaia".into()),
            user: Some("methos".into()),
            final_prompt: Some(false),
        }]
    );
}

#[test]
fn lie_look() {
    check_look();

    assert_eq!(
        script_error(false, r#"lie.look(#{speed: "speedy"});"#),
        "Data type incorrect: string (expecting f64) (line 1, position 5)"
    );
}

#[test]
fn config_look() {
    check_look();
}

#[test]
fn sleep() {
    assert_eq!(
        test_script(false, r#"lie.sleep(250)"#).unwrap().fibs(),
        &[Fib::Sleep { millis: 250 }]
    );
}

#[test]
fn stop() {
    assert_eq!(
        test_script(false, r#"lie.stop(); lie.clear()"#)
            .unwrap()
            .fibs(),
        &[Fib::Stop, Fib::Clear]
    );
}

#[test]
fn lie_clear() {
    assert_eq!(
        test_script(false, r#"lie.clear()"#).unwrap().fibs(),
        &[Fib::Clear]
    );
}

#[test]
fn config_clear() {
    assert_eq!(
        test_script(false, r#"lie.clear()"#).unwrap().into_fibs(),
        vec![Fib::Clear]
    );
}

#[test]
fn lie_file_extension_optional() {
    let script = r#"lie.show("hello");"#;
    let exact = get_src("tester.rhai", Some(script.to_string()), None).unwrap();
    assert!(test_script(false, &exact).is_ok());
    let inferred = get_src("tester", None, Some(script.to_string())).unwrap();
    assert!(test_script(false, &inferred).is_ok());
}

#[test]
fn lie_ambiguous_files_rejected() {
    let script = r#"lie.show("asdf")"#;
    let err = get_src("test-lie", Some(script.to_string()), Some(script.to_string())).unwrap_err();
    let err_string = format!("mendax error: {}", err.to_string());
    assert!(
        err_string.starts_with("mendax error: ambiguous source: both ")
            && err_string.contains(" and ")
            && err_string.ends_with(" exist"),
        "unexpected error: {err_string}"
    );
    assert_eq!(
        err,
        MendaxError::AmbiguousSource {
            f1: "test-lie".into(),
            f2: "test-lie.rhai".into()
        }
    );
}

const ALL_LINES: &str = r#"$ echo foo
$ echo asdf
# asdf
$ echo asdf
# a
# s
# d
# f
# foo
$ cd /root
(look: cwd=/root)
! ls
! ls (secretly calls: dir)
(sleep) 100ms
(STOP)
(enter) asdf
(screen)
    $ echo foo
    $ echo asdf
    # asdf
    $ echo asdf
    # a
    # s
    # d
    # f
    # foo
    $ cd /root
    (look: cwd=/root)
    ! ls
    ! ls (secretly calls: dir)
    (sleep) 100ms
    (STOP)
    (enter) asdf
$ man foo
(screen)
    $ echo foo
    $ echo asdf
    # asdf
    $ echo asdf
    # a
    # s
    # d
    # f
    # foo
    $ cd /root
    (look: cwd=/root)
    ! ls
    ! ls (secretly calls: dir)
    (sleep) 100ms
    (STOP)
    (enter) asdf"#;

#[test]
fn all() {
    assert_eq!(
        test_script(
            true,
            r#"
                    fn populate(lie) {
                        lie.run("echo foo");
                        lie.run("echo asdf", "asdf");
                        lie.run("echo asdf", ["a", "s", "d", "f"]);
                        lie.show("foo");
                        lie.cd("/root");
                        lie.system("ls");
                        lie.system("ls", "dir");
                        lie.sleep(100);
                        lie.stop();
                        lie.enter("asdf");
                    }
                    populate(lie);
                    lie.screen(|lie| {
                        populate(lie);
                    });
                    lie.screen("man foo", |lie| {
                        populate(lie);
                    });
                "#
        )
        .unwrap()
        .dry_run(),
        ALL_LINES,
    );
}

#[test]
fn screen_in_screen_is_refused_by_the_script() {
    assert_eq!(
        script_error(
            true,
            r#"
                lie.show("before");
                lie.screen(|lie| {
                    lie.screen(|lie| {
                        lie.show("deep");
                    });
                });
            "#,
        ),
        "mendax error: cannot nest screens",
    );
}

#[test]
fn unknown_look_option_names_the_options() {
    assert_eq!(
        script_error(false, r#"lie.look(#{colour: "red"});"#),
        "mendax error: unknown field \"colour\", expected one of: cwd, final_prompt, host, speed, title, user",
    );
}

#[test]
fn type_names_are_those_of_the_scripts() {
    assert_eq!(
        script_error(false, r#"lie.look(#{title: 1.5});"#),
        "Data type incorrect: f64 (expecting string) (line 1, position 5)"
    );
    assert_eq!(
        script_error(false, r#"lie.look(#{cwd: true});"#),
        "Data type incorrect: bool (expecting string) (line 1, position 5)"
    );
    assert_eq!(
        script_error(false, r#"lie.look(#{speed: 3});"#),
        "Data type incorrect: i64 (expecting f64) (line 1, position 5)"
    );
    assert_eq!(
        script_error(false, r#"lie.look(#{final_prompt: "yes"});"#),
        "Data type incorrect: string (expecting string) (line 1, position 5)"
    );
}

const EXAMPLE: &str = r#"lie.look(#{ title: "legit demo" });

lie.run("echo Hello, world", "Hello, world\n");
lie.run("echo 'All of this is fake'", "All of this is fake\n");

lie.cd("~");

lie.run("ls -A1", [
    ".bash_history\n",
    ".bashrc\n",
    ".cargo\n",
    ".rustup\n",
    ".vimrc\n",
    ".zshrc\n",
    "Desktop\n",
    "Documents\n",
    "Downloads\n",
    "snap\n",
]);
"#;

#[test]
fn valid() {
    let example = get_src("foo.rhai", Some(EXAMPLE.to_string()), None).unwrap();
    let result = test_script(false, &example);
    assert!(
        result.is_ok(),
        "unexpected error: {}",
        result.err().unwrap()
    );
    assert_eq!(result.unwrap().fibs().len(), 6);
}
