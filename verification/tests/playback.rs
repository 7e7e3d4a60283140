//! The playback engine, driven without a terminal.

use mendax::lie::Lie;
use mendax::speed::Speed;
use mendax::tale::{Step, Tale};
use mendax::tell::{intent, Action, Event, Intent, Mode, Telling};
use std::collections::VecDeque;

/// A driver that answers the engine from a script of operator input and
/// keeps what it was asked to do.
struct Stage {
    telling: Telling,
    input: VecDeque<Event>,
    ran: Vec<(String, bool)>,
    shown: Vec<Action>,
    end: Option<Action>,
}

fn output_of(cmd: &str, times: usize) -> Vec<u8> {
    format!("{cmd} #{times}\nend").into_bytes()
}

impl Stage {
    fn new(tale: Tale, input: Vec<Event>) -> Stage {
        Stage {
            telling: Telling::new(tale),
            input: input.into(),
            ran: vec![],
            shown: vec![],
            end: None,
        }
    }

    /// Plays until the playback ends or the operator's input runs out.
    fn play(&mut self) {
        let mut event = Event::Resume;
        for _ in 0..10_000 {
            let action = self.telling.step(event);
            event = match action {
                Action::Continue => Event::Resume,
                Action::Ignored => panic!("the engine ignored an event"),
                Action::AwaitKey | Action::AskTag(_) => {
                    if let Action::AskTag(_) = &action {
                        self.shown.push(action);
                    }
                    match self.input.pop_front() {
                        Some(next) => next,
                        None => return,
                    }
                }
                Action::Execute { cmd, live } => {
                    let times = self.ran.iter().filter(|(c, _)| *c == cmd).count();
                    let output = output_of(&cmd, times);
                    self.ran.push((cmd, live));
                    Event::Output(output)
                }
                Action::Finished | Action::Interrupted => {
                    self.end = Some(action);
                    return;
                }
                other => {
                    self.shown.push(other);
                    Event::Resume
                }
            };
        }
        panic!("the playback does not end");
    }

    fn replays(&self) -> Vec<&Action> {
        self.shown
            .iter()
            .filter(|a| matches!(a, Action::Replay { .. }))
            .collect()
    }
}

fn any_key() -> Event {
    Event::Key {
        code: Some(' '),
        control: false,
    }
}

fn key(c: char) -> Event {
    Event::Key {
        code: Some(c),
        control: false,
    }
}

fn jump(tag: &str) -> Vec<Event> {
    vec![key('/'), Event::Line(format!("{tag}\n"))]
}

/// before, a tag, one command, a tag, a line, a tag.
fn one_command() -> Tale {
    let mut lie = Lie::new(true);
    lie.tag("before").unwrap();
    lie.show("first");
    lie.system_simple("date").unwrap();
    lie.tag("after").unwrap();
    lie.show("last");
    lie.tag("end").unwrap();
    Tale::from(lie)
}

#[test]
fn a_command_runs_once_however_the_operator_jumps() {
    // forward past the command, back before it and through it again, back
    // once more, and forward past it with a jump
    let mut input = vec![any_key(), any_key()];
    input.extend(jump("before"));
    input.extend(vec![any_key(), any_key()]);
    input.extend(jump("before"));
    input.push(any_key());
    input.extend(jump("after"));
    input.push(any_key());
    let mut stage = Stage::new(one_command(), input);
    stage.play();

    assert_eq!(stage.end, Some(Action::Finished));
    assert_eq!(stage.ran, vec![("date".to_string(), true)]);
    assert_eq!(
        stage.replays(),
        vec![&Action::Replay {
            output: b"date #0\r\nend".to_vec(),
            newline: true
        }]
    );
    let entry = stage.telling.cached(0).unwrap();
    assert_eq!(entry.output(), Some(&b"date #0\nend"[..]));
    assert!(entry.requires_newline());
    assert!(stage.telling.cached(1).is_none());
}

#[test]
fn the_first_showing_is_live_and_marked() {
    let mut stage = Stage::new(one_command(), vec![any_key(), any_key()]);
    stage.play();
    assert_eq!(stage.ran, vec![("date".to_string(), true)]);
    assert!(stage.shown.contains(&Action::Streamed { marker: true }));
    assert!(stage.replays().is_empty());
}

#[test]
fn a_jump_forward_runs_the_commands_it_passes() {
    let mut lie = Lie::new(true);
    lie.show("start");
    lie.system_simple("one").unwrap();
    lie.open_screen(None).unwrap();
    lie.system(Some("2"), "two").unwrap();
    lie.close_screen();
    lie.tag("far").unwrap();
    lie.system_simple("three").unwrap();
    lie.tag("home").unwrap();
    let tale = Tale::from(lie);

    // the first pause belongs to the first command: jump from there
    let mut input = jump("far");
    // type and run the third command
    input.extend(vec![any_key(), any_key()]);
    // the idle prompt at the end: go back to the start and through it all
    input.extend(jump("far"));
    input.extend(vec![any_key(), any_key()]);
    let mut stage = Stage::new(tale, input);
    stage.play();

    assert_eq!(
        stage.ran,
        vec![
            ("one".to_string(), false),
            ("two".to_string(), false),
            ("three".to_string(), true)
        ]
    );
    assert_eq!(
        stage.replays(),
        vec![&Action::Replay {
            output: b"three #0\r\nend".to_vec(),
            newline: true
        }]
    );
    assert_eq!(
        stage.telling.cached(0).unwrap().output(),
        Some(&b"one #0\nend"[..])
    );
    assert_eq!(
        stage.telling.cached(1).unwrap().output(),
        Some(&b"two #0\nend"[..])
    );
}

#[test]
fn a_jump_back_runs_nothing() {
    let mut input = vec![any_key(), any_key()];
    input.extend(jump("before"));
    let mut stage = Stage::new(one_command(), input);
    stage.play();
    assert_eq!(stage.ran, vec![("date".to_string(), true)]);
    assert!(stage.replays().is_empty());
    assert_eq!(stage.telling.high_water(), 13);
    assert_eq!(stage.telling.pc(), 3);
    assert_eq!(stage.telling.mode(), Mode::AwaitingKey);
}

#[test]
fn a_jump_to_the_end_ends_the_playback() {
    let mut lie = Lie::new(true);
    lie.show("first");
    lie.enter("y");
    lie.system_simple("date").unwrap();
    lie.tag("end").unwrap();
    lie.look(&vec![(
        "final_prompt".to_string(),
        mendax::lie::LookValue::Flag(false),
    )])
    .unwrap();
    let tale = Tale::from(lie);
    assert_eq!(tale.tags().get("end"), Some(tale.steps().len()));
    let mut stage = Stage::new(tale, jump("end"));
    stage.play();
    assert_eq!(stage.end, Some(Action::Finished));
    assert_eq!(stage.ran, vec![("date".to_string(), false)]);
}

#[test]
fn the_keys_of_a_pause() {
    assert_eq!(intent(Some('c'), true), Intent::Interrupt);
    assert_eq!(intent(Some('c'), false), Intent::Advance);
    assert_eq!(intent(Some('h'), false), Intent::Help);
    assert_eq!(intent(Some('h'), true), Intent::Help);
    assert_eq!(intent(Some('?'), false), Intent::Help);
    assert_eq!(intent(Some('!'), false), Intent::Exit);
    assert_eq!(intent(Some('d'), true), Intent::Exit);
    assert_eq!(intent(Some('d'), false), Intent::Advance);
    assert_eq!(intent(Some('/'), false), Intent::Jump);
    assert_eq!(intent(Some('x'), false), Intent::Advance);
    assert_eq!(intent(None, false), Intent::Advance);
    assert_eq!(intent(None, true), Intent::Advance);
}

#[test]
fn an_interrupt_aborts_the_playback() {
    let mut stage = Stage::new(
        one_command(),
        vec![Event::Key {
            code: Some('c'),
            control: true,
        }],
    );
    stage.play();
    assert_eq!(stage.end, Some(Action::Interrupted));
    assert_eq!(stage.telling.mode(), Mode::Exited { interrupted: true });
    assert_eq!(
        stage.telling.outcome(),
        Some(Err(mendax::MendaxError::KeyboardInterrupt))
    );
    assert_eq!(stage.telling.step(Event::Resume), Action::Interrupted);
    assert_eq!(stage.telling.step(any_key()), Action::Ignored);
    assert!(stage.ran.is_empty());
}

#[test]
fn the_operator_can_leave_early() {
    for leave in [
        key('!'),
        Event::Key {
            code: Some('d'),
            control: true,
        },
    ] {
        let mut stage = Stage::new(one_command(), vec![leave]);
        stage.play();
        assert_eq!(stage.end, Some(Action::Finished));
        assert_eq!(stage.telling.mode(), Mode::Exited { interrupted: false });
        assert_eq!(stage.telling.outcome(), Some(Ok(())));
        assert_eq!(stage.telling.pc(), 3);
        assert!(stage.ran.is_empty());
    }
}

const HELP: &str =
    "mendax: press '/' to jump to a tag, '!' to exit, 'h' or '?' to show this help\r\n";

#[test]
fn help_is_shown_and_the_pause_goes_on() {
    let mut stage = Stage::new(one_command(), vec![key('h'), key('?'), Event::Other]);
    stage.play();
    assert_eq!(stage.end, None);
    assert_eq!(stage.telling.pc(), 3);
    assert_eq!(stage.telling.mode(), Mode::AwaitingKey);
    let said: Vec<&Action> = stage
        .shown
        .iter()
        .filter(|a| matches!(a, Action::Say(_)))
        .collect();
    assert_eq!(
        said,
        vec![
            &Action::Say(format!("\r\n{HELP}")),
            &Action::Say(HELP.to_string())
        ]
    );
}

#[test]
fn the_jump_prompt_asks_until_it_gets_a_tag() {
    let mut stage = Stage::new(
        one_command(),
        vec![
            key('/'),
            Event::Line("nowhere\n".into()),
            Event::Line("?\n".into()),
            Event::Line("  end  \n".into()),
        ],
    );
    stage.play();
    let asked: Vec<&Action> = stage
        .shown
        .iter()
        .filter(|a| matches!(a, Action::AskTag(_) | Action::ListTags | Action::Say(_)))
        .collect();
    assert_eq!(
        asked,
        vec![
            &Action::AskTag("\r\nmendax: enter tag: ".into()),
            &Action::AskTag("mendax: tag incorrect; enter tag or '?' to list available: ".into()),
            &Action::ListTags,
            &Action::AskTag("mendax: tag incorrect; enter tag or '?' to list available: ".into()),
        ]
    );
    // the jump passed the command and landed on the idle prompt
    assert_eq!(stage.ran, vec![("date".to_string(), false)]);
    assert_eq!(stage.telling.tale().tag_names(), vec!["after", "before", "end"]);
    assert_eq!(stage.telling.mode(), Mode::AwaitingKey);
    assert_eq!(stage.telling.pc(), 12);
}

#[test]
fn an_empty_line_gives_the_jump_up() {
    let mut stage = Stage::new(
        one_command(),
        vec![key('h'), key('/'), Event::Line("  \n".into())],
    );
    stage.play();
    assert_eq!(stage.telling.mode(), Mode::AwaitingKey);
    assert_eq!(stage.telling.pc(), 3);
    assert_eq!(
        stage.shown.last(),
        Some(&Action::Say("mendax: jump cancelled\r\n".into()))
    );
    assert!(stage
        .shown
        .contains(&Action::AskTag("mendax: enter tag: ".into())));
}

#[test]
fn stop_ends_the_playback_without_the_idle_prompt() {
    let mut lie = Lie::new(false);
    lie.show("one");
    lie.stop();
    lie.show("never");
    let mut stage = Stage::new(Tale::from(lie), vec![]);
    stage.play();
    assert_eq!(stage.end, Some(Action::Finished));
    assert_eq!(stage.shown, vec![Action::Show("one".into())]);
    assert_eq!(stage.telling.pc(), 1);
}

#[test]
fn the_looks_change_as_the_steps_say() {
    let mut lie = Lie::new(false);
    lie.enter("slow");
    lie.look(&vec![
        (
            "speed".to_string(),
            mendax::lie::LookValue::Number(Speed::parse("0").unwrap()),
        ),
        (
            "title".to_string(),
            mendax::lie::LookValue::Text("demo".into()),
        ),
        (
            "user".to_string(),
            mendax::lie::LookValue::Text("root".into()),
        ),
        (
            "host".to_string(),
            mendax::lie::LookValue::Text("box".into()),
        ),
    ])
    .unwrap();
    lie.cd("/etc");
    let mut stage = Stage::new(Tale::from(lie), vec![any_key(), any_key()]);
    assert_eq!(stage.telling.style().plain_ps1(), "ubuntu@ubuntu:~$ ");
    stage.play();
    assert_eq!(
        stage.shown,
        vec![
            Action::Type {
                text: "slow".into(),
                speed: Speed::parse("0.04").unwrap()
            },
            Action::Show("".into()),
            Action::SetTitle("demo".into()),
            Action::Ps1,
            Action::ShowCursor,
            Action::Type {
                text: "cd /etc".into(),
                speed: Speed::parse("0").unwrap()
            },
        ]
    );
    let style = stage.telling.style();
    assert_eq!(style.user(), "root");
    assert_eq!(style.host(), "box");
    assert_eq!(style.cwd(), "~");
    assert!(style.speed().is_zero());
    stage.input.extend(vec![any_key(), any_key()]);
    stage.play();
    assert_eq!(stage.telling.style().cwd(), "/etc");
    assert_eq!(stage.telling.style().plain_ps1(), "root@box:/etc$ ");
}

#[test]
fn the_alternate_screen_is_tracked() {
    let mut lie = Lie::new(false);
    lie.open_screen(None).unwrap();
    lie.show("inside");
    lie.close_screen();
    let tale = Tale::from(lie);
    assert_eq!(tale.steps()[0], Step::ScreenOpen);
    let mut stage = Stage::new(tale, vec![]);
    assert!(!stage.telling.in_screen());
    stage.play();
    assert!(stage.telling.in_screen());
    assert_eq!(stage.telling.pc(), 3);
    stage.input.push_back(any_key());
    stage.play();
    assert!(!stage.telling.in_screen());
    assert_eq!(
        stage.shown,
        vec![
            Action::ScreenOpen,
            Action::Show("inside".into()),
            Action::ShowCursor,
            Action::ScreenClose,
            Action::Ps1,
            Action::ShowCursor,
        ]
    );
}

#[test]
fn events_that_do_not_fit_are_ignored() {
    let mut telling = Telling::new(one_command());
    assert_eq!(telling.step(any_key()), Action::Ignored);
    assert_eq!(telling.step(Event::Other), Action::Ignored);
    assert_eq!(telling.step(Event::Line("end".into())), Action::Ignored);
    assert_eq!(telling.step(Event::Output(vec![1])), Action::Ignored);
    assert_eq!(telling.pc(), 0);
    assert_eq!(telling.mode(), Mode::Running);
    assert_eq!(telling.step(Event::Resume), Action::Show("first".into()));
    assert_eq!(telling.step(Event::Resume), Action::ShowCursor);
    assert_eq!(telling.step(Event::Resume), Action::Ps1);
    assert_eq!(telling.step(Event::Resume), Action::AwaitKey);
    assert_eq!(telling.step(Event::Resume), Action::AwaitKey);
    assert_eq!(telling.step(Event::Output(vec![1])), Action::Ignored);
    assert_eq!(telling.step(any_key()), Action::Continue);
    assert_eq!(
        telling.step(Event::Resume),
        Action::Type {
            text: "date".into(),
            speed: Speed::standard()
        }
    );
    assert_eq!(telling.step(Event::Resume), Action::AwaitKey);
    assert_eq!(telling.step(any_key()), Action::Continue);
    assert_eq!(telling.step(Event::Resume), Action::Show("".into()));
    assert_eq!(telling.step(Event::Resume), Action::HideCursor);
    assert_eq!(
        telling.step(Event::Resume),
        Action::Execute {
            cmd: "date".into(),
            live: true
        }
    );
    // while the command runs nothing else counts
    assert_eq!(telling.step(Event::Resume), Action::Ignored);
    assert_eq!(telling.step(any_key()), Action::Ignored);
    assert_eq!(telling.mode(), Mode::Streaming { id: 0 });
    assert_eq!(
        telling.step(Event::Output(b"Mon\n".to_vec())),
        Action::Streamed { marker: false }
    );
    // a second output for the same command changes nothing
    assert_eq!(telling.step(Event::Output(b"Tue".to_vec())), Action::Ignored);
    assert_eq!(
        telling.cached(0).unwrap().output(),
        Some(&b"Mon\n"[..])
    );
    assert!(!telling.cached(0).unwrap().requires_newline());
}

#[test]
fn sleeping_and_clearing_are_handed_to_the_driver() {
    let mut lie = Lie::new(false);
    lie.sleep(1500);
    lie.clear();
    lie.stop();
    let mut stage = Stage::new(Tale::from(lie), vec![]);
    stage.play();
    assert_eq!(stage.shown, vec![Action::Sleep(1500), Action::Clear]);
}

#[test]
fn jumps_in_both_directions_run_nothing_twice() {
    let mut lie = Lie::new(true);
    lie.tag("start").unwrap();
    lie.system_simple("one").unwrap();
    lie.tag("middle").unwrap();
    lie.system_simple("two").unwrap();
    lie.tag("end").unwrap();
    let tale = Tale::from(lie);

    // through the first command
    let mut input = vec![any_key(), any_key()];
    // at the first pause of the second command: back to the start
    input.extend(jump("start"));
    // at the first pause of the first command: forward to the end
    input.extend(jump("end"));
    // at the idle prompt: back to the start and through both commands
    input.extend(jump("start"));
    input.extend(vec![any_key(), any_key(), any_key(), any_key()]);
    let mut stage = Stage::new(tale, input);
    stage.play();

    assert_eq!(
        stage.ran,
        vec![("one".to_string(), true), ("two".to_string(), false)]
    );
    assert_eq!(
        stage.replays(),
        vec![
            &Action::Replay {
                output: b"one #0\r\nend".to_vec(),
                newline: true
            },
            &Action::Replay {
                output: b"two #0\r\nend".to_vec(),
                newline: true
            }
        ]
    );
}

#[test]
fn a_tale_starts_its_own_telling() {
    let mut telling = one_command().tell();
    assert_eq!(telling.pc(), 0);
    assert_eq!(telling.outcome(), None);
    assert_eq!(telling.high_water(), 0);
    assert_eq!(telling.mode(), Mode::Running);
    assert!(!telling.in_screen());
    assert_eq!(telling.tale().num_systems(), 1);
    assert_eq!(telling.cached(0).unwrap().output(), None);
    assert_eq!(telling.step(Event::Resume), Action::Show("first".into()));
}
