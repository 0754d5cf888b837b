//! End-to-end scenarios with key-driven modes: a title screen that can push
//! a pause overlay, quit outright, or count key presses in the shared state.

use mode_stack::prelude::PointerPos;
use mode_stack::prelude::RunControl;
use mode_stack::prelude::State;
use mode_stack::prelude::StateMachine;
use mode_stack::prelude::Surface;
use mode_stack::prelude::TickInput;
use mode_stack::prelude::Transition;
use mode_stack::prelude::TransitionControl;

const KEY_ESCAPE: u32 = 1;
const KEY_SPACE: u32 = 2;
const KEY_UP: u32 = 3;
const KEY_DOWN: u32 = 4;

/// A terminal that carries one simulated key per tick and records drawing.
struct Term {
    key: Option<u32>,
    log: Vec<String>,
}

impl Term {
    fn new() -> Term {
        Term { key: None, log: Vec::new() }
    }
}

impl Surface for Term {
    type PresentError = String;

    fn present(&mut self) -> Result<(), String> {
        self.log.push(String::from("present"));
        Ok(())
    }
}

#[derive(Debug, Clone, Copy, PartialEq, Eq)]
enum PausedResult {
    Resume,
}

/// The game's shared state: a counter the title screen edits, plus a record
/// of every pop result the title screen has been handed.
struct Game {
    num: i32,
    title_saw: Vec<Option<PausedResult>>,
}

enum GameMode {
    Title,
    Paused,
}

impl State for GameMode {
    type Term = Term;
    type State = Game;
    type StateResult = PausedResult;

    fn update(
        &mut self,
        term: &mut Term,
        state: &mut Game,
        pop_result: &Option<PausedResult>,
        _dt_ms: u64,
    ) -> (Transition<GameMode, PausedResult>, TransitionControl) {
        match self {
            GameMode::Title => {
                state.title_saw.push(*pop_result);
                match term.key {
                    Some(KEY_ESCAPE) => (Transition::Terminate, TransitionControl::Update),
                    Some(KEY_SPACE) => {
                        (Transition::Push(GameMode::Paused), TransitionControl::Update)
                    }
                    Some(KEY_UP) => {
                        state.num += 1;
                        (Transition::Stay, TransitionControl::Update)
                    }
                    Some(KEY_DOWN) => {
                        state.num -= 1;
                        (Transition::Stay, TransitionControl::Update)
                    }
                    _ => (Transition::Stay, TransitionControl::Update),
                }
            }
            GameMode::Paused => match term.key {
                Some(KEY_SPACE) => (
                    Transition::Pop(PausedResult::Resume),
                    TransitionControl::Update,
                ),
                _ => (Transition::Stay, TransitionControl::Update),
            },
        }
    }

    fn render(&self, term: &mut Term, _state: &Game, active: bool) {
        let name = match self {
            GameMode::Title => "Title",
            GameMode::Paused => "Paused",
        };
        term.log.push(format!("render {} active={}", name, active));
    }

    fn clear(&self, _state: &Game, term: &mut Term) {
        term.log.push(String::from("clear"));
    }

    fn is_transparent(&self) -> bool {
        true
    }
}

fn new_game() -> Game {
    Game { num: 0, title_saw: Vec::new() }
}

fn key_tick(
    machine: &mut StateMachine<GameMode>,
    term: &mut Term,
    key: Option<u32>,
) -> Result<RunControl, String> {
    term.key = key;
    let input = TickInput {
        key_pressed: key.is_some(),
        left_click: false,
        pointer: PointerPos { x: 0, y: 0 },
        dt_ms: 16,
    };
    let r = machine.tick(term, input);
    term.key = None;
    r
}

#[test]
fn escape_from_title_terminates() {
    let mut term = Term::new();
    let mut machine = StateMachine::new(new_game(), GameMode::Title);
    let r = key_tick(&mut machine, &mut term, Some(KEY_ESCAPE)).unwrap();
    assert_eq!(r, RunControl::Quit);
    assert_eq!(machine.num_modes(), 0);
    assert!(machine.is_finished());
}

#[test]
fn space_from_title_pushes_paused() {
    let mut term = Term::new();
    let mut machine = StateMachine::new(new_game(), GameMode::Title);
    let r = key_tick(&mut machine, &mut term, Some(KEY_SPACE)).unwrap();
    assert_eq!(r, RunControl::Update);
    assert_eq!(machine.num_modes(), 2);
    // The pause overlay is transparent, but Title sits at index 0, which is
    // never layered beneath the top: only Paused is drawn.
    let drawn: Vec<&str> =
        term.log.iter().map(|s| s.as_str()).filter(|s| s.starts_with("render")).collect();
    assert_eq!(drawn, vec!["render Paused active=true"]);
}

#[test]
fn space_from_paused_pops_resume_delivered_once() {
    let mut term = Term::new();
    let mut machine = StateMachine::new(new_game(), GameMode::Title);
    key_tick(&mut machine, &mut term, Some(KEY_SPACE)).unwrap(); // push Paused
    assert_eq!(machine.num_modes(), 2);
    let r = key_tick(&mut machine, &mut term, Some(KEY_SPACE)).unwrap(); // pop Resume
    assert_eq!(r, RunControl::Update);
    assert_eq!(machine.num_modes(), 1);
    key_tick(&mut machine, &mut term, None).unwrap(); // Title sees the result
    key_tick(&mut machine, &mut term, None).unwrap(); // ...exactly once
    // Title saw nothing when it pushed, then Some(Resume) on its very next
    // update after the pop, then None again.
    assert_eq!(
        machine.shared_state().title_saw,
        vec![None, Some(PausedResult::Resume), None],
    );
    let drawn: Vec<&str> =
        term.log.iter().map(|s| s.as_str()).filter(|s| s.starts_with("render")).collect();
    assert_eq!(
        drawn,
        vec![
            "render Paused active=true",
            "render Title active=true",
            "render Title active=true",
            "render Title active=true",
        ],
    );
}

#[test]
fn up_and_down_edit_the_shared_counter() {
    let mut term = Term::new();
    let mut machine = StateMachine::new(new_game(), GameMode::Title);
    key_tick(&mut machine, &mut term, Some(KEY_UP)).unwrap();
    key_tick(&mut machine, &mut term, Some(KEY_UP)).unwrap();
    key_tick(&mut machine, &mut term, Some(KEY_DOWN)).unwrap();
    assert_eq!(machine.shared_state().num, 1);
    assert_eq!(machine.num_modes(), 1);
    let presents = term.log.iter().filter(|s| s.as_str() == "present").count();
    assert_eq!(presents, 3);
}
