use termgrid::action::{Action, ActionType, ConfigError, Key, MClosure, ScreenAction};
use termgrid::cell::{Cell, SCREEN_BLANK_CHAR};
use termgrid::engine::{EngineError, KeyOutcome, TerminalScreen};
use termgrid::grid::GridError;

fn engine(w: usize, h: usize) -> TerminalScreen {
    TerminalScreen::with_terminal_size((w, h), 40, 20).unwrap()
}

fn run_tick(e: &mut TerminalScreen) -> termgrid::engine::TickResult {
    let begin = e.tick_begin().unwrap();
    assert!(begin.exit.is_none());
    e.tick_finish().unwrap()
}

#[test]
fn construction_seeds_exactly_the_two_builtin_exits() {
    let e = engine(5, 3);
    let ctrl_c = e.actions_for(ActionType::KEY(Key::Ctrl('c')));
    assert_eq!(ctrl_c.len(), 1);
    assert!(matches!(ctrl_c[0].f, ScreenAction::Exit(130)));
    let esc = e.actions_for(ActionType::KEY(Key::Esc));
    assert_eq!(esc.len(), 1);
    assert!(matches!(esc[0].f, ScreenAction::Exit(0)));
}

#[test]
fn reregistering_a_duplicate_trigger_keeps_the_original() {
    let mut e = engine(5, 3);
    e.add_action(Action::new(ActionType::KEY(Key::Esc), ScreenAction::Exit(42)));
    let esc = e.actions_for(ActionType::KEY(Key::Esc));
    // both are found: the original built-in first, the duplicate after
    assert_eq!(esc.len(), 2);
    assert!(matches!(esc[0].f, ScreenAction::Exit(0)));
    assert!(matches!(esc[1].f, ScreenAction::Exit(42)));
}

#[test]
fn builtin_exits_cannot_be_removed() {
    let mut e = engine(5, 3);
    assert!(!e.rem_action(0));
    assert!(!e.rem_action(1));
    assert_eq!(e.actions_for(ActionType::KEY(Key::Ctrl('c'))).len(), 1);
    assert_eq!(e.actions_for(ActionType::KEY(Key::Esc)).len(), 1);
}

#[test]
fn registered_actions_can_be_removed_by_handle() {
    let mut e = engine(5, 3);
    let h = e.add_action(Action::new(
        ActionType::KEY(Key::Char('x')),
        ScreenAction::Exit(7),
    ));
    assert_eq!(h, 2);
    assert!(e.rem_action(h));
    assert!(e.actions_for(ActionType::KEY(Key::Char('x'))).is_empty());
    assert!(!e.rem_action(h));
}

#[test]
fn scenario_a_set_cell_lands_on_the_next_tick() {
    // width 5, height 3; SetCell on 'x' writing '#' at (2, 1)
    let mut e = engine(5, 3);
    e.add_action(Action::new(
        ActionType::KEY(Key::Char('x')),
        ScreenAction::SetCell(2, 1, Cell::new('#')),
    ));
    let out = e.handle_key(Key::Char('x')).unwrap();
    assert!(matches!(out, KeyOutcome::Handled(ref reqs) if reqs.is_empty()));
    // queued, not yet applied
    assert_eq!(e.get_back(2, 1).unwrap().ch, SCREEN_BLANK_CHAR);
    let result = run_tick(&mut e);
    assert!(result.exit.is_none());
    // the back grid holds the cell, and front equals back after the flush
    assert_eq!(e.get_back(2, 1).unwrap(), Cell::new('#'));
    assert_eq!(e.get_front(2, 1).unwrap(), Cell::new('#'));
    assert!(e.buffers_match());
    // the diff flushed exactly the one changed cell
    assert_eq!(result.changed, vec![(2, 1, Cell::new('#'))]);
}

#[test]
fn scenario_b_escape_exits_with_code_zero_and_mutates_nothing() {
    let mut e = engine(5, 3);
    let out = e.handle_key(Key::Esc).unwrap();
    assert!(matches!(out, KeyOutcome::Exit(0)));
    for y in 0..3 {
        for x in 0..5 {
            assert_eq!(e.get_back(x, y).unwrap(), Cell::blank());
            assert_eq!(e.get_front(x, y).unwrap(), Cell::blank());
        }
    }
}

#[test]
fn ctrl_c_exits_with_code_130() {
    let mut e = engine(5, 3);
    let out = e.handle_key(Key::Ctrl('c')).unwrap();
    assert!(matches!(out, KeyOutcome::Exit(130)));
}

#[test]
fn scenario_c_dispatch_from_a_callback_lands_one_tick_later() {
    let mut e = engine(5, 3);
    e.add_action(Action::new(
        ActionType::KEY(Key::Char('z')),
        ScreenAction::RunCallback(7),
    ));
    let out = e.handle_key(Key::Char('z')).unwrap();
    assert!(matches!(out, KeyOutcome::Handled(ref reqs) if reqs.is_empty()));

    // tick 1: the callback is handed out for invocation
    let begin = e.tick_begin().unwrap();
    assert!(begin.exit.is_none());
    assert_eq!(begin.callbacks, vec![7]);
    // the callback fires and dispatches a cell write
    e.do_action(ScreenAction::SetCell(0, 0, Cell::new('Q')));
    let r1 = e.tick_finish().unwrap();
    assert!(r1.exit.is_none());
    // after tick 1 the grid is still unmutated
    assert_eq!(e.get_back(0, 0).unwrap().ch, SCREEN_BLANK_CHAR);

    // tick 2: the dispatched effect is applied
    let r2 = run_tick(&mut e);
    assert!(r2.exit.is_none());
    assert_eq!(e.get_back(0, 0).unwrap(), Cell::new('Q'));
    assert_eq!(e.get_front(0, 0).unwrap(), Cell::new('Q'));
}

#[test]
fn oversized_dimensions_fail_at_construction() {
    // 40 columns give 20 usable cells; 20 rows
    assert!(matches!(
        TerminalScreen::with_terminal_size((21, 3), 40, 20),
        Err(EngineError::DimensionsExceedTerminal)
    ));
    assert!(matches!(
        TerminalScreen::with_terminal_size((5, 21), 40, 20),
        Err(EngineError::DimensionsExceedTerminal)
    ));
    // exactly-fitting dimensions are accepted
    let e = TerminalScreen::with_terminal_size((20, 20), 40, 20).unwrap();
    assert_eq!(e.dimensions(), (20, 20));
}

#[test]
fn zero_dimensions_mean_the_whole_terminal() {
    let e = TerminalScreen::with_terminal_size((0, 0), 40, 20).unwrap();
    assert_eq!(e.dimensions(), (20, 20));
}

#[test]
fn nested_produce_effect_fails_key_handling() {
    let mut e = engine(5, 3);
    let inner = ScreenAction::ProduceEffect(MClosure::new(ScreenAction::Exit(0)));
    e.add_action(Action::new(
        ActionType::KEY(Key::Char('p')),
        ScreenAction::ProduceEffect(MClosure::new(inner)),
    ));
    assert!(matches!(
        e.handle_key(Key::Char('p')),
        Err(EngineError::Config(ConfigError::NestedProduceEffect))
    ));
    let mut e = engine(5, 3);
    e.add_action(Action::new(
        ActionType::KEY(Key::Char('p')),
        ScreenAction::ProduceEffect(MClosure::new(ScreenAction::RunCallback(1))),
    ));
    assert!(matches!(
        e.handle_key(Key::Char('p')),
        Err(EngineError::Config(ConfigError::NestedRunCallback))
    ));
}

#[test]
fn produced_set_cell_is_applied_as_if_direct() {
    let mut e = engine(5, 3);
    e.add_action(Action::new(
        ActionType::KEY(Key::Char('d')),
        ScreenAction::ProduceEffect(MClosure::new(ScreenAction::SetCell(1, 1, Cell::new('*')))),
    ));
    let out = e.handle_key(Key::Char('d')).unwrap();
    assert!(matches!(out, KeyOutcome::Handled(ref reqs) if reqs.is_empty()));
    run_tick(&mut e);
    assert_eq!(e.get_back(1, 1).unwrap(), Cell::new('*'));
}

#[test]
fn producer_requests_are_resolved_by_supplying_the_cell() {
    let mut e = engine(5, 3);
    e.add_action(Action::new(
        ActionType::KEY(Key::Char('f')),
        ScreenAction::SetCellFromFns(3),
    ));
    let out = e.handle_key(Key::Char('f')).unwrap();
    match out {
        KeyOutcome::Handled(reqs) => assert_eq!(reqs, vec![3]),
        _ => panic!("expected producer request"),
    }
    // the caller runs producer 3 and supplies what it computed
    e.supply_cell(4, 2, Cell::new('e'));
    run_tick(&mut e);
    assert_eq!(e.get_back(4, 2).unwrap(), Cell::new('e'));
}

#[test]
fn text_effects_are_handed_out_at_the_tick() {
    let mut e = engine(5, 3);
    e.add_action(Action::new(
        ActionType::KEY(Key::Char('t')),
        ScreenAction::WriteText(2, 2, String::from("status")),
    ));
    e.handle_key(Key::Char('t')).unwrap();
    let result = run_tick(&mut e);
    assert_eq!(result.writes, vec![(2, 2, String::from("status"))]);
}

#[test]
fn matching_stops_at_the_first_exit_effect() {
    let mut e = engine(5, 3);
    e.add_action(Action::new(
        ActionType::KEY(Key::Char('k')),
        ScreenAction::SetCell(0, 0, Cell::new('1')),
    ));
    e.add_action(Action::new(ActionType::KEY(Key::Char('k')), ScreenAction::Exit(9)));
    e.add_action(Action::new(
        ActionType::KEY(Key::Char('k')),
        ScreenAction::SetCell(1, 0, Cell::new('2')),
    ));
    let out = e.handle_key(Key::Char('k')).unwrap();
    assert!(matches!(out, KeyOutcome::Exit(9)));
    // the effect queued before the exit stays queued; the later one never ran
    run_tick(&mut e);
    assert_eq!(e.get_back(0, 0).unwrap(), Cell::new('1'));
    assert_eq!(e.get_back(1, 0).unwrap(), Cell::blank());
}

#[test]
fn all_matches_of_one_key_are_evaluated() {
    let mut e = engine(5, 3);
    e.add_action(Action::new(
        ActionType::KEY(Key::Char('m')),
        ScreenAction::SetCell(0, 0, Cell::new('1')),
    ));
    e.add_action(Action::new(
        ActionType::KEY(Key::Char('m')),
        ScreenAction::SetCell(1, 0, Cell::new('2')),
    ));
    e.handle_key(Key::Char('m')).unwrap();
    run_tick(&mut e);
    assert_eq!(e.get_back(0, 0).unwrap(), Cell::new('1'));
    assert_eq!(e.get_back(1, 0).unwrap(), Cell::new('2'));
}

#[test]
fn dispatched_exit_is_reported_by_the_tick() {
    let mut e = engine(5, 3);
    e.do_action(ScreenAction::Exit(5));
    let begin = e.tick_begin().unwrap();
    assert!(begin.exit.is_none());
    let result = e.tick_finish().unwrap();
    assert_eq!(result.exit, Some(5));
    assert!(result.changed.is_empty());
    assert!(result.writes.is_empty());
}

#[test]
fn dispatched_callback_is_handed_out_by_the_tick() {
    let mut e = engine(5, 3);
    e.do_action(ScreenAction::RunCallback(11));
    let begin = e.tick_begin().unwrap();
    assert!(begin.callbacks.is_empty());
    let result = e.tick_finish().unwrap();
    assert_eq!(result.callbacks, vec![11]);
}

#[test]
fn unsupported_dispatch_kind_is_fatal() {
    let mut e = engine(5, 3);
    e.do_action(ScreenAction::WriteText(0, 0, String::from("no")));
    e.tick_begin().unwrap();
    assert!(matches!(
        e.tick_finish(),
        Err(EngineError::UnsupportedDispatch)
    ));
}

#[test]
fn out_of_range_mutation_is_fatal_at_the_tick() {
    let mut e = engine(5, 3);
    e.add_action(Action::new(
        ActionType::KEY(Key::Char('o')),
        ScreenAction::SetCell(9, 9, Cell::new('x')),
    ));
    e.handle_key(Key::Char('o')).unwrap();
    e.tick_begin().unwrap();
    assert!(matches!(
        e.tick_finish(),
        Err(EngineError::Bounds(GridError::OutOfBounds))
    ));
}

#[test]
fn set_pixel_at_writes_the_back_grid_directly() {
    let mut e = engine(5, 3);
    e.set_pixel_at(1, 2, 'w').unwrap();
    assert_eq!(e.get_back(1, 2).unwrap(), Cell::new('w'));
    // the front grid is untouched until a tick flushes
    assert_eq!(e.get_front(1, 2).unwrap(), Cell::blank());
    assert!(matches!(
        e.set_pixel_at(9, 9, 'w'),
        Err(EngineError::Bounds(GridError::OutOfBounds))
    ));
}

#[test]
fn recurring_actions_apply_on_every_tick() {
    let mut e = engine(5, 3);
    e.add_action(Action::new(ActionType::RUN, ScreenAction::SetCell(0, 2, Cell::new('r'))));
    run_tick(&mut e);
    assert_eq!(e.get_back(0, 2).unwrap(), Cell::new('r'));
    e.set_pixel_at(0, 2, ' ').unwrap();
    run_tick(&mut e);
    assert_eq!(e.get_back(0, 2).unwrap(), Cell::new('r'));
}

#[test]
fn recurring_exit_is_reported_at_tick_begin() {
    let mut e = engine(5, 3);
    e.add_action(Action::new(ActionType::RUN, ScreenAction::Exit(4)));
    let begin = e.tick_begin().unwrap();
    assert_eq!(begin.exit, Some(4));
    assert!(begin.callbacks.is_empty());
    assert!(begin.producer_requests.is_empty());
    // nothing was staged: the engine is not mid-tick
    assert!(!e.in_tick());
}

#[test]
fn draw_positions_every_front_cell() {
    let mut e = engine(2, 2);
    e.add_action(Action::new(
        ActionType::KEY(Key::Char('x')),
        ScreenAction::SetCell(1, 0, Cell::new('#')),
    ));
    e.handle_key(Key::Char('x')).unwrap();
    run_tick(&mut e);
    let cmds = e.draw();
    // 1-based positions, columns scaled by the 2-wide cell rendering
    assert_eq!(
        cmds,
        vec![
            (1, 1, Cell::blank()),
            (3, 1, Cell::new('#')),
            (1, 2, Cell::blank()),
            (3, 2, Cell::blank()),
        ]
    );
}

#[test]
fn unmatched_keys_change_nothing() {
    let mut e = engine(5, 3);
    let out = e.handle_key(Key::Char('u')).unwrap();
    assert!(matches!(out, KeyOutcome::Handled(ref reqs) if reqs.is_empty()));
    let result = run_tick(&mut e);
    assert!(result.changed.is_empty());
    assert!(e.buffers_match());
}
