use termgrid::action::{
    classify, Action, ActionManager, ActionType, ConfigError, Key, MClosure, Resolved,
    ScreenAction,
};
use termgrid::cell::Cell;

#[test]
fn classify_routes_each_effect_kind() {
    assert!(matches!(
        classify(ScreenAction::Exit(7)),
        Ok(Resolved::Exit(7))
    ));
    assert!(matches!(
        classify(ScreenAction::SetCell(1, 2, Cell::new('x'))),
        Ok(Resolved::Pixel(1, 2, c)) if c == Cell::new('x')
    ));
    assert!(matches!(
        classify(ScreenAction::SetCellFromFns(9)),
        Ok(Resolved::Producer(9))
    ));
    assert!(matches!(
        classify(ScreenAction::WriteText(3, 4, String::from("hi"))),
        Ok(Resolved::Text(3, 4, s)) if s == "hi"
    ));
    assert!(matches!(
        classify(ScreenAction::RunCallback(5)),
        Ok(Resolved::Callback(5))
    ));
}

#[test]
fn produced_effect_is_applied_as_if_triggered_directly() {
    let e = ScreenAction::ProduceEffect(MClosure::new(ScreenAction::SetCell(0, 0, Cell::new('q'))));
    assert!(matches!(
        classify(e),
        Ok(Resolved::Pixel(0, 0, c)) if c == Cell::new('q')
    ));
    let e = ScreenAction::ProduceEffect(MClosure::new(ScreenAction::Exit(3)));
    assert!(matches!(classify(e), Ok(Resolved::Exit(3))));
}

#[test]
fn nested_produce_effect_is_a_fatal_configuration_error() {
    // never silently ignored or flattened: the classification fails
    let inner = ScreenAction::ProduceEffect(MClosure::new(ScreenAction::Exit(0)));
    let e = ScreenAction::ProduceEffect(MClosure::new(inner));
    assert!(matches!(classify(e), Err(ConfigError::NestedProduceEffect)));
}

#[test]
fn nested_callback_is_a_fatal_configuration_error() {
    let e = ScreenAction::ProduceEffect(MClosure::new(ScreenAction::RunCallback(1)));
    assert!(matches!(classify(e), Err(ConfigError::NestedRunCallback)));
}

#[test]
fn mclosure_stores_the_value() {
    let m = MClosure::new(41u32);
    assert_eq!(*m.get(), 41);
}

#[test]
fn manager_push_assigns_increasing_keys() {
    let mut m = ActionManager::new();
    assert_eq!(m.next_key(), 0);
    m.push(Action::new(ActionType::RUN, ScreenAction::Exit(1)));
    m.push(Action::new(ActionType::RUN, ScreenAction::Exit(2)));
    assert_eq!(m.next_key(), 2);
    assert_eq!(m.len(), 2);
    assert!(matches!(m.get(0), Some(a) if matches!(a.f, ScreenAction::Exit(1))));
    assert!(matches!(m.get(1), Some(a) if matches!(a.f, ScreenAction::Exit(2))));
    assert!(m.get(2).is_none());
}

#[test]
fn manager_insert_replaces_in_place_or_appends() {
    let mut m = ActionManager::new();
    m.push(Action::new(ActionType::RUN, ScreenAction::Exit(1)));
    // replace the existing key 0 in place
    m.insert((0, Action::new(ActionType::RUN, ScreenAction::Exit(9))));
    assert_eq!(m.len(), 1);
    assert!(matches!(m.get(0), Some(a) if matches!(a.f, ScreenAction::Exit(9))));
    // a new key is appended and the auto-increment moves past it
    m.insert((7, Action::new(ActionType::RUN, ScreenAction::Exit(3))));
    assert_eq!(m.len(), 2);
    assert_eq!(m.next_key(), 8);
    assert!(matches!(m.get(7), Some(a) if matches!(a.f, ScreenAction::Exit(3))));
}

#[test]
fn manager_rem_removes_only_the_named_key() {
    let mut m = ActionManager::new();
    m.push(Action::new(ActionType::RUN, ScreenAction::Exit(1)));
    m.push(Action::new(ActionType::RUN, ScreenAction::Exit(2)));
    m.rem(0);
    assert_eq!(m.len(), 1);
    assert!(m.get(0).is_none());
    assert!(matches!(m.get(1), Some(a) if matches!(a.f, ScreenAction::Exit(2))));
    // removing an absent key changes nothing
    m.rem(5);
    assert_eq!(m.len(), 1);
}

#[test]
fn manager_iter_snapshots_in_table_order() {
    let mut m = ActionManager::new();
    m.push(Action::new(ActionType::KEY(Key::Char('a')), ScreenAction::Exit(1)));
    m.push(Action::new(ActionType::RUN, ScreenAction::Exit(2)));
    let snap = m.iter();
    assert_eq!(snap.len(), 2);
    assert!(matches!(snap[0].t, ActionType::KEY(Key::Char('a'))));
    assert!(matches!(snap[1].t, ActionType::RUN));
    // the snapshot is a copy: mutating the table leaves it intact
    m.rem(0);
    assert_eq!(snap.len(), 2);
}

#[test]
fn duplicate_copies_deeply() {
    let a = Action::new(
        ActionType::KEY(Key::Ctrl('c')),
        ScreenAction::ProduceEffect(MClosure::new(ScreenAction::WriteText(
            1,
            2,
            String::from("text"),
        ))),
    );
    let b = a.duplicate();
    assert!(matches!(b.t, ActionType::KEY(Key::Ctrl('c'))));
    match &b.f {
        ScreenAction::ProduceEffect(m) => match m.get() {
            ScreenAction::WriteText(1, 2, s) => assert_eq!(s, "text"),
            _ => panic!("wrong stored effect"),
        },
        _ => panic!("wrong effect"),
    }
}
