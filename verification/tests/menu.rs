use primobot::menu::{MenuAction, MenuEvent, MenuState};

fn after(events: &[MenuEvent]) -> MenuState {
    let mut state = MenuState::new();
    for event in events {
        assert!(state.accepts(*event));
        state = state.apply(*event).0;
    }
    state
}

#[test]
fn menu_opens_with_one_day_and_nothing_chosen() {
    let state = MenuState::new();
    assert_eq!(state.days(), 1);
    assert!(!state.blessing());
    assert_eq!(state.abyss_chambers(), 0);
    assert_eq!(state.theater_stages(), 0);
}

#[test]
fn day_buttons_add_their_step() {
    let (state, action) = MenuState::new().apply(MenuEvent::AddDay);
    assert_eq!(state.days(), 2);
    assert_eq!(action, MenuAction::ShowDays(2));
    let (state, action) = state.apply(MenuEvent::AddTenDays);
    assert_eq!(state.days(), 12);
    assert_eq!(action, MenuAction::ShowDays(12));
}

#[test]
fn day_buttons_remove_their_step() {
    let state = after(&[MenuEvent::AddTenDays, MenuEvent::AddTenDays, MenuEvent::AddTenDays]);
    assert_eq!(state.days(), 31);
    let (state, action) = state.apply(MenuEvent::RemoveTenDays);
    assert_eq!(state.days(), 21);
    assert_eq!(action, MenuAction::ShowDays(21));
    let (state, action) = state.apply(MenuEvent::RemoveDay);
    assert_eq!(state.days(), 20);
    assert_eq!(action, MenuAction::ShowDays(20));
}

#[test]
fn days_never_fall_below_one() {
    let (state, action) = MenuState::new().apply(MenuEvent::RemoveDay);
    assert_eq!(state.days(), 1);
    assert_eq!(action, MenuAction::ShowDays(1));
    let (state, action) = state.apply(MenuEvent::RemoveTenDays);
    assert_eq!(state.days(), 1);
    assert_eq!(action, MenuAction::ShowDays(1));
    let ten = after(&[MenuEvent::AddTenDays, MenuEvent::RemoveDay]);
    assert_eq!(ten.days(), 10);
    assert_eq!(ten.apply(MenuEvent::RemoveTenDays).0.days(), 1);
    let eleven = after(&[MenuEvent::AddTenDays]);
    assert_eq!(eleven.days(), 11);
    assert_eq!(eleven.apply(MenuEvent::RemoveTenDays).0.days(), 1);
    let twelve = after(&[MenuEvent::AddTenDays, MenuEvent::AddDay]);
    assert_eq!(twelve.apply(MenuEvent::RemoveTenDays).0.days(), 2);
}

#[test]
fn blessing_is_switched_on_and_stays_on() {
    let (state, action) = MenuState::new().apply(MenuEvent::Blessing(0));
    assert!(!state.blessing());
    assert_eq!(action, MenuAction::Nothing);
    let (state, action) = state.apply(MenuEvent::Blessing(1));
    assert!(state.blessing());
    assert_eq!(action, MenuAction::Nothing);
    let (state, _) = state.apply(MenuEvent::Blessing(0));
    assert!(state.blessing());
    let (other, _) = MenuState::new().apply(MenuEvent::Blessing(2));
    assert!(!other.blessing());
}

#[test]
fn chambers_and_stages_take_the_value_picked() {
    let (state, action) = MenuState::new().apply(MenuEvent::AbyssChambers(12));
    assert_eq!(state.abyss_chambers(), 12);
    assert_eq!(state.theater_stages(), 0);
    assert_eq!(action, MenuAction::Nothing);
    let (state, action) = state.apply(MenuEvent::TheaterStages(10));
    assert_eq!(state.abyss_chambers(), 12);
    assert_eq!(state.theater_stages(), 10);
    assert_eq!(action, MenuAction::Nothing);
    let (state, _) = state.apply(MenuEvent::AbyssChambers(0));
    assert_eq!(state.abyss_chambers(), 0);
    assert_eq!(state.theater_stages(), 10);
    assert_eq!(state.days(), 1);
}

#[test]
fn estimate_leaves_the_choices_as_they_are() {
    let state = after(&[
        MenuEvent::AddTenDays,
        MenuEvent::Blessing(1),
        MenuEvent::AbyssChambers(9),
        MenuEvent::TheaterStages(8),
    ]);
    let (next, action) = state.apply(MenuEvent::Estimate);
    assert_eq!(next, state);
    assert_eq!(action, MenuAction::ShowEstimate);
    assert_eq!(next.days(), 11);
    assert!(next.blessing());
    assert_eq!(next.abyss_chambers(), 9);
    assert_eq!(next.theater_stages(), 8);
}

#[test]
fn unknown_interactions_are_reported_and_change_nothing() {
    let state = after(&[MenuEvent::AddDay, MenuEvent::AbyssChambers(3)]);
    let (next, action) = state.apply(MenuEvent::Unexpected);
    assert_eq!(next, state);
    assert_eq!(action, MenuAction::ReportUnexpected);
}

#[test]
fn every_event_is_accepted_while_the_days_fit() {
    let state = MenuState::new();
    for event in [
        MenuEvent::Blessing(1),
        MenuEvent::AbyssChambers(u32::MAX),
        MenuEvent::TheaterStages(u32::MAX),
        MenuEvent::Estimate,
        MenuEvent::AddDay,
        MenuEvent::AddTenDays,
        MenuEvent::RemoveTenDays,
        MenuEvent::RemoveDay,
        MenuEvent::Unexpected,
    ] {
        assert!(state.accepts(event));
    }
}
