//! The choices that a user makes in the estimator's menu.
//!
//! The menu holds a number of days, whether the blessing is active, and how
//! many chambers and stages the user clears at each reset. Each interaction
//! with it is an event; [`MenuState::apply`] says what the choices are after
//! the event and what the menu has to do about it. Showing the menu and
//! waiting for the events is left to the caller.

use vstd::prelude::*;

verus! {

/// The value of the blessing menu that stands for an active blessing.
pub const BLESSING_CHOSEN: u32 = 1;

/// The days that the small buttons add and remove.
pub const SMALL_STEP: u32 = 1;

/// The days that the large buttons add and remove.
pub const LARGE_STEP: u32 = 10;

/// The choices of a menu as unbounded numbers.
pub struct Choices {
    pub days: nat,
    pub blessing: bool,
    pub abyss_chambers: nat,
    pub theater_stages: nat,
}

/// What a user can do with the menu.
#[derive(Clone, Copy, Debug, PartialEq, Eq, Structural)]
pub enum MenuEvent {
    /// An entry of the blessing menu was picked; it carries the entry's value.
    Blessing(u32),
    /// A number of chambers was picked.
    AbyssChambers(u32),
    /// A number of stages was picked.
    TheaterStages(u32),
    /// The estimate was asked for.
    Estimate,
    /// One day more.
    AddDay,
    /// Ten days more.
    AddTenDays,
    /// Ten days fewer.
    RemoveTenDays,
    /// One day fewer.
    RemoveDay,
    /// Anything that the menu does not know.
    Unexpected,
}

/// What the menu has to do after an event.
#[derive(Clone, Copy, Debug, PartialEq, Eq, Structural)]
pub enum MenuAction {
    /// Nothing to show.
    Nothing,
    /// Show the number of days anew.
    ShowDays(u32),
    /// Replace the menu by the estimate for its choices.
    ShowEstimate,
    /// Note that an unknown interaction came in.
    ReportUnexpected,
}

/// The number of days after `event`: the buttons add and remove their step,
/// and removing never leads below one day.
pub open spec fn days_after(days: nat, event: MenuEvent) -> nat {
    match event {
        MenuEvent::AddDay => days + SMALL_STEP as nat,
        MenuEvent::AddTenDays => days + LARGE_STEP as nat,
        MenuEvent::RemoveTenDays => if days <= LARGE_STEP as nat {
            1
        } else {
            (days - LARGE_STEP as nat) as nat
        },
        MenuEvent::RemoveDay => if days > 1 {
            (days - SMALL_STEP as nat) as nat
        } else {
            days
        },
        _ => days,
    }
}

/// The choices after `event`. The blessing menu switches the blessing on and
/// never off.
pub open spec fn choices_after(choices: Choices, event: MenuEvent) -> Choices {
    Choices {
        days: days_after(choices.days, event),
        blessing: match event {
            MenuEvent::Blessing(value) => choices.blessing || value == BLESSING_CHOSEN,
            _ => choices.blessing,
        },
        abyss_chambers: match event {
            MenuEvent::AbyssChambers(value) => value as nat,
            _ => choices.abyss_chambers,
        },
        theater_stages: match event {
            MenuEvent::TheaterStages(value) => value as nat,
            _ => choices.theater_stages,
        },
    }
}

/// What the menu has to do after `event`, which left it with `days` days.
pub open spec fn action_after(days: u32, event: MenuEvent) -> MenuAction {
    match event {
        MenuEvent::Blessing(_) | MenuEvent::AbyssChambers(_) | MenuEvent::TheaterStages(_) => {
            MenuAction::Nothing
        },
        MenuEvent::Estimate => MenuAction::ShowEstimate,
        MenuEvent::AddDay | MenuEvent::AddTenDays | MenuEvent::RemoveTenDays
        | MenuEvent::RemoveDay => MenuAction::ShowDays(days),
        MenuEvent::Unexpected => MenuAction::ReportUnexpected,
    }
}

/// The choices of one menu. The number of days is never less than one.
#[derive(Clone, Copy, Debug, PartialEq, Eq)]
pub struct MenuState {
    days: u32,
    blessing: bool,
    abyss_chambers: u32,
    theater_stages: u32,
}

impl View for MenuState {
    type V = Choices;

    closed spec fn view(&self) -> Choices {
        Choices {
            days: self.days as nat,
            blessing: self.blessing,
            abyss_chambers: self.abyss_chambers as nat,
            theater_stages: self.theater_stages as nat,
        }
    }
}

impl MenuState {
    /// What holds of every value: it asks for at least one day.
    #[verifier::type_invariant]
    pub open spec fn well_formed(self) -> bool {
        self@.days >= 1
    }

    /// The choices of a menu that was just opened: one day, no blessing, no
    /// chambers and no stages.
    pub fn new() -> (state: MenuState)
        ensures
            state@ == (Choices { days: 1, blessing: false, abyss_chambers: 0, theater_stages: 0 }),
    {
        MenuState { days: 1, blessing: false, abyss_chambers: 0, theater_stages: 0 }
    }

    /// The number of days, at least one.
    pub fn days(&self) -> (days: u32)
        ensures
            days == self@.days,
            days >= 1,
    {
        proof {
            use_type_invariant(self);
        }
        self.days
    }

    /// Whether the blessing is active.
    pub fn blessing(&self) -> (blessing: bool)
        ensures
            blessing == self@.blessing,
    {
        self.blessing
    }

    /// The chambers cleared at each reset of the mid-month event.
    pub fn abyss_chambers(&self) -> (chambers: u32)
        ensures
            chambers == self@.abyss_chambers,
    {
        self.abyss_chambers
    }

    /// The stages cleared at each reset of the month-start stage event.
    pub fn theater_stages(&self) -> (stages: u32)
        ensures
            stages == self@.theater_stages,
    {
        self.theater_stages
    }

    /// Whether `event` can be applied: adding days must not lead past what 32
    /// bits hold.
    pub fn accepts(&self, event: MenuEvent) -> (accepted: bool)
        ensures
            accepted == (days_after(self@.days, event) <= u32::MAX),
    {
        match event {
            MenuEvent::AddDay => self.days <= u32::MAX - SMALL_STEP,
            MenuEvent::AddTenDays => self.days <= u32::MAX - LARGE_STEP,
            _ => true,
        }
    }

    /// The choices after `event`, and what the menu has to do about it.
    pub fn apply(self, event: MenuEvent) -> (r: (MenuState, MenuAction))
        requires
            days_after(self@.days, event) <= u32::MAX,
        ensures
            r.0@ == choices_after(self@, event),
            r.1 == action_after(r.0@.days as u32, event),
    {
        proof {
            use_type_invariant(&self);
        }
        let mut next = self;
        let action = match event {
            MenuEvent::Blessing(value) => {
                if value == BLESSING_CHOSEN {
                    next = MenuState { blessing: true, ..self };
                }
                MenuAction::Nothing
            },
            MenuEvent::AbyssChambers(value) => {
                next = MenuState { abyss_chambers: value, ..self };
                MenuAction::Nothing
            },
            MenuEvent::TheaterStages(value) => {
                next = MenuState { theater_stages: value, ..self };
                MenuAction::Nothing
            },
            MenuEvent::Estimate => MenuAction::ShowEstimate,
            MenuEvent::AddDay => {
                next = MenuState { days: self.days + SMALL_STEP, ..self };
                MenuAction::ShowDays(next.days)
            },
            MenuEvent::AddTenDays => {
                next = MenuState { days: self.days + LARGE_STEP, ..self };
                MenuAction::ShowDays(next.days)
            },
            MenuEvent::RemoveTenDays => {
                if self.days <= LARGE_STEP {
                    next = MenuState { days: 1, ..self };
                } else {
                    next = MenuState { days: self.days - LARGE_STEP, ..self };
                }
                MenuAction::ShowDays(next.days)
            },
            MenuEvent::RemoveDay => {
                if self.days > 1 {
                    next = MenuState { days: self.days - SMALL_STEP, ..self };
                }
                MenuAction::ShowDays(next.days)
            },
            MenuEvent::Unexpected => MenuAction::ReportUnexpected,
        };
        (next, action)
    }
}

} // verus!
