//! Turning a span of days into an estimate of primogems.
//!
//! The estimate adds a flat daily amount, the blessing's daily bonus, the
//! rewards of the mid-month event and of the month-start stage event for each
//! of their resets within the span, and the wishes that the shop offers at
//! each of its resets.

use crate::calendar::{days_between, Date};
use crate::date::{
    days_between_dates, lemma_supported_day_number, supported, today, CalendarDate,
};
use crate::error::EstimateError;
use crate::rotation::{count_outcome, rotation_count, RotationSchedule, ABYSS_RESET_DAY};
use vstd::prelude::*;

verus! {

/// Primogems earned on every day.
pub const DAILY_PRIMOGEMS: u128 = 60;

/// Primogems that the blessing adds on every day.
pub const BLESSING_PRIMOGEMS: u128 = 90;

/// Primogems for each chamber of the mid-month event cleared with three stars.
pub const CHAMBER_PRIMOGEMS: u128 = 50;

/// Primogems added for every full group of three such chambers.
pub const CHAMBER_GROUP_BONUS: u128 = 50;

/// Primogems for each stage of the month-start stage event.
pub const STAGE_PRIMOGEMS: u128 = 60;

/// What the shop adds to the total at each of its resets.
pub const SHOP_WISHES: u128 = 5;

/// The price of one wish in primogems.
pub const WISH_PRICE: u128 = 160;

/// The flat amount for `days` days.
pub open spec fn daily_reward(days: nat) -> nat {
    DAILY_PRIMOGEMS as nat * days
}

/// The blessing's bonus for `days` days: added to the flat amount while the
/// blessing is active, nothing otherwise.
pub open spec fn blessing_reward(days: nat, blessing: bool) -> nat {
    if blessing {
        BLESSING_PRIMOGEMS as nat * days
    } else {
        0
    }
}

/// The reward of the mid-month event: at every reset, each chamber pays, and
/// so does every full group of three chambers.
pub open spec fn abyss_reward(rotations: nat, chambers: nat) -> nat {
    rotations * (CHAMBER_PRIMOGEMS as nat * chambers + (chambers / 3) * CHAMBER_GROUP_BONUS as nat)
}

/// The bonus of the month-start stage event at each reset. It is paid at
/// exactly 3, 6, 8 and 10 stages, and at no other number.
pub open spec fn theater_bonus(stages: nat) -> nat {
    if stages == 3 {
        40
    } else if stages == 6 {
        80
    } else if stages == 8 {
        140
    } else if stages == 10 {
        200
    } else {
        0
    }
}

/// The reward of the month-start stage event: at every reset, each stage pays,
/// and the bonus for that number of stages is added.
pub open spec fn theater_reward(rotations: nat, stages: nat) -> nat {
    rotations * STAGE_PRIMOGEMS as nat * stages + rotations * theater_bonus(stages)
}

/// What the shop adds for its resets.
pub open spec fn shop_reward(resets: nat) -> nat {
    resets * SHOP_WISHES as nat
}

/// An estimate as unbounded numbers.
pub struct Estimation {
    pub daily: nat,
    pub blessing: nat,
    pub abyss: nat,
    pub theater: nat,
    pub shop: nat,
    pub total: nat,
    pub wishes: nat,
    pub leftover: nat,
}

/// The estimate for a span of `days` days in which the mid-month event resets
/// `abyss_rotations` times and each month-start event `monthly_rotations`
/// times.
pub open spec fn estimation(
    days: nat,
    blessing: bool,
    chambers: nat,
    stages: nat,
    abyss_rotations: nat,
    monthly_rotations: nat,
) -> Estimation {
    let daily = daily_reward(days);
    let bonus = blessing_reward(days, blessing);
    let abyss = abyss_reward(abyss_rotations, chambers);
    let theater = theater_reward(monthly_rotations, stages);
    let shop = shop_reward(monthly_rotations);
    let total = daily + bonus + abyss + theater + shop;
    Estimation {
        daily,
        blessing: bonus,
        abyss,
        theater,
        shop,
        total,
        wishes: total / WISH_PRICE as nat,
        leftover: total % WISH_PRICE as nat,
    }
}

/// What estimating `days` days from `start` comes to: the estimate with the
/// resets counted from `start`, or an overflow where one of the two counts
/// overflows.
pub open spec fn estimate_outcome(
    days: nat,
    start: Date,
    blessing: bool,
    chambers: nat,
    stages: nat,
) -> Result<Estimation, EstimateError> {
    let abyss = count_outcome(RotationSchedule::MidMonth { day: ABYSS_RESET_DAY }, start, days);
    let monthly = count_outcome(RotationSchedule::MonthStart, start, days);
    match (abyss, monthly) {
        (Ok(abyss_rotations), Ok(monthly_rotations)) => Ok(
            estimation(days, blessing, chambers, stages, abyss_rotations, monthly_rotations),
        ),
        _ => Err(EstimateError::CalendarOverflow),
    }
}

/// What estimating the span from `start` to `end` comes to: a refusal where
/// `end` precedes `start`, and otherwise what estimating the days between
/// them from `start` comes to.
pub open spec fn span_outcome(
    start: Date,
    end: Date,
    blessing: bool,
    chambers: nat,
    stages: nat,
) -> Result<Estimation, EstimateError> {
    if days_between(start, end) < 0 {
        Err(EstimateError::NegativeSpan)
    } else {
        estimate_outcome(days_between(start, end) as nat, start, blessing, chambers, stages)
    }
}

/// An estimate: what each source contributes, their sum, and the sum as whole
/// wishes and leftover primogems.
#[derive(Clone, Copy, Debug, PartialEq, Eq)]
pub struct EstimationResult {
    /// The flat daily amount.
    pub daily: u128,
    /// The blessing's bonus.
    pub blessing: u128,
    /// The reward of the mid-month event.
    pub abyss: u128,
    /// The reward of the month-start stage event.
    pub theater: u128,
    /// What the shop adds.
    pub shop: u128,
    /// The sum of the five amounts above.
    pub total: u128,
    /// The whole wishes that the total buys.
    pub wishes: u128,
    /// What is left of the total after those wishes.
    pub leftover: u128,
}

impl View for EstimationResult {
    type V = Estimation;

    open spec fn view(&self) -> Estimation {
        Estimation {
            daily: self.daily as nat,
            blessing: self.blessing as nat,
            abyss: self.abyss as nat,
            theater: self.theater as nat,
            shop: self.shop as nat,
            total: self.total as nat,
            wishes: self.wishes as nat,
            leftover: self.leftover as nat,
        }
    }
}

/// The sources that an estimate adds up.
#[derive(Clone, Copy, Debug, PartialEq, Eq, Structural)]
pub enum RewardCategory {
    /// The flat daily amount.
    Daily,
    /// The blessing's bonus.
    Blessing,
    /// The mid-month event.
    Abyss,
    /// The month-start stage event.
    Theater,
    /// The shop.
    Shop,
}

impl RewardCategory {
    /// The name under which the category is shown.
    pub open spec fn label_text(self) -> Seq<char> {
        match self {
            RewardCategory::Daily => "Daily primogems"@,
            RewardCategory::Blessing => "Blessing primogems"@,
            RewardCategory::Abyss => "Abyss primogems"@,
            RewardCategory::Theater => "Imaginarium Theater primogems"@,
            RewardCategory::Shop => "Shop wishes"@,
        }
    }

    /// The name under which the category is shown.
    pub fn label(&self) -> (text: &'static str)
        ensures
            text@ == self.label_text(),
    {
        match self {
            RewardCategory::Daily => "Daily primogems",
            RewardCategory::Blessing => "Blessing primogems",
            RewardCategory::Abyss => "Abyss primogems",
            RewardCategory::Theater => "Imaginarium Theater primogems",
            RewardCategory::Shop => "Shop wishes",
        }
    }
}

impl Estimation {
    /// The amounts of the five sources, in the order in which they are shown.
    pub open spec fn breakdown(self) -> Seq<(RewardCategory, nat)> {
        seq![
            (RewardCategory::Daily, self.daily),
            (RewardCategory::Blessing, self.blessing),
            (RewardCategory::Abyss, self.abyss),
            (RewardCategory::Theater, self.theater),
            (RewardCategory::Shop, self.shop),
        ]
    }

    /// The total is the sum of the five sources, and the wishes and the
    /// leftover are the total divided by the price of a wish.
    pub open spec fn consistent(self) -> bool {
        &&& self.total == self.daily + self.blessing + self.abyss + self.theater + self.shop
        &&& self.total == self.wishes * WISH_PRICE as nat + self.leftover
        &&& self.leftover < WISH_PRICE as nat
    }
}

/// The amounts of a breakdown as unbounded numbers.
pub open spec fn breakdown_view(lines: Seq<(RewardCategory, u128)>) -> Seq<(RewardCategory, nat)> {
    lines.map_values(|line: (RewardCategory, u128)| (line.0, line.1 as nat))
}

impl EstimationResult {
    /// The amounts of the five sources, each with its category, in the order
    /// in which they are shown.
    pub fn breakdown(&self) -> (lines: Vec<(RewardCategory, u128)>)
        ensures
            breakdown_view(lines@) == self@.breakdown(),
    {
        let mut lines: Vec<(RewardCategory, u128)> = Vec::new();
        lines.push((RewardCategory::Daily, self.daily));
        lines.push((RewardCategory::Blessing, self.blessing));
        lines.push((RewardCategory::Abyss, self.abyss));
        lines.push((RewardCategory::Theater, self.theater));
        lines.push((RewardCategory::Shop, self.shop));
        assert(breakdown_view(lines@) =~= self@.breakdown());
        lines
    }
}

/// A result with the estimate, if there is one, as unbounded numbers.
pub open spec fn outcome_view(r: Result<EstimationResult, EstimateError>) -> Result<
    Estimation,
    EstimateError,
> {
    match r {
        Ok(estimate) => Ok(estimate@),
        Err(e) => Err(e),
    }
}

/// Whether `r` is what an estimate from today can come to: an overflow, or the
/// outcome from some supported start date.
pub open spec fn estimated_from_today(
    days: nat,
    blessing: bool,
    chambers: nat,
    stages: nat,
    r: Result<EstimationResult, EstimateError>,
) -> bool {
    ||| r == Err::<EstimationResult, EstimateError>(EstimateError::CalendarOverflow)
    ||| exists|start: Date|
        supported(start) && outcome_view(r) == #[trigger] estimate_outcome(
            days,
            start,
            blessing,
            chambers,
            stages,
        )
}

/// Whether `r` is what an estimate from today until `end` can come to: an
/// overflow, or the outcome of the span from some supported start date.
pub open spec fn estimated_from_today_until(
    end: Date,
    blessing: bool,
    chambers: nat,
    stages: nat,
    r: Result<EstimationResult, EstimateError>,
) -> bool {
    ||| r == Err::<EstimationResult, EstimateError>(EstimateError::CalendarOverflow)
    ||| exists|start: Date|
        supported(start) && outcome_view(r) == #[trigger] span_outcome(
            start,
            end,
            blessing,
            chambers,
            stages,
        )
}

/// The flat amount for `days` days.
pub fn daily_primogems(days: u32) -> (amount: u128)
    ensures
        amount == daily_reward(days as nat),
{
    DAILY_PRIMOGEMS * (days as u128)
}

/// The blessing's bonus for `days` days.
pub fn blessing_primogems(days: u32, blessing: bool) -> (amount: u128)
    ensures
        amount == blessing_reward(days as nat, blessing),
{
    if blessing {
        BLESSING_PRIMOGEMS * (days as u128)
    } else {
        0
    }
}

/// The reward of the mid-month event for `rotations` resets with
/// `three_star_chambers` chambers cleared at each.
pub fn abyss_primogems(rotations: u32, three_star_chambers: u32) -> (amount: u128)
    ensures
        amount == abyss_reward(rotations as nat, three_star_chambers as nat),
{
    let chambers: u128 = three_star_chambers as u128;
    let per_rotation: u128 = CHAMBER_PRIMOGEMS * chambers + (chambers / 3) * CHAMBER_GROUP_BONUS;
    proof {
        lemma_abyss_reward_bound(rotations as nat, three_star_chambers as nat);
    }
    (rotations as u128) * per_rotation
}

/// The bonus of the month-start stage event at each reset.
pub fn theater_bonus_primogems(imaginarium_stages: u32) -> (amount: u128)
    ensures
        amount == theater_bonus(imaginarium_stages as nat),
{
    if imaginarium_stages == 3 {
        40
    } else if imaginarium_stages == 6 {
        80
    } else if imaginarium_stages == 8 {
        140
    } else if imaginarium_stages == 10 {
        200
    } else {
        0
    }
}

/// The reward of the month-start stage event for `rotations` resets with
/// `imaginarium_stages` stages cleared at each.
pub fn theater_primogems(rotations: u32, imaginarium_stages: u32) -> (amount: u128)
    ensures
        amount == theater_reward(rotations as nat, imaginarium_stages as nat),
{
    let per_stage: u128 = (rotations as u128) * STAGE_PRIMOGEMS;
    let bonus: u128 = theater_bonus_primogems(imaginarium_stages);
    proof {
        lemma_theater_reward_bound(rotations as nat, imaginarium_stages as nat);
    }
    per_stage * (imaginarium_stages as u128) + (rotations as u128) * bonus
}

/// What the shop adds for `resets` resets.
pub fn shop_wishes(resets: u32) -> (amount: u128)
    ensures
        amount == shop_reward(resets as nat),
{
    (resets as u128) * SHOP_WISHES
}

/// Estimates the primogems of `days` days from `start`.
///
/// The resets of the mid-month event and of the month-start events are counted
/// from `start`. It fails with [`EstimateError::CalendarOverflow`] exactly when
/// one of the counts does.
pub fn estimate(
    days: u32,
    start: CalendarDate,
    blessing: bool,
    three_star_chambers: u32,
    imaginarium_stages: u32,
) -> (r: Result<EstimationResult, EstimateError>)
    ensures
        outcome_view(r) == estimate_outcome(
            days as nat,
            start@,
            blessing,
            three_star_chambers as nat,
            imaginarium_stages as nat,
        ),
{
    let abyss_rotations: u32 = match rotation_count(RotationSchedule::abyss(), start, days) {
        Ok(counted) => counted.count,
        Err(e) => {
            return Err(e);
        },
    };
    let monthly_rotations: u32 = match rotation_count(RotationSchedule::month_start(), start, days) {
        Ok(counted) => counted.count,
        Err(e) => {
            return Err(e);
        },
    };
    let daily: u128 = daily_primogems(days);
    let bonus: u128 = blessing_primogems(days, blessing);
    let abyss: u128 = abyss_primogems(abyss_rotations, three_star_chambers);
    let theater: u128 = theater_primogems(monthly_rotations, imaginarium_stages);
    let shop: u128 = shop_wishes(monthly_rotations);
    proof {
        lemma_abyss_reward_bound(abyss_rotations as nat, three_star_chambers as nat);
        lemma_theater_reward_bound(monthly_rotations as nat, imaginarium_stages as nat);
    }
    let total: u128 = daily + bonus + abyss + theater + shop;
    Ok(
        EstimationResult {
            daily,
            blessing: bonus,
            abyss,
            theater,
            shop,
            total,
            wishes: total / WISH_PRICE,
            leftover: total % WISH_PRICE,
        },
    )
}

/// Estimates the primogems of `days` days from today, with the clock read
/// once.
pub fn estimate_primogems(
    days: u32,
    blessing: bool,
    three_star_chambers: u32,
    imaginarium_stages: u32,
) -> (r: Result<EstimationResult, EstimateError>)
    ensures
        estimated_from_today(
            days as nat,
            blessing,
            three_star_chambers as nat,
            imaginarium_stages as nat,
            r,
        ),
{
    let start: CalendarDate = match today() {
        Ok(date) => date,
        Err(e) => {
            return Err(e);
        },
    };
    estimate(days, start, blessing, three_star_chambers, imaginarium_stages)
}

/// Estimates the primogems of the days from `start_date` to `end_date`.
///
/// It fails with [`EstimateError::NegativeSpan`] exactly when `end_date`
/// precedes `start_date`, and otherwise does what [`estimate`] does for the
/// days between the two.
pub fn estimation_between_dates(
    start_date: CalendarDate,
    end_date: CalendarDate,
    blessing: bool,
    three_star_chambers: u32,
    imaginarium_stages: u32,
) -> (r: Result<EstimationResult, EstimateError>)
    ensures
        outcome_view(r) == span_outcome(
            start_date@,
            end_date@,
            blessing,
            three_star_chambers as nat,
            imaginarium_stages as nat,
        ),
{
    let days: i64 = days_between_dates(start_date, end_date);
    if days < 0 {
        return Err(EstimateError::NegativeSpan);
    }
    proof {
        use_type_invariant(&start_date);
        use_type_invariant(&end_date);
        lemma_supported_day_number(start_date@);
        lemma_supported_day_number(end_date@);
    }
    estimate(days as u32, start_date, blessing, three_star_chambers, imaginarium_stages)
}

/// Estimates the primogems of the days from today to `end_date`, with the
/// clock read once.
pub fn estimation_from_today_until(
    end_date: CalendarDate,
    blessing: bool,
    three_star_chambers: u32,
    imaginarium_stages: u32,
) -> (r: Result<EstimationResult, EstimateError>)
    ensures
        estimated_from_today_until(
            end_date@,
            blessing,
            three_star_chambers as nat,
            imaginarium_stages as nat,
            r,
        ),
{
    let start: CalendarDate = match today() {
        Ok(date) => date,
        Err(e) => {
            return Err(e);
        },
    };
    estimation_between_dates(start, end_date, blessing, three_star_chambers, imaginarium_stages)
}

/// Two estimates of the same span from the same start are equal: nothing but
/// the arguments decides the outcome.
pub proof fn lemma_estimate_deterministic(
    first: Result<EstimationResult, EstimateError>,
    second: Result<EstimationResult, EstimateError>,
    days: nat,
    start: Date,
    blessing: bool,
    chambers: nat,
    stages: nat,
)
    requires
        outcome_view(first) == estimate_outcome(days, start, blessing, chambers, stages),
        outcome_view(second) == estimate_outcome(days, start, blessing, chambers, stages),
    ensures
        first == second,
{
}

/// Every estimate adds up: its total is the sum of its five sources, and its
/// wishes and leftover are the total divided by the price of a wish.
pub proof fn lemma_estimation_consistent(
    days: nat,
    blessing: bool,
    chambers: nat,
    stages: nat,
    abyss_rotations: nat,
    monthly_rotations: nat,
)
    ensures
        estimation(
            days,
            blessing,
            chambers,
            stages,
            abyss_rotations,
            monthly_rotations,
        ).consistent(),
{
}

/// The blessing adds to the estimate and replaces nothing: with it, the total
/// is larger by its daily bonus, and every other amount is the same.
pub proof fn lemma_blessing_is_additive(
    days: nat,
    chambers: nat,
    stages: nat,
    abyss_rotations: nat,
    monthly_rotations: nat,
)
    ensures
        ({
            let with = estimation(days, true, chambers, stages, abyss_rotations, monthly_rotations);
            let without = estimation(
                days,
                false,
                chambers,
                stages,
                abyss_rotations,
                monthly_rotations,
            );
            &&& with.total == without.total + BLESSING_PRIMOGEMS as nat * days
            &&& with.daily == without.daily
            &&& with.abyss == without.abyss
            &&& with.theater == without.theater
            &&& with.shop == without.shop
        }),
{
}

/// The reward of the mid-month event over 32-bit inputs stays below 2^72.
proof fn lemma_abyss_reward_bound(rotations: nat, chambers: nat)
    requires
        rotations <= u32::MAX,
        chambers <= u32::MAX,
    ensures
        rotations * (CHAMBER_PRIMOGEMS as nat * chambers + (chambers / 3)
            * CHAMBER_GROUP_BONUS as nat) <= 0x100_0000_0000_0000_0000,
{
    let per_rotation = CHAMBER_PRIMOGEMS as nat * chambers + (chambers / 3)
        * CHAMBER_GROUP_BONUS as nat;
    assert(rotations * per_rotation <= 0x1_0000_0000 * 0x100_0000_0000) by (nonlinear_arith)
        requires
            rotations <= 0x1_0000_0000,
            per_rotation <= 0x100_0000_0000,
    ;
}

/// The two parts of the reward of the month-start stage event over 32-bit
/// inputs stay below 2^72.
proof fn lemma_theater_reward_bound(rotations: nat, stages: nat)
    requires
        rotations <= u32::MAX,
        stages <= u32::MAX,
    ensures
        rotations * STAGE_PRIMOGEMS as nat * stages <= 0x100_0000_0000_0000_0000,
        rotations * theater_bonus(stages) <= 0x100_0000_0000,
{
    let per_stage = rotations * STAGE_PRIMOGEMS as nat;
    assert(per_stage * stages <= 0x100_0000_0000 * 0x1_0000_0000) by (nonlinear_arith)
        requires
            per_stage <= 0x100_0000_0000,
            stages <= 0x1_0000_0000,
    ;
    let bonus = theater_bonus(stages);
    assert(rotations * bonus <= 0x1_0000_0000 * 200) by (nonlinear_arith)
        requires
            rotations <= 0x1_0000_0000,
            bonus <= 200,
    ;
}

} // verus!
