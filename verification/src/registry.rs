//! The target registry: the contracts that may be wagered on, each tied to a
//! calendar day and an incident class, and the rules by which the registry
//! is pruned and refilled from the venue's market list.

use crate::calendar::{utc_today, CalendarDay};
use crate::markets::{
    day_from_question, day_of, month_from_question, month_of, IncidentType, Market, MarketView,
    Month,
};
use crate::text::same_text;
use vstd::prelude::*;

verus! {

/// The pause between two cycles of the registry update, in seconds.
pub const CHECK_MARKETS_INTERVAL_SECONDS: u64 = 6;

/// One contract that may be wagered on, with the day and the incident class
/// that trigger the wager.
#[derive(Debug)]
pub struct TargetIndicident {
    pub contract_id: String,
    pub day: u32,
    pub incident_type: IncidentType,
    pub month: u32,
}

/// What a target holds, as plain values.
pub struct TargetView {
    pub contract_id: Seq<char>,
    pub month: u32,
    pub day: u32,
    pub incident_type: IncidentType,
}

impl TargetView {
    /// The calendar day that the target is tied to.
    pub open spec fn date(self) -> CalendarDay {
        CalendarDay { month: self.month, day: self.day }
    }

    /// The target's day has fully elapsed on `today`.
    pub open spec fn is_past_on(self, today: CalendarDay) -> bool {
        self.date().precedes(today)
    }

    /// The target is tied to `today` and to incidents of class `kind`.
    pub open spec fn matches(self, today: CalendarDay, kind: IncidentType) -> bool {
        self.month == today.month && self.day == today.day && self.incident_type == kind
    }
}

impl View for TargetIndicident {
    type V = TargetView;

    open spec fn view(&self) -> TargetView {
        TargetView {
            contract_id: self.contract_id@,
            month: self.month,
            day: self.day,
            incident_type: self.incident_type,
        }
    }
}

impl Clone for TargetIndicident {
    fn clone(&self) -> (copy: Self)
        ensures
            copy == *self,
    {
        TargetIndicident {
            contract_id: self.contract_id.clone(),
            day: self.day,
            incident_type: self.incident_type,
            month: self.month,
        }
    }
}

impl TargetIndicident {
    pub fn new(contract_id: String, month: u32, day: u32, incident_type: IncidentType) -> (target:
        TargetIndicident)
        ensures
            target.contract_id == contract_id,
            target.month == month,
            target.day == day,
            target.incident_type == incident_type,
    {
        TargetIndicident { contract_id, day, incident_type, month }
    }

    /// Tells whether the target's day has fully elapsed on `today`.
    pub fn is_past_on(&self, today: &CalendarDay) -> (past: bool)
        ensures
            past == self@.is_past_on(*today),
    {
        today.month > self.month || (today.month == self.month && today.day > self.day)
    }

    /// Tells whether the target's day has fully elapsed by the clock. The
    /// answer is that of `is_past_on` for the day that the clock gave.
    pub fn is_past(&self) -> (past: bool)
        ensures
            exists|today: CalendarDay| today.in_calendar() && past == self@.is_past_on(today),
    {
        let today = utc_today();
        self.is_past_on(&today)
    }

    /// Tells whether the target is tied to `today` and to incidents of class
    /// `incident_type`.
    pub fn matches(&self, today: &CalendarDay, incident_type: &IncidentType) -> (hit: bool)
        ensures
            hit == self@.matches(*today, *incident_type),
    {
        self.month == today.month && self.day == today.day && self.incident_type
            == *incident_type
    }
}

/// The views of a run of targets, in order.
pub open spec fn views_of(targets: Seq<TargetIndicident>) -> Seq<TargetView> {
    targets.map_values(|t: TargetIndicident| t@)
}

/// Some target in `targets` is for the contract `id`.
pub open spec fn has_id(targets: Seq<TargetView>, id: Seq<char>) -> bool {
    exists|i: int| 0 <= i < targets.len() && (#[trigger] targets[i]).contract_id == id
}

/// No two targets in `targets` are for the same contract.
pub open spec fn distinct_ids(targets: Seq<TargetView>) -> bool {
    forall|i: int, j: int|
        0 <= i < j < targets.len() ==> (#[trigger] targets[i]).contract_id != (
        #[trigger] targets[j]).contract_id
}

/// The test that a target's day has not fully elapsed on `today`.
pub open spec fn is_live(today: CalendarDay) -> spec_fn(TargetView) -> bool {
    |t: TargetView| !t.is_past_on(today)
}

/// The test that a target is tied to `today` and to the class `kind`.
pub open spec fn is_match(today: CalendarDay, kind: IncidentType) -> spec_fn(TargetView) -> bool {
    |t: TargetView| t.matches(today, kind)
}

/// Every target in `targets` is dated `today` or later.
pub open spec fn all_live(targets: Seq<TargetView>, today: CalendarDay) -> bool {
    forall|i: int| 0 <= i < targets.len() ==> !(#[trigger] targets[i]).is_past_on(today)
}

/// Why a cycle of the registry update cannot go on: a market that qualifies
/// as a target has a title without a day, or without a month.
#[derive(Clone, Copy, Debug, PartialEq, Eq, Structural)]
pub enum UpdateError {
    MissingDay,
    MissingMonth,
}

/// The target that a market stands for: none where the market does not
/// qualify, an error where it qualifies and its title lacks the day or the
/// month. The day is looked for first.
pub open spec fn target_of(market: MarketView) -> Result<Option<TargetView>, UpdateError> {
    match market.incident_type() {
        None => Ok(None),
        Some(kind) => match day_of(market.question) {
            None => Err(UpdateError::MissingDay),
            Some(day) => match month_of(market.question) {
                None => Err(UpdateError::MissingMonth),
                Some(month) => Ok(
                    Some(
                        TargetView {
                            contract_id: market.id,
                            month: month.number_spec(),
                            day,
                            incident_type: kind,
                        },
                    ),
                ),
            },
        },
    }
}

/// The registry after a newly found target was offered to it: the target is
/// appended unless its day has elapsed or its contract is already there.
pub open spec fn admitted(
    targets: Seq<TargetView>,
    found: TargetView,
    today: CalendarDay,
) -> Seq<TargetView> {
    if found.is_past_on(today) || has_id(targets, found.contract_id) {
        targets
    } else {
        targets.push(found)
    }
}

/// The registry after a list of markets was gone through in order, and the
/// error that stopped the walk, if one did. Markets after the one that
/// failed are not looked at.
pub open spec fn merged(targets: Seq<TargetView>, markets: Seq<MarketView>, today: CalendarDay) -> (
    Seq<TargetView>,
    Option<UpdateError>,
)
    decreases markets.len(),
{
    if markets.len() == 0 {
        (targets, None)
    } else {
        let (before, failed) = merged(targets, markets.drop_last(), today);
        if failed.is_some() {
            (before, failed)
        } else {
            match target_of(markets.last()) {
                Err(error) => (before, Some(error)),
                Ok(None) => (before, None),
                Ok(Some(found)) => (admitted(before, found, today), None),
            }
        }
    }
}

/// The views of a list of markets, in order.
pub open spec fn market_views(markets: Seq<Market>) -> Seq<MarketView> {
    markets.map_values(|m: Market| m@)
}

/// Filtering one element more either appends that element or changes nothing.
pub proof fn lemma_filter_step<A>(s: Seq<A>, pred: spec_fn(A) -> bool, i: int)
    requires
        0 <= i < s.len(),
    ensures
        s.subrange(0, i + 1).filter(pred) == if pred(s[i]) {
            s.subrange(0, i).filter(pred).push(s[i])
        } else {
            s.subrange(0, i).filter(pred)
        },
{
    reveal(Seq::filter);
    assert(s.subrange(0, i + 1).drop_last() == s.subrange(0, i));
}

/// Pruning removes every target dated before `today` and keeps every other,
/// and nothing else comes in.
pub proof fn lemma_prune_keeps_exactly_the_live(
    targets: Seq<TargetView>,
    today: CalendarDay,
    target: TargetView,
)
    ensures
        targets.filter(is_live(today)).contains(target) <==> (targets.contains(target)
            && !target.is_past_on(today)),
{
    let live = targets.filter(is_live(today));
    if live.contains(target) {
        let k = choose|k: int| 0 <= k < live.len() && live[k] == target;
        targets.lemma_filter_pred(is_live(today), k);
        targets.lemma_filter_contains_rev(is_live(today), target);
    }
    if targets.contains(target) && !target.is_past_on(today) {
        let k = choose|k: int| 0 <= k < targets.len() && targets[k] == target;
        targets.lemma_filter_contains(is_live(today), k);
    }
}

/// Once a market has stopped the walk, the markets after it change nothing.
pub proof fn lemma_merged_stops(
    targets: Seq<TargetView>,
    markets: Seq<MarketView>,
    n: int,
    today: CalendarDay,
)
    requires
        0 <= n <= markets.len(),
        merged(targets, markets.subrange(0, n), today).1.is_some(),
    ensures
        merged(targets, markets, today) == merged(targets, markets.subrange(0, n), today),
    decreases markets.len() - n,
{
    if n == markets.len() {
        assert(markets.subrange(0, n) == markets);
    } else {
        assert(markets.subrange(0, n + 1).drop_last() == markets.subrange(0, n));
        lemma_merged_stops(targets, markets, n + 1, today);
    }
}

/// A market whose day has elapsed, or whose contract the registry has, leaves
/// the registry as it is.
pub proof fn lemma_past_or_known_target_is_not_added(
    targets: Seq<TargetView>,
    found: TargetView,
    today: CalendarDay,
)
    requires
        found.is_past_on(today) || has_id(targets, found.contract_id),
    ensures
        admitted(targets, found, today) == targets,
{
}

/// Builds the target for a market of the given incident class from the day
/// and the month that were found in its title. A missing day is reported
/// before a missing month.
pub fn target_from_parts(
    market: &Market,
    incident_type: IncidentType,
    day: Option<u32>,
    month: Option<Month>,
) -> (built: Result<TargetIndicident, UpdateError>)
    ensures
        match built {
            Ok(target) => day.is_some() && month.is_some() && target@ == (TargetView {
                contract_id: market@.id,
                month: month.unwrap().number_spec(),
                day: day.unwrap(),
                incident_type,
            }),
            Err(error) => error == (if day.is_none() {
                UpdateError::MissingDay
            } else {
                UpdateError::MissingMonth
            }) && (day.is_none() || month.is_none()),
        },
{
    match day {
        None => Err(UpdateError::MissingDay),
        Some(day) => match month {
            None => Err(UpdateError::MissingMonth),
            Some(month) => Ok(
                TargetIndicident::new(market.id.clone(), month.number(), day, incident_type),
            ),
        },
    }
}

/// Classifies a market: the target it stands for, nothing where it does not
/// qualify, or the error of a qualifying market whose title lacks a date.
pub fn target_from_market(market: &Market) -> (found: Result<
    Option<TargetIndicident>,
    UpdateError,
>)
    ensures
        match found {
            Ok(Some(target)) => target_of(market@) == Ok::<Option<TargetView>, UpdateError>(
                Some(target@),
            ),
            Ok(None) => target_of(market@) == Ok::<Option<TargetView>, UpdateError>(None),
            Err(error) => target_of(market@) == Err::<Option<TargetView>, UpdateError>(error),
        },
{
    match market.incident_type() {
        None => Ok(None),
        Some(kind) => {
            let day = day_from_question(market.question.as_str());
            let month = month_from_question(market.question.as_str());
            match target_from_parts(market, kind, day, month) {
                Ok(target) => Ok(Some(target)),
                Err(error) => Err(error),
            }
        },
    }
}

/// The registry of live targets, at most one for each contract.
#[derive(Debug)]
pub struct TargetMarkets {
    entries: Vec<TargetIndicident>,
}

impl View for TargetMarkets {
    type V = Seq<TargetView>;

    closed spec fn view(&self) -> Seq<TargetView> {
        views_of(self.entries@)
    }
}

impl TargetMarkets {
    /// No contract has two targets.
    pub open spec fn well_formed(&self) -> bool {
        distinct_ids(self@)
    }

    /// An empty registry.
    pub fn new() -> (registry: TargetMarkets)
        ensures
            registry@ == Seq::<TargetView>::empty(),
            registry.well_formed(),
    {
        let registry = TargetMarkets { entries: Vec::new() };
        proof {
            assert(registry@ == Seq::<TargetView>::empty());
        }
        registry
    }

    /// The number of targets.
    pub fn len(&self) -> (count: usize)
        ensures
            count == self@.len(),
    {
        self.entries.len()
    }

    /// The targets, oldest first.
    pub fn targets(&self) -> (all: &Vec<TargetIndicident>)
        ensures
            views_of(all@) == self@,
    {
        &self.entries
    }

    /// Where the target for a contract stands, if the registry has one.
    fn position_of(&self, contract_id: &str) -> (found: Option<usize>)
        ensures
            match found {
                Some(i) => i < self@.len() && self@[i as int].contract_id == contract_id@,
                None => !has_id(self@, contract_id@),
            },
    {
        let mut i: usize = 0;
        while i < self.entries.len()
            invariant
                i <= self.entries.len(),
                forall|k: int| 0 <= k < i ==> (#[trigger] self@[k]).contract_id != contract_id@,
            decreases self.entries.len() - i,
        {
            if same_text(self.entries[i].contract_id.as_str(), contract_id) {
                return Some(i);
            }
            i = i + 1;
        }
        None
    }

    /// Tells whether the registry holds a target for a contract.
    pub fn target_exists(&self, contract_id: &str) -> (exists: bool)
        ensures
            exists == has_id(self@, contract_id@),
    {
        self.position_of(contract_id).is_some()
    }

    /// Puts a target into the registry. A target for the same contract is
    /// replaced where it stands; otherwise the new one goes to the end.
    pub fn add_new_target(&mut self, target: TargetIndicident)
        requires
            old(self).well_formed(),
        ensures
            final(self).well_formed(),
            has_id(old(self)@, target@.contract_id) ==> exists|i: int|
                0 <= i < old(self)@.len() && old(self)@[i].contract_id == target@.contract_id
                    && final(self)@ == old(self)@.update(i, target@),
            !has_id(old(self)@, target@.contract_id) ==> final(self)@ == old(self)@.push(
                target@,
            ),
    {
        let ghost before = self@;
        match self.position_of(target.contract_id.as_str()) {
            Some(i) => {
                self.entries.set(i, target);
                proof {
                    assert(self@ == before.update(i as int, target@));
                }
            },
            None => {
                self.entries.push(target);
                proof {
                    assert(self@ == before.push(target@));
                }
            },
        }
    }

    /// Removes the targets whose day has fully elapsed on `today`, and keeps
    /// the others in their order.
    pub fn clear_targets_before(&mut self, today: &CalendarDay)
        requires
            old(self).well_formed(),
        ensures
            final(self).well_formed(),
            final(self)@ == old(self)@.filter(is_live(*today)),
            all_live(final(self)@, *today),
    {
        let ghost before = self@;
        let mut kept: Vec<TargetIndicident> = Vec::new();
        let mut i: usize = 0;
        proof {
            reveal(Seq::filter);
            assert(before.subrange(0, 0) == Seq::<TargetView>::empty());
            assert(views_of(kept@) == Seq::<TargetView>::empty());
        }
        while i < self.entries.len()
            invariant
                i <= self.entries.len(),
                self@ == before,
                distinct_ids(before),
                views_of(kept@) == before.subrange(0, i as int).filter(is_live(*today)),
                distinct_ids(views_of(kept@)),
                all_live(views_of(kept@), *today),
                forall|a: int, j: int|
                    0 <= a < kept@.len() && i <= j < before.len() ==> (#[trigger] views_of(
                        kept@,
                    )[a]).contract_id != (#[trigger] before[j]).contract_id,
            decreases self.entries.len() - i,
        {
            let ghost kept_before = views_of(kept@);
            proof {
                lemma_filter_step(before, is_live(*today), i as int);
            }
            if !self.entries[i].is_past_on(today) {
                kept.push(self.entries[i].clone());
                proof {
                    assert(views_of(kept@) == kept_before.push(before[i as int]));
                }
            }
            i = i + 1;
        }
        proof {
            assert(before.subrange(0, i as int) == before);
        }
        self.entries = kept;
    }

    /// Removes the targets whose day has fully elapsed by the clock: what
    /// `clear_targets_before` removes for the day that the clock gave.
    pub fn clear_old_targets(&mut self)
        requires
            old(self).well_formed(),
        ensures
            final(self).well_formed(),
            exists|today: CalendarDay|
                today.in_calendar() && final(self)@ == old(self)@.filter(is_live(today)),
    {
        let today = utc_today();
        self.clear_targets_before(&today);
    }

    /// The targets tied to `today` and to incidents of class `incident_type`,
    /// in the registry's order.
    pub fn matching_targets(&self, today: &CalendarDay, incident_type: &IncidentType) -> (hits: Vec<
        TargetIndicident,
    >)
        ensures
            views_of(hits@) == self@.filter(is_match(*today, *incident_type)),
    {
        let ghost all = self@;
        let ghost pred = is_match(*today, *incident_type);
        let mut hits: Vec<TargetIndicident> = Vec::new();
        let mut i: usize = 0;
        proof {
            reveal(Seq::filter);
            assert(all.subrange(0, 0) == Seq::<TargetView>::empty());
            assert(views_of(hits@) == Seq::<TargetView>::empty());
        }
        while i < self.entries.len()
            invariant
                i <= self.entries.len(),
                self@ == all,
                pred == is_match(*today, *incident_type),
                views_of(hits@) == all.subrange(0, i as int).filter(pred),
            decreases self.entries.len() - i,
        {
            let ghost hits_before = views_of(hits@);
            proof {
                lemma_filter_step(all, pred, i as int);
            }
            if self.entries[i].matches(today, incident_type) {
                hits.push(self.entries[i].clone());
                proof {
                    assert(views_of(hits@) == hits_before.push(all[i as int]));
                }
            }
            i = i + 1;
        }
        proof {
            assert(all.subrange(0, i as int) == all);
        }
        hits
    }

    /// Goes through a list of markets in order and takes in the target of
    /// each market that qualifies, unless its day has elapsed on `today` or
    /// its contract is already in the registry. The first qualifying market
    /// whose title lacks a date stops the walk with an error; what was taken
    /// in before it stays.
    pub fn merge_markets(&mut self, markets: &Vec<Market>, today: &CalendarDay) -> (done: Result<
        (),
        UpdateError,
    >)
        requires
            old(self).well_formed(),
        ensures
            final(self).well_formed(),
            merged(old(self)@, market_views(markets@), *today) == (
                final(self)@,
                match done {
                    Ok(_) => None::<UpdateError>,
                    Err(error) => Some(error),
                },
            ),
            all_live(old(self)@, *today) ==> all_live(final(self)@, *today),
    {
        let ghost before = self@;
        let ghost views = market_views(markets@);
        let mut i: usize = 0;
        proof {
            assert(views.subrange(0, 0) == Seq::<MarketView>::empty());
        }
        while i < markets.len()
            invariant
                i <= markets.len(),
                views == market_views(markets@),
                before == old(self)@,
                self.well_formed(),
                merged(before, views.subrange(0, i as int), *today) == (
                    self@,
                    None::<UpdateError>,
                ),
                all_live(before, *today) ==> all_live(self@, *today),
            decreases markets.len() - i,
        {
            let ghost so_far = self@;
            proof {
                assert(views.subrange(0, i + 1).drop_last() == views.subrange(0, i as int));
                assert(views.subrange(0, i + 1).last() == markets@[i as int]@);
            }
            match target_from_market(&markets[i]) {
                Err(error) => {
                    proof {
                        lemma_merged_stops(before, views, i + 1, *today);
                    }
                    return Err(error);
                },
                Ok(None) => {},
                Ok(Some(target)) => {
                    if !target.is_past_on(today) && !self.target_exists(
                        target.contract_id.as_str(),
                    ) {
                        self.entries.push(target);
                        proof {
                            assert(self@ == so_far.push(target@));
                        }
                    }
                },
            }
            i = i + 1;
        }
        proof {
            assert(views.subrange(0, i as int) == views);
        }
        Ok(())
    }

    /// One cycle of the registry update on a fresh market list: the targets
    /// whose day has elapsed on `today` leave, then the list is merged in.
    /// Whether the cycle ends well or not, no target that stays is dated
    /// before `today`.
    pub fn refresh(&mut self, markets: &Vec<Market>, today: &CalendarDay) -> (done: Result<
        (),
        UpdateError,
    >)
        requires
            old(self).well_formed(),
        ensures
            final(self).well_formed(),
            all_live(final(self)@, *today),
            merged(old(self)@.filter(is_live(*today)), market_views(markets@), *today) == (
                final(self)@,
                match done {
                    Ok(_) => None::<UpdateError>,
                    Err(error) => Some(error),
                },
            ),
    {
        self.clear_targets_before(today);
        self.merge_markets(markets, today)
    }
}

/// One cycle of the registry update by the clock: `refresh` for the day that
/// the clock gave.
pub fn update_targets(target_markets: &mut TargetMarkets, markets: &Vec<Market>) -> (done: Result<
    (),
    UpdateError,
>)
    requires
        old(target_markets).well_formed(),
    ensures
        final(target_markets).well_formed(),
        exists|today: CalendarDay|
            today.in_calendar() && all_live(final(target_markets)@, today) && merged(
                old(target_markets)@.filter(is_live(today)),
                market_views(markets@),
                today,
            ) == (
                final(target_markets)@,
                match done {
                    Ok(_) => None::<UpdateError>,
                    Err(error) => Some(error),
                },
            ),
{
    let today = utc_today();
    target_markets.refresh(markets, &today)
}

} // verus!
