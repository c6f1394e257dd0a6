//! The scanner's decisions, one poll cycle at a time: whether to poll at all,
//! which bets follow from a status report, and which contracts are left
//! alone because they were wagered on before.

use crate::calendar::{blackout_days, is_excluded_date, utc_today, CalendarDay};
use crate::markets::{IncidentType, Outcome, UnknownIndicator};
use crate::registry::{
    has_id, is_match, lemma_filter_step, views_of, TargetIndicident, TargetMarkets, TargetView,
};
use crate::status::{reading_of, Reading, StatusEnvelope};
use crate::text::same_text;
use vstd::prelude::*;

verus! {

/// The pause between two polls of the status feed, in milliseconds.
pub const GITHUB_POLL_INTERVAL_MS: u64 = 500;

/// The amount of each bet.
pub const DEFAULT_BET_SIZE: u32 = 500;

/// The number of bets placed on each target that matches.
pub const NR_OF_BETS: u32 = 2;

/// The pause on a day on which betting is suspended, in minutes.
pub const EXCLUSION_DAY_SLEEP_MINUTES: u64 = 20;

/// The contracts that were wagered on since the process started.
#[derive(Debug)]
pub struct ExclusionSet {
    ids: Vec<String>,
}

impl View for ExclusionSet {
    type V = Set<Seq<char>>;

    closed spec fn view(&self) -> Set<Seq<char>> {
        Set::new(
            |id: Seq<char>|
                exists|i: int| 0 <= i < self.ids@.len() && (#[trigger] self.ids@[i])@ == id,
        )
    }
}

impl ExclusionSet {
    /// A set without contracts.
    pub fn new() -> (set: ExclusionSet)
        ensures
            set@ == Set::<Seq<char>>::empty(),
    {
        let set = ExclusionSet { ids: Vec::new() };
        proof {
            assert(set@ =~= Set::<Seq<char>>::empty());
        }
        set
    }

    /// Tells whether a contract is in the set.
    pub fn contains(&self, contract_id: &str) -> (found: bool)
        ensures
            found == self@.contains(contract_id@),
    {
        let mut i: usize = 0;
        while i < self.ids.len()
            invariant
                i <= self.ids.len(),
                forall|k: int| 0 <= k < i ==> (#[trigger] self.ids@[k])@ != contract_id@,
            decreases self.ids.len() - i,
        {
            if same_text(self.ids[i].as_str(), contract_id) {
                return true;
            }
            i = i + 1;
        }
        false
    }

    /// Adds a contract to the set. Nothing ever leaves it.
    pub fn insert(&mut self, contract_id: String)
        ensures
            final(self)@ == old(self)@.insert(contract_id@),
    {
        let ghost before = self.ids@;
        self.ids.push(contract_id);
        proof {
            assert forall|id: Seq<char>| self@.contains(id) == old(self)@.insert(
                contract_id@,
            ).contains(id) by {
                if old(self)@.contains(id) {
                    let k = choose|k: int| 0 <= k < before.len() && (#[trigger] before[k])@ == id;
                    assert(self.ids@[k]@ == id);
                }
                if id == contract_id@ {
                    assert(self.ids@[before.len() as int]@ == id);
                }
            }
            assert(self@ =~= old(self)@.insert(contract_id@));
        }
    }
}

/// One bet to be placed at the venue.
#[derive(Debug)]
pub struct BetOrder {
    pub contract_id: String,
    pub outcome: Outcome,
    pub amount: u32,
}

/// What a bet order holds, as plain values.
pub struct BetView {
    pub contract_id: Seq<char>,
    pub outcome: Outcome,
    pub amount: u32,
}

impl View for BetOrder {
    type V = BetView;

    open spec fn view(&self) -> BetView {
        BetView { contract_id: self.contract_id@, outcome: self.outcome, amount: self.amount }
    }
}

/// The views of a run of bet orders, in order.
pub open spec fn bet_views(bets: Seq<BetOrder>) -> Seq<BetView> {
    bets.map_values(|b: BetOrder| b@)
}

/// The test that a target's contract is not among the excluded ones.
pub open spec fn not_excluded(excluded: Set<Seq<char>>) -> spec_fn(TargetView) -> bool {
    |t: TargetView| !excluded.contains(t.contract_id)
}

/// The targets that a cycle wagers on: those of the registry that are tied
/// to `today` and the incident class `kind`, without the excluded contracts,
/// in the registry's order.
pub open spec fn due_targets(
    registry: Seq<TargetView>,
    excluded: Set<Seq<char>>,
    today: CalendarDay,
    kind: IncidentType,
) -> Seq<TargetView> {
    registry.filter(is_match(today, kind)).filter(not_excluded(excluded))
}

/// The bets for a run of targets: for each target in turn, `NR_OF_BETS` bets
/// of `DEFAULT_BET_SIZE` on the outcome yes.
pub open spec fn bets_for(targets: Seq<TargetView>) -> Seq<BetView> {
    Seq::new(
        targets.len() * NR_OF_BETS as nat,
        |i: int|
            BetView {
                contract_id: targets[i / NR_OF_BETS as int].contract_id,
                outcome: Outcome::Yes,
                amount: DEFAULT_BET_SIZE,
            },
    )
}

/// The contracts of a run of targets.
pub open spec fn contracts_of(targets: Seq<TargetView>) -> Set<Seq<char>> {
    Set::new(|id: Seq<char>| has_id(targets, id))
}

/// How a poll cycle begins.
#[derive(Clone, Copy, Debug, PartialEq, Eq, Structural)]
pub enum CycleStart {
    /// Betting is suspended today: sleep for the given minutes and begin
    /// again, without a poll.
    CoolDown { minutes: u64 },
    /// Poll the status feed.
    Poll,
}

/// How a cycle begins on `today`: with a long sleep on a day on which
/// betting is suspended, with a poll on any other day.
pub open spec fn cycle_start_on(today: CalendarDay) -> CycleStart {
    if blackout_days().contains(today) {
        CycleStart::CoolDown { minutes: EXCLUSION_DAY_SLEEP_MINUTES }
    } else {
        CycleStart::Poll
    }
}

/// How a cycle ends once its bets were sent.
#[derive(Clone, Copy, Debug, PartialEq, Eq, Structural)]
pub enum CycleEnd {
    /// Every bet went through: sleep for the given milliseconds and begin
    /// again.
    Sleep { sleep_ms: u64 },
    /// A bet failed: the scanner stops for good.
    Stop,
}

/// What a poll cycle does once the status report is in.
#[derive(Debug)]
pub enum CyclePlan {
    /// Betting is suspended today: nothing is placed.
    Suspended,
    /// No incident: sleep for the given milliseconds and begin again.
    Idle { sleep_ms: u64 },
    /// Place `bets` together, then close the cycle with what became of them.
    Dispatch { targets: Vec<TargetIndicident>, bets: Vec<BetOrder> },
}

/// What a poll cycle does, as plain values.
pub enum PlanView {
    Suspended,
    Idle { sleep_ms: u64 },
    Dispatch { targets: Seq<TargetView>, bets: Seq<BetView> },
}

impl View for CyclePlan {
    type V = PlanView;

    open spec fn view(&self) -> PlanView {
        match *self {
            CyclePlan::Suspended => PlanView::Suspended,
            CyclePlan::Idle { sleep_ms } => PlanView::Idle { sleep_ms },
            CyclePlan::Dispatch { targets, bets } => PlanView::Dispatch {
                targets: views_of(targets@),
                bets: bet_views(bets@),
            },
        }
    }
}

impl PlanView {
    /// The bets that the plan places.
    pub open spec fn bets(self) -> Seq<BetView> {
        match self {
            PlanView::Dispatch { bets, .. } => bets,
            _ => Seq::empty(),
        }
    }
}

/// The plan that follows from a status indicator: nothing on a day on which
/// betting is suspended; idling where the indicator is calm; the bets for
/// the due targets where it names an incident; no plan where it cannot be
/// read.
pub open spec fn planned(
    registry: Seq<TargetView>,
    excluded: Set<Seq<char>>,
    today: CalendarDay,
    indicator: Seq<char>,
) -> Option<PlanView> {
    if blackout_days().contains(today) {
        Some(PlanView::Suspended)
    } else {
        match reading_of(indicator) {
            None => None,
            Some(Reading::Calm) => Some(PlanView::Idle { sleep_ms: GITHUB_POLL_INTERVAL_MS }),
            Some(Reading::Incident(kind)) => {
                let targets = due_targets(registry, excluded, today, kind);
                Some(
                    PlanView::Dispatch { targets, bets: bets_for(targets) },
                )
            },
        }
    }
}

/// No due target is for an excluded contract.
pub proof fn lemma_due_targets_avoid_excluded(
    registry: Seq<TargetView>,
    excluded: Set<Seq<char>>,
    today: CalendarDay,
    kind: IncidentType,
    i: int,
)
    requires
        0 <= i < due_targets(registry, excluded, today, kind).len(),
    ensures
        !excluded.contains(due_targets(registry, excluded, today, kind)[i].contract_id),
        due_targets(registry, excluded, today, kind)[i].matches(today, kind),
{
    let matching = registry.filter(is_match(today, kind));
    matching.lemma_filter_pred(not_excluded(excluded), i);
    let t = due_targets(registry, excluded, today, kind)[i];
    assert(matching.filter(not_excluded(excluded)).contains(t));
    matching.lemma_filter_contains_rev(not_excluded(excluded), t);
    let k = choose|k: int| 0 <= k < matching.len() && matching[k] == t;
    registry.lemma_filter_pred(is_match(today, kind), k);
}

/// Once a contract is excluded, no plan places a bet on it: whatever the
/// registry holds, whatever the day and whatever the status feed reports.
pub proof fn lemma_excluded_contract_gets_no_bet(
    registry: Seq<TargetView>,
    excluded: Set<Seq<char>>,
    today: CalendarDay,
    indicator: Seq<char>,
    contract_id: Seq<char>,
    i: int,
)
    requires
        excluded.contains(contract_id),
        planned(registry, excluded, today, indicator).is_some(),
        0 <= i < planned(registry, excluded, today, indicator).unwrap().bets().len(),
    ensures
        planned(registry, excluded, today, indicator).unwrap().bets()[i].contract_id
            != contract_id,
{
    match reading_of(indicator) {
        Some(Reading::Incident(kind)) => {
            let targets = due_targets(registry, excluded, today, kind);
            assert(0 <= i / (NR_OF_BETS as int) < targets.len()) by (nonlinear_arith)
                requires
                    0 <= i < targets.len() * NR_OF_BETS as nat,
                    NR_OF_BETS == 2,
            ;
            lemma_due_targets_avoid_excluded(
                registry,
                excluded,
                today,
                kind,
                i / (NR_OF_BETS as int),
            );
        },
        _ => {},
    }
}

/// A contract whose bets went through is never wagered on again: once it is
/// recorded, no plan of a later cycle places a bet on it, whatever else was
/// recorded in between.
pub proof fn lemma_recorded_contract_gets_no_bet(
    before: Set<Seq<char>>,
    recorded: Seq<TargetView>,
    later: Set<Seq<char>>,
    registry: Seq<TargetView>,
    today: CalendarDay,
    indicator: Seq<char>,
    contract_id: Seq<char>,
    i: int,
)
    requires
        has_id(recorded, contract_id),
        before.union(contracts_of(recorded)).subset_of(later),
        planned(registry, later, today, indicator).is_some(),
        0 <= i < planned(registry, later, today, indicator).unwrap().bets().len(),
    ensures
        planned(registry, later, today, indicator).unwrap().bets()[i].contract_id != contract_id,
{
    assert(before.union(contracts_of(recorded)).contains(contract_id));
    lemma_excluded_contract_gets_no_bet(registry, later, today, indicator, contract_id, i);
}

/// On a day on which betting is suspended, the cycle does not begin with a
/// poll, and no plan places a bet, whatever the status feed would report.
pub proof fn lemma_no_bets_on_blackout_day(
    registry: Seq<TargetView>,
    excluded: Set<Seq<char>>,
    today: CalendarDay,
    indicator: Seq<char>,
)
    requires
        blackout_days().contains(today),
    ensures
        cycle_start_on(today) != CycleStart::Poll,
        planned(registry, excluded, today, indicator) == Some(PlanView::Suspended),
        planned(registry, excluded, today, indicator).unwrap().bets().len() == 0,
{
}

/// The scanner's state between poll cycles.
#[derive(Debug)]
pub struct Scanner {
    excluded: ExclusionSet,
}

impl Scanner {
    /// The contracts that the scanner leaves alone.
    pub closed spec fn excluded(&self) -> Set<Seq<char>> {
        self.excluded@
    }

    /// A scanner that has wagered on nothing yet.
    pub fn new() -> (scanner: Scanner)
        ensures
            scanner.excluded() == Set::<Seq<char>>::empty(),
    {
        Scanner { excluded: ExclusionSet::new() }
    }

    /// Tells whether the scanner leaves a contract alone.
    pub fn is_excluded(&self, contract_id: &str) -> (found: bool)
        ensures
            found == self.excluded().contains(contract_id@),
    {
        self.excluded.contains(contract_id)
    }

    /// How a cycle begins on `today`: on a day on which betting is suspended
    /// the cycle is a long sleep, on any other day it goes on to poll the
    /// status feed.
    pub fn begin_cycle_on(&self, today: &CalendarDay) -> (start: CycleStart)
        ensures
            start == cycle_start_on(*today),
    {
        if is_excluded_date(today) {
            CycleStart::CoolDown { minutes: EXCLUSION_DAY_SLEEP_MINUTES }
        } else {
            CycleStart::Poll
        }
    }

    /// Begins a cycle by the clock: the day that the clock gave, and how the
    /// cycle begins on that day.
    pub fn begin_cycle(&self) -> (begun: (CalendarDay, CycleStart))
        ensures
            begun.0.in_calendar(),
            begun.1 == cycle_start_on(begun.0),
    {
        let today = utc_today();
        let start = self.begin_cycle_on(&today);
        (today, start)
    }

    /// The targets of the registry that are due on `today` for incidents of
    /// class `kind`, without the contracts that the scanner leaves alone.
    pub fn due_targets(
        &self,
        registry: &TargetMarkets,
        today: &CalendarDay,
        kind: &IncidentType,
    ) -> (due: Vec<TargetIndicident>)
        ensures
            views_of(due@) == due_targets(registry@, self.excluded(), *today, *kind),
    {
        let matching = registry.matching_targets(today, kind);
        let ghost all = views_of(matching@);
        let ghost pred = not_excluded(self.excluded());
        let mut due: Vec<TargetIndicident> = Vec::new();
        let mut i: usize = 0;
        proof {
            reveal(Seq::filter);
            assert(all.subrange(0, 0) == Seq::<TargetView>::empty());
            assert(views_of(due@) == Seq::<TargetView>::empty());
        }
        while i < matching.len()
            invariant
                i <= matching.len(),
                all == views_of(matching@),
                pred == not_excluded(self.excluded()),
                views_of(due@) == all.subrange(0, i as int).filter(pred),
            decreases matching.len() - i,
        {
            let ghost due_before = views_of(due@);
            proof {
                lemma_filter_step(all, pred, i as int);
            }
            if !self.excluded.contains(matching[i].contract_id.as_str()) {
                due.push(matching[i].clone());
                proof {
                    assert(views_of(due@) == due_before.push(all[i as int]));
                }
            }
            i = i + 1;
        }
        proof {
            assert(all.subrange(0, i as int) == all);
        }
        due
    }

    /// Decides what the cycle does with a status report. An indicator that
    /// cannot be read is an error, unless betting is suspended today.
    pub fn plan_cycle(
        &self,
        today: &CalendarDay,
        status: &StatusEnvelope,
        registry: &TargetMarkets,
    ) -> (plan: Result<CyclePlan, UnknownIndicator>)
        ensures
            match plan {
                Ok(plan) => planned(registry@, self.excluded(), *today, status@.indicator)
                    == Some(plan@),
                Err(unknown) => planned(registry@, self.excluded(), *today, status@.indicator)
                    .is_none() && unknown.indicator@ == status@.indicator,
            },
    {
        if is_excluded_date(today) {
            return Ok(CyclePlan::Suspended);
        }
        match status.reading() {
            Err(unknown) => Err(unknown),
            Ok(Reading::Calm) => Ok(CyclePlan::Idle { sleep_ms: GITHUB_POLL_INTERVAL_MS }),
            Ok(Reading::Incident(kind)) => {
                let targets = self.due_targets(registry, today, &kind);
                let bets = bets_on(&targets);
                Ok(CyclePlan::Dispatch { targets, bets })
            },
        }
    }

    /// Records that the bets on `targets` went through: their contracts are
    /// left alone from now on, and so is every contract that was before.
    pub fn record_bets(&mut self, targets: &Vec<TargetIndicident>)
        ensures
            final(self).excluded() == old(self).excluded().union(contracts_of(views_of(targets@))),
            old(self).excluded().subset_of(final(self).excluded()),
    {
        let ghost before = self.excluded();
        let ghost all = views_of(targets@);
        let mut i: usize = 0;
        proof {
            assert(before.union(contracts_of(all.subrange(0, 0))) =~= before);
        }
        while i < targets.len()
            invariant
                i <= targets.len(),
                all == views_of(targets@),
                self.excluded() == before.union(contracts_of(all.subrange(0, i as int))),
            decreases targets.len() - i,
        {
            self.excluded.insert(targets[i].contract_id.clone());
            proof {
                let shorter = all.subrange(0, i as int);
                let longer = all.subrange(0, i + 1);
                assert forall|id: Seq<char>| contracts_of(longer).contains(id) == contracts_of(
                    shorter,
                ).insert(all[i as int].contract_id).contains(id) by {
                    if contracts_of(shorter).contains(id) {
                        let k = choose|k: int|
                            0 <= k < shorter.len() && (#[trigger] shorter[k]).contract_id == id;
                        assert(longer[k].contract_id == id);
                    }
                    if id == all[i as int].contract_id {
                        assert(longer[i as int].contract_id == id);
                    }
                    if contracts_of(longer).contains(id) {
                        let k = choose|k: int|
                            0 <= k < longer.len() && (#[trigger] longer[k]).contract_id == id;
                        if k < i {
                            assert(shorter[k].contract_id == id);
                        }
                    }
                }
                assert(self.excluded() =~= before.union(contracts_of(longer)));
            }
            i = i + 1;
        }
        proof {
            assert(all.subrange(0, i as int) == all);
        }
    }

    /// Closes a cycle whose bets were sent. Where all of them went through,
    /// the contracts of `targets` are left alone from now on and the cycle
    /// ends in a short sleep. Where one failed, nothing is recorded and the
    /// scanner stops.
    pub fn close_cycle(&mut self, targets: &Vec<TargetIndicident>, all_placed: bool) -> (end:
        CycleEnd)
        ensures
            all_placed ==> end == (CycleEnd::Sleep { sleep_ms: GITHUB_POLL_INTERVAL_MS })
                && final(self).excluded() == old(self).excluded().union(
                contracts_of(views_of(targets@)),
            ),
            !all_placed ==> end == CycleEnd::Stop && final(self).excluded() == old(
                self,
            ).excluded(),
    {
        if all_placed {
            self.record_bets(targets);
            CycleEnd::Sleep { sleep_ms: GITHUB_POLL_INTERVAL_MS }
        } else {
            CycleEnd::Stop
        }
    }
}

/// Writes the bets for a run of targets: for each target in turn,
/// `NR_OF_BETS` bets of `DEFAULT_BET_SIZE` on the outcome yes.
pub fn bets_on(targets: &Vec<TargetIndicident>) -> (bets: Vec<BetOrder>)
    ensures
        bet_views(bets@) == bets_for(views_of(targets@)),
{
    let ghost all = views_of(targets@);
    let mut bets: Vec<BetOrder> = Vec::new();
    let mut i: usize = 0;
    while i < targets.len()
        invariant
            i <= targets.len(),
            all == views_of(targets@),
            bets@.len() == i * 2,
            forall|j: int| 0 <= j < bets@.len() ==> (#[trigger] bets@[j])@ == bets_for(all)[j],
        decreases targets.len() - i,
    {
        let mut k: u32 = 0;
        while k < NR_OF_BETS
            invariant
                i < targets.len(),
                k <= NR_OF_BETS,
                all == views_of(targets@),
                bets@.len() == i * 2 + k,
                forall|j: int| 0 <= j < bets@.len() ==> (#[trigger] bets@[j])@ == bets_for(all)[j],
            decreases NR_OF_BETS - k,
        {
            bets.push(
                BetOrder {
                    contract_id: targets[i].contract_id.clone(),
                    outcome: Outcome::Yes,
                    amount: DEFAULT_BET_SIZE,
                },
            );
            k = k + 1;
        }
        i = i + 1;
    }
    proof {
        assert(bet_views(bets@) =~= bets_for(all));
    }
    bets
}

} // verus!
