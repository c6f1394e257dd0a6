use calabi::calendar::{is_excluded_date, CalendarDay};
use calabi::markets::{IncidentType, Market, Outcome};
use calabi::registry::{
    target_from_market, target_from_parts, update_targets, TargetIndicident, TargetMarkets,
    UpdateError,
};
use calabi::scanner::{
    bets_on, CycleEnd, CyclePlan, CycleStart, ExclusionSet, Scanner, DEFAULT_BET_SIZE,
    EXCLUSION_DAY_SLEEP_MINUTES, GITHUB_POLL_INTERVAL_MS, NR_OF_BETS,
};
use calabi::status::{
    classify_response, is_success_code, FetchVerdict, Reading, StatusEnvelope,
};

const IBLUE: &str = "HBlWMFF8XkcatdnIfNt0RPoCrXy1";

fn day(month: u32, day: u32) -> CalendarDay {
    CalendarDay::new(month, day)
}

fn target(id: &str, month: u32, day: u32, kind: IncidentType) -> TargetIndicident {
    TargetIndicident::new(id.to_string(), month, day, kind)
}

fn status(indicator: &str) -> StatusEnvelope {
    StatusEnvelope::new("some description".to_string(), indicator.to_string())
}

fn market(id: &str, creator: &str, question: &str) -> Market {
    Market::new(id.to_string(), creator.to_string(), question.to_string())
}

fn ids(registry: &TargetMarkets) -> Vec<String> {
    registry.targets().iter().map(|t| t.contract_id.clone()).collect()
}

#[test]
fn envelope_getters() {
    let s = StatusEnvelope::new("All Systems Operational".to_string(), "none".to_string());
    assert_eq!(s.description(), "All Systems Operational");
    assert_eq!(s.indicator(), "none");
    assert!(s.is_ok());
    assert!(!status("minor").is_ok());
    assert!(!status("None").is_ok());
    assert!(!status("").is_ok());
}

#[test]
fn envelope_reading() {
    assert_eq!(status("none").reading().unwrap(), Reading::Calm);
    assert_eq!(status("minor").reading().unwrap(), Reading::Incident(IncidentType::Any));
    assert_eq!(status("major").reading().unwrap(), Reading::Incident(IncidentType::Any));
    assert_eq!(status("critical").reading().unwrap(), Reading::Incident(IncidentType::Red));
    assert_eq!(status("weird").reading().unwrap_err().indicator, "weird");
}

#[test]
fn response_verdicts() {
    assert_eq!(classify_response(429), FetchVerdict::RetryLater);
    assert_eq!(classify_response(200), FetchVerdict::Decode);
    assert_eq!(classify_response(204), FetchVerdict::Decode);
    assert_eq!(classify_response(299), FetchVerdict::Decode);
    assert_eq!(classify_response(199), FetchVerdict::Fail);
    assert_eq!(classify_response(300), FetchVerdict::Fail);
    assert_eq!(classify_response(404), FetchVerdict::Fail);
    assert_eq!(classify_response(428), FetchVerdict::Fail);
    assert_eq!(classify_response(430), FetchVerdict::Fail);
    assert_eq!(classify_response(500), FetchVerdict::Fail);
    assert_eq!(classify_response(0), FetchVerdict::Fail);
}

#[test]
fn success_codes_are_the_two_hundreds() {
    assert!(is_success_code(200));
    assert!(is_success_code(201));
    assert!(is_success_code(299));
    assert!(!is_success_code(199));
    assert!(!is_success_code(300));
    assert!(!is_success_code(401));
    assert!(!is_success_code(429));
    assert!(!is_success_code(503));
}

#[test]
fn calendar_order() {
    assert!(day(8, 29).is_before(&day(8, 30)));
    assert!(day(7, 31).is_before(&day(8, 1)));
    assert!(!day(8, 30).is_before(&day(8, 30)));
    assert!(!day(9, 1).is_before(&day(8, 30)));
    assert!(!day(8, 31).is_before(&day(8, 30)));
}

#[test]
fn cycle_by_the_clock_begins_on_a_calendar_day() {
    let s = Scanner::new();
    let (today, start) = s.begin_cycle();
    assert!((1..=12).contains(&today.month));
    assert!((1..=31).contains(&today.day));
    assert_eq!(start, s.begin_cycle_on(&today));
}

#[test]
fn blackout_is_the_sixth_of_september() {
    assert!(is_excluded_date(&day(9, 6)));
    assert!(!is_excluded_date(&day(9, 5)));
    assert!(!is_excluded_date(&day(9, 7)));
    assert!(!is_excluded_date(&day(6, 9)));
    assert!(!is_excluded_date(&day(8, 30)));
}

#[test]
fn target_past_and_match() {
    let t = target("X", 8, 30, IncidentType::Red);
    assert!(t.is_past_on(&day(8, 31)));
    assert!(t.is_past_on(&day(9, 1)));
    assert!(!t.is_past_on(&day(8, 30)));
    assert!(!t.is_past_on(&day(8, 29)));
    assert!(!t.is_past_on(&day(7, 31)));
    assert!(t.matches(&day(8, 30), &IncidentType::Red));
    assert!(!t.matches(&day(8, 30), &IncidentType::Any));
    assert!(!t.matches(&day(8, 29), &IncidentType::Red));
    assert!(!t.matches(&day(9, 30), &IncidentType::Red));
}

#[test]
fn target_past_by_the_clock() {
    assert!(!target("X", 13, 1, IncidentType::Any).is_past());
    assert!(target("X", 0, 1, IncidentType::Any).is_past());
}

#[test]
fn registry_starts_empty() {
    let r = TargetMarkets::new();
    assert_eq!(r.len(), 0);
    assert!(r.targets().is_empty());
    assert!(!r.target_exists("X"));
}

#[test]
fn registry_keeps_one_target_per_contract() {
    let mut r = TargetMarkets::new();
    r.add_new_target(target("A", 8, 30, IncidentType::Any));
    r.add_new_target(target("B", 9, 1, IncidentType::Red));
    r.add_new_target(target("A", 10, 2, IncidentType::Red));
    assert_eq!(r.len(), 2);
    assert_eq!(ids(&r), vec!["A".to_string(), "B".to_string()]);
    assert_eq!(r.targets()[0].month, 10);
    assert_eq!(r.targets()[0].day, 2);
    assert_eq!(r.targets()[0].incident_type, IncidentType::Red);
    assert!(r.target_exists("A"));
    assert!(r.target_exists("B"));
    assert!(!r.target_exists("C"));
    assert!(!r.target_exists(""));
}

#[test]
fn pruning_removes_the_past_and_keeps_the_rest() {
    let mut r = TargetMarkets::new();
    r.add_new_target(target("last-month", 7, 31, IncidentType::Any));
    r.add_new_target(target("yesterday", 8, 29, IncidentType::Any));
    r.add_new_target(target("today", 8, 30, IncidentType::Red));
    r.add_new_target(target("tomorrow", 8, 31, IncidentType::Any));
    r.add_new_target(target("next-month", 9, 1, IncidentType::Red));
    r.clear_targets_before(&day(8, 30));
    assert_eq!(
        ids(&r),
        vec!["today".to_string(), "tomorrow".to_string(), "next-month".to_string()]
    );
}

#[test]
fn pruning_by_the_clock() {
    let mut r = TargetMarkets::new();
    r.add_new_target(target("never-past", 13, 1, IncidentType::Any));
    r.add_new_target(target("always-past", 0, 1, IncidentType::Any));
    r.clear_old_targets();
    assert_eq!(ids(&r), vec!["never-past".to_string()]);
}

#[test]
fn matching_targets_are_for_day_and_class() {
    let mut r = TargetMarkets::new();
    r.add_new_target(target("A", 8, 30, IncidentType::Any));
    r.add_new_target(target("B", 8, 30, IncidentType::Red));
    r.add_new_target(target("C", 8, 31, IncidentType::Red));
    r.add_new_target(target("D", 8, 30, IncidentType::Red));
    let hits = r.matching_targets(&day(8, 30), &IncidentType::Red);
    let hit_ids: Vec<&str> = hits.iter().map(|t| t.contract_id.as_str()).collect();
    assert_eq!(hit_ids, vec!["B", "D"]);
    assert!(r.matching_targets(&day(9, 30), &IncidentType::Red).is_empty());
}

#[test]
fn market_becomes_a_target() {
    let m = market("X", IBLUE, "Will GitHub have a red incident on August 30th 2023?");
    let t = target_from_market(&m).unwrap().unwrap();
    assert_eq!(t.contract_id, "X");
    assert_eq!(t.month, 8);
    assert_eq!(t.day, 30);
    assert_eq!(t.incident_type, IncidentType::Red);
    let m = market("Y", IBLUE, "Will GitHub have any incident on DECEMBER 1st 2023?");
    let t = target_from_market(&m).unwrap().unwrap();
    assert_eq!((t.month, t.day, t.incident_type), (12, 1, IncidentType::Any));
}

#[test]
fn market_of_a_stranger_is_no_target() {
    let m = market("X", "stranger", "Will GitHub have a red incident on August 30th 2023?");
    assert!(target_from_market(&m).unwrap().is_none());
    let m = market("X", IBLUE, "Will it rain on August 30th 2023?");
    assert!(target_from_market(&m).unwrap().is_none());
    // A stranger's market without a date is no error either.
    let m = market("X", "stranger", "Will GitHub have a red incident?");
    assert!(target_from_market(&m).unwrap().is_none());
}

#[test]
fn qualifying_market_without_date_is_an_error() {
    let m = market("X", IBLUE, "Will GitHub have any incident?");
    assert_eq!(target_from_market(&m).unwrap_err(), UpdateError::MissingDay);
    let m = market("X", IBLUE, "Will GitHub have any incident in August?");
    assert_eq!(target_from_market(&m).unwrap_err(), UpdateError::MissingDay);
    let m = market("X", IBLUE, "Will GitHub have any incident on July 30th?");
    assert_eq!(target_from_market(&m).unwrap_err(), UpdateError::MissingMonth);
}

#[test]
fn target_from_parts_reports_the_day_first() {
    let m = market("X", IBLUE, "q");
    assert_eq!(
        target_from_parts(&m, IncidentType::Any, None, None).unwrap_err(),
        UpdateError::MissingDay
    );
    assert_eq!(
        target_from_parts(&m, IncidentType::Any, None, Some(calabi::markets::Month::August))
            .unwrap_err(),
        UpdateError::MissingDay
    );
    assert_eq!(
        target_from_parts(&m, IncidentType::Any, Some(3), None).unwrap_err(),
        UpdateError::MissingMonth
    );
    let t = target_from_parts(
        &m,
        IncidentType::Red,
        Some(3),
        Some(calabi::markets::Month::October),
    )
    .unwrap();
    assert_eq!((t.contract_id.as_str(), t.month, t.day), ("X", 10, 3));
    assert_eq!(t.incident_type, IncidentType::Red);
}

#[test]
fn merge_takes_new_live_targets_only() {
    let mut r = TargetMarkets::new();
    r.add_new_target(target("known", 9, 9, IncidentType::Any));
    let markets = vec![
        market("known", IBLUE, "Will GitHub have a red incident on October 1st 2023?"),
        market("past", IBLUE, "Will GitHub have a red incident on August 29th 2023?"),
        market("other", "stranger", "Will GitHub have a red incident on October 1st 2023?"),
        market("today", IBLUE, "Will GitHub have any incident on August 30th 2023?"),
        market("later", IBLUE, "Will GitHub have a red incident on November 2nd 2023?"),
        market("later", IBLUE, "Will GitHub have any incident on November 3rd 2023?"),
    ];
    assert!(r.merge_markets(&markets, &day(8, 30)).is_ok());
    assert_eq!(
        ids(&r),
        vec!["known".to_string(), "today".to_string(), "later".to_string()]
    );
    // The target that was there is not overwritten, and the first listing wins.
    assert_eq!(r.targets()[0].month, 9);
    assert_eq!(r.targets()[0].incident_type, IncidentType::Any);
    assert_eq!(r.targets()[2].day, 2);
    assert_eq!(r.targets()[2].incident_type, IncidentType::Red);
}

#[test]
fn merge_stops_at_the_first_market_without_a_date() {
    let mut r = TargetMarkets::new();
    let markets = vec![
        market("a", IBLUE, "Will GitHub have any incident on October 1st 2023?"),
        market("b", IBLUE, "Will GitHub have any incident on the 1st of May?"),
        market("c", IBLUE, "Will GitHub have any incident on October 3rd 2023?"),
    ];
    assert_eq!(r.merge_markets(&markets, &day(8, 30)), Err(UpdateError::MissingMonth));
    assert_eq!(ids(&r), vec!["a".to_string()]);
}

#[test]
fn refresh_prunes_before_it_merges() {
    let mut r = TargetMarkets::new();
    r.add_new_target(target("old", 8, 1, IncidentType::Any));
    r.add_new_target(target("live", 12, 24, IncidentType::Any));
    let markets = vec![
        market("old", IBLUE, "Will GitHub have any incident on December 31st 2023?"),
    ];
    assert!(r.refresh(&markets, &day(8, 30)).is_ok());
    assert_eq!(ids(&r), vec!["live".to_string(), "old".to_string()]);
    assert_eq!(r.targets()[1].month, 12);
    assert_eq!(r.targets()[1].day, 31);
    for t in r.targets() {
        assert!(!t.is_past_on(&day(8, 30)));
    }
}

#[test]
fn refresh_keeps_the_registry_live_on_error() {
    let mut r = TargetMarkets::new();
    r.add_new_target(target("old", 8, 1, IncidentType::Any));
    let markets = vec![market("bad", IBLUE, "Will GitHub have a red incident?")];
    assert_eq!(r.refresh(&markets, &day(8, 30)), Err(UpdateError::MissingDay));
    assert!(r.targets().is_empty());
}

#[test]
fn update_by_the_clock_ignores_strangers() {
    let mut r = TargetMarkets::new();
    r.add_new_target(target("never-past", 13, 1, IncidentType::Any));
    let markets = vec![market("s", "stranger", "Will GitHub have any incident?")];
    assert!(update_targets(&mut r, &markets).is_ok());
    assert_eq!(ids(&r), vec!["never-past".to_string()]);
}

#[test]
fn past_red_market_is_classified_and_discarded() {
    let m = market("X", IBLUE, "Will GitHub have a red incident on August 29th 2023?");
    let t = target_from_market(&m).unwrap().unwrap();
    assert_eq!(t.incident_type, IncidentType::Red);
    assert!(t.is_past_on(&day(8, 30)));
    let mut r = TargetMarkets::new();
    assert!(r.refresh(&vec![m], &day(8, 30)).is_ok());
    assert_eq!(r.len(), 0);
    assert!(!r.target_exists("X"));
}

#[test]
fn exclusion_set_grows_only() {
    let mut s = ExclusionSet::new();
    assert!(!s.contains("X"));
    s.insert("X".to_string());
    assert!(s.contains("X"));
    assert!(!s.contains("Y"));
    s.insert("Y".to_string());
    s.insert("X".to_string());
    assert!(s.contains("X"));
    assert!(s.contains("Y"));
    assert!(!s.contains(""));
}

#[test]
fn bets_are_two_per_target_in_order() {
    let targets = vec![
        target("A", 8, 30, IncidentType::Red),
        target("B", 8, 30, IncidentType::Red),
    ];
    let bets = bets_on(&targets);
    assert_eq!(NR_OF_BETS, 2);
    assert_eq!(DEFAULT_BET_SIZE, 500);
    let got: Vec<(&str, Outcome, u32)> =
        bets.iter().map(|b| (b.contract_id.as_str(), b.outcome, b.amount)).collect();
    assert_eq!(
        got,
        vec![
            ("A", Outcome::Yes, 500),
            ("A", Outcome::Yes, 500),
            ("B", Outcome::Yes, 500),
            ("B", Outcome::Yes, 500),
        ]
    );
    assert!(bets_on(&Vec::new()).is_empty());
}

#[test]
fn cycle_begins_with_a_poll_or_a_cool_down() {
    let s = Scanner::new();
    assert_eq!(s.begin_cycle_on(&day(8, 30)), CycleStart::Poll);
    assert_eq!(s.begin_cycle_on(&day(9, 5)), CycleStart::Poll);
    assert_eq!(s.begin_cycle_on(&day(9, 6)), CycleStart::CoolDown { minutes: 20 });
    assert_eq!(EXCLUSION_DAY_SLEEP_MINUTES, 20);
}

#[test]
fn nothing_is_planned_on_a_blackout_day() {
    let mut r = TargetMarkets::new();
    r.add_new_target(target("X", 9, 6, IncidentType::Red));
    let s = Scanner::new();
    let plan = s.plan_cycle(&day(9, 6), &status("critical"), &r).unwrap();
    assert!(matches!(plan, CyclePlan::Suspended));
    let plan = s.plan_cycle(&day(9, 6), &status("unreadable"), &r).unwrap();
    assert!(matches!(plan, CyclePlan::Suspended));
}

#[test]
fn calm_status_plans_a_short_sleep() {
    let mut r = TargetMarkets::new();
    r.add_new_target(target("X", 8, 30, IncidentType::Red));
    let s = Scanner::new();
    match s.plan_cycle(&day(8, 30), &status("none"), &r).unwrap() {
        CyclePlan::Idle { sleep_ms } => {
            assert_eq!(sleep_ms, 500);
            assert_eq!(GITHUB_POLL_INTERVAL_MS, 500);
        }
        other => panic!("unexpected plan: {:?}", other),
    }
}

#[test]
fn unreadable_status_is_an_error() {
    let r = TargetMarkets::new();
    let s = Scanner::new();
    let err = s.plan_cycle(&day(8, 30), &status("purple"), &r).unwrap_err();
    assert_eq!(err.indicator, "purple");
}

#[test]
fn critical_status_bets_on_the_red_target_of_today() {
    let mut r = TargetMarkets::new();
    r.add_new_target(target("X", 8, 30, IncidentType::Red));
    let mut s = Scanner::new();
    assert_eq!(s.begin_cycle_on(&day(8, 30)), CycleStart::Poll);
    match s.plan_cycle(&day(8, 30), &status("critical"), &r).unwrap() {
        CyclePlan::Dispatch { targets, bets } => {
            assert_eq!(targets.len(), 1);
            assert_eq!(targets[0].contract_id, "X");
            assert_eq!(bets.len(), 2);
            for bet in &bets {
                assert_eq!(bet.contract_id, "X");
                assert_eq!(bet.outcome, Outcome::Yes);
                assert_eq!(bet.outcome.wire_name(), "YES");
                assert_eq!(bet.amount, 500);
            }
            assert_eq!(s.close_cycle(&targets, true), CycleEnd::Sleep { sleep_ms: 500 });
        }
        other => panic!("unexpected plan: {:?}", other),
    }
    assert!(s.is_excluded("X"));
}

#[test]
fn next_cycle_leaves_the_contract_alone() {
    let mut r = TargetMarkets::new();
    r.add_new_target(target("X", 8, 30, IncidentType::Red));
    let mut s = Scanner::new();
    let first = s.due_targets(&r, &day(8, 30), &IncidentType::Red);
    assert_eq!(first.len(), 1);
    s.record_bets(&first);
    match s.plan_cycle(&day(8, 30), &status("critical"), &r).unwrap() {
        CyclePlan::Dispatch { targets, bets, .. } => {
            assert!(targets.is_empty());
            assert!(bets.is_empty());
        }
        other => panic!("unexpected plan: {:?}", other),
    }
    // Nor on any later day or under another listing of the same contract.
    r.add_new_target(target("X", 8, 31, IncidentType::Any));
    match s.plan_cycle(&day(8, 31), &status("minor"), &r).unwrap() {
        CyclePlan::Dispatch { targets, bets, .. } => {
            assert!(targets.is_empty());
            assert!(bets.is_empty());
        }
        other => panic!("unexpected plan: {:?}", other),
    }
}

#[test]
fn failed_batch_stops_the_scanner_and_leaves_the_contract_open() {
    let mut r = TargetMarkets::new();
    r.add_new_target(target("X", 8, 30, IncidentType::Red));
    let mut s = Scanner::new();
    for _ in 0..2 {
        match s.plan_cycle(&day(8, 30), &status("critical"), &r).unwrap() {
            CyclePlan::Dispatch { targets, bets } => {
                assert_eq!(bets.len(), 2);
                assert_eq!(s.close_cycle(&targets, false), CycleEnd::Stop);
            }
            other => panic!("unexpected plan: {:?}", other),
        }
        assert!(!s.is_excluded("X"));
    }
}

#[test]
fn minor_status_does_not_match_a_red_target() {
    let mut r = TargetMarkets::new();
    r.add_new_target(target("X", 8, 30, IncidentType::Red));
    let s = Scanner::new();
    match s.plan_cycle(&day(8, 30), &status("minor"), &r).unwrap() {
        CyclePlan::Dispatch { targets, bets, .. } => {
            assert!(targets.is_empty());
            assert!(bets.is_empty());
        }
        other => panic!("unexpected plan: {:?}", other),
    }
    assert!(!s.is_excluded("X"));
}

#[test]
fn due_targets_skip_excluded_contracts_only() {
    let mut r = TargetMarkets::new();
    r.add_new_target(target("A", 8, 30, IncidentType::Any));
    r.add_new_target(target("B", 8, 30, IncidentType::Any));
    r.add_new_target(target("C", 8, 30, IncidentType::Any));
    let mut s = Scanner::new();
    s.record_bets(&vec![target("B", 8, 30, IncidentType::Any)]);
    let due = s.due_targets(&r, &day(8, 30), &IncidentType::Any);
    let due_ids: Vec<&str> = due.iter().map(|t| t.contract_id.as_str()).collect();
    assert_eq!(due_ids, vec!["A", "C"]);
}
