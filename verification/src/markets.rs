//! Markets as the venue lists them, and what their titles say: the incident
//! class a market is about, and the month and day it is tied to.

use crate::text::{
    contains_text, first_group, first_group_of, lowercase, lowercase_of, number_of, occurs_in,
    parse_number, same_text,
};
use vstd::prelude::*;

verus! {

/// The months in which the watched markets fall.
#[derive(Clone, Copy, Debug, PartialEq, Eq, Structural)]
pub enum Month {
    August,
    September,
    October,
    November,
    December,
}

impl Month {
    /// The month's number in the year.
    pub open spec fn number_spec(self) -> u32 {
        match self {
            Month::August => 8,
            Month::September => 9,
            Month::October => 10,
            Month::November => 11,
            Month::December => 12,
        }
    }

    /// The month's number in the year, 8 for August to 12 for December.
    pub fn number(self) -> (n: u32)
        ensures
            n == self.number_spec(),
            8 <= n <= 12,
    {
        match self {
            Month::August => 8,
            Month::September => 9,
            Month::October => 10,
            Month::November => 11,
            Month::December => 12,
        }
    }
}

impl From<Month> for u32 {
    fn from(month: Month) -> (n: u32)
        ensures
            n == month.number_spec(),
    {
        month.number()
    }
}

impl vstd::std_specs::convert::FromSpecImpl<Month> for u32 {
    open spec fn obeys_from_spec() -> bool {
        true
    }

    open spec fn from_spec(month: Month) -> u32 {
        month.number_spec()
    }
}

/// The first month, in the order August to December, whose English name
/// occurs in a lower-case text.
pub open spec fn month_named_in(lower: Seq<char>) -> Option<Month> {
    if occurs_in("august"@, lower) {
        Some(Month::August)
    } else if occurs_in("september"@, lower) {
        Some(Month::September)
    } else if occurs_in("october"@, lower) {
        Some(Month::October)
    } else if occurs_in("november"@, lower) {
        Some(Month::November)
    } else if occurs_in("december"@, lower) {
        Some(Month::December)
    } else {
        None
    }
}

/// The month that a market title names, whatever the case of its letters.
pub open spec fn month_of(question: Seq<char>) -> Option<Month> {
    month_named_in(lowercase_of(question))
}

/// The pattern that finds the day in a market title: the word `on`, a word,
/// and then one or two digits.
pub open spec fn day_pattern() -> Seq<char> {
    "on\\s+\\w+\\s+(\\d{1,2})"@
}

/// The day that a market title names: the number written by the digits that
/// the day pattern captures.
pub open spec fn day_of(question: Seq<char>) -> Option<u32> {
    match first_group_of(day_pattern(), question) {
        Some(digits) => number_of(digits),
        None => None,
    }
}

/// Finds the month named in a text that is already in lower case.
pub fn month_in_lowercase(lower: &str) -> (month: Option<Month>)
    ensures
        month == month_named_in(lower@),
{
    if contains_text(lower, "august") {
        Some(Month::August)
    } else if contains_text(lower, "september") {
        Some(Month::September)
    } else if contains_text(lower, "october") {
        Some(Month::October)
    } else if contains_text(lower, "november") {
        Some(Month::November)
    } else if contains_text(lower, "december") {
        Some(Month::December)
    } else {
        None
    }
}

/// Finds the month that a market title names.
pub fn month_from_question(question: &str) -> (month: Option<Month>)
    ensures
        month == month_of(question@),
{
    let lower = lowercase(question);
    month_in_lowercase(lower.as_str())
}

/// Finds the day of the month that a market title names.
pub fn day_from_question(question: &str) -> (day: Option<u32>)
    ensures
        day == day_of(question@),
{
    match first_group("on\\s+\\w+\\s+(\\d{1,2})", question) {
        Some(digits) => parse_number(digits.as_str()),
        None => None,
    }
}

/// The class of incident that a market is about.
#[derive(Clone, Copy, Debug, PartialEq, Eq, Structural)]
pub enum IncidentType {
    /// Any incident at all.
    Any,
    /// An incident of the highest severity.
    Red,
}

/// A status indicator that names no incident class.
#[derive(Debug)]
pub struct UnknownIndicator {
    pub indicator: String,
}

/// The incident class that a status indicator stands for: `minor` and
/// `major` are any incident, `critical` is a red one, and no other text
/// names a class.
pub open spec fn incident_type_of(indicator: Seq<char>) -> Option<IncidentType> {
    if indicator == "minor"@ || indicator == "major"@ {
        Some(IncidentType::Any)
    } else if indicator == "critical"@ {
        Some(IncidentType::Red)
    } else {
        None
    }
}

impl IncidentType {
    /// Classifies a status indicator. An indicator that names no class comes
    /// back in the error.
    pub fn from_indicator(indicator: &str) -> (parsed: Result<IncidentType, UnknownIndicator>)
        ensures
            match parsed {
                Ok(kind) => incident_type_of(indicator@) == Some(kind),
                Err(unknown) => incident_type_of(indicator@).is_none() && unknown.indicator@
                    == indicator@,
            },
    {
        if same_text(indicator, "minor") || same_text(indicator, "major") {
            Ok(IncidentType::Any)
        } else if same_text(indicator, "critical") {
            Ok(IncidentType::Red)
        } else {
            Err(UnknownIndicator { indicator: indicator.to_owned() })
        }
    }

    /// The class in words: `any` or `red`.
    pub fn label(&self) -> (name: &'static str)
        ensures
            name@ == (match *self {
                IncidentType::Any => "any"@,
                IncidentType::Red => "red"@,
            }),
    {
        match self {
            IncidentType::Any => "any",
            IncidentType::Red => "red",
        }
    }
}

impl std::str::FromStr for IncidentType {
    type Err = UnknownIndicator;

    fn from_str(s: &str) -> (parsed: Result<IncidentType, UnknownIndicator>)
        ensures
            match parsed {
                Ok(kind) => incident_type_of(s@) == Some(kind),
                Err(unknown) => incident_type_of(s@).is_none() && unknown.indicator@ == s@,
            },
    {
        IncidentType::from_indicator(s)
    }
}

/// The side of a market that a bet takes.
#[derive(Clone, Copy, Debug, PartialEq, Eq, Structural)]
pub enum Outcome {
    Yes,
    No,
}

impl Outcome {
    /// The name of the side in a bet request: `YES` or `NO`.
    pub fn wire_name(&self) -> (name: &'static str)
        ensures
            name@ == (match *self {
                Outcome::Yes => "YES"@,
                Outcome::No => "NO"@,
            }),
    {
        match self {
            Outcome::Yes => "YES",
            Outcome::No => "NO",
        }
    }
}

/// A market as the venue lists it.
#[derive(Debug)]
pub struct Market {
    pub id: String,
    pub creator_id: String,
    pub question: String,
}

/// What a market holds, as plain text.
pub struct MarketView {
    pub id: Seq<char>,
    pub creator_id: Seq<char>,
    pub question: Seq<char>,
}

impl View for Market {
    type V = MarketView;

    open spec fn view(&self) -> MarketView {
        MarketView { id: self.id@, creator_id: self.creator_id@, question: self.question@ }
    }
}

/// `creator` is one of the authors whose markets are wagered on.
pub open spec fn is_trusted_author(creator: Seq<char>) -> bool {
    creator == "HBlWMFF8XkcatdnIfNt0RPoCrXy1"@ || creator == "fwGK5b9peFQbclczNeQdgCtjlYT2"@
}

impl MarketView {
    /// A trusted author asks whether there will be any incident.
    pub open spec fn is_any_incident_market(self) -> bool {
        is_trusted_author(self.creator_id) && occurs_in(
            "Will GitHub have any incident"@,
            self.question,
        )
    }

    /// A trusted author asks whether there will be a red incident.
    pub open spec fn is_red_incident_market(self) -> bool {
        is_trusted_author(self.creator_id) && occurs_in(
            "Will GitHub have a red incident"@,
            self.question,
        )
    }

    /// The incident class that the market is a target for, if it is one. A
    /// title with both phrasings counts as asking for any incident.
    pub open spec fn incident_type(self) -> Option<IncidentType> {
        if self.is_any_incident_market() {
            Some(IncidentType::Any)
        } else if self.is_red_incident_market() {
            Some(IncidentType::Red)
        } else {
            None
        }
    }
}

impl Market {
    pub fn new(id: String, creator_id: String, question: String) -> (market: Market)
        ensures
            market.id == id,
            market.creator_id == creator_id,
            market.question == question,
    {
        Market { id, creator_id, question }
    }

    /// Tells whether one of the trusted authors created the market.
    pub fn has_trusted_author(&self) -> (trusted: bool)
        ensures
            trusted == is_trusted_author(self.creator_id@),
    {
        same_text(self.creator_id.as_str(), "HBlWMFF8XkcatdnIfNt0RPoCrXy1") || same_text(
            self.creator_id.as_str(),
            "fwGK5b9peFQbclczNeQdgCtjlYT2",
        )
    }

    /// Tells whether a trusted author asks here for any incident.
    pub fn is_any_incident_market(&self) -> (any: bool)
        ensures
            any == self@.is_any_incident_market(),
    {
        self.has_trusted_author() && contains_text(
            self.question.as_str(),
            "Will GitHub have any incident",
        )
    }

    /// Tells whether a trusted author asks here for a red incident.
    pub fn is_red_incident_market(&self) -> (red: bool)
        ensures
            red == self@.is_red_incident_market(),
    {
        self.has_trusted_author() && contains_text(
            self.question.as_str(),
            "Will GitHub have a red incident",
        )
    }

    /// The incident class that the market is a target for, if it is one.
    pub fn incident_type(&self) -> (kind: Option<IncidentType>)
        ensures
            kind == self@.incident_type(),
    {
        if self.is_any_incident_market() {
            Some(IncidentType::Any)
        } else if self.is_red_incident_market() {
            Some(IncidentType::Red)
        } else {
            None
        }
    }
}

} // verus!
