//! Domain model for the search service: rating tiers, levels, and the
//! decoders for the service's numeric encodings.

use vstd::prelude::*;
use vstd::string::*;

use crate::error::BotError;

verus! {

/// The six named rating tiers, lowest first.
#[derive(Debug, Clone, Copy, PartialEq, Eq, Structural)]
pub enum Tier {
    Bronze,
    Silver,
    Gold,
    Platinum,
    Diamond,
    Ruby,
}

/// Display adornment appended to a user's class number.
#[derive(Debug, Clone, Copy, PartialEq, Eq, Structural)]
pub enum ClassDecoration {
    Normal,
    Silver,
    Gold,
}

/// A decoded rating: either unranked, or a tier with a grade in `1..=5`
/// (`1` is the highest grade within a tier).
#[derive(Debug, Clone, Copy, PartialEq, Eq, Structural)]
pub enum Level {
    Unranked,
    Ranked(Tier, u8),
}

impl Level {
    /// A ranked level's grade always lies in `1..=5`.
    pub open spec fn wf(self) -> bool {
        match self {
            Level::Unranked => true,
            Level::Ranked(_, grade) => 1 <= grade <= 5,
        }
    }
}

/// The tier a raw level code in `1..=30` falls into: buckets of five,
/// lowest bucket `Bronze`, highest `Ruby`.
pub open spec fn spec_tier_of(code: int) -> Tier {
    if code <= 5 {
        Tier::Bronze
    } else if code <= 10 {
        Tier::Silver
    } else if code <= 15 {
        Tier::Gold
    } else if code <= 20 {
        Tier::Platinum
    } else if code <= 25 {
        Tier::Diamond
    } else {
        Tier::Ruby
    }
}

/// The grade a raw level code in `1..=30` carries within its tier:
/// `5` at the bucket's bottom down to `1` at its top.
pub open spec fn spec_grade_of(code: int) -> int {
    5 - (code - 1) % 5
}

/// Decode the service's raw integer level code.
///
/// `0` is unranked; `1..=30` is a ranked tier and grade; anything else is
/// invalid data from upstream.
pub fn decode_level(raw: i64) -> (r: Result<Level, BotError>)
    ensures
        raw == 0 ==> r == Ok::<Level, BotError>(Level::Unranked),
        1 <= raw <= 30 ==> r == Ok::<Level, BotError>(
            Level::Ranked(spec_tier_of(raw as int), spec_grade_of(raw as int) as u8),
        ),
        !(0 <= raw <= 30) ==> r == Err::<Level, BotError>(BotError::InvalidLevel(raw)),
        r matches Ok(level) ==> level.wf(),
{
    if raw == 0 {
        Ok(Level::Unranked)
    } else if 1 <= raw && raw <= 30 {
        let tier = if raw <= 5 {
            Tier::Bronze
        } else if raw <= 10 {
            Tier::Silver
        } else if raw <= 15 {
            Tier::Gold
        } else if raw <= 20 {
            Tier::Platinum
        } else if raw <= 25 {
            Tier::Diamond
        } else {
            Tier::Ruby
        };
        let grade: u8 = (5 - (raw - 1) % 5) as u8;
        Ok(Level::Ranked(tier, grade))
    } else {
        Err(BotError::InvalidLevel(raw))
    }
}

/// How a count field arrived on the wire: the service answers either a
/// number or, when the true value is unavailable, an empty list. Only the
/// list's length matters for decoding, so that is what is carried.
#[derive(Debug, Clone, Copy, PartialEq, Eq, Structural)]
pub enum RawCount {
    Number(i64),
    List(usize),
}

/// Normalize a count field: a number in `0..=u32::MAX` is itself, an empty
/// list stands for `0`, and anything else is malformed.
pub fn decode_count(raw: RawCount) -> (r: Result<u32, BotError>)
    ensures
        match raw {
            RawCount::Number(n) => if 0 <= n <= u32::MAX {
                r == Ok::<u32, BotError>(n as u32)
            } else {
                r == Err::<u32, BotError>(BotError::MalformedCount)
            },
            RawCount::List(len) => if len == 0 {
                r == Ok::<u32, BotError>(0u32)
            } else {
                r == Err::<u32, BotError>(BotError::MalformedCount)
            },
        },
{
    match raw {
        RawCount::Number(n) => {
            if 0 <= n && n <= u32::MAX as i64 {
                Ok(n as u32)
            } else {
                Err(BotError::MalformedCount)
            }
        },
        RawCount::List(len) => {
            if len == 0 {
                Ok(0)
            } else {
                Err(BotError::MalformedCount)
            }
        },
    }
}

/// A tier's display name.
pub open spec fn spec_tier_name(t: Tier) -> Seq<char> {
    match t {
        Tier::Bronze => "Bronze"@,
        Tier::Silver => "Silver"@,
        Tier::Gold => "Gold"@,
        Tier::Platinum => "Platinum"@,
        Tier::Diamond => "Diamond"@,
        Tier::Ruby => "Ruby"@,
    }
}

impl Tier {
    /// The tier's display name, per [`spec_tier_name`].
    pub fn name(&self) -> (r: &'static str)
        ensures
            r@ == spec_tier_name(*self),
    {
        match self {
            Tier::Bronze => "Bronze",
            Tier::Silver => "Silver",
            Tier::Gold => "Gold",
            Tier::Platinum => "Platinum",
            Tier::Diamond => "Diamond",
            Tier::Ruby => "Ruby",
        }
    }
}

/// The Roman numeral for a grade in `1..=5`.
pub open spec fn spec_grade_numeral(grade: int) -> Seq<char> {
    if grade == 1 {
        "I"@
    } else if grade == 2 {
        "II"@
    } else if grade == 3 {
        "III"@
    } else if grade == 4 {
        "IV"@
    } else {
        "V"@
    }
}

/// A level's display text: `Unranked`, or the tier name followed by the
/// grade's Roman numeral.
pub open spec fn spec_level_text(level: Level) -> Seq<char> {
    match level {
        Level::Unranked => "Unranked"@,
        Level::Ranked(tier, grade) => spec_tier_name(tier) + " "@ + spec_grade_numeral(grade as int),
    }
}

impl Level {
    /// Render the level for display, per [`spec_level_text`].
    pub fn render(&self) -> (r: String)
        requires
            self.wf(),
        ensures
            r@ == spec_level_text(*self),
    {
        match self {
            Level::Unranked => "Unranked".to_owned(),
            Level::Ranked(tier, grade) => {
                let numeral: &str = if *grade == 1 {
                    "I"
                } else if *grade == 2 {
                    "II"
                } else if *grade == 3 {
                    "III"
                } else if *grade == 4 {
                    "IV"
                } else {
                    "V"
                };
                let mut s = tier.name().to_owned();
                s.append(" ");
                s.append(numeral);
                proof {
                    assert(s@ =~= spec_level_text(*self));
                }
                s
            },
        }
    }
}

/// An autocomplete hint carried through the search envelope.
#[derive(Debug, Clone)]
pub struct AutoComplete {
    pub caption: String,
    pub description: String,
}

/// One problem record from a search response.
#[derive(Debug, Clone)]
pub struct Problem {
    pub id: u32,
    pub title: String,
    pub level: Level,
    pub solved: usize,
    pub caption: String,
    pub description: String,
    pub href: String,
}

/// One user record from a search response.
#[derive(Debug, Clone)]
pub struct User {
    pub user_id: String,
    pub bio: String,
    pub profile_image_url: Option<String>,
    pub solved: u32,
    pub exp: u64,
    pub level: Level,
    pub class: u8,
    pub class_decoration: ClassDecoration,
    pub vote_count: u32,
    pub rank: u32,
}

/// One algorithm-tag record from a search response.
#[derive(Debug, Clone)]
pub struct Algorithm {
    pub tag_name: String,
    pub full_name_en: String,
    pub full_name_ko: String,
    pub problem_count: u32,
    pub caption: String,
    pub description: String,
    pub href: String,
}

/// One wiki-entry record from a search response.
#[derive(Debug, Clone)]
pub struct Wiki {
    pub title: String,
    pub caption: String,
    pub description: String,
    pub href: String,
}

/// A full search response: the matched records of each kind, plus the
/// normalized count fields.
#[derive(Debug, Clone)]
pub struct Search {
    pub autocomplete: Vec<AutoComplete>,
    pub problems: Vec<Problem>,
    pub problem_count: u32,
    pub users: Vec<User>,
    pub user_count: u32,
    pub algorithms: Vec<Algorithm>,
    pub algorithm_count: u32,
    pub wiki_articles: Vec<Wiki>,
}

impl Search {
    /// Every decoded level in the response is well formed; the decoders
    /// establish this for anything built from upstream data.
    pub open spec fn wf(self) -> bool {
        &&& forall|i: int|
            0 <= i < self.problems@.len() ==> (#[trigger] self.problems@[i]).level.wf()
        &&& forall|i: int| 0 <= i < self.users@.len() ==> (#[trigger] self.users@[i]).level.wf()
    }
}

/// Unwrap the search envelope: the service answers `{result: Search}` on
/// success and no payload at all when it has nothing usable, which is the
/// `EmptySearchResult` failure carrying the original query for diagnostics.
pub fn resolve_search_result(result: Option<Search>, query: &str) -> (r: Result<Search, BotError>)
    ensures
        result matches Some(s) ==> r == Ok::<Search, BotError>(s),
        result is None ==> (r matches Err(e) && (e matches BotError::EmptySearchResult(q) && q@
            == query@)),
{
    match result {
        Some(s) => Ok(s),
        None => Err(BotError::EmptySearchResult(query.to_owned())),
    }
}

} // verus!
