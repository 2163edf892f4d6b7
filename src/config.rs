//! The size-duration policy: a map from inclusive byte-size ranges to
//! retention durations, built from raw entries with validation.
use std::collections::BTreeMap;

use vstd::prelude::*;

use crate::duration::RetentionDuration;

verus! {

broadcast use vstd::std_specs::btree::group_btree_axioms, vstd::laws_cmp::group_laws_cmp;

/// Seconds that the default policy keeps a file: one day.
pub const DEFAULT_RETENTION_SECS: u64 = 86400;

/// A size range as a key of the policy: (lower, upper), both inclusive.
pub type SizeRange = (u64, u64);

/// A raw entry as the configuration gives it: lower bound, upper bound and
/// the duration text.
pub type RawEntry = (u64, u64, String);

/// `std::io::Error`, carried opaquely as the cause of an unreadable configuration.
#[verifier::external_type_specification]
#[verifier::external_body]
pub struct ExIoError(std::io::Error);

/// Why a configuration could not be turned into a policy.
#[derive(Debug)]
pub enum Error {
    /// The configuration file exists but could not be read.
    Io(std::io::Error),
    /// The configuration text is not a well-formed document of entries.
    ParseFailure(String),
    /// An entry's lower bound is greater than its upper bound.
    InvertedRange { lower: u64, upper: u64 },
    /// Two entries declare the same (lower, upper) pair.
    DuplicateRange { lower: u64, upper: u64 },
    /// An entry's duration text is not a duration; it carries the text.
    InvalidDuration(String),
}

/// The rejections that validation of entries can give, over plain values.
pub enum Rejection {
    InvertedRange { lower: u64, upper: u64 },
    DuplicateRange { lower: u64, upper: u64 },
    InvalidDuration(Seq<char>),
}

impl Error {
    /// This error is the given rejection.
    pub open spec fn is_rejection(self, r: Rejection) -> bool {
        match (self, r) {
            (Error::InvertedRange { lower, upper }, Rejection::InvertedRange { lower: l, upper: u }) =>
                lower == l && upper == u,
            (Error::DuplicateRange { lower, upper }, Rejection::DuplicateRange { lower: l, upper: u }) =>
                lower == l && upper == u,
            (Error::InvalidDuration(t), Rejection::InvalidDuration(s)) => t@ == s,
            _ => false,
        }
    }
}

/// The key of a raw entry.
pub open spec fn key_of(e: (u64, u64, Seq<char>)) -> SizeRange {
    (e.0, e.1)
}

/// Raw entries with their duration texts as character sequences.
pub open spec fn entries_view(entries: Seq<RawEntry>) -> Seq<(u64, u64, Seq<char>)> {
    entries.map_values(|e: RawEntry| (e.0, e.1, e.2@))
}

/// Validation of `entries` in order, inserting each into `limits`: the
/// finished map, or the first rejection. Each entry has its duration parsed
/// first, then its bounds checked, then its key checked against the keys
/// inserted before it.
pub open spec fn build_from(limits: Map<SizeRange, RetentionDuration>, entries: Seq<(u64, u64, Seq<char>)>)
    -> Result<Map<SizeRange, RetentionDuration>, Rejection>
    decreases entries.len(),
{
    if entries.len() == 0 {
        Ok(limits)
    } else {
        let e = entries[0];
        match RetentionDuration::parsed(e.2) {
            None => Err(Rejection::InvalidDuration(e.2)),
            Some(d) => if e.0 > e.1 {
                Err(Rejection::InvertedRange { lower: e.0, upper: e.1 })
            } else if limits.contains_key(key_of(e)) {
                Err(Rejection::DuplicateRange { lower: e.0, upper: e.1 })
            } else {
                build_from(limits.insert(key_of(e), d), entries.drop_first())
            },
        }
    }
}

/// An entry with its duration parsed: the duration, or the text that is not one.
pub type ParsedEntry = (u64, u64, Result<RetentionDuration, String>);

/// Parsed entries with their texts as character sequences.
pub open spec fn parsed_view(entries: Seq<ParsedEntry>) -> Seq<(u64, u64, Result<RetentionDuration, Seq<char>>)> {
    entries.map_values(|e: ParsedEntry| (e.0, e.1, match e.2 {
        Ok(d) => Ok(d),
        Err(t) => Err(t@),
    }))
}

/// A raw entry with its duration text parsed.
pub open spec fn parse_entry(e: (u64, u64, Seq<char>)) -> (u64, u64, Result<RetentionDuration, Seq<char>>) {
    (e.0, e.1, match RetentionDuration::parsed(e.2) {
        Some(d) => Ok(d),
        None => Err(e.2),
    })
}

/// Validation of parsed `entries` in order, inserting each into `limits`:
/// the finished map, or the first rejection.
pub open spec fn validate_from(
    limits: Map<SizeRange, RetentionDuration>,
    entries: Seq<(u64, u64, Result<RetentionDuration, Seq<char>>)>,
) -> Result<Map<SizeRange, RetentionDuration>, Rejection>
    decreases entries.len(),
{
    if entries.len() == 0 {
        Ok(limits)
    } else {
        let e = entries[0];
        match e.2 {
            Err(t) => Err(Rejection::InvalidDuration(t)),
            Ok(d) => if e.0 > e.1 {
                Err(Rejection::InvertedRange { lower: e.0, upper: e.1 })
            } else if limits.contains_key((e.0, e.1)) {
                Err(Rejection::DuplicateRange { lower: e.0, upper: e.1 })
            } else {
                validate_from(limits.insert((e.0, e.1), d), entries.drop_first())
            },
        }
    }
}

/// Validation of parsed entries from an empty policy.
pub open spec fn validate(entries: Seq<(u64, u64, Result<RetentionDuration, Seq<char>>)>) -> Result<Map<SizeRange, RetentionDuration>, Rejection> {
    validate_from(Map::empty(), entries)
}

/// Parsing each duration first and then validating gives what validating
/// raw entries gives.
proof fn lemma_build_from_parsed(limits: Map<SizeRange, RetentionDuration>, entries: Seq<(u64, u64, Seq<char>)>)
    ensures
        build_from(limits, entries) == validate_from(limits, entries.map_values(|e| parse_entry(e))),
    decreases entries.len(),
{
    let parsed = entries.map_values(|e| parse_entry(e));
    if entries.len() > 0 {
        assert(parsed.drop_first() =~= entries.drop_first().map_values(|e| parse_entry(e)));
        match RetentionDuration::parsed(entries[0].2) {
            Some(d) => lemma_build_from_parsed(limits.insert(key_of(entries[0]), d), entries.drop_first()),
            None => {},
        }
    }
}

/// Validation of `entries` from an empty policy.
pub open spec fn build_spec(entries: Seq<(u64, u64, Seq<char>)>) -> Result<Map<SizeRange, RetentionDuration>, Rejection> {
    build_from(Map::empty(), entries)
}

/// A result of building is the outcome of validation: the same map, or the
/// same rejection.
pub open spec fn built_as(r: Result<Config, Error>, outcome: Result<Map<SizeRange, RetentionDuration>, Rejection>) -> bool {
    match outcome {
        Ok(m) => r matches Ok(c) && c@ == m && c.wf(),
        Err(j) => r matches Err(e) && e.is_rejection(j),
    }
}

/// The limits of the default policy: the whole size domain kept one day.
pub open spec fn default_limits() -> Map<SizeRange, RetentionDuration> {
    map![(0u64, u64::MAX) => RetentionDuration { secs: DEFAULT_RETENTION_SECS, nanos: 0 }]
}

/// A size falls in a range when it lies between its bounds, both included.
pub open spec fn in_range(k: SizeRange, size: u64) -> bool {
    k.0 <= size <= k.1
}

/// A validated policy: each key is an ordered range.
#[derive(Debug)]
pub struct Config {
    pub limits: BTreeMap<SizeRange, RetentionDuration>,
}

impl Config {
    pub open spec fn view(&self) -> Map<SizeRange, RetentionDuration> {
        self.limits@
    }

    pub open spec fn wf(&self) -> bool {
        forall|k: SizeRange| #[trigger] self@.contains_key(k) ==> k.0 <= k.1
    }

    /// Validates entries whose durations are already parsed, in order, and
    /// builds the policy from them. An entry's duration is `Err` with its text
    /// where the text was not a duration. The first entry with no duration,
    /// inverted bounds or a key already taken ends the build with that error.
    pub fn from_parsed(entries: &[ParsedEntry]) -> (r: Result<Config, Error>)
        ensures
            built_as(r, validate(parsed_view(entries@))),
    {
        let ghost all = parsed_view(entries@);
        let mut limits: BTreeMap<SizeRange, RetentionDuration> = BTreeMap::new();
        let mut i: usize = 0;
        assert(all.skip(0) =~= all);
        assert(limits@ =~= Map::empty());
        while i < entries.len()
            invariant
                0 <= i <= entries.len(),
                all == parsed_view(entries@),
                validate(all) == validate_from(limits@, all.skip(i as int)),
                forall|k: SizeRange| #[trigger] limits@.contains_key(k) ==> k.0 <= k.1,
            decreases entries.len() - i,
        {
            let lower = entries[i].0;
            let upper = entries[i].1;
            let ghost rest = all.skip(i as int);
            assert(rest[0] == all[i as int]);
            assert(rest.drop_first() =~= all.skip(i + 1));
            let d = match &entries[i].2 {
                Ok(d) => *d,
                Err(text) => {
                    return Err(Error::InvalidDuration(text.clone()));
                },
            };
            if lower > upper {
                return Err(Error::InvertedRange { lower, upper });
            }
            if limits.contains_key(&(lower, upper)) {
                return Err(Error::DuplicateRange { lower, upper });
            }
            limits.insert((lower, upper), d);
            i = i + 1;
        }
        assert(all.skip(i as int) =~= Seq::<(u64, u64, Result<RetentionDuration, Seq<char>>)>::empty());
        Ok(Config { limits })
    }

    /// Validates raw entries in order and builds the policy from them. The
    /// first entry with an unparsable duration, inverted bounds or a key
    /// already taken ends the build with that error.
    pub fn build(entries: &[RawEntry]) -> (r: Result<Config, Error>)
        ensures
            built_as(r, build_spec(entries_view(entries@))),
    {
        let mut parsed: Vec<ParsedEntry> = Vec::new();
        let mut i: usize = 0;
        while i < entries.len()
            invariant
                0 <= i <= entries.len(),
                parsed_view(parsed@) == entries_view(entries@).take(i as int).map_values(|e| parse_entry(e)),
            decreases entries.len() - i,
        {
            let text = &entries[i].2;
            let duration = match RetentionDuration::parse(text.as_str()) {
                Some(d) => Ok(d),
                None => Err(text.clone()),
            };
            let ghost before = parsed@;
            parsed.push((entries[i].0, entries[i].1, duration));
            proof {
                let all = entries_view(entries@);
                assert(all[i as int] == (entries@[i as int].0, entries@[i as int].1, entries@[i as int].2@));
                assert(parsed_view(parsed@) =~= parsed_view(before).push(parse_entry(all[i as int])));
                assert(all.take(i + 1) =~= all.take(i as int).push(all[i as int]));
            }
            i = i + 1;
            assert(parsed_view(parsed@) =~= entries_view(entries@).take(i as int).map_values(|e| parse_entry(e)));
        }
        proof {
            let all = entries_view(entries@);
            assert(all.take(i as int) =~= all);
            lemma_build_from_parsed(Map::empty(), all);
        }
        Config::from_parsed(parsed.as_slice())
    }

    /// The duration kept for exactly the range `[lower, upper]`, if the policy has it.
    pub fn get(&self, lower: u64, upper: u64) -> (r: Option<RetentionDuration>)
        ensures
            r == (if self@.contains_key((lower, upper)) {
                Some(self@[(lower, upper)])
            } else {
                None
            }),
    {
        match self.limits.get(&(lower, upper)) {
            Some(d) => Some(*d),
            None => None,
        }
    }

    /// The number of ranges in the policy.
    pub fn len(&self) -> (r: usize)
        ensures
            r == self@.len(),
    {
        self.limits.len()
    }

    /// Whether the policy has no range at all.
    pub fn is_empty(&self) -> (r: bool)
        ensures
            r == (self@.len() == 0),
    {
        self.limits.is_empty()
    }
}

impl Default for Config {
    /// The default policy: one range over all sizes, kept one day.
    fn default() -> (r: Config)
        ensures
            r@ == default_limits(),
            r.wf(),
    {
        let mut limits: BTreeMap<SizeRange, RetentionDuration> = BTreeMap::new();
        limits.insert((u64::MIN, u64::MAX), RetentionDuration::from_secs(DEFAULT_RETENTION_SECS));
        let r = Config { limits };
        assert(r@ =~= default_limits());
        r
    }
}

} // verus!
