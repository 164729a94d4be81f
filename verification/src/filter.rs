use vstd::prelude::*;

use crate::entry::LogEntry;
use crate::entry::TimeBound;
use crate::entry::Timestamp;
use crate::text::char_is_alphanumeric;
use crate::text::chars_contain;
use crate::text::chars_vec;
use crate::text::is_alphanum;
use crate::text::lower_of;
use crate::text::lowercase;
use crate::text::seq_contains;
use crate::text::string_from_chars;
use crate::text::subrange_vec;

verus! {

/// A reusable predicate over log entries. An absent (`None`) predicate
/// field always passes; so does an empty keyword list, which is read as
/// "no constraint". Keyword matching is case-insensitive substring
/// matching, identically for the service and the message field, and the
/// same semantics the store's search applies.
#[derive(Debug)]
pub struct Filter {
    /// If present, the entry's service field must case-insensitively
    /// contain at least one of these keywords as a substring.
    pub services: Option<Vec<String>>,
    /// If present, the entry's message field must case-insensitively
    /// contain at least one of these keywords as a substring.
    pub message_keywords: Option<Vec<String>>,
    /// Both ends of the accepted timestamp range.
    pub timerange: (TimeBound, TimeBound),
}

impl Clone for Filter {
    fn clone(&self) -> Self {
        Filter {
            services: self.services.clone(),
            message_keywords: self.message_keywords.clone(),
            timerange: (self.timerange.0, self.timerange.1),
        }
    }
}

impl Default for Filter {
    /// The filter with no constraints at all.
    fn default() -> (r: Self)
        ensures
            r.services is None,
            r.message_keywords is None,
            r.timerange.0 is Unbounded,
            r.timerange.1 is Unbounded,
    {
        Filter {
            services: None,
            message_keywords: None,
            timerange: (TimeBound::Unbounded, TimeBound::Unbounded),
        }
    }
}

/// The field case-insensitively contains at least one keyword as a
/// substring; an empty keyword list places no constraint.
pub open spec fn field_matches(field: Seq<char>, kws: Seq<String>) -> bool {
    kws.len() == 0 || exists|i: int|
        0 <= i < kws.len() && seq_contains(lower_of(field), lower_of(kws[i]@))
}

pub open spec fn above_lower_bound(b: TimeBound, t: Timestamp) -> bool {
    match b {
        TimeBound::Included(x) => x.micros <= t.micros,
        TimeBound::Excluded(x) => x.micros < t.micros,
        TimeBound::Unbounded => true,
    }
}

pub open spec fn below_upper_bound(b: TimeBound, t: Timestamp) -> bool {
    match b {
        TimeBound::Included(x) => t.micros <= x.micros,
        TimeBound::Excluded(x) => t.micros < x.micros,
        TimeBound::Unbounded => true,
    }
}

pub open spec fn in_timerange(r: (TimeBound, TimeBound), t: Timestamp) -> bool {
    above_lower_bound(r.0, t) && below_upper_bound(r.1, t)
}

/// What `Filter::accept` decides for a given filter and entry.
pub open spec fn spec_accepts(f: Filter, e: LogEntry) -> bool {
    (match f.services {
        Some(kws) => field_matches(e.service@, kws@),
        None => true,
    }) && (match f.message_keywords {
        Some(kws) => field_matches(e.message@, kws@),
        None => true,
    }) && in_timerange(f.timerange, e.timestamp)
}

/// Does the field case-insensitively contain one of the keywords as a
/// substring (no constraint if the list is empty)?
fn matches_keywords(field: &String, kws: &Vec<String>) -> (r: bool)
    ensures
        r == field_matches(field@, kws@),
{
    if kws.len() == 0 {
        return true;
    }
    let lowered = lowercase(field.as_str());
    let hay = chars_vec(lowered.as_str());
    let mut i: usize = 0;
    while i < kws.len()
        invariant
            hay@ == lower_of(field@),
            0 <= i <= kws@.len(),
            forall|k: int| 0 <= k < i ==> !seq_contains(lower_of(field@), lower_of(kws@[k]@)),
        decreases kws@.len() - i,
    {
        let kw_lowered = lowercase(kws[i].as_str());
        let needle = chars_vec(kw_lowered.as_str());
        if chars_contain(&hay, &needle) {
            return true;
        }
        i = i + 1;
    }
    false
}

impl Filter {
    /// Pure accept/reject test: every present predicate must pass, and
    /// the timestamp must lie within the time range, compared on the
    /// raw instant value.
    pub fn accept(&self, entry: &LogEntry) -> (r: bool)
        ensures
            r == spec_accepts(*self, *entry),
    {
        if let Some(kws) = &self.services {
            if !matches_keywords(&entry.service, kws) {
                return false;
            }
        }
        if let Some(kws) = &self.message_keywords {
            if !matches_keywords(&entry.message, kws) {
                return false;
            }
        }
        let t = entry.timestamp;
        let lo_ok = match self.timerange.0 {
            TimeBound::Included(x) => x.micros <= t.micros,
            TimeBound::Excluded(x) => x.micros < t.micros,
            TimeBound::Unbounded => true,
        };
        if !lo_ok {
            return false;
        }
        match self.timerange.1 {
            TimeBound::Included(x) => t.micros <= x.micros,
            TimeBound::Excluded(x) => t.micros < x.micros,
            TimeBound::Unbounded => true,
        }
    }
}

/// Law: a filter whose predicates are all absent accepts every entry.
pub proof fn lemma_absent_filter_accepts_all(f: Filter, e: LogEntry)
    requires
        f.services is None,
        f.message_keywords is None,
        f.timerange.0 is Unbounded,
        f.timerange.1 is Unbounded,
    ensures
        spec_accepts(f, e),
{
}

/// The tokens of `s` from position `i` on, with a token open since
/// position `start`: maximal runs of alphanumeric characters, each
/// lowercased, with an empty trailing run skipped.
pub open spec fn tok_from(s: Seq<char>, start: int, i: int) -> Seq<Seq<char>>
    decreases s.len() - i,
{
    if start < 0 || i < start || i > s.len() {
        Seq::empty()
    } else if i == s.len() {
        if start < i {
            seq![lower_of(s.subrange(start, i))]
        } else {
            Seq::empty()
        }
    } else if !is_alphanum(s[i]) {
        seq![lower_of(s.subrange(start, i))] + tok_from(s, i + 1, i + 1)
    } else {
        tok_from(s, start, i + 1)
    }
}

/// The line split on non-alphanumeric characters, each piece
/// lowercased; a trailing empty piece is dropped.
pub open spec fn spec_tokenize(s: Seq<char>) -> Seq<Seq<char>> {
    tok_from(s, 0, 0)
}

/// Split the line into lowercased tokens at every non-alphanumeric
/// character, dropping only a trailing empty piece.
pub fn tokenize(line: &str) -> (r: Vec<String>)
    ensures
        r@.map_values(|t: String| t@) == spec_tokenize(line@),
{
    let cv = chars_vec(line);
    let mut out: Vec<String> = Vec::new();
    let mut start: usize = 0;
    let mut i: usize = 0;
    while i < cv.len()
        invariant
            cv@ == line@,
            0 <= start <= i <= cv@.len(),
            spec_tokenize(line@) == out@.map_values(|t: String| t@) + tok_from(
                line@,
                start as int,
                i as int,
            ),
        decreases cv@.len() - i,
    {
        let c = cv[i];
        if char_is_alphanumeric(c) {
            i = i + 1;
        } else {
            let piece = subrange_vec(&cv, start, i);
            let raw = string_from_chars(&piece);
            let token = lowercase(raw.as_str());
            out.push(token);
            assert((out@).map_values(|t: String| t@) =~= out@.drop_last().map_values(
                |t: String| t@,
            ) + seq![lower_of(line@.subrange(start as int, i as int))]);
            start = i + 1;
            i = i + 1;
        }
    }
    if start < i {
        let piece = subrange_vec(&cv, start, i);
        let raw = string_from_chars(&piece);
        let token = lowercase(raw.as_str());
        out.push(token);
        assert((out@).map_values(|t: String| t@) =~= out@.drop_last().map_values(
            |t: String| t@,
        ) + seq![lower_of(line@.subrange(start as int, i as int))]);
    }
    out
}

/// The pieces of `s` from position `i` on when splitting on commas,
/// with a piece open since `start`; a trailing empty piece is kept.
pub open spec fn split_from(s: Seq<char>, start: int, i: int) -> Seq<Seq<char>>
    decreases s.len() - i,
{
    if start < 0 || i < start || i > s.len() {
        Seq::empty()
    } else if i == s.len() {
        seq![s.subrange(start, i)]
    } else if s[i] == ',' {
        seq![s.subrange(start, i)] + split_from(s, i + 1, i + 1)
    } else {
        split_from(s, start, i + 1)
    }
}

/// The comma-separated pieces of `s`, empty pieces kept.
pub open spec fn spec_split_commas(s: Seq<char>) -> Seq<Seq<char>> {
    split_from(s, 0, 0)
}

/// The time range a pair of optional microsecond query parameters
/// resolves to: a given instant becomes an exclusive bound, an absent
/// one leaves that end unbounded.
pub fn timerange_from_micros(start: Option<i64>, end: Option<i64>) -> (r: (TimeBound, TimeBound))
    ensures
        r.0 == (match start {
            Some(v) => TimeBound::Excluded(Timestamp { micros: v }),
            None => TimeBound::Unbounded,
        }),
        r.1 == (match end {
            Some(v) => TimeBound::Excluded(Timestamp { micros: v }),
            None => TimeBound::Unbounded,
        }),
{
    let lo = match start {
        Some(v) => TimeBound::Excluded(Timestamp { micros: v }),
        None => TimeBound::Unbounded,
    };
    let hi = match end {
        Some(v) => TimeBound::Excluded(Timestamp { micros: v }),
        None => TimeBound::Unbounded,
    };
    (lo, hi)
}

/// Split an optional comma-separated query parameter into its pieces;
/// an absent parameter stays absent.
pub fn parse_query_list(services: Option<String>) -> (r: Option<Vec<String>>)
    ensures
        r is Some <==> services is Some,
        r matches Some(v) ==> services matches Some(s) && v@.map_values(|t: String| t@)
            == spec_split_commas(s@),
{
    let s = match services {
        Some(s) => s,
        None => {
            return None;
        },
    };
    let cv = chars_vec(s.as_str());
    let mut out: Vec<String> = Vec::new();
    let mut start: usize = 0;
    let mut i: usize = 0;
    while i < cv.len()
        invariant
            cv@ == s@,
            0 <= start <= i <= cv@.len(),
            spec_split_commas(s@) == out@.map_values(|t: String| t@) + split_from(
                s@,
                start as int,
                i as int,
            ),
        decreases cv@.len() - i,
    {
        let c = cv[i];
        if c == ',' {
            let piece = subrange_vec(&cv, start, i);
            let token = string_from_chars(&piece);
            out.push(token);
            assert((out@).map_values(|t: String| t@) =~= out@.drop_last().map_values(|t: String| t@) + seq![s@.subrange(start as int, i as int)]);
            start = i + 1;
        }
        i = i + 1;
    }
    let piece = subrange_vec(&cv, start, i);
    let token = string_from_chars(&piece);
    out.push(token);
    assert((out@).map_values(|t: String| t@) =~= out@.drop_last().map_values(|t: String| t@) + seq![s@.subrange(start as int, i as int)]);
    Some(out)
}

} // verus!
