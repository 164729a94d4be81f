use vstd::prelude::*;

use crate::entry::TimeBound;
use crate::filter::Filter;
use crate::fts::fts_match_of;
use crate::fts::to_sqlite_phrase;

verus! {

/// A value bound to one placeholder of a built query.
pub enum SqlArg {
    Text(String),
    Int(i64),
}

/// The whole seconds of the bound's instant, as the store's time
/// columns hold them.
pub open spec fn bound_seconds(t: crate::entry::Timestamp) -> i64 {
    (t.micros as int / 1000000) as i64
}

/// The condition a lower time bound appends to the query.
pub open spec fn lower_bound_sql(col: Seq<char>, b: TimeBound) -> Seq<char> {
    match b {
        TimeBound::Included(_) => " and unixepoch("@ + col + ") >= ?"@,
        TimeBound::Excluded(_) => " and unixepoch("@ + col + ") > ?"@,
        TimeBound::Unbounded => Seq::empty(),
    }
}

/// The condition an upper time bound appends to the query.
pub open spec fn upper_bound_sql(col: Seq<char>, b: TimeBound) -> Seq<char> {
    match b {
        TimeBound::Included(_) => " and unixepoch("@ + col + ") <= ?"@,
        TimeBound::Excluded(_) => " and unixepoch("@ + col + ") < ?"@,
        TimeBound::Unbounded => Seq::empty(),
    }
}

/// The placeholder value a time bound binds, if any.
pub open spec fn bound_binds(b: TimeBound) -> Seq<SqlArg> {
    match b {
        TimeBound::Included(t) => seq![SqlArg::Int(bound_seconds(t))],
        TimeBound::Excluded(t) => seq![SqlArg::Int(bound_seconds(t))],
        TimeBound::Unbounded => Seq::empty(),
    }
}

/// Append the conditions for both ends of a time range to the query
/// text, each comparing the named column in whole seconds against one
/// bound placeholder.
pub fn push_time_range(
    column: &str,
    range: &(TimeBound, TimeBound),
    sql: &mut String,
    binds: &mut Vec<SqlArg>,
)
    ensures
        final(sql)@ == old(sql)@ + lower_bound_sql(column@, range.0) + upper_bound_sql(
            column@,
            range.1,
        ),
        final(binds)@ == old(binds)@ + bound_binds(range.0) + bound_binds(range.1),
{
    proof {
        reveal_strlit(" and unixepoch(");
        reveal_strlit(") >= ?");
        reveal_strlit(") > ?");
        reveal_strlit(") <= ?");
        reveal_strlit(") < ?");
    }
    match range.0 {
        TimeBound::Included(t) => {
            sql.append(" and unixepoch(");
            sql.append(column);
            sql.append(") >= ?");
            binds.push(SqlArg::Int(t.seconds()));
        },
        TimeBound::Excluded(t) => {
            sql.append(" and unixepoch(");
            sql.append(column);
            sql.append(") > ?");
            binds.push(SqlArg::Int(t.seconds()));
        },
        TimeBound::Unbounded => {},
    }
    match range.1 {
        TimeBound::Included(t) => {
            sql.append(" and unixepoch(");
            sql.append(column);
            sql.append(") <= ?");
            binds.push(SqlArg::Int(t.seconds()));
        },
        TimeBound::Excluded(t) => {
            sql.append(" and unixepoch(");
            sql.append(column);
            sql.append(") < ?");
            binds.push(SqlArg::Int(t.seconds()));
        },
        TimeBound::Unbounded => {},
    }
    proof {
        assert(final(sql)@ =~= old(sql)@ + lower_bound_sql(column@, range.0) + upper_bound_sql(
            column@,
            range.1,
        ));
        assert(final(binds)@ =~= old(binds)@ + bound_binds(range.0) + bound_binds(range.1));
    }
}

/// The full-text clause constraining the message column, if the
/// filter's keywords call for one.
pub open spec fn message_clause(f: Filter) -> Option<Seq<char>> {
    match f.message_keywords {
        Some(kws) => if fts_match_of(kws@).len() != 0 {
            Some("(message: ("@ + fts_match_of(kws@) + "))"@)
        } else {
            None
        },
        None => None,
    }
}

/// The full-text clause constraining the service column, if the
/// filter's keywords call for one.
pub open spec fn service_clause(f: Filter) -> Option<Seq<char>> {
    match f.services {
        Some(kws) => if fts_match_of(kws@).len() != 0 {
            Some("(service: ("@ + fts_match_of(kws@) + "))"@)
        } else {
            None
        },
        None => None,
    }
}

/// Both full-text clauses joined with AND; empty when neither field is
/// constrained.
pub open spec fn matches_clause(f: Filter) -> Seq<char> {
    match (message_clause(f), service_clause(f)) {
        (Some(m), Some(s)) => m + " AND "@ + s,
        (Some(m), None) => m,
        (None, Some(s)) => s,
        (None, None) => Seq::empty(),
    }
}

/// The leading text of every search query.
pub open spec fn base_query() -> Seq<char> {
    "select message, hostname, service, timestamp from logs join logsfts fts on fts.rowid == logs.logsfts_id where 1"@
}

/// The trailing text of every search query: newest first, capped.
pub open spec fn tail_query() -> Seq<char> {
    " order by timestamp desc limit 100;"@
}

/// The whole query text a filter builds, with its placeholder values.
pub open spec fn extract_query_sql(f: Filter) -> Seq<char> {
    base_query() + (if matches_clause(f).len() != 0 {
        " and logsfts = ?"@
    } else {
        Seq::<char>::empty()
    }) + lower_bound_sql("timestamp"@, f.timerange.0) + upper_bound_sql("timestamp"@, f.timerange.1)
        + tail_query()
}

/// The placeholder values the query binds, in placeholder order: the
/// full-text match expression when any keyword survives sanitization,
/// then the time-range seconds.
pub open spec fn binds_for(f: Filter, binds: Seq<SqlArg>) -> bool {
    if matches_clause(f).len() != 0 {
        &&& binds.len() >= 1
        &&& binds[0] matches SqlArg::Text(t) && t@ == matches_clause(f)
        &&& binds.skip(1) == bound_binds(f.timerange.0) + bound_binds(f.timerange.1)
    } else {
        binds == bound_binds(f.timerange.0) + bound_binds(f.timerange.1)
    }
}

/// Build the search query for a filter: the base select, one full-text
/// placeholder when any keyword survives sanitization, the time-range
/// conditions, and the descending order with the result cap.
pub fn build_extract_query(filter: &Filter) -> (r: (String, Vec<SqlArg>))
    ensures
        r.0@ == extract_query_sql(*filter),
        binds_for(*filter, r.1@),
{
    proof {
        reveal_strlit(
            "select message, hostname, service, timestamp from logs join logsfts fts on fts.rowid == logs.logsfts_id where 1",
        );
        reveal_strlit(" order by timestamp desc limit 100;");
        reveal_strlit(" and logsfts = ?");
        reveal_strlit("(message: ");
        reveal_strlit("(service: ");
        reveal_strlit("(message: (");
        reveal_strlit("(service: (");
        reveal_strlit("(");
        reveal_strlit(")");
        reveal_strlit("))");
        reveal_strlit(" AND ");
    }
    let mut sql = String::new();
    let mut binds: Vec<SqlArg> = Vec::new();
    sql.append(
        "select message, hostname, service, timestamp from logs join logsfts fts on fts.rowid == logs.logsfts_id where 1",
    );
    let message_part: Option<String> = match &filter.message_keywords {
        Some(kws) => match to_sqlite_phrase(kws.as_slice()) {
            Some(p) => {
                let mut out = String::new();
                out.append("(message: ");
                out.append(p.as_str());
                out.append(")");
                Some(out)
            },
            None => None,
        },
        None => None,
    };
    let service_part: Option<String> = match &filter.services {
        Some(kws) => match to_sqlite_phrase(kws.as_slice()) {
            Some(p) => {
                let mut out = String::new();
                out.append("(service: ");
                out.append(p.as_str());
                out.append(")");
                Some(out)
            },
            None => None,
        },
        None => None,
    };
    proof {
        match &message_part {
            Some(m) => {
                assert(message_clause(*filter) matches Some(c) && m@ =~= c);
            },
            None => {
                assert(message_clause(*filter) is None);
            },
        }
        match &service_part {
            Some(s) => {
                assert(service_clause(*filter) matches Some(c) && s@ =~= c);
            },
            None => {
                assert(service_clause(*filter) is None);
            },
        }
    }
    let matches: Option<String> = match (message_part, service_part) {
        (Some(m), Some(s)) => {
            let mut out = m;
            out.append(" AND ");
            out.append(s.as_str());
            Some(out)
        },
        (Some(m), None) => Some(m),
        (None, Some(s)) => Some(s),
        (None, None) => None,
    };
    match matches {
        Some(m) => {
            assert(m@ =~= matches_clause(*filter));
            assert(m@.len() != 0);
            sql.append(" and logsfts = ?");
            binds.push(SqlArg::Text(m));
        },
        None => {
            assert(matches_clause(*filter).len() == 0);
        },
    }
    push_time_range("timestamp", &filter.timerange, &mut sql, &mut binds);
    sql.append(" order by timestamp desc limit 100;");
    proof {
        assert(sql@ =~= extract_query_sql(*filter));
        if matches_clause(*filter).len() != 0 {
            assert(binds@.skip(1) =~= bound_binds(filter.timerange.0) + bound_binds(
                filter.timerange.1,
            ));
        } else {
            assert(binds@ =~= bound_binds(filter.timerange.0) + bound_binds(filter.timerange.1));
        }
    }
    (sql, binds)
}

} // verus!
