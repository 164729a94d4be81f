use vstd::prelude::*;

use crate::text::chars_vec;
use crate::text::lower_of;
use crate::text::lowercase;
use crate::text::replace_non_alphanumeric;
use crate::text::spaced;
use crate::text::string_from_chars;
use crate::text::trim_spaces;
use crate::text::trimmed;

verus! {

/// A keyword reduced to its full-text token form: lowercased, every
/// non-alphanumeric character replaced by a space, then trimmed.
pub open spec fn sanitized(kw: Seq<char>) -> Seq<char> {
    trimmed(spaced(lower_of(kw)))
}

/// A sanitized keyword quoted as a phrase with a prefix-wildcard marker.
pub open spec fn phrase_of(st: Seq<char>) -> Seq<char> {
    seq!['"'] + st + seq!['"', '*']
}

/// The OR-joined phrase list for a keyword list: each keyword is
/// sanitized, keywords that sanitize away entirely are dropped, and the
/// remaining quoted phrases are joined with " OR ".
pub open spec fn fts_match_of(kws: Seq<String>) -> Seq<char>
    decreases kws.len(),
{
    if kws.len() == 0 {
        Seq::empty()
    } else {
        let pre = fts_match_of(kws.drop_last());
        let st = sanitized(kws.last()@);
        if st.len() == 0 {
            pre
        } else if pre.len() == 0 {
            phrase_of(st)
        } else {
            pre + " OR "@ + phrase_of(st)
        }
    }
}

/// Build the full-text match expression for a keyword list: quoted
/// prefix phrases joined with " OR "; keywords whose sanitized form is
/// empty are dropped entirely; the literal words OR/AND inside a
/// keyword stay literal tokens.
pub fn convert_to_fts_match(filter: &[String]) -> (r: String)
    ensures
        r@ == fts_match_of(filter@),
{
    let mut out = String::new();
    let mut i: usize = 0;
    while i < filter.len()
        invariant
            0 <= i <= filter@.len(),
            out@ == fts_match_of(filter@.subrange(0, i as int)),
        decreases filter@.len() - i,
    {
        let kw = &filter[i];
        let lowered = lowercase(kw.as_str());
        let cv = chars_vec(lowered.as_str());
        let sp = replace_non_alphanumeric(&cv);
        let tr = trim_spaces(&sp);
        proof {
            assert(filter@.subrange(0, i + 1).drop_last() =~= filter@.subrange(0, i as int));
            assert(filter@.subrange(0, i + 1).last() == filter@[i as int]);
        }
        if tr.len() > 0 {
            if !out.as_str().is_empty() {
                out.append(" OR ");
            }
            out.append("\"");
            let piece = string_from_chars(&tr);
            out.append(piece.as_str());
            out.append("\"*");
            proof {
                reveal_strlit("\"");
                reveal_strlit("\"*");
                reveal_strlit(" OR ");
                assert(out@ =~= fts_match_of(filter@.subrange(0, i + 1)));
            }
        }
        i = i + 1;
    }
    proof {
        assert(filter@.subrange(0, filter@.len() as int) =~= filter@);
    }
    out
}

/// Wrap a non-empty full-text match expression in parentheses; a list
/// whose keywords all sanitize away yields nothing.
pub fn to_sqlite_phrase(m: &[String]) -> (r: Option<String>)
    ensures
        r is Some <==> fts_match_of(m@).len() != 0,
        r matches Some(p) ==> p@ == "("@ + fts_match_of(m@) + ")"@,
{
    let s = convert_to_fts_match(m);
    if !s.as_str().is_empty() {
        let mut out = String::new();
        out.append("(");
        out.append(s.as_str());
        out.append(")");
        Some(out)
    } else {
        None
    }
}

} // verus!
