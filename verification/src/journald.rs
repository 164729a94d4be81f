use vstd::prelude::*;

use crate::entry::AgentError;
use crate::entry::LogEntry;
use crate::entry::Timestamp;
use crate::text::chars_vec;
use crate::text::string_from_chars;
use crate::text::utf8_lossy;
use crate::text::utf8_lossy_of;

verus! {

/// The shapes a journal record's message field may take: a plain
/// string, a raw byte sequence, or a list of sub-messages.
pub enum JournaldMessage {
    Text(String),
    Bytes(Vec<u8>),
    Multiple(Vec<JournaldMessage>),
}

/// The canonical display string of a message: text as is, bytes decoded
/// best-effort as UTF-8, and each sub-message of a list followed by a
/// semicolon.
pub open spec fn msg_display(m: JournaldMessage) -> Seq<char>
    decreases m,
{
    match m {
        JournaldMessage::Text(s) => s@,
        JournaldMessage::Bytes(b) => utf8_lossy_of(b@),
        JournaldMessage::Multiple(v) => msgs_display(v@),
    }
}

/// The concatenated display strings of a message list, each followed by
/// a semicolon.
pub open spec fn msgs_display(ms: Seq<JournaldMessage>) -> Seq<char>
    decreases ms,
{
    if ms.len() == 0 {
        Seq::empty()
    } else {
        msg_display(ms[0]) + seq![';'] + msgs_display(ms.drop_first())
    }
}

impl JournaldMessage {
    /// Normalize any message shape into its single display string.
    pub fn display_string(&self) -> (r: String)
        ensures
            r@ == msg_display(*self),
        decreases *self,
    {
        match self {
            JournaldMessage::Text(s) => s.clone(),
            JournaldMessage::Bytes(b) => utf8_lossy(b.as_slice()),
            JournaldMessage::Multiple(v) => {
                let mut out = String::new();
                let mut i: usize = 0;
                proof {
                    assert(v@.subrange(0, v@.len() as int) =~= v@);
                    assert(Seq::<char>::empty() + msgs_display(v@) =~= msgs_display(v@));
                }
                while i < v.len()
                    invariant
                        0 <= i <= v@.len(),
                        out@ + msgs_display(v@.subrange(i as int, v@.len() as int))
                            == msgs_display(v@),
                        decreases_to!(*self => v@),
                    decreases v@.len() - i,
                {
                    proof {
                        assert(decreases_to!(v@ => v@[i as int]));
                    }
                    let piece = v[i].display_string();
                    out.append(piece.as_str());
                    out.append(";");
                    proof {
                        reveal_strlit(";");
                        let rest = v@.subrange(i as int, v@.len() as int);
                        assert(rest[0] == v@[i as int]);
                        assert(rest.drop_first() =~= v@.subrange(i + 1, v@.len() as int));
                    }
                    i = i + 1;
                }
                proof {
                    assert(v@.subrange(v@.len() as int, v@.len() as int) =~= Seq::<
                        JournaldMessage,
                    >::empty());
                    assert(out@ + Seq::<char>::empty() =~= out@);
                }
                out
            },
        }
    }
}

/// One journal record as the collector emits it, before normalization:
/// the raw message, the hostname, the microsecond timestamp as a
/// decimal string, and the three optional service identifiers.
pub struct JournaldRawEntry {
    pub message: JournaldMessage,
    pub hostname: String,
    pub systemd_unit: Option<String>,
    pub timestamp: String,
    pub syslog_identifier: Option<String>,
    pub exe: Option<String>,
}

pub open spec fn is_digit(c: char) -> bool {
    48 <= c as u32 <= 57
}

pub open spec fn digit_val(c: char) -> int {
    c as u32 - 48
}

pub open spec fn all_digits(s: Seq<char>) -> bool {
    forall|i: int| 0 <= i < s.len() ==> is_digit(#[trigger] s[i])
}

/// The value of a digit string read in base ten.
pub open spec fn digits_val(s: Seq<char>) -> int
    decreases s.len(),
{
    if s.len() == 0 {
        0
    } else {
        digits_val(s.drop_last()) * 10 + digit_val(s.last())
    }
}

/// What parsing a decimal `i64` accepts: an optional sign followed by
/// at least one digit, with the value within the type's range.
pub open spec fn spec_parse_i64(s: Seq<char>) -> Option<i64> {
    let neg = s.len() > 0 && s[0] == '-';
    let ds = if s.len() > 0 && (s[0] == '-' || s[0] == '+') {
        s.drop_first()
    } else {
        s
    };
    if ds.len() == 0 || !all_digits(ds) {
        None
    } else {
        let v = if neg {
            -digits_val(ds)
        } else {
            digits_val(ds)
        };
        if i64::MIN <= v <= i64::MAX {
            Some(v as i64)
        } else {
            None
        }
    }
}

proof fn lemma_digits_val_nonneg(s: Seq<char>)
    requires
        all_digits(s),
    ensures
        digits_val(s) >= 0,
    decreases s.len(),
{
    if s.len() > 0 {
        assert(all_digits(s.drop_last()));
        lemma_digits_val_nonneg(s.drop_last());
        assert(digits_val(s.drop_last()) * 10 >= 0) by (nonlinear_arith)
            requires
                digits_val(s.drop_last()) >= 0,
        ;
    }
}

/// Once a digit prefix is too large in magnitude, the whole digit
/// string is at least as large.
proof fn lemma_digits_val_monotonic(s: Seq<char>, k: int)
    requires
        all_digits(s),
        0 <= k <= s.len(),
    ensures
        digits_val(s) >= digits_val(s.subrange(0, k)),
    decreases s.len() - k,
{
    if k == s.len() {
        assert(s.subrange(0, k) =~= s);
    } else {
        lemma_digits_val_monotonic(s, k + 1);
        let p1 = s.subrange(0, k + 1);
        let p0 = s.subrange(0, k);
        assert(p1.drop_last() =~= p0);
        assert(all_digits(p0));
        lemma_digits_val_nonneg(p0);
        assert(digits_val(p1) == digits_val(p0) * 10 + digit_val(s[k]));
        assert(digits_val(p0) * 10 >= digits_val(p0)) by (nonlinear_arith)
            requires
                digits_val(p0) >= 0,
        ;
    }
}

/// Parse a decimal `i64`: an optional sign, then digits; anything else,
/// or a value out of range, is rejected.
pub fn parse_i64(s: &str) -> (r: Option<i64>)
    ensures
        r == spec_parse_i64(s@),
{
    let cv = chars_vec(s);
    if cv.len() == 0 {
        return None;
    }
    let c0 = cv[0];
    let mut start: usize = 0;
    let mut neg = false;
    if c0 == '-' {
        neg = true;
        start = 1;
    } else if c0 == '+' {
        start = 1;
    }
    let ghost ds = if start == 1 {
        s@.drop_first()
    } else {
        s@
    };
    proof {
        assert(cv@.subrange(start as int, cv@.len() as int) =~= ds);
    }
    if start == cv.len() {
        return None;
    }
    // Accumulate the negated value: the negative range is one wider.
    let mut acc: i64 = 0;
    let mut j: usize = start;
    while j < cv.len()
        invariant
            cv@ == s@,
            ds == cv@.subrange(start as int, cv@.len() as int),
            0 <= start <= j <= cv@.len(),
            start <= 1,
            cv@.len() > 0,
            (start == 1) <==> (cv@[0] == '-' || cv@[0] == '+'),
            all_digits(ds.subrange(0, j - start)),
            acc == -digits_val(ds.subrange(0, j - start)),
            i64::MIN <= acc <= 0,
        decreases cv@.len() - j,
    {
        let c = cv[j];
        let code = c as u32;
        if code < 48 || code > 57 {
            assert(!is_digit(ds[j - start]));
            return None;
        }
        let d = (code - 48) as i64;
        proof {
            let p0 = ds.subrange(0, j - start);
            let p1 = ds.subrange(0, j + 1 - start);
            assert(p1.drop_last() =~= p0);
            assert(p1.last() == ds[j - start]);
            assert(all_digits(p1));
        }
        if acc < -922337203685477580 || (acc == -922337203685477580 && d > 8) {
            // The prefix already exceeds the i64 range in magnitude, so
            // the full string does too.
            proof {
                let p1 = ds.subrange(0, j + 1 - start);
                let p0 = ds.subrange(0, j - start);
                assert(digits_val(p1) == digits_val(p0) * 10 + digit_val(ds[j - start]));
                assert(digits_val(p1) == -acc * 10 + d);
                assert(digits_val(p1) > 9223372036854775808int);
                if all_digits(ds) {
                    lemma_digits_val_monotonic(ds, j + 1 - start);
                    assert(digits_val(ds) > 9223372036854775808int);
                    assert(-digits_val(ds) < i64::MIN);
                    assert(digits_val(ds) > i64::MAX);
                }
                assert(cv@.subrange(0, cv@.len() as int) =~= cv@);
                assert(spec_parse_i64(s@) is None);
            }
            return None;
        }
        acc = acc * 10 - d;
        j = j + 1;
    }
    proof {
        assert(ds.subrange(0, cv@.len() - start) =~= ds);
        lemma_digits_val_nonneg(ds);
    }
    if neg {
        Some(acc)
    } else {
        if acc == i64::MIN {
            // The magnitude fits only the negative side of the range.
            return None;
        }
        Some(-acc)
    }
}

/// The service identifier a record resolves to: the application-level
/// identifier if present, else the system unit, else the executable
/// path, else empty.
pub open spec fn resolved_service(raw: JournaldRawEntry) -> Seq<char> {
    match raw.syslog_identifier {
        Some(s) => s@,
        None => match raw.systemd_unit {
            Some(s) => s@,
            None => match raw.exe {
                Some(s) => s@,
                None => Seq::empty(),
            },
        },
    }
}

/// Turn one raw journal record into a log entry: normalize the message,
/// resolve the service by its priority chain, and read the microsecond
/// timestamp from its decimal string. A timestamp that is not a decimal
/// `i64` makes the record malformed.
pub fn parse_log_entry(raw: JournaldRawEntry) -> (r: Result<LogEntry, AgentError>)
    ensures
        r is Ok <==> spec_parse_i64(raw.timestamp@) is Some,
        r matches Err(e) ==> e == AgentError::MalformedRecord,
        r matches Ok(en) ==> {
            &&& en.message@ == msg_display(raw.message)
            &&& en.hostname@ == raw.hostname@
            &&& en.service@ == resolved_service(raw)
            &&& spec_parse_i64(raw.timestamp@) == Some(en.timestamp.micros)
        },
{
    let micros = match parse_i64(raw.timestamp.as_str()) {
        Some(v) => v,
        None => {
            return Err(AgentError::MalformedRecord);
        },
    };
    let message = raw.message.display_string();
    let service = match raw.syslog_identifier {
        Some(s) => s,
        None => match raw.systemd_unit {
            Some(s) => s,
            None => match raw.exe {
                Some(s) => s,
                None => String::new(),
            },
        },
    };
    Ok(
        LogEntry {
            message,
            hostname: raw.hostname,
            service,
            timestamp: Timestamp { micros },
        },
    )
}

pub open spec fn digit_char_of(d: int) -> char {
    if d == 0 {
        '0'
    } else if d == 1 {
        '1'
    } else if d == 2 {
        '2'
    } else if d == 3 {
        '3'
    } else if d == 4 {
        '4'
    } else if d == 5 {
        '5'
    } else if d == 6 {
        '6'
    } else if d == 7 {
        '7'
    } else if d == 8 {
        '8'
    } else {
        '9'
    }
}

/// The decimal digit string of a non-negative number.
pub open spec fn dec_str(n: int) -> Seq<char>
    decreases n,
{
    if n < 0 {
        Seq::empty()
    } else if n < 10 {
        seq![digit_char_of(n)]
    } else {
        dec_str(n / 10).push(digit_char_of(n % 10))
    }
}

fn digit_to_char(d: u64) -> (c: char)
    requires
        d < 10,
    ensures
        c == digit_char_of(d as int),
{
    match d {
        0 => '0',
        1 => '1',
        2 => '2',
        3 => '3',
        4 => '4',
        5 => '5',
        6 => '6',
        7 => '7',
        8 => '8',
        _ => '9',
    }
}

fn u64_to_chars(n: u64) -> (r: Vec<char>)
    ensures
        r@ == dec_str(n as int),
    decreases n,
{
    if n < 10 {
        let mut out: Vec<char> = Vec::new();
        out.push(digit_to_char(n));
        assert(out@ =~= seq![digit_char_of(n as int)]);
        out
    } else {
        let mut out = u64_to_chars(n / 10);
        out.push(digit_to_char(n % 10));
        out
    }
}

/// The decimal representation of a non-negative number.
pub fn u64_to_string(n: u64) -> (r: String)
    ensures
        r@ == dec_str(n as int),
{
    let digits = u64_to_chars(n);
    string_from_chars(&digits)
}

/// The lookback the collector is asked for when resuming after the
/// given instant: the elapsed time in whole milliseconds, never
/// negative.
pub open spec fn lookback_ms(now: Timestamp, since: Timestamp) -> int {
    if since.micros >= now.micros {
        0
    } else {
        (now.micros - since.micros) / 1000
    }
}

/// Law: the resume window never reaches back further than the time
/// elapsed since the last persisted entry, and never below zero.
pub proof fn lemma_resume_window_bounded(now: Timestamp, since: Timestamp)
    ensures
        0 <= lookback_ms(now, since),
        1000 * lookback_ms(now, since) <= (if now.micros >= since.micros {
            now.micros - since.micros
        } else {
            0
        }),
{
    if since.micros < now.micros {
        let d = now.micros - since.micros;
        assert(d >= 0);
        assert(1000 * (d / 1000) <= d) by (nonlinear_arith)
            requires
                d >= 0,
        ;
        assert(d / 1000 >= 0) by (nonlinear_arith)
            requires
                d >= 0,
        ;
    }
}

/// The `--since` expression handed to the collector: a relative
/// duration of the elapsed time when resuming from a known instant,
/// or a fixed one-day lookback when there is none.
pub fn since_expression(now: Timestamp, since: Option<Timestamp>) -> (r: String)
    ensures
        since is None ==> r@ == "1 day ago"@,
        since matches Some(t) ==> r@ == seq!['-'] + dec_str(lookback_ms(now, t) / 1000) + "s"@
            + dec_str(lookback_ms(now, t) % 1000) + "ms"@,
{
    let t = match since {
        None => {
            return String::from_str("1 day ago");
        },
        Some(t) => t,
    };
    let diff: i128 = now.micros as i128 - t.micros as i128;
    let ms: u64 = if diff <= 0 {
        0u64
    } else {
        (diff / 1000) as u64
    };
    proof {
        if t.micros < now.micros {
            let d = now.micros - t.micros;
            assert(d / 1000 >= 0) by (nonlinear_arith)
                requires
                    d >= 0,
            ;
        }
        assert(ms as int == lookback_ms(now, t));
    }
    let secs = ms / 1000;
    let rem = ms % 1000;
    let mut out = String::new();
    out.append("-");
    let s1 = u64_to_string(secs);
    out.append(s1.as_str());
    out.append("s");
    let s2 = u64_to_string(rem);
    out.append(s2.as_str());
    out.append("ms");
    proof {
        reveal_strlit("-");
        assert(seq!['-'] =~= "-"@);
    }
    out
}

} // verus!
