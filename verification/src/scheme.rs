//! The scheme compiler and field extractor: compiles a textual log-format
//! description into an immutable matcher plus timestamp parser, and applies
//! it to candidate entries.

use vstd::prelude::*;

use crate::pattern::captures_of;
use crate::pattern::group_count_of;
use crate::pattern::pattern_ok;
use crate::pattern::regex_captures;
use crate::pattern::regex_group_count;
use crate::pattern::regex_new;
use crate::pattern::regex_spec;
use crate::template::fill_template;
use crate::template::template_subst;
use crate::timestamp::datetime_of;
use crate::timestamp::parse_datetime;

verus! {

/// Configuration describing one log format: four sub-patterns, the
/// whole-line template that assembles them, the delimiter pattern that
/// isolates entries, all as pattern texts.
pub struct LogScheme {
    pub date_time: String,
    pub host: String,
    pub service: String,
    pub message: String,
    pub whole_line: String,
    pub split_pattern: String,
}

/// A fault in the developer-authored scheme, found while compiling it.
/// Fatal at startup: it indicates a misconfigured deployment, not unusual
/// data.
#[derive(Debug, Clone, Copy, PartialEq, Eq, Structural)]
pub enum ConfigError {
    /// The whole-line template was rejected: malformed braces, or a
    /// placeholder other than `d`, `h`, `s`, `m`.
    Template,
    /// The expanded pattern is not a valid matcher pattern.
    Pattern,
    /// The expanded pattern does not produce exactly the four ordered
    /// capture groups date/time, host, service, message.
    Groups,
}

/// A fault in externally produced text, recoverable at single-record
/// granularity: it must never abort the surrounding batch.
#[derive(Debug, Clone, Copy, PartialEq, Eq, Structural)]
pub enum ParseError {
    /// The timestamp text does not conform to the stored format.
    Timestamp,
    /// The parsed instant does not fit integer microseconds.
    Range,
}

/// The typed result of a successful extraction: exactly the four ordered
/// capture texts.
pub struct Fields {
    pub date_time: String,
    pub host: String,
    pub service: String,
    pub message: String,
}

/// What extraction returns over the captures of a matcher run: the four
/// ordered groups after the whole match, provided all four participated.
pub open spec fn fields_of(caps: Option<Seq<Option<Seq<char>>>>) -> Option<
    (Seq<char>, Seq<char>, Seq<char>, Seq<char>),
> {
    match caps {
        Some(c) => {
            if c.len() == 5 && c[1] is Some && c[2] is Some && c[3] is Some && c[4] is Some {
                Some((c[1].unwrap(), c[2].unwrap(), c[3].unwrap(), c[4].unwrap()))
            } else {
                None
            }
        },
        None => None,
    }
}

/// Whole seconds whose count in microseconds, plus any subsecond part below
/// two million, fits a signed 64-bit integer.
pub open spec fn micros_in_range(secs: int) -> bool {
    -9223372036852 <= secs <= 9223372036852
}

/// A sub-pattern wrapped in a capture group, the way the compiler substitutes
/// it into the whole-line template.
pub open spec fn grouped(sub: Seq<char>) -> Seq<char> {
    seq!['('] + sub + seq![')']
}

/// Wraps a sub-pattern in a capture group, so that a scheme's four
/// sub-patterns become the four ordered capture groups of the expanded
/// pattern.
fn group_pattern(sub: &str) -> (r: String)
    ensures
        r@ == grouped(sub@),
{
    let mut out = String::from_str("(");
    out.append(sub);
    out.append(")");
    proof {
        reveal_strlit("(");
        reveal_strlit(")");
        assert(out@ =~= grouped(sub@));
    }
    out
}

/// Immutable result of compiling a scheme: a working matcher plus the stored
/// pattern texts and timestamp format. Built once at startup, reused for
/// every candidate line, never mutated.
#[allow(dead_code)]
pub struct RegExtractor {
    datetime: String,
    host: String,
    service: String,
    message: String,
    line_pattern: String,
    regex: regex::Regex,
    pub split_pattern: String,
    pub strftime_pattern: String,
}

impl RegExtractor {
    /// The expanded whole-line pattern this extractor matches with.
    pub closed spec fn pattern(self) -> Seq<char> {
        regex_spec(self.regex)
    }

    /// The stored timestamp format.
    pub closed spec fn timestamp_format(self) -> Seq<char> {
        self.strftime_pattern@
    }

    /// The stored delimiter pattern text.
    pub closed spec fn delimiter(self) -> Seq<char> {
        self.split_pattern@
    }

    /// Compiles a scheme: substitutes the four sub-patterns into the
    /// whole-line template, compiles the expanded pattern, and checks that it
    /// yields exactly the four ordered capture groups. Any failure is a
    /// ConfigError, fatal at startup.
    pub fn new(scheme: LogScheme, strftime_pattern: &str) -> (r: Result<RegExtractor, ConfigError>)
        ensures
            ({
                let expanded = template_subst(
                    scheme.whole_line@,
                    grouped(scheme.date_time@),
                    grouped(scheme.host@),
                    grouped(scheme.service@),
                    grouped(scheme.message@),
                );
                match r {
                    Ok(ex) => expanded is Some && pattern_ok(expanded.unwrap()) && group_count_of(
                        expanded.unwrap(),
                    ) == 5 && ex.pattern() == expanded.unwrap() && ex.timestamp_format()
                        == strftime_pattern@ && ex.delimiter() == scheme.split_pattern@,
                    Err(ConfigError::Template) => expanded is None,
                    Err(ConfigError::Pattern) => expanded is Some && !pattern_ok(
                        expanded.unwrap(),
                    ),
                    Err(ConfigError::Groups) => expanded is Some && pattern_ok(expanded.unwrap())
                        && group_count_of(expanded.unwrap()) != 5,
                }
            }),
    {
        let d = group_pattern(scheme.date_time.as_str());
        let h = group_pattern(scheme.host.as_str());
        let s = group_pattern(scheme.service.as_str());
        let m = group_pattern(scheme.message.as_str());
        let expanded = match fill_template(
            scheme.whole_line.as_str(),
            d.as_str(),
            h.as_str(),
            s.as_str(),
            m.as_str(),
        ) {
            Some(p) => p,
            None => {
                return Err(ConfigError::Template);
            },
        };
        let re = match regex_new(expanded.as_str()) {
            Some(re) => re,
            None => {
                return Err(ConfigError::Pattern);
            },
        };
        if regex_group_count(&re) != 5 {
            return Err(ConfigError::Groups);
        }
        Ok(
            RegExtractor {
                datetime: scheme.date_time,
                host: scheme.host,
                service: scheme.service,
                message: scheme.message,
                line_pattern: expanded,
                regex: re,
                split_pattern: scheme.split_pattern,
                strftime_pattern: strftime_pattern.to_owned(),
            },
        )
    }

    /// Runs the compiled matcher against one candidate. On a match with all
    /// four groups present, returns the four ordered capture texts; `None`
    /// otherwise — a policy decision point for the caller, not an error.
    pub fn get_fields(&self, logline: &String) -> (r: Option<Fields>)
        ensures
            ({
                let f = fields_of(captures_of(self.pattern(), logline@));
                match r {
                    Some(fl) => f is Some && fl.date_time@ == f.unwrap().0 && fl.host@
                        == f.unwrap().1 && fl.service@ == f.unwrap().2 && fl.message@
                        == f.unwrap().3,
                    None => f is None,
                }
            }),
    {
        let caps = match regex_captures(&self.regex, logline.as_str()) {
            Some(c) => c,
            None => {
                return None;
            },
        };
        if caps.len() != 5 {
            return None;
        }
        let date_time = match &caps[1] {
            Some(s) => s.clone(),
            None => {
                return None;
            },
        };
        let host = match &caps[2] {
            Some(s) => s.clone(),
            None => {
                return None;
            },
        };
        let service = match &caps[3] {
            Some(s) => s.clone(),
            None => {
                return None;
            },
        };
        let message = match &caps[4] {
            Some(s) => s.clone(),
            None => {
                return None;
            },
        };
        Some(Fields { date_time, host, service, message })
    }

    /// Parses `strftime` as a calendar date-time under the stored format and
    /// converts it to integer microseconds since the epoch, as
    /// seconds * 1_000_000 + subsecond microseconds. Fails with a ParseError
    /// when the text does not conform or the instant does not fit.
    pub fn timestamp_micros(&self, strftime: &str) -> (r: Result<i64, ParseError>)
        ensures
            ({
                let parsed = datetime_of(strftime@, self.timestamp_format());
                match r {
                    Ok(t) => parsed is Some && micros_in_range(parsed.unwrap().0) && t as int
                        == parsed.unwrap().0 * 1000000 + parsed.unwrap().1,
                    Err(ParseError::Timestamp) => parsed is None,
                    Err(ParseError::Range) => parsed is Some && !micros_in_range(
                        parsed.unwrap().0,
                    ),
                }
            }),
    {
        let parsed = match parse_datetime(strftime, self.strftime_pattern.as_str()) {
            Some(p) => p,
            None => {
                return Err(ParseError::Timestamp);
            },
        };
        let secs = parsed.0;
        let micros = parsed.1;
        if secs < -9223372036852i64 || secs > 9223372036852i64 {
            return Err(ParseError::Range);
        }
        Ok(secs * 1000000i64 + (micros as i64))
    }
}

} // verus!
