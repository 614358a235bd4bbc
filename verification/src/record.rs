//! The structured log record and its total order: primary key timestamp,
//! tie-broken by hostname, then service, then message.

use vstd::prelude::*;
use vstd::relations::total_ordering;

use crate::text::is_substring;
use crate::text::lemma_lex_le_antisymmetric;
use crate::text::lemma_lex_le_refl;
use crate::text::lemma_lex_le_total;
use crate::text::lemma_lex_le_transitive;
use crate::text::lex_le;
use crate::text::contains_str;
use crate::text::str_le;

verus! {

/// Mathematical model of a parsed log entry: an instant in integer
/// microseconds since the epoch, and the three extracted texts.
#[verifier::ext_equal]
pub struct Record {
    pub timestamp: int,
    pub hostname: Seq<char>,
    pub service: Seq<char>,
    pub message: Seq<char>,
}

/// The record order: ascending timestamp, ties broken by hostname, then
/// service, then message, lexicographically.
pub open spec fn record_le(a: Record, b: Record) -> bool {
    if a.timestamp != b.timestamp {
        a.timestamp < b.timestamp
    } else if a.hostname != b.hostname {
        lex_le(a.hostname, b.hostname)
    } else if a.service != b.service {
        lex_le(a.service, b.service)
    } else {
        lex_le(a.message, b.message)
    }
}

/// The record order as a value, for use with vstd's ordering predicates.
pub open spec fn record_leq() -> spec_fn(Record, Record) -> bool {
    |a: Record, b: Record| record_le(a, b)
}

pub proof fn lemma_record_le_refl(a: Record)
    ensures
        record_le(a, a),
{
    lemma_lex_le_refl(a.message);
}

pub proof fn lemma_record_le_connected(a: Record, b: Record)
    ensures
        record_le(a, b) || record_le(b, a),
{
    lemma_lex_le_total(a.hostname, b.hostname);
    lemma_lex_le_total(a.service, b.service);
    lemma_lex_le_total(a.message, b.message);
}

pub proof fn lemma_record_le_antisymmetric(a: Record, b: Record)
    requires
        record_le(a, b),
        record_le(b, a),
    ensures
        a == b,
{
    if a.timestamp == b.timestamp {
        if a.hostname != b.hostname {
            lemma_lex_le_antisymmetric(a.hostname, b.hostname);
        }
        if a.service != b.service {
            lemma_lex_le_antisymmetric(a.service, b.service);
        }
        lemma_lex_le_antisymmetric(a.message, b.message);
        assert(a =~= b);
    }
}

pub proof fn lemma_record_le_transitive(a: Record, b: Record, c: Record)
    requires
        record_le(a, b),
        record_le(b, c),
    ensures
        record_le(a, c),
{
    if a.timestamp == c.timestamp {
        assert(a.timestamp == b.timestamp && b.timestamp == c.timestamp);
        assert(lex_le(a.hostname, b.hostname)) by {
            if a.hostname == b.hostname {
                lemma_lex_le_refl(a.hostname);
            }
        }
        assert(lex_le(b.hostname, c.hostname)) by {
            if b.hostname == c.hostname {
                lemma_lex_le_refl(b.hostname);
            }
        }
        lemma_lex_le_transitive(a.hostname, b.hostname, c.hostname);
        if a.hostname == c.hostname {
            lemma_lex_le_antisymmetric(a.hostname, b.hostname);
            assert(lex_le(a.service, b.service)) by {
                if a.service == b.service {
                    lemma_lex_le_refl(a.service);
                }
            }
            assert(lex_le(b.service, c.service)) by {
                if b.service == c.service {
                    lemma_lex_le_refl(b.service);
                }
            }
            lemma_lex_le_transitive(a.service, b.service, c.service);
            if a.service == c.service {
                lemma_lex_le_antisymmetric(a.service, b.service);
                lemma_lex_le_transitive(a.message, b.message, c.message);
            }
        }
    }
}

/// The record order is a total order: reflexive, antisymmetric, transitive,
/// and any two records are comparable. Together with the uniqueness of sorted
/// permutations this makes every sorted arrangement of a set of records
/// deterministic, even among same-instant entries.
pub proof fn lemma_record_le_total_ordering()
    ensures
        total_ordering(record_leq()),
{
    let leq = record_leq();
    assert forall|a: Record| #[trigger] leq(a, a) by {
        lemma_record_le_refl(a);
    }
    assert forall|a: Record, b: Record| #[trigger] leq(a, b) && #[trigger] leq(b, a) implies a == b by {
        lemma_record_le_antisymmetric(a, b);
    }
    assert forall|a: Record, b: Record, c: Record|
        #[trigger] leq(a, b) && #[trigger] leq(b, c) implies leq(a, c) by {
        lemma_record_le_transitive(a, b, c);
    }
    assert forall|a: Record, b: Record| !(#[trigger] leq(a, b)) implies leq(b, a) by {
        lemma_record_le_connected(a, b);
    }
}

/// Immutable parsed log entry. Built only from successfully extracted fields
/// plus a successfully parsed timestamp; the texts are kept exactly as
/// extracted.
pub struct LogLine {
    timestamp: i64,
    hostname: String,
    service: String,
    message: String,
}

impl View for LogLine {
    type V = Record;

    closed spec fn view(&self) -> Record {
        Record {
            timestamp: self.timestamp as int,
            hostname: self.hostname@,
            service: self.service@,
            message: self.message@,
        }
    }
}

/// Every term of `words` occurs in `msg`.
pub open spec fn includes_all(msg: Seq<char>, words: Seq<Seq<char>>) -> bool {
    forall|i: int| 0 <= i < words.len() ==> is_substring(msg, #[trigger] words[i])
}

/// Some term of `words` occurs in `msg`.
pub open spec fn excludes_any(msg: Seq<char>, words: Seq<Seq<char>>) -> bool {
    exists|i: int| 0 <= i < words.len() && is_substring(msg, #[trigger] words[i])
}

impl LogLine {
    pub fn new(timestamp: i64, hostname: String, service: String, message: String) -> (r: LogLine)
        ensures
            r@ == (Record {
                timestamp: timestamp as int,
                hostname: hostname@,
                service: service@,
                message: message@,
            }),
    {
        LogLine { timestamp, hostname, service, message }
    }

    pub fn timestamp(&self) -> (r: i64)
        ensures
            r as int == self@.timestamp,
    {
        self.timestamp
    }

    pub fn hostname(&self) -> (r: String)
        ensures
            r@ == self@.hostname,
    {
        self.hostname.clone()
    }

    pub fn service(&self) -> (r: String)
        ensures
            r@ == self@.service,
    {
        self.service.clone()
    }

    pub fn message(&self) -> (r: String)
        ensures
            r@ == self@.message,
    {
        self.message.clone()
    }

    /// Every term of `words` is a substring of this record's message.
    pub fn includes(&self, words: &Vec<String>) -> (r: bool)
        ensures
            r == includes_all(self@.message, words.deep_view()),
    {
        let mut i: usize = 0;
        while i < words.len()
            invariant
                i <= words@.len(),
                forall|k: int| 0 <= k < i ==> is_substring(self@.message, #[trigger] words.deep_view()[k]),
            decreases words@.len() - i,
        {
            if !contains_str(self.message.as_str(), words[i].as_str()) {
                assert(!is_substring(self@.message, words.deep_view()[i as int]));
                return false;
            }
            i = i + 1;
        }
        true
    }

    /// Some term of `words` is a substring of this record's message.
    pub fn excludes(&self, words: &Vec<String>) -> (r: bool)
        ensures
            r == excludes_any(self@.message, words.deep_view()),
    {
        let mut i: usize = 0;
        while i < words.len()
            invariant
                i <= words@.len(),
                forall|k: int| 0 <= k < i ==> !is_substring(self@.message, #[trigger] words.deep_view()[k]),
            decreases words@.len() - i,
        {
            if contains_str(self.message.as_str(), words[i].as_str()) {
                assert(is_substring(self@.message, words.deep_view()[i as int]));
                return true;
            }
            i = i + 1;
        }
        false
    }
}

impl Clone for LogLine {
    fn clone(&self) -> (r: Self)
        ensures
            r@ == self@,
    {
        LogLine {
            timestamp: self.timestamp,
            hostname: self.hostname.clone(),
            service: self.service.clone(),
            message: self.message.clone(),
        }
    }
}

/// Executable comparison deciding the record order on two log lines.
pub fn line_le(a: &LogLine, b: &LogLine) -> (r: bool)
    ensures
        r == record_le(a@, b@),
{
    if a.timestamp != b.timestamp {
        a.timestamp < b.timestamp
    } else if !(a.hostname == b.hostname) {
        str_le(a.hostname.as_str(), b.hostname.as_str())
    } else if !(a.service == b.service) {
        str_le(a.service.as_str(), b.service.as_str())
    } else {
        str_le(a.message.as_str(), b.message.as_str())
    }
}

} // verus!
