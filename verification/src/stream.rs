//! The log stream: an ordered collection of records with a single forward
//! consumption cursor, multi-source merge, and substring-based filtering.

use vstd::prelude::*;
use vstd::relations::sorted_by;
use vstd::seq_lib::lemma_multiset_commutative;
use vstd::seq_lib::lemma_sorted_unique;

use crate::record::excludes_any;
use crate::record::includes_all;
use crate::record::line_le;
use crate::record::record_le;
use crate::record::record_leq;
use crate::record::lemma_record_le_connected;
use crate::record::lemma_record_le_total_ordering;
use crate::record::lemma_record_le_transitive;
use crate::record::LogLine;
use crate::record::Record;

verus! {

broadcast use vstd::seq_lib::group_seq_lib_default, vstd::seq_lib::group_to_multiset_ensures;

/// The records modelled by a sequence of log lines.
pub open spec fn records_of(lines: Seq<LogLine>) -> Seq<Record> {
    lines.map_values(|l: LogLine| l@)
}

/// A record keeps its place in a filtered stream exactly when every included
/// term occurs in its message and no excluded term does.
pub open spec fn keep_record(rv: Record, included: Seq<Seq<char>>, excluded: Seq<Seq<char>>) -> bool {
    includes_all(rv.message, included) && !excludes_any(rv.message, excluded)
}

proof fn lemma_records_of_push(s: Seq<LogLine>, x: LogLine)
    ensures
        records_of(s.push(x)) =~= records_of(s).push(x@),
{
}

proof fn lemma_records_of_insert(s: Seq<LogLine>, j: int, x: LogLine)
    requires
        0 <= j <= s.len(),
    ensures
        records_of(s.insert(j, x)) =~= records_of(s).insert(j, x@),
{
    s.insert_ensures(j, x);
    records_of(s).insert_ensures(j, x@);
    assert forall|i: int| 0 <= i < s.len() + 1 implies records_of(s.insert(j, x))[i] == records_of(
        s,
    ).insert(j, x@)[i] by {
        if i > j {
            assert(s.insert(j, x)[i] == s[i - 1]);
            assert(records_of(s).insert(j, x@)[i] == records_of(s)[i - 1]);
        }
    }
}

/// Any provider of a sequence of records: satisfied by parsing a local or a
/// remote command's captured output through the ingestion pipeline.
pub trait LogSource {
    /// The records this source produces.
    spec fn records(&self) -> Seq<Record>;

    fn lines(&self) -> (r: Vec<LogLine>)
        ensures
            records_of(r@) == self.records(),
    ;
}

/// A record source backed by an in-memory vector: the bridge by which text
/// parsed from a captured command output is handed to a stream.
pub struct VecSource {
    pub lines: Vec<LogLine>,
}

fn clone_lines(src: &Vec<LogLine>) -> (r: Vec<LogLine>)
    ensures
        records_of(r@) =~= records_of(src@),
{
    let mut out: Vec<LogLine> = Vec::new();
    let mut i: usize = 0;
    while i < src.len()
        invariant
            i <= src@.len(),
            records_of(out@) =~= records_of(src@.subrange(0, i as int)),
        decreases src@.len() - i,
    {
        out.push(src[i].clone());
        proof {
            assert(src@.subrange(0, i + 1) =~= src@.subrange(0, i as int).push(src@[i as int]));
            lemma_records_of_push(src@.subrange(0, i as int), src@[i as int]);
        }
        i = i + 1;
    }
    proof {
        assert(src@.subrange(0, src@.len() as int) =~= src@);
    }
    out
}

impl LogSource for VecSource {
    open spec fn records(&self) -> Seq<Record> {
        records_of(self.lines@)
    }

    fn lines(&self) -> (r: Vec<LogLine>) {
        clone_lines(&self.lines)
    }
}

/// Sorts log lines ascending by the record order. The result holds exactly
/// the input's records, rearranged.
fn sort_lines(input: Vec<LogLine>) -> (r: Vec<LogLine>)
    ensures
        records_of(r@).to_multiset() == records_of(input@).to_multiset(),
        sorted_by(records_of(r@), record_leq()),
{
    let mut out: Vec<LogLine> = Vec::new();
    let mut i: usize = 0;
    while i < input.len()
        invariant
            i <= input@.len(),
            records_of(out@).to_multiset() == records_of(input@.subrange(0, i as int)).to_multiset(),
            sorted_by(records_of(out@), record_leq()),
        decreases input@.len() - i,
    {
        let x = input[i].clone();
        let ghost pre = out@;
        let mut j: usize = 0;
        while j < out.len() && line_le(&out[j], &x)
            invariant
                out@ == pre,
                j <= out@.len(),
                forall|k: int| 0 <= k < j ==> record_le(#[trigger] records_of(out@)[k], x@),
            decreases out@.len() - j,
        {
            j = j + 1;
        }
        proof {
            if j < out@.len() {
                lemma_record_le_connected(records_of(out@)[j as int], x@);
            }
            assert forall|k: int| j <= k < out@.len() implies record_le(
                x@,
                #[trigger] records_of(out@)[k],
            ) by {
                if k > j {
                    assert(record_leq()(records_of(out@)[j as int], records_of(out@)[k]));
                    lemma_record_le_transitive(
                        x@,
                        records_of(out@)[j as int],
                        records_of(out@)[k],
                    );
                }
            }
        }
        out.insert(j, x);
        proof {
            lemma_records_of_insert(pre, j as int, x);
            let rec = records_of(pre);
            let rec2 = records_of(out@);
            rec.insert_ensures(j as int, x@);
            assert(rec2 =~= rec.insert(j as int, x@));
            assert(sorted_by(rec2, record_leq())) by {
                assert forall|p: int, q: int| 0 <= p < q < rec2.len() implies record_leq()(
                    rec2[p],
                    rec2[q],
                ) by {
                    if q < j {
                    } else if p < j && q == j {
                        assert(rec2[p] == rec[p]);
                    } else if p < j && q > j {
                        assert(rec2[p] == rec[p]);
                        assert(rec2[q] == rec[q - 1]);
                    } else if p == j {
                        assert(rec2[q] == rec[q - 1]);
                    } else {
                        assert(rec2[p] == rec[p - 1]);
                        assert(rec2[q] == rec[q - 1]);
                    }
                }
            }
            assert(records_of(input@.subrange(0, i + 1)) =~= records_of(
                input@.subrange(0, i as int),
            ).push(input@[i as int]@)) by {
                assert(input@.subrange(0, i + 1) =~= input@.subrange(0, i as int).push(
                    input@[i as int],
                ));
                lemma_records_of_push(input@.subrange(0, i as int), input@[i as int]);
            }
            assert(rec2.to_multiset() == records_of(input@.subrange(0, i + 1)).to_multiset());
        }
        i = i + 1;
    }
    proof {
        assert(input@.subrange(0, input@.len() as int) =~= input@);
    }
    out
}

/// Ordered sequence of records plus a forward-only consumption cursor. The
/// backing order is whatever the constructor was given: the stream never
/// sorts itself; sorting happens only at merge time or before construction.
pub struct Logs {
    lines: Vec<LogLine>,
    line_idx: usize,
}

impl Logs {
    /// The records held by this stream, in backing order.
    pub closed spec fn records(self) -> Seq<Record> {
        records_of(self.lines@)
    }

    /// How many records have been consumed from this stream.
    pub closed spec fn cursor(self) -> int {
        self.line_idx as int
    }

    /// Wraps the given lines as-is; does not sort.
    pub fn new(lines: Vec<LogLine>) -> (r: Logs)
        ensures
            r.records() == records_of(lines@),
            r.cursor() == 0,
    {
        Logs { lines, line_idx: 0 }
    }

    /// Builds a stream by pulling records from any record-producing source.
    pub fn from<T: LogSource>(source: T) -> (r: Self)
        ensures
            r.records() == source.records(),
            r.cursor() == 0,
    {
        let lines = source.lines();
        Logs { lines, line_idx: 0 }
    }

    /// Returns a new stream holding the union of both streams' records,
    /// re-sorted ascending by the record order. Neither input is mutated.
    pub fn merge(&self, other: &Self) -> (r: Logs)
        ensures
            r.records().to_multiset() == self.records().to_multiset().add(
                other.records().to_multiset(),
            ),
            sorted_by(r.records(), record_leq()),
            r.cursor() == 0,
    {
        let mut all = clone_lines(&self.lines);
        let mut i: usize = 0;
        while i < other.lines.len()
            invariant
                i <= other.lines@.len(),
                records_of(all@) =~= records_of(self.lines@) + records_of(
                    other.lines@.subrange(0, i as int),
                ),
            decreases other.lines@.len() - i,
        {
            let ghost allpre = all@;
            all.push(other.lines[i].clone());
            proof {
                let v = all@[all@.len() - 1];
                assert(all@ == allpre.push(v));
                lemma_records_of_push(allpre, v);
                assert(other.lines@.subrange(0, i + 1) =~= other.lines@.subrange(0, i as int).push(
                    other.lines@[i as int],
                ));
                lemma_records_of_push(other.lines@.subrange(0, i as int), other.lines@[i as int]);
            }
            i = i + 1;
        }
        proof {
            assert(other.lines@.subrange(0, other.lines@.len() as int) =~= other.lines@);
            lemma_multiset_commutative(records_of(self.lines@), records_of(other.lines@));
        }
        let sorted = sort_lines(all);
        Logs { lines: sorted, line_idx: 0 }
    }

    /// Returns a new stream holding exactly the records whose message contains
    /// every included term and no excluded term, in this stream's order.
    pub fn filter_logs(&self, excluded: &Vec<String>, included: &Vec<String>) -> (r: Logs)
        ensures
            r.records() == self.records().filter(
                (|rv: Record| keep_record(rv, included.deep_view(), excluded.deep_view())),
            ),
            r.cursor() == 0,
    {
        let ghost pred = (|rv: Record| keep_record(rv, included.deep_view(), excluded.deep_view()));
        let mut out: Vec<LogLine> = Vec::new();
        let mut i: usize = 0;
        while i < self.lines.len()
            invariant
                i <= self.lines@.len(),
                records_of(out@) =~= records_of(self.lines@).subrange(0, i as int).filter(pred),
                pred == (|rv: Record| keep_record(rv, included.deep_view(), excluded.deep_view())),
            decreases self.lines@.len() - i,
        {
            let x = self.lines[i].clone();
            let ghost rec = records_of(self.lines@);
            proof {
                reveal(Seq::filter);
                assert(rec.subrange(0, i + 1) =~= rec.subrange(0, i as int).push(rec[i as int]));
                assert(rec.subrange(0, i + 1).drop_last() =~= rec.subrange(0, i as int));
            }
            if x.includes(included) && !x.excludes(excluded) {
                let ghost outpre = out@;
                out.push(x);
                proof {
                    reveal(Seq::filter);
                    lemma_records_of_push(outpre, x);
                    assert(pred(rec[i as int]));
                    assert(rec.subrange(0, i + 1).filter(pred) == rec.subrange(0, i as int).filter(
                        pred,
                    ).push(rec[i as int]));
                }
            } else {
                proof {
                    reveal(Seq::filter);
                    assert(!pred(rec[i as int]));
                    assert(rec.subrange(0, i + 1).filter(pred) == rec.subrange(0, i as int).filter(
                        pred,
                    ));
                }
            }
            i = i + 1;
        }
        proof {
            assert(records_of(self.lines@).subrange(0, self.lines@.len() as int) =~= records_of(
                self.lines@,
            ));
        }
        Logs { lines: out, line_idx: 0 }
    }

    /// Produces the next record, or signals end-of-stream. Once exhausted, a
    /// stream keeps signaling end-of-stream on every subsequent call.
    pub fn next(&mut self) -> (r: Option<LogLine>)
        ensures
            final(self).records() == old(self).records(),
            old(self).cursor() < old(self).records().len() ==> r is Some && r.unwrap()@ == old(
                self,
            ).records()[old(self).cursor()] && final(self).cursor() == old(self).cursor() + 1,
            old(self).cursor() >= old(self).records().len() ==> r is None && final(self).cursor()
                == old(self).cursor(),
    {
        if self.line_idx < self.lines.len() {
            let line = self.lines[self.line_idx].clone();
            self.line_idx = self.line_idx + 1;
            Some(line)
        } else {
            None
        }
    }
}

/// Streams sorted by the record order are determined by their contents: any
/// two with the same records are the same sequence. With `merge`'s contract
/// this makes merging content-commutative — `merge(a, b)` and `merge(b, a)`
/// hold identical record sequences — and makes sorting idempotent: a stream
/// already sorted is left exactly as it is.
pub proof fn lemma_sorted_records_unique(r1: Seq<Record>, r2: Seq<Record>)
    requires
        sorted_by(r1, record_leq()),
        sorted_by(r2, record_leq()),
        r1.to_multiset() == r2.to_multiset(),
    ensures
        r1 == r2,
{
    lemma_record_le_total_ordering();
    lemma_sorted_unique(r1, r2, record_leq());
    assert(r1 =~= r2);
}

/// With no included terms and no excluded terms, filtering keeps every record:
/// the result is the input, unchanged and in order.
pub proof fn lemma_filter_no_terms(s: Seq<Record>)
    ensures
        s.filter((|rv: Record| keep_record(rv, Seq::<Seq<char>>::empty(), Seq::<Seq<char>>::empty())))
            == s,
    decreases s.len(),
{
    reveal(Seq::filter);
    let pred = (|rv: Record| keep_record(rv, Seq::<Seq<char>>::empty(), Seq::<Seq<char>>::empty()));
    if s.len() == 0 {
        assert(s.filter(pred) =~= s);
    } else {
        lemma_filter_no_terms(s.drop_last());
        assert(pred(s.last()));
        assert(s.filter(pred) == s.drop_last().filter(pred).push(s.last()));
        assert(s.drop_last().push(s.last()) =~= s);
    }
}

} // verus!

