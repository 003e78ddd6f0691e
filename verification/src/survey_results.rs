//! The tally of a survey over many replay files: how many were parsed, how
//! many failed and why, and which versions were not recognized.
use vstd::prelude::*;
use vstd::string::StrSliceExecFns;

use crate::analyzer::survey::SurveyStats;
use crate::error::{spec_error_name, ErrorKind};
use crate::version::{decimal, push_decimal, version_path};

verus! {

/// The first `length` characters of `s`, or all of `s` when it is shorter.
pub fn truncate_string(s: &str, length: usize) -> (r: &str)
    ensures
        r@ == if length < s@.len() {
            s@.subrange(0, length as int)
        } else {
            s@
        },
{
    let n = s.unicode_len();
    if length < n {
        s.substring_char(0, length)
    } else {
        s
    }
}

/// What became of one replay file of a survey.
pub enum SurveyResult {
    /// Parsed: its hash, its date and time, the number of packets, the
    /// number of invalid packets, and the audit messages it gave.
    Success((String, String, usize, usize, Vec<String>)),
    /// Written by a game version that is not supported; the version.
    UnsupportedVersion(String),
    /// Could not be parsed; the error.
    ParseFailure(String),
}

/// The tally of a survey.
pub struct SurveyResults {
    version_failures: usize,
    parse_failures: usize,
    successes: usize,
    successes_with_invalids: usize,
    total: usize,
    /// Each unrecognized version, once, with the number of files written by it.
    invalid_versions: Vec<(String, usize)>,
    /// Each replay with audit messages, once, by hash: its date and time and
    /// the messages.
    audits: Vec<(String, (String, Vec<String>))>,
}

/// The mathematical value of a [`SurveyResults`].
pub struct SurveyResultsV {
    pub version_failures: nat,
    pub parse_failures: nat,
    pub successes: nat,
    pub successes_with_invalids: nat,
    pub total: nat,
    pub invalid_versions: Seq<(Seq<char>, nat)>,
    pub audits: Seq<(Seq<char>, (Seq<char>, Seq<Seq<char>>))>,
}

pub open spec fn strings_of(v: Seq<String>) -> Seq<Seq<char>> {
    Seq::new(v.len(), |i: int| v[i]@)
}

pub open spec fn counts_view(v: Seq<(String, usize)>) -> Seq<(Seq<char>, nat)> {
    Seq::new(v.len(), |i: int| (v[i].0@, v[i].1 as nat))
}

pub open spec fn audits_view(v: Seq<(String, (String, Vec<String>))>) -> Seq<
    (Seq<char>, (Seq<char>, Seq<Seq<char>>)),
> {
    Seq::new(v.len(), |i: int| (v[i].0@, (v[i].1.0@, strings_of(v[i].1.1@))))
}

impl View for SurveyResults {
    type V = SurveyResultsV;

    closed spec fn view(&self) -> SurveyResultsV {
        SurveyResultsV {
            version_failures: self.version_failures as nat,
            parse_failures: self.parse_failures as nat,
            successes: self.successes as nat,
            successes_with_invalids: self.successes_with_invalids as nat,
            total: self.total as nat,
            invalid_versions: counts_view(self.invalid_versions@),
            audits: audits_view(self.audits@),
        }
    }
}

/// Whether no key occurs twice among the entries `es`.
pub open spec fn keys_unique<V>(es: Seq<(Seq<char>, V)>) -> bool {
    forall|i: int, j: int| 0 <= i < j < es.len() ==> #[trigger] es[i].0 != #[trigger] es[j].0
}

/// Whether `k` is the key of one of the entries `es`.
pub open spec fn has_key<V>(es: Seq<(Seq<char>, V)>, k: Seq<char>) -> bool {
    exists|i: int| 0 <= i < es.len() && #[trigger] es[i].0 == k
}

/// The entries `es` with the value under `k` set to `v`: in place where
/// `k` is a key already, at the end otherwise.
pub open spec fn put<V>(es: Seq<(Seq<char>, V)>, k: Seq<char>, v: V) -> Seq<(Seq<char>, V)> {
    if has_key(es, k) {
        let i = choose|i: int| 0 <= i < es.len() && #[trigger] es[i].0 == k;
        es.update(i, (k, v))
    } else {
        es.push((k, v))
    }
}

/// The count under `k` in `es`, 0 where `k` is no key.
pub open spec fn count_of(es: Seq<(Seq<char>, nat)>, k: Seq<char>) -> nat {
    if has_key(es, k) {
        let i = choose|i: int| 0 <= i < es.len() && #[trigger] es[i].0 == k;
        es[i].1
    } else {
        0
    }
}

/// The counts of `es` added up.
pub open spec fn count_sum(es: Seq<(Seq<char>, nat)>) -> nat
    decreases es.len(),
{
    if es.len() == 0 {
        0
    } else {
        count_sum(es.drop_last()) + es.last().1
    }
}

/// The tally after one more file whose outcome is `r`.
pub open spec fn tally(s: SurveyResultsV, r: SurveyResult) -> SurveyResultsV {
    let s1 = SurveyResultsV { total: s.total + 1, ..s };
    match r {
        SurveyResult::Success((hash, datetime, _npackets, ninvalid, audits)) => SurveyResultsV {
            successes: s.successes + 1,
            successes_with_invalids: if ninvalid > 0 {
                s.successes_with_invalids + 1
            } else {
                s.successes_with_invalids
            },
            audits: if audits@.len() > 0 {
                put(s.audits, hash@, (datetime@, strings_of(audits@)))
            } else {
                s.audits
            },
            ..s1
        },
        SurveyResult::UnsupportedVersion(version) => SurveyResultsV {
            version_failures: s.version_failures + 1,
            invalid_versions: put(s.invalid_versions, version@, count_of(s.invalid_versions, version@) + 1),
            ..s1
        },
        SurveyResult::ParseFailure(_) => SurveyResultsV { parse_failures: s.parse_failures + 1, ..s1 },
    }
}

/// The tally that a survey keeps: every file is counted once, under exactly
/// one outcome; the unrecognized versions are each listed once, with
/// counts that add up to the files of an unrecognized version; each hash
/// with audit messages is listed once.
pub open spec fn tally_wf(s: SurveyResultsV) -> bool {
    &&& s.total == s.version_failures + s.parse_failures + s.successes
    &&& s.successes_with_invalids <= s.successes
    &&& keys_unique(s.invalid_versions)
    &&& keys_unique(s.audits)
    &&& count_sum(s.invalid_versions) == s.version_failures
}

proof fn lemma_count_sum_le(es: Seq<(Seq<char>, nat)>, i: int)
    requires
        0 <= i < es.len(),
    ensures
        es[i].1 <= count_sum(es),
    decreases es.len(),
{
    if i < es.len() - 1 {
        lemma_count_sum_le(es.drop_last(), i);
    }
}

proof fn lemma_count_sum_update(es: Seq<(Seq<char>, nat)>, i: int, e: (Seq<char>, nat))
    requires
        0 <= i < es.len(),
    ensures
        count_sum(es.update(i, e)) == count_sum(es) - es[i].1 + e.1,
    decreases es.len(),
{
    if i < es.len() - 1 {
        lemma_count_sum_update(es.drop_last(), i, e);
        assert(es.update(i, e).drop_last() =~= es.drop_last().update(i, e));
    } else {
        assert(es.update(i, e).drop_last() =~= es.drop_last());
    }
}

proof fn lemma_count_sum_push(es: Seq<(Seq<char>, nat)>, e: (Seq<char>, nat))
    ensures
        count_sum(es.push(e)) == count_sum(es) + e.1,
{
    assert(es.push(e).drop_last() =~= es);
}

/// The index of the entry of `es` whose key is `k`, if any.
fn find_key<V>(es: &Vec<(String, V)>, k: &String) -> (r: Option<usize>)
    ensures
        match r {
            Some(i) => i < es@.len() && es@[i as int].0@ == k@,
            None => forall|i: int| 0 <= i < es@.len() ==> #[trigger] es@[i].0@ != k@,
        },
{
    let mut i: usize = 0;
    while i < es.len()
        invariant
            i <= es@.len(),
            forall|j: int| 0 <= j < i ==> #[trigger] es@[j].0@ != k@,
        decreases es@.len() - i,
    {
        if es[i].0 == *k {
            return Some(i);
        }
        i += 1;
    }
    None
}

impl SurveyResults {
    /// Whether the tally is one that a survey keeps, as [`tally_wf`] says.
    pub open spec fn well_formed(&self) -> bool {
        tally_wf(self@)
    }

    /// The tally of a survey of no files.
    pub fn empty() -> (r: Self)
        ensures
            r.well_formed(),
            r@ == (SurveyResultsV {
                version_failures: 0,
                parse_failures: 0,
                successes: 0,
                successes_with_invalids: 0,
                total: 0,
                invalid_versions: Seq::empty(),
                audits: Seq::empty(),
            }),
    {
        let r = Self {
            version_failures: 0,
            parse_failures: 0,
            successes: 0,
            successes_with_invalids: 0,
            total: 0,
            invalid_versions: Vec::new(),
            audits: Vec::new(),
        };
        proof {
            assert(counts_view(r.invalid_versions@) =~= Seq::empty());
            assert(audits_view(r.audits@) =~= Seq::empty());
        }
        r
    }

    /// Counts one more file, whose outcome is `result`, as [`tally`] says.
    pub fn add(&mut self, result: SurveyResult)
        requires
            old(self).well_formed(),
            old(self)@.total < usize::MAX,
        ensures
            final(self).well_formed(),
            final(self)@ == tally(old(self)@, result),
    {
        let ghost before = self@;
        let ghost res = result;
        self.total += 1;
        match result {
            SurveyResult::Success((hash, datetime, _npacks, ninvalid, audits)) => {
                self.successes += 1;
                if ninvalid > 0 {
                    self.successes_with_invalids += 1;
                }
                if audits.len() > 0 {
                    let ghost av = audits_view(self.audits@);
                    let ghost val = (datetime@, strings_of(audits@));
                    match find_key(&self.audits, &hash) {
                        Some(i) => {
                            proof {
                                assert(av[i as int].0 == hash@);
                                assert(has_key(av, hash@));
                                let j = choose|j: int| 0 <= j < av.len() && #[trigger] av[j].0 == hash@;
                                assert(j == i);
                            }
                            let k = hash.clone();
                            self.audits.set(i, (k, (datetime, audits)));
                            proof {
                                assert(audits_view(self.audits@) =~= av.update(i as int, (hash@, val)));
                            }
                        },
                        None => {
                            proof {
                                assert(!has_key(av, hash@));
                            }
                            self.audits.push((hash, (datetime, audits)));
                            proof {
                                assert(audits_view(self.audits@) =~= av.push((hash@, val)));
                            }
                        },
                    }
                }
            },
            SurveyResult::UnsupportedVersion(version) => {
                self.version_failures += 1;
                let ghost cv = counts_view(self.invalid_versions@);
                match find_key(&self.invalid_versions, &version) {
                    Some(i) => {
                        proof {
                            assert(cv[i as int].0 == version@);
                            assert(has_key(cv, version@));
                            let j = choose|j: int| 0 <= j < cv.len() && #[trigger] cv[j].0 == version@;
                            assert(j == i);
                            lemma_count_sum_le(cv, i as int);
                        }
                        let c = self.invalid_versions[i].1;
                        let k = version.clone();
                        self.invalid_versions.set(i, (k, c + 1));
                        proof {
                            assert(counts_view(self.invalid_versions@) =~= cv.update(
                                i as int,
                                (version@, (c + 1) as nat),
                            ));
                            lemma_count_sum_update(cv, i as int, (version@, (c + 1) as nat));
                        }
                    },
                    None => {
                        proof {
                            assert(!has_key(cv, version@));
                        }
                        self.invalid_versions.push((version, 1));
                        proof {
                            assert(counts_view(self.invalid_versions@) =~= cv.push((version@, 1nat)));
                            lemma_count_sum_push(cv, (version@, 1nat));
                        }
                    },
                }
            },
            SurveyResult::ParseFailure(_error) => {
                self.parse_failures += 1;
            },
        }
    }

    pub fn version_failures(&self) -> (r: usize)
        ensures
            r == self@.version_failures,
    {
        self.version_failures
    }

    pub fn parse_failures(&self) -> (r: usize)
        ensures
            r == self@.parse_failures,
    {
        self.parse_failures
    }

    pub fn successes(&self) -> (r: usize)
        ensures
            r == self@.successes,
    {
        self.successes
    }

    pub fn successes_with_invalids(&self) -> (r: usize)
        ensures
            r == self@.successes_with_invalids,
    {
        self.successes_with_invalids
    }

    pub fn total(&self) -> (r: usize)
        ensures
            r == self@.total,
    {
        self.total
    }

    /// Each unrecognized version, once, with the number of its files.
    pub fn invalid_versions(&self) -> (r: &[(String, usize)])
        ensures
            counts_view(r@) == self@.invalid_versions,
    {
        self.invalid_versions.as_slice()
    }

    /// Each replay with audit messages, once, by hash.
    pub fn audits(&self) -> (r: &[(String, (String, Vec<String>))])
        ensures
            audits_view(r@) == self@.audits,
    {
        self.audits.as_slice()
    }
}

/// A copy of the strings `v`.
fn copy_strings(v: &Vec<String>) -> (r: Vec<String>)
    ensures
        r@ == v@,
{
    let mut r: Vec<String> = Vec::new();
    let mut k: usize = 0;
    while k < v.len()
        invariant
            k <= v@.len(),
            r@ == v@.subrange(0, k as int),
        decreases v@.len() - k,
    {
        r.push(v[k].clone());
        k += 1;
        proof {
            assert(r@ =~= v@.subrange(0, k as int));
        }
    }
    proof {
        assert(v@.subrange(0, v@.len() as int) =~= v@);
    }
    r
}

/// What became of the replay file `filename` in a survey, from how reading
/// it ended and what was counted while it was read: a success with the
/// counts; an unsupported version when the data files of its version are
/// missing (named by the version's path) or its format version is unknown
/// (named by the number); a parse failure, named by the kind of error,
/// otherwise.
pub fn survey_outcome(filename: String, parsed: &Result<(), ErrorKind>, stats: &SurveyStats) -> (r: SurveyResult)
    ensures
        match parsed {
            Ok(()) => r matches SurveyResult::Success((f, d, n, i, a)) && f@ == filename@ && d@
                == stats.date_time@ && n == stats.total_packets && i == stats.invalid_packets && a@
                == stats.audits@,
            Err(ErrorKind::DatafileNotFound { version, .. }) => r matches SurveyResult::UnsupportedVersion(v)
                && v@ == version_path(*version),
            Err(ErrorKind::UnsupportedReplayVersion(n)) => r matches SurveyResult::UnsupportedVersion(v) && v@
                == decimal(*n as nat),
            Err(e) => r matches SurveyResult::ParseFailure(m) && m@ == spec_error_name(*e),
        },
{
    match parsed {
        Ok(()) => SurveyResult::Success(
            (
                filename,
                stats.date_time.clone(),
                stats.total_packets,
                stats.invalid_packets,
                copy_strings(&stats.audits),
            ),
        ),
        Err(ErrorKind::DatafileNotFound { version, .. }) => SurveyResult::UnsupportedVersion(version.to_path()),
        Err(ErrorKind::UnsupportedReplayVersion(n)) => {
            let mut v = String::new();
            push_decimal(&mut v, *n);
            proof {
                assert(v@ =~= decimal(*n as nat));
            }
            SurveyResult::UnsupportedVersion(v)
        },
        Err(e) => SurveyResult::ParseFailure(e.name()),
    }
}

} // verus!
