//! Results collected over all runs, and their JSON form.

use vstd::prelude::*;

use crate::case::Case;
use crate::implementation::Implementation;
use crate::ids::{push_char, push_str};
use crate::output::Timings;
use crate::text::{debug_quoted, decimal_text, push_decimal, quoted};

verus! {

/// `items`, each turned into text by `f`, separated by commas.
pub open spec fn joined<T>(items: Seq<T>, f: spec_fn(T) -> Seq<char>) -> Seq<char>
    decreases items.len(),
{
    if items.len() == 0 {
        Seq::empty()
    } else if items.len() == 1 {
        f(items[0])
    } else {
        joined(items.drop_last(), f) + seq![','] + f(items.last())
    }
}

proof fn lemma_joined_step<T>(items: Seq<T>, i: int, f: spec_fn(T) -> Seq<char>)
    requires
        0 <= i < items.len(),
    ensures
        joined(items.subrange(0, i + 1), f) == if i == 0 {
            f(items[i])
        } else {
            joined(items.subrange(0, i), f) + seq![','] + f(items[i])
        },
{
    let sub = items.subrange(0, i + 1);
    assert(sub.drop_last() =~= items.subrange(0, i));
}

/// Whether some entry of `entries` has `key`.
pub open spec fn keyed<V>(entries: Seq<(Seq<char>, V)>, key: Seq<char>) -> bool {
    exists|i: int| 0 <= i < entries.len() && (#[trigger] entries[i]).0 == key
}

/// Whether no two entries of `entries` share a key.
pub open spec fn unique_keys<V>(entries: Seq<(Seq<char>, V)>) -> bool {
    forall|i: int, j: int|
        0 <= i < entries.len() && 0 <= j < entries.len() && i != j ==> (#[trigger] entries[i]).0
            != (#[trigger] entries[j]).0
}

/// The position of the entry with `key`.
pub open spec fn key_index<V>(entries: Seq<(Seq<char>, V)>, key: Seq<char>) -> int {
    choose|i: int| 0 <= i < entries.len() && (#[trigger] entries[i]).0 == key
}

/// `entries` with the value of `key` set to `value`: replaced where the key
/// is present, appended where it is not.
pub open spec fn put<V>(entries: Seq<(Seq<char>, V)>, key: Seq<char>, value: V) -> Seq<
    (Seq<char>, V),
> {
    if keyed(entries, key) {
        entries.update(key_index(entries, key), (key, value))
    } else {
        entries.push((key, value))
    }
}

/// How a case is described in the results: its label, arguments and
/// iteration counts.
pub open spec fn details_text(
    label: Seq<char>,
    arguments: Seq<Seq<char>>,
    warmup: nat,
    benchmark: nat,
) -> Seq<char> {
    "{\"label\":"@ + debug_quoted(label) + ",\"arguments\":["@ + joined(arguments, quote_each()) + "],\"warmup\":"@ + decimal_text(warmup) + ",\"benchmark\":"@ + decimal_text(benchmark)
        + "}"@
}

/// The JSON member of one case description.
pub open spec fn benchmark_member(e: (Seq<char>, Seq<char>)) -> Seq<char> {
    seq!['"'] + e.0 + seq!['"', ':'] + e.1
}

/// The JSON member of one implementation's timings.
pub open spec fn run_member(e: (Seq<char>, Timings)) -> Seq<char> {
    seq!['"'] + e.0 + seq!['"', ':', '{'] + "\"warmup\":"@ + decimal_text(e.1.warmup as nat)
        + ",\"benchmark\":"@ + decimal_text(e.1.benchmark as nat) + ",\"execution\":"@
        + decimal_text(e.1.execution as nat) + seq!['}']
}

/// The JSON member of one case's timings.
pub open spec fn case_member(e: (Seq<char>, Seq<(Seq<char>, Timings)>)) -> Seq<char> {
    seq!['"'] + e.0 + seq!['"', ':', '{'] + joined(e.1, run_each())
        + seq!['}']
}

/// Quotes one argument.
pub open spec fn quote_each() -> spec_fn(Seq<char>) -> Seq<char> {
    |a: Seq<char>| debug_quoted(a)
}

/// Writes one case description member.
pub open spec fn benchmark_each() -> spec_fn((Seq<char>, Seq<char>)) -> Seq<char> {
    |e: (Seq<char>, Seq<char>)| benchmark_member(e)
}

/// Writes one implementation timings member.
pub open spec fn run_each() -> spec_fn((Seq<char>, Timings)) -> Seq<char> {
    |r: (Seq<char>, Timings)| run_member(r)
}

/// Writes one case timings member.
pub open spec fn case_each() -> spec_fn((Seq<char>, Seq<(Seq<char>, Timings)>)) -> Seq<char> {
    |e: (Seq<char>, Seq<(Seq<char>, Timings)>)| case_member(e)
}

/// What [`Results`] holds.
pub struct ResultsView {
    /// The device the benchmarks ran on.
    pub device: Seq<char>,
    /// Description of each case, by case id.
    pub benchmarks: Seq<(Seq<char>, Seq<char>)>,
    /// Timings of each case, by case id, then by implementation id.
    pub timings: Seq<(Seq<char>, Seq<(Seq<char>, Timings)>)>,
}

impl ResultsView {
    /// The results as one JSON object.
    pub open spec fn json(self) -> Seq<char> {
        "{\"device\":"@ + debug_quoted(self.device) + ",\"benchmarks\":{"@ + joined(self.benchmarks, benchmark_each()) + "},\"timings\":{"@ + joined(self.timings, case_each()) + "}}"@
    }

    /// No key is used twice at any level.
    pub open spec fn wf(self) -> bool {
        &&& unique_keys(self.benchmarks)
        &&& unique_keys(self.timings)
        &&& forall|i: int| 0 <= i < self.timings.len() ==> unique_keys(#[trigger] self.timings[i].1)
    }
}

/// One implementation's timings for a case.
#[derive(Debug)]
struct Run {
    /// Implementation id.
    implementation: String,
    /// Its timings.
    timings: Timings,
}

/// All timings of one case.
#[derive(Debug)]
struct CaseRuns {
    /// Case id.
    case: String,
    /// Timings by implementation.
    runs: Vec<Run>,
}

/// The description of one case.
#[derive(Debug)]
struct Described {
    /// Case id.
    case: String,
    /// Its description as a JSON object.
    details: String,
}

/// Results collected over all runs: a description of each case, and its
/// timings by implementation.
#[derive(Debug)]
pub struct Results {
    /// The device the benchmarks ran on.
    device: String,
    /// Case descriptions, in the order first recorded.
    benchmarks: Vec<Described>,
    /// Case timings, in the order first recorded.
    timings: Vec<CaseRuns>,
}

/// What `runs` holds.
spec fn runs_view(runs: Seq<Run>) -> Seq<(Seq<char>, Timings)> {
    runs.map_values(|r: Run| (r.implementation@, r.timings))
}

impl View for Results {
    type V = ResultsView;

    closed spec fn view(&self) -> ResultsView {
        ResultsView {
            device: self.device@,
            benchmarks: self.benchmarks@.map_values(|d: Described| (d.case@, d.details@)),
            timings: self.timings@.map_values(|c: CaseRuns| (c.case@, runs_view(c.runs@))),
        }
    }
}

/// Timings of a case after `implementation` recorded `timings` for it.
pub open spec fn record_run(
    table: Seq<(Seq<char>, Seq<(Seq<char>, Timings)>)>,
    case: Seq<char>,
    implementation: Seq<char>,
    timings: Timings,
) -> Seq<(Seq<char>, Seq<(Seq<char>, Timings)>)> {
    if keyed(table, case) {
        let i = key_index(table, case);
        table.update(i, (case, put(table[i].1, implementation, timings)))
    } else {
        table.push((case, seq![(implementation, timings)]))
    }
}

proof fn lemma_first_is_key_index<V>(entries: Seq<(Seq<char>, V)>, key: Seq<char>, i: int)
    requires
        unique_keys(entries),
        0 <= i < entries.len(),
        entries[i].0 == key,
    ensures
        keyed(entries, key),
        key_index(entries, key) == i,
{
    let j = key_index(entries, key);
    assert(entries[j].0 == key);
}

fn find_described(entries: &Vec<Described>, key: &str) -> (r: Option<usize>)
    ensures
        r matches Some(i) ==> i < entries@.len() && entries@[i as int].case@ == key@,
        r is None ==> forall|k: int| 0 <= k < entries@.len() ==> (#[trigger] entries@[k]).case@ != key@,
{
    let mut i: usize = 0;
    while i < entries.len()
        invariant
            i <= entries@.len(),
            forall|k: int| 0 <= k < i ==> (#[trigger] entries@[k]).case@ != key@,
        decreases entries.len() - i,
    {
        if crate::definition::same_text(entries[i].case.as_str(), key) {
            return Some(i);
        }
        i = i + 1;
    }
    None
}

fn find_case(entries: &Vec<CaseRuns>, key: &str) -> (r: Option<usize>)
    ensures
        r matches Some(i) ==> i < entries@.len() && entries@[i as int].case@ == key@,
        r is None ==> forall|k: int| 0 <= k < entries@.len() ==> (#[trigger] entries@[k]).case@ != key@,
{
    let mut i: usize = 0;
    while i < entries.len()
        invariant
            i <= entries@.len(),
            forall|k: int| 0 <= k < i ==> (#[trigger] entries@[k]).case@ != key@,
        decreases entries.len() - i,
    {
        if crate::definition::same_text(entries[i].case.as_str(), key) {
            return Some(i);
        }
        i = i + 1;
    }
    None
}

fn find_run(entries: &Vec<Run>, key: &str) -> (r: Option<usize>)
    ensures
        r matches Some(i) ==> i < entries@.len() && entries@[i as int].implementation@ == key@,
        r is None ==> forall|k: int| 0 <= k < entries@.len() ==> (#[trigger] entries@[k]).implementation@ != key@,
{
    let mut i: usize = 0;
    while i < entries.len()
        invariant
            i <= entries@.len(),
            forall|k: int| 0 <= k < i ==> (#[trigger] entries@[k]).implementation@ != key@,
        decreases entries.len() - i,
    {
        if crate::definition::same_text(entries[i].implementation.as_str(), key) {
            return Some(i);
        }
        i = i + 1;
    }
    None
}

/// Appends `items`, each quoted, separated by commas.
fn push_quoted_list(s: &mut String, items: &crate::definition::Arguments)
    ensures
        final(s)@ == old(s)@ + joined(items@, quote_each()),
{
    let mut i: usize = 0;
    while i < items.len()
        invariant
            i <= items@.len(),
            s@ == old(s)@ + joined(items@.subrange(0, i as int), quote_each()),
        decreases items@.len() - i,
    {
        proof {
            lemma_joined_step(items@, i as int, quote_each());
        }
        if i > 0 {
            push_char(s, ',');
        }
        let q = quoted(items.get(i));
        push_str(s, q.as_str());
        assert(s@ =~= old(s)@ + joined(items@.subrange(0, i + 1), quote_each()));
        i = i + 1;
    }
    assert(items@.subrange(0, items@.len() as int) =~= items@);
}

fn push_benchmark_members(s: &mut String, entries: &Vec<Described>)
    ensures
        final(s)@ == old(s)@ + joined(
            entries@.map_values(|d: Described| (d.case@, d.details@)),
            benchmark_each(),
        ),
{
    let ghost all = entries@.map_values(|d: Described| (d.case@, d.details@));
    let mut i: usize = 0;
    while i < entries.len()
        invariant
            i <= entries@.len(),
            all == entries@.map_values(|d: Described| (d.case@, d.details@)),
            s@ == old(s)@ + joined(all.subrange(0, i as int), benchmark_each()),
        decreases entries.len() - i,
    {
        proof {
            lemma_joined_step(all, i as int, benchmark_each());
        }
        if i > 0 {
            push_char(s, ',');
        }
        push_char(s, '"');
        push_str(s, entries[i].case.as_str());
        push_char(s, '"');
        push_char(s, ':');
        push_str(s, entries[i].details.as_str());
        assert(s@ =~= old(s)@ + joined(all.subrange(0, i + 1), benchmark_each()));
        i = i + 1;
    }
    assert(all.subrange(0, all.len() as int) =~= all);
}

fn push_run_members(s: &mut String, runs: &Vec<Run>)
    ensures
        final(s)@ == old(s)@ + joined(runs_view(runs@), run_each()),
{
    let ghost all = runs_view(runs@);
    let mut i: usize = 0;
    while i < runs.len()
        invariant
            i <= runs@.len(),
            all == runs_view(runs@),
            s@ == old(s)@ + joined(all.subrange(0, i as int), run_each()),
        decreases runs.len() - i,
    {
        proof {
            lemma_joined_step(all, i as int, run_each());
        }
        if i > 0 {
            push_char(s, ',');
        }
        let t = runs[i].timings;
        push_char(s, '"');
        push_str(s, runs[i].implementation.as_str());
        push_char(s, '"');
        push_char(s, ':');
        push_char(s, '{');
        push_str(s, "\"warmup\":");
        push_decimal(s, t.warmup);
        push_str(s, ",\"benchmark\":");
        push_decimal(s, t.benchmark);
        push_str(s, ",\"execution\":");
        push_decimal(s, t.execution);
        push_char(s, '}');
        assert(s@ =~= old(s)@ + joined(all.subrange(0, i + 1), run_each()));
        i = i + 1;
    }
    assert(all.subrange(0, all.len() as int) =~= all);
}

fn push_case_members(s: &mut String, cases: &Vec<CaseRuns>)
    ensures
        final(s)@ == old(s)@ + joined(
            cases@.map_values(|c: CaseRuns| (c.case@, runs_view(c.runs@))),
            case_each(),
        ),
{
    let ghost all = cases@.map_values(|c: CaseRuns| (c.case@, runs_view(c.runs@)));
    let mut i: usize = 0;
    while i < cases.len()
        invariant
            i <= cases@.len(),
            all == cases@.map_values(|c: CaseRuns| (c.case@, runs_view(c.runs@))),
            s@ == old(s)@ + joined(all.subrange(0, i as int), case_each()),
        decreases cases.len() - i,
    {
        proof {
            lemma_joined_step(all, i as int, case_each());
        }
        if i > 0 {
            push_char(s, ',');
        }
        push_char(s, '"');
        push_str(s, cases[i].case.as_str());
        push_char(s, '"');
        push_char(s, ':');
        push_char(s, '{');
        push_run_members(s, &cases[i].runs);
        push_char(s, '}');
        assert(s@ =~= old(s)@ + joined(all.subrange(0, i + 1), case_each()));
        i = i + 1;
    }
    assert(all.subrange(0, all.len() as int) =~= all);
}

/// The description of `case` as a JSON object.
fn describe(case: &Case) -> (r: String)
    ensures
        r@ == details_text(
            case@.label(),
            case@.arguments(),
            case@.iterations().warmup_count(),
            case@.iterations().benchmark_count(),
        ),
{
    let iterations = case.iterations();
    let arguments = case.arguments();
    let mut s = String::new();
    push_str(&mut s, "{\"label\":");
    let label = quoted(case.label().as_str());
    push_str(&mut s, label.as_str());
    push_str(&mut s, ",\"arguments\":[");
    push_quoted_list(&mut s, &arguments);
    push_str(&mut s, "],\"warmup\":");
    push_decimal(&mut s, iterations.warmup() as u128);
    push_str(&mut s, ",\"benchmark\":");
    push_decimal(&mut s, iterations.benchmark() as u128);
    push_str(&mut s, "}");
    assert(s@ =~= details_text(
        case@.label(),
        case@.arguments(),
        case@.iterations().warmup_count(),
        case@.iterations().benchmark_count(),
    ));
    s
}

impl Results {
    /// No results yet, for benchmarks run on `device`.
    pub fn new(device: &str) -> (r: Results)
        ensures
            r@.device == device@,
            r@.benchmarks.len() == 0,
            r@.timings.len() == 0,
            r@.wf(),
    {
        Results { device: device.to_owned(), benchmarks: Vec::new(), timings: Vec::new() }
    }

    /// Records that `implementation` ran `case` in `timings`. The case is
    /// described the first time it is recorded; a second run of the same
    /// implementation replaces the timings of the first.
    pub fn record(&mut self, case: &Case, implementation: &Implementation, timings: Timings)
        requires
            old(self)@.wf(),
        ensures
            final(self)@.wf(),
            final(self)@.device == old(self)@.device,
            final(self)@.benchmarks == if keyed(old(self)@.benchmarks, case@.id()) {
                old(self)@.benchmarks
            } else {
                old(self)@.benchmarks.push(
                    (
                        case@.id(),
                        details_text(
                            case@.label(),
                            case@.arguments(),
                            case@.iterations().warmup_count(),
                            case@.iterations().benchmark_count(),
                        ),
                    ),
                )
            },
            final(self)@.timings == record_run(
                old(self)@.timings,
                case@.id(),
                implementation.spec_id(),
                timings,
            ),
    {
        let id = case.id();
        let ghost before = self@;
        match find_described(&self.benchmarks, id.as_str()) {
            Some(i) => {
                proof {
                    assert(before.benchmarks[i as int].0 == id@);
                }
            },
            None => {
                let details = describe(case);
                let ghost old_entries = self.benchmarks@;
                self.benchmarks.push(Described { case: id.clone(), details });
                assert(self@.benchmarks =~= before.benchmarks.push((id@, details@)));
            },
        }
        let imp = implementation.id();
        let ghost table = before.timings;
        match find_case(&self.timings, id.as_str()) {
            Some(i) => {
                proof {
                    assert(table[i as int].0 == id@);
                    lemma_first_is_key_index(table, id@, i as int);
                }
                let ghost runs = table[i as int].1;
                match find_run(&self.timings[i].runs, imp) {
                    Some(j) => {
                        proof {
                            assert(runs[j as int].0 == imp@);
                            lemma_first_is_key_index(runs, imp@, j as int);
                        }
                        self.timings[i].runs[j].timings = timings;
                    },
                    None => {
                        self.timings[i].runs.push(Run { implementation: imp.to_owned(), timings });
                    },
                }
                assert(runs_view(self.timings@[i as int].runs@) =~= put(runs, imp@, timings));
                assert(self@.timings =~= record_run(table, id@, imp@, timings));
            },
            None => {
                let mut runs: Vec<Run> = Vec::new();
                runs.push(Run { implementation: imp.to_owned(), timings });
                self.timings.push(CaseRuns { case: id, runs });
                assert(runs_view(self.timings@.last().runs@) =~= seq![(imp@, timings)]);
                assert(self@.timings =~= record_run(table, id@, imp@, timings));
            },
        }
    }

    /// The results as one JSON object.
    pub fn to_json(&self) -> (r: String)
        ensures
            r@ == self@.json(),
    {
        let mut s = String::new();
        push_str(&mut s, "{\"device\":");
        let device = quoted(self.device.as_str());
        push_str(&mut s, device.as_str());
        push_str(&mut s, ",\"benchmarks\":{");
        push_benchmark_members(&mut s, &self.benchmarks);
        push_str(&mut s, "},\"timings\":{");
        push_case_members(&mut s, &self.timings);
        push_str(&mut s, "}}");
        assert(s@ =~= self@.json());
        s
    }
}

} // verus!
