//! Definition of one benchmark: id, label, arguments and iteration counts.

use vstd::prelude::*;

use crate::ids::{clean_id, default_label, label_from, slug};

verus! {

/// The character sequences held by `v`.
pub open spec fn texts(v: Seq<String>) -> Seq<Seq<char>> {
    v.map_values(|s: String| s@)
}

/// Compares two strings character by character.
pub fn same_text(a: &str, b: &str) -> (r: bool)
    ensures
        r == (a@ == b@),
{
    let n = a.unicode_len();
    if n != b.unicode_len() {
        return false;
    }
    let mut i: usize = 0;
    while i < n
        invariant
            n == a@.len(),
            n == b@.len(),
            i <= n,
            a@.subrange(0, i as int) == b@.subrange(0, i as int),
        decreases n - i,
    {
        if a.get_char(i) != b.get_char(i) {
            return false;
        }
        assert(a@.subrange(0, i + 1) =~= a@.subrange(0, i as int).push(a@[i as int]));
        assert(b@.subrange(0, i + 1) =~= b@.subrange(0, i as int).push(b@[i as int]));
        i = i + 1;
    }
    assert(a@ =~= a@.subrange(0, n as int));
    assert(b@ =~= b@.subrange(0, n as int));
    true
}

/// Copies a list of strings.
pub(crate) fn copy_strings(v: &Vec<String>) -> (r: Vec<String>)
    ensures
        texts(r@) == texts(v@),
{
    let mut out: Vec<String> = Vec::new();
    let mut i: usize = 0;
    while i < v.len()
        invariant
            i <= v.len(),
            out@.len() == i,
            forall|k: int| 0 <= k < i ==> (#[trigger] out@[k])@ == v@[k]@,
        decreases v.len() - i,
    {
        out.push(v[i].clone());
        i = i + 1;
    }
    assert(texts(out@) =~= texts(v@));
    out
}

/// Command-line arguments handed to a benchmark, in order.
#[derive(Debug, Clone, PartialEq, Eq)]
pub struct Arguments(Vec<String>);

impl View for Arguments {
    type V = Seq<Seq<char>>;

    closed spec fn view(&self) -> Seq<Seq<char>> {
        texts(self.0@)
    }
}

impl Arguments {
    /// No arguments.
    pub fn none() -> (r: Arguments)
        ensures
            r@ == Seq::<Seq<char>>::empty(),
    {
        let r = Arguments(Vec::new());
        assert(r@ =~= Seq::<Seq<char>>::empty());
        r
    }

    /// Arguments made of `items`, which must all be non-empty.
    pub fn from_strs(items: &[&str]) -> (r: Arguments)
        requires
            forall|i: int| 0 <= i < items@.len() ==> (#[trigger] items@[i])@.len() > 0,
        ensures
            r@ == items@.map_values(|s: &str| s@),
    {
        let mut out: Vec<String> = Vec::new();
        let mut i: usize = 0;
        while i < items.len()
            invariant
                i <= items@.len(),
                out@.len() == i,
                forall|k: int| 0 <= k < i ==> (#[trigger] out@[k])@ == items@[k]@,
            decreases items.len() - i,
        {
            out.push(items[i].to_owned());
            i = i + 1;
        }
        let r = Arguments(out);
        assert(r@ =~= items@.map_values(|s: &str| s@));
        r
    }

    /// Whether there are no arguments.
    pub fn is_none(&self) -> (r: bool)
        ensures
            r == (self@.len() == 0),
    {
        self.0.len() == 0
    }

    /// The number of arguments.
    pub fn len(&self) -> (r: usize)
        ensures
            r == self@.len(),
    {
        self.0.len()
    }

    /// The argument at `index`.
    pub fn get(&self, index: usize) -> (r: &str)
        requires
            index < self@.len(),
        ensures
            r@ == self@[index as int],
    {
        self.0[index].as_str()
    }

    /// Appends one argument.
    pub fn add(&mut self, argument: &str)
        ensures
            final(self)@ == old(self)@.push(argument@),
    {
        self.0.push(argument.to_owned());
        assert(final(self)@ =~= old(self)@.push(argument@));
    }

    /// Appends all of `arguments`, in order.
    pub fn append(&mut self, arguments: Arguments)
        ensures
            final(self)@ == old(self)@ + arguments@,
    {
        let mut other = arguments.0;
        self.0.append(&mut other);
        assert(final(self)@ =~= old(self)@ + arguments@);
    }

    /// Whether `argument` is one of the arguments.
    pub fn contains(&self, argument: &str) -> (r: bool)
        ensures
            r == self@.contains(argument@),
    {
        let mut i: usize = 0;
        while i < self.0.len()
            invariant
                i <= self@.len(),
                forall|k: int| 0 <= k < i ==> self@[k] != argument@,
            decreases self.0.len() - i,
        {
            if same_text(self.0[i].as_str(), argument) {
                assert(self@[i as int] == argument@);
                return true;
            }
            i = i + 1;
        }
        false
    }

    /// Whether both hold the same arguments in the same order.
    pub fn same(&self, other: &Arguments) -> (r: bool)
        ensures
            r == (self@ == other@),
    {
        if self.0.len() != other.0.len() {
            return false;
        }
        let mut i: usize = 0;
        while i < self.0.len()
            invariant
                i <= self@.len(),
                self@.len() == other@.len(),
                forall|k: int| 0 <= k < i ==> self@[k] == other@[k],
            decreases self.0.len() - i,
        {
            if !same_text(self.0[i].as_str(), other.0[i].as_str()) {
                assert(self@[i as int] != other@[i as int]);
                return false;
            }
            i = i + 1;
        }
        assert(self@ =~= other@);
        true
    }

    /// A copy of these arguments.
    pub fn duplicate(&self) -> (r: Arguments)
        ensures
            r@ == self@,
    {
        Arguments(copy_strings(&self.0))
    }
}

/// `floor(log10(n))`, with zero for zero.
pub open spec fn log10(n: nat) -> nat
    decreases n,
{
    if n < 10 {
        0
    } else {
        1 + log10(n / 10)
    }
}

/// The number of benchmark iterations used when none is set.
pub const DEFAULT_ITERATIONS: usize = 100;

/// `10` to the power `k`.
pub open spec fn pow10(k: nat) -> nat
    decreases k,
{
    if k == 0 {
        1
    } else {
        10 * pow10((k - 1) as nat)
    }
}

proof fn lemma_log10_below(n: nat, k: nat)
    requires
        n < pow10(k),
        k > 0,
    ensures
        log10(n) < k,
    decreases k,
{
    reveal_with_fuel(pow10, 2);
    if n >= 10 {
        lemma_log10_below(n / 10, (k - 1) as nat);
    }
}

proof fn lemma_log10_bounded(n: nat)
    ensures
        log10(n) <= n,
    decreases n,
{
    if n >= 10 {
        lemma_log10_bounded(n / 10);
    }
}

/// `floor(log10(n))`, with zero for zero.
pub fn ilog10(n: usize) -> (r: usize)
    ensures
        r == log10(n as nat),
        r < 20,
{
    proof {
        reveal_with_fuel(pow10, 21);
        lemma_log10_below(n as nat, 20);
    }
    let mut rest = n;
    let mut r: usize = 0;
    while rest >= 10
        invariant
            r + log10(rest as nat) == log10(n as nat),
        decreases rest,
    {
        proof {
            lemma_log10_bounded(n as nat);
        }
        rest = rest / 10;
        r = r + 1;
    }
    r
}

/// `a` when it is set, else `b`.
pub open spec fn first_set(a: Option<usize>, b: Option<usize>) -> Option<usize> {
    match a {
        Some(_) => a,
        None => b,
    }
}

/// Warmup and benchmark iteration counts, each of which may be left unset.
///
/// A benchmark count is never set to zero: asking for zero leaves it unset.
#[derive(Debug, Clone, Copy, PartialEq, Eq, Structural)]
pub struct Iterations {
    /// Warmup iterations; zero skips the warmup.
    warmup: Option<usize>,
    /// Benchmark iterations.
    benchmark: Option<usize>,
}

impl Iterations {
    /// The warmup count, if set.
    pub closed spec fn warmup_setting(self) -> Option<usize> {
        self.warmup
    }

    /// The benchmark count, if set.
    pub closed spec fn benchmark_setting(self) -> Option<usize> {
        self.benchmark
    }

    /// The benchmark count in effect: the one set, else the default.
    pub open spec fn benchmark_count(self) -> nat {
        match self.benchmark_setting() {
            Some(n) => n as nat,
            None => DEFAULT_ITERATIONS as nat,
        }
    }

    /// The warmup count in effect: the one set, else twice the decimal
    /// logarithm of the benchmark count.
    pub open spec fn warmup_count(self) -> nat {
        match self.warmup_setting() {
            Some(n) => n as nat,
            None => 2 * log10(self.benchmark_count()),
        }
    }

    /// Iterations with the given settings; a benchmark count of zero is
    /// taken as unset.
    pub fn new(warmup: Option<usize>, benchmark: Option<usize>) -> (r: Iterations)
        ensures
            r.warmup_setting() == warmup,
            r.benchmark_setting() == if benchmark == Some(0usize) {
                None
            } else {
                benchmark
            },
    {
        let benchmark = match benchmark {
            Some(0) => None,
            other => other,
        };
        Iterations { warmup, benchmark }
    }

    /// Whether a warmup count is set.
    pub fn has_warmup(&self) -> (r: bool)
        ensures
            r == self.warmup_setting() is Some,
    {
        self.warmup.is_some()
    }

    /// Whether a benchmark count is set.
    pub fn has_benchmark(&self) -> (r: bool)
        ensures
            r == self.benchmark_setting() is Some,
    {
        self.benchmark.is_some()
    }

    /// The warmup count in effect.
    pub fn warmup(&self) -> (r: usize)
        ensures
            r == self.warmup_count(),
    {
        match self.warmup {
            Some(n) => n,
            None => 2 * ilog10(self.benchmark()),
        }
    }

    /// The benchmark count in effect.
    pub fn benchmark(&self) -> (r: usize)
        ensures
            r == self.benchmark_count(),
    {
        match self.benchmark {
            Some(n) => n,
            None => DEFAULT_ITERATIONS,
        }
    }

    /// Each setting of `self`, or where it is unset, that of `rhs`.
    pub fn or(self, rhs: Iterations) -> (r: Iterations)
        ensures
            r.warmup_setting() == first_set(self.warmup_setting(), rhs.warmup_setting()),
            r.benchmark_setting() == first_set(self.benchmark_setting(), rhs.benchmark_setting()),
            r == self.or_spec(rhs),
    {
        Iterations {
            warmup: match self.warmup {
                Some(w) => Some(w),
                None => rhs.warmup,
            },
            benchmark: match self.benchmark {
                Some(b) => Some(b),
                None => rhs.benchmark,
            },
        }
    }

    /// Fills each unset setting of `self` from `rhs`.
    pub fn or_assign(&mut self, rhs: Iterations)
        ensures
            *final(self) == old(self).or_spec(rhs),
    {
        *self = self.or(rhs);
    }

    /// Each setting of `self`, or where it is unset, that of `rhs`.
    pub closed spec fn or_spec(self, rhs: Iterations) -> Iterations {
        Iterations {
            warmup: first_set(self.warmup, rhs.warmup),
            benchmark: first_set(self.benchmark, rhs.benchmark),
        }
    }
}

/// What a [`Definition`] holds.
pub struct DefinitionView {
    /// Clean id.
    pub id: Seq<char>,
    /// Label.
    pub label: Seq<char>,
    /// Arguments, in order.
    pub arguments: Seq<Seq<char>>,
    /// Iteration settings.
    pub iterations: Iterations,
}

/// One benchmark: a clean id, a label, arguments and iteration settings.
#[derive(Debug, PartialEq, Eq)]
pub struct Definition {
    /// Clean id.
    id: String,
    /// Label.
    label: String,
    /// Arguments.
    arguments: Arguments,
    /// Iteration settings.
    iterations: Iterations,
}

impl View for Definition {
    type V = DefinitionView;

    closed spec fn view(&self) -> DefinitionView {
        DefinitionView {
            id: self.id@,
            label: self.label@,
            arguments: self.arguments@,
            iterations: self.iterations,
        }
    }
}

/// What a definition [`Builder`] holds.
pub struct BuilderView {
    /// Clean id.
    pub id: Seq<char>,
    /// Label, if set.
    pub label: Option<Seq<char>>,
    /// Arguments, in order.
    pub arguments: Seq<Seq<char>>,
    /// Iteration settings.
    pub iterations: Iterations,
}

impl BuilderView {
    /// The definition that these settings build.
    pub open spec fn built(self) -> DefinitionView {
        DefinitionView {
            id: self.id,
            label: match self.label {
                Some(l) => l,
                None => default_label(self.id),
            },
            arguments: self.arguments,
            iterations: self.iterations,
        }
    }
}

/// The settings of a fresh builder for `id`.
pub open spec fn fresh_builder(id: Seq<char>) -> BuilderView {
    BuilderView {
        id: slug(id),
        label: None,
        arguments: Seq::empty(),
        iterations: Iterations::unset(),
    }
}

impl Iterations {
    /// These settings with the warmup count set to `warmup`.
    pub closed spec fn with_warmup(self, warmup: usize) -> Iterations {
        Iterations { warmup: Some(warmup), ..self }
    }

    /// These settings with the benchmark count set to `n`, or unset for zero.
    pub closed spec fn with_benchmark(self, n: usize) -> Iterations {
        Iterations {
            benchmark: if n == 0 {
                None
            } else {
                Some(n)
            },
            ..self
        }
    }

    /// No setting made.
    pub closed spec fn unset() -> Iterations {
        Iterations { warmup: None, benchmark: None }
    }
}

impl Definition {
    /// Starts a definition for the clean form of `id` (see
    /// [`slug`]), which must not be empty.
    pub fn build(id: &str) -> (r: Builder)
        requires
            slug(id@).len() > 0,
        ensures
            r@ == fresh_builder(id@),
    {
        let id = match clean_id(id) {
            Some(s) => s,
            None => {
                assert(false);
                String::new()
            },
        };
        let r = Builder {
            id,
            label: None,
            arguments: Arguments::none(),
            iterations: Iterations { warmup: None, benchmark: None },
        };
        r
    }

    /// The clean id.
    pub fn id(&self) -> (r: &str)
        ensures
            r@ == self@.id,
    {
        self.id.as_str()
    }

    /// The label.
    pub fn label(&self) -> (r: &str)
        ensures
            r@ == self@.label,
    {
        self.label.as_str()
    }

    /// The arguments.
    pub fn arguments(&self) -> (r: &Arguments)
        ensures
            r@ == self@.arguments,
    {
        &self.arguments
    }

    /// The iteration settings.
    pub fn iterations(&self) -> (r: Iterations)
        ensures
            r == self@.iterations,
    {
        self.iterations
    }

    /// Whether both define the same benchmark.
    pub fn same(&self, other: &Definition) -> (r: bool)
        ensures
            r == (self@ == other@),
    {
        same_text(self.id.as_str(), other.id.as_str()) && same_text(
            self.label.as_str(),
            other.label.as_str(),
        ) && self.arguments.same(&other.arguments) && self.iterations == other.iterations
    }
}

/// Collects the settings of a [`Definition`].
#[derive(Debug)]
pub struct Builder {
    /// Clean id.
    id: String,
    /// Label, if set.
    label: Option<String>,
    /// Arguments.
    arguments: Arguments,
    /// Iteration settings.
    iterations: Iterations,
}

impl View for Builder {
    type V = BuilderView;

    closed spec fn view(&self) -> BuilderView {
        BuilderView {
            id: self.id@,
            label: match self.label {
                Some(l) => Some(l@),
                None => None,
            },
            arguments: self.arguments@,
            iterations: self.iterations,
        }
    }
}

impl Builder {
    /// Sets the label, which must not be empty.
    pub fn label(self, label: &str) -> (r: Builder)
        requires
            label@.len() > 0,
        ensures
            r@ == (BuilderView { label: Some(label@), ..self@ }),
    {
        Builder { label: Some(label.to_owned()), ..self }
    }

    /// Appends an argument.
    pub fn arg(self, argument: &str) -> (r: Builder)
        ensures
            r@ == (BuilderView { arguments: self@.arguments.push(argument@), ..self@ }),
    {
        let mut b = self;
        b.arguments.add(argument);
        b
    }

    /// Appends arguments.
    pub fn args(self, arguments: Arguments) -> (r: Builder)
        ensures
            r@ == (BuilderView { arguments: self@.arguments + arguments@, ..self@ }),
    {
        let mut b = self;
        b.arguments.append(arguments);
        b
    }

    /// Sets the warmup count.
    pub fn warmup(self, warmup: usize) -> (r: Builder)
        ensures
            r@ == (BuilderView { iterations: self@.iterations.with_warmup(warmup), ..self@ }),
    {
        let mut b = self;
        b.iterations = Iterations { warmup: Some(warmup), ..b.iterations };
        b
    }

    /// Sets the benchmark count; zero leaves it unset.
    pub fn iterations(self, iterations: usize) -> (r: Builder)
        ensures
            r@ == (BuilderView { iterations: self@.iterations.with_benchmark(iterations), ..self@ }),
    {
        let mut b = self;
        b.iterations = Iterations::new(b.iterations.warmup, Some(iterations));
        b
    }

    /// The definition: the label defaults to the id with its first
    /// character capitalised.
    pub fn build(self) -> (r: Definition)
        ensures
            r@ == self@.built(),
    {
        let label = match self.label {
            Some(l) => l,
            None => label_from(self.id.as_str()),
        };
        Definition { id: self.id, label, arguments: self.arguments, iterations: self.iterations }
    }
}

} // verus!
