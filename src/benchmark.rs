//! A benchmark with variants: each variant runs it with other arguments.

use vstd::prelude::*;

use crate::definition::{Arguments, DEFAULT_ITERATIONS, ilog10, log10};
use crate::ids::{default_label, id_chars, id_from, label_from};

verus! {

/// Warmup and benchmark iteration counts of a [`Benchmark`].
#[derive(Debug, Clone, Copy, PartialEq, Eq, Structural)]
pub struct Iterations {
    /// Warmup iterations; zero skips the warmup.
    warmup: usize,
    /// Benchmark iterations, never zero.
    benchmark: usize,
}

impl Iterations {
    /// The warmup count.
    pub closed spec fn warmup_count(self) -> usize {
        self.warmup
    }

    /// The benchmark count.
    pub closed spec fn benchmark_count(self) -> usize {
        self.benchmark
    }

    /// Counts of `warmup` and `benchmark` iterations; the latter must not be
    /// zero.
    pub fn new(warmup: usize, benchmark: usize) -> (r: Iterations)
        requires
            benchmark > 0,
        ensures
            r.warmup_count() == warmup,
            r.benchmark_count() == benchmark,
    {
        Iterations { warmup, benchmark }
    }

    /// The warmup count.
    pub fn warmup(&self) -> (r: usize)
        ensures
            r == self.warmup_count(),
    {
        self.warmup
    }

    /// The benchmark count.
    pub fn benchmark(&self) -> (r: usize)
        ensures
            r == self.benchmark_count(),
    {
        self.benchmark
    }
}

/// What a [`Benchmark`] holds.
pub struct BenchmarkView {
    /// Clean id.
    pub id: Seq<char>,
    /// Label.
    pub label: Seq<char>,
    /// Argument lists, one for each variant.
    pub variants: Seq<Seq<Seq<char>>>,
    /// Iteration counts.
    pub iterations: Iterations,
}

/// A benchmark to run, once for each variant.
#[derive(Debug)]
pub struct Benchmark {
    /// Clean id.
    id: String,
    /// Label.
    label: String,
    /// Argument lists, one for each variant.
    variants: Vec<Arguments>,
    /// Iteration counts.
    iterations: Iterations,
}

/// The argument lists of `variants`.
pub open spec fn variant_views(variants: Seq<Arguments>) -> Seq<Seq<Seq<char>>> {
    variants.map_values(|a: Arguments| a@)
}

impl View for Benchmark {
    type V = BenchmarkView;

    closed spec fn view(&self) -> BenchmarkView {
        BenchmarkView {
            id: self.id@,
            label: self.label@,
            variants: variant_views(self.variants@),
            iterations: self.iterations,
        }
    }
}

/// What a benchmark [`Builder`] holds.
pub struct BenchmarkBuilderView {
    /// Clean id.
    pub id: Seq<char>,
    /// Label, if set.
    pub label: Option<Seq<char>>,
    /// Argument lists added so far.
    pub variants: Seq<Seq<Seq<char>>>,
    /// Warmup count, if set.
    pub warmup: Option<usize>,
    /// Benchmark count, if set.
    pub iterations: Option<usize>,
}

impl BenchmarkBuilderView {
    /// The benchmark count in effect.
    pub open spec fn iteration_count(self) -> usize {
        match self.iterations {
            Some(n) => n,
            None => DEFAULT_ITERATIONS,
        }
    }

    /// The benchmark that these settings build: the label defaults to the
    /// id capitalised, no variant means one without arguments, and the
    /// warmup count defaults to the decimal logarithm of the benchmark count.
    pub open spec fn built(self) -> BenchmarkView {
        BenchmarkView {
            id: self.id,
            label: match self.label {
                Some(l) => l,
                None => default_label(self.id),
            },
            variants: if self.variants.len() == 0 {
                seq![Seq::<Seq<char>>::empty()]
            } else {
                self.variants
            },
            iterations: Iterations::new_spec(
                match self.warmup {
                    Some(w) => w,
                    None => log10(self.iteration_count() as nat) as usize,
                },
                self.iteration_count(),
            ),
        }
    }
}

impl Iterations {
    /// Counts of `warmup` and `benchmark` iterations.
    pub closed spec fn new_spec(warmup: usize, benchmark: usize) -> Iterations {
        Iterations { warmup, benchmark }
    }
}

impl Benchmark {
    /// Starts a benchmark whose id is the ASCII letters, digits and
    /// underscores of `id`, lower-cased; that must not be empty.
    pub fn build(id: &str) -> (r: Builder)
        requires
            id_chars(id@).len() > 0,
        ensures
            r@ == (BenchmarkBuilderView {
                id: id_chars(id@),
                label: None,
                variants: Seq::empty(),
                warmup: None,
                iterations: None,
            }),
            r.wf(),
    {
        let r = Builder {
            id: id_from(id),
            label: None,
            variants: Vec::new(),
            benchmark_warmup: None,
            benchmark_iterations: None,
        };
        assert(r@.variants =~= Seq::<Seq<Seq<char>>>::empty());
        r
    }

    /// The clean id.
    pub fn id(&self) -> (r: &str)
        ensures
            r@ == self@.id,
    {
        self.id.as_str()
    }

    /// The label.
    pub fn label(&self) -> (r: &str)
        ensures
            r@ == self@.label,
    {
        self.label.as_str()
    }

    /// The argument lists, one for each variant.
    pub fn variants(&self) -> (r: &[Arguments])
        ensures
            variant_views(r@) == self@.variants,
    {
        self.variants.as_slice()
    }

    /// The iteration counts.
    pub fn iterations(&self) -> (r: &Iterations)
        ensures
            *r == self@.iterations,
    {
        &self.iterations
    }
}

/// Collects the settings of a [`Benchmark`].
#[derive(Debug)]
pub struct Builder {
    /// Clean id.
    id: String,
    /// Label, if set.
    label: Option<String>,
    /// Argument lists added so far.
    variants: Vec<Arguments>,
    /// Warmup count, if set.
    benchmark_warmup: Option<usize>,
    /// Benchmark count, if set; never zero.
    benchmark_iterations: Option<usize>,
}

impl View for Builder {
    type V = BenchmarkBuilderView;

    closed spec fn view(&self) -> BenchmarkBuilderView {
        BenchmarkBuilderView {
            id: self.id@,
            label: match self.label {
                Some(l) => Some(l@),
                None => None,
            },
            variants: variant_views(self.variants@),
            warmup: self.benchmark_warmup,
            iterations: self.benchmark_iterations,
        }
    }
}

impl Builder {
    /// Whether no benchmark count of zero was set.
    pub closed spec fn wf(&self) -> bool {
        self.benchmark_iterations != Some(0usize)
    }

    /// The benchmark.
    pub fn build(self) -> (r: Benchmark)
        requires
            self.wf(),
        ensures
            r@ == self@.built(),
    {
        let iterations = match self.benchmark_iterations {
            Some(n) => n,
            None => DEFAULT_ITERATIONS,
        };
        let label = match self.label {
            Some(l) => l,
            None => label_from(self.id.as_str()),
        };
        let ghost variants_before = self@.variants;
        let variants = if self.variants.len() == 0 {
            let mut v = Vec::new();
            v.push(Arguments::none());
            assert(variant_views(v@) =~= seq![Seq::<Seq<char>>::empty()]);
            v
        } else {
            self.variants
        };
        let warmup = match self.benchmark_warmup {
            Some(w) => w,
            None => ilog10(iterations),
        };
        Benchmark { id: self.id, label, variants, iterations: Iterations { warmup, benchmark: iterations } }
    }

    /// Sets the label, which must not be empty.
    pub fn with_label(self, label: &str) -> (r: Builder)
        requires
            label@.len() > 0,
        ensures
            r@ == (BenchmarkBuilderView { label: Some(label@), ..self@ }),
            r.wf() == self.wf(),
    {
        Builder { label: Some(label.to_owned()), ..self }
    }

    /// Adds a variant with `arguments`, unless they are empty or a variant
    /// with the same arguments is already there.
    pub fn with_variant(self, arguments: Arguments) -> (r: Builder)
        ensures
            r@ == (BenchmarkBuilderView {
                variants: if arguments@.len() == 0 || self@.variants.contains(arguments@) {
                    self@.variants
                } else {
                    self@.variants.push(arguments@)
                },
                ..self@
            }),
            r.wf() == self.wf(),
    {
        let mut b = self;
        if arguments.is_none() {
            return b;
        }
        let mut i: usize = 0;
        while i < b.variants.len()
            invariant
                i <= b.variants@.len(),
                b@ == self@,
                b.wf() == self.wf(),
                forall|k: int| 0 <= k < i ==> b@.variants[k] != arguments@,
            decreases b.variants.len() - i,
        {
            if b.variants[i].same(&arguments) {
                assert(b@.variants[i as int] == arguments@);
                return b;
            }
            i = i + 1;
        }
        let ghost before = b.variants@;
        b.variants.push(arguments);
        assert(variant_views(b.variants@) =~= variant_views(before).push(arguments@));
        b
    }

    /// Sets the warmup count; zero skips the warmup.
    pub fn with_warmup(self, warmup: usize) -> (r: Builder)
        ensures
            r@ == (BenchmarkBuilderView { warmup: Some(warmup), ..self@ }),
            r.wf() == self.wf(),
    {
        Builder { benchmark_warmup: Some(warmup), ..self }
    }

    /// Sets the benchmark count, which must not be zero.
    pub fn with_iterations(self, iterations: usize) -> (r: Builder)
        requires
            iterations > 0,
        ensures
            r@ == (BenchmarkBuilderView { iterations: Some(iterations), ..self@ }),
            r.wf(),
    {
        Builder { benchmark_iterations: Some(iterations), ..self }
    }
}

} // verus!
