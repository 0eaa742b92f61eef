//! Benchmark suites: a single definition, or a matrix of cases that share a
//! namespace definition.

use vstd::prelude::*;

use crate::case::{Case, CaseIterator, CaseView, matrix_views, views};
use crate::definition::{
    Arguments,
    Builder as DefinitionBuilder,
    BuilderView,
    Definition,
    DefinitionView,
    fresh_builder,
    same_text,
};
use crate::ids::{push_char, push_str, slug};

verus! {

/// What each of `definitions` holds.
pub open spec fn definition_views(definitions: Seq<Definition>) -> Seq<DefinitionView> {
    definitions.map_values(|d: Definition| d@)
}

/// The labels of `definitions`, separated by a comma and a space.
pub open spec fn joined_labels(definitions: Seq<Definition>) -> Seq<char>
    decreases definitions.len(),
{
    if definitions.len() == 0 {
        Seq::empty()
    } else if definitions.len() == 1 {
        definitions[0]@.label
    } else {
        joined_labels(definitions.drop_last()) + seq![',', ' '] + definitions.last()@.label
    }
}

/// A benchmark suite.
#[derive(Debug, PartialEq, Eq)]
pub enum Suite {
    /// A suite of one case.
    Single(Definition),
    /// A matrix of cases.
    Matrix {
        /// Settings shared by every case.
        namespace: Definition,
        /// The cases.
        definitions: Vec<Definition>,
    },
}

impl Suite {
    /// The cases of the suite, in order.
    pub open spec fn case_views(&self) -> Seq<CaseView> {
        match self {
            Suite::Single(d) => seq![CaseView { case: d@, namespace: None }],
            Suite::Matrix { namespace, definitions } => matrix_views(namespace@, definitions@),
        }
    }

    /// The definition that names the suite.
    pub open spec fn head(&self) -> DefinitionView {
        match self {
            Suite::Single(d) => d@,
            Suite::Matrix { namespace, .. } => namespace@,
        }
    }

    /// The full label: for a matrix, the namespace label followed by the
    /// case labels in parentheses.
    pub open spec fn full_label(&self) -> Seq<char> {
        match self {
            Suite::Single(d) => d@.label,
            Suite::Matrix { namespace, definitions } => namespace@.label + seq![' ', '(']
                + joined_labels(definitions@) + seq![')'],
        }
    }

    /// A suite of the single case `definition`.
    pub fn single(definition: Definition) -> (r: Suite)
        ensures
            r == Suite::Single(definition),
    {
        Suite::Single(definition)
    }

    /// A matrix of `definitions` sharing `namespace`.
    pub fn matrix(namespace: Definition, definitions: Vec<Definition>) -> (r: Suite)
        ensures
            r == (Suite::Matrix { namespace, definitions }),
    {
        Suite::Matrix { namespace, definitions }
    }

    /// Starts a suite for the clean form of `id`, which must not be empty.
    pub fn build(id: &str) -> (r: Builder)
        requires
            slug(id@).len() > 0,
        ensures
            r@ == (SuiteBuilderView { namespace: fresh_builder(id@), cases: Seq::empty() }),
    {
        let r = Builder { namespace: Definition::build(id), cases: Vec::new() };
        assert(r@.cases =~= Seq::<DefinitionView>::empty());
        r
    }

    /// A walk over the cases of the suite, in order.
    pub fn cases(&self) -> (r: CaseIterator<'_>)
        ensures
            views(r.remaining()) == self.case_views(),
    {
        match self {
            Suite::Single(d) => CaseIterator::single(d),
            Suite::Matrix { namespace, definitions } => CaseIterator::matrix(namespace, definitions),
        }
    }

    /// The cases of the suite, in order.
    pub fn case_list(&self) -> (r: Vec<Case<'_>>)
        ensures
            views(r@) == self.case_views(),
    {
        match self {
            Suite::Single(d) => {
                let mut r = Vec::new();
                r.push(Case::new(d, None));
                assert(views(r@) =~= self.case_views());
                r
            },
            Suite::Matrix { namespace, definitions } => {
                let mut r: Vec<Case<'_>> = Vec::new();
                let mut i: usize = 0;
                while i < definitions.len()
                    invariant
                        i <= definitions@.len(),
                        r@.len() == i,
                        views(r@) == matrix_views(namespace@, definitions@.subrange(0, i as int)),
                    decreases definitions.len() - i,
                {
                    let ghost old_r = r@;
                    let c = Case::new(&definitions[i], Some(namespace));
                    r.push(c);
                    assert forall|k: int| 0 <= k < i implies views(r@)[k] == views(old_r)[k] by {
                        assert(r@[k] == old_r[k]);
                    }
                    assert(views(r@)[i as int] == c@);
                    assert forall|k: int| 0 <= k <= i implies views(r@)[k] == matrix_views(
                        namespace@,
                        definitions@.subrange(0, i + 1),
                    )[k] by {
                        if k < i {
                            assert(views(old_r)[k] == matrix_views(
                                namespace@,
                                definitions@.subrange(0, i as int),
                            )[k]);
                        }
                    }
                    assert(views(r@) =~= matrix_views(
                        namespace@,
                        definitions@.subrange(0, i + 1),
                    ));
                    i = i + 1;
                }
                assert(definitions@.subrange(0, definitions@.len() as int) =~= definitions@);
                r
            },
        }
    }

    /// The suite id; a case of a matrix has an id of its own.
    pub fn id(&self) -> (r: &str)
        ensures
            r@ == self.head().id,
    {
        match self {
            Suite::Single(d) => d.id(),
            Suite::Matrix { namespace, .. } => namespace.id(),
        }
    }

    /// The full label of the suite.
    pub fn label(&self) -> (r: String)
        ensures
            r@ == self.full_label(),
    {
        match self {
            Suite::Single(d) => d.label().to_owned(),
            Suite::Matrix { namespace, definitions } => {
                let mut s = namespace.label().to_owned();
                push_char(&mut s, ' ');
                push_char(&mut s, '(');
                let ghost start = s@;
                let mut i: usize = 0;
                while i < definitions.len()
                    invariant
                        i <= definitions@.len(),
                        s@ == start + joined_labels(definitions@.subrange(0, i as int)),
                    decreases definitions.len() - i,
                {
                    let ghost before = s@;
                    if i > 0 {
                        push_char(&mut s, ',');
                        push_char(&mut s, ' ');
                    }
                    push_str(&mut s, definitions[i].label());
                    proof {
                        let sub = definitions@.subrange(0, i + 1);
                        assert(sub.drop_last() =~= definitions@.subrange(0, i as int));
                        if i == 0 {
                            assert(joined_labels(sub) == sub[0]@.label);
                            assert(s@ =~= start + joined_labels(sub));
                        } else {
                            assert(s@ =~= start + joined_labels(sub));
                        }
                    }
                    i = i + 1;
                }
                assert(definitions@.subrange(0, definitions@.len() as int) =~= definitions@);
                push_char(&mut s, ')');
                assert(s@ =~= self.full_label());
                s
            },
        }
    }

    /// The label of the suite without its cases.
    pub fn short_label(&self) -> (r: &str)
        ensures
            r@ == self.head().label,
    {
        match self {
            Suite::Single(d) => d.label(),
            Suite::Matrix { namespace, .. } => namespace.label(),
        }
    }
}

/// What a suite [`Builder`] holds.
pub struct SuiteBuilderView {
    /// Settings of the suite itself.
    pub namespace: BuilderView,
    /// Cases added so far.
    pub cases: Seq<DefinitionView>,
}

/// `cases` with `case` added, unless one of them has its id.
pub open spec fn with_case(cases: Seq<DefinitionView>, case: DefinitionView) -> Seq<DefinitionView> {
    if exists|i: int| 0 <= i < cases.len() && (#[trigger] cases[i]).id == case.id {
        cases
    } else {
        cases.push(case)
    }
}

/// Collects the settings and cases of a [`Suite`].
#[derive(Debug)]
pub struct Builder {
    /// Settings of the suite itself.
    namespace: DefinitionBuilder,
    /// Cases added so far.
    cases: Vec<Definition>,
}

impl View for Builder {
    type V = SuiteBuilderView;

    closed spec fn view(&self) -> SuiteBuilderView {
        SuiteBuilderView { namespace: self.namespace@, cases: definition_views(self.cases@) }
    }
}

/// Collects the settings of one case of a suite.
#[derive(Debug)]
pub struct CaseBuilder {
    /// Settings of the case.
    inner: DefinitionBuilder,
}

impl View for CaseBuilder {
    type V = BuilderView;

    closed spec fn view(&self) -> BuilderView {
        self.inner@
    }
}

impl Builder {
    /// The suite: a single case when no case was added, else a matrix.
    pub fn build(self) -> (r: Suite)
        ensures
            self@.cases.len() == 0 ==> r.head() == self@.namespace.built() && r is Single,
            self@.cases.len() > 0 ==> r.head() == self@.namespace.built() && r is Matrix,
            self@.cases.len() > 0 ==> r.case_views() == self@.cases.map_values(
                |d: DefinitionView| CaseView { case: d, namespace: Some(self@.namespace.built()) },
            ),
    {
        if self.cases.len() == 0 {
            Suite::single(self.namespace.build())
        } else {
            let ghost cases = self@.cases;
            let r = Suite::matrix(self.namespace.build(), self.cases);
            assert(r.case_views() =~= cases.map_values(
                |d: DefinitionView| CaseView { case: d, namespace: Some(self@.namespace.built()) },
            ));
            r
        }
    }

    /// Adds the case that `case` builds from a fresh case builder for the
    /// clean form of `id`, unless a case with that id is already there.
    pub fn case<F: FnOnce(CaseBuilder) -> CaseBuilder>(self, id: &str, case: F) -> (r: Builder)
        requires
            slug(id@).len() > 0,
            forall|c: CaseBuilder| case.requires((c,)),
        ensures
            exists|c: CaseBuilder, b: CaseBuilder|
                c@ == fresh_builder(id@) && #[trigger] case.ensures((c,), b) && r@ == (
                SuiteBuilderView {
                    namespace: self@.namespace,
                    cases: with_case(self@.cases, b@.built()),
                }),
    {
        let start = CaseBuilder { inner: Definition::build(id) };
        let ghost c = start;
        let built = case(start);
        let ghost b = built;
        let definition = built.inner.build();
        let mut cases = self.cases;
        let mut i: usize = 0;
        let mut found = false;
        while i < cases.len()
            invariant
                i <= cases@.len(),
                cases@ == self.cases@,
                found ==> exists|k: int| 0 <= k < cases@.len() && cases@[k]@.id == definition@.id,
                !found ==> forall|k: int| 0 <= k < i ==> cases@[k]@.id != definition@.id,
            decreases cases.len() - i,
        {
            if !found && same_text(cases[i].id(), definition.id()) {
                found = true;
            }
            i = i + 1;
        }
        let ghost views_before = definition_views(cases@);
        if !found {
            cases.push(definition);
        }
        let r = Builder { namespace: self.namespace, cases };
        proof {
            let d = b@.built();
            assert(d == definition@);
            if found {
                let k = choose|k: int| 0 <= k < cases@.len() && cases@[k]@.id == definition@.id;
                assert(views_before[k].id == d.id);
                assert(r@.cases == with_case(self@.cases, d));
            } else {
                assert(!(exists|k: int| 0 <= k < views_before.len() && (#[trigger] views_before[k]).id == d.id));
                assert(r@.cases =~= with_case(self@.cases, d));
            }
            assert(case.ensures((c,), b));
        }
        r
    }

    /// Sets the suite label, which must not be empty.
    pub fn label(self, label: &str) -> (r: Builder)
        requires
            label@.len() > 0,
        ensures
            r@ == (SuiteBuilderView {
                namespace: BuilderView { label: Some(label@), ..self@.namespace },
                ..self@
            }),
    {
        Builder { namespace: self.namespace.label(label), cases: self.cases }
    }

    /// Appends an argument shared by every case.
    pub fn arg(self, argument: &str) -> (r: Builder)
        ensures
            r@ == (SuiteBuilderView {
                namespace: BuilderView {
                    arguments: self@.namespace.arguments.push(argument@),
                    ..self@.namespace
                },
                ..self@
            }),
    {
        Builder { namespace: self.namespace.arg(argument), cases: self.cases }
    }

    /// Appends arguments shared by every case.
    pub fn args(self, arguments: Arguments) -> (r: Builder)
        ensures
            r@ == (SuiteBuilderView {
                namespace: BuilderView {
                    arguments: self@.namespace.arguments + arguments@,
                    ..self@.namespace
                },
                ..self@
            }),
    {
        Builder { namespace: self.namespace.args(arguments), cases: self.cases }
    }

    /// Sets the warmup count shared by every case.
    pub fn warmup(self, warmup: usize) -> (r: Builder)
        ensures
            r@ == (SuiteBuilderView {
                namespace: BuilderView {
                    iterations: self@.namespace.iterations.with_warmup(warmup),
                    ..self@.namespace
                },
                ..self@
            }),
    {
        Builder { namespace: self.namespace.warmup(warmup), cases: self.cases }
    }

    /// Sets the benchmark count shared by every case; zero leaves it unset.
    pub fn iterations(self, iterations: usize) -> (r: Builder)
        ensures
            r@ == (SuiteBuilderView {
                namespace: BuilderView {
                    iterations: self@.namespace.iterations.with_benchmark(iterations),
                    ..self@.namespace
                },
                ..self@
            }),
    {
        Builder { namespace: self.namespace.iterations(iterations), cases: self.cases }
    }
}

impl CaseBuilder {
    /// Sets the case label, which must not be empty.
    pub fn label(self, label: &str) -> (r: CaseBuilder)
        requires
            label@.len() > 0,
        ensures
            r@ == (BuilderView { label: Some(label@), ..self@ }),
    {
        CaseBuilder { inner: self.inner.label(label) }
    }

    /// Appends an argument of the case.
    pub fn arg(self, argument: &str) -> (r: CaseBuilder)
        ensures
            r@ == (BuilderView { arguments: self@.arguments.push(argument@), ..self@ }),
    {
        CaseBuilder { inner: self.inner.arg(argument) }
    }

    /// Appends arguments of the case.
    pub fn args(self, arguments: Arguments) -> (r: CaseBuilder)
        ensures
            r@ == (BuilderView { arguments: self@.arguments + arguments@, ..self@ }),
    {
        CaseBuilder { inner: self.inner.args(arguments) }
    }

    /// Sets the warmup count of the case.
    pub fn warmup(self, warmup: usize) -> (r: CaseBuilder)
        ensures
            r@ == (BuilderView { iterations: self@.iterations.with_warmup(warmup), ..self@ }),
    {
        CaseBuilder { inner: self.inner.warmup(warmup) }
    }

    /// Sets the benchmark count of the case; zero leaves it unset.
    pub fn iterations(self, iterations: usize) -> (r: CaseBuilder)
        ensures
            r@ == (BuilderView { iterations: self@.iterations.with_benchmark(iterations), ..self@ }),
    {
        CaseBuilder { inner: self.inner.iterations(iterations) }
    }
}

} // verus!
