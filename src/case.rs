//! A single benchmark case of a suite, and the walk over a suite's cases.

use vstd::prelude::*;

use crate::definition::{Arguments, Definition, DefinitionView, Iterations};
use crate::ids::{push_char, push_str};

verus! {

/// One runnable case: a definition, and the namespace of the matrix it
/// belongs to, if any.
#[derive(Debug, PartialEq, Eq)]
pub struct Case<'a> {
    /// The case's own definition.
    case: &'a Definition,
    /// The suite's shared definition, for a case of a matrix.
    namespace: Option<&'a Definition>,
}

/// What a [`Case`] stands for.
pub struct CaseView {
    /// The case's own definition.
    pub case: DefinitionView,
    /// The shared definition, for a case of a matrix.
    pub namespace: Option<DefinitionView>,
}

impl<'a> View for Case<'a> {
    type V = CaseView;

    closed spec fn view(&self) -> CaseView {
        CaseView {
            case: self.case@,
            namespace: match self.namespace {
                Some(ns) => Some(ns@),
                None => None,
            },
        }
    }
}

impl CaseView {
    /// The case id: the case's own, after the namespace's and a dot.
    pub open spec fn id(self) -> Seq<char> {
        match self.namespace {
            Some(ns) => ns.id + seq!['.'] + self.case.id,
            None => self.case.id,
        }
    }

    /// The case label: the case's own, after the namespace's and a colon.
    pub open spec fn label(self) -> Seq<char> {
        match self.namespace {
            Some(ns) => ns.label + seq![':', ' '] + self.case.label,
            None => self.case.label,
        }
    }

    /// The namespace's arguments followed by the case's own.
    pub open spec fn arguments(self) -> Seq<Seq<char>> {
        match self.namespace {
            Some(ns) => ns.arguments + self.case.arguments,
            None => self.case.arguments,
        }
    }

    /// The case's own iteration settings, completed from the namespace's.
    pub open spec fn iterations(self) -> Iterations {
        match self.namespace {
            Some(ns) => self.case.iterations.or_spec(ns.iterations),
            None => self.case.iterations,
        }
    }
}

impl<'a> Case<'a> {
    /// The case made of `case` within `namespace`.
    pub fn new(case: &'a Definition, namespace: Option<&'a Definition>) -> (r: Case<'a>)
        ensures
            r@.case == case@,
            r@.namespace == match namespace {
                Some(ns) => Some(ns@),
                None => None::<DefinitionView>,
            },
    {
        Case { case, namespace }
    }

    /// The case id.
    pub fn id(&self) -> (r: String)
        ensures
            r@ == self@.id(),
    {
        match self.namespace {
            Some(ns) => {
                let mut s = ns.id().to_owned();
                push_char(&mut s, '.');
                push_str(&mut s, self.case.id());
                s
            },
            None => self.case.id().to_owned(),
        }
    }

    /// The case label.
    pub fn label(&self) -> (r: String)
        ensures
            r@ == self@.label(),
    {
        match self.namespace {
            Some(ns) => {
                let mut s = ns.label().to_owned();
                push_char(&mut s, ':');
                push_char(&mut s, ' ');
                push_str(&mut s, self.case.label());
                assert(s@ =~= ns@.label + seq![':', ' '] + self.case@.label);
                s
            },
            None => self.case.label().to_owned(),
        }
    }

    /// The arguments to run the case with.
    pub fn arguments(&self) -> (r: Arguments)
        ensures
            r@ == self@.arguments(),
    {
        match self.namespace {
            Some(ns) => {
                let mut args = ns.arguments().duplicate();
                args.append(self.case.arguments().duplicate());
                args
            },
            None => self.case.arguments().duplicate(),
        }
    }

    /// The iteration settings to run the case with.
    pub fn iterations(&self) -> (r: Iterations)
        ensures
            r == self@.iterations(),
    {
        match self.namespace {
            Some(ns) => {
                let r = self.case.iterations().or(ns.iterations());
                assert(r == self.case@.iterations.or_spec(ns@.iterations));
                r
            },
            None => self.case.iterations(),
        }
    }

    /// Whether both cases stand for the same definitions.
    pub fn same(&self, other: &Case) -> (r: bool)
        ensures
            r == (self@ == other@),
    {
        if !self.case.same(other.case) {
            return false;
        }
        match (self.namespace, other.namespace) {
            (Some(a), Some(b)) => a.same(b),
            (None, None) => true,
            _ => false,
        }
    }
}

/// What each of `cases` stands for.
pub open spec fn views(cases: Seq<Case>) -> Seq<CaseView> {
    cases.map_values(|c: Case| c@)
}

/// The cases of a matrix: each of `definitions` within `namespace`.
pub open spec fn matrix_views(namespace: DefinitionView, definitions: Seq<Definition>) -> Seq<
    CaseView,
> {
    Seq::new(
        definitions.len(),
        |i: int| CaseView { case: definitions[i]@, namespace: Some(namespace) },
    )
}

/// Where the cases of a walk come from.
#[derive(Debug, Clone, Copy)]
enum Source<'a> {
    /// A suite of one definition, taken at most once.
    Single(Option<&'a Definition>),
    /// A matrix: each definition from `next` on, within `namespace`.
    Matrix { namespace: &'a Definition, definitions: &'a Vec<Definition>, next: usize },
}

/// A walk over the cases of a suite, in order.
#[derive(Debug)]
pub struct CaseIterator<'a>(Source<'a>);

impl<'a> CaseIterator<'a> {
    /// The cases not yet handed out.
    pub closed spec fn remaining(&self) -> Seq<Case<'a>> {
        match self.0 {
            Source::Single(Some(d)) => seq![Case { case: d, namespace: None }],
            Source::Single(None) => Seq::empty(),
            Source::Matrix { namespace, definitions, next } => if next <= definitions@.len() {
                Seq::new(
                    (definitions@.len() - next) as nat,
                    |i: int| Case { case: &definitions@[next + i], namespace: Some(namespace) },
                )
            } else {
                Seq::empty()
            },
        }
    }

    /// The walk over the single case `definition`.
    pub fn single(definition: &'a Definition) -> (r: CaseIterator<'a>)
        ensures
            views(r.remaining()) == seq![CaseView { case: definition@, namespace: None }],
    {
        let r = CaseIterator(Source::Single(Some(definition)));
        assert(views(r.remaining()) =~= seq![CaseView { case: definition@, namespace: None }]);
        r
    }

    /// The walk over `definitions`, each within `namespace`.
    pub fn matrix(namespace: &'a Definition, definitions: &'a Vec<Definition>) -> (r: CaseIterator<
        'a,
    >)
        ensures
            views(r.remaining()) == matrix_views(namespace@, definitions@),
    {
        let r = CaseIterator(Source::Matrix { namespace, definitions, next: 0 });
        assert(views(r.remaining()) =~= matrix_views(namespace@, definitions@));
        r
    }

    /// Hands out the next case, or `None` once all have been.
    pub fn next(&mut self) -> (r: Option<Case<'a>>)
        ensures
            old(self).remaining().len() == 0 ==> r is None,
            old(self).remaining().len() == 0 ==> final(self).remaining() == old(self).remaining(),
            old(self).remaining().len() > 0 ==> r == Some(old(self).remaining()[0]),
            old(self).remaining().len() > 0 ==> final(self).remaining() == old(self).remaining().drop_first(),
    {
        match self.0 {
            Source::Single(definition) => {
                self.0 = Source::Single(None);
                match definition {
                    Some(d) => {
                        assert(final(self).remaining() =~= old(self).remaining().drop_first());
                        Some(Case { case: d, namespace: None })
                    },
                    None => None,
                }
            },
            Source::Matrix { namespace, definitions, next } => {
                if next < definitions.len() {
                    self.0 = Source::Matrix { namespace, definitions, next: next + 1 };
                    assert(final(self).remaining() =~= old(self).remaining().drop_first());
                    Some(Case { case: &definitions[next], namespace: Some(namespace) })
                } else {
                    None
                }
            },
        }
    }

    /// Whether any case not yet handed out stands for the same definitions
    /// as `case`. The walk is used up.
    pub fn contains(&mut self, case: &Case) -> (r: bool)
        ensures
            r == exists|i: int|
                0 <= i < old(self).remaining().len() && (#[trigger] old(self).remaining()[i])@
                    == case@,
    {
        let ghost all = self.remaining();
        let ghost mut seen: int = 0;
        loop
            invariant
                0 <= seen <= all.len(),
                all == old(self).remaining(),
                self.remaining() == all.subrange(seen, all.len() as int),
                forall|i: int| 0 <= i < seen ==> (#[trigger] all[i])@ != case@,
            decreases all.len() - seen,
        {
            match self.next() {
                Some(c) => {
                    assert(c == all[seen]);
                    if c.same(case) {
                        assert(all[seen]@ == case@);
                        return true;
                    }
                    proof {
                        seen = seen + 1;
                    }
                    assert(self.remaining() =~= all.subrange(seen, all.len() as int));
                },
                None => {
                    assert(all.subrange(seen, all.len() as int).len() == 0);
                    return false;
                },
            }
        }
    }
}

} // verus!
