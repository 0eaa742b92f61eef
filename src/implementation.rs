//! Implementations under benchmark: each lives in a directory that holds
//! one program for each benchmark suite it implements.

use vstd::prelude::*;

use crate::ids::{default_label, id_chars, id_from, label_from, push_char, push_str};

verus! {

/// `name` within the directory `dir`.
pub open spec fn joined_path(dir: Seq<char>, name: Seq<char>) -> Seq<char> {
    if dir.len() == 0 {
        name
    } else if dir.last() == '/' {
        dir + name
    } else {
        dir + seq!['/'] + name
    }
}

/// `name` within the directory `dir`.
pub fn join_path(dir: &str, name: &str) -> (r: String)
    ensures
        r@ == joined_path(dir@, name@),
{
    let mut s = dir.to_owned();
    let n = dir.unicode_len();
    if n > 0 && dir.get_char(n - 1) != '/' {
        push_char(&mut s, '/');
    }
    push_str(&mut s, name);
    s
}

/// An implementation under benchmark.
#[derive(Debug, PartialEq, Eq)]
pub struct Implementation {
    /// Clean id.
    id: String,
    /// Label.
    label: String,
    /// Directory of its programs.
    directory: String,
}

impl Implementation {
    /// The clean id.
    pub closed spec fn spec_id(&self) -> Seq<char> {
        self.id@
    }

    /// The label.
    pub closed spec fn spec_label(&self) -> Seq<char> {
        self.label@
    }

    /// The directory of its programs.
    pub closed spec fn spec_directory(&self) -> Seq<char> {
        self.directory@
    }

    /// Starts an implementation whose id is the ASCII letters, digits and
    /// underscores of `id`, lower-cased; that must not be empty.
    pub fn build(id: &str) -> (r: Builder)
        requires
            id_chars(id@).len() > 0,
        ensures
            r.spec_id() == id_chars(id@),
            r.spec_label() is None,
            r.spec_directory() is None,
    {
        Builder { id: id_from(id), label: None, directory: None }
    }

    /// The clean id.
    pub fn id(&self) -> (r: &str)
        ensures
            r@ == self.spec_id(),
    {
        self.id.as_str()
    }

    /// The label.
    pub fn label(&self) -> (r: &str)
        ensures
            r@ == self.spec_label(),
    {
        self.label.as_str()
    }

    /// The directory of its programs.
    pub fn directory(&self) -> (r: &str)
        ensures
            r@ == self.spec_directory(),
    {
        self.directory.as_str()
    }

    /// The files that may implement the suite `suite_id`, in the order to
    /// try them: the plain program, then a Python script.
    pub fn file_candidates(&self, suite_id: &str) -> (r: Vec<String>)
        ensures
            r@.len() == 2,
            r@[0]@ == joined_path(self.spec_directory(), suite_id@),
            r@[1]@ == joined_path(self.spec_directory(), suite_id@) + ".py"@,
    {
        let plain = join_path(self.directory.as_str(), suite_id);
        let mut script = plain.clone();
        push_str(&mut script, ".py");
        let mut r = Vec::new();
        r.push(plain);
        r.push(script);
        r
    }
}

/// Collects the settings of an [`Implementation`].
#[derive(Debug)]
pub struct Builder {
    /// Clean id.
    id: String,
    /// Label, if set.
    label: Option<String>,
    /// Directory, if set.
    directory: Option<String>,
}

impl Builder {
    /// The clean id.
    pub closed spec fn spec_id(&self) -> Seq<char> {
        self.id@
    }

    /// The label, if set.
    pub closed spec fn spec_label(&self) -> Option<Seq<char>> {
        match self.label {
            Some(l) => Some(l@),
            None => None,
        }
    }

    /// The directory, if set.
    pub closed spec fn spec_directory(&self) -> Option<Seq<char>> {
        match self.directory {
            Some(d) => Some(d@),
            None => None,
        }
    }

    /// The implementation. The label defaults to the id capitalised, the
    /// directory to one named by the id within `working_directory`.
    pub fn build(self, working_directory: &str) -> (r: Implementation)
        ensures
            r.spec_id() == self.spec_id(),
            r.spec_label() == match self.spec_label() {
                Some(l) => l,
                None => default_label(self.spec_id()),
            },
            r.spec_directory() == match self.spec_directory() {
                Some(d) => d,
                None => joined_path(working_directory@, self.spec_id()),
            },
    {
        let label = match self.label {
            Some(l) => l,
            None => label_from(self.id.as_str()),
        };
        let directory = match self.directory {
            Some(d) => d,
            None => join_path(working_directory, self.id.as_str()),
        };
        Implementation { id: self.id, label, directory }
    }

    /// Sets the label, which must not be empty.
    pub fn label(self, label: &str) -> (r: Builder)
        requires
            label@.len() > 0,
        ensures
            r.spec_id() == self.spec_id(),
            r.spec_label() == Some(label@),
            r.spec_directory() == self.spec_directory(),
    {
        Builder { label: Some(label.to_owned()), ..self }
    }

    /// Sets the directory of the implementation's programs.
    pub fn directory(self, directory: &str) -> (r: Builder)
        ensures
            r.spec_id() == self.spec_id(),
            r.spec_label() == self.spec_label(),
            r.spec_directory() == Some(directory@),
    {
        Builder { directory: Some(directory.to_owned()), ..self }
    }
}

} // verus!
