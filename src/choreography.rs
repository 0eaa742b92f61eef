//! Light choreographies and the state of the one being played.

use vstd::prelude::*;

use crate::ids::{ascii_lower, push_char, push_str};
use crate::implementation::{join_path, joined_path};

verus! {

/// The language a choreography is written in.
#[derive(Debug, Clone, Copy, PartialEq, Eq, Structural)]
pub enum Format {
    /// A Python 3 program.
    Python,
}

/// A named light choreography.
#[derive(Debug, Clone, PartialEq, Eq)]
pub struct Choreography {
    /// Name.
    name: String,
    /// Format of `data`.
    format: Format,
    /// Source text.
    data: String,
}

impl Choreography {
    /// The name.
    pub closed spec fn spec_name(&self) -> Seq<char> {
        self.name@
    }

    /// The format.
    pub closed spec fn spec_format(&self) -> Format {
        self.format
    }

    /// The source text.
    pub closed spec fn spec_data(&self) -> Seq<char> {
        self.data@
    }

    /// A choreography named `name`, with source `data` in `format`.
    pub fn new(name: &str, format: Format, data: &str) -> (r: Choreography)
        ensures
            r.spec_name() == name@,
            r.spec_format() == format,
            r.spec_data() == data@,
    {
        Choreography { name: name.to_owned(), format, data: data.to_owned() }
    }

    /// The name.
    pub fn name(&self) -> (r: &str)
        ensures
            r@ == self.spec_name(),
    {
        self.name.as_str()
    }

    /// The format.
    pub fn format(&self) -> (r: Format)
        ensures
            r == self.spec_format(),
    {
        self.format
    }

    /// The source text.
    pub fn data(&self) -> (r: &str)
        ensures
            r@ == self.spec_data(),
    {
        self.data.as_str()
    }

    /// The same choreography with another format and source.
    pub fn with_source(self, format: Format, data: &str) -> (r: Choreography)
        ensures
            r.spec_name() == self.spec_name(),
            r.spec_format() == format,
            r.spec_data() == data@,
    {
        Choreography { name: self.name, format, data: data.to_owned() }
    }

    /// The same choreography under another name.
    pub fn renamed(self, name: &str) -> (r: Choreography)
        ensures
            r.spec_name() == name@,
            r.spec_format() == self.spec_format(),
            r.spec_data() == self.spec_data(),
    {
        Choreography { name: name.to_owned(), format: self.format, data: self.data }
    }

    /// The Python program that plays the choreography.
    pub fn compile(&self) -> (r: String)
        ensures
            self.spec_format() == Format::Python ==> r@ == self.spec_data(),
    {
        match self.format {
            Format::Python => self.data.clone(),
        }
    }
}

/// Where playing a choreography stands.
#[derive(Debug, Clone, Copy, PartialEq, Eq, Structural)]
pub enum Status {
    /// Still playing.
    Playing,
    /// Finished successfully.
    Stopped,
    /// Finished with an error.
    Errored,
}

/// The state of the choreography being played, or played last.
#[derive(Debug, Clone)]
pub struct Info {
    /// Name of the choreography.
    choreography: String,
    /// What it printed.
    stdout: String,
    /// What it printed as errors.
    stderr: String,
    /// Whether it exited successfully, once it has exited.
    exit: Option<bool>,
}

/// The status of a player that exited with `exit`, or is still running.
pub open spec fn status_of(exit: Option<bool>) -> Status {
    match exit {
        None => Status::Playing,
        Some(true) => Status::Stopped,
        Some(false) => Status::Errored,
    }
}

impl Info {
    /// The name of the choreography.
    pub closed spec fn spec_choreography(&self) -> Seq<char> {
        self.choreography@
    }

    /// Its combined log: standard output, then standard error.
    pub closed spec fn spec_log(&self) -> Seq<char> {
        self.stdout@ + self.stderr@
    }

    /// How it exited, once it has.
    pub closed spec fn spec_exit(&self) -> Option<bool> {
        self.exit
    }

    /// The state of `name` just started: nothing printed, still running.
    pub fn new(name: &str) -> (r: Info)
        ensures
            r.spec_choreography() == name@,
            r.spec_log() == Seq::<char>::empty(),
            r.spec_exit() is None,
    {
        let r = Info { choreography: name.to_owned(), stdout: String::new(), stderr: String::new(), exit: None };
        assert(r.spec_log() =~= Seq::<char>::empty());
        r
    }

    /// The state of `name` after it exited, successfully or not, having
    /// printed `stdout` and `stderr`.
    pub fn finished(name: &str, stdout: String, stderr: String, success: bool) -> (r: Info)
        ensures
            r.spec_choreography() == name@,
            r.spec_log() == stdout@ + stderr@,
            r.spec_exit() == Some(success),
    {
        Info { choreography: name.to_owned(), stdout, stderr, exit: Some(success) }
    }

    /// The name of the choreography.
    pub fn choreography(&self) -> (r: &str)
        ensures
            r@ == self.spec_choreography(),
    {
        self.choreography.as_str()
    }

    /// Its combined log.
    pub fn log(&self) -> (r: String)
        ensures
            r@ == self.spec_log(),
    {
        let mut s = self.stdout.clone();
        push_str(&mut s, self.stderr.as_str());
        s
    }

    /// Where playing it stands.
    pub fn status(&self) -> (r: Status)
        ensures
            r == status_of(self.spec_exit()),
    {
        match self.exit {
            None => Status::Playing,
            Some(true) => Status::Stopped,
            Some(false) => Status::Errored,
        }
    }
}

/// Whether `c` is alphanumeric in the Unicode sense.
pub uninterp spec fn alphanumeric(c: char) -> bool;

/// Relies on `char::is_alphanumeric`: whether `c` is alphabetic or numeric
/// in the Unicode sense.
#[verifier::external_body]
fn is_alphanumeric(c: char) -> (r: bool)
    ensures
        r == alphanumeric(c),
{
    c.is_alphanumeric()
}

/// The storage id of a choreography named `name`: its alphanumeric
/// characters, with ASCII capitals lower-cased.
pub open spec fn storage_id(name: Seq<char>) -> Seq<char>
    decreases name.len(),
{
    if name.len() == 0 {
        Seq::empty()
    } else {
        let kept = storage_id(name.drop_last());
        let c = ascii_lower(name.last());
        if alphanumeric(c) {
            kept.push(c)
        } else {
            kept
        }
    }
}

/// Where choreographies are kept: one JSON file each, named by its storage
/// id, in one directory.
#[derive(Debug)]
pub struct Storage {
    /// The storage directory.
    directory: String,
}

impl Storage {
    /// The storage directory.
    pub closed spec fn spec_directory(&self) -> Seq<char> {
        self.directory@
    }

    /// Storage in `directory`.
    pub fn new(directory: &str) -> (r: Storage)
        ensures
            r.spec_directory() == directory@,
    {
        Storage { directory: directory.to_owned() }
    }

    /// The storage directory.
    pub fn directory(&self) -> (r: &str)
        ensures
            r@ == self.spec_directory(),
    {
        self.directory.as_str()
    }

    /// The storage id of a choreography named `name`.
    pub fn name_to_id(name: &str) -> (r: String)
        ensures
            r@ == storage_id(name@),
    {
        let n = name.unicode_len();
        let mut out = String::new();
        let mut i: usize = 0;
        while i < n
            invariant
                n == name@.len(),
                i <= n,
                out@ == storage_id(name@.subrange(0, i as int)),
            decreases n - i,
        {
            let c = name.get_char(i);
            assert(name@.subrange(0, i + 1).drop_last() == name@.subrange(0, i as int));
            let lower = if 'A' <= c && c <= 'Z' {
                ((c as u8) + 32) as char
            } else {
                c
            };
            if is_alphanumeric(lower) {
                push_char(&mut out, lower);
            }
            i = i + 1;
        }
        assert(name@.subrange(0, n as int) == name@);
        out
    }

    /// The file of a choreography named `name`.
    pub fn name_to_path(&self, name: &str) -> (r: String)
        ensures
            r@ == joined_path(self.spec_directory(), storage_id(name@) + ".json"@),
    {
        let mut file = Storage::name_to_id(name);
        push_str(&mut file, ".json");
        join_path(self.directory.as_str(), file.as_str())
    }

    /// The file of `choreography`.
    pub fn path(&self, choreography: &Choreography) -> (r: String)
        ensures
            r@ == joined_path(self.spec_directory(), storage_id(choreography.spec_name()) + ".json"@),
    {
        self.name_to_path(choreography.name())
    }

    /// Whether renaming a choreography named `old_name` to `new_name`
    /// moves it to another file.
    pub fn moves(old_name: &str, new_name: &str) -> (r: bool)
        ensures
            r == (storage_id(old_name@) != storage_id(new_name@)),
    {
        let a = Storage::name_to_id(old_name);
        let b = Storage::name_to_id(new_name);
        !crate::definition::same_text(a.as_str(), b.as_str())
    }
}

} // verus!
