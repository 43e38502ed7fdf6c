//! Line-buffered sources of text input.
//!
//! [`LineSource`] abstracts over any channel that can hand out one line at a
//! time: the process's standard input, an in-memory test double feeding
//! fixed text, or a double whose transport always fails.  A source is
//! described by two specification views: the text still to be read, where it
//! is known, and whether its transport fails on every read.

use crate::line::{first_line, first_line_len, lemma_first_line_len_scan, rest_after_line};
use vstd::prelude::*;
use vstd::string::{StrSliceExecFns, StringExecFns};

verus! {

/// A byte-oriented, line-buffered input channel.
///
/// `text_model` is `Some` of the remaining text for a source whose contents
/// are known (an in-memory one), and `None` of one about which nothing can
/// be promised (standard input).  `always_fails` holds of a source whose
/// transport reports failure on every read.
pub trait LineSource {
    /// The text still to be read, where it is known.
    spec fn text_model(&self) -> Option<Seq<char>>;

    /// True of a source whose every read fails.
    spec fn always_fails(&self) -> bool;

    /// Read exactly one line: up to and including the next `'\n'`, or to
    /// the end of the source.  `Ok(None)` means the source was already
    /// exhausted; a line is otherwise never empty.
    fn read_line(&mut self) -> (r: Result<Option<String>, std::io::Error>)
        ensures
            (match old(self).text_model() {
                Some(s) => {
                    &&& final(self).text_model() == Some(rest_after_line(s))
                    &&& s.len() == 0 ==> (r matches Ok(x) && x is None)
                    &&& s.len() > 0 ==> (r matches Ok(x) && x matches Some(line) && line@
                        == first_line(s))
                },
                None => true,
            }),
            old(self).always_fails() ==> r is Err,
            final(self).always_fails() == old(self).always_fails(),
    ;
}

/// An in-memory source: a test double feeding fixed text.
pub struct MemSource {
    text: String,
}

impl MemSource {
    /// A source that will feed exactly `text`.
    pub fn new(text: &str) -> (r: MemSource)
        ensures
            r.text_model() == Some(text@),
            !r.always_fails(),
    {
        MemSource { text: String::from_str(text) }
    }
}

impl LineSource for MemSource {
    closed spec fn text_model(&self) -> Option<Seq<char>> {
        Some(self.text@)
    }

    open spec fn always_fails(&self) -> bool {
        false
    }

    fn read_line(&mut self) -> (r: Result<Option<String>, std::io::Error>) {
        let ghost s = self.text@;
        let n = self.text.as_str().unicode_len();
        if n == 0 {
            proof {
                assert(rest_after_line(s) =~= s);
            }
            return Ok(None);
        }
        let mut i: usize = 0;
        while i < n && self.text.as_str().get_char(i) != '\n'
            invariant
                0 <= i <= n,
                n == s.len(),
                self.text@ == s,
                forall|j: int| 0 <= j < i ==> s[j] != '\n',
            decreases n - i,
        {
            i += 1;
        }
        let end: usize = if i < n {
            i + 1
        } else {
            n
        };
        proof {
            lemma_first_line_len_scan(s, i as int);
            assert(first_line_len(s) == end as int);
        }
        let line = String::from_str(self.text.as_str().substring_char(0, end));
        let rest = String::from_str(self.text.as_str().substring_char(end, n));
        self.text = rest;
        proof {
            assert(line@ =~= first_line(s));
            assert(self.text@ =~= rest_after_line(s));
        }
        Ok(Some(line))
    }
}

/// A test double whose transport fails on every read.
pub struct FailSource {
    message: String,
}

impl FailSource {
    /// A source whose every read fails with an I/O error carrying
    /// `message`.
    pub fn new(message: &str) -> (r: FailSource)
        ensures
            r.always_fails(),
            r.text_model() is None,
    {
        FailSource { message: String::from_str(message) }
    }
}

impl LineSource for FailSource {
    open spec fn text_model(&self) -> Option<Seq<char>> {
        None
    }

    open spec fn always_fails(&self) -> bool {
        true
    }

    fn read_line(&mut self) -> (r: Result<Option<String>, std::io::Error>) {
        Err(make_io_error(self.message.as_str()))
    }
}

/// Relies on `std::io::Error::new`: builds an I/O error value carrying the
/// given message.
#[verifier::external_body]
fn make_io_error(message: &str) -> (r: std::io::Error) {
    std::io::Error::new(std::io::ErrorKind::Other, message)
}

/// The process's standard input as a line source.  Its contents are not
/// known ahead of the read, so neither specification view promises
/// anything of it.
pub struct StdinSource;

impl LineSource for StdinSource {
    open spec fn text_model(&self) -> Option<Seq<char>> {
        None
    }

    open spec fn always_fails(&self) -> bool {
        false
    }

    fn read_line(&mut self) -> (r: Result<Option<String>, std::io::Error>) {
        stdin_read_line()
    }
}

/// Relies on `std::io::Stdin::read_line`: locks standard input and appends
/// one line, terminator included, to the buffer; the returned byte count is
/// zero exactly at end of stream.
#[verifier::external_body]
fn stdin_read_line() -> (r: Result<Option<String>, std::io::Error>) {
    let mut line = String::new();
    match std::io::stdin().read_line(&mut line) {
        Ok(0) => Ok(None),
        Ok(_) => Ok(Some(line)),
        Err(e) => Err(e),
    }
}

} // verus!
