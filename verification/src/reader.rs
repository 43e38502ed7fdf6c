//! The read–prompt–parse pipeline and its end-of-stream policies.
//!
//! One call consumes precisely one line from a source: the optional prompt
//! is written and flushed strictly before the read, the acquired line is
//! stripped of its terminator, and the remaining text — exactly as it stands,
//! an empty line included — is handed to the target type's parser.  Under
//! the fail policy an exhausted source is the error [`InputError::Eof`];
//! under the tolerant policy it is the explicit absence `Ok(None)`.

use crate::error::InputError;
use crate::line::{
    lemma_first_line_of_terminated, lemma_strip_appended_terminator, normalized_first_line,
    rest_after_line, strip_line_terminator,
};
use crate::parse::FromText;
use crate::source::{LineSource, StdinSource};
use std::io::Write;
use vstd::prelude::*;

verus! {

/// What a read under the fail policy must deliver, given that the source
/// held the text `s`: the parse of the first line's normalized text, or
/// `Eof` where no text remained.
pub open spec fn read_outcome_matches<T: FromText>(
    s: Seq<char>,
    r: Result<T, InputError<<T as FromText>::ParseError>>,
) -> bool {
    if s.len() == 0 {
        r matches Err(e) && e is Eof
    } else {
        match T::spec_parse(normalized_first_line(s)) {
            Some(m) => r matches Ok(v) && v.deep_view() == m,
            None => r matches Err(e) && e matches InputError::Parse(pe) && pe
                == T::spec_parse_err(normalized_first_line(s)),
        }
    }
}

/// What a read under the tolerant policy must deliver: as the fail policy,
/// except that an exhausted source is the explicit absence `Ok(None)`, and
/// `Eof` is never reported.
pub open spec fn tolerant_outcome_matches<T: FromText>(
    s: Seq<char>,
    r: Result<Option<T>, InputError<<T as FromText>::ParseError>>,
) -> bool {
    if s.len() == 0 {
        r matches Ok(x) && x is None
    } else {
        match T::spec_parse(normalized_first_line(s)) {
            Some(m) => r matches Ok(x) && x matches Some(v) && v.deep_view() == m,
            None => r matches Err(e) && e matches InputError::Parse(pe) && pe
                == T::spec_parse_err(normalized_first_line(s)),
        }
    }
}

/// Relies on `std::io::Stdout::write_fmt` (through the `write!` macro):
/// writes the text verbatim — no terminator added — to standard output.
#[verifier::external_body]
fn write_stdout(text: &str) -> (r: Result<(), std::io::Error>) {
    write!(std::io::stdout(), "{}", text)
}

/// Relies on `std::io::Stdout::flush`: forces buffered output to be
/// delivered before the call returns.
#[verifier::external_body]
fn flush_stdout() -> (r: Result<(), std::io::Error>) {
    std::io::stdout().flush()
}

/// Write the prompt verbatim to standard output and force immediate
/// delivery, so it is visible before the read blocks.
fn emit_prompt(text: &str) -> (r: Result<(), std::io::Error>) {
    match write_stdout(text) {
        Ok(_u) => flush_stdout(),
        Err(e) => Err(e),
    }
}

/// Read one line from `reader` and parse it into `T`, under the fail
/// policy.
///
/// The optional prompt is emitted and flushed strictly before the read.
/// Where the source's text is known, the outcome is pinned down exactly:
/// the parse of the first line's normalized text, `Eof` on an exhausted
/// source, and precisely that line consumed — except that a requested
/// prompt may fail to reach standard output, which surfaces as an I/O
/// error before anything is read.  A source whose transport fails yields
/// an I/O error under every policy, before any parse is attempted.
pub fn read_input_from<R: LineSource, T: FromText>(reader: &mut R, prompt: Option<&str>) -> (r:
    Result<T, InputError<<T as FromText>::ParseError>>)
    ensures
        (match old(reader).text_model() {
            Some(s) => {
                &&& prompt is None ==> read_outcome_matches::<T>(s, r)
                    && final(reader).text_model() == Some(rest_after_line(s))
                &&& (read_outcome_matches::<T>(s, r) && final(reader).text_model() == Some(
                    rest_after_line(s),
                )) || (r matches Err(e) && e is Io && final(reader).text_model() == Some(s))
            },
            None => true,
        }),
        old(reader).always_fails() ==> (r matches Err(e) && e is Io),
{
    if let Some(p) = prompt {
        match emit_prompt(p) {
            Ok(_u) => {},
            Err(e) => {
                return Err(InputError::Io(e));
            },
        }
    }
    match reader.read_line() {
        Err(e) => Err(InputError::Io(e)),
        Ok(None) => Err(InputError::Eof),
        Ok(Some(line)) => {
            let trimmed = strip_line_terminator(line.as_str());
            match T::from_text(trimmed) {
                Ok(v) => Ok(v),
                Err(e) => Err(InputError::Parse(e)),
            }
        },
    }
}

/// Read one line from `reader` and parse it into `T`, under the tolerant
/// policy: an exhausted source is the explicit absence `Ok(None)`, never
/// the error `Eof`.  In every other respect the pipeline is that of
/// [`read_input_from`].
pub fn read_input_from_tolerant<R: LineSource, T: FromText>(
    reader: &mut R,
    prompt: Option<&str>,
) -> (r: Result<Option<T>, InputError<<T as FromText>::ParseError>>)
    ensures
        (match old(reader).text_model() {
            Some(s) => {
                &&& prompt is None ==> tolerant_outcome_matches::<T>(s, r)
                    && final(reader).text_model() == Some(rest_after_line(s))
                &&& (tolerant_outcome_matches::<T>(s, r) && final(reader).text_model() == Some(
                    rest_after_line(s),
                )) || (r matches Err(e) && e is Io && final(reader).text_model() == Some(s))
            },
            None => true,
        }),
        old(reader).always_fails() ==> (r matches Err(e) && e is Io),
{
    match read_input_from::<R, T>(reader, prompt) {
        Ok(v) => Ok(Some(v)),
        Err(InputError::Eof) => Ok(None),
        Err(e) => Err(e),
    }
}

/// Read one line from standard input, without a prompt, under the fail
/// policy.  Nothing is known ahead of time of standard input, so no
/// outcome can be promised.
pub fn read_input<T: FromText>() -> (r: Result<T, InputError<<T as FromText>::ParseError>>) {
    let mut source = StdinSource;
    read_input_from::<StdinSource, T>(&mut source, None)
}

/// Read one line from standard input under the fail policy, emitting the
/// given prompt (verbatim, flushed) first.
pub fn read_input_with_prompt<T: FromText>(prompt: &str) -> (r: Result<
    T,
    InputError<<T as FromText>::ParseError>,
>) {
    let mut source = StdinSource;
    read_input_from::<StdinSource, T>(&mut source, Some(prompt))
}

/// Read one line from standard input, without a prompt, under the tolerant
/// policy: end of stream is `Ok(None)`.
pub fn read_input_tolerant<T: FromText>() -> (r: Result<
    Option<T>,
    InputError<<T as FromText>::ParseError>,
>) {
    let mut source = StdinSource;
    read_input_from_tolerant::<StdinSource, T>(&mut source, None)
}

/// Read one line from standard input under the tolerant policy, emitting
/// the given prompt (verbatim, flushed) first.
pub fn read_input_tolerant_with_prompt<T: FromText>(prompt: &str) -> (r: Result<
    Option<T>,
    InputError<<T as FromText>::ParseError>,
>) {
    let mut source = StdinSource;
    read_input_from_tolerant::<StdinSource, T>(&mut source, Some(prompt))
}

/// Law: a source holding one valid textual encoding of `T`, terminated by
/// either the single-character or the two-character line terminator, reads
/// back as exactly the encoded value, and the whole line is consumed.
///
/// An encoding that itself ends in `'\r'` is left out for the
/// single-character terminator, where that `'\r'` would fuse with the
/// appended `'\n'` into a two-character terminator.
pub proof fn lemma_reads_terminated_encoding<T: FromText>(
    t: Seq<char>,
    term: Seq<char>,
    r: Result<T, InputError<<T as FromText>::ParseError>>,
)
    requires
        T::spec_parse(t) is Some,
        forall|i: int| 0 <= i < t.len() ==> t[i] != '\n',
        term == seq!['\n'] || term == seq!['\r', '\n'],
        term == seq!['\n'] && t.len() > 0 ==> t.last() != '\r',
        read_outcome_matches::<T>(t + term, r),
    ensures
        r matches Ok(v) && v.deep_view() == T::spec_parse(t)->Some_0,
        rest_after_line(t + term) == Seq::<char>::empty(),
{
    lemma_first_line_of_terminated(t, term, Seq::<char>::empty());
    assert(t + term + Seq::<char>::empty() =~= t + term);
    lemma_strip_appended_terminator(t, term);
    assert(normalized_first_line(t + term) == t);
}

/// Law: reading from an exhausted source yields `Eof` under the fail
/// policy, and the explicit absence `Ok(None)` under the tolerant policy.
pub proof fn lemma_exhausted_source<T: FromText>(
    s: Seq<char>,
    r: Result<T, InputError<<T as FromText>::ParseError>>,
    rt: Result<Option<T>, InputError<<T as FromText>::ParseError>>,
)
    requires
        s.len() == 0,
        read_outcome_matches::<T>(s, r),
        tolerant_outcome_matches::<T>(s, rt),
    ensures
        r matches Err(e) && e is Eof,
        rt matches Ok(x) && x is None,
{
}

/// Law: a line whose normalized text is outside the target's grammar yields
/// a parse failure carrying the target type's own parse-error value.
pub proof fn lemma_parse_failure_carries_typed_error<T: FromText>(
    s: Seq<char>,
    r: Result<T, InputError<<T as FromText>::ParseError>>,
)
    requires
        s.len() > 0,
        T::spec_parse(normalized_first_line(s)) is None,
        read_outcome_matches::<T>(s, r),
    ensures
        r matches Err(e) && e matches InputError::Parse(pe) && pe == T::spec_parse_err(
            normalized_first_line(s),
        ),
{
}

/// Law: against a source of two terminated lines, two sequential reads
/// yield the two texts' values in order, each line normalized
/// independently of the other.
pub proof fn lemma_two_lines_read_independently<T: FromText>(
    t1: Seq<char>,
    term1: Seq<char>,
    t2: Seq<char>,
    term2: Seq<char>,
    r1: Result<T, InputError<<T as FromText>::ParseError>>,
    r2: Result<T, InputError<<T as FromText>::ParseError>>,
)
    requires
        forall|i: int| 0 <= i < t1.len() ==> t1[i] != '\n',
        forall|i: int| 0 <= i < t2.len() ==> t2[i] != '\n',
        term1 == seq!['\n'] || term1 == seq!['\r', '\n'],
        term2 == seq!['\n'] || term2 == seq!['\r', '\n'],
        term1 == seq!['\n'] && t1.len() > 0 ==> t1.last() != '\r',
        term2 == seq!['\n'] && t2.len() > 0 ==> t2.last() != '\r',
        T::spec_parse(t1) is Some,
        T::spec_parse(t2) is Some,
        read_outcome_matches::<T>(t1 + term1 + (t2 + term2), r1),
        read_outcome_matches::<T>(rest_after_line(t1 + term1 + (t2 + term2)), r2),
    ensures
        r1 matches Ok(v) && v.deep_view() == T::spec_parse(t1)->Some_0,
        r2 matches Ok(v) && v.deep_view() == T::spec_parse(t2)->Some_0,
{
    lemma_first_line_of_terminated(t1, term1, t2 + term2);
    lemma_strip_appended_terminator(t1, term1);
    assert(normalized_first_line(t1 + term1 + (t2 + term2)) == t1);
    lemma_reads_terminated_encoding::<T>(t2, term2, r2);
}

} // verus!
