//! Compiled patterns and per-line match highlighting.
//!
//! The regular-expression engine and the terminal highlighter are outside
//! collaborators: the engine locates the first matching byte span of a line,
//! the highlighter wraps a piece of text in colour markers. Everything
//! around them — validating the line as UTF-8, splitting it at the span,
//! and reassembling the highlighted line — is verified here.

use vstd::prelude::*;
use vstd::string::StringSliceAdditionalSpecFns;
use vstd::utf8::{decode_utf8, is_char_boundary, valid_utf8};

use crate::errors::FileError;

verus! {

broadcast use vstd::utf8::group_utf8_lib;

#[verifier::external_type_specification]
#[verifier::external_body]
pub struct ExRegexMatcher(grep_regex::RegexMatcher);

#[verifier::external_type_specification]
#[verifier::external_body]
pub struct ExRegexError(grep_regex::Error);

#[verifier::external_type_specification]
#[verifier::external_body]
pub struct ExUtf8Error(core::str::Utf8Error);

/// Relies on `core::str::from_utf8`: it succeeds exactly on valid UTF-8 and
/// returns a string slice over the same bytes.
pub assume_specification<'a>[ core::str::from_utf8 ](v: &'a [u8]) -> (r: Result<
    &'a str,
    core::str::Utf8Error,
>)
    ensures
        r is Ok <==> valid_utf8(v@),
        r matches Ok(s) ==> s.spec_bytes() == v@,
;

/// Whether a pattern text is a regular expression that the engine accepts.
pub uninterp spec fn valid_pattern(p: Seq<char>) -> bool;

/// The first matching byte span the engine reports for a pattern on a line,
/// if any. The engine is deterministic: the span depends on the pattern and
/// the line alone.
pub uninterp spec fn found_span(p: Seq<char>, line: Seq<u8>) -> Option<(usize, usize)>;

/// A compiled pattern, paired with the text it was compiled from so that
/// contracts can speak of the pattern as a value.
pub struct Pattern {
    text: String,
    inner: grep_regex::RegexMatcher,
}

impl View for Pattern {
    type V = Seq<char>;

    closed spec fn view(&self) -> Seq<char> {
        self.text@
    }
}

/// Relies on `grep_regex::RegexMatcher::new`: compilation succeeds exactly
/// when the pattern is a regular expression the engine accepts, and depends
/// on the pattern text alone.
#[verifier::external_body]
fn compile_regex(text: &str) -> (r: Result<grep_regex::RegexMatcher, grep_regex::Error>)
    ensures
        r is Ok <==> valid_pattern(text@),
{
    grep_regex::RegexMatcher::new(text)
}

/// Relies on `grep_matcher::Matcher::find` for `grep_regex::RegexMatcher`:
/// it reports the first match as a byte span within the haystack with
/// `start <= end`, deterministically in the pattern and the haystack; its
/// error type `grep_matcher::NoError` has no values, so the call
/// always returns `Ok`. The span is trusted to be `found_span` of the text
/// `inner` was compiled from, which `Pattern::new` made equal to `text`.
#[verifier::external_body]
fn find_span(p: &Pattern, line: &[u8]) -> (r: Option<(usize, usize)>)
    ensures
        r == found_span(p@, line@),
        r matches Some((s, e)) ==> s <= e <= line@.len(),
{
    match grep_matcher::Matcher::find(&p.inner, line) {
        Ok(Some(m)) => Some((m.start(), m.end())),
        Ok(None) => None,
        Err(_) => None,
    }
}

/// Relies on `colored::Colorize::red` and its `Display` rendering: the
/// output is the input with a colour prefix and a reset suffix around it
/// (or the input unchanged when colouring is off), except that an input
/// already holding a reset sequence is rewritten inside.
#[verifier::external_body]
fn paint_red(s: &str) -> (r: String)
    ensures
        !has_reset(s@) ==> exists|pre: Seq<char>, suf: Seq<char>| r@ == pre + s@ + suf,
{
    format!("{}", colored::Colorize::red(s))
}

/// The ANSI reset sequence as characters.
pub open spec fn reset_marker() -> Seq<char> {
    seq!['\u{1b}', '[', '0', 'm']
}

/// True when `s` holds the ANSI reset sequence somewhere.
pub open spec fn has_reset(s: Seq<char>) -> bool {
    exists|i: int| 0 <= i && i + 4 <= s.len() && #[trigger] s.subrange(i, i + 4) == reset_marker()
}

/// The span that the line is actually split at: the engine's first match,
/// kept only when it lies within the line on character boundaries. A span
/// that cuts a character in two cannot be highlighted and counts as no
/// match, as does a failed match attempt.
pub open spec fn effective_span(p: Seq<char>, line: Seq<u8>) -> Option<(usize, usize)> {
    match found_span(p, line) {
        Some((s, e)) => if s <= e <= line.len() && is_char_boundary(line, s as int)
            && is_char_boundary(line, e as int) {
            Some((s, e))
        } else {
            None
        },
        None => None,
    }
}

/// True when the pattern matches the line, with a span that can be shown.
pub open spec fn line_matches(p: Seq<char>, line: Seq<u8>) -> bool {
    effective_span(p, line) is Some
}

/// The shape of a highlighted line: the text before the span and after the
/// span is exactly the line's own text, and between them stands the matched
/// text wrapped in highlight markers — exactly the matched text whenever it
/// does not itself hold a reset sequence.
pub open spec fn highlight_shape(line: Seq<u8>, s: int, e: int, out: Seq<char>) -> bool {
    exists|hpre: Seq<char>, hmid: Seq<char>, hsuf: Seq<char>|
        out == decode_utf8(line.subrange(0, s)) + hpre + hmid + hsuf + decode_utf8(
            line.subrange(e, line.len() as int),
        ) && (!has_reset(decode_utf8(line.subrange(s, e))) ==> hmid == decode_utf8(
            line.subrange(s, e),
        ))
}

/// True when `out` is a correct rendering of a matching line: the matched
/// span highlighted, everything outside it unchanged.
pub open spec fn render_ok(p: Seq<char>, line: Seq<u8>, out: Seq<char>) -> bool {
    match effective_span(p, line) {
        Some((s, e)) => highlight_shape(line, s as int, e as int, out),
        None => false,
    }
}

impl Pattern {
    /// Compile a pattern. Fails with `FileError::Pattern` exactly when the
    /// engine rejects the text.
    pub fn new(text: &str) -> (r: Result<Pattern, FileError>)
        ensures
            r is Ok <==> valid_pattern(text@),
            r matches Ok(p) ==> p@ == text@,
            r is Err ==> r->Err_0 == FileError::Pattern,
    {
        match compile_regex(text) {
            Ok(inner) => Ok(Pattern { text: text.to_owned(), inner }),
            Err(_) => Err(FileError::Pattern),
        }
    }
}

/// Search one line. A line that is not valid UTF-8 fails the search; a valid
/// line yields its highlighted rendering exactly when the pattern matches it.
pub fn search_line(p: &Pattern, line: &Vec<u8>) -> (r: Result<Option<String>, FileError>)
    ensures
        r is Ok <==> valid_utf8(line@),
        !valid_utf8(line@) ==> r == Err::<Option<String>, FileError>(FileError::Io),
        r matches Ok(o) ==> (o is Some <==> line_matches(p@, line@)),
        r matches Ok(Some(out)) ==> render_ok(p@, line@, out@),
{
    let bytes: &[u8] = line.as_slice();
    match core::str::from_utf8(bytes) {
        Err(_) => Err(FileError::Io),
        Ok(s) => match find_span(p, bytes) {
            None => Ok(None),
            Some((st, en)) => {
                if s.is_char_boundary(st) && s.is_char_boundary(en) {
                    Ok(Some(build_highlight(s, st, en)))
                } else {
                    Ok(None)
                }
            },
        },
    }
}

/// Rebuild a line with the byte span `st .. en` highlighted: the text before
/// and after the span verbatim, the span's text passed through the
/// highlighter between them.
fn build_highlight(s: &str, st: usize, en: usize) -> (out: String)
    requires
        valid_utf8(s.spec_bytes()),
        st <= en <= s.spec_bytes().len(),
        is_char_boundary(s.spec_bytes(), st as int),
        is_char_boundary(s.spec_bytes(), en as int),
    ensures
        highlight_shape(s.spec_bytes(), st as int, en as int, out@),
{
    let ghost bytes = s.spec_bytes();
    let ghost len = bytes.len() as int;
    let (a, bc) = s.split_at(st);
    let ghost sub = bytes.subrange(st as int, len);
    proof {
        assert(bc.spec_bytes() =~= sub);
        assert(valid_utf8(sub));
        if en < bytes.len() {
            assert(!vstd::utf8::is_continuation_byte(bytes[en as int]));
            if en > st {
                assert(sub[en - st] == bytes[en as int]);
                assert(is_char_boundary(sub, en - st as int));
            }
        } else {
            assert(en - st == sub.len());
        }
    }
    let (b, c) = bc.split_at(en - st);
    proof {
        assert(a.spec_bytes() =~= bytes.subrange(0, st as int));
        assert(b.spec_bytes() =~= bytes.subrange(st as int, en as int)) by {
            assert(sub.subrange(0, en - st as int) =~= bytes.subrange(st as int, en as int));
        }
        assert(c.spec_bytes() =~= bytes.subrange(en as int, len)) by {
            assert(sub.subrange(en - st as int, sub.len() as int) =~= bytes.subrange(
                en as int,
                len,
            ));
        }
        assert(a@ == decode_utf8(bytes.subrange(0, st as int)));
        assert(b@ == decode_utf8(bytes.subrange(st as int, en as int)));
        assert(c@ == decode_utf8(bytes.subrange(en as int, len)));
    }
    let mid_hl = paint_red(b);
    let mut out = a.to_owned();
    out.append(mid_hl.as_str());
    out.append(c);
    proof {
        let mid = decode_utf8(bytes.subrange(st as int, en as int));
        if !has_reset(mid) {
            let (pre, suf) = choose|pre: Seq<char>, suf: Seq<char>| mid_hl@ == pre + b@ + suf;
            assert(out@ == decode_utf8(bytes.subrange(0, st as int)) + pre + mid + suf
                + decode_utf8(bytes.subrange(en as int, len)));
        } else {
            let hpre = Seq::<char>::empty();
            let hsuf = Seq::<char>::empty();
            assert(out@ == decode_utf8(bytes.subrange(0, st as int)) + hpre + mid_hl@ + hsuf
                + decode_utf8(bytes.subrange(en as int, len)));
        }
    }
    out
}

} // verus!
