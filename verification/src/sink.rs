//! The line search sink.
//!
//! A `LineSink` consumes the decompressed byte stream chunk by chunk. It
//! buffers bytes until a line is complete (terminated by a newline), checks
//! the line is UTF-8, asks the pattern for its first match, and yields the
//! highlighted rendering of every matching line, in stream order, each with
//! its terminator preserved. Non-matching lines are never yielded. The last
//! unterminated line, if any, is handled by `finish`.

use vstd::prelude::*;
use vstd::utf8::valid_utf8;

use crate::errors::FileError;
use crate::pattern::{line_matches, render_ok, search_line, Pattern};
use crate::text::{
    complete_lines, has_nl, lemma_first_nl_is, lemma_lines_concat, lemma_lines_no_nl, line_rest,
};

verus! {

/// True when every line of the sequence is valid UTF-8.
pub open spec fn all_valid_utf8(lines: Seq<Seq<u8>>) -> bool {
    forall|i: int| 0 <= i < lines.len() ==> valid_utf8(#[trigger] lines[i])
}

/// The correctness of a batch of outputs against a batch of lines: walking
/// the lines in order, every matching line contributes exactly one output,
/// its rendering, and every non-matching line contributes none.
pub open spec fn outputs_ok(p: Seq<char>, lines: Seq<Seq<u8>>, outs: Seq<Seq<char>>) -> bool
    decreases lines.len(),
{
    if lines.len() == 0 {
        outs.len() == 0
    } else if line_matches(p, lines[0]) {
        outs.len() > 0 && render_ok(p, lines[0], outs[0]) && outputs_ok(
            p,
            lines.skip(1),
            outs.skip(1),
        )
    } else {
        outputs_ok(p, lines.skip(1), outs)
    }
}

/// Extending a correct batch by one more line keeps it correct: a matching
/// line adds its rendering at the end, a non-matching line adds nothing.
pub proof fn lemma_outputs_snoc(
    p: Seq<char>,
    lines: Seq<Seq<u8>>,
    outs: Seq<Seq<char>>,
    line: Seq<u8>,
    out: Option<Seq<char>>,
)
    requires
        outputs_ok(p, lines, outs),
        match out {
            Some(o) => line_matches(p, line) && render_ok(p, line, o),
            None => !line_matches(p, line),
        },
    ensures
        outputs_ok(
            p,
            lines.push(line),
            match out {
                Some(o) => outs.push(o),
                None => outs,
            },
        ),
    decreases lines.len(),
{
    let lines2 = lines.push(line);
    let outs2 = match out {
        Some(o) => outs.push(o),
        None => outs,
    };
    if lines.len() == 0 {
        assert(lines2[0] == line);
        assert(lines2.skip(1) =~= Seq::<Seq<u8>>::empty());
        match out {
            Some(o) => {
                assert(outs2[0] == o);
                assert(outs2.skip(1) =~= Seq::<Seq<char>>::empty());
                assert(outputs_ok(p, lines2.skip(1), outs2.skip(1)));
            },
            None => {
                assert(outs2.len() == 0);
                assert(outputs_ok(p, lines2.skip(1), outs2));
            },
        }
        assert(outputs_ok(p, lines2, outs2));
    } else {
        assert(lines2[0] == lines[0]);
        assert(lines2.skip(1) =~= lines.skip(1).push(line));
        if line_matches(p, lines[0]) {
            assert(outs.len() > 0);
            assert(outs2[0] == outs[0]);
            match out {
                Some(o) => {
                    assert(outs2.skip(1) =~= outs.skip(1).push(o));
                },
                None => {
                    assert(outs2.skip(1) =~= outs.skip(1));
                },
            }
            lemma_outputs_snoc(p, lines.skip(1), outs.skip(1), line, out);
            assert(outputs_ok(p, lines2.skip(1), outs2.skip(1)));
        } else {
            lemma_outputs_snoc(p, lines.skip(1), outs, line, out);
            assert(outputs_ok(p, lines2.skip(1), outs2));
        }
        assert(outputs_ok(p, lines2, outs2));
    }
}

/// Two correct batches concatenate to a correct batch.
pub proof fn lemma_outputs_concat(
    p: Seq<char>,
    l1: Seq<Seq<u8>>,
    o1: Seq<Seq<char>>,
    l2: Seq<Seq<u8>>,
    o2: Seq<Seq<char>>,
)
    requires
        outputs_ok(p, l1, o1),
        outputs_ok(p, l2, o2),
    ensures
        outputs_ok(p, l1 + l2, o1 + o2),
    decreases l1.len(),
{
    if l1.len() == 0 {
        assert(l1 + l2 =~= l2);
        assert(o1 + o2 =~= o2);
    } else {
        assert((l1 + l2)[0] == l1[0]);
        assert((l1 + l2).skip(1) =~= l1.skip(1) + l2);
        if line_matches(p, l1[0]) {
            assert((o1 + o2)[0] == o1[0]);
            assert((o1 + o2).skip(1) =~= o1.skip(1) + o2);
            lemma_outputs_concat(p, l1.skip(1), o1.skip(1), l2, o2);
        } else {
            lemma_outputs_concat(p, l1.skip(1), o1, l2, o2);
        }
    }
}

/// The matching lines among a batch of lines, in order.
pub open spec fn matching_lines(p: Seq<char>, lines: Seq<Seq<u8>>) -> Seq<Seq<u8>>
    decreases lines.len(),
{
    if lines.len() == 0 {
        Seq::<Seq<u8>>::empty()
    } else if line_matches(p, lines[0]) {
        seq![lines[0]] + matching_lines(p, lines.skip(1))
    } else {
        matching_lines(p, lines.skip(1))
    }
}

/// Law: a correct batch of outputs holds exactly one rendering per matching
/// line, in the order of the lines — so every matching line is printed
/// exactly once with its span highlighted and the rest of it unchanged, and
/// a non-matching line is never printed.
pub proof fn lemma_outputs_exactly_matches(p: Seq<char>, lines: Seq<Seq<u8>>, outs: Seq<Seq<char>>)
    requires
        outputs_ok(p, lines, outs),
    ensures
        outs.len() == matching_lines(p, lines).len(),
        forall|i: int|
            0 <= i < outs.len() ==> render_ok(p, matching_lines(p, lines)[i], #[trigger] outs[i]),
    decreases lines.len(),
{
    if lines.len() == 0 {
    } else if line_matches(p, lines[0]) {
        lemma_outputs_exactly_matches(p, lines.skip(1), outs.skip(1));
        let m = matching_lines(p, lines);
        assert(m[0] == lines[0]);
        assert(forall|i: int|
            1 <= i < m.len() ==> m[i] == matching_lines(p, lines.skip(1))[i - 1]);
        assert(forall|i: int| 1 <= i < outs.len() ==> outs[i] == outs.skip(1)[i - 1]);
    } else {
        lemma_outputs_exactly_matches(p, lines.skip(1), outs);
    }
}

/// Law: per-file output does not depend on how the stream was cut into
/// chunks. If the outputs of one chunk are correct for its complete lines,
/// and the outputs of the next chunk are correct for the lines completed by
/// gluing the first chunk's rest to it, then their concatenation is correct
/// for the lines of the whole stream, and the leftover bytes agree. Feeding
/// piecewise is therefore equivalent to feeding the stream whole, whatever
/// the scheduling of reads.
pub proof fn lemma_chunking_equivalent(
    p: Seq<char>,
    b1: Seq<u8>,
    b2: Seq<u8>,
    o1: Seq<Seq<char>>,
    o2: Seq<Seq<char>>,
)
    requires
        outputs_ok(p, complete_lines(b1), o1),
        outputs_ok(p, complete_lines(line_rest(b1) + b2), o2),
    ensures
        outputs_ok(p, complete_lines(b1 + b2), o1 + o2),
        line_rest(b1 + b2) == line_rest(line_rest(b1) + b2),
{
    lemma_lines_concat(b1, b2);
    lemma_outputs_concat(p, complete_lines(b1), o1, complete_lines(line_rest(b1) + b2), o2);
}

/// Index of the first newline byte of `buf`, if any.
fn find_nl(buf: &Vec<u8>) -> (r: Option<usize>)
    ensures
        match r {
            Some(i) => i < buf@.len() && buf@[i as int] == 10u8 && (forall|j: int|
                0 <= j < i ==> buf@[j] != 10u8),
            None => !has_nl(buf@),
        },
{
    let mut i: usize = 0;
    while i < buf.len()
        invariant
            i <= buf@.len(),
            forall|j: int| 0 <= j < i ==> buf@[j] != 10u8,
        decreases buf@.len() - i,
    {
        if buf[i] == 10u8 {
            return Some(i);
        }
        i += 1;
    }
    None
}

/// The streaming line sink for one file: a compiled pattern and the bytes
/// of the line in progress.
pub struct LineSink {
    pattern: Pattern,
    buf: Vec<u8>,
}

impl LineSink {
    /// The pattern searched for, as a value.
    pub closed spec fn pat(&self) -> Seq<char> {
        self.pattern@
    }

    /// The bytes received that do not yet form a complete line.
    pub closed spec fn pending(&self) -> Seq<u8> {
        self.buf@
    }

    /// A fresh sink with nothing pending.
    pub fn new(pattern: Pattern) -> (r: LineSink)
        ensures
            r.pat() == pattern@,
            r.pending() == Seq::<u8>::empty(),
    {
        LineSink { pattern, buf: Vec::new() }
    }

    /// Remove and return every complete line of the buffer, in order,
    /// leaving only the trailing bytes after the last newline.
    fn drain_lines(&mut self) -> (lines: Vec<Vec<u8>>)
        ensures
            lines.deep_view() == complete_lines(old(self).pending()),
            final(self).pending() == line_rest(old(self).pending()),
            !has_nl(final(self).pending()),
            final(self).pat() == old(self).pat(),
    {
        let ghost orig = self.buf@;
        let mut lines: Vec<Vec<u8>> = Vec::new();
        proof {
            assert(complete_lines(orig) =~= lines.deep_view() + complete_lines(self.buf@));
        }
        loop
            invariant
                complete_lines(orig) == lines.deep_view() + complete_lines(self.buf@),
                line_rest(orig) == line_rest(self.buf@),
                self.pattern == old(self).pattern,
            ensures
                complete_lines(orig) == lines.deep_view() + complete_lines(self.buf@),
                line_rest(orig) == line_rest(self.buf@),
                self.pattern == old(self).pattern,
                !has_nl(self.buf@),
            decreases self.buf@.len(),
        {
            let ghost prev = self.buf@;
            match find_nl(&self.buf) {
                None => {
                    break ;
                },
                Some(i) => {
                    let blen = self.buf.len();
                    proof {
                        lemma_first_nl_is(prev, i as int);
                        assert(i < blen);
                    }
                    let mut tail = self.buf.split_off(i + 1);
                    core::mem::swap(&mut self.buf, &mut tail);
                    let line = tail;
                    proof {
                        assert(line@ =~= prev.take(i + 1));
                        assert(self.buf@ =~= prev.skip(i + 1));
                        assert(complete_lines(prev) == seq![prev.take(i + 1)] + complete_lines(
                            prev.skip(i + 1),
                        ));
                        assert(lines.deep_view().push(line@) + complete_lines(self.buf@)
                            =~~= lines.deep_view() + complete_lines(prev));
                    }
                    let ghost before = lines.deep_view();
                    lines.push(line);
                    proof {
                        assert(lines.deep_view() =~~= before.push(line@));
                    }
                },
            }
        }
        proof {
            lemma_lines_no_nl(self.buf@);
            assert(lines.deep_view() + complete_lines(self.buf@) =~= lines.deep_view());
        }
        lines
    }

    /// Feed one chunk of the decompressed stream. Returns the highlighted
    /// renderings of the matching lines completed by this chunk, in order;
    /// fails exactly when a completed line is not valid UTF-8.
    pub fn feed(&mut self, chunk: &[u8]) -> (r: Result<Vec<String>, FileError>)
        ensures
            final(self).pat() == old(self).pat(),
            final(self).pending() == line_rest(old(self).pending() + chunk@),
            !has_nl(final(self).pending()),
            ({
                let lines = complete_lines(old(self).pending() + chunk@);
                match r {
                    Ok(outs) => all_valid_utf8(lines) && outputs_ok(
                        old(self).pat(),
                        lines,
                        outs.deep_view(),
                    ),
                    Err(e) => e == FileError::Io && !all_valid_utf8(lines),
                }
            }),
    {
        let ghost orig = self.buf@;
        let mut i: usize = 0;
        while i < chunk.len()
            invariant
                i <= chunk@.len(),
                self.buf@ == orig + chunk@.take(i as int),
                self.pattern == old(self).pattern,
            decreases chunk@.len() - i,
        {
            let b = chunk[i];
            self.buf.push(b);
            proof {
                assert(self.buf@ =~= orig + chunk@.take(i + 1));
            }
            i += 1;
        }
        proof {
            assert(self.buf@ =~= orig + chunk@);
        }
        let lines = self.drain_lines();
        process_lines(&self.pattern, &lines)
    }

    /// Finish the stream: the pending bytes, if any, are the last line,
    /// unterminated. Returns its rendering when it matches; fails exactly
    /// when it is not valid UTF-8. The sink is left empty.
    pub fn finish(&mut self) -> (r: Result<Vec<String>, FileError>)
        ensures
            final(self).pat() == old(self).pat(),
            final(self).pending() == Seq::<u8>::empty(),
            ({
                let lines = if old(self).pending().len() == 0 {
                    Seq::<Seq<u8>>::empty()
                } else {
                    seq![old(self).pending()]
                };
                match r {
                    Ok(outs) => all_valid_utf8(lines) && outputs_ok(
                        old(self).pat(),
                        lines,
                        outs.deep_view(),
                    ),
                    Err(e) => e == FileError::Io && !all_valid_utf8(lines),
                }
            }),
    {
        let mut line: Vec<u8> = Vec::new();
        core::mem::swap(&mut self.buf, &mut line);
        let mut outs: Vec<String> = Vec::new();
        if line.len() == 0 {
            return Ok(outs);
        }
        let ghost lines = seq![line@];
        match search_line(&self.pattern, &line) {
            Err(e) => {
                proof {
                    assert(!valid_utf8(lines[0]));
                    assert(!all_valid_utf8(lines));
                }
                Err(e)
            },
            Ok(None) => {
                proof {
                    assert(lines.skip(1) =~= Seq::<Seq<u8>>::empty());
                    assert(outs.deep_view() =~~= Seq::<Seq<char>>::empty());
                    assert(outputs_ok(old(self).pat(), lines.skip(1), outs.deep_view()));
                    assert(outputs_ok(old(self).pat(), lines, outs.deep_view()));
                }
                Ok(outs)
            },
            Ok(Some(out)) => {
                let ghost o = out@;
                outs.push(out);
                proof {
                    assert(lines.skip(1) =~= Seq::<Seq<u8>>::empty());
                    assert(outs.deep_view() =~~= seq![o]);
                    assert(outs.deep_view().skip(1) =~= Seq::<Seq<char>>::empty());
                    assert(outputs_ok(old(self).pat(), lines.skip(1), outs.deep_view().skip(1)));
                    assert(outputs_ok(old(self).pat(), lines, outs.deep_view()));
                }
                Ok(outs)
            },
        }
    }
}

/// Search a batch of complete lines in order, collecting the renderings of
/// the matching ones; fail at the first line that is not valid UTF-8.
fn process_lines(p: &Pattern, lines: &Vec<Vec<u8>>) -> (r: Result<Vec<String>, FileError>)
    ensures
        match r {
            Ok(outs) => all_valid_utf8(lines.deep_view()) && outputs_ok(
                p@,
                lines.deep_view(),
                outs.deep_view(),
            ),
            Err(e) => e == FileError::Io && !all_valid_utf8(lines.deep_view()),
        },
{
    let ghost ldv = lines.deep_view();
    let mut outs: Vec<String> = Vec::new();
    let mut k: usize = 0;
    proof {
        assert(ldv.take(0) =~= Seq::<Seq<u8>>::empty());
    }
    while k < lines.len()
        invariant
            k <= ldv.len(),
            ldv == lines.deep_view(),
            ldv.len() == lines@.len(),
            forall|i: int| 0 <= i < ldv.len() ==> ldv[i] == lines@[i]@,
            outputs_ok(p@, ldv.take(k as int), outs.deep_view()),
            forall|i: int| 0 <= i < k ==> valid_utf8(#[trigger] ldv[i]),
        decreases ldv.len() - k,
    {
        let line = &lines[k];
        let ghost done = outs.deep_view();
        match search_line(p, line) {
            Err(e) => {
                proof {
                    assert(!valid_utf8(ldv[k as int]));
                }
                return Err(e);
            },
            Ok(None) => {
                proof {
                    lemma_outputs_snoc(p@, ldv.take(k as int), done, ldv[k as int], None);
                    assert(ldv.take(k + 1) =~= ldv.take(k as int).push(ldv[k as int]));
                }
            },
            Ok(Some(out)) => {
                let ghost o = out@;
                outs.push(out);
                proof {
                    lemma_outputs_snoc(p@, ldv.take(k as int), done, ldv[k as int], Some(o));
                    assert(ldv.take(k + 1) =~= ldv.take(k as int).push(ldv[k as int]));
                    assert(outs.deep_view() =~= done.push(o));
                }
            },
        }
        k += 1;
    }
    proof {
        assert(ldv.take(ldv.len() as int) =~= ldv);
    }
    Ok(outs)
}

} // verus!
