use vstd::prelude::*;

verus! {

/// The byte that ends a line.
pub const LINE_SEPARATOR: u8 = 0x0a;

/// The bytes hold no line separator.
pub open spec fn no_separator(s: Seq<u8>) -> bool {
    forall|i: int| 0 <= i < s.len() ==> s[i] != LINE_SEPARATOR
}

/// Every line holds no line separator.
pub open spec fn all_lines_plain(lines: Seq<Seq<u8>>) -> bool {
    forall|k: int| 0 <= k < lines.len() ==> no_separator(#[trigger] lines[k])
}

/// The lines written out in order, each followed by a separator.
pub open spec fn terminated(lines: Seq<Seq<u8>>) -> Seq<u8>
    decreases lines.len(),
{
    if lines.len() == 0 {
        Seq::empty()
    } else {
        terminated(lines.drop_last()) + lines.last() + seq![LINE_SEPARATOR]
    }
}

/// The byte contents of a list of lines.
pub open spec fn line_views(lines: Seq<Vec<u8>>) -> Seq<Seq<u8>> {
    lines.map_values(|l: Vec<u8>| l@)
}

/// Reassembles lines from a stream of byte chunks. It holds at most one partial line:
/// the bytes after the last separator seen.
#[derive(Debug)]
pub struct LineFramer {
    pending: Vec<u8>,
}

impl LineFramer {
    /// The partial line held so far.
    pub closed spec fn view(&self) -> Seq<u8> {
        self.pending@
    }

    /// A framer that holds nothing yet.
    pub fn new() -> (r: LineFramer)
        ensures
            r@ == Seq::<u8>::empty(),
    {
        LineFramer { pending: Vec::new() }
    }

    /// Absorbs one chunk and hands out, in order, every line that it completes. The lines
    /// with their separators, followed by the new partial line, are exactly the old partial
    /// line followed by the chunk.
    pub fn push_chunk(&mut self, chunk: &[u8]) -> (lines: Vec<Vec<u8>>)
        requires
            no_separator(old(self)@),
        ensures
            terminated(line_views(lines@)) + final(self)@ == old(self)@ + chunk@,
            all_lines_plain(line_views(lines@)),
            no_separator(final(self)@),
    {
        let mut lines: Vec<Vec<u8>> = Vec::new();
        let mut i: usize = 0;
        while i < chunk.len()
            invariant
                i <= chunk@.len(),
                terminated(line_views(lines@)) + self@ == old(self)@ + chunk@.subrange(0, i as int),
                all_lines_plain(line_views(lines@)),
                no_separator(self@),
            decreases chunk@.len() - i,
        {
            let b = chunk[i];
            let ghost before = terminated(line_views(lines@)) + self@;
            if b == LINE_SEPARATOR {
                let mut line: Vec<u8> = Vec::new();
                line.append(&mut self.pending);
                let ghost old_lines = lines@;
                lines.push(line);
                proof {
                    assert(line_views(lines@).drop_last() =~= line_views(old_lines));
                    assert(line_views(lines@).last() == line@);
                    assert forall|k: int| 0 <= k < line_views(lines@).len() implies no_separator(
                        #[trigger] line_views(lines@)[k],
                    ) by {
                        if k < old_lines.len() {
                            assert(line_views(lines@)[k] == line_views(old_lines)[k]);
                        }
                    }
                }
            } else {
                self.pending.push(b);
            }
            proof {
                assert(chunk@.subrange(0, i + 1) =~= chunk@.subrange(0, i as int).push(b));
                assert(terminated(line_views(lines@)) + self@ =~= before.push(b));
            }
            i += 1;
        }
        assert(chunk@.subrange(0, chunk@.len() as int) =~= chunk@);
        lines
    }

    /// Ends the stream: the partial line, if any bytes are left, is the last line.
    pub fn finish(self) -> (r: Option<Vec<u8>>)
        ensures
            self@.len() == 0 ==> r is None,
            self@.len() > 0 ==> r is Some && r->Some_0@ == self@,
    {
        if self.pending.len() == 0 {
            None
        } else {
            Some(self.pending)
        }
    }
}

proof fn lemma_terminated_append(a: Seq<Seq<u8>>, b: Seq<Seq<u8>>)
    ensures
        terminated(a + b) == terminated(a) + terminated(b),
    decreases b.len(),
{
    if b.len() == 0 {
        assert(a + b =~= a);
        assert(terminated(a) + terminated(b) =~= terminated(a));
    } else {
        assert((a + b).drop_last() =~= a + b.drop_last());
        assert((a + b).last() == b.last());
        lemma_terminated_append(a, b.drop_last());
        assert(terminated(a + b) =~= terminated(a) + terminated(b));
    }
}

/// Framing two chunks one after the other accounts for exactly their concatenation: the
/// lines of both steps, each with its separator, and then the final partial line, are the
/// starting partial line followed by both chunks. No byte is lost or repeated where one
/// chunk ends and the next begins.
pub proof fn framing_composes(
    start: Seq<u8>,
    first: Seq<u8>,
    first_lines: Seq<Seq<u8>>,
    middle: Seq<u8>,
    second: Seq<u8>,
    second_lines: Seq<Seq<u8>>,
    end: Seq<u8>,
)
    requires
        terminated(first_lines) + middle == start + first,
        terminated(second_lines) + end == middle + second,
    ensures
        terminated(first_lines + second_lines) + end == start + first + second,
{
    lemma_terminated_append(first_lines, second_lines);
    assert(terminated(first_lines) + terminated(second_lines) + end =~= terminated(first_lines)
        + (terminated(second_lines) + end));
    assert(start + first + second =~= (start + first) + second);
    assert(terminated(first_lines) + (middle + second) =~= (terminated(first_lines) + middle)
        + second);
}

} // verus!
