use vstd::prelude::*;

verus! {

/// Position of the first newline in `s`, or `s.len()` if `s` holds none.
pub open spec fn find_newline(s: Seq<char>) -> nat
    decreases s.len(),
{
    if s.len() == 0 {
        0
    } else if s[0] == '\n' {
        0
    } else {
        1 + find_newline(s.drop_first())
    }
}

/// The first newline stands at `i` exactly when `s[i]` is a newline and no
/// earlier character is one.
pub proof fn lemma_find_newline_at(s: Seq<char>, i: int)
    requires
        0 <= i < s.len(),
        s[i] == '\n',
        forall|k: int| 0 <= k < i ==> s[k] != '\n',
    ensures
        find_newline(s) == i,
    decreases s.len(),
{
    if i == 0 {
    } else {
        assert forall|k: int| 0 <= k < i - 1 implies s.drop_first()[k] != '\n' by {
            assert(s.drop_first()[k] == s[k + 1]);
        }
        assert(s.drop_first()[i - 1] == s[i]);
        lemma_find_newline_at(s.drop_first(), i - 1);
    }
}

/// A sequence without any newline has its first newline position at the end.
pub proof fn lemma_find_newline_none(s: Seq<char>)
    requires
        forall|k: int| 0 <= k < s.len() ==> s[k] != '\n',
    ensures
        find_newline(s) == s.len(),
    decreases s.len(),
{
    if s.len() > 0 {
        assert forall|k: int| 0 <= k < s.drop_first().len() implies s.drop_first()[k] != '\n' by {
            assert(s.drop_first()[k] == s[k + 1]);
        }
        lemma_find_newline_none(s.drop_first());
    }
}

/// The line that one buffered read yields on contents `s`: the prefix up to
/// and including the first newline; failing that, on a closed stream, the
/// whole remainder; otherwise no line is available yet.
pub open spec fn next_line_result(s: Seq<char>, closed: bool) -> Option<Seq<char>> {
    if find_newline(s) < s.len() {
        Some(s.take((find_newline(s) + 1) as int))
    } else if closed && s.len() > 0 {
        Some(s)
    } else {
        None
    }
}

/// What stays buffered after one buffered read on contents `s`.
pub open spec fn next_line_rest(s: Seq<char>, closed: bool) -> Seq<char> {
    if find_newline(s) < s.len() {
        s.skip((find_newline(s) + 1) as int)
    } else if closed && s.len() > 0 {
        Seq::empty()
    } else {
        s
    }
}

/// End of stream: the writer has closed the pipe and nothing is buffered.
pub open spec fn at_end(s: Seq<char>, closed: bool) -> bool {
    closed && s.len() == 0
}

/// What one non-waiting drain yields on buffered contents `s`: everything,
/// or nothing when nothing is buffered.
pub open spec fn drain_result(s: Seq<char>) -> Option<Seq<char>> {
    if s.len() == 0 {
        None
    } else {
        Some(s)
    }
}

/// Two drains in a row with no new text arriving in between: the first
/// yields all buffered text, the second yields nothing — no character is
/// ever handed out twice.
pub proof fn lemma_drain_twice(s: Seq<char>)
    ensures
        s.len() > 0 ==> drain_result(s) == Some(s),
        drain_result(Seq::<char>::empty()) is None,
{
}

/// `s` split at its newlines: every line but possibly the last ends with a
/// newline, and the last is the newline-free tail if one remains.
pub open spec fn lines_of(s: Seq<char>) -> Seq<Seq<char>>
    decreases s.len(),
{
    if s.len() == 0 {
        Seq::empty()
    } else if find_newline(s) < s.len() {
        seq![s.take((find_newline(s) + 1) as int)] + lines_of(s.skip((find_newline(s) + 1) as int))
    } else {
        seq![s]
    }
}

/// The concatenation of a sequence of lines.
pub open spec fn concat_lines(ls: Seq<Seq<char>>) -> Seq<char>
    decreases ls.len(),
{
    if ls.len() == 0 {
        Seq::empty()
    } else {
        ls[0] + concat_lines(ls.drop_first())
    }
}

/// The lines that repeated buffered reads harvest from a closed stream whose
/// contents are `s`, in the order the reads return them.
pub open spec fn harvest(s: Seq<char>) -> Seq<Seq<char>>
    decreases s.len(),
{
    if s.len() == 0 {
        Seq::empty()
    } else {
        seq![next_line_result(s, true).unwrap()] + harvest(next_line_rest(s, true))
    }
}

/// Splitting at newlines loses and duplicates nothing: the lines of `s`
/// concatenate back to `s`.
pub proof fn lemma_lines_concat(s: Seq<char>)
    ensures
        concat_lines(lines_of(s)) == s,
    decreases s.len(),
{
    if s.len() == 0 {
        assert(concat_lines(lines_of(s)) =~= s);
    } else if find_newline(s) < s.len() {
        let f = find_newline(s) as int;
        let head = s.take(f + 1);
        let tail = s.skip(f + 1);
        lemma_lines_concat(tail);
        assert((seq![head] + lines_of(tail)).drop_first() =~= lines_of(tail));
        assert(concat_lines(seq![head] + lines_of(tail)) == head + concat_lines(lines_of(tail)));
        assert(head + tail =~= s);
    } else {
        assert(lines_of(s) =~= seq![s]);
        assert(seq![s].drop_first() =~= Seq::<Seq<char>>::empty());
        assert(concat_lines(Seq::<Seq<char>>::empty()) =~= Seq::<char>::empty());
        assert(concat_lines(seq![s]) =~= s + Seq::<char>::empty());
        assert(s + Seq::<char>::empty() =~= s);
        assert(concat_lines(lines_of(s)) =~= s);
    }
}

/// Reading a closed stream line by line until end of stream yields exactly
/// its contents split into lines, in their original order.
pub proof fn lemma_harvest_is_lines(s: Seq<char>)
    ensures
        harvest(s) == lines_of(s),
        concat_lines(harvest(s)) == s,
    decreases s.len(),
{
    lemma_lines_concat(s);
    if s.len() == 0 {
    } else if find_newline(s) < s.len() {
        lemma_harvest_is_lines(s.skip((find_newline(s) + 1) as int));
    } else {
        lemma_harvest_is_lines(Seq::empty());
        assert(harvest(s) =~= lines_of(s));
    }
}

/// A stream that produced exactly one newline-terminated line and then
/// closed: the first read yields that line, the next read is at end of
/// stream.
pub proof fn lemma_single_line_then_end(s: Seq<char>)
    requires
        s.len() > 0,
        find_newline(s) == s.len() - 1,
    ensures
        next_line_result(s, true) == Some(s),
        at_end(next_line_rest(s, true), true),
        next_line_result(next_line_rest(s, true), true) is None,
{
    assert(s.take(s.len() as int) =~= s);
    assert(s.skip(s.len() as int) =~= Seq::<char>::empty());
}

/// One result of polling a buffered output stream.
#[derive(Debug)]
pub enum ReadStep {
    /// One line of output, newline included unless the stream closed in the
    /// middle of a line.
    Line(String),
    /// The writer has closed the stream and every buffered byte was handed
    /// out already.
    EndOfStream,
    /// No complete line is buffered yet, but the stream is still open.
    Pending,
}

/// How one buffered read relates the buffer before the call, the buffer
/// after it, and the step it returned.
pub open spec fn buffer_step(pre: OutputBuffer, post: OutputBuffer, r: ReadStep) -> bool {
    &&& post.is_closed() == pre.is_closed()
    &&& match r {
        ReadStep::Line(l) => {
            &&& next_line_result(pre.contents(), pre.is_closed()) == Some(l@)
            &&& post.contents() == next_line_rest(pre.contents(), pre.is_closed())
        },
        ReadStep::EndOfStream => {
            &&& at_end(pre.contents(), pre.is_closed())
            &&& post.contents() == pre.contents()
        },
        ReadStep::Pending => {
            &&& next_line_result(pre.contents(), pre.is_closed()) is None
            &&& !at_end(pre.contents(), pre.is_closed())
            &&& post.contents() == pre.contents()
        },
    }
}

/// The buffered output of one child process: the text received from its
/// pipe that no read has consumed yet, and whether the pipe has been closed
/// by its writer.
#[derive(Debug)]
pub struct OutputBuffer {
    text: String,
    closed: bool,
}

impl OutputBuffer {
    /// The characters received and not yet consumed.
    pub closed spec fn contents(self) -> Seq<char> {
        self.text@
    }

    /// Whether the writer has closed the stream.
    pub closed spec fn is_closed(self) -> bool {
        self.closed
    }

    /// An empty buffer on a still-open stream.
    pub fn new() -> (b: OutputBuffer)
        ensures
            b.contents().len() == 0,
            !b.is_closed(),
    {
        OutputBuffer { text: String::new(), closed: false }
    }

    /// Appends text newly arrived from the pipe.
    pub fn push_text(&mut self, chunk: &str)
        requires
            !old(self).is_closed(),
        ensures
            final(self).contents() == old(self).contents() + chunk@,
            !final(self).is_closed(),
    {
        self.text.append(chunk);
    }

    /// Whether the writer is known to have closed the pipe.
    pub fn is_closed_now(&self) -> (r: bool)
        ensures
            r == self.is_closed(),
    {
        self.closed
    }

    /// Records that the writer has closed the pipe: no further text arrives.
    pub fn close(&mut self)
        ensures
            final(self).contents() == old(self).contents(),
            final(self).is_closed(),
    {
        self.closed = true;
    }

    /// Takes the next buffered line: the prefix through the first newline,
    /// or the whole remainder once the stream has closed; reports end of
    /// stream when a closed buffer is empty, and asks for more input while
    /// an open buffer holds no complete line.
    pub fn next_line(&mut self) -> (r: ReadStep)
        ensures
            buffer_step(*old(self), *final(self), r),
    {
        let found = scan_newline(self.text.as_str());
        match found {
            Some(i) => {
                let n = self.text.as_str().unicode_len();
                let line = String::from_str(self.text.as_str().substring_char(0, i + 1));
                let rest = String::from_str(self.text.as_str().substring_char(i + 1, n));
                proof {
                    assert(line@ =~= self.text@.take(i + 1));
                    assert(rest@ =~= self.text@.skip(i + 1));
                }
                self.text = rest;
                ReadStep::Line(line)
            },
            None => {
                if self.closed {
                    let n = self.text.as_str().unicode_len();
                    if n == 0 {
                        ReadStep::EndOfStream
                    } else {
                        let line = self.text.clone();
                        self.text = String::new();
                        ReadStep::Line(line)
                    }
                } else {
                    ReadStep::Pending
                }
            },
        }
    }

    /// Hands out everything currently buffered without waiting for more,
    /// or nothing when the buffer is empty; the buffer is empty afterwards.
    pub fn drain(&mut self) -> (r: Option<String>)
        ensures
            final(self).is_closed() == old(self).is_closed(),
            final(self).contents().len() == 0,
            match r {
                Some(all) => drain_result(old(self).contents()) == Some(all@),
                None => drain_result(old(self).contents()) is None,
            },
    {
        let n = self.text.as_str().unicode_len();
        if n == 0 {
            None
        } else {
            let all = self.text.clone();
            self.text = String::new();
            Some(all)
        }
    }
}

/// Position of the first newline in `s`, scanned left to right.
fn scan_newline(s: &str) -> (r: Option<usize>)
    ensures
        match r {
            Some(i) => find_newline(s@) == i as int && i < s@.len(),
            None => find_newline(s@) == s@.len(),
        },
{
    let n = s.unicode_len();
    let mut i: usize = 0;
    while i < n
        invariant
            i <= n,
            n == s@.len(),
            forall|k: int| 0 <= k < i ==> s@[k] != '\n',
        decreases n - i,
    {
        let c = s.get_char(i);
        if c == '\n' {
            proof {
                lemma_find_newline_at(s@, i as int);
            }
            return Some(i);
        }
        i += 1;
    }
    proof {
        lemma_find_newline_none(s@);
    }
    None
}

} // verus!
