//! Response framing: one request goes out as a single newline-terminated
//! line; the response is either one bare JSON line, or an event-stream
//! block of lines terminated by an empty line whose payload is the first
//! line prefixed `data: `.

use vstd::prelude::*;
use vstd::string::*;
use crate::text::{trimmed, has_prefix, joined, trim_copy, str_has_prefix, join_strings};

verus! {

/// A line whose trimmed form carries the event-stream payload prefix.
pub open spec fn is_data_line(l: Seq<char>) -> bool {
    has_prefix(trimmed(l), "data: "@)
}

/// The payload of a data line: what follows the prefix in its trimmed form.
pub open spec fn data_line_payload(l: Seq<char>) -> Seq<char> {
    trimmed(l).skip("data: "@.len() as int)
}

/// Some accumulated line is a data line.
pub open spec fn has_data_line(ls: Seq<Seq<char>>) -> bool {
    exists|i: int| 0 <= i < ls.len() && is_data_line(ls[i])
}

/// Index of the first data line, or the length when there is none.
pub open spec fn first_data_index(ls: Seq<Seq<char>>) -> int
    decreases ls.len(),
{
    if ls.len() == 0 {
        0
    } else if is_data_line(ls[0]) {
        0
    } else {
        1 + first_data_index(ls.skip(1))
    }
}

/// The first data line is exactly the first: none stands before it.
proof fn lemma_first_data_run(ls: Seq<Seq<char>>, i: int)
    requires
        0 <= i <= ls.len(),
        forall|k: int| 0 <= k < i ==> !is_data_line(ls[k]),
        i == ls.len() || is_data_line(ls[i]),
    ensures
        first_data_index(ls) == i,
    decreases ls.len(),
{
    if i == 0 {
        if ls.len() != 0 {
            assert(is_data_line(ls[0]));
        }
    } else {
        assert(!is_data_line(ls[0]));
        let t = ls.skip(1);
        assert(forall|k: int| 0 <= k < t.len() ==> t[k] == ls[k + 1]);
        lemma_first_data_run(t, i - 1);
    }
}

/// `l` without its line terminator: one final `"\n"` or `"\r\n"` is
/// removed, nothing else.
pub open spec fn without_line_break(l: Seq<char>) -> Seq<char> {
    if l.len() >= 2 && l[l.len() - 2] == '\r' && l[l.len() - 1] == '\n' {
        l.take(l.len() - 2)
    } else if l.len() >= 1 && l[l.len() - 1] == '\n' {
        l.take(l.len() - 1)
    } else {
        l
    }
}

/// Builds [`without_line_break`].
fn strip_line_break(line: &str) -> (r: String)
    ensures
        r@ == without_line_break(line@),
{
    let n = line.unicode_len();
    if n >= 2 && line.get_char(n - 2) == '\r' && line.get_char(n - 1) == '\n' {
        let r = line.substring_char(0, n - 2);
        proof {
            assert(r@ =~= without_line_break(line@));
        }
        r.to_owned()
    } else if n >= 1 && line.get_char(n - 1) == '\n' {
        let r = line.substring_char(0, n - 1);
        proof {
            assert(r@ =~= without_line_break(line@));
        }
        r.to_owned()
    } else {
        line.to_owned()
    }
}

/// The response extracted from an event-stream block of
/// terminator-stripped lines: the payload of the first `data: ` line, or
/// the lines joined with single line feeds and trimmed when no such line
/// exists.
pub open spec fn block_response(ls: Seq<Seq<char>>) -> Seq<char> {
    if has_data_line(ls) {
        data_line_payload(ls[first_data_index(ls)])
    } else {
        trimmed(joined(ls, "\n"@))
    }
}

/// Extracts [`block_response`] from the accumulated lines.
fn finish_block(lines: &Vec<String>) -> (r: String)
    ensures
        r@ == block_response(lines.deep_view()),
{
    let n = lines.len();
    let mut j: usize = 0;
    while j < n
        invariant
            n == lines@.len(),
            j <= n,
            forall|k: int| 0 <= k < j ==> !is_data_line(lines.deep_view()[k]),
        decreases n - j,
    {
        let t = trim_copy(lines[j].as_str());
        if str_has_prefix(t.as_str(), "data: ") {
            proof {
                assert(lines.deep_view()[j as int] == lines@[j as int]@);
                assert(is_data_line(lines.deep_view()[j as int]));
                lemma_first_data_run(lines.deep_view(), j as int);
                reveal_strlit("data: ");
            }
            let tn = t.unicode_len();
            let payload = t.as_str().substring_char(6, tn);
            proof {
                assert(payload@ =~= data_line_payload(lines.deep_view()[j as int]));
            }
            return payload.to_owned();
        }
        j = j + 1;
    }
    proof {
        assert(!has_data_line(lines.deep_view()));
    }
    let joined_lines = join_strings(lines, "\n");
    trim_copy(joined_lines.as_str())
}

/// The cause reported when the child closes its output stream before the
/// response is complete.
pub open spec fn spec_stream_closed_cause() -> Seq<char> {
    "stream closed"@
}

/// Accumulates the lines of one response being read from a child.
pub struct BlockReader {
    lines: Vec<String>,
}

impl BlockReader {
    /// The lines accepted so far, without their terminators, in order.
    pub closed spec fn lines_view(self) -> Seq<Seq<char>> {
        self.lines.deep_view()
    }

    /// A reader with no line accepted yet.
    pub fn new() -> (r: Self)
        ensures
            r.lines_view() == Seq::<Seq<char>>::empty(),
    {
        let r = BlockReader { lines: Vec::new() };
        proof {
            assert(r.lines_view() =~= Seq::<Seq<char>>::empty());
        }
        r
    }

    /// Feeds the next read from the child's output: `Some` line while the
    /// stream is open, `None` once the far end closed it. Returns `None`
    /// while more lines are needed; the completed response when the very
    /// first non-empty line opens a JSON object or an empty line ends the
    /// block; and the close cause as an error when the stream closed
    /// before the response was complete.
    pub fn push_line(&mut self, line: Option<&str>) -> (r: Option<Result<String, String>>)
        ensures
            line is None ==> (r matches Some(rr) && rr is Err
                && rr->Err_0@ == spec_stream_closed_cause()
                && *final(self) == *old(self)),
            line matches Some(l) ==> (trimmed(l@).len() == 0 ==> (r matches Some(rr)
                && rr is Ok && rr->Ok_0@ == block_response(old(self).lines_view())
                && *final(self) == *old(self))),
            line matches Some(l) ==> (trimmed(l@).len() > 0 && old(self).lines_view().len() == 0
                && trimmed(l@)[0] == '{' ==> (r matches Some(rr)
                && rr is Ok && rr->Ok_0@ == trimmed(l@)
                && *final(self) == *old(self))),
            line matches Some(l) ==> (trimmed(l@).len() > 0 && !(old(self).lines_view().len() == 0
                && trimmed(l@)[0] == '{') ==> r is None
                && final(self).lines_view()
                    == old(self).lines_view().push(without_line_break(l@))),
    {
        match line {
            None => Some(Err("stream closed".to_owned())),
            Some(l) => {
                let t = trim_copy(l);
                let tn = t.unicode_len();
                if tn == 0 {
                    Some(Ok(finish_block(&self.lines)))
                } else if self.lines.len() == 0 && t.as_str().get_char(0) == '{' {
                    proof {
                        assert(old(self).lines_view() =~= Seq::<Seq<char>>::empty());
                    }
                    Some(Ok(t))
                } else {
                    let stripped = strip_line_break(l);
                    self.lines.push(stripped);
                    proof {
                        assert(self.lines_view()
                            =~= old(self).lines_view().push(without_line_break(l@)));
                    }
                    None
                }
            },
        }
    }
}

/// The wire form of one outgoing request: the message followed by a single
/// line feed.
pub fn outgoing_frame(message: &str) -> (r: String)
    ensures
        r@ == message@.push('\n'),
{
    let mut r = message.to_owned();
    r.append("\n");
    proof {
        reveal_strlit("\n");
        assert(r@ =~= message@.push('\n'));
    }
    r
}

} // verus!
