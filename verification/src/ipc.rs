//! Messages between instances: one line of text each.

use vstd::prelude::*;

use crate::text::{chars_of, joined, slice_of, string_of, text_pair};

verus! {

/// Where the next line of `s` from `from` on ends.
pub open spec fn line_end(s: Seq<char>, from: int) -> Option<int>
    decreases s.len() - from,
{
    if from >= s.len() {
        None
    } else if s[from] == '\n' {
        Some(from)
    } else {
        line_end(s, from + 1)
    }
}

pub proof fn lemma_line_end(s: Seq<char>, from: int)
    ensures
        match line_end(s, from) {
            Some(p) => from <= p < s.len() && s[p] == '\n' && forall|q: int|
                from <= q < p ==> s[q] != '\n',
            None => forall|q: int| from <= q < s.len() ==> s[q] != '\n',
        },
    decreases s.len() - from,
{
    if from < s.len() && s[from] != '\n' {
        lemma_line_end(s, from + 1);
    }
}

/// The complete lines of `s`, without their line ends.
pub open spec fn lines_of(s: Seq<char>) -> Seq<Seq<char>>
    decreases s.len(),
{
    proof {
        lemma_line_end(s, 0);
    }
    match line_end(s, 0) {
        Some(p) => seq![s.take(p)] + lines_of(s.skip(p + 1)),
        None => Seq::empty(),
    }
}

/// What follows the last complete line of `s`.
pub open spec fn rest_of(s: Seq<char>) -> Seq<char>
    decreases s.len(),
{
    proof {
        lemma_line_end(s, 0);
    }
    match line_end(s, 0) {
        Some(p) => rest_of(s.skip(p + 1)),
        None => s,
    }
}

/// The texts of lines.
pub open spec fn line_views(lines: Seq<String>) -> Seq<Seq<char>> {
    lines.map_values(|l: String| l@)
}

/// Text received from another instance, up to a line that is not complete yet.
pub struct LineBuffer {
    pub pending: Vec<char>,
}

impl LineBuffer {
    /// Nothing has been received.
    pub fn new() -> (r: LineBuffer)
        ensures
            r.pending@ == Seq::<char>::empty(),
    {
        LineBuffer { pending: Vec::new() }
    }

    /// Takes a chunk of text and gives the lines that it completes.
    pub fn receive(&mut self, chunk: &str) -> (r: Vec<String>)
        ensures
            line_views(r@) == lines_of(old(self).pending@ + chunk@),
            final(self).pending@ == rest_of(old(self).pending@ + chunk@),
    {
        let all = joined(&self.pending, &chars_of(chunk));
        let mut lines: Vec<String> = Vec::new();
        let mut start: usize = 0;
        let mut i: usize = 0;
        assert(all@.skip(0) =~= all@);
        assert(line_views(lines@) + lines_of(all@) =~= lines_of(all@));
        while i < all.len()
            invariant
                start <= i <= all@.len(),
                line_views(lines@) + lines_of(all@.skip(start as int)) == lines_of(all@),
                rest_of(all@.skip(start as int)) == rest_of(all@),
                forall|q: int| start <= q < i ==> all@[q] != '\n',
            decreases all@.len() - i,
        {
            if all[i] == '\n' {
                let line = slice_of(&all, start, i);
                let ghost before = lines@;
                let ghost tail = all@.skip(start as int);
                lines.push(string_of(&line));
                proof {
                    lemma_line_end(tail, 0);
                    let p = i - start;
                    assert(tail[p] == '\n');
                    assert(line_end(tail, 0) == Some(p)) by {
                        let q = line_end(tail, 0)->0;
                        if q < p {
                            assert(tail[q] == all@[start + q]);
                        }
                    }
                    assert(tail.take(p) =~= line@);
                    assert(tail.skip(p + 1) =~= all@.skip(i + 1));
                    assert(line_views(lines@) =~= line_views(before).push(line@));
                    assert(line_views(before) + lines_of(tail) =~= line_views(lines@) + lines_of(
                        all@.skip(i + 1),
                    ));
                }
                start = i + 1;
            }
            i = i + 1;
        }
        let ghost tail = all@.skip(start as int);
        proof {
            lemma_line_end(tail, 0);
            if line_end(tail, 0) is Some {
                let q = line_end(tail, 0)->0;
                assert(tail[q] == all@[start + q]);
            }
            assert(line_views(lines@) + lines_of(tail) =~= line_views(lines@));
        }
        let rest = slice_of(&all, start, all.len());
        assert(rest@ =~= tail);
        self.pending = rest;
        lines
    }
}

/// The message that hands an argument over.
pub open spec fn message_of(arg: Option<Seq<char>>) -> Seq<char> {
    let text = match arg {
        Some(a) => a,
        None => Seq::empty(),
    };
    text + "\n"@
}

/// The message that hands the command line over to an instance that is running already.
pub fn handoff_message(arg: Option<String>) -> (r: String)
    ensures
        r@ == message_of(crate::video_meta::text_of(arg)),
        r@ == match arg {
            Some(a) => a@,
            None => Seq::empty(),
        } + "\n"@,
{
    match arg {
        Some(a) => text_pair(&a, "\n"),
        None => {
            let r = text_pair("", "\n");
            proof {
                reveal_strlit("");
            }
            assert(""@ =~= Seq::<char>::empty());
            r
        },
    }
}

// ── laws ────────────────────────────────────────────────────────────────────

/// How the text is cut into chunks does not matter: the lines are those of the whole text.
pub proof fn law_chunks_do_not_matter(s: Seq<char>, t: Seq<char>)
    ensures
        lines_of(s + t) == lines_of(s) + lines_of(rest_of(s) + t),
        rest_of(s + t) == rest_of(rest_of(s) + t),
    decreases s.len(),
{
    lemma_line_end(s, 0);
    lemma_line_end(s + t, 0);
    match line_end(s, 0) {
        Some(p) => {
            assert((s + t)[p] == '\n');
            let q = line_end(s + t, 0)->0;
            if q < p {
                assert((s + t)[q] == s[q]);
            }
            assert(q == p);
            assert((s + t).take(p) =~= s.take(p));
            assert((s + t).skip(p + 1) =~= s.skip(p + 1) + t);
            law_chunks_do_not_matter(s.skip(p + 1), t);
            assert(lines_of(s + t) =~= lines_of(s) + lines_of(rest_of(s) + t));
        },
        None => {
            assert(lines_of(s) + lines_of(s + t) =~= lines_of(s + t));
        },
    }
}

/// A message that was handed over arrives as the one line that it holds.
pub proof fn law_handoff_arrives(arg: Seq<char>)
    requires
        forall|i: int| 0 <= i < arg.len() ==> arg[i] != '\n',
    ensures
        lines_of(arg + "\n"@) == seq![arg],
        rest_of(arg + "\n"@) == Seq::<char>::empty(),
{
    reveal_strlit("\n");
    let s = arg + "\n"@;
    let n = arg.len() as int;
    lemma_line_end(s, 0);
    assert(s[n] == '\n');
    let p = line_end(s, 0)->0;
    if p < n {
        assert(s[p] == arg[p]);
    }
    assert(s.take(n) =~= arg);
    assert(s.skip(n + 1) =~= Seq::empty());
    assert(lines_of(Seq::<char>::empty()) =~= Seq::empty());
    assert(lines_of(s) =~= seq![arg]);
    assert(rest_of(Seq::<char>::empty()) =~= Seq::empty());
}

/// No line holds a line end.
pub proof fn law_lines_hold_no_line_end(s: Seq<char>, k: int, i: int)
    requires
        0 <= k < lines_of(s).len(),
        0 <= i < lines_of(s)[k].len(),
    ensures
        lines_of(s)[k][i] != '\n',
    decreases s.len(),
{
    lemma_line_end(s, 0);
    let p = line_end(s, 0)->0;
    if k > 0 {
        assert(lines_of(s)[k] == lines_of(s.skip(p + 1))[k - 1]);
        law_lines_hold_no_line_end(s.skip(p + 1), k - 1, i);
    }
}

/// Each argument that is handed over arrives as one line of its own, whatever follows it; without
/// an argument the line is empty.
pub proof fn law_each_message_is_one_line(arg: Seq<char>, rest: Seq<char>)
    requires
        !arg.contains('\n'),
    ensures
        lines_of(message_of(Some(arg)) + rest) == seq![arg] + lines_of(rest),
        rest_of(message_of(Some(arg)) + rest) == rest_of(rest),
        lines_of(message_of(None) + rest) == seq![Seq::<char>::empty()] + lines_of(rest),
{
    assert forall|i: int| 0 <= i < arg.len() implies arg[i] != '\n' by {
        assert(arg.contains(arg[i]));
    }
    let none = Seq::<char>::empty();
    law_handoff_arrives(arg);
    law_handoff_arrives(none);
    law_chunks_do_not_matter(message_of(Some(arg)), rest);
    law_chunks_do_not_matter(message_of(None), rest);
    assert(none + rest =~= rest);
}

/// A line is what stands between two line ends; what no line end follows is kept for later.
pub proof fn law_lines_end_at_line_ends(line: Seq<char>, rest: Seq<char>)
    requires
        !line.contains('\n'),
    ensures
        lines_of(line + seq!['\n'] + rest) == seq![line] + lines_of(rest),
        rest_of(line + seq!['\n'] + rest) == rest_of(rest),
        lines_of(line).len() == 0,
        rest_of(line) == line,
{
    reveal_strlit("\n");
    assert("\n"@ =~= seq!['\n']);
    law_each_message_is_one_line(line, rest);
    lemma_line_end(line, 0);
    if let Some(p) = line_end(line, 0) {
        assert(line.contains(line[p]));
    }
}

} // verus!
