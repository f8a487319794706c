//! Per-thread output buffers shown in the session output view.

use crate::ordered_map::OrderedMap;
use crate::text::{chars_of, lines, lines_of, string_of};
use vstd::prelude::*;

verus! {

/// The kind of an output line, used for styling.
#[derive(Debug, Clone, Copy, PartialEq, Eq, Structural)]
pub enum OutputKind {
    /// A message the user sent.
    User,
}

/// A single display line of session output.
#[derive(Debug, PartialEq, Eq)]
pub struct OutputLine {
    pub kind: OutputKind,
    pub text: String,
}

/// The content of an output line.
pub struct OutputLineView {
    pub kind: OutputKind,
    pub text: Seq<char>,
}

impl View for OutputLine {
    type V = OutputLineView;

    open spec fn view(&self) -> OutputLineView {
        OutputLineView { kind: self.kind, text: self.text@ }
    }
}

/// The displayed form of one line of a user message: `"▶ "` and the line.
pub open spec fn user_line(line: Seq<char>) -> OutputLineView {
    OutputLineView { kind: OutputKind::User, text: seq!['\u{25B6}', ' '] + line }
}

/// The display lines a user message turns into, one per line of text.
pub open spec fn user_message_lines(text: Seq<char>) -> Seq<OutputLineView> {
    lines(text).map_values(|l: Seq<char>| user_line(l))
}

/// The content of a vector of output lines.
pub open spec fn lines_view(v: Seq<OutputLine>) -> Seq<OutputLineView> {
    v.map_values(|l: OutputLine| l@)
}

/// Output lines buffered per thread. Each thread accumulates its own history,
/// which survives navigating away and back.
pub struct SessionOutputBuffer {
    buffers: OrderedMap<Vec<OutputLine>>,
}

impl SessionOutputBuffer {
    /// The buffered lines of each thread that has any.
    pub closed spec fn spec_lines(&self) -> Map<Seq<char>, Seq<OutputLineView>> {
        self.buffers@.map_values(|v: Vec<OutputLine>| lines_view(v@))
    }

    /// The buffered lines of `thread_id` (empty when it has none).
    pub open spec fn spec_lines_for(&self, thread_id: Seq<char>) -> Seq<OutputLineView> {
        if self.spec_lines().contains_key(thread_id) {
            self.spec_lines()[thread_id]
        } else {
            Seq::empty()
        }
    }

    /// An empty buffer.
    pub fn new() -> (r: Self)
        ensures
            r.spec_lines() == Map::<Seq<char>, Seq<OutputLineView>>::empty(),
    {
        let r = SessionOutputBuffer { buffers: OrderedMap::new() };
        assert(r.spec_lines() =~= Map::<Seq<char>, Seq<OutputLineView>>::empty());
        r
    }

    /// The buffered lines of a thread.
    pub fn lines_for(&self, thread_id: &str) -> (r: &[OutputLine])
        ensures
            lines_view(r@) == self.spec_lines_for(thread_id@),
    {
        match self.buffers.get(thread_id) {
            Some(v) => v.as_slice(),
            None => {
                assert(lines_view(Seq::<OutputLine>::empty()) =~= Seq::<OutputLineView>::empty());
                &[]
            },
        }
    }

    /// The number of buffered lines of a thread.
    pub fn line_count(&self, thread_id: &str) -> (r: usize)
        ensures
            r == self.spec_lines_for(thread_id@).len(),
    {
        self.lines_for(thread_id).len()
    }

    /// Appends a user message to a thread's buffer, one display line per line
    /// of `text`; a message without lines changes nothing.
    pub fn push_user_message(&mut self, thread_id: &str, text: &str)
        ensures
            user_message_lines(text@).len() == 0 ==> final(self).spec_lines()
                == old(self).spec_lines(),
            user_message_lines(text@).len() > 0 ==> final(self).spec_lines()
                == old(self).spec_lines().insert(
                thread_id@,
                old(self).spec_lines_for(thread_id@) + user_message_lines(text@),
            ),
    {
        let tc = chars_of(text);
        let ls = lines_of(tc.as_slice());
        if ls.len() == 0 {
            assert(user_message_lines(text@).len() == 0);
            return;
        }
        let ghost before = self.spec_lines_for(thread_id@);
        let ghost old_lines = self.spec_lines();
        let ghost old_map = self.buffers@;
        let mut buf = match self.buffers.remove(thread_id) {
            Some(v) => v,
            None => Vec::new(),
        };
        assert(lines_view(buf@) == before);
        let ghost start = buf@.len();
        let mut i: usize = 0;
        while i < ls.len()
            invariant
                ls@.len() == lines(text@).len(),
                forall|k: int| 0 <= k < ls@.len() ==> #[trigger] ls@[k]@ == lines(text@)[k],
                i <= ls@.len(),
                lines_view(buf@) == before + user_message_lines(text@).take(i as int),
            decreases ls@.len() - i,
        {
            let mut line: Vec<char> = Vec::new();
            line.push('\u{25B6}');
            line.push(' ');
            let mut j: usize = 0;
            let src = &ls[i];
            while j < src.len()
                invariant
                    j <= src@.len(),
                    line@ == seq!['\u{25B6}', ' '] + src@.take(j as int),
                decreases src@.len() - j,
            {
                line.push(src[j]);
                j = j + 1;
                assert(line@ =~= seq!['\u{25B6}', ' '] + src@.take(j as int));
            }
            assert(src@.take(j as int) =~= src@);
            let text_line = string_of(line.as_slice());
            let ghost old_buf = buf@;
            let ol = OutputLine { kind: OutputKind::User, text: text_line };
            assert(ol@ == user_line(ls@[i as int]@));
            buf.push(ol);
            proof {
                assert(lines_view(buf@) =~= lines_view(old_buf).push(ol@));
                assert(user_message_lines(text@)[i as int] == user_line(lines(text@)[i as int]));
                assert(user_message_lines(text@).take(i + 1) =~= user_message_lines(text@).take(
                    i as int,
                ).push(user_line(ls@[i as int]@)));
                assert(lines_view(buf@) =~= before + user_message_lines(text@).take(i + 1));
            }
            i = i + 1;
        }
        assert(user_message_lines(text@).take(i as int) =~= user_message_lines(text@));
        self.buffers.insert(thread_id, buf);
        proof {
            assert(self.spec_lines() =~= old_lines.insert(
                thread_id@,
                before + user_message_lines(text@),
            ));
        }
    }
}

} // verus!
