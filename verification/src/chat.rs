//! The chat view's state: the transcript, the running tool calls, the
//! streamed reply, and the one-line input with its byte cursor.

use vstd::prelude::*;
use crate::markdown::{strings_view, wrap_spec, wrap_text};
use crate::text::{
    char_index, char_width, chars_of, is_boundary, lemma_boundary_index, lemma_char_index,
    lemma_take_full, lemma_take_le, lemma_take_monotone, lemma_take_step, lemma_utf8_len_push,
    str_byte_len, string_insert, string_remove, utf8_len, utf8_width,
};

verus! {

/// Who wrote a chat message.
#[derive(Debug, Clone, Copy, PartialEq, Eq, Structural)]
pub enum MessageRole {
    User,
    Assistant,
    System,
}

/// One entry of the transcript.
#[derive(Debug, Clone)]
pub struct ChatMessage {
    pub role: MessageRole,
    pub content: String,
}

/// A tool call the agent has started in the current reply.
#[derive(Debug, Clone)]
pub struct ToolCallDisplay {
    pub title: String,
    pub id: String,
    pub status: String,
}

/// State of the chat view. `input_cursor` is a byte offset into `input`.
pub struct ChatState {
    pub messages: Vec<ChatMessage>,
    pub tool_calls: Vec<ToolCallDisplay>,
    pub input: String,
    pub input_cursor: usize,
    pub streaming_text: String,
    pub is_streaming: bool,
}

/// The input line as text and the character position of the cursor.
pub type Editor = (Seq<char>, int);

/// Typing `ch` inserts it at the cursor and moves the cursor past it.
pub open spec fn ed_insert(e: Editor, ch: char) -> Editor {
    (e.0.insert(e.1, ch), e.1 + 1)
}

/// Backspace removes the character before the cursor, if there is one.
pub open spec fn ed_backspace(e: Editor) -> Editor {
    if e.1 > 0 {
        (e.0.remove(e.1 - 1), e.1 - 1)
    } else {
        e
    }
}

/// Delete removes the character under the cursor, if there is one.
pub open spec fn ed_delete(e: Editor) -> Editor {
    if e.1 < e.0.len() {
        (e.0.remove(e.1), e.1)
    } else {
        e
    }
}

/// Left moves the cursor back one character, stopping at the start.
pub open spec fn ed_left(e: Editor) -> Editor {
    if e.1 > 0 {
        (e.0, e.1 - 1)
    } else {
        e
    }
}

/// Right moves the cursor forward one character, stopping at the end.
pub open spec fn ed_right(e: Editor) -> Editor {
    if e.1 < e.0.len() {
        (e.0, e.1 + 1)
    } else {
        e
    }
}

/// Home moves the cursor to the start of the line.
pub open spec fn ed_home(e: Editor) -> Editor {
    (e.0, 0)
}

/// End moves the cursor past the last character.
pub open spec fn ed_end(e: Editor) -> Editor {
    (e.0, e.0.len() as int)
}

/// The cursor of an editor lies within its text.
pub open spec fn ed_valid(e: Editor) -> bool {
    0 <= e.1 <= e.0.len()
}

/// `post` is `pre` with one more message, from `role`, reading `text`.
pub open spec fn pushed(pre: Seq<ChatMessage>, post: Seq<ChatMessage>, role: MessageRole, text: Seq<char>) -> bool {
    &&& post.len() == pre.len() + 1
    &&& post.take(pre.len() as int) == pre
    &&& post.last().role == role
    &&& post.last().content@ == text
}

/// A chat state with nothing in it.
pub open spec fn is_fresh(c: ChatState) -> bool {
    &&& c.messages@.len() == 0
    &&& c.tool_calls@.len() == 0
    &&& c.input@.len() == 0
    &&& c.input_cursor == 0
    &&& c.streaming_text@.len() == 0
    &&& !c.is_streaming
}

/// `post` is `pre` once the streamed reply is finished: a non-empty reply
/// has become the assistant's message, nothing streams, no tool call runs,
/// and the input line is untouched.
pub open spec fn finalized(pre: ChatState, post: ChatState) -> bool {
    &&& pre.streaming_text@.len() > 0 ==> pushed(
        pre.messages@,
        post.messages@,
        MessageRole::Assistant,
        pre.streaming_text@,
    )
    &&& pre.streaming_text@.len() == 0 ==> post.messages@ == pre.messages@
    &&& post.streaming_text@.len() == 0
    &&& !post.is_streaming
    &&& post.tool_calls@.len() == 0
    &&& post.input@ == pre.input@
    &&& post.input_cursor == pre.input_cursor
}

impl ChatState {
    /// The cursor sits on a character boundary of the input.
    pub open spec fn wf(&self) -> bool {
        is_boundary(self.input@, self.input_cursor as int)
    }

    /// Character position of the cursor.
    pub open spec fn cursor_pos(&self) -> int {
        char_index(self.input@, self.input_cursor as int)
    }

    pub open spec fn editor(&self) -> Editor {
        (self.input@, self.cursor_pos())
    }

    /// Everything but the input line is the same in `self` and `other`.
    pub open spec fn same_transcript(&self, other: &ChatState) -> bool {
        &&& self.messages@ == other.messages@
        &&& self.tool_calls@ == other.tool_calls@
        &&& self.streaming_text@ == other.streaming_text@
        &&& self.is_streaming == other.is_streaming
    }

    /// The input line is the same in `self` and `other`.
    pub open spec fn same_input(&self, other: &ChatState) -> bool {
        &&& self.input@ == other.input@
        &&& self.input_cursor == other.input_cursor
    }

    pub fn new() -> (s: Self)
        ensures
            s.wf(),
            is_fresh(s),
    {
        let s = Self {
            messages: Vec::new(),
            tool_calls: Vec::new(),
            input: String::new(),
            input_cursor: 0,
            streaming_text: String::new(),
            is_streaming: false,
        };
        proof {
            lemma_char_index(s.input@, 0);
        }
        s
    }

    pub fn push_user_message(&mut self, content: String)
        ensures
            final(self).messages@ == old(self).messages@.push(
                ChatMessage { role: MessageRole::User, content },
            ),
            final(self).tool_calls@ == old(self).tool_calls@,
            final(self).streaming_text@ == old(self).streaming_text@,
            final(self).is_streaming == old(self).is_streaming,
            final(self).same_input(old(self)),
    {
        self.messages.push(ChatMessage { role: MessageRole::User, content });
    }

    /// Ends the streamed reply: a non-empty reply joins the transcript as the
    /// assistant's message, the running tool calls are dropped.
    pub fn finalize_stream(&mut self)
        ensures
            finalized(*old(self), *final(self)),
    {
        if !self.streaming_text.as_str().is_empty() {
            let mut text = String::new();
            std::mem::swap(&mut text, &mut self.streaming_text);
            self.messages.push(ChatMessage { role: MessageRole::Assistant, content: text });
            assert(self.messages@.take(old(self).messages@.len() as int) =~= old(self).messages@);
        }
        self.is_streaming = false;
        self.tool_calls.clear();
    }

    /// Inserts `ch` at the cursor. Inputs whose new length would pass
    /// `isize::MAX` bytes make the underlying `String` panic; `requires` leaves
    /// them out.
    pub fn input_insert(&mut self, ch: char)
        requires
            old(self).wf(),
            utf8_len(old(self).input@) + char_width(ch) <= isize::MAX,
        ensures
            final(self).wf(),
            final(self).editor() == ed_insert(old(self).editor(), ch),
            final(self).input_cursor == old(self).input_cursor + char_width(ch),
            final(self).same_transcript(old(self)),
    {
        let ghost s0 = self.input@;
        let ghost k = self.cursor_pos();
        proof {
            lemma_boundary_index(s0, self.input_cursor as int);
        }
        string_insert(&mut self.input, self.input_cursor, ch);
        let w = utf8_width(ch);
        proof {
            let s1 = self.input@;
            assert(s1.take(k + 1) =~= s0.take(k).push(ch));
            lemma_utf8_len_push(s0.take(k), ch);
            lemma_char_index(s1, k + 1);
        }
        self.input_cursor = self.input_cursor + w;
    }

    /// Removes the character before the cursor, if there is one.
    pub fn input_backspace(&mut self)
        requires
            old(self).wf(),
        ensures
            final(self).wf(),
            final(self).editor() == ed_backspace(old(self).editor()),
            final(self).same_transcript(old(self)),
    {
        if self.input_cursor > 0 {
            let ghost s0 = self.input@;
            let chars = chars_of(self.input.as_str());
            let k = char_index_in(&chars, self.input_cursor);
            proof {
                assert(k > 0) by {
                    if k == 0 {
                        assert(s0.take(0) =~= Seq::<char>::empty());
                    }
                }
                lemma_take_step(s0, k - 1);
            }
            let prev = utf8_width(chars[k - 1]);
            self.input_cursor = self.input_cursor - prev;
            proof {
                lemma_char_index(s0, k - 1);
                lemma_take_le(s0, k as int);
            }
            let _ = string_remove(&mut self.input, self.input_cursor);
            proof {
                let s1 = self.input@;
                assert(s1.take(k - 1) =~= s0.take(k - 1));
                lemma_char_index(s1, k - 1);
            }
        }
    }

    /// Removes the character under the cursor, if there is one.
    pub fn input_delete(&mut self)
        requires
            old(self).wf(),
        ensures
            final(self).wf(),
            final(self).editor() == ed_delete(old(self).editor()),
            final(self).same_transcript(old(self)),
    {
        let ghost s0 = self.input@;
        let ghost k = self.cursor_pos();
        let len = str_byte_len(self.input.as_str());
        proof {
            lemma_boundary_index(s0, self.input_cursor as int);
            lemma_take_full(s0);
        }
        if self.input_cursor < len {
            proof {
                if k >= s0.len() {
                    assert(k == s0.len());
                }
            }
            let _ = string_remove(&mut self.input, self.input_cursor);
            proof {
                let s1 = self.input@;
                assert(s1.take(k) =~= s0.take(k));
                lemma_char_index(s1, k);
            }
        } else {
            proof {
                if k < s0.len() {
                    lemma_take_monotone(s0, k, s0.len() as int);
                }
            }
        }
    }

    /// Moves the cursor back over one character, if there is one before it.
    pub fn input_left(&mut self)
        requires
            old(self).wf(),
        ensures
            final(self).wf(),
            final(self).editor() == ed_left(old(self).editor()),
            final(self).same_transcript(old(self)),
    {
        if self.input_cursor > 0 {
            let ghost s0 = self.input@;
            let chars = chars_of(self.input.as_str());
            let k = char_index_in(&chars, self.input_cursor);
            proof {
                assert(k > 0) by {
                    if k == 0 {
                        assert(s0.take(0) =~= Seq::<char>::empty());
                    }
                }
                lemma_take_step(s0, k - 1);
            }
            let prev = utf8_width(chars[k - 1]);
            self.input_cursor = self.input_cursor - prev;
            proof {
                lemma_char_index(s0, k - 1);
            }
        } else {
            proof {
                lemma_boundary_index(self.input@, 0);
                lemma_char_index(self.input@, 0);
                let k = self.cursor_pos();
                if k > 0 {
                    lemma_take_monotone(self.input@, 0, k);
                }
            }
        }
    }

    /// Moves the cursor forward over one character, if there is one under it.
    pub fn input_right(&mut self)
        requires
            old(self).wf(),
        ensures
            final(self).wf(),
            final(self).editor() == ed_right(old(self).editor()),
            final(self).same_transcript(old(self)),
    {
        let ghost s0 = self.input@;
        let ghost k0 = self.cursor_pos();
        let len = str_byte_len(self.input.as_str());
        proof {
            lemma_boundary_index(s0, self.input_cursor as int);
            lemma_take_full(s0);
        }
        if self.input_cursor < len {
            let chars = chars_of(self.input.as_str());
            let k = char_index_in(&chars, self.input_cursor);
            proof {
                assert(k < s0.len()) by {
                    if k >= s0.len() {
                        assert(k == s0.len());
                    }
                }
                lemma_take_step(s0, k as int);
                lemma_take_le(s0, k + 1);
            }
            let next = utf8_width(chars[k]);
            self.input_cursor = self.input_cursor + next;
            proof {
                lemma_char_index(s0, k + 1);
            }
        } else {
            proof {
                if k0 < s0.len() {
                    lemma_take_monotone(s0, k0, s0.len() as int);
                }
            }
        }
    }

    /// Moves the cursor to the start of the input.
    pub fn input_home(&mut self)
        requires
            old(self).wf(),
        ensures
            final(self).wf(),
            final(self).editor() == ed_home(old(self).editor()),
            final(self).input_cursor == 0,
            final(self).same_transcript(old(self)),
    {
        self.input_cursor = 0;
        proof {
            lemma_char_index(self.input@, 0);
        }
    }

    /// Moves the cursor past the end of the input.
    pub fn input_end(&mut self)
        requires
            old(self).wf(),
        ensures
            final(self).wf(),
            final(self).editor() == ed_end(old(self).editor()),
            final(self).input_cursor == utf8_len(old(self).input@),
            final(self).same_transcript(old(self)),
    {
        self.input_cursor = str_byte_len(self.input.as_str());
        proof {
            lemma_take_full(self.input@);
            lemma_char_index(self.input@, self.input@.len() as int);
        }
    }

    /// Hands out the input and leaves an empty line with the cursor at 0.
    pub fn take_input(&mut self) -> (taken: String)
        ensures
            taken@ == old(self).input@,
            final(self).input@.len() == 0,
            final(self).input_cursor == 0,
            final(self).wf(),
            final(self).same_transcript(old(self)),
    {
        self.input_cursor = 0;
        let mut taken = String::new();
        std::mem::swap(&mut taken, &mut self.input);
        proof {
            lemma_char_index(self.input@, 0);
        }
        taken
    }
}

/// Wraps a system note to `width` bytes, as paragraphs are wrapped.
pub fn word_wrap(text: &str, width: usize) -> (lines: Vec<String>)
    ensures
        strings_view(lines@) == wrap_spec(text@, width as nat),
{
    wrap_text(text, width)
}

/// The character position whose byte offset in `chars` is `b`.
pub fn char_index_in(chars: &Vec<char>, b: usize) -> (k: usize)
    requires
        is_boundary(chars@, b as int),
    ensures
        k == char_index(chars@, b as int),
        0 <= k <= chars@.len(),
        utf8_len(chars@.take(k as int)) == b,
{
    let ghost s = chars@;
    proof {
        lemma_boundary_index(s, b as int);
    }
    let ghost kb = char_index(s, b as int);
    let n = chars.len();
    let mut acc: usize = 0;
    let mut k: usize = 0;
    proof {
        assert(s.take(0) =~= Seq::<char>::empty());
    }
    while acc < b
        invariant
            0 <= k <= kb <= s.len(),
            s == chars@,
            n == s.len(),
            acc == utf8_len(s.take(k as int)),
            acc <= b,
            utf8_len(s.take(kb)) == b,
        decreases kb - k,
    {
        proof {
            if kb == k {
                assert(false);
            }
            lemma_take_step(s, k as int);
            lemma_take_monotone(s, k + 1, kb);
        }
        acc = acc + utf8_width(chars[k]);
        k = k + 1;
    }
    proof {
        if k < kb {
            lemma_take_monotone(s, k as int, kb);
        }
        lemma_char_index(s, k as int);
    }
    k
}

/// The editor after typing the characters `s`, one after the other.
pub open spec fn typed(e: Editor, s: Seq<char>) -> Editor
    decreases s.len(),
{
    if s.len() == 0 {
        e
    } else {
        typed(ed_insert(e, s[0]), s.drop_first())
    }
}

proof fn lemma_typed_at_end(t: Seq<char>, s: Seq<char>)
    ensures
        typed((t, t.len() as int), s) == (t + s, (t.len() + s.len()) as int),
    decreases s.len(),
{
    if s.len() == 0 {
        assert(t + s =~= t);
    } else {
        assert(t.insert(t.len() as int, s[0]) =~= t.push(s[0]));
        lemma_typed_at_end(t.push(s[0]), s.drop_first());
        assert(t.push(s[0]) + s.drop_first() =~= t + s);
    }
}

/// Typing a text into an empty line leaves exactly that text, with the
/// cursor at its end.
pub proof fn law_typing_builds_text(s: Seq<char>)
    ensures
        typed((Seq::empty(), 0), s) == (s, s.len() as int),
{
    lemma_typed_at_end(Seq::empty(), s);
    assert(Seq::<char>::empty() + s =~= s);
}

/// Backspace right after typing a character gives back the line and the
/// cursor as they were.
pub proof fn law_backspace_undoes_insert(e: Editor, ch: char)
    requires
        ed_valid(e),
    ensures
        ed_backspace(ed_insert(e, ch)) == e,
{
    assert(e.0.insert(e.1, ch).remove(e.1) =~= e.0);
}

/// Left then right, from a cursor that is not at the start, comes back to
/// it; right then left likewise from a cursor not at the end.
pub proof fn law_left_right_inverse(e: Editor)
    requires
        ed_valid(e),
    ensures
        e.1 > 0 ==> ed_right(ed_left(e)) == e,
        e.1 < e.0.len() ==> ed_left(ed_right(e)) == e,
{
}

/// Delete after a step left removes what Backspace removes, when there is
/// a character before the cursor.
pub proof fn law_left_delete_is_backspace(e: Editor)
    requires
        ed_valid(e),
        e.1 > 0,
    ensures
        ed_delete(ed_left(e)) == ed_backspace(e),
{
}

/// Every editing step keeps the cursor within the line, and only typing,
/// Backspace and Delete change the text.
pub proof fn law_edits_keep_cursor_valid(e: Editor, ch: char)
    requires
        ed_valid(e),
    ensures
        ed_valid(ed_insert(e, ch)),
        ed_valid(ed_backspace(e)),
        ed_valid(ed_delete(e)),
        ed_valid(ed_left(e)),
        ed_valid(ed_right(e)),
        ed_valid(ed_home(e)),
        ed_valid(ed_end(e)),
        ed_insert(e, ch).0.len() == e.0.len() + 1,
        ed_left(e).0 == e.0,
        ed_right(e).0 == e.0,
        ed_home(e).0 == e.0,
        ed_end(e).0 == e.0,
{
}

/// In a consistent chat state the byte cursor is the UTF-8 length of the
/// characters before the cursor position, which lies within the input.
pub proof fn law_cursor_is_byte_offset(c: ChatState)
    requires
        c.wf(),
    ensures
        ed_valid(c.editor()),
        c.input_cursor == utf8_len(c.input@.take(c.cursor_pos())),
        c.input_cursor <= utf8_len(c.input@),
{
    lemma_boundary_index(c.input@, c.input_cursor as int);
}

} // verus!
