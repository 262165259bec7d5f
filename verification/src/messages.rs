//! The message log: an append-only sequence of colored narration lines.

use crate::color::Color;
use vstd::prelude::*;

verus! {

/// One narration line and the color it should be rendered in.
pub struct Message {
    pub text: String,
    pub color: Color,
}

/// `log1` is `log0` with exactly one line appended, with the given text
/// and color.
pub open spec fn pushed(log0: Seq<Message>, log1: Seq<Message>, text: Seq<char>, color: Color) -> bool {
    &&& log1.len() == log0.len() + 1
    &&& log1.subrange(0, log0.len() as int) == log0
    &&& log1[log0.len() as int].text@ == text
    &&& log1[log0.len() as int].color == color
}

/// `log1` is `log0` with exactly two lines appended, in order.
pub open spec fn pushed2(
    log0: Seq<Message>,
    log1: Seq<Message>,
    text1: Seq<char>,
    color1: Color,
    text2: Seq<char>,
    color2: Color,
) -> bool {
    &&& log1.len() == log0.len() + 2
    &&& log1.subrange(0, log0.len() as int) == log0
    &&& log1[log0.len() as int].text@ == text1
    &&& log1[log0.len() as int].color == color1
    &&& log1[log0.len() as int + 1].text@ == text2
    &&& log1[log0.len() as int + 1].color == color2
}

/// `log1` extends `log0`: every line of `log0` is still there, in
/// place. The log is append-only.
pub open spec fn log_extended(log0: Seq<Message>, log1: Seq<Message>) -> bool {
    log1.len() >= log0.len() && log1.subrange(0, log0.len() as int) == log0
}

/// A log extends itself.
pub proof fn lemma_extended_refl(log: Seq<Message>)
    ensures
        log_extended(log, log),
{
    assert(log.subrange(0, log.len() as int) =~= log);
}

/// Appending one line extends the log.
pub proof fn lemma_pushed_extends(log0: Seq<Message>, log1: Seq<Message>, text: Seq<char>, color: Color)
    requires
        pushed(log0, log1, text, color),
    ensures
        log_extended(log0, log1),
{
}

/// Appending two lines extends the log.
pub proof fn lemma_pushed2_extends(
    log0: Seq<Message>,
    log1: Seq<Message>,
    text1: Seq<char>,
    color1: Color,
    text2: Seq<char>,
    color2: Color,
)
    requires
        pushed2(log0, log1, text1, color1, text2, color2),
    ensures
        log_extended(log0, log1),
{
}

/// A non-empty log extends the same log without its last line.
pub proof fn lemma_drop_last_extended(log: Seq<Message>)
    requires
        log.len() >= 1,
    ensures
        log_extended(log.drop_last(), log),
{
    assert(log.subrange(0, log.drop_last().len() as int) =~= log.drop_last());
}

/// Extension is transitive.
pub proof fn lemma_extended_transitive(a: Seq<Message>, b: Seq<Message>, c: Seq<Message>)
    requires
        log_extended(a, b),
        log_extended(b, c),
    ensures
        log_extended(a, c),
{
    assert forall|i: int| 0 <= i < a.len() implies c[i] == a[i] by {
        assert(b.subrange(0, a.len() as int)[i] == b[i]);
        assert(c.subrange(0, b.len() as int)[i] == c[i]);
    }
    assert(c.subrange(0, a.len() as int) =~= a);
}

/// The user-visible narration of turn outcomes. Lines are only ever
/// appended; a renderer reads them most-recent-first.
pub struct Messages {
    log: Vec<Message>,
}

impl View for Messages {
    type V = Seq<Message>;

    closed spec fn view(&self) -> Seq<Message> {
        self.log@
    }
}

impl Messages {
    pub fn new() -> (m: Messages)
        ensures
            m@ == Seq::<Message>::empty(),
    {
        Messages { log: Vec::new() }
    }

    /// Append one line to the log.
    pub fn add(&mut self, text: String, color: Color)
        ensures
            final(self)@ == old(self)@.push(Message { text, color }),
    {
        self.log.push(Message { text, color });
    }

    pub fn len(&self) -> (n: usize)
        ensures
            n == self@.len(),
    {
        self.log.len()
    }

    pub fn get(&self, i: usize) -> (m: &Message)
        requires
            i < self@.len(),
        ensures
            *m == self@[i as int],
    {
        &self.log[i]
    }
}

} // verus!
