//! Structured error chains and their display rendering.
//!
//! A failure is reported as an ordered chain of messages: a root message
//! followed by the messages of its causes, outermost first. The chain is
//! immutable once handed out and is never stored in the session.

use vstd::prelude::*;
use vstd::string::StringExecFns;

verus! {

/// Rendering cap: at most this many causes are written out after the root
/// message. The chain itself is not truncated; the cap is a defensive
/// design choice of the reporter so that a pathological chain cannot
/// produce an unbounded display string.
pub const MAX_RENDERED_CAUSES: usize = 64;

/// An ordered failure chain: the root message first, then the messages of
/// its causes, outermost first.
#[derive(Debug)]
pub struct ErrorChain {
    /// The messages of the chain; the first entry is the root message.
    pub messages: Vec<String>,
}

impl View for ErrorChain {
    type V = Seq<Seq<char>>;

    open spec fn view(&self) -> Seq<Seq<char>> {
        self.messages@.map_values(|s: String| s@)
    }
}

impl ErrorChain {
    /// A chain holds at least its root message.
    pub open spec fn wf(&self) -> bool {
        self@.len() >= 1
    }

    /// Starts a chain from its root message.
    pub fn new(root: String) -> (e: ErrorChain)
        ensures
            e@ =~= seq![root@],
            e.wf(),
    {
        let mut messages: Vec<String> = Vec::new();
        messages.push(root);
        ErrorChain { messages }
    }

    /// Appends the message of one more cause.
    pub fn push_cause(&mut self, message: String)
        ensures
            final(self)@ =~= old(self)@.push(message@),
            old(self).wf() ==> final(self).wf(),
    {
        self.messages.push(message);
    }
}

/// One rendered cause line.
pub open spec fn cause_line(m: Seq<char>) -> Seq<char> {
    "\n  caused by: "@ + m
}

/// The rendered cause lines for the cause messages `ms`, in order.
pub open spec fn causes_text(ms: Seq<Seq<char>>) -> Seq<char>
    decreases ms.len(),
{
    if ms.len() == 0 {
        Seq::empty()
    } else {
        causes_text(ms.drop_last()) + cause_line(ms.last())
    }
}

/// The causes of a chain that the reporter renders: all of them, up to
/// [`MAX_RENDERED_CAUSES`].
pub open spec fn rendered_causes(ms: Seq<Seq<char>>) -> Seq<Seq<char>> {
    if ms.len() <= MAX_RENDERED_CAUSES + 1 {
        ms.drop_first()
    } else {
        ms.subrange(1, MAX_RENDERED_CAUSES as int + 1)
    }
}

/// The full display string of a chain: `"Error: "` and the root message,
/// then one line per rendered cause.
pub open spec fn format_chain(ms: Seq<Seq<char>>) -> Seq<char>
    recommends
        ms.len() >= 1,
{
    "Error: "@ + ms[0] + causes_text(rendered_causes(ms))
}

/// Renders a failure chain for display, exactly as [`format_chain`] states.
pub fn show_errors(e: &ErrorChain) -> (r: String)
    requires
        e.wf(),
    ensures
        r@ == format_chain(e@),
{
    let mut s = String::from_str("Error: ");
    s.append(e.messages[0].as_str());
    let mut count: usize = e.messages.len() - 1;
    if count > MAX_RENDERED_CAUSES {
        count = MAX_RENDERED_CAUSES;
    }
    let ghost rendered = rendered_causes(e@);
    proof {
        assert(rendered.len() == count);
        assert(rendered.take(0) =~= Seq::empty());
        assert(s@ =~= "Error: "@ + e@[0] + causes_text(rendered.take(0)));
    }
    let mut i: usize = 0;
    while i < count
        invariant
            i <= count,
            count <= MAX_RENDERED_CAUSES,
            e.wf(),
            count + 1 <= e.messages@.len(),
            rendered == rendered_causes(e@),
            rendered.len() == count,
            forall|j: int| 0 <= j < count ==> rendered[j] == e.messages@[j + 1]@,
            s@ == "Error: "@ + e@[0] + causes_text(rendered.take(i as int)),
        decreases count - i,
    {
        s.append("\n  caused by: ");
        s.append(e.messages[i + 1].as_str());
        proof {
            assert(rendered.take(i + 1).drop_last() =~= rendered.take(i as int));
            assert(rendered.take(i + 1).last() == rendered[i as int]);
            assert(s@ =~= "Error: "@ + e@[0] + causes_text(rendered.take(i + 1)));
        }
        i += 1;
    }
    proof {
        assert(rendered.take(count as int) =~= rendered);
    }
    s
}

} // verus!
