//! The persistence format: the text block of one event, the text of a whole
//! snapshot, and a model of the destination under the two write modes.

use vstd::prelude::*;
use crate::record::Event;
use crate::text::{chars_of, string_of};

verus! {

/// Fifty `=` characters.
pub open spec fn separator() -> Seq<char> {
    Seq::new(50, |i: int| '=')
}

/// The block of one event: `[stamp] app`, the summary, the body and the
/// separator, each on a line of its own, then a blank line.
pub open spec fn block_text(e: Event) -> Seq<char> {
    seq!['['] + e.timestamp.text@ + seq![']', ' '] + e.app_name@ + seq!['\n'] + e.summary@ + seq![
        '\n',
    ] + e.body@ + seq!['\n'] + separator() + seq!['\n', '\n']
}

/// The blocks of all events of `s`, in order.
pub open spec fn all_text(s: Seq<Event>) -> Seq<char>
    decreases s.len(),
{
    if s.len() == 0 {
        Seq::empty()
    } else {
        all_text(s.drop_last()) + block_text(s.last())
    }
}

/// The destination after `e`'s block is appended to it.
pub open spec fn after_append(file: Seq<char>, e: Event) -> Seq<char> {
    file + block_text(e)
}

/// The destination after it is truncated and `s` is written to it.
pub open spec fn after_rewrite(file: Seq<char>, s: Seq<Event>) -> Seq<char> {
    all_text(s)
}

fn push_text(out: &mut Vec<char>, s: &str)
    ensures
        final(out)@ == old(out)@ + s@,
{
    let mut v = chars_of(s);
    out.append(&mut v);
}

fn push_separator(out: &mut Vec<char>)
    ensures
        final(out)@ == old(out)@ + separator() + seq!['\n'],
{
    let ghost start = out@;
    let mut k: usize = 0;
    while k < 50
        invariant
            k <= 50,
            out@ == start + Seq::new(k as nat, |i: int| '='),
        decreases 50 - k,
    {
        out.push('=');
        proof {
            assert(start + Seq::new((k + 1) as nat, |i: int| '=') =~= start + Seq::new(
                k as nat,
                |i: int| '=',
            ).push('='));
        }
        k = k + 1;
    }
    out.push('\n');
    proof {
        assert(Seq::new(50, |i: int| '=') =~= separator());
    }
}

fn push_block(out: &mut Vec<char>, e: &Event)
    ensures
        final(out)@ == old(out)@ + block_text(*e),
{
    let ghost start = out@;
    out.push('[');
    push_text(out, e.timestamp.text.as_str());
    out.push(']');
    out.push(' ');
    push_text(out, e.app_name.as_str());
    out.push('\n');
    push_text(out, e.summary.as_str());
    out.push('\n');
    push_text(out, e.body.as_str());
    out.push('\n');
    push_separator(out);
    out.push('\n');
    proof {
        assert(out@ =~= start + block_text(*e));
    }
}

/// The block that is appended to the destination when `e` is captured.
pub fn render_block(e: &Event) -> (r: String)
    ensures
        r@ == block_text(*e),
{
    let mut out: Vec<char> = Vec::new();
    push_block(&mut out, e);
    proof {
        assert(out@ =~= block_text(*e));
    }
    string_of(&out)
}

/// The whole text that the destination holds after a rewrite with `events`.
pub fn render_all(events: &Vec<Event>) -> (r: String)
    ensures
        r@ == all_text(events@),
{
    let mut out: Vec<char> = Vec::new();
    let mut i: usize = 0;
    while i < events.len()
        invariant
            i <= events@.len(),
            out@ == all_text(events@.take(i as int)),
        decreases events@.len() - i,
    {
        push_block(&mut out, &events[i]);
        proof {
            assert(events@.take(i + 1).drop_last() =~= events@.take(i as int));
        }
        i = i + 1;
    }
    proof {
        assert(events@.take(events@.len() as int) =~= events@);
    }
    string_of(&out)
}

/// Rewriting twice with the same snapshot leaves the same text as rewriting
/// once, whatever the destination held before.
pub proof fn lemma_rewrite_idempotent(file: Seq<char>, s: Seq<Event>)
    ensures
        after_rewrite(after_rewrite(file, s), s) == after_rewrite(file, s),
{
}

/// Appending the events one at a time to an empty destination leaves the same
/// text as one rewrite with all of them: the two write modes agree.
pub proof fn lemma_appends_match_rewrite(s: Seq<Event>)
    ensures
        appended_all(Seq::empty(), s) == after_rewrite(Seq::empty(), s),
    decreases s.len(),
{
    if s.len() > 0 {
        lemma_appends_match_rewrite(s.drop_last());
    }
}

/// The destination after each event of `s`, in order, is appended to `file`.
pub open spec fn appended_all(file: Seq<char>, s: Seq<Event>) -> Seq<char>
    decreases s.len(),
{
    if s.len() == 0 {
        file
    } else {
        after_append(appended_all(file, s.drop_last()), s.last())
    }
}

} // verus!
