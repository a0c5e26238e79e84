//! The stream reassembler: a line-driven state machine that gathers the lines
//! of one record between a start line and a terminator line.

use vstd::prelude::*;
use crate::record::line_views;
use crate::text::{
    chars_of, contains_exec, contains_seq, leading_space_len, starts_with_exec, starts_with_seq,
    trim_start_seq,
};

verus! {

pub open spec fn method_call_marker() -> Seq<char> {
    seq!['m', 'e', 't', 'h', 'o', 'd', ' ', 'c', 'a', 'l', 'l']
}

pub open spec fn notify_marker() -> Seq<char> {
    seq!['N', 'o', 't', 'i', 'f', 'y']
}

pub open spec fn terminator_token() -> Seq<char> {
    seq!['i', 'n', 't', '3', '2']
}

/// A line that opens a record: it names both a method call and `Notify`.
pub open spec fn is_start_line(line: Seq<char>) -> bool {
    contains_seq(line, method_call_marker()) && contains_seq(line, notify_marker())
}

/// A line that closes a record: after its leading white space it begins with `int32`.
pub open spec fn is_end_line(line: Seq<char>) -> bool {
    starts_with_seq(trim_start_seq(line), terminator_token())
}

/// The reassembler's state: whether a record is open, and its lines so far.
pub type ReassemblyState = (bool, Seq<Seq<char>>);

pub open spec fn idle_state() -> ReassemblyState {
    (false, Seq::empty())
}

/// One transition: the next state, and the record completed by `line`, if any.
pub open spec fn step(st: ReassemblyState, line: Seq<char>) -> (ReassemblyState, Option<
    Seq<Seq<char>>,
>) {
    if is_start_line(line) {
        ((true, seq![line]), None)
    } else if st.0 {
        if is_end_line(line) {
            (idle_state(), Some(st.1.push(line)))
        } else {
            ((true, st.1.push(line)), None)
        }
    } else {
        (st, None)
    }
}

pub open spec fn emitted(o: Option<Seq<Seq<char>>>) -> Seq<Seq<Seq<char>>> {
    match o {
        Some(r) => seq![r],
        None => Seq::empty(),
    }
}

/// Runs the machine over `lines` from `st`: the final state and the records
/// completed, in stream order.
pub open spec fn run(st: ReassemblyState, lines: Seq<Seq<char>>) -> (ReassemblyState, Seq<
    Seq<Seq<char>>,
>)
    decreases lines.len(),
{
    if lines.len() == 0 {
        (st, Seq::empty())
    } else {
        let (mid, out) = run(st, lines.drop_last());
        let (next, e) = step(mid, lines.last());
        (next, out + emitted(e))
    }
}

/// Gathers the lines of one record at a time; at most one record is open.
pub struct Reassembler {
    in_record: bool,
    lines: Vec<String>,
}

impl Reassembler {
    pub closed spec fn view(&self) -> ReassemblyState {
        (self.in_record, line_views(self.lines@))
    }

    pub fn new() -> (r: Reassembler)
        ensures
            r.view() == idle_state(),
    {
        let r = Reassembler { in_record: false, lines: Vec::new() };
        proof {
            assert(line_views(r.lines@) =~= Seq::<Seq<char>>::empty());
        }
        r
    }

    pub fn in_record(&self) -> (r: bool)
        ensures
            r == self.view().0,
    {
        self.in_record
    }

    /// Takes one line of the stream. Returns the lines of the record that it
    /// completes, if it completes one.
    pub fn feed_line(&mut self, line: &str) -> (r: Option<Vec<String>>)
        ensures
            (final(self).view(), match r {
                Some(v) => Some(line_views(v@)),
                None => None,
            }) == step(old(self).view(), line@),
    {
        let v = chars_of(line);
        let start = is_start(&v);
        if start {
            self.in_record = true;
            self.lines = Vec::new();
            self.lines.push(String::from_str(line));
            proof {
                assert(line_views(self.lines@) =~= seq![line@]);
            }
            None
        } else if self.in_record {
            let ghost before = self.lines@;
            self.lines.push(String::from_str(line));
            proof {
                assert(line_views(self.lines@) =~= line_views(before).push(line@));
            }
            if is_end(&v) {
                self.in_record = false;
                let done = self.lines.clone();
                self.lines = Vec::new();
                proof {
                    assert(line_views(self.lines@) =~= Seq::<Seq<char>>::empty());
                }
                Some(done)
            } else {
                None
            }
        } else {
            None
        }
    }
}

fn is_start(v: &Vec<char>) -> (r: bool)
    ensures
        r == is_start_line(v@),
{
    let mc = chars_of("method call");
    let nt = chars_of("Notify");
    proof {
        reveal_strlit("method call");
        reveal_strlit("Notify");
        assert(mc@ =~= method_call_marker());
        assert(nt@ =~= notify_marker());
    }
    contains_exec(v, &mc) && contains_exec(v, &nt)
}

fn is_end(v: &Vec<char>) -> (r: bool)
    ensures
        r == is_end_line(v@),
{
    let tk = chars_of("int32");
    proof {
        reveal_strlit("int32");
        assert(tk@ =~= terminator_token());
    }
    let k = leading_space_len(v);
    starts_with_exec(v, &tk, k)
}

/// Runs a fresh reassembler over a whole stream of lines and returns the
/// records it completes, in stream order.
pub fn reassemble(stream: &Vec<String>) -> (r: Vec<Vec<String>>)
    ensures
        r@.map_values(|rec: Vec<String>| line_views(rec@)) == run(idle_state(), line_views(
            stream@,
        )).1,
{
    let mut m = Reassembler::new();
    let mut out: Vec<Vec<String>> = Vec::new();
    let mut i: usize = 0;
    while i < stream.len()
        invariant
            i <= stream@.len(),
            (m.view(), out@.map_values(|rec: Vec<String>| line_views(rec@))) == run(
                idle_state(),
                line_views(stream@).take(i as int),
            ),
        decreases stream@.len() - i,
    {
        let ghost prev = out@;
        let got = m.feed_line(stream[i].as_str());
        match got {
            Some(rec) => {
                out.push(rec);
            },
            None => {},
        }
        proof {
            let ls = line_views(stream@);
            assert(ls.take(i + 1).drop_last() =~= ls.take(i as int));
            assert(out@.map_values(|rec: Vec<String>| line_views(rec@)) =~= prev.map_values(
                |rec: Vec<String>| line_views(rec@),
            ) + emitted(step(run(idle_state(), ls.take(i as int)).0, ls[i as int]).1));
        }
        i = i + 1;
    }
    proof {
        assert(line_views(stream@).take(stream@.len() as int) =~= line_views(stream@));
    }
    out
}

/// A well-formed record: a start line, then lines that neither open nor close
/// a record, then a terminator line that does not open one.
pub open spec fn well_formed_record(r: Seq<Seq<char>>) -> bool {
    &&& r.len() >= 2
    &&& is_start_line(r[0])
    &&& forall|i: int| 1 <= i < r.len() ==> !is_start_line(#[trigger] r[i])
    &&& forall|i: int| 1 <= i < r.len() - 1 ==> !is_end_line(#[trigger] r[i])
    &&& is_end_line(r.last())
}

/// Running over `a` then `b` is running over `a` and then, from where that
/// left off, over `b`: the records of the two parts are concatenated.
pub proof fn lemma_run_concat(st: ReassemblyState, a: Seq<Seq<char>>, b: Seq<Seq<char>>)
    ensures
        run(st, a + b) == (run(run(st, a).0, b).0, run(st, a).1 + run(run(st, a).0, b).1),
    decreases b.len(),
{
    if b.len() == 0 {
        assert(a + b =~= a);
        assert(run(st, a).1 + Seq::<Seq<Seq<char>>>::empty() =~= run(st, a).1);
    } else {
        assert((a + b).drop_last() =~= a + b.drop_last());
        assert((a + b).last() == b.last());
        lemma_run_concat(st, a, b.drop_last());
        let mid = run(run(st, a).0, b.drop_last());
        let e = emitted(step(mid.0, b.last()).1);
        assert(run(st, a).1 + mid.1 + e =~= run(st, a).1 + (mid.1 + e));
    }
}

/// A stream without a start line yields no record, and leaves a fresh
/// reassembler idle.
pub proof fn lemma_no_start_no_records(lines: Seq<Seq<char>>)
    requires
        forall|i: int| 0 <= i < lines.len() ==> !is_start_line(#[trigger] lines[i]),
    ensures
        run(idle_state(), lines) == (idle_state(), Seq::<Seq<Seq<char>>>::empty()),
    decreases lines.len(),
{
    if lines.len() > 0 {
        let p = lines.drop_last();
        assert forall|i: int| 0 <= i < p.len() implies !is_start_line(#[trigger] p[i]) by {
            assert(p[i] == lines[i]);
        }
        lemma_no_start_no_records(p);
        assert(!is_start_line(lines[lines.len() - 1]));
        assert(Seq::<Seq<Seq<char>>>::empty() + Seq::<Seq<Seq<char>>>::empty() =~= Seq::<
            Seq<Seq<char>>,
        >::empty());
    }
}

proof fn lemma_record_prefix(r: Seq<Seq<char>>, k: int)
    requires
        well_formed_record(r),
        1 <= k < r.len(),
    ensures
        run(idle_state(), r.take(k)) == ((true, r.take(k)), Seq::<Seq<Seq<char>>>::empty()),
    decreases k,
{
    if k == 1 {
        assert(r.take(1).drop_last() =~= Seq::<Seq<char>>::empty());
        assert(r.take(1) =~= seq![r[0]]);
        assert(run(idle_state(), r.take(1).drop_last()) == (idle_state(), Seq::<
            Seq<Seq<char>>,
        >::empty()));
        assert(r.take(1).last() == r[0]);
        assert(step(idle_state(), r[0]) == ((true, seq![r[0]]), None::<Seq<Seq<char>>>));
        assert(Seq::<Seq<Seq<char>>>::empty() + Seq::<Seq<Seq<char>>>::empty() =~= Seq::<
            Seq<Seq<char>>,
        >::empty());
    } else {
        lemma_record_prefix(r, k - 1);
        assert(r.take(k).drop_last() =~= r.take(k - 1));
        assert(r.take(k).last() == r[k - 1]);
        assert(!is_start_line(r[k - 1]));
        assert(!is_end_line(r[k - 1]));
        assert(r.take(k - 1).push(r[k - 1]) =~= r.take(k));
        assert(step((true, r.take(k - 1)), r[k - 1]) == ((true, r.take(k)), None::<
            Seq<Seq<char>>,
        >));
        assert(Seq::<Seq<Seq<char>>>::empty() + Seq::<Seq<Seq<char>>>::empty() =~= Seq::<
            Seq<Seq<char>>,
        >::empty());
    }
}

/// A well-formed record, fed to a fresh reassembler, yields exactly one
/// record holding all of its lines, and leaves the reassembler idle.
pub proof fn lemma_one_record(r: Seq<Seq<char>>)
    requires
        well_formed_record(r),
    ensures
        run(idle_state(), r) == (idle_state(), seq![r]),
{
    let n = r.len() as int;
    lemma_record_prefix(r, n - 1);
    assert(r.drop_last() =~= r.take(n - 1));
    assert(r.take(n - 1).push(r.last()) =~= r);
    assert(!is_start_line(r[n - 1]));
    assert(Seq::<Seq<Seq<char>>>::empty() + seq![r] =~= seq![r]);
}

/// Two well-formed records back to back yield exactly those two records, in
/// stream order.
pub proof fn lemma_two_records(r1: Seq<Seq<char>>, r2: Seq<Seq<char>>)
    requires
        well_formed_record(r1),
        well_formed_record(r2),
    ensures
        run(idle_state(), r1 + r2) == (idle_state(), seq![r1, r2]),
{
    lemma_run_concat(idle_state(), r1, r2);
    lemma_one_record(r1);
    lemma_one_record(r2);
    assert(seq![r1] + seq![r2] =~= seq![r1, r2]);
}

} // verus!
