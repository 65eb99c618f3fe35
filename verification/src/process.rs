//! Deciding what to do about other running instances of the engine.
//!
//! At start the engine lists the processes with its name. A plain start replaces every
//! other instance; a start with `-r` asks the running instances to reload instead, and
//! fails where there is none.

use crate::numbers::{decimal_u32, parse_radix};
use crate::text::{decimal, lemma_decimal_round_trip, str_equal};
use vstd::prelude::*;

verus! {

/// A line without the carriage return that ends it, if any.
pub open spec fn strip_cr(l: Seq<u8>) -> Seq<u8> {
    if l.len() > 0 && l.last() == 0x0d {
        l.drop_last()
    } else {
        l
    }
}

/// The finished lines of `b` (each without its line feed and a carriage return before
/// it) and the unfinished text after the last line feed.
pub open spec fn split_lines(b: Seq<u8>) -> (Seq<Seq<u8>>, Seq<u8>)
    decreases b.len(),
{
    if b.len() == 0 {
        (Seq::empty(), Seq::empty())
    } else {
        let prev = split_lines(b.drop_last());
        if b.last() == 0x0a {
            (prev.0.push(strip_cr(prev.1)), Seq::empty())
        } else {
            (prev.0, prev.1.push(b.last()))
        }
    }
}

/// The lines of `b` as line iteration gives them: a final line without a line feed
/// counts where it is not empty, and keeps any carriage return at its end.
pub open spec fn lines(b: Seq<u8>) -> Seq<Seq<u8>> {
    let parts = split_lines(b);
    if parts.1.len() > 0 {
        parts.0.push(parts.1)
    } else {
        parts.0
    }
}

/// The process ids among `lines` that are not `current`, in their order; a line that
/// does not read as a decimal `u32` is passed over.
pub open spec fn pids_of(lines: Seq<Seq<u8>>, current: u32) -> Seq<u32>
    decreases lines.len(),
{
    if lines.len() == 0 {
        Seq::empty()
    } else {
        pids_of(lines.drop_last(), current) + match decimal_u32(lines.last()) {
            Some(p) => if p != current {
                seq![p]
            } else {
                Seq::empty()
            },
            None => Seq::empty(),
        }
    }
}

/// The ids that `line` adds: the line read as a decimal `u32`, unless that is `current`.
fn line_pid(b: &[u8], start: usize, end: usize, current: u32) -> (r: Option<u32>)
    requires
        start <= end <= b@.len(),
    ensures
        r == match decimal_u32(b@.subrange(start as int, end as int)) {
            Some(p) => if p != current {
                Some(p)
            } else {
                None::<u32>
            },
            None => None,
        },
{
    match parse_radix(b, start, end, 10, u32::MAX) {
        Some(p) => if p != current {
            Some(p)
        } else {
            None
        },
        None => None,
    }
}

/// The ids of the other instances in the output `output` of the process lister: one
/// decimal id per line, lines that are not ids passed over, and `current`, the id of
/// this process, left out. The lines are those of the output read as text, where
/// bytes that are not UTF-8 never form part of an id.
pub fn other_pids(output: &[u8], current: u32) -> (r: Vec<u32>)
    ensures
        r@ == pids_of(lines(output@), current),
{
    let ghost b = output@;
    let n = output.len();
    let mut pids: Vec<u32> = Vec::new();
    let mut start: usize = 0;
    let mut i: usize = 0;
    assert(b.take(0) =~= Seq::<u8>::empty());
    while i < n
        invariant
            b == output@,
            n == b.len(),
            start <= i <= n,
            split_lines(b.take(i as int)).1 == b.subrange(start as int, i as int),
            pids@ == pids_of(split_lines(b.take(i as int)).0, current),
        decreases n - i,
    {
        let ghost prev = split_lines(b.take(i as int));
        assert(b.take(i + 1).drop_last() =~= b.take(i as int));
        assert(b.take(i + 1).last() == b[i as int]);
        if output[i] == 0x0a {
            let end: usize = if i > start && output[i - 1] == 0x0d {
                i - 1
            } else {
                i
            };
            assert(b.subrange(start as int, end as int) == strip_cr(prev.1)) by {
                if i > start && b[i - 1] == 0x0d {
                    assert(prev.1.drop_last() =~= b.subrange(start as int, end as int));
                }
            }
            let ghost lines_now = prev.0.push(strip_cr(prev.1));
            assert(lines_now.drop_last() =~= prev.0);
            match line_pid(output, start, end, current) {
                Some(p) => {
                    pids.push(p);
                },
                None => {},
            }
            assert(pids@ =~= pids_of(lines_now, current));
            start = i + 1;
        } else {
            assert(prev.1.push(b[i as int]) =~= b.subrange(start as int, i + 1));
        }
        i = i + 1;
    }
    assert(b.take(n as int) =~= b);
    if start < n {
        let ghost parts = split_lines(b);
        let ghost all = parts.0.push(parts.1);
        assert(all.drop_last() =~= parts.0);
        match line_pid(output, start, n, current) {
            Some(p) => {
                pids.push(p);
            },
            None => {},
        }
        assert(pids@ =~= pids_of(all, current));
    }
    pids
}

/// No id that `other_pids` gives is the current process's.
pub proof fn lemma_pids_skip_current(lines: Seq<Seq<u8>>, current: u32)
    ensures
        forall|i: int|
            0 <= i < pids_of(lines, current).len() ==> #[trigger] pids_of(lines, current)[i] != current,
    decreases lines.len(),
{
    if lines.len() > 0 {
        lemma_pids_skip_current(lines.drop_last(), current);
        let prev = pids_of(lines.drop_last(), current);
        let all = pids_of(lines, current);
        assert forall|i: int| 0 <= i < all.len() implies #[trigger] all[i] != current by {
            if i < prev.len() {
                assert(all[i] == prev[i]);
            }
        }
    }
}

/// An id is among the ids of `lines` exactly where it is not `current` and some line
/// reads as it in decimal; in particular every id other than `current` that a line
/// holds written in decimal is found, however large.
pub proof fn lemma_pids_found(lines: Seq<Seq<u8>>, current: u32, p: u32)
    ensures
        pids_of(lines, current).contains(p) <==> (p != current && exists|i: int|
            0 <= i < lines.len() && decimal_u32(#[trigger] lines[i]) == Some(p)),
        p != current && lines.contains(vstd::utf8::encode_utf8(decimal(p as nat)))
            ==> pids_of(lines, current).contains(p),
    decreases lines.len(),
{
    if lines.len() > 0 {
        let prev = lines.drop_last();
        lemma_pids_found(prev, current, p);
        let a = pids_of(prev, current);
        let all = pids_of(lines, current);
        if a.contains(p) {
            let k = choose|k: int| 0 <= k < a.len() && a[k] == p;
            assert(all[k] == a[k]);
            let i = choose|i: int| 0 <= i < prev.len() && decimal_u32(#[trigger] prev[i]) == Some(p);
            assert(lines[i] == prev[i]);
        }
        if all.contains(p) && !a.contains(p) {
            let k = choose|k: int| 0 <= k < all.len() && all[k] == p;
            assert(k >= a.len());
            assert(decimal_u32(lines[lines.len() - 1]) == Some(p));
        }
        if p != current && exists|i: int| 0 <= i < lines.len() && decimal_u32(#[trigger] lines[i]) == Some(p) {
            let i = choose|i: int| 0 <= i < lines.len() && decimal_u32(#[trigger] lines[i]) == Some(p);
            if i < prev.len() {
                assert(prev[i] == lines[i]);
                let k = choose|k: int| 0 <= k < a.len() && a[k] == p;
                assert(all[k] == a[k]);
            } else {
                assert(all[a.len() as int] == p);
            }
        }
    }
    lemma_decimal_round_trip(p);
    if p != current && lines.contains(vstd::utf8::encode_utf8(decimal(p as nat))) {
        let i = choose|i: int| 0 <= i < lines.len() && lines[i] == vstd::utf8::encode_utf8(decimal(p as nat));
        assert(decimal_u32(lines[i]) == Some(p));
    }
}

/// The ids of two runs of lines one after the other are the ids of the first run
/// followed by those of the second.
pub proof fn lemma_pids_concat(a: Seq<Seq<u8>>, b: Seq<Seq<u8>>, current: u32)
    ensures
        pids_of(a + b, current) == pids_of(a, current) + pids_of(b, current),
    decreases b.len(),
{
    if b.len() == 0 {
        assert(a + b =~= a);
    } else {
        lemma_pids_concat(a, b.drop_last(), current);
        assert((a + b).drop_last() =~= a + b.drop_last());
        assert((a + b).last() == b.last());
    }
}

/// What to do about the other instances.
pub enum ProcessPlan {
    /// A reload was asked for and no instance runs: report it and exit with failure.
    NothingToReload,
    /// Send each of these instances the reload signal, report it and exit successfully.
    SignalReload(Vec<u32>),
    /// Stop each of these instances for good and go on starting.
    Replace(Vec<u32>),
}

/// The plan for the other instances `others`: with `reload`, signal them, or fail
/// where there is none; without, replace them.
pub fn plan_processes(reload: bool, others: Vec<u32>) -> (r: ProcessPlan)
    ensures
        reload && others@.len() == 0 ==> r is NothingToReload,
        reload && others@.len() > 0 ==> (r matches ProcessPlan::SignalReload(p) && p@ == others@),
        !reload ==> (r matches ProcessPlan::Replace(p) && p@ == others@),
{
    if reload {
        if others.len() == 0 {
            ProcessPlan::NothingToReload
        } else {
            ProcessPlan::SignalReload(others)
        }
    } else {
        ProcessPlan::Replace(others)
    }
}

/// Whether the command line `args` asks for a reload: some argument is exactly `-r`.
pub fn wants_reload(args: &Vec<String>) -> (r: bool)
    ensures
        r == exists|i: int| 0 <= i < args@.len() && (#[trigger] args@[i])@ == "-r"@,
{
    let mut i: usize = 0;
    while i < args.len()
        invariant
            i <= args@.len(),
            forall|j: int| 0 <= j < i ==> (#[trigger] args@[j])@ != "-r"@,
        decreases args@.len() - i,
    {
        if str_equal(args[i].as_str(), "-r") {
            return true;
        }
        i = i + 1;
    }
    false
}

} // verus!
