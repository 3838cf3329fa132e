//! Settings that are derived from the command line and the machine.

use vstd::prelude::*;

use crate::topology::Cpu;

verus! {

/// A percentage brought to the scale of 1024 that utilization is measured on.
pub fn busy_threshold(percent: u64) -> (r: u64)
    requires
        percent * 1024 <= u64::MAX,
    ensures
        r == percent * 1024 / 100,
{
    percent * 1024 / 100
}

/// The time between two looks at CPU utilization in milliseconds: from 10 to 1000,
/// or none at all.
pub fn polling_interval_ms(polling_ms: u64) -> (r: Option<u64>)
    ensures
        r == if polling_ms == 0 {
            None
        } else if polling_ms < 10 {
            Some(10u64)
        } else if polling_ms > 1000 {
            Some(1000u64)
        } else {
            Some(polling_ms)
        },
{
    if polling_ms == 0 {
        None
    } else if polling_ms < 10 {
        Some(10)
    } else if polling_ms > 1000 {
        Some(1000)
    } else {
        Some(polling_ms)
    }
}

/// How long to wait for a request for statistics in milliseconds.
pub fn wait_ms(polling: Option<u64>) -> (r: u64)
    ensures
        r == match polling {
            Some(ms) => ms,
            None => 1000,
        },
{
    match polling {
        Some(ms) => ms,
        None => 1000,
    }
}

/// Whether every CPU is in the primary domain.
pub fn primary_all(primary_cpus: usize, nr_cpu_ids: usize) -> (r: bool)
    ensures
        r == (primary_cpus >= nr_cpu_ids),
{
    primary_cpus >= nr_cpu_ids
}

/// `sorted` with `cpu` behind all that have at least its capacity.
pub open spec fn ranked_in(sorted: Seq<Cpu>, cpu: Cpu) -> Seq<Cpu>
    decreases sorted.len(),
{
    if sorted.len() > 0 && sorted.last().capacity < cpu.capacity {
        ranked_in(sorted.drop_last(), cpu).push(sorted.last())
    } else {
        sorted.push(cpu)
    }
}

/// The CPUs by capacity, the largest first; those of one capacity stay in order.
pub open spec fn ranked(cpus: Seq<Cpu>) -> Seq<Cpu>
    decreases cpus.len(),
{
    if cpus.len() == 0 {
        Seq::empty()
    } else {
        ranked_in(ranked(cpus.drop_last()), cpus.last())
    }
}

proof fn lemma_ranked_in(sorted: Seq<Cpu>, cpu: Cpu, at: int)
    requires
        0 <= at <= sorted.len(),
        forall|i: int| at <= i < sorted.len() ==> (#[trigger] sorted[i]).capacity < cpu.capacity,
        at > 0 ==> sorted[at - 1].capacity >= cpu.capacity,
    ensures
        ranked_in(sorted, cpu) == sorted.insert(at, cpu),
    decreases sorted.len(),
{
    if sorted.len() > at {
        let rest = sorted.drop_last();
        lemma_ranked_in(rest, cpu, at);
        assert(rest.insert(at, cpu).push(sorted.last()) =~= sorted.insert(at, cpu));
    } else {
        assert(sorted.insert(at, cpu) =~= sorted.push(cpu));
    }
}

/// The CPUs by capacity, the largest first; those of one capacity stay in order.
pub fn preferred_cpus(cpus: &[Cpu]) -> (r: Vec<Cpu>)
    ensures
        r@ == ranked(cpus@),
{
    let mut out: Vec<Cpu> = Vec::new();
    let mut i: usize = 0;
    assert(out@ =~= ranked(cpus@.take(0)));
    while i < cpus.len()
        invariant
            i <= cpus.len(),
            out@ == ranked(cpus@.take(i as int)),
        decreases cpus.len() - i,
    {
        let cpu = cpus[i];
        let ghost before = out@;
        let mut at: usize = out.len();
        while at > 0 && out[at - 1].capacity < cpu.capacity
            invariant
                at <= out@.len(),
                out@ == before,
                forall|k: int| at <= k < before.len() ==> (#[trigger] before[k]).capacity < cpu.capacity,
            decreases at,
        {
            at = at - 1;
        }
        proof {
            lemma_ranked_in(before, cpu, at as int);
            assert(cpus@.take(i + 1).drop_last() =~= cpus@.take(i as int));
        }
        out.insert(at, cpu);
        i = i + 1;
    }
    assert(cpus@.take(i as int) =~= cpus@);
    out
}

/// Ranking keeps all CPUs, and puts none behind one of smaller capacity.
pub proof fn ranking_orders_by_capacity(cpus: Seq<Cpu>)
    ensures
        ranked(cpus).to_multiset() == cpus.to_multiset(),
        forall|i: int, j: int|
            0 <= i < j < ranked(cpus).len() ==> (#[trigger] ranked(cpus)[i]).capacity >= (
            #[trigger] ranked(cpus)[j]).capacity,
    decreases cpus.len(),
{
    if cpus.len() > 0 {
        let rest = cpus.drop_last();
        let cpu = cpus.last();
        ranking_orders_by_capacity(rest);
        let at = lemma_place(ranked(rest), cpu);
        lemma_ranked_in(ranked(rest), cpu, at);
        vstd::seq_lib::to_multiset_insert(ranked(rest), at, cpu);
        vstd::seq_lib::to_multiset_build(rest, cpu);
        assert(rest.push(cpu) =~= cpus);
        let s = ranked(rest);
        let r = ranked(cpus);
        assert forall|i: int, j: int| 0 <= i < j < r.len() implies (#[trigger] r[i]).capacity >= (
        #[trigger] r[j]).capacity by {
            let a = if i < at { i } else { i - 1 };
            let b = if j < at { j } else { j - 1 };
            if i != at && j != at {
                assert(r[i] == s[a] && r[j] == s[b]);
            } else if i == at {
                assert(r[j] == s[b]);
            } else {
                assert(r[i] == s[a]);
                assert(s[a].capacity >= s[at - 1].capacity);
            }
        }
    } else {
        assert(ranked(cpus) =~= cpus);
    }
}

proof fn lemma_place(sorted: Seq<Cpu>, cpu: Cpu) -> (at: int)
    requires
        forall|i: int, j: int|
            0 <= i < j < sorted.len() ==> (#[trigger] sorted[i]).capacity >= (
            #[trigger] sorted[j]).capacity,
    ensures
        0 <= at <= sorted.len(),
        forall|i: int| at <= i < sorted.len() ==> (#[trigger] sorted[i]).capacity < cpu.capacity,
        at > 0 ==> sorted[at - 1].capacity >= cpu.capacity,
    decreases sorted.len(),
{
    if sorted.len() > 0 && sorted.last().capacity < cpu.capacity {
        let rest = sorted.drop_last();
        assert forall|i: int, j: int| 0 <= i < j < rest.len() implies (#[trigger] rest[i]).capacity
            >= (#[trigger] rest[j]).capacity by {
            assert(rest[i] == sorted[i] && rest[j] == sorted[j]);
        }
        let at = lemma_place(rest, cpu);
        assert forall|i: int| at <= i < sorted.len() implies (#[trigger] sorted[i]).capacity
            < cpu.capacity by {
            if i < rest.len() {
                assert(rest[i] == sorted[i]);
            }
        }
        if at > 0 {
            assert(rest[at - 1] == sorted[at - 1]);
        }
        at
    } else {
        sorted.len() as int
    }
}

} // verus!
