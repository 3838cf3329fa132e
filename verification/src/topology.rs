//! CPUs and the kinds of cores that they belong to.

use vstd::prelude::*;

verus! {

/// Kind of a core.
#[derive(Debug, Clone, Copy, PartialEq, Eq, Structural)]
pub enum CoreType {
    /// A fast core; `turbo` for those with the highest frequency.
    Big { turbo: bool },
    /// A power-efficient core.
    Little,
}

/// A CPU.
#[derive(Debug, Clone, Copy, PartialEq, Eq, Structural)]
pub struct Cpu {
    /// Number of the CPU.
    pub id: usize,
    /// Kind of its core.
    pub core_type: CoreType,
    /// Capacity relative to other CPUs.
    pub capacity: usize,
}

/// The numbers of CPUs.
pub open spec fn ids(cpus: Seq<Cpu>) -> Seq<usize> {
    cpus.map_values(|c: Cpu| c.id)
}

/// Which CPUs are preferred.
#[derive(Debug, Clone, Copy, PartialEq, Eq, Structural)]
pub enum Powermode {
    /// Those with the highest frequency.
    Turbo,
    /// The fast ones.
    Performance,
    /// The power-efficient ones.
    Powersave,
    /// All of them.
    Any,
}

impl Powermode {
    /// A kind of core is preferred.
    pub open spec fn admits(self, core_type: CoreType) -> bool {
        match (self, core_type) {
            (Powermode::Turbo, CoreType::Big { turbo }) => turbo,
            (Powermode::Performance, CoreType::Big { turbo }) => true,
            (Powermode::Powersave, CoreType::Little) => true,
            (Powermode::Any, _) => true,
            _ => false,
        }
    }

    fn takes(self, core_type: CoreType) -> (r: bool)
        ensures
            r == self.admits(core_type),
    {
        match (self, core_type) {
            (Powermode::Turbo, CoreType::Big { turbo }) => turbo,
            (Powermode::Performance, CoreType::Big { turbo: _ }) => true,
            (Powermode::Powersave, CoreType::Little) => true,
            (Powermode::Any, _) => true,
            _ => false,
        }
    }
}

/// The preferred ones of `cpus`, in order.
pub open spec fn preferred(mode: Powermode, cpus: Seq<Cpu>) -> Seq<usize> {
    ids(cpus.filter(|c: Cpu| mode.admits(c.core_type)))
}

/// The numbers of the preferred ones of `cpus`, in order.
pub fn get_primary_cpus(mode: Powermode, cpus: &[Cpu]) -> (r: Vec<usize>)
    ensures
        r@ == preferred(mode, cpus@),
{
    let ghost keep = |c: Cpu| mode.admits(c.core_type);
    let mut out: Vec<usize> = Vec::new();
    let mut i: usize = 0;
    reveal(Seq::filter);
    assert(out@ =~= ids(cpus@.take(0).filter(keep)));
    while i < cpus.len()
        invariant
            i <= cpus.len(),
            keep == (|c: Cpu| mode.admits(c.core_type)),
            out@ == ids(cpus@.take(i as int).filter(keep)),
        decreases cpus.len() - i,
    {
        reveal(Seq::filter);
        let ghost before = cpus@.take(i as int).filter(keep);
        assert(cpus@.take(i + 1).drop_last() =~= cpus@.take(i as int));
        let cpu = cpus[i];
        if mode.takes(cpu.core_type) {
            assert(ids(before.push(cpu)) =~= ids(before).push(cpu.id));
            out.push(cpu.id);
        }
        i = i + 1;
    }
    assert(cpus@.take(i as int) =~= cpus@);
    out
}

/// The preferred CPUs are exactly those with the cores that a mode stands for: turbo for the
/// fastest ones, performance for all fast ones, powersave for the power-efficient ones.
pub proof fn modes_pick_their_cores(mode: Powermode, cpus: Seq<Cpu>, id: usize)
    ensures
        preferred(mode, cpus).contains(id) <==> exists|i: int|
            0 <= i < cpus.len() && (#[trigger] cpus[i]).id == id && match mode {
                Powermode::Turbo => cpus[i].core_type == (CoreType::Big { turbo: true }),
                Powermode::Performance => cpus[i].core_type != CoreType::Little,
                Powermode::Powersave => cpus[i].core_type == CoreType::Little,
                Powermode::Any => true,
            },
    decreases cpus.len(),
{
    reveal(Seq::filter);
    let out = preferred(mode, cpus);
    if cpus.len() > 0 {
        let rest = cpus.drop_last();
        modes_pick_their_cores(mode, rest, id);
        let keep = |c: Cpu| mode.admits(c.core_type);
        let before = preferred(mode, rest);
        let last = cpus.last();
        if mode.admits(last.core_type) {
            assert(out =~= before.push(last.id));
            if out.contains(id) && last.id != id {
                let j = choose|j: int| 0 <= j < out.len() && out[j] == id;
                assert(before[j] == id);
            }
            if before.contains(id) {
                let j = choose|j: int| 0 <= j < before.len() && before[j] == id;
                assert(out[j] == id);
            }
            assert(out[out.len() - 1] == last.id);
        } else {
            assert(out =~= before);
        }
        assert(forall|i: int| 0 <= i < rest.len() ==> #[trigger] rest[i] == cpus[i]);
        assert(forall|i: int| 0 <= i < rest.len() ==> #[trigger] cpus[i] == rest[i]);
        assert(cpus[cpus.len() - 1] == last);
    }
}

} // verus!
