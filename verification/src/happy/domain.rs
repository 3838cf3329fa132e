//! CPU domains of the queues.

use vstd::prelude::*;

use crate::cpumask::{bit_of, has_mask, is_mask, mask_bit};
use crate::text::{chars_of, same};
use crate::topology::{CoreType, Cpu};

verus! {

/// A CPU of the machine has the number `cpu` and a core of the kind that a domain
/// names; any kind for a name that stands for none.
pub open spec fn named_kind(domain: Seq<char>, core_type: CoreType) -> bool {
    if domain == "turbo"@ {
        core_type == (CoreType::Big { turbo: true })
    } else if domain == "performance"@ {
        core_type == (CoreType::Big { turbo: false })
    } else if domain == "powersave"@ {
        core_type == CoreType::Little
    } else {
        true
    }
}

/// CPU number `cpu` belongs to a domain on a machine with `cpus`.
pub open spec fn in_domain(domain: Seq<char>, cpus: Seq<Cpu>, cpu: int) -> bool {
    if is_mask(domain) {
        mask_bit(domain, cpu)
    } else {
        exists|i: int|
            0 <= i < cpus.len() && (#[trigger] cpus[i]).id == cpu && named_kind(
                domain,
                cpus[i].core_type,
            )
    }
}

/// The CPUs below `nr_cpu_ids` that belong to a domain, in order.
pub open spec fn domain_list(domain: Seq<char>, cpus: Seq<Cpu>, nr_cpu_ids: int) -> Seq<usize>
    decreases nr_cpu_ids,
{
    if nr_cpu_ids <= 0 {
        Seq::empty()
    } else {
        let before = domain_list(domain, cpus, nr_cpu_ids - 1);
        if in_domain(domain, cpus, nr_cpu_ids - 1) {
            before.push((nr_cpu_ids - 1) as usize)
        } else {
            before
        }
    }
}

fn kind_named(domain: &str, core_type: CoreType) -> (r: bool)
    ensures
        r == named_kind(domain@, core_type),
{
    if same(domain, "turbo") {
        matches!(core_type, CoreType::Big { turbo: true })
    } else if same(domain, "performance") {
        matches!(core_type, CoreType::Big { turbo: false })
    } else if same(domain, "powersave") {
        matches!(core_type, CoreType::Little)
    } else {
        true
    }
}

/// The CPUs below `nr_cpu_ids` that belong to a domain, in order. A domain is named by
/// a kind of core or given as a hexadecimal mask; any other name stands for all CPUs
/// of the machine.
pub fn domain_cpus(domain: &str, cpus: &[Cpu], nr_cpu_ids: usize) -> (r: Vec<usize>)
    ensures
        r@ == domain_list(domain@, cpus@, nr_cpu_ids as int),
{
    let text = chars_of(domain);
    let masked = has_mask(text.as_slice());
    let mut out: Vec<usize> = Vec::new();
    let mut cpu: usize = 0;
    assert(out@ =~= Seq::<usize>::empty());
    while cpu < nr_cpu_ids
        invariant
            cpu <= nr_cpu_ids,
            text@ == domain@,
            masked == is_mask(domain@),
            out@ == domain_list(domain@, cpus@, cpu as int),
        decreases nr_cpu_ids - cpu,
    {
        let mut member = false;
        if masked {
            member = bit_of(text.as_slice(), cpu);
        } else {
            let mut i: usize = 0;
            while i < cpus.len()
                invariant
                    i <= cpus.len(),
                    member == exists|j: int|
                        0 <= j < i && (#[trigger] cpus@[j]).id == cpu && named_kind(
                            domain@,
                            cpus@[j].core_type,
                        ),
                decreases cpus.len() - i,
            {
                if cpus[i].id == cpu && kind_named(domain, cpus[i].core_type) {
                    member = true;
                }
                i = i + 1;
            }
        }
        if member {
            out.push(cpu);
        }
        cpu = cpu + 1;
    }
    out
}

/// The domains of the three kinds of core have no CPU in common, as long as no CPU
/// number occurs twice.
pub proof fn kinds_do_not_overlap(cpus: Seq<Cpu>, a: Seq<char>, b: Seq<char>, cpu: int)
    requires
        a != b,
        a == "turbo"@ || a == "performance"@ || a == "powersave"@,
        b == "turbo"@ || b == "performance"@ || b == "powersave"@,
        forall|i: int, j: int|
            0 <= i < cpus.len() && 0 <= j < cpus.len() && (#[trigger] cpus[i]).id == (
            #[trigger] cpus[j]).id ==> i == j,
    ensures
        !(in_domain(a, cpus, cpu) && in_domain(b, cpus, cpu)),
{
    reveal_strlit("turbo");
    reveal_strlit("performance");
    reveal_strlit("powersave");
    reveal_strlit("0x");
    assert(a[0] != '0' && b[0] != '0');
    assert(!is_mask(a)) by {
        if is_mask(a) {
            assert(a.subrange(0, 2)[0] == '0');
        }
    }
    assert(!is_mask(b)) by {
        if is_mask(b) {
            assert(b.subrange(0, 2)[0] == '0');
        }
    }
    if in_domain(a, cpus, cpu) && in_domain(b, cpus, cpu) {
        let i = choose|i: int|
            0 <= i < cpus.len() && (#[trigger] cpus[i]).id == cpu && named_kind(a, cpus[i].core_type);
        let j = choose|j: int|
            0 <= j < cpus.len() && (#[trigger] cpus[j]).id == cpu && named_kind(b, cpus[j].core_type);
        assert(i == j);
        assert("turbo"@.len() != "performance"@.len());
        assert("turbo"@.len() != "powersave"@.len());
        assert("performance"@.len() != "powersave"@.len());
    }
}

/// A domain lists the CPUs that belong to it and are below the limit, each once and in
/// rising order.
pub proof fn domains_list_their_cpus(domain: Seq<char>, cpus: Seq<Cpu>, nr_cpu_ids: int)
    requires
        0 <= nr_cpu_ids <= usize::MAX,
    ensures
        ({
            let list = domain_list(domain, cpus, nr_cpu_ids);
            &&& forall|c: usize| #[trigger]
                list.contains(c) <==> c < nr_cpu_ids && in_domain(domain, cpus, c as int)
            &&& forall|i: int, j: int| 0 <= i < j < list.len() ==> list[i] < list[j]
        }),
    decreases nr_cpu_ids,
{
    if nr_cpu_ids > 0 {
        domains_list_their_cpus(domain, cpus, nr_cpu_ids - 1);
        let before = domain_list(domain, cpus, nr_cpu_ids - 1);
        let list = domain_list(domain, cpus, nr_cpu_ids);
        let last = (nr_cpu_ids - 1) as usize;
        assert forall|c: usize| #[trigger] list.contains(c) implies c < nr_cpu_ids && in_domain(
            domain,
            cpus,
            c as int,
        ) by {
            let i = choose|i: int| 0 <= i < list.len() && list[i] == c;
            if i < before.len() {
                assert(before[i] == c);
                assert(before.contains(c));
            }
        }
        assert forall|c: usize| c < nr_cpu_ids && in_domain(domain, cpus, c as int) implies
            #[trigger] list.contains(c) by {
            if c == last {
                assert(list[list.len() - 1] == last);
            } else {
                assert(before.contains(c));
                let i = choose|i: int| 0 <= i < before.len() && before[i] == c;
                assert(list[i] == c);
            }
        }
        assert forall|i: int, j: int| 0 <= i < j < list.len() implies list[i] < list[j] by {
            assert(i < before.len());
            assert(before.contains(before[i]));
        }
    }
}

/// A CPU with a number of its own belongs to the domain named after its kind of core and to
/// any domain with an unknown name.
pub proof fn cores_belong_to_their_domain(cpus: Seq<Cpu>, i: int, name: Seq<char>)
    requires
        0 <= i < cpus.len(),
        forall|j: int| 0 <= j < cpus.len() && (#[trigger] cpus[j]).id == cpus[i].id ==> i == j,
        !is_mask(name),
    ensures
        ({
            let (id, kind) = (cpus[i].id as int, cpus[i].core_type);
            &&& name == "turbo"@ ==> (in_domain(name, cpus, id) <==> kind == (CoreType::Big {
                turbo: true,
            }))
            &&& name == "performance"@ ==> (in_domain(name, cpus, id) <==> kind == (CoreType::Big {
                turbo: false,
            }))
            &&& name == "powersave"@ ==> (in_domain(name, cpus, id) <==> kind == CoreType::Little)
            &&& name != "turbo"@ && name != "performance"@ && name != "powersave"@ ==> in_domain(
                name,
                cpus,
                id,
            )
        }),
{
    reveal_strlit("turbo");
    reveal_strlit("performance");
    reveal_strlit("powersave");
    assert("turbo"@.len() == 5 && "performance"@.len() == 11 && "powersave"@.len() == 9);
    if in_domain(name, cpus, cpus[i].id as int) {
        let j = choose|j: int|
            0 <= j < cpus.len() && (#[trigger] cpus[j]).id == cpus[i].id && named_kind(
                name,
                cpus[j].core_type,
            );
        assert(i == j);
    }
}

} // verus!
