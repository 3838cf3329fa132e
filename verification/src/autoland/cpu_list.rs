//! Lists of CPUs as the command line gives them.

use vstd::prelude::*;
use vstd::slice::slice_subrange;
use vstd::string::StringExecFns;

use crate::text::{
    chars_of, cut, decimal, is_digit, is_space, lemma_cut_at, parse_unsigned, push_decimal, same,
    slice_views, split, split_chars, text_of, trim, trimmed, unsigned_value,
};
use crate::topology::{get_primary_cpus, preferred, Cpu, Powermode};

verus! {

/// The keyword for a mode.
pub open spec fn mode_named(s: Seq<char>) -> Option<Powermode> {
    if s == "powersave"@ {
        Some(Powermode::Powersave)
    } else if s == "performance"@ {
        Some(Powermode::Performance)
    } else if s == "turbo"@ {
        Some(Powermode::Turbo)
    } else if s == "all"@ {
        Some(Powermode::Any)
    } else {
        None
    }
}

fn named_mode(s: &str) -> (r: Option<Powermode>)
    ensures
        r == mode_named(s@),
{
    if same(s, "powersave") {
        Some(Powermode::Powersave)
    } else if same(s, "performance") {
        Some(Powermode::Performance)
    } else if same(s, "turbo") {
        Some(Powermode::Turbo)
    } else if same(s, "all") {
        Some(Powermode::Any)
    } else {
        None
    }
}

/// A character that a list of numbers can hold.
pub open spec fn is_list_char(c: char) -> bool {
    is_digit(c) || c == '-' || c == ',' || is_space(c)
}

/// A list of numbers in which every blank is a tab.
pub open spec fn with_tabs(s: Seq<char>) -> Seq<char> {
    s.map_values(|c: char| if c == ' ' { '\t' } else { c })
}

/// The CPUs of `acc` and those from `from` to `to`, each once; nothing if there are
/// `max` already when the next one comes.
pub open spec fn with_range(acc: Seq<usize>, from: int, to: int, max: int) -> Option<Seq<usize>>
    decreases to - from + 1,
{
    if from > to {
        Some(acc)
    } else if acc.len() >= max {
        None
    } else {
        with_range(
            if acc.contains(from as usize) {
                acc
            } else {
                acc.push(from as usize)
            },
            from + 1,
            to,
            max,
        )
    }
}

/// A list of CPUs, or the text of an error.
pub enum Listing {
    Cpus(Seq<usize>),
    Error(Seq<char>),
}

/// What becomes of a list when the CPUs from `from` to `to` are added.
pub open spec fn add_range(acc: Seq<usize>, from: int, to: int, max: int) -> Listing {
    match with_range(acc, from, to, max) {
        Some(cpus) => Listing::Cpus(cpus),
        None => Listing::Error("Too many CPUs specified (max "@ + decimal(max as nat) + ")"@),
    }
}

/// What becomes of a list when an item of the command line, a CPU or a range of
/// CPUs, is added.
pub open spec fn add_item(acc: Seq<usize>, item: Seq<char>, max: int) -> Listing {
    let t = trim(item);
    let k = cut(t, '-') as int;
    if t.len() == 0 {
        Listing::Cpus(acc)
    } else if k < t.len() {
        match unsigned_value(trim(t.take(k)), usize::MAX as nat) {
            None => Listing::Error("Invalid range start"@),
            Some(start) => match unsigned_value(trim(t.skip(k + 1)), usize::MAX as nat) {
                None => Listing::Error("Invalid range end"@),
                Some(end) => if start > end {
                    Listing::Error(
                        "Invalid CPU range: "@ + decimal(start) + "-"@ + decimal(end),
                    )
                } else {
                    add_range(acc, start as int, end as int, max)
                },
            },
        }
    } else {
        match unsigned_value(t, usize::MAX as nat) {
            None => Listing::Error("Invalid CPU: "@ + t),
            Some(cpu) => add_range(acc, cpu as int, cpu as int, max),
        }
    }
}

/// What becomes of a list when the first `n` items are added.
pub open spec fn add_items(items: Seq<Seq<char>>, max: int, n: int) -> Listing
    decreases n,
{
    if n <= 0 {
        Listing::Cpus(Seq::empty())
    } else {
        match add_items(items, max, n - 1) {
            Listing::Cpus(acc) => add_item(acc, items[n - 1], max),
            Listing::Error(e) => Listing::Error(e),
        }
    }
}

/// What a list of CPUs on the command line stands for on a machine with `cpus`, of
/// which a list may name at most `max`.
pub open spec fn listing(s: Seq<char>, cpus: Seq<Cpu>, max: int) -> Listing {
    match mode_named(s) {
        Some(mode) => Listing::Cpus(preferred(mode, cpus)),
        None => if exists|i: int| 0 <= i < s.len() && !is_list_char(#[trigger] s[i]) {
            Listing::Error("Invalid character in CPU list"@)
        } else {
            let items = split(with_tabs(s), ',');
            add_items(items, max, items.len() as int)
        },
    }
}

fn holds(cpus: &Vec<usize>, cpu: usize) -> (r: bool)
    ensures
        r == cpus@.contains(cpu),
{
    let mut i: usize = 0;
    while i < cpus.len()
        invariant
            i <= cpus.len(),
            forall|j: int| 0 <= j < i ==> cpus@[j] != cpu,
        decreases cpus.len() - i,
    {
        if cpus[i] == cpu {
            return true;
        }
        i = i + 1;
    }
    false
}

fn too_many(max: usize) -> (r: String)
    ensures
        r@ == "Too many CPUs specified (max "@ + decimal(max as nat) + ")"@,
{
    let mut out: String = "Too many CPUs specified (max ".to_owned();
    push_decimal(&mut out, max as u64);
    out.append(")");
    out
}

fn push_range(cpus: &mut Vec<usize>, start: usize, end: usize, max: usize) -> (r: Result<(), String>)
    requires
        start <= end,
    ensures
        match r {
            Ok(()) => add_range(old(cpus)@, start as int, end as int, max as int)
                == Listing::Cpus(final(cpus)@),
            Err(e) => add_range(old(cpus)@, start as int, end as int, max as int)
                == Listing::Error(e@),
        },
{
    let mut i: usize = start;
    loop
        invariant
            start <= i <= end,
            with_range(old(cpus)@, start as int, end as int, max as int) == with_range(
                cpus@,
                i as int,
                end as int,
                max as int,
            ),
        decreases end - i,
    {
        if cpus.len() >= max {
            return Err(too_many(max));
        }
        if !holds(cpus, i) {
            cpus.push(i);
        }
        assert(with_range(old(cpus)@, start as int, end as int, max as int) == with_range(
            cpus@,
            i + 1,
            end as int,
            max as int,
        ));
        if i == end {
            return Ok(());
        }
        i = i + 1;
    }
}

fn push_item(cpus: &mut Vec<usize>, item: &[char], max: usize) -> (r: Result<(), String>)
    ensures
        match r {
            Ok(()) => add_item(old(cpus)@, item@, max as int) == Listing::Cpus(final(cpus)@),
            Err(e) => add_item(old(cpus)@, item@, max as int) == Listing::Error(e@),
        },
{
    let token = trimmed(item);
    if token.len() == 0 {
        return Ok(());
    }
    let mut k: usize = 0;
    while k < token.len() && token[k] != '-'
        invariant
            k <= token.len(),
            forall|j: int| 0 <= j < k ==> token@[j] != '-',
        decreases token.len() - k,
    {
        k = k + 1;
    }
    proof {
        lemma_cut_at(token@, '-', k as int);
    }
    if k < token.len() {
        let before = slice_subrange(token, 0, k);
        let after = slice_subrange(token, k + 1, token.len());
        proof {
            assert(before@ =~= token@.take(k as int));
            assert(after@ =~= token@.skip(k + 1));
        }
        let start: usize = match parse_unsigned(trimmed(before), usize::MAX as u64) {
            Some(v) => v as usize,
            None => {
                return Err("Invalid range start".to_owned());
            },
        };
        let end: usize = match parse_unsigned(trimmed(after), usize::MAX as u64) {
            Some(v) => v as usize,
            None => {
                return Err("Invalid range end".to_owned());
            },
        };
        if start > end {
            let mut out: String = "Invalid CPU range: ".to_owned();
            push_decimal(&mut out, start as u64);
            out.append("-");
            push_decimal(&mut out, end as u64);
            return Err(out);
        }
        push_range(cpus, start, end, max)
    } else {
        match parse_unsigned(token, usize::MAX as u64) {
            Some(v) => push_range(cpus, v as usize, v as usize, max),
            None => {
                let mut out: String = "Invalid CPU: ".to_owned();
                out.append(text_of(token).as_str());
                Err(out)
            },
        }
    }
}

/// The CPUs that `optarg` names: a keyword, or numbers and ranges of numbers between
/// commas, each CPU once and in order of first mention. `cpus` are those of the
/// machine, `nr_cpu_ids` is how many a list can name.
pub fn parse_cpu_list(optarg: &str, cpus: &[Cpu], nr_cpu_ids: usize) -> (r: Result<Vec<usize>, String>)
    ensures
        match r {
            Ok(list) => listing(optarg@, cpus@, nr_cpu_ids as int) == Listing::Cpus(list@),
            Err(e) => listing(optarg@, cpus@, nr_cpu_ids as int) == Listing::Error(e@),
        },
{
    if let Some(mode) = named_mode(optarg) {
        return Ok(get_primary_cpus(mode, cpus));
    }
    let text = chars_of(optarg);
    let mut cleaned: Vec<char> = Vec::new();
    let mut i: usize = 0;
    while i < text.len()
        invariant
            i <= text.len(),
            text@ == optarg@,
            mode_named(optarg@) is None,
            cleaned@.len() == i,
            forall|j: int| 0 <= j < i ==> is_list_char(#[trigger] optarg@[j]),
            forall|j: int| 0 <= j < i ==> #[trigger] cleaned@[j] == with_tabs(optarg@)[j],
        decreases text.len() - i,
    {
        let c = text[i];
        if !(('0' <= c && c <= '9') || c == '-' || c == ',' || crate::text::space(c)) {
            assert(!is_list_char(optarg@[i as int]));
            return Err("Invalid character in CPU list".to_owned());
        }
        cleaned.push(if c == ' ' { '\t' } else { c });
        i = i + 1;
    }
    assert(cleaned@ =~= with_tabs(optarg@));

    let items = split_chars(cleaned.as_slice(), ',');
    let ghost pieces = split(with_tabs(optarg@), ',');
    let mut list: Vec<usize> = Vec::new();
    let mut n: usize = 0;
    assert(list@ =~= Seq::<usize>::empty());
    while n < items.len()
        invariant
            n <= items.len(),
            slice_views(items@) == pieces,
            add_items(pieces, nr_cpu_ids as int, n as int) == Listing::Cpus(list@),
            pieces == split(with_tabs(optarg@), ','),
            mode_named(optarg@) is None,
            forall|j: int| 0 <= j < optarg@.len() ==> is_list_char(#[trigger] optarg@[j]),
        decreases items.len() - n,
    {
        assert(slice_views(items@)[n as int] == items@[n as int]@);
        match push_item(&mut list, items[n], nr_cpu_ids) {
            Ok(()) => {},
            Err(e) => {
                proof {
                    lemma_error_stays(pieces, nr_cpu_ids as int, n + 1, pieces.len() as int);
                }
                return Err(e);
            },
        }
        n = n + 1;
    }
    Ok(list)
}

proof fn lemma_error_stays(items: Seq<Seq<char>>, max: int, n: int, m: int)
    requires
        0 <= n <= m,
        add_items(items, max, n) is Error,
    ensures
        add_items(items, max, m) == add_items(items, max, n),
    decreases m - n,
{
    if n < m {
        lemma_error_stays(items, max, n, m - 1);
    }
}

/// A list of numbers never holds a CPU twice, nor more than `max` of them.
pub proof fn lists_hold_each_cpu_once(items: Seq<Seq<char>>, max: int, n: int)
    requires
        0 <= n <= items.len(),
        max >= 0,
    ensures
        add_items(items, max, n) matches Listing::Cpus(list) ==> list.no_duplicates() && list.len()
            <= max,
    decreases n,
{
    if n > 0 {
        lists_hold_each_cpu_once(items, max, n - 1);
        match add_items(items, max, n - 1) {
            Listing::Cpus(acc) => {
                let t = trim(items[n - 1]);
                let k = cut(t, '-') as int;
                if t.len() > 0 {
                    if k < t.len() {
                        match unsigned_value(trim(t.take(k)), usize::MAX as nat) {
                            Some(start) => match unsigned_value(trim(t.skip(k + 1)), usize::MAX as nat) {
                                Some(end) => {
                                    lemma_range_holds_once(acc, start as int, end as int, max);
                                },
                                None => {},
                            },
                            None => {},
                        }
                    } else {
                        match unsigned_value(t, usize::MAX as nat) {
                            Some(cpu) => {
                                lemma_range_holds_once(acc, cpu as int, cpu as int, max);
                            },
                            None => {},
                        }
                    }
                }
            },
            Listing::Error(_) => {},
        }
    }
}

proof fn lemma_range_holds_once(acc: Seq<usize>, from: int, to: int, max: int)
    requires
        acc.no_duplicates(),
        acc.len() <= max,
    ensures
        with_range(acc, from, to, max) matches Some(list) ==> list.no_duplicates() && list.len()
            <= max,
    decreases to - from + 1,
{
    if from <= to && acc.len() < max {
        let next = if acc.contains(from as usize) {
            acc
        } else {
            acc.push(from as usize)
        };
        lemma_range_holds_once(next, from + 1, to, max);
    }
}

/// A range adds the CPUs from its first to its last and no others, and keeps those that were
/// listed before where they are. It is refused exactly where the limit is reached before
/// its last CPU.
pub proof fn ranges_add_their_cpus(acc: Seq<usize>, from: int, to: int, max: int)
    requires
        0 <= from,
        to <= usize::MAX,
    ensures
        with_range(acc, from, to, max) matches Some(list) ==> {
            &&& forall|c: usize| #[trigger]
                list.contains(c) <==> acc.contains(c) || from <= c <= to
            &&& acc.len() <= list.len() <= acc.len() + (if from <= to {
                to - from + 1
            } else {
                0
            })
            &&& list.take(acc.len() as int) =~= acc
            &&& from <= to ==> list.len() <= max
        },
        from > to ==> with_range(acc, from, to, max) is Some,
        from <= to && acc.len() + (to - from) < max ==> with_range(acc, from, to, max) is Some,
        from <= to && acc.len() >= max ==> with_range(acc, from, to, max) is None,
    decreases to - from + 1,
{
    if from <= to && acc.len() < max {
        let cpu = from as usize;
        let next = if acc.contains(cpu) {
            acc
        } else {
            acc.push(cpu)
        };
        ranges_add_their_cpus(next, from + 1, to, max);
        assert forall|c: usize| #[trigger] next.contains(c) <==> acc.contains(c) || c == cpu by {
            if next.contains(c) && !acc.contains(c) && c != cpu {
                let j = choose|j: int| 0 <= j < next.len() && next[j] == c;
                assert(acc[j] == c);
            }
            if acc.contains(c) {
                let j = choose|j: int| 0 <= j < acc.len() && acc[j] == c;
                assert(next[j] == c);
            }
            if c == cpu && !acc.contains(cpu) {
                assert(next[next.len() - 1] == cpu);
            }
        }
        if let Some(list) = with_range(acc, from, to, max) {
            assert(list.take(acc.len() as int) =~= list.take(next.len() as int).take(
                acc.len() as int,
            ));
        }
    } else if from > to {
        assert(acc.take(acc.len() as int) =~= acc);
    }
}

} // verus!
