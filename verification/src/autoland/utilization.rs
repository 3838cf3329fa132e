//! CPU utilization from the counters in `/proc/stat`.

use vstd::prelude::*;

use crate::text::{
    chars_of, occurs, parse_unsigned, slice_views, split, split_chars, split_words, starts_with,
    unsigned_value, words,
};

verus! {

/// CPU time counters.
#[derive(Debug, Clone, Copy, PartialEq, Eq, Structural)]
pub struct CpuTimes {
    pub user: u64,
    pub nice: u64,
    pub total: u64,
}

/// What grew from `before` to `after`.
pub open spec fn growth(before: int, after: int) -> int {
    if after > before {
        after - before
    } else {
        0
    }
}

/// The share of user time, nice tasks included, between two readings, of 1024 and
/// rounded to the nearest; nothing if no time passed.
pub fn compute_user_cpu_pct(prev: &CpuTimes, curr: &CpuTimes) -> (r: Option<u64>)
    requires
        prev.user + prev.nice <= u64::MAX,
        curr.user + curr.nice <= u64::MAX,
        1024 * growth(prev.user + prev.nice, curr.user + curr.nice) <= u64::MAX,
    ensures
        ({
            let user = growth(prev.user + prev.nice, curr.user + curr.nice);
            let total = growth(prev.total as int, curr.total as int);
            r == if total == 0 {
                None
            } else {
                Some(((user * 2048 + total) / (2 * total)) as u64)
            }
        }),
        ({
            let user = growth(prev.user + prev.nice, curr.user + curr.nice);
            let total = growth(prev.total as int, curr.total as int);
            r matches Some(pct) ==> {
                &&& 2 * total * pct <= user * 2048 + total
                &&& user * 2048 + total < 2 * total * (pct + 1)
            }
        }),
{
    let user_diff: u64 = (curr.user + curr.nice).saturating_sub(prev.user + prev.nice);
    let total_diff: u64 = curr.total.saturating_sub(prev.total);
    if total_diff > 0 {
        let num: u128 = user_diff as u128 * 2048 + total_diff as u128;
        let den: u128 = 2 * total_diff as u128;
        let pct: u128 = num / den;
        proof {
            let (n, d, u, t) = (num as int, den as int, user_diff as int, total_diff as int);
            assert(d * (n / d) <= n < d * (n / d + 1)) by (nonlinear_arith)
                requires
                    n >= 0,
                    d > 0,
            ;
            assert(n / d <= 1024 * u + 1) by (nonlinear_arith)
                requires
                    n == u * 2048 + t,
                    d == 2 * t,
                    t >= 1,
                    u >= 0,
            ;
            assert(n / d <= 1024 * u) by (nonlinear_arith)
                requires
                    n == u * 2048 + t,
                    d == 2 * t,
                    t >= 1,
                    u >= 0,
            {
                if u == 0 {
                    assert(n < d);
                } else if t == 1 {
                    assert(n == u * 2048 + 1);
                    assert(n / 2 == u * 1024);
                } else {
                    assert(n < d * (1024 * u + 1));
                }
            }
        }
        Some(pct as u64)
    } else {
        None
    }
}

/// The number that a word spells, as far as it counts toward the total.
pub open spec fn counted(word: Seq<char>) -> nat {
    match unsigned_value(word, u64::MAX as nat) {
        Some(v) => v,
        None => 0,
    }
}

/// The sum of the first `n` counters behind the label, of eight at most.
pub open spec fn counter_sum(fields: Seq<Seq<char>>, n: int) -> nat
    decreases n,
{
    if n <= 0 {
        0
    } else {
        counter_sum(fields, n - 1) + counted(fields[n])
    }
}

/// The number of counters that make up the total.
pub open spec fn counters(fields: Seq<Seq<char>>) -> int {
    if fields.len() > 9 {
        8
    } else {
        fields.len() - 1
    }
}

/// The counters that a line holds.
pub open spec fn line_times(line: Seq<char>) -> Option<CpuTimes> {
    let fields = words(line);
    if fields.len() < 5 {
        None
    } else {
        match (
            unsigned_value(fields[1], u64::MAX as nat),
            unsigned_value(fields[2], u64::MAX as nat),
        ) {
            (Some(user), Some(nice)) => Some(
                CpuTimes {
                    user: user as u64,
                    nice: nice as u64,
                    total: counter_sum(fields, counters(fields)) as u64,
                },
            ),
            _ => None,
        }
    }
}

/// The first of `lines` from `i` on that sums up all CPUs.
pub open spec fn summary_line(lines: Seq<Seq<char>>, i: int) -> Option<Seq<char>>
    decreases lines.len() - i,
{
    if i < 0 || i >= lines.len() {
        None
    } else if starts_with(lines[i], "cpu "@) {
        Some(lines[i])
    } else {
        summary_line(lines, i + 1)
    }
}

/// The total of a line fits its type.
pub open spec fn total_fits(line: Seq<char>) -> bool {
    words(line).len() >= 5 ==> counter_sum(words(line), counters(words(line))) <= u64::MAX
}

fn number(word: &[char]) -> (r: Option<u64>)
    ensures
        match r {
            Some(v) => unsigned_value(word@, u64::MAX as nat) == Some(v as nat),
            None => unsigned_value(word@, u64::MAX as nat) is None,
        },
{
    parse_unsigned(word, u64::MAX)
}

fn times_of_line(line: &[char]) -> (r: Option<CpuTimes>)
    requires
        total_fits(line@),
    ensures
        r == line_times(line@),
{
    let fields = split_words(line);
    let ghost parts = words(line@);
    if fields.len() < 5 {
        return None;
    }
    assert forall|k: int| 0 <= k < parts.len() implies #[trigger] fields@[k]@ == parts[k] by {
        assert(slice_views(fields@)[k] == fields@[k]@);
    }
    let user: u64 = match number(fields[1]) {
        Some(v) => v,
        None => {
            return None;
        },
    };
    let nice: u64 = match number(fields[2]) {
        Some(v) => v,
        None => {
            return None;
        },
    };
    let last: usize = if fields.len() > 9 { 8 } else { fields.len() - 1 };
    let mut total: u64 = 0;
    let mut i: usize = 0;
    while i < last
        invariant
            i <= last < fields.len(),
            last == counters(parts),
            parts.len() == fields.len(),
            forall|k: int| 0 <= k < parts.len() ==> #[trigger] fields@[k]@ == parts[k],
            total == counter_sum(parts, i as int),
            counter_sum(parts, last as int) <= u64::MAX,
        decreases last - i,
    {
        proof {
            lemma_counter_sum_grows(parts, i + 1, last as int);
            assert(fields@[i + 1]@ == parts[i + 1]);
        }
        if let Some(v) = number(fields[i + 1]) {
            total = total + v;
        }
        i = i + 1;
    }
    Some(CpuTimes { user, nice, total })
}

proof fn lemma_counter_sum_grows(fields: Seq<Seq<char>>, a: int, b: int)
    requires
        a <= b,
    ensures
        counter_sum(fields, a) <= counter_sum(fields, b),
    decreases b - a,
{
    if a < b {
        lemma_counter_sum_grows(fields, a, b - 1);
    }
}

/// The counters of all CPUs together in the text of `/proc/stat`.
pub fn cpu_times_of(stat: &str) -> (r: Option<CpuTimes>)
    requires
        summary_line(split(stat@, '\n'), 0) matches Some(line) ==> total_fits(line),
    ensures
        r == match summary_line(split(stat@, '\n'), 0) {
            Some(line) => line_times(line),
            None => None,
        },
{
    let text = chars_of(stat);
    let label = chars_of("cpu ");
    let lines = split_chars(text.as_slice(), '\n');
    let ghost pieces = split(stat@, '\n');
    let mut i: usize = 0;
    while i < lines.len()
        invariant
            i <= lines.len(),
            slice_views(lines@) == pieces,
            label@ == "cpu "@,
            summary_line(pieces, 0) == summary_line(pieces, i as int),
            summary_line(pieces, 0) matches Some(line) ==> total_fits(line),
            pieces == split(stat@, '\n'),
        decreases lines.len() - i,
    {
        assert(slice_views(lines@)[i as int] == lines@[i as int]@);
        if occurs(lines[i], label.as_slice(), 0) {
            return times_of_line(lines[i]);
        }
        i = i + 1;
    }
    None
}

/// The total of a line is made up of its first eight counters: further ones change nothing,
/// and a counter among the eight counts with its number.
pub proof fn eight_counters_make_up_the_total(fields: Seq<Seq<char>>, further: Seq<Seq<char>>)
    requires
        fields.len() >= 1,
    ensures
        ({
            let all = fields + further;
            let (some, many) = (
                counter_sum(fields, counters(fields)),
                counter_sum(all, counters(all)),
            );
            &&& fields.len() >= 9 ==> some == many
            &&& fields.len() == 1 ==> some == 0
            &&& fields.len() <= 8 && further.len() == 1 ==> many == some + counted(further[0])
        }),
{
    let all = fields + further;
    lemma_same_counters(fields, all, counters(fields));
    if fields.len() <= 8 && further.len() == 1 {
        assert(counters(all) == counters(fields) + 1);
        assert(all[counters(all)] == further[0]);
    }
}

proof fn lemma_same_counters(a: Seq<Seq<char>>, b: Seq<Seq<char>>, n: int)
    requires
        n < a.len(),
        n < b.len(),
        forall|i: int| 0 <= i <= n ==> a[i] == b[i],
    ensures
        counter_sum(a, n) == counter_sum(b, n),
    decreases n,
{
    if n > 0 {
        lemma_same_counters(a, b, n - 1);
    }
}

/// The line that counts is the first one that begins with the label of all CPUs.
pub proof fn first_labelled_lines_count(lines: Seq<Seq<char>>, i: int)
    requires
        0 <= i < lines.len(),
        starts_with(lines[i], "cpu "@),
        forall|j: int| 0 <= j < i ==> !starts_with(#[trigger] lines[j], "cpu "@),
    ensures
        summary_line(lines, 0) == Some(lines[i]),
{
    lemma_summary_from(lines, i, 0);
}

proof fn lemma_summary_from(lines: Seq<Seq<char>>, i: int, from: int)
    requires
        0 <= from <= i < lines.len(),
        starts_with(lines[i], "cpu "@),
        forall|j: int| 0 <= j < i ==> !starts_with(#[trigger] lines[j], "cpu "@),
    ensures
        summary_line(lines, from) == Some(lines[i]),
    decreases i - from,
{
    if from < i {
        lemma_summary_from(lines, i, from + 1);
    }
}

} // verus!
