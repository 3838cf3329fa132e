//! CPU masks in hexadecimal: reading them, and writing them for lists of CPUs.

use vstd::prelude::*;
use vstd::string::StringExecFns;

use crate::text::{chars_of, digit_char, occurs, push_hex, starts_with};

verus! {

/// The value of a hexadecimal digit.
pub open spec fn hex_digit(c: char) -> Option<int> {
    if '0' <= c <= '9' {
        Some(c as int - '0' as int)
    } else if 'a' <= c <= 'f' {
        Some(c as int - 'a' as int + 10)
    } else if 'A' <= c <= 'F' {
        Some(c as int - 'A' as int + 10)
    } else {
        None
    }
}

fn hex_value(c: char) -> (r: Option<u8>)
    ensures
        match r {
            Some(v) => hex_digit(c) == Some(v as int) && v < 16,
            None => hex_digit(c) is None,
        },
{
    if '0' <= c && c <= '9' {
        Some((c as u32 - '0' as u32) as u8)
    } else if 'a' <= c && c <= 'f' {
        Some((c as u32 - 'a' as u32) as u8 + 10)
    } else if 'A' <= c && c <= 'F' {
        Some((c as u32 - 'A' as u32) as u8 + 10)
    } else {
        None
    }
}

/// `s` is a mask: `0x` and at least one hexadecimal digit.
pub open spec fn is_mask(s: Seq<char>) -> bool {
    &&& starts_with(s, "0x"@)
    &&& s.len() > 2
    &&& forall|i: int| 2 <= i < s.len() ==> hex_digit(#[trigger] s[i]) is Some
}

/// Bit `b` of a digit of four bits.
pub open spec fn digit_bit(v: int, b: int) -> bool {
    if b == 0 {
        v % 2 == 1
    } else if b == 1 {
        (v / 2) % 2 == 1
    } else if b == 2 {
        (v / 4) % 2 == 1
    } else {
        (v / 8) % 2 == 1
    }
}

/// Bit `cpu` of a mask; the last digit holds the lowest four.
pub open spec fn mask_bit(s: Seq<char>, cpu: int) -> bool {
    let at = s.len() - 1 - cpu / 4;
    at >= 2 && digit_bit(hex_digit(s[at])->0, cpu % 4)
}

/// Whether a text is a mask.
pub fn has_mask(s: &[char]) -> (r: bool)
    ensures
        r == is_mask(s@),
{
    let prefix = chars_of("0x");
    if !occurs(s, prefix.as_slice(), 0) || s.len() <= 2 {
        return false;
    }
    let mut i: usize = 2;
    while i < s.len()
        invariant
            2 <= i <= s.len(),
            forall|j: int| 2 <= j < i ==> hex_digit(#[trigger] s@[j]) is Some,
        decreases s.len() - i,
    {
        if hex_value(s[i]).is_none() {
            return false;
        }
        i = i + 1;
    }
    true
}

/// Bit `cpu` of a mask.
pub fn bit_of(s: &[char], cpu: usize) -> (r: bool)
    requires
        is_mask(s@),
    ensures
        r == mask_bit(s@, cpu as int),
{
    let back: usize = cpu / 4;
    if back >= s.len() - 2 {
        return false;
    }
    let at: usize = s.len() - 1 - back;
    assert(hex_digit(s@[at as int]) is Some);
    let v: u8 = match hex_value(s[at]) {
        Some(v) => v,
        None => 0,
    };
    match cpu % 4 {
        0 => v % 2 == 1,
        1 => (v / 2) % 2 == 1,
        2 => (v / 4) % 2 == 1,
        _ => (v / 8) % 2 == 1,
    }
}

/// Whether `cpu` is in a list, as a digit.
pub open spec fn bit(cpus: Seq<usize>, cpu: int) -> int {
    if 0 <= cpu <= usize::MAX && cpus.contains(cpu as usize) {
        1
    } else {
        0
    }
}

/// Four CPUs of a list as a hexadecimal digit, from `4 * k` on.
pub open spec fn nibble(cpus: Seq<usize>, k: int) -> int {
    bit(cpus, 4 * k) + 2 * bit(cpus, 4 * k + 1) + 4 * bit(cpus, 4 * k + 2) + 8 * bit(
        cpus,
        4 * k + 3,
    )
}

/// The largest number of a list.
pub open spec fn largest(cpus: Seq<usize>) -> int
    decreases cpus.len(),
{
    if cpus.len() == 0 {
        0
    } else {
        let rest = largest(cpus.drop_last());
        if cpus.last() > rest {
            cpus.last() as int
        } else {
            rest
        }
    }
}

/// The number of hexadecimal digits of the mask of a list: two for each byte that the
/// largest number needs.
pub open spec fn mask_digits(cpus: Seq<usize>) -> int {
    2 * ((largest(cpus) + 8) / 8)
}

/// The mask of a list in hexadecimal; "none" for an empty list.
pub open spec fn mask_text(cpus: Seq<usize>) -> Seq<char> {
    if cpus.len() == 0 {
        "none"@
    } else {
        "0x"@ + Seq::new(
            mask_digits(cpus) as nat,
            |i: int| digit_char(nibble(cpus, mask_digits(cpus) - 1 - i)),
        )
    }
}

fn listed(cpus: &Vec<usize>, cpu: usize) -> (r: u64)
    ensures
        r == bit(cpus@, cpu as int),
{
    let mut i: usize = 0;
    while i < cpus.len()
        invariant
            i <= cpus.len(),
            forall|j: int| 0 <= j < i ==> cpus@[j] != cpu,
        decreases cpus.len() - i,
    {
        if cpus[i] == cpu {
            assert(cpus@.contains(cpu));
            return 1;
        }
        i = i + 1;
    }
    0
}

/// The mask of a list of CPUs in hexadecimal.
pub fn cpus_to_cpumask(cpus: &Vec<usize>) -> (r: String)
    requires
        forall|i: int| 0 <= i < cpus@.len() ==> #[trigger] cpus@[i] <= usize::MAX - 8,
    ensures
        r@ == mask_text(cpus@),
{
    if cpus.is_empty() {
        return "none".to_owned();
    }
    let mut max_cpu_id: usize = 0;
    let mut i: usize = 0;
    while i < cpus.len()
        invariant
            i <= cpus.len(),
            forall|k: int| 0 <= k < cpus@.len() ==> #[trigger] cpus@[k] <= usize::MAX - 8,
            max_cpu_id == largest(cpus@.take(i as int)),
            max_cpu_id <= usize::MAX - 8,
        decreases cpus.len() - i,
    {
        assert(cpus@.take(i + 1).drop_last() =~= cpus@.take(i as int));
        assert(cpus@[i as int] <= usize::MAX - 8);
        if cpus[i] > max_cpu_id {
            max_cpu_id = cpus[i];
        }
        i = i + 1;
    }
    assert(cpus@.take(i as int) =~= cpus@);
    let digits: usize = 2 * ((max_cpu_id + 8) / 8);
    let mut out: String = "0x".to_owned();
    let mut left: usize = digits;
    let ghost full = Seq::new(digits as nat, |i: int| digit_char(nibble(cpus@, digits - 1 - i)));
    assert(out@ =~= "0x"@ + full.take(0));
    while left > 0
        invariant
            left <= digits,
            digits * 4 <= usize::MAX + 1,
            full == Seq::new(digits as nat, |i: int| digit_char(nibble(cpus@, digits - 1 - i))),
            out@ == "0x"@ + full.take(digits - left),
        decreases left,
    {
        let k: usize = left - 1;
        let value: u64 = listed(cpus, 4 * k) + 2 * listed(cpus, 4 * k + 1) + 4 * listed(
            cpus,
            4 * k + 2,
        ) + 8 * listed(cpus, 4 * k + 3);
        let ghost before = out@;
        push_hex(&mut out, value);
        proof {
            assert(value == nibble(cpus@, k as int));
            assert(crate::text::digits(value as nat, 16) == seq![digit_char(value as int)]);
            assert(full[digits - left] == digit_char(nibble(cpus@, k as int)));
            assert(full.take(digits - left + 1) =~= full.take(digits - left).push(
                digit_char(value as int),
            ));
            assert(out@ =~= "0x"@ + full.take(digits - left + 1));
        }
        left = left - 1;
    }
    assert(full.take(digits as int) =~= full);
    out
}

proof fn lemma_largest(cpus: Seq<usize>, cpu: usize)
    requires
        cpus.contains(cpu),
    ensures
        cpu <= largest(cpus),
    decreases cpus.len(),
{
    let i = choose|i: int| 0 <= i < cpus.len() && cpus[i] == cpu;
    if i < cpus.len() - 1 {
        assert(cpus.drop_last()[i] == cpu);
        lemma_largest(cpus.drop_last(), cpu);
    }
}

proof fn lemma_largest_is_positive(cpus: Seq<usize>)
    ensures
        largest(cpus) >= 0,
    decreases cpus.len(),
{
    if cpus.len() > 0 {
        lemma_largest_is_positive(cpus.drop_last());
    }
}

/// The mask of a list that is not empty reads back as the list: it is a mask, and
/// exactly the bits of the CPUs in the list are set.
pub proof fn masks_read_back(cpus: Seq<usize>, cpu: usize)
    requires
        cpus.len() > 0,
    ensures
        is_mask(mask_text(cpus)),
        mask_bit(mask_text(cpus), cpu as int) == cpus.contains(cpu),
{
    reveal_strlit("0x");
    lemma_largest_is_positive(cpus);
    let s = mask_text(cpus);
    let n = mask_digits(cpus);
    assert(n >= 2);
    assert(s.len() == 2 + n);
    assert(s.subrange(0, 2) =~= "0x"@);
    assert forall|i: int| 2 <= i < s.len() implies hex_digit(#[trigger] s[i]) == Some(
        nibble(cpus, n - 1 - (i - 2)),
    ) by {
        let v = nibble(cpus, n - 1 - (i - 2));
        assert(0 <= v < 16);
        assert(s[i] == digit_char(v));
        lemma_digit(v);
    }
    let at = s.len() - 1 - cpu as int / 4;
    if at >= 2 {
        let k = cpu as int / 4;
        assert(hex_digit(s[at]) == Some(nibble(cpus, k)));
        let b = cpu as int % 4;
        assert(cpu == 4 * k + b);
        assert(digit_bit(nibble(cpus, k), b) == (bit(cpus, 4 * k + b) == 1));
    } else if cpus.contains(cpu) {
        lemma_largest(cpus, cpu);
        assert(cpu as int / 4 < n);
    }
}

proof fn lemma_digit(v: int)
    requires
        0 <= v < 16,
    ensures
        hex_digit(digit_char(v)) == Some(v),
{
    assert(v == 0 || v == 1 || v == 2 || v == 3 || v == 4 || v == 5 || v == 6 || v == 7 || v == 8 || v
        == 9 || v == 10 || v == 11 || v == 12 || v == 13 || v == 14 || v == 15);
}

} // verus!
