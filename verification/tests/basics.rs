use scx_scheds::table::Table;
use scx_scheds::cpumask::{bit_of, cpus_to_cpumask, has_mask};
use scx_scheds::ratio::Ratio;
use scx_scheds::text::{fixed_point_text, 
    chars_of, decimal_text, find, has_any, is_one_of, parse_unsigned, push_hex, push_left,
    push_right, push_signed, same, shortened, split_chars, split_nul, split_words, text_of,
    thousandths_text, trimmed,
};
use scx_scheds::timer::Timer;
use scx_scheds::wire::{u32_at, u64_at};

#[test]
fn searching() {
    let hay = chars_of("häystäck");
    assert_eq!(find(&hay, &chars_of("stä")), Some(3));
    assert_eq!(find(&hay, &chars_of("x")), None);
    assert_eq!(find(&hay, &[]), Some(0));
    assert_eq!(find(&[], &[]), Some(0));
    assert!(has_any(&hay, &["zz", "ck"]));
    assert!(!has_any(&hay, &[]));
    assert!(is_one_of("a", &["b", "a"]) && !is_one_of("c", &["b", "a"]));
    assert!(same("µ", "µ") && !same("a", "ab"));
}

#[test]
fn trimming_and_splitting() {
    let t = |s: &str| text_of(trimmed(&chars_of(s)));
    assert_eq!(t(" \t a b\u{a0}\n\u{3000}"), "a b");
    assert_eq!(t(" \n"), "");
    assert_eq!(t("\u{200b}x"), "\u{200b}x");
    let s = chars_of(",a,,b");
    let pieces: Vec<String> = split_chars(&s, ',').into_iter().map(|p| text_of(p)).collect();
    assert_eq!(pieces, ["", "a", "", "b"]);
    assert_eq!(split_nul(b"\0x"), [&b""[..], &b"x"[..]]);
    let s = chars_of("  a\tbc \n d");
    let words: Vec<String> = split_words(&s).into_iter().map(|p| text_of(p)).collect();
    assert_eq!(words, ["a", "bc", "d"]);
}

#[test]
fn numbers() {
    let p = |s: &str, max: u64| parse_unsigned(&chars_of(s), max);
    assert_eq!(p("0", 9), Some(0));
    assert_eq!(p("+17", 17), Some(17));
    assert_eq!(p("18", 17), None);
    assert_eq!(p("", 9), None);
    assert_eq!(p("+", 9), None);
    assert_eq!(p("-1", 9), None);
    assert_eq!(p("1a", 99), None);
    assert_eq!(p("18446744073709551615", u64::MAX), Some(u64::MAX));
    assert_eq!(p("18446744073709551616", u64::MAX), None);
    assert_eq!(decimal_text(0), "0");
    assert_eq!(decimal_text(u64::MAX), "18446744073709551615");
    let mut s = String::new();
    push_hex(&mut s, 0xbeef);
    push_signed(&mut s, i64::MIN);
    push_signed(&mut s, 5);
    assert_eq!(s, "beef-92233720368547758085");
    assert_eq!(thousandths_text(1050), "1.050");
    assert_eq!(thousandths_text(7), "0.007");
    assert_eq!(shortened("1.050", 1), "1.05");
}

#[test]
fn alignment() {
    let mut s = String::new();
    push_left(&mut s, "ab", 4);
    push_right(&mut s, "µ", 3);
    push_left(&mut s, "long", 2);
    assert_eq!(s, "ab    µlong");
}

#[test]
fn masks() {
    assert_eq!(cpus_to_cpumask(&vec![]), "none");
    assert_eq!(cpus_to_cpumask(&vec![0]), "0x01");
    assert_eq!(cpus_to_cpumask(&vec![7, 0, 3]), "0x89");
    assert_eq!(cpus_to_cpumask(&vec![8]), "0x0100");
    let m = chars_of(&cpus_to_cpumask(&vec![1, 12, 70]));
    assert!(has_mask(&m));
    for cpu in 0..100 {
        assert_eq!(bit_of(&m, cpu), cpu == 1 || cpu == 12 || cpu == 70);
    }
    assert!(!has_mask(&chars_of("0x")) && !has_mask(&chars_of("ff")));
}

#[test]
fn ratios() {
    let a = Ratio::of(1, 3);
    let b = Ratio::milli(333);
    assert!(a.exceeds(&b) && !b.exceeds(&a));
    assert!(a.exceeds_milli(333) && !a.exceeds_milli(334));
    assert!(a.falls_below_milli(334) && !a.falls_below_milli(333));
    assert_eq!(Ratio::of(5, 0), Ratio { num: 0, den: 1 });
}

#[test]
fn timers() {
    let mut t = Timer::new(100, 50);
    assert!(!t.is_due(149));
    assert!(t.is_due(150));
    assert!(!t.is_due(0));
    t.restart(150);
    assert!(!t.is_due(199));
    assert!(Timer::new(100, 0).is_due(0));
}

#[test]
fn little_endian_numbers() {
    let data = [9, 1, 2, 3, 4, 5, 6, 7, 8, 0xff];
    assert_eq!(u64_at(&data, 1), 0x0807060504030201);
    assert_eq!(u32_at(&data, 6), 0xff080706);
    assert_eq!(u64_at(&[0xff; 8], 0), u64::MAX);
}

#[test]
fn tables_find_what_was_stored() {
    let mut t: Table<u32> = Table::new();
    assert_eq!((t.len(), t.get(3)), (0, None));
    t.set(3, 30);
    t.set(5, 50);
    t.set(3, 31);
    assert_eq!((t.get(3), t.get(5), t.get(4)), (Some(&31), Some(&50), None));
    assert_eq!((t.len(), *t.value_at(0), *t.value_at(1)), (2, 31, 50));
}

#[test]
fn fixed_points() {
    assert_eq!(fixed_point_text(5, 2), "0.05");
    assert_eq!(fixed_point_text(1234, 3), "1.234");
    assert_eq!(fixed_point_text(7, 0), "7.");
}
