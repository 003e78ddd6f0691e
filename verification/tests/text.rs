use wows_replays::sort::sort_keyed;
use wows_replays::text::{char_is_whitespace, str_eq, trim_bounds};

#[test]
fn trim_bounds_skip_whitespace_at_both_ends() {
    assert_eq!(trim_bounds("  ab c \n"), (2, 6));
    assert_eq!(trim_bounds("abc"), (0, 3));
    let (a, b) = trim_bounds("   ");
    assert_eq!(a, b);
}

#[test]
fn trimmed_comparison() {
    assert!(str_eq("a", "a"));
    assert!(!str_eq("a", "b"));
    assert!(char_is_whitespace(' ') && char_is_whitespace('\n'));
    assert!(!char_is_whitespace('x'));
}

#[test]
fn sort_is_by_key_and_stable() {
    let v = vec![(3usize, 'a'), (1, 'b'), (3, 'c'), (0, 'd'), (1, 'e')];
    let s = sort_keyed(v);
    assert_eq!(s, vec![(0, 'd'), (1, 'b'), (1, 'e'), (3, 'a'), (3, 'c')]);
    assert!(sort_keyed(Vec::<(usize, u8)>::new()).is_empty());
}
