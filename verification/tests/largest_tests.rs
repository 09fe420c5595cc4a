use maxfinder::largest::{largest_any, largest_char, largest_i32, max_of, EmptyInputError};
use maxfinder::pair::Pair;
use maxfinder::point::Point;

#[test]
fn largest_of_inline_list() {
    assert_eq!(largest_i32(&[1, 2, 3, 5, 4]), 5);
}

#[test]
fn largest_of_number_list() {
    assert_eq!(largest_i32(&[102, 34, 6000, 89, 54, 2, 43, 8]), 6000);
}

#[test]
fn largest_of_second_number_list() {
    assert_eq!(largest_i32(&[1, 2, 3, 6, 5, 8, 4, 7]), 8);
}

#[test]
fn largest_of_char_list() {
    assert_eq!(largest_char(&['y', 'm', 'a', 'q']), 'y');
}

#[test]
fn largest_any_matches_concrete_versions() {
    assert_eq!(largest_any(&[102, 34, 6000, 89, 54, 2, 43, 8]), 6000);
    assert_eq!(largest_any(&['y', 'm', 'a', 'q']), 'y');
}

#[test]
fn max_of_single_element() {
    assert_eq!(max_of(&[5]), Ok(5));
    assert_eq!(largest_i32(&[5]), 5);
}

#[test]
fn max_of_empty_input_fails() {
    let empty: [i32; 0] = [];
    assert_eq!(max_of(&empty), Err(EmptyInputError));
    let no_chars: [char; 0] = [];
    assert_eq!(max_of(&no_chars), Err(EmptyInputError));
}

#[test]
fn max_of_number_example() {
    assert_eq!(max_of(&[102, 34, 6000, 89, 54, 2, 43, 8]), Ok(6000));
}

#[test]
fn max_of_char_example() {
    assert_eq!(max_of(&['y', 'm', 'a', 'q']), Ok('y'));
}

#[test]
fn max_value_is_permutation_invariant() {
    let forwards = [102, 34, 6000, 89, 54, 2, 43, 8];
    let backwards = [8, 43, 2, 54, 89, 6000, 34, 102];
    let shuffled = [54, 8, 102, 6000, 2, 89, 43, 34];
    assert_eq!(max_of(&forwards), max_of(&backwards));
    assert_eq!(max_of(&forwards), max_of(&shuffled));
    assert_eq!(max_of(&forwards), Ok(6000));
}

#[derive(Clone, Copy, PartialEq, Debug)]
struct Keyed {
    key: i32,
    tag: u8,
}

impl PartialOrd for Keyed {
    fn partial_cmp(&self, other: &Self) -> Option<std::cmp::Ordering> {
        self.key.partial_cmp(&other.key)
    }
}

#[test]
fn ties_keep_the_first_seen_element() {
    let items = [
        Keyed { key: 3, tag: 0 },
        Keyed { key: 5, tag: 1 },
        Keyed { key: 5, tag: 2 },
        Keyed { key: 4, tag: 3 },
    ];
    let winner = largest_any(&items);
    assert_eq!(winner.key, 5);
    assert_eq!(winner.tag, 1);
    let winner = max_of(&items).unwrap();
    assert_eq!(winner.tag, 1);
}

#[test]
fn mixup_combines_coordinates() {
    let first = Point { x: 5, y: 10 };
    let second = Point { x: "hello", y: 'c' };
    let mixed = first.mixup(second);
    assert_eq!(mixed.x, 5);
    assert_eq!(mixed.y, 'c');
}

#[test]
fn pair_new_keeps_members() {
    let pair = Pair::new(1, 2);
    assert_eq!(pair.x, 1);
    assert_eq!(pair.y, 2);
}
