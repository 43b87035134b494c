use projectris::{GrabBag, PieceType, ALL_PIECE_TYPES};

fn count(draws: &[PieceType], piece_type: PieceType) -> usize {
    draws.iter().filter(|t| **t == piece_type).count()
}

fn draw(bag: &mut GrabBag, n: usize) -> Vec<PieceType> {
    let mut draws = Vec::new();
    for _ in 0..n {
        draws.push(bag.choose_next_piece_type());
    }
    draws
}

#[test]
fn new_bag_is_full() {
    let bag = GrabBag::new(3);
    assert_eq!(bag.repeats_per_bag(), 3);
    assert_eq!(bag.remaining(), 24);
    assert_eq!(GrabBag::new(1).remaining(), 8);
}

#[test]
fn one_bag_holds_every_type_as_often_as_it_repeats() {
    for repeats in [1usize, 2, 5] {
        let mut bag = GrabBag::new(repeats);
        let draws = draw(&mut bag, 8 * repeats);
        for piece_type in ALL_PIECE_TYPES {
            assert_eq!(count(&draws, piece_type), repeats);
        }
        assert_eq!(bag.remaining(), 0);
    }
}

#[test]
fn every_bag_in_a_row_is_fair() {
    let mut bag = GrabBag::new(2);
    for _ in 0..10 {
        let draws = draw(&mut bag, 16);
        for piece_type in ALL_PIECE_TYPES {
            assert_eq!(count(&draws, piece_type), 2);
        }
    }
}

#[test]
fn each_draw_takes_one_piece_and_an_empty_bag_is_filled() {
    let mut bag = GrabBag::new(1);
    for left in (0..8).rev() {
        bag.choose_next_piece_type();
        assert_eq!(bag.remaining(), left);
    }
    // the bag is empty now; the next draw fills it and takes one
    bag.choose_next_piece_type();
    assert_eq!(bag.remaining(), 7);
    assert_eq!(bag.repeats_per_bag(), 1);
}

#[test]
fn no_type_comes_more_often_than_it_repeats_within_a_bag() {
    let mut bag = GrabBag::new(3);
    let draws = draw(&mut bag, 17);
    for piece_type in ALL_PIECE_TYPES {
        assert!(count(&draws, piece_type) <= 3);
    }
}

#[test]
fn a_filled_bag_is_shuffled() {
    // Unshuffled, the bag would hold the catalog over and over, and the draws
    // would come in reverse catalog order each time.
    let mut bag = GrabBag::new(50);
    let draws = draw(&mut bag, 400);
    let mut reversed_catalog = ALL_PIECE_TYPES.to_vec();
    reversed_catalog.reverse();
    let in_catalog_order = draws.chunks(8).all(|round| round == &ALL_PIECE_TYPES[..]);
    let in_reverse_order = draws.chunks(8).all(|round| round == &reversed_catalog[..]);
    assert!(!in_catalog_order);
    assert!(!in_reverse_order);
}

#[test]
fn two_fills_differ() {
    let mut bag = GrabBag::new(50);
    let first = draw(&mut bag, 400);
    let second = draw(&mut bag, 400);
    assert_ne!(first, second);
}

#[test]
fn sizes_of_bags_that_can_be_built() {
    assert!(!GrabBag::repeats_fit(0));
    assert!(GrabBag::repeats_fit(1));
    assert!(GrabBag::repeats_fit(usize::MAX / 8));
    assert!(!GrabBag::repeats_fit(usize::MAX / 8 + 1));
    assert!(!GrabBag::repeats_fit(usize::MAX));
}
