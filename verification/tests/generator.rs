use tetrs::generator::draw_to_kind;
use tetrs::generator::PieceGenerator;
use tetrs::tetromino::Kind;

#[test]
fn draws_map_to_kinds_modulo_seven() {
    let kinds = [Kind::I, Kind::J, Kind::L, Kind::O, Kind::S, Kind::Z, Kind::T];
    for byte in 0..=255u8 {
        assert_eq!(draw_to_kind(byte), kinds[(byte % 7) as usize]);
    }
    assert_eq!(draw_to_kind(7), Kind::I);
    assert_eq!(draw_to_kind(255), Kind::O);
}

#[test]
fn first_draw_is_taken_when_it_differs_from_the_last_kind() {
    let mut generator = PieceGenerator::new();
    assert!(generator.last.is_none());
    assert_eq!(generator.next_kind_from(2, 5), Kind::L);
    assert_eq!(generator.last, Some(Kind::L));
    assert_eq!(generator.next_kind_from(6, 2), Kind::T);
    assert_eq!(generator.last, Some(Kind::T));
}

#[test]
fn generator_redraws_once_after_a_repeat() {
    let mut generator = PieceGenerator::new();
    assert_eq!(generator.next_kind_from(3, 3), Kind::O);
    // The first draw repeats O; the second draw differs and is taken.
    assert!(generator.repeats(3));
    assert!(generator.repeats(10));
    assert!(!generator.repeats(4));
    assert_eq!(generator.next_kind_from(10, 1), Kind::J);
    assert_eq!(generator.last, Some(Kind::J));
}

#[test]
fn generator_may_repeat_when_the_redraw_repeats_too() {
    let mut generator = PieceGenerator { last: Some(Kind::S) };
    // Both draws give S: one re-draw only, so S comes again.
    assert_eq!(generator.next_kind_from(4, 11), Kind::S);
    assert_eq!(generator.last, Some(Kind::S));
}

#[test]
fn new_generator_never_counts_a_draw_as_repeat() {
    let generator = PieceGenerator::new();
    for byte in 0..=255u8 {
        assert!(!generator.repeats(byte));
    }
}

#[test]
fn next_kind_remembers_what_it_returns() {
    let mut generator = PieceGenerator::new();
    let mut seen = [false; 7];
    let kinds = [Kind::I, Kind::J, Kind::L, Kind::O, Kind::S, Kind::Z, Kind::T];
    for _ in 0..2000 {
        let kind = generator.next_kind();
        assert_eq!(generator.last, Some(kind));
        let index = kinds.iter().position(|k| *k == kind).unwrap();
        seen[index] = true;
    }
    // Two thousand draws that never show one of seven kinds would mean a stuck source.
    assert!(seen.iter().all(|s| *s));
}
