use wireproto::cursor::McCursor;
use wireproto::difficulty::Difficulty;

#[test]
fn test_difficulty_from_name() {
    assert_eq!(
        Difficulty::PEACEFUL,
        Difficulty::from_name("peaceful").unwrap()
    );
    assert_eq!(Difficulty::EASY, Difficulty::from_name("easy").unwrap());
    assert_eq!(Difficulty::NORMAL, Difficulty::from_name("normal").unwrap());
    assert_eq!(Difficulty::HARD, Difficulty::from_name("hard").unwrap());
    assert!(Difficulty::from_name("invalid").is_err());
}

#[test]
fn test_difficulty_id() {
    assert_eq!(0, Difficulty::PEACEFUL.id());
    assert_eq!(1, Difficulty::EASY.id());
    assert_eq!(2, Difficulty::NORMAL.id());
    assert_eq!(3, Difficulty::HARD.id());
}

#[test]
fn test_difficulty_name() {
    assert_eq!("peaceful", Difficulty::PEACEFUL.name());
    assert_eq!("easy", Difficulty::EASY.name());
    assert_eq!("normal", Difficulty::NORMAL.name());
    assert_eq!("hard", Difficulty::HARD.name());
}

#[test]
fn difficulty_by_id_wraps_modulo_four() {
    assert_eq!(Difficulty::by_id(0), Difficulty::PEACEFUL);
    assert_eq!(Difficulty::by_id(3), Difficulty::HARD);
    assert_eq!(Difficulty::by_id(5), Difficulty::EASY);
    assert_eq!(Difficulty::by_id(255), Difficulty::HARD);
}

#[test]
fn difficulty_wire_roundtrip() {
    for d in [
        Difficulty::PEACEFUL,
        Difficulty::EASY,
        Difficulty::NORMAL,
        Difficulty::HARD,
    ] {
        let mut buf = Vec::new();
        d.azalea_write(&mut buf);
        let mut cur = McCursor::new(buf);
        assert_eq!(Difficulty::azalea_read(&mut cur).unwrap(), d);
    }
}
