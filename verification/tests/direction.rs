use libmtk::direction::{DirMask, Direction};

#[test]
fn test_directions_basic() {
    for (i, dir) in Direction::ALL.iter().enumerate() {
        assert_eq!(dir.to_index(), i);
        assert_eq!(Direction::from_index(i), Some(*dir));
        assert_eq!(dir.opposite().opposite(), *dir);
    }
}

#[test]
fn test_direction_masks() {
    let mut mask = DirMask::empty();
    mask.insert(Direction::East.mask());
    mask.insert(Direction::Up.mask());

    assert!(mask.contains_dir(Direction::East));
    assert!(mask.contains_dir(Direction::Up));
    assert!(!mask.contains_dir(Direction::Down));
    assert!(!mask.contains_dir(Direction::West));
}

#[test]
fn test_parse_loose() {
    assert_eq!(Direction::parse_loose("+x"), Some(Direction::East));
    assert_eq!(Direction::parse_loose("Down"), Some(Direction::Down));
    assert_eq!(Direction::parse_loose("-Z"), Some(Direction::North));
    assert_eq!(Direction::parse_loose("invalid"), None);
}

#[test]
fn parse_loose_trims_and_ignores_case() {
    assert_eq!(Direction::parse_loose("  SOUTH\t"), Some(Direction::South));
    assert_eq!(Direction::parse_loose("\u{3000}west\n"), Some(Direction::West));
    assert_eq!(Direction::parse_loose("+Y"), Some(Direction::Up));
    assert_eq!(Direction::parse_loose(""), None);
    assert_eq!(Direction::parse_loose("up down"), None);
}

#[test]
fn as_str_round_trips_through_parse_loose() {
    for d in Direction::ALL {
        assert_eq!(Direction::parse_loose(d.as_str()), Some(d));
        let padded = format!(" \t{}\n ", d.as_str().to_ascii_uppercase());
        assert_eq!(Direction::parse_loose(&padded), Some(d));
    }
    assert_eq!(Direction::North.as_str(), "north");
}

#[test]
fn from_index_out_of_range_is_none() {
    assert_eq!(Direction::from_index(6), None);
    assert_eq!(Direction::from_index(usize::MAX), None);
}

#[test]
fn offsets_of_opposites_cancel() {
    for d in Direction::ALL {
        let a = d.offset();
        let b = d.opposite().offset();
        assert_eq!((a.0 + b.0, a.1 + b.1, a.2 + b.2), (0, 0, 0));
        assert_ne!(d.opposite(), d);
    }
    assert_eq!(Direction::South.offset(), (0, 0, 1));
    assert_eq!(Direction::Down.offset(), (0, -1, 0));
}

#[test]
fn masks_are_single_bits() {
    let mut all = DirMask::empty();
    for d in Direction::ALL {
        let m = d.mask();
        assert_eq!(m.bits().count_ones(), 1);
        for e in Direction::ALL {
            assert_eq!(m.contains_dir(e), d == e);
        }
        all.insert(m);
    }
    assert_eq!(all, DirMask::all());
    assert_eq!(DirMask::all().bits(), 63);
    assert!(DirMask::empty().is_empty());
    assert_eq!(DirMask::from_bits_truncate(0xFF).bits(), 63);
    let mut m = DirMask::all();
    m.remove(Direction::Up.mask());
    assert!(!m.contains_dir(Direction::Up));
    assert!(m.contains(Direction::Down.mask()));
    assert_eq!(Direction::East.mask().union(Direction::West.mask()).bits(), 3);
}
