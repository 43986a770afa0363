use endgame_grid::direction::Direction::{East, NorthEast, North, NorthWest, West, SouthWest, South, SouthEast};
use endgame_grid::direction::{Direction, DirectionSet};
use std::borrow::Borrow;

/// All eight directions, in index order.
fn all_directions() -> Vec<Direction> {
    Direction::values().to_vec()
}

/// Every subset of the eight directions.
fn powerset() -> Vec<DirectionSet> {
    let dirs = all_directions();
    let mut sets = Vec::new();
    for mask in 0u32..256 {
        let mut set = DirectionSet::new();
        for (i, dir) in dirs.iter().enumerate() {
            if mask & (1 << i) != 0 {
                set.insert(*dir);
            }
        }
        sets.push(set);
    }
    sets
}

#[test]
fn directionset_borrow() {
    for dirs1 in powerset() {
        for dirs2 in powerset() {
            assert!(
                dirs1 != dirs2 || dirs1.borrow() == dirs2.borrow(),
                "Borrow condition not satisfied: {:?} == {:?} but {:?} != {:?}",
                dirs1,
                dirs2,
                <DirectionSet as Borrow<DirectionSet>>::borrow(&dirs1),
                <DirectionSet as Borrow<DirectionSet>>::borrow(&dirs2)
            );
        }
    }
}

#[test]
fn direction_containment() {
    let all_directions = Direction::values();
    // Verify that the cardinal and ordinal directions are subsets of the
    // complete set of directions.
    for (name, dirs) in [
        ("Cardinal", Direction::cardinal()),
        ("Ordinal", Direction::ordinal()),
    ] {
        assert!(
            !dirs.is_superset(&all_directions),
            "The {name} directions should not be a superset of all directions."
        );
        assert!(
            all_directions.is_superset(&dirs),
            "All directions are not a superset of the {name} directions"
        );
        assert!(
            dirs.is_subset(&all_directions),
            "The {name} directions are not a subset of all directions."
        );
        assert!(
            !all_directions.is_subset(&dirs),
            "The {name} directions should not be a subset of all directions."
        )
    }

    // Verify that the cardinal and ordinal directions are disjoint.
    assert!(
        Direction::cardinal()
            .intersection(&Direction::ordinal())
            .is_empty(),
        "Cardinal and Ordinal directions are not disjoint."
    );

    // Check that set differencing over cardinal and ordinal directions
    // behaves as expected.
    assert_eq!(
        Direction::values().difference(&Direction::cardinal()),
        Direction::ordinal(),
        "Removing the cardinal directions from all directions should yield the ordinal directions."
    );
    assert_eq!(
        Direction::values().difference(&Direction::ordinal()),
        Direction::cardinal(),
        "Removing the ordinal directions from all directions should yield the cardinal directions."
    );

    assert_eq!(
        Direction::values(),
        Direction::cardinal().union(&Direction::ordinal()),
        "Union of the cardinal and ordinal directions should be the same as all directions."
    )
}

#[test]
fn test_is_ordinal() {
    for dir in Direction::ordinal().to_vec() {
        assert!(
            dir.is_ordinal(),
            "Ordinal direction {} is not in the ordinal set.",
            dir.name()
        );
        assert!(
            !dir.is_cardinal(),
            "Non-ordinal direction {} is incorrectly in the ordinal set.",
            dir.name()
        );
    }
}

#[test]
fn test_is_cardinal() {
    for dir in Direction::cardinal().to_vec() {
        assert!(
            dir.is_cardinal(),
            "Cardinal direction {} is not in the cardinal set.",
            dir.name()
        );
        assert!(
            !dir.is_ordinal(),
            "Non-cardinal direction {} is incorrectly in the cardinal set.",
            dir.name()
        );
    }
}

#[test]
fn test_containment() {
    for (name, dirs) in [
        ("Cardinal", Direction::cardinal()),
        ("Ordinal", Direction::ordinal()),
    ] {
        for dir in dirs.to_vec() {
            assert!(
                dirs.contains(dir),
                "Direction {} in set {name} via iterator, but not by containment.",
                dir.name()
            );
        }
    }
}

#[test]
fn test_direction_rotation() {
    for dir in all_directions() {
        assert_eq!(
            dir,
            dir.clockwise().counter_clockwise(),
            "clockwise and counter-clockwise on {} are not inverses.",
            dir.name()
        );

        assert_eq!(
            dir.rotate(1),
            dir.clockwise(),
            "Rotating by a single step should be equivalent to rotating clockwise.",
        );

        assert_eq!(
            dir.rotate(-1),
            dir.counter_clockwise(),
            "Rotating by negative step should be equivalent to rotating counter-clockwise.",
        );

        assert_eq!(
            dir.rotate(8),
            dir,
            "Rotating by eight steps should be an identity.",
        );

        assert_eq!(
            dir.rotate(-8),
            dir,
            "Rotating by negative eight steps should be an identity.",
        );
    }
}

#[test]
fn test_direction_invertibility() {
    for dir in all_directions() {
        assert_eq!(
            dir,
            dir.opposite().opposite(),
            "opposite operation on {} is not invertible.",
            dir.name()
        );
    }
}

#[test]
fn test_from_slice() {
    let slice = [
        Direction::North,
        Direction::East,
        Direction::South,
        Direction::West,
    ];
    let dir_set = DirectionSet::from_slice(&slice);
    assert!(!dir_set.is_empty(), "The set should not be empty.");
    assert!(dir_set.contains(Direction::North));
    assert!(dir_set.contains(Direction::East));
    assert!(dir_set.contains(Direction::South));
    assert!(dir_set.contains(Direction::West));
    assert!(!dir_set.contains(Direction::NorthEast));

    let dir_set = dir_set.difference(&Direction::cardinal());
    assert!(
        dir_set.is_empty(),
        "The set should be empty after removing all cardinal directions."
    );

    let slice = [Direction::West, Direction::West];
    let dir_set = DirectionSet::from_slice(&slice);
    assert!(dir_set.contains(Direction::West));
    assert_eq!(dir_set.len(), 1, "The set should just contain West.");

    for dir in all_directions() {
        let dir_set = DirectionSet::from_slice(&[dir]);
        assert!(
            dir_set.contains(dir),
            "Direction {} should be in the set.",
            dir.name()
        );
    }

    assert!(
        DirectionSet::from_slice(&[]).is_empty(),
        "DirectionSet from empty slice should be empty."
    );
}

#[test]
fn test_insert_and_remove() {
    let mut dir_set = DirectionSet::new();
    assert!(dir_set.is_empty(), "New direction set should be empty.");

    for dir in all_directions() {
        assert!(
            !dir_set.contains(dir),
            "Direction {} should not be in the set.",
            dir.name()
        );
        assert!(
            dir_set.insert(dir),
            "Direction {} should not be in the set.",
            dir.name()
        );
        assert!(
            dir_set.contains(dir),
            "Direction {} should now be in the set.",
            dir.name()
        );
    }

    for dir in all_directions() {
        assert!(
            dir_set.contains(dir),
            "Direction {} should be in the set before removal.",
            dir.name()
        );
        assert!(
            dir_set.remove(dir),
            "Direction {} should be in the set before removal.",
            dir.name()
        );
        assert!(
            !dir_set.contains(dir),
            "Direction {} should no longer be in the set.",
            dir.name()
        );
    }

    assert!(
        dir_set.is_empty(),
        "Direction set should be empty after removing all directions."
    );
}

#[test]
fn test_iteration() {
    for (name, dirs) in [
        ("all", Direction::values()),
        ("cardinal", Direction::cardinal()),
        ("ordinal", Direction::ordinal()),
    ] {
        let mut dir_set = DirectionSet::new();

        let mut iter = dirs.iter();
        let mut count = 0;
        for dir in dirs.to_vec() {
            assert_eq!(iter.next(), Some(dir));
            count += 1;
            assert!(
                dir_set.insert(dir),
                "Direction {} should not have already been in the set.",
                dir.name()
            );
            assert!(
                count <= dirs.len(),
                "Iterated over too many directions in {} directions.",
                name
            );
        }
        assert_eq!(
            dirs, dir_set,
            "Iterator did not iterate over all {} directions.",
            name
        );
        assert_eq!(
            iter.next(),
            None,
            "Iterator did not end after all {} directions.",
            name
        );
    }
}

#[test]
fn test_direction_set_formatting() {
    let dir_set = Direction::values();
    let formatted = dir_set.to_display_string();
    assert_eq!(
        formatted, "{East, NorthEast, North, NorthWest, West, SouthWest, South, SouthEast}",
        "Formatted direction set does not match expected output."
    );
    let dir_set = DirectionSet::new();
    let formatted = dir_set.to_display_string();
    assert_eq!(
        formatted, "{}",
        "Formatted direction set does not match expected output."
    );
}

#[test]
fn test_direction_short_name_mappings() {
    let cases = [
        (East, "E"),
        (NorthEast, "NE"),
        (North, "N"),
        (NorthWest, "NW"),
        (West, "W"),
        (SouthWest, "SW"),
        (South, "S"),
        (SouthEast, "SE"),
    ];
    for (dir, expected) in cases {
        assert_eq!(
            dir.short_name(),
            expected,
            "short_name mismatch for {}",
            dir.name()
        );
    }
}

#[test]
fn test_direction_parse_success() {
    let success_cases: &[(&str, Direction)] = &[
        // Single-letter cardinal abbreviations
        ("e", East),
        ("n", North),
        ("w", West),
        ("s", South),
        // Two-letter ordinal abbreviations (mixed case)
        ("ne", NorthEast),
        ("NW", NorthWest),
        ("Se", SouthEast),
        ("sW", SouthWest),
        // Full names
        ("east", East),
        ("north", North),
        ("west", West),
        ("south", South),
        // Ordinals with separators
        ("north-east", NorthEast),
        ("north_east", NorthEast),
        ("south-west", SouthWest),
        ("south_west", SouthWest),
        ("south west", SouthWest),
        ("north east", NorthEast),
    ];

    for (input, expected) in success_cases {
        let parsed = Direction::parse(input);
        assert_eq!(parsed, Some(*expected), "parse failed for input '{input}'.");
    }
}

#[test]
fn test_direction_parse_failure() {
    // Inputs that should not match any direction name.
    let failure_cases = [
        // Empty and ASCII whitespace-only.
        "",
        " ",
        "\t\t",
        // Non-ASCII/Unicode whitespace-only (should trim to empty or not match)
        "\u{00A0}", // NO-BREAK SPACE
        "\u{2002}", // EN SPACE
        "\u{2003}", // EM SPACE
        "\u{2009}", // THIN SPACE
        "\u{200B}", // ZERO WIDTH SPACE
        "\u{3000}", // IDEOGRAPHIC SPACE
        // Clearly invalid strings.
        "123",
        "foo",
        // Invalid separator usage with spaces around hyphen (ASCII and Unicode)
        "east- west",         // ASCII space after hyphen is not allowed
        "north-\u{00A0}east", // NBSP after hyphen should not match
        "north\u{00A0}-east", // NBSP before hyphen should not match
        // Zero width joiners/spaces inserted between words should not match
        "north\u{200B}east",
        "south\u{200B}west",
        // Leading/trailing zero width space around otherwise valid tokens
        "north-east\u{200B}",
        "\u{200B}north-east",
        // Double underscore
        "north__east",
        "-ne",
        "se-",
        "_sw",
    ];

    for input in failure_cases {
        let parsed = Direction::parse(input);
        assert!(
            parsed.is_none(),
            "Unexpected parse success for input '{input}': {:?}.",
            parsed
        );
    }
}

#[test]
fn parse_joined_and_spaced_words() {
    // The two words of an intercardinal name may be joined directly or
    // separated by any amount of white space.
    assert_eq!(Direction::parse("northeast"), Some(NorthEast));
    assert_eq!(Direction::parse("SOUTHWEST"), Some(SouthWest));
    assert_eq!(Direction::parse("south   east"), Some(SouthEast));
    // An abbreviation does not combine with a full word.
    assert_eq!(Direction::parse("n e"), None);
    assert_eq!(Direction::parse("north-e"), None);
}
