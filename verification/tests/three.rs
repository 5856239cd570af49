use advent::challenge::{Challenge as _, Error};
use advent::text::NumberError;
use advent::three::{
    calculate, closest, length, positions, wires, Challenge, Direction, Motion, MotionCause,
    ParseDirectionError, ParseMotionError, Pos, WireError,
};

#[test]
fn test_calculate() {
    let input_str = "R8,U5,L5,D3
U7,R6,D4,L4";
    let expectation = 6;
    let result = calculate(input_str);
    assert_eq!(Ok(expectation), result);

    let input_str = "R75,D30,R83,U83,L12,D49,R71,U7,L72
U62,R66,U55,R34,D71,R55,D58,R83";
    let expectation = 159;
    let result = calculate(input_str);
    assert_eq!(Ok(expectation), result);

    let input_str = "R98,U47,R26,D63,R33,U87,L62,D20,R33,U53,R51
U98,R91,D20,R16,D67,R40,U7,R15,U6,R7";
    let expectation = 135;
    let result = calculate(input_str);
    assert_eq!(Ok(expectation), result);
}

#[test]
fn test_motion_expand() {
    let mot = Motion(Direction::U, 10);
    let mots: Vec<Motion> = mot.expand();
    assert_eq!(
        [
            Motion(Direction::U, 1),
            Motion(Direction::U, 1),
            Motion(Direction::U, 1),
            Motion(Direction::U, 1),
            Motion(Direction::U, 1),
            Motion(Direction::U, 1),
            Motion(Direction::U, 1),
            Motion(Direction::U, 1),
            Motion(Direction::U, 1),
            Motion(Direction::U, 1),
        ],
        mots[..]
    );
}

#[test]
fn a_motion_of_no_steps_expands_to_nothing() {
    assert_eq!(Motion(Direction::L, 0).expand(), vec![]);
    assert_eq!(
        Motion(Direction::L, 1).expand(),
        vec![Motion(Direction::L, 1)]
    );
}

#[test]
fn reads_directions() {
    assert_eq!(Direction::from_str("U"), Ok(Direction::U));
    assert_eq!(Direction::from_str("R"), Ok(Direction::R));
    assert_eq!(Direction::from_str("D"), Ok(Direction::D));
    assert_eq!(Direction::from_str("L"), Ok(Direction::L));
    assert_eq!(
        Direction::from_str("u"),
        Err(ParseDirectionError("u".to_string()))
    );
    assert_eq!(
        Direction::from_str(""),
        Err(ParseDirectionError(String::new()))
    );
    assert_eq!(
        Direction::from_str("UU"),
        Err(ParseDirectionError("UU".to_string()))
    );
}

#[test]
fn reads_motions() {
    assert_eq!(Motion::from_str("R75"), Ok(Motion(Direction::R, 75)));
    assert_eq!(Motion::from_str("U0"), Ok(Motion(Direction::U, 0)));
    assert_eq!(Motion::from_str("D+7"), Ok(Motion(Direction::D, 7)));
    assert_eq!(
        Motion::from_str("L18446744073709551615"),
        Ok(Motion(Direction::L, u64::MAX))
    );
    assert_eq!(
        Motion::from_str("X75"),
        Err(ParseMotionError(
            "X75".to_string(),
            MotionCause::Direction(ParseDirectionError("X".to_string()))
        ))
    );
    assert_eq!(
        Motion::from_str("R"),
        Err(ParseMotionError(
            "R".to_string(),
            MotionCause::Distance(NumberError::Empty)
        ))
    );
    assert_eq!(
        Motion::from_str("R7x"),
        Err(ParseMotionError(
            "R7x".to_string(),
            MotionCause::Distance(NumberError::InvalidDigit)
        ))
    );
    assert_eq!(
        Motion::from_str("R18446744073709551616"),
        Err(ParseMotionError(
            "R18446744073709551616".to_string(),
            MotionCause::Distance(NumberError::TooLarge)
        ))
    );
    assert_eq!(
        Motion::from_str(""),
        Err(ParseMotionError(
            String::new(),
            MotionCause::Direction(ParseDirectionError(String::new()))
        ))
    );
    assert_eq!(
        Motion::from_str("é5"),
        Err(ParseMotionError(
            "é5".to_string(),
            MotionCause::Direction(ParseDirectionError("é".to_string()))
        ))
    );
}

#[test]
fn moves_in_the_four_directions() {
    let p = Pos(3, -4);
    assert_eq!(p.mv(&Motion(Direction::U, 5)), Pos(3, 1));
    assert_eq!(p.mv(&Motion(Direction::R, 5)), Pos(8, -4));
    assert_eq!(p.mv(&Motion(Direction::D, 5)), Pos(3, -9));
    assert_eq!(p.mv(&Motion(Direction::L, 5)), Pos(-2, -4));
    assert_eq!(p.mv(&Motion(Direction::L, 0)), p);
    assert_eq!(Pos::origin(), Pos(0, 0));
    assert_eq!(
        Pos(i64::MIN, 0).mv(&Motion(Direction::R, u64::MAX)),
        Pos(i64::MAX, 0)
    );
}

#[test]
fn distance_adds_the_two_offsets() {
    assert_eq!(Pos(0, 0).dist(&Pos(3, 4)), 7);
    assert_eq!(Pos(0, 0).dist(&Pos(-3, 4)), 7);
    assert_eq!(Pos(3, -4).dist(&Pos(-3, 4)), 14);
    assert_eq!(Pos(5, 5).dist(&Pos(5, 5)), 0);
    assert_eq!(Pos(2, 9).dist(&Pos(7, 1)), Pos(7, 1).dist(&Pos(2, 9)));
    assert_eq!(Pos(i64::MIN, 0).dist(&Pos(i64::MAX, 0)), u64::MAX);
}

#[test]
fn follows_a_wire_step_by_step() {
    let wire = vec![
        Motion(Direction::R, 2),
        Motion(Direction::U, 1),
        Motion(Direction::L, 3),
        Motion(Direction::D, 0),
    ];
    assert_eq!(
        positions(&wire),
        vec![
            Pos(1, 0),
            Pos(2, 0),
            Pos(2, 1),
            Pos(1, 1),
            Pos(0, 1),
            Pos(-1, 1)
        ]
    );
    assert_eq!(positions(&vec![]), vec![]);
    assert_eq!(length(&wire), Some(6));
    assert_eq!(length(&vec![]), Some(0));
    assert_eq!(
        length(&vec![Motion(Direction::R, u64::MAX), Motion(Direction::U, 1)]),
        None
    );
}

#[test]
fn finds_the_nearest_common_point() {
    let one = vec![Pos(1, 0), Pos(2, 0), Pos(3, 0), Pos(3, 1)];
    let two = vec![Pos(0, 1), Pos(1, 1), Pos(2, 1), Pos(3, 1), Pos(3, 0)];
    assert_eq!(closest(&one, &two), Some(3));
    assert_eq!(closest(&two, &one), Some(3));
    assert_eq!(closest(&one, &vec![Pos(0, 1)]), None);
    assert_eq!(closest(&vec![], &two), None);
    assert_eq!(
        closest(&vec![Pos(-4, 2), Pos(0, 0)], &vec![Pos(-4, 2)]),
        Some(6)
    );
    assert_eq!(
        closest(&vec![Pos(0, -1), Pos(-1, 0)], &vec![Pos(-1, 0), Pos(0, -1)]),
        Some(1)
    );
}

#[test]
fn the_origin_counts_only_if_a_wire_comes_back() {
    assert_eq!(calculate("R2\nU2"), Err(WireError::NoCrossing));
    assert_eq!(calculate("R2,L2\nU2,D2"), Ok(0));
}

#[test]
fn reads_wires_line_by_line() {
    assert_eq!(
        wires("R8,U5\nU7"),
        Ok(vec![
            vec![Motion(Direction::R, 8), Motion(Direction::U, 5)],
            vec![Motion(Direction::U, 7)]
        ])
    );
    assert_eq!(wires(""), Ok(vec![]));
    assert_eq!(
        wires("R8,U5\nU7,,L1\nQ"),
        Err(ParseMotionError(
            String::new(),
            MotionCause::Direction(ParseDirectionError(String::new()))
        ))
    );
}

#[test]
fn says_why_there_is_no_crossing() {
    assert_eq!(calculate(""), Err(WireError::MissingWire));
    assert_eq!(calculate("R8,U5"), Err(WireError::MissingWire));
    assert_eq!(
        calculate("R8,U5\nU7,R6\nD4,x"),
        Err(WireError::Parse(ParseMotionError(
            "x".to_string(),
            MotionCause::Direction(ParseDirectionError("x".to_string()))
        )))
    );
    assert_eq!(
        calculate("R8\nU7,R9223372036854775807"),
        Err(WireError::TooLong)
    );
    assert_eq!(
        calculate("R18446744073709551615,R1\nU7"),
        Err(WireError::TooLong)
    );
    assert_eq!(calculate("R8\nL8"), Err(WireError::NoCrossing));
    assert_eq!(
        calculate("R8\nR3\nR"),
        Err(WireError::Parse(ParseMotionError(
            "R".to_string(),
            MotionCause::Distance(NumberError::Empty)
        )))
    );
    assert_eq!(calculate("R8\nR3\nU1"), Ok(1));
}

#[test]
fn wire_errors_in_words() {
    assert_eq!(
        ParseDirectionError("x".to_string()).to_string(),
        "x is not a valid direction"
    );
    assert_eq!(
        ParseMotionError(
            "x1".to_string(),
            MotionCause::Direction(ParseDirectionError("x".to_string()))
        )
        .to_string(),
        "Motion parse failed on string \"x1\": x is not a valid direction"
    );
    assert_eq!(
        ParseMotionError("Rx".to_string(), MotionCause::Distance(NumberError::InvalidDigit))
            .to_string(),
        "Motion parse failed on string \"Rx\": invalid digit found in string"
    );
    assert_eq!(WireError::MissingWire.to_string(), "No instruction streams");
    assert_eq!(WireError::NoCrossing.to_string(), "no minimum");
    assert_eq!(WireError::TooLong.to_string(), "The wire is too long");
}

#[test]
fn part_one_of_the_third_puzzle() {
    let mut challenge = Challenge::new();
    let source = challenge.source("one").unwrap();
    assert_eq!((source.challenge, source.part), ("3", "1.txt"));
    assert!(challenge.source("two").is_none());

    assert_eq!(
        challenge.run("one", Ok("R8,U5,L5,D3\nU7,R6,D4,L4\n")),
        Ok("6".to_string())
    );
    assert_eq!(
        challenge.run_one(Ok("R8,U5,L5,D3\nU7,R6,D4,L4\n")),
        Ok("6".to_string())
    );
    assert_eq!(
        challenge.run("one", Ok("R8,U5,L5,D3")),
        Err(Error::Failure("No instruction streams".to_string()))
    );
    assert_eq!(
        challenge.run("one", Ok("R8,U5,L5,D3\nU7,R6,D4,4")),
        Err(Error::Failure(
            "Motion parse failed on string \"4\": 4 is not a valid direction".to_string()
        ))
    );
    assert_eq!(
        challenge.run("one", Err("gone")),
        Err(Error::Failure(
            "Failed to read input file 1.txt for part 1 of challenge 3: gone".to_string()
        ))
    );
    assert_eq!(
        challenge.run("two", Ok("")),
        Err(Error::MissingPart("Part two is not implemented".to_string()))
    );
}
