use advent::challenge;
use advent::input::{path, read_error};
use advent::runner::{Error, Runner};

#[test]
fn runs_the_solver_of_the_day() {
    let mut runner = Runner::new();
    assert_eq!(
        runner.run("one", "one", Ok("12\n14\n1969\n100756\n")),
        Ok("34241".to_string())
    );
    assert_eq!(
        runner.run("one", "two", Ok("12\n14\n1969\n100756\n")),
        Ok("51316".to_string())
    );
    assert_eq!(
        runner.run("two", "one", Ok("1,0,0,0,99,7,8,9,10,11,12,13,30")),
        Ok("Final value: 32".to_string())
    );
}

#[test]
fn an_unknown_day_is_a_missing_challenge() {
    let mut runner = Runner::new();
    assert_eq!(
        runner.run("three", "one", Ok("R8\nU8")),
        Err(Error::MissingChallenge(
            "No challenge for day three has been registered".to_string()
        ))
    );
    assert_eq!(
        runner.run("", "one", Err("unread")),
        Err(Error::MissingChallenge(
            "No challenge for day  has been registered".to_string()
        ))
    );
    assert!(runner.source("three", "one").is_none());
    assert!(runner.source("four", "one").is_none());
}

#[test]
fn a_failure_of_the_solver_is_handed_on() {
    let mut runner = Runner::new();
    assert_eq!(
        runner.run("one", "three", Ok("")),
        Err(Error::Failure("three".to_string()))
    );
    assert_eq!(
        runner.run("two", "two", Ok("")),
        Err(Error::Failure("No part two available".to_string()))
    );
    assert_eq!(
        runner.run("two", "one", Ok("1,0,0,0")),
        Err(Error::Failure(
            "Error running script: Math failed: No value at position 12".to_string()
        ))
    );
    assert_eq!(
        runner.run("two", "one", Ok("1")),
        Err(Error::Failure("Failed to insert at position 1".to_string()))
    );
    assert_eq!(
        runner.run("one", "one", Err("no such file")),
        Err(Error::Failure(
            "Failed to read input file 1.txt for part one of challenge one: no such file"
                .to_string()
        ))
    );
}

#[test]
fn names_the_input_of_each_part() {
    let runner = Runner::new();
    let file = runner.source("one", "one").unwrap();
    assert_eq!((file.challenge, file.part), ("1", "1.txt"));
    let file = runner.source("one", "two").unwrap();
    assert_eq!((file.challenge, file.part), ("1", "2.txt"));
    let file = runner.source("two", "one").unwrap();
    assert_eq!((file.challenge, file.part), ("2", "1.txt"));
    assert!(runner.source("two", "two").is_none());
    assert!(runner.source("one", "").is_none());
    assert_eq!(path(file.challenge, file.part), "inputs/2/1.txt");
    assert_eq!(path("", ""), "inputs//");
}

#[test]
fn says_that_an_input_could_not_be_read() {
    assert_eq!(
        read_error("2", "1", "1.txt", "No such file or directory (os error 2)"),
        challenge::Error::Failure(
            "Failed to read input file 1.txt for part 1 of challenge 2: No such file or directory (os error 2)"
                .to_string()
        )
    );
}

#[test]
fn errors_give_their_message() {
    assert_eq!(
        challenge::Error::MissingPart("three".to_string()).to_string(),
        "three"
    );
    assert_eq!(
        challenge::Error::Failure("it failed".to_string()).to_string(),
        "it failed"
    );
    assert_eq!(
        Error::MissingChallenge("no such day".to_string()).to_string(),
        "no such day"
    );
    assert_eq!(Error::Failure("it failed".to_string()).to_string(), "it failed");
}
