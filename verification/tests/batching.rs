use steam_cli::string_parser::{batch_string, Error};

#[test]
fn batch_string_0() {
    let output = batch_string("something", 10, ' ').unwrap();
    assert_eq!(output, vec!["something"]);
}

#[test]
fn batch_string_1() {
    let output = batch_string("something else", 10, ' ').unwrap();
    assert_eq!(output, vec!["something", "else"]);
}

#[test]
fn batch_string_2() {
    let output = batch_string(
        "Lorem ipsum dolor sit amet, consectetur adipiscing elit, sed do eiusmod",
        15,
        ' ',
    )
    .unwrap();
    assert_eq!(
        output,
        vec!["Lorem ipsum", "dolor sit amet,", "consectetur", "adipiscing", "elit, sed do", "eiusmod"]
    );
}

#[test]
fn batch_string_refuses_an_uncuttable_stretch() {
    assert_eq!(batch_string("abcdefgh", 3, ' ').unwrap_err(), Error::SeparatorNotFound);
    assert_eq!(
        batch_string("ab cdefghij kl", 4, ' ').unwrap_err(),
        Error::SeparatorNotFound
    );
}

#[test]
fn batch_string_fits_each_batch_into_the_limit() {
    let input = "one two three four five six seven eight nine ten";
    let batches = batch_string(input, 9, ' ').unwrap();
    for b in &batches {
        assert!(b.chars().count() <= 9);
    }
    assert_eq!(batches.join(" "), input);
}
