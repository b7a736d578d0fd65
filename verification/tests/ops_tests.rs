use chat_relay::command::parse_params;
use chat_relay::ops::{Csv, Operation};

#[test]
fn parse_operation_from_str() {
    let operations = vec![
        ("lowercase", Operation::Lowercase),
        ("uppercase", Operation::Uppercase),
        ("no-spaces", Operation::NoSpace),
        ("slugify", Operation::Slugify),
        ("random", Operation::Random),
        ("alternating", Operation::Alternating),
        ("csv", Operation::Csv),
    ];

    for (op_string, expected) in operations {
        let operation_result: Result<Operation, String> = Operation::try_from(op_string);
        assert_eq!(operation_result.unwrap(), expected);
    }
}

#[test]
fn invalid_op_should_return_error() {
    let arg: Result<Operation, String> = Operation::try_from("sth");
    assert!(arg.is_err());
    assert_eq!(arg.unwrap_err(), "Invalid argument. Please use one of: lowercase, uppercase, no-spaces, slugify, random, alternating, csv".to_string());
}

#[test]
fn should_return_formatted_text() {
    let text = "Lorem ipsum dolor sit amet, consectetur adipiscing elit, sed";

    let test_data = vec![
        (Operation::Lowercase, text.to_lowercase()),
        (Operation::Uppercase, text.to_uppercase()),
        (
            Operation::NoSpace,
            "Loremipsumdolorsitamet,consecteturadipiscingelit,sed".to_string(),
        ),
        (
            Operation::Slugify,
            "lorem-ipsum-dolor-sit-amet-consectetur-adipiscing-elit-sed".to_string(),
        ),
    ];

    for (operation, expected) in test_data {
        let formatted = operation.format(text);
        assert!(formatted.is_ok());
        assert_eq!(formatted.unwrap(), expected);
    }
}

#[test]
fn valid_csv_should_print_a_table() {
    let data = "\
city,country,pop
Boston,United States,4628910
Prague,Czech Republic,123456
test,some looooooong string,11111111111111111111
,,
,,2929292929292
Paris,,1
,Greenland,";

    let csv = Csv::from_string(data);
    assert!(csv.is_ok());
    println!("{}", csv.unwrap().to_table_string());
}

#[test]
fn valid_csv_should_print_a_table2() {
    let data = "\
Username, Identifier,One-time password,Recovery code,First name,Last name,Department,Location
booker12,,12se74,rb9012,Rachel,Booker,Sales,Manchester
grey07,2070,04ap67,lg2070,Laura,Grey,,London
johnson81,4081,30no86,cj4081,Craig,Johnson,Depot,London
jenkins46,9346,,mj9346,Mary,Jenkins,Engineering,Manchester
smith79,5079,09ja61,js5079,Jamie,Smith,Engineering,";

    let csv = Csv::from_string(data);
    assert!(csv.is_ok());
    println!("{}", csv.unwrap().to_table_string());
}

#[test]
fn invalid_csv_should_return_error() {
    let data = "\
city,country,pop
Boston,";

    let csv = Csv::from_string(data);
    assert!(csv.is_err());
}

#[test]
fn should_parse_params() {
    let input = "lowercase This is some text";
    let parsed_data = parse_params(input);

    assert!(parsed_data.is_ok());
    assert_eq!(
        parsed_data.unwrap(),
        (Operation::Lowercase, "This is some text".to_string())
    );
}

#[test]
fn should_parse_params_for_csv() {
    let input = "csv input.csv";
    let parsed_data = parse_params(input);

    assert!(parsed_data.is_ok());
    assert_eq!(
        parsed_data.unwrap(),
        (Operation::Csv, "input.csv".to_string())
    );
}

#[test]
fn should_return_error_for_invalid_operation() {
    let input = "tsdfsd input.csv";
    let parsed_data = parse_params(input);

    assert!(parsed_data.is_err());
}

#[test]
fn csv_table_has_expected_layout() {
    let data = "\
a,bb
x,y";
    let table = Csv::from_string(data).unwrap().to_table_string();
    assert_eq!(
        table,
        "|---------|\n| a | bb  |\n|---------|\n| x | y   |\n|---------|\n"
    );
}

#[test]
fn format_run_matches_operations() {
    let out = chat_relay::command::run("uppercase", "abc").unwrap();
    assert_eq!(out, "ABC");
    assert!(chat_relay::command::run("nope", "abc").is_err());
}
