use csv2json::args::{get_args, resolve, usage_of, Args, Request};
use csv2json::error::{ConvertError, UsageError, UsageKind};

const USAGE: &str = "Usage: prog SOURCE_FILE_NAME [options]\n\nOptions:\n    -o TARGET_FILE_NAME The path of the output file including the file\n                        extension.\n    -n, --null          Empty strings are set to null.\n    -h, --help          Prints this help menu.\n";

fn command_line(words: &[&str]) -> Vec<String> {
    words.iter().map(|word| word.to_string()).collect()
}

fn convert_request(input: &str, output: Option<&str>) -> Result<Request, ConvertError> {
    Ok(Request::Convert(Args {
        input: input.to_string(),
        output: output.map(|name| name.to_string()),
    }))
}

fn usage_failure(kind: UsageKind, option: &str) -> Result<Request, ConvertError> {
    Err(ConvertError::Usage(UsageError {
        kind,
        option: option.to_string(),
    }))
}

fn program_options() -> getopts::Options {
    let mut options = getopts::Options::new();
    options.optopt(
        "o",
        "",
        "The path of the output file including the file extension.",
        "TARGET_FILE_NAME",
    );
    options.optflag("n", "null", "Empty strings are set to null.");
    options.optflag("h", "help", "Prints this help menu.");
    options
}

#[test]
fn source_alone_asks_for_a_conversion() {
    assert_eq!(
        get_args(&command_line(&["prog", "data.csv"])),
        convert_request("data.csv", None)
    );
}

#[test]
fn destination_is_taken_from_o() {
    assert_eq!(
        get_args(&command_line(&["prog", "data.csv", "-o", "out.json"])),
        convert_request("data.csv", Some("out.json"))
    );
    assert_eq!(
        get_args(&command_line(&["prog", "-o", "out.json", "data.csv"])),
        convert_request("data.csv", Some("out.json"))
    );
    assert_eq!(
        get_args(&command_line(&["prog", "-oout.json", "data.csv"])),
        convert_request("data.csv", Some("out.json"))
    );
}

#[test]
fn help_alone_asks_for_the_usage_text() {
    assert_eq!(
        get_args(&command_line(&["prog", "-h"])),
        Ok(Request::Usage(USAGE.to_string()))
    );
    assert_eq!(
        get_args(&command_line(&["prog", "--help"])),
        Ok(Request::Usage(USAGE.to_string()))
    );
}

#[test]
fn help_wins_over_a_source_name() {
    assert_eq!(
        get_args(&command_line(&["prog", "data.csv", "-h", "-o", "out.json"])),
        Ok(Request::Usage(USAGE.to_string()))
    );
}

#[test]
fn no_source_name_asks_for_the_usage_text() {
    assert_eq!(
        get_args(&command_line(&["prog"])),
        Ok(Request::Usage(USAGE.to_string()))
    );
    assert_eq!(
        get_args(&command_line(&["prog", "-o", "out.json"])),
        Ok(Request::Usage(USAGE.to_string()))
    );
    assert_eq!(
        get_args(&command_line(&["prog", "-n"])),
        Ok(Request::Usage(USAGE.to_string()))
    );
}

#[test]
fn usage_text_names_the_program() {
    let request = get_args(&command_line(&["/usr/bin/csv2json", "--help"]));
    match request {
        Ok(Request::Usage(text)) => {
            assert!(text.starts_with("Usage: /usr/bin/csv2json SOURCE_FILE_NAME [options]\n\nOptions:\n"));
        }
        _ => panic!("the usage text was expected"),
    }
}

#[test]
fn null_flag_changes_nothing() {
    assert_eq!(
        get_args(&command_line(&["prog", "-n", "data.csv"])),
        get_args(&command_line(&["prog", "data.csv"]))
    );
    assert_eq!(
        get_args(&command_line(&["prog", "--null", "data.csv", "-o", "out.json"])),
        convert_request("data.csv", Some("out.json"))
    );
}

#[test]
fn first_free_argument_is_the_source() {
    assert_eq!(
        get_args(&command_line(&["prog", "one.csv", "two.csv"])),
        convert_request("one.csv", None)
    );
}

#[test]
fn names_are_not_checked_by_the_resolver() {
    assert_eq!(
        get_args(&command_line(&["prog", "data.txt", "-o", "out.txt"])),
        convert_request("data.txt", Some("out.txt"))
    );
}

#[test]
fn unknown_option_is_a_usage_error() {
    assert_eq!(
        get_args(&command_line(&["prog", "-x", "data.csv"])),
        usage_failure(UsageKind::UnrecognizedOption, "x")
    );
    assert_eq!(
        get_args(&command_line(&["prog", "--frobnicate"])),
        usage_failure(UsageKind::UnrecognizedOption, "frobnicate")
    );
}

#[test]
fn option_without_its_value_is_a_usage_error() {
    assert_eq!(
        get_args(&command_line(&["prog", "data.csv", "-o"])),
        usage_failure(UsageKind::ArgumentMissing, "o")
    );
}

#[test]
fn option_given_twice_is_a_usage_error() {
    assert_eq!(
        get_args(&command_line(&["prog", "data.csv", "-o", "a.json", "-o", "b.json"])),
        usage_failure(UsageKind::OptionDuplicated, "o")
    );
    assert_eq!(
        get_args(&command_line(&["prog", "-h", "--help"])),
        usage_failure(UsageKind::OptionDuplicated, "help")
    );
}

#[test]
fn value_for_a_flag_is_a_usage_error() {
    assert_eq!(
        get_args(&command_line(&["prog", "--null=yes", "data.csv"])),
        usage_failure(UsageKind::UnexpectedArgument, "null")
    );
}

#[test]
fn usage_error_wins_over_help() {
    assert_eq!(
        get_args(&command_line(&["prog", "-h", "-x"])),
        usage_failure(UsageKind::UnrecognizedOption, "x")
    );
}

#[test]
fn resolve_reads_the_matches_of_a_parse() {
    let options = program_options();
    let matches = options.parse(["in.csv", "-o", "out.json", "more"]).unwrap();
    assert_eq!(
        resolve("prog", &options, &matches),
        Request::Convert(Args {
            input: "in.csv".to_string(),
            output: Some("out.json".to_string()),
        })
    );
    let matches = options.parse(["-h", "in.csv"]).unwrap();
    assert_eq!(
        resolve("prog", &options, &matches),
        Request::Usage(USAGE.to_string())
    );
    let matches = options.parse(["-n"]).unwrap();
    assert_eq!(
        resolve("prog", &options, &matches),
        Request::Usage(USAGE.to_string())
    );
}

#[test]
fn usage_of_is_the_usage_text_of_the_options() {
    let options = program_options();
    assert_eq!(usage_of("prog", &options), USAGE.to_string());
    assert_eq!(
        usage_of("prog", &options),
        options.usage("Usage: prog SOURCE_FILE_NAME [options]")
    );
    let empty = getopts::Options::new();
    assert_eq!(
        usage_of("p", &empty),
        "Usage: p SOURCE_FILE_NAME [options]\n\nOptions:\n\n".to_string()
    );
}
