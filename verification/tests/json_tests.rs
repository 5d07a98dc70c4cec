use customer_locator::customer_json_file::{
    parse_customer_line, parse_customer_lines, CustomerJsonFile, CustomerJsonFileError,
};

fn fixture_lines() -> Vec<String> {
    vec![
        String::from(r#"{"latitude": 52.986375, "user_id": 1, "name": "Jose Narvaez", "longitude": -6.043701}"#),
        String::from(r#"{"latitude": 51.92893, "user_id": 2, "name": "Carlos Narvaez", "longitude": -10.27699}"#),
        String::from(r#"{"latitude": 51.8856167, "user_id": 3, "name": "Maholys Narvaez", "longitude": -10.4240951}"#),
    ]
}

#[test]
fn customer_json_file_remembers_its_path() {
    let file = CustomerJsonFile::new("data/customers.json");
    assert_eq!("data/customers.json", file.file_path());
}

#[test]
fn parse_customer_lines_builds_records_from_json_lines() {
    let records = parse_customer_lines(&fixture_lines()).unwrap();
    assert_eq!(3, records.len());
    assert_eq!(1, records[0].user_id);
    assert_eq!("Jose Narvaez", records[0].name.as_str());
    assert_eq!("52.986375", records[0].latitude.as_str());
    assert_eq!("-6.043701", records[0].longitude.as_str());
    assert_eq!(2, records[1].user_id);
    assert_eq!("Carlos Narvaez", records[1].name.as_str());
    assert_eq!(3, records[2].user_id);
    assert_eq!("-10.4240951", records[2].longitude.as_str());
}

#[test]
fn parse_customer_lines_returns_json_error_when_malformed_json_occurs() {
    let mut lines = fixture_lines();
    lines.insert(1, String::from("this is no json object"));
    match parse_customer_lines(&lines) {
        Err(CustomerJsonFileError::Json(_)) => {}
        Err(CustomerJsonFileError::Io(_)) => {
            panic!("this was not supposed to return io error")
        }
        Ok(_) => panic!("this was supposed to fail"),
    }
}

#[test]
fn parse_customer_line_rejects_a_missing_field() {
    let line = r#"{"latitude": 52.986375, "user_id": 1, "longitude": -6.043701}"#;
    assert!(parse_customer_line(line).is_err());
}

#[test]
fn parse_customer_line_rejects_a_wrongly_typed_field() {
    let not_an_integer = r#"{"latitude": 52.986375, "user_id": "1", "name": "x", "longitude": -6.043701}"#;
    assert!(parse_customer_line(not_an_integer).is_err());
    let latitude_as_string =
        r#"{"latitude": "52.986375", "user_id": 1, "name": "x", "longitude": -6.043701}"#;
    assert!(parse_customer_line(latitude_as_string).is_err());
}

#[test]
fn parse_customer_line_ignores_extra_fields() {
    let line = r#"{"latitude": 52.986375, "user_id": 25, "name": "David Behan", "longitude": -8.522366, "note": "extra"}"#;
    let record = parse_customer_line(line).unwrap();
    assert_eq!(25, record.user_id);
    assert_eq!("David Behan", record.name.as_str());
    assert_eq!("-8.522366", record.longitude.as_str());
}

#[test]
fn json_file_error_message_names_the_category() {
    let json_err = match parse_customer_lines(&vec![String::from("{broken")]) {
        Err(err) => err,
        Ok(_) => panic!("this was supposed to fail"),
    };
    assert!(json_err.message().starts_with("Customer Json file parsing error: "));

    let io_err = CustomerJsonFileError::Io(std::io::Error::new(
        std::io::ErrorKind::NotFound,
        "no such file",
    ));
    assert!(io_err.message().starts_with("Customer Json file IO error: "));
}
