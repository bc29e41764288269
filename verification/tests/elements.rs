//! Per-kind parse and validate behaviour.

use form_fields::checkbox::Checkbox;
use form_fields::date::Date;
use form_fields::date_picker::DatePicker;
use form_fields::multiselect::MultiSelect;
use form_fields::number_field::NumberField;
use form_fields::passthrough::Passthrough;
use form_fields::password_field::PasswordField;
use form_fields::radio_button::RadioButton;
use form_fields::select::Select;
use form_fields::selectable::SelectOption;
use form_fields::text_field::TextField;
use form_fields::validation_value::Value;

fn opt(key: &str) -> SelectOption {
    SelectOption::new(key, key)
}

#[test]
fn checkbox_parse() {
    let checkbox = Checkbox {
        required_true: true,
        checked: false,
    };
    let mut intermediate = None;
    checkbox.parse("false", &mut intermediate);
    assert_eq!(intermediate, Some(false));
    checkbox.parse("true", &mut intermediate);
    assert_eq!(intermediate, Some(true));
    checkbox.parse("", &mut intermediate);
    assert_eq!(intermediate, None);
}

#[test]
fn checkbox_validate() {
    let checkbox = Checkbox {
        required_true: true,
        checked: false,
    };
    assert_eq!(checkbox.validate(&Some(true)), Ok(true));
    assert_eq!(checkbox.validate(&Some(false)), Err("Checkbox is required"));
    assert_eq!(checkbox.validate(&None), Err("Checkbox is required"));

    let checkbox = Checkbox {
        required_true: false,
        checked: false,
    };
    assert_eq!(checkbox.validate(&Some(true)), Ok(true));
    assert_eq!(checkbox.validate(&Some(false)), Ok(false));
    assert_eq!(checkbox.validate(&None), Ok(false));
}

#[test]
fn number_field_parse() {
    let number_field = NumberField {
        min: Some(10),
        max: Some(100),
    };
    let mut intermediate = Value::Absent;

    number_field.parse("50", &mut intermediate);
    assert!(matches!(intermediate, Value::Success(50)));

    number_field.parse("abc", &mut intermediate);
    assert!(matches!(intermediate, Value::Failure(_, _)));

    number_field.parse("", &mut intermediate);
    assert!(matches!(intermediate, Value::Absent));
}

#[test]
fn number_field_validate() {
    let number_field = NumberField {
        min: Some(10),
        max: Some(100),
    };

    assert_eq!(number_field.validate(&Value::Success(10)), Ok(10));
    assert_eq!(number_field.validate(&Value::Success(50)), Ok(50));
    assert_eq!(number_field.validate(&Value::Success(100)), Ok(100));
    assert_eq!(
        number_field.validate(&Value::Success(5)),
        Err("Value is less than min")
    );
    assert_eq!(
        number_field.validate(&Value::Success(150)),
        Err("Value exceeds max")
    );
    assert_eq!(
        number_field.validate(&Value::Absent),
        Err("Value is required")
    );
    // malformed input surfaces its own error, not the missing-value one
    assert_eq!(
        number_field.validate(&Value::Failure(
            "abc".to_string(),
            "Invalid number".to_string()
        )),
        Err("Invalid number")
    );
}

#[test]
fn number_field_parse_extremes() {
    let number_field = NumberField { min: None, max: None };
    let mut intermediate = Value::Absent;

    number_field.parse("9223372036854775807", &mut intermediate);
    assert!(matches!(intermediate, Value::Success(9223372036854775807)));

    number_field.parse("-9223372036854775808", &mut intermediate);
    assert!(matches!(intermediate, Value::Success(-9223372036854775808)));

    number_field.parse("9223372036854775808", &mut intermediate);
    assert!(matches!(intermediate, Value::Failure(_, _)));

    number_field.parse("+5", &mut intermediate);
    assert!(matches!(intermediate, Value::Success(5)));

    number_field.parse("5x", &mut intermediate);
    assert!(matches!(intermediate, Value::Failure(_, _)));

    number_field.parse("-", &mut intermediate);
    assert!(matches!(intermediate, Value::Failure(_, _)));
}

#[test]
fn malformed_input_kept_verbatim() {
    let number_field = NumberField { min: None, max: None };
    let mut intermediate = Value::Absent;
    number_field.parse("abc", &mut intermediate);
    match &intermediate {
        Value::Failure(raw, reason) => {
            assert_eq!(raw, "abc");
            assert_eq!(reason, "Invalid number");
        }
        other => panic!("expected a malformed state, got {:?}", other),
    }

    let date_picker = DatePicker { min: None, max: None };
    let mut intermediate = Value::Absent;
    date_picker.parse("not-a-date!", &mut intermediate);
    match &intermediate {
        Value::Failure(raw, reason) => {
            assert_eq!(raw, "not-a-date!");
            assert_eq!(reason, "Invalid date");
        }
        other => panic!("expected a malformed state, got {:?}", other),
    }
}

#[test]
fn text_field_parse() {
    let descriptor = TextField {
        placeholder: None,
        min_length: None,
        max_length: None,
    };
    let mut intermediate = None;
    descriptor.parse("Hello", &mut intermediate);
    assert_eq!(intermediate, Some("Hello".to_string()));
}

#[test]
fn text_field_validate() {
    let descriptor = TextField {
        placeholder: None,
        min_length: Some(3),
        max_length: Some(10),
    };

    let mut intermediate = Some("Hello".to_string());
    assert_eq!(descriptor.validate(&intermediate), Ok("Hello".to_string()));

    intermediate = Some("Hi".to_string());
    assert!(matches!(descriptor.validate(&intermediate), Err(_)));

    intermediate = Some("This is a very long string".to_string());
    assert!(matches!(descriptor.validate(&intermediate), Err(_)));

    intermediate = None;
    assert!(matches!(descriptor.validate(&intermediate), Err(_)));
}

#[test]
fn text_lengths_counted_in_bytes() {
    // the bounds compare UTF-8 byte lengths, the unit the transport carries
    let descriptor = TextField {
        placeholder: None,
        min_length: None,
        max_length: Some(5),
    };
    // five characters but six bytes
    let intermediate = Some("h\u{e9}llo".to_string());
    assert_eq!(
        descriptor.validate(&intermediate),
        Err("Value exceeds max length")
    );
    let wider = TextField {
        placeholder: None,
        min_length: Some(2),
        max_length: Some(6),
    };
    assert_eq!(
        wider.validate(&intermediate),
        Ok("h\u{e9}llo".to_string())
    );
    // one character of two bytes meets a two-byte minimum
    assert_eq!(
        wider.validate(&Some("\u{e9}".to_string())),
        Ok("\u{e9}".to_string())
    );
}

#[test]
fn password_field_validate() {
    let descriptor = PasswordField {
        min_length: Some(8),
        max_length: None,
    };
    let mut intermediate = None;
    descriptor.parse("hunter2hunter2", &mut intermediate);
    assert_eq!(
        descriptor.validate(&intermediate),
        Ok("hunter2hunter2".to_string())
    );
    descriptor.parse("short", &mut intermediate);
    assert_eq!(
        descriptor.validate(&intermediate),
        Err("Value is shorter than min length")
    );
    assert_eq!(descriptor.validate(&None), Err("Value is required"));
}

#[test]
fn date_picker_parse() {
    let date_picker = DatePicker {
        min: Date::new(2020, 1, 1),
        max: Date::new(2023, 12, 31),
    };
    let mut intermediate = Value::Absent;
    date_picker.parse("2022-05-15", &mut intermediate);
    assert_eq!(intermediate.inner(), Date::new(2022, 5, 15).as_ref());

    date_picker.parse("1800-01-01", &mut intermediate);
    assert_eq!(intermediate.inner(), Date::new(1800, 1, 1).as_ref());

    date_picker.parse("2022-18-08", &mut intermediate);
    assert!(matches!(intermediate, Value::Failure(_, _)));

    date_picker.parse("invalid-date", &mut intermediate);
    assert!(matches!(intermediate, Value::Failure(_, _)));
}

#[test]
fn date_picker_validate() {
    let date_picker = DatePicker {
        min: Date::new(2020, 1, 1),
        max: Date::new(2023, 12, 31),
    };

    let expected = Date::new(2020, 1, 1).unwrap();
    assert_eq!(date_picker.validate(&Value::Success(expected)), Ok(expected));
    let expected = Date::new(2022, 5, 15).unwrap();
    assert_eq!(date_picker.validate(&Value::Success(expected)), Ok(expected));
    let expected = Date::new(2023, 12, 31).unwrap();
    assert_eq!(date_picker.validate(&Value::Success(expected)), Ok(expected));
    assert_eq!(
        date_picker.validate(&Value::Success(Date::new(2019, 12, 31).unwrap())),
        Err("Value is less than min")
    );
    assert_eq!(
        date_picker.validate(&Value::Success(Date::new(2024, 1, 1).unwrap())),
        Err("Value exceeds max")
    );
    assert_eq!(
        date_picker.validate(&Value::Absent),
        Err("Value is required")
    );
    // malformed input surfaces its own error, not the missing-value one
    assert_eq!(
        date_picker.validate(&Value::Failure(
            "invalid-date".to_string(),
            "Invalid date".to_string()
        )),
        Err("Invalid date")
    );
}

#[test]
fn date_calendar_rules() {
    assert!(Date::new(2020, 2, 29).is_some());
    assert!(Date::new(2021, 2, 29).is_none());
    assert!(Date::new(1900, 2, 29).is_none());
    assert!(Date::new(2000, 2, 29).is_some());
    assert!(Date::new(2022, 4, 31).is_none());
    assert!(Date::new(2022, 13, 1).is_none());
    assert!(Date::new(2022, 0, 1).is_none());
    assert!(Date::new(2022, 1, 0).is_none());
}

#[test]
fn multiselect_parse() {
    let multiselect = MultiSelect { options: vec![] };
    let mut intermediate = vec![];
    multiselect.parse("option1", &mut intermediate);
    assert_eq!(intermediate, vec!["option1"]);
    multiselect.parse("", &mut intermediate);
    assert_eq!(intermediate, vec!["option1"]);
    multiselect.parse("option2", &mut intermediate);
    assert_eq!(intermediate, vec!["option1", "option2"]);
}

#[test]
fn multiselect_validate() {
    let options = vec![opt("option1"), opt("option2")];
    let multiselect = MultiSelect { options };

    // Valid selection
    let keys = vec!["option1".to_string(), "option2".to_string()];
    assert_eq!(
        multiselect.validate(&keys),
        Ok(vec![opt("option1"), opt("option2")])
    );

    // Invalid selection
    let keys = vec!["option3".to_string()];
    assert_eq!(multiselect.validate(&keys), Err("Invalid option selected"));

    // Partial correct selection
    let keys = vec!["option1".to_string(), "option3".to_string()];
    assert_eq!(multiselect.validate(&keys), Err("Invalid option selected"));

    // Empty selection
    let keys: Vec<String> = vec![];
    assert_eq!(multiselect.validate(&keys), Ok(vec![]));
}

#[test]
fn radio_button_parse() {
    let radio = RadioButton {
        options: vec![opt("option1"), opt("option2"), opt("option3")],
        default_value: opt("option1"),
    };
    let mut intermediate = None;
    radio.parse("option2", &mut intermediate);
    assert_eq!(intermediate, Some("option2".to_string()));
    radio.parse("", &mut intermediate);
    assert_eq!(intermediate, None);
}

#[test]
fn radio_button_validate() {
    let radio = RadioButton {
        options: vec![opt("option1"), opt("option2"), opt("option3")],
        default_value: opt("option1"),
    };
    let mut intermediate = Some("option2".to_string());
    let value = radio.validate(&intermediate).unwrap();
    assert_eq!(value, opt("option2"));

    intermediate = Some("invalid_option".to_string());
    assert!(radio.validate(&intermediate).is_err());
}

#[test]
fn radio_button_validate_absent() {
    let radio = RadioButton {
        options: vec![opt("option1")],
        default_value: opt("option1"),
    };
    assert_eq!(radio.validate(&None), Err("Value is required"));
}

#[test]
fn select_parse() {
    let radio = Select {
        options: vec![opt("option1"), opt("option2"), opt("option3")],
        default_value: None,
        placeholder: String::new(),
    };
    let mut intermediate = None;
    radio.parse("option2", &mut intermediate);
    assert_eq!(intermediate, Some("option2".to_string()));
    radio.parse("", &mut intermediate);
    assert_eq!(intermediate, None);
}

#[test]
fn select_validate() {
    let radio = Select {
        options: vec![opt("option1"), opt("option2"), opt("option3")],
        default_value: None,
        placeholder: String::new(),
    };
    let mut intermediate = Some("option2".to_string());
    let value = radio.validate(&intermediate).unwrap();
    assert_eq!(value, opt("option2"));

    intermediate = Some("invalid_option".to_string());
    assert!(radio.validate(&intermediate).is_err());
}

#[test]
fn options_refreshed_between_parse_and_validate() {
    let mut select = Select {
        options: vec![opt("A"), opt("B")],
        default_value: None,
        placeholder: String::new(),
    };
    let mut intermediate = None;
    select.parse("B", &mut intermediate);
    // the option list is refreshed after the input arrived: validation
    // resolves against the current list, not a cached one
    select.options = vec![opt("A")];
    assert_eq!(select.validate(&intermediate), Err("Invalid value"));
    select.options = vec![opt("A"), opt("B")];
    assert_eq!(select.validate(&intermediate), Ok(opt("B")));
}

#[test]
fn select_duplicate_keys_first_wins() {
    let first = SelectOption::new("dup", "first label");
    let second = SelectOption::new("dup", "second label");
    let select = Select {
        options: vec![first.clone(), second],
        default_value: None,
        placeholder: String::new(),
    };
    assert_eq!(select.validate(&Some("dup".to_string())), Ok(first));
}

#[test]
fn passthrough_scalar() {
    let passthrough: Passthrough<String> = Passthrough::new();
    let mut intermediate = None;
    passthrough.parse("raw value", &mut intermediate);
    assert_eq!(intermediate, Some("raw value".to_string()));
    assert_eq!(
        passthrough.validate(&intermediate),
        Ok("raw value".to_string())
    );
    passthrough.parse("", &mut intermediate);
    assert_eq!(intermediate, None);
    assert_eq!(passthrough.validate(&None), Err("Value is required"));
    assert_eq!(passthrough.load("kept".to_string()), Some("kept".to_string()));
}

#[test]
fn passthrough_list() {
    let passthrough: Passthrough<Vec<String>> = Passthrough::new();
    let mut intermediate: Vec<String> = vec![];
    assert_eq!(passthrough.validate(&intermediate), Ok(vec![]));
    passthrough.parse("one", &mut intermediate);
    passthrough.parse("", &mut intermediate);
    passthrough.parse("two", &mut intermediate);
    assert_eq!(intermediate, vec!["one".to_string(), "two".to_string()]);
    assert_eq!(
        passthrough.validate(&intermediate),
        Ok(vec!["one".to_string(), "two".to_string()])
    );
}

#[test]
fn multiselect_load_round_trip() {
    let options = vec![opt("a"), opt("b"), opt("c")];
    let multiselect = MultiSelect { options };
    let chosen = vec![opt("a"), opt("c")];
    let keys = multiselect.load(chosen.clone());
    assert_eq!(keys, vec!["a".to_string(), "c".to_string()]);
    assert_eq!(multiselect.validate(&keys), Ok(chosen));
}

#[test]
fn text_load_round_trip() {
    let descriptor = TextField {
        placeholder: None,
        min_length: None,
        max_length: Some(5),
    };
    let intermediate = descriptor.load("hi".to_string());
    assert_eq!(descriptor.validate(&intermediate), Ok("hi".to_string()));
}

#[test]
fn number_load_round_trip() {
    let descriptor = NumberField {
        min: Some(0),
        max: Some(120),
    };
    let intermediate = descriptor.load(42);
    assert_eq!(descriptor.validate(&intermediate), Ok(42));
}
