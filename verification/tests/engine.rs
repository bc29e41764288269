//! Whole-form behaviour: apply, finish, load, and the urlencoded body path.

use form_fields::FormField;
use form_fields::checkbox::Checkbox;
use form_fields::element::{Element, FieldValue};
use form_fields::from_form::{Form, FormSpec, FormSpecable, FromForm};
use form_fields::number_field::NumberField;
use form_fields::select::Select;
use form_fields::selectable::SelectOption;
use form_fields::text_field::TextField;
use form_fields::urlencoded::parse_form_urlencoded;
use form_fields::validation_value::Value;

fn text_field(name: &str, max_length: Option<usize>, required: bool) -> FormField {
    FormField {
        display_name: name.to_string(),
        field_name: name.to_string(),
        element: Element::Text(
            TextField {
                placeholder: None,
                min_length: None,
                max_length,
            },
            None,
        ),
        required,
        error: None,
        help_text: None,
    }
}

fn opt(key: &str) -> SelectOption {
    SelectOption::new(key, key)
}

#[test]
fn scenario_required_text_within_limit() {
    let mut form = Form::new(vec![text_field("text", Some(5), true)]);
    assert!(form.apply("text", "hello"));
    let values = form.finish().expect("the submission is valid");
    assert_eq!(values, vec![Some(FieldValue::Text("hello".to_string()))]);
}

#[test]
fn scenario_required_text_too_long() {
    let mut form = Form::new(vec![text_field("text", Some(5), true)]);
    assert!(form.apply("text", "toolong"));
    assert!(form.finish().is_none());
    assert_eq!(
        form.fields[0].error,
        Some("Value exceeds max length".to_string())
    );
    // the rejected input is preserved verbatim for redisplay
    assert!(
        matches!(&form.fields[0].element, Element::Text(_, Some(s)) if s == "toolong")
    );
}

#[test]
fn scenario_optional_number_untouched() {
    let field = FormField {
        display_name: "age".to_string(),
        field_name: "age".to_string(),
        element: Element::Number(
            NumberField {
                min: Some(0),
                max: Some(120),
            },
            Value::Absent,
        ),
        required: false,
        error: None,
        help_text: None,
    };
    let mut form = Form::new(vec![field]);
    let values = form.finish().expect("an absent optional field is valid");
    assert_eq!(values, vec![None]);
    assert_eq!(form.fields[0].error, None);
}

#[test]
fn malformed_number_fails_with_its_own_error() {
    let field = FormField {
        display_name: "age".to_string(),
        field_name: "age".to_string(),
        element: Element::Number(
            NumberField {
                min: Some(0),
                max: Some(120),
            },
            Value::Absent,
        ),
        required: true,
        error: None,
        help_text: None,
    };
    let mut form = Form::new(vec![field]);
    assert!(form.apply("age", "abc"));
    assert!(form.finish().is_none());
    assert_eq!(form.fields[0].error, Some("Invalid number".to_string()));
    // the rejected text is preserved verbatim for redisplay
    assert!(matches!(
        &form.fields[0].element,
        Element::Number(_, Value::Failure(raw, _)) if raw == "abc"
    ));
}

#[test]
fn scenario_unchecked_required_checkbox() {
    let field = FormField {
        display_name: "terms".to_string(),
        field_name: "terms".to_string(),
        element: Element::Checkbox(
            Checkbox {
                required_true: true,
                checked: false,
            },
            None,
        ),
        required: true,
        error: None,
        help_text: None,
    };
    let mut form = Form::new(vec![field]);
    assert!(form.finish().is_none());
    assert_eq!(
        form.fields[0].error,
        Some("Checkbox is required".to_string())
    );
}

#[test]
fn unchecked_ordinary_checkbox_defaults_to_false() {
    let field = FormField {
        display_name: "news".to_string(),
        field_name: "news".to_string(),
        element: Element::Checkbox(
            Checkbox {
                required_true: false,
                checked: false,
            },
            None,
        ),
        required: true,
        error: None,
        help_text: None,
    };
    let mut form = Form::new(vec![field]);
    let values = form.finish().expect("an unchecked box is simply false");
    assert_eq!(values, vec![Some(FieldValue::Toggle(false))]);
}

#[test]
fn scenario_select_unknown_key() {
    let field = FormField {
        display_name: "choice".to_string(),
        field_name: "choice".to_string(),
        element: Element::Select(
            Select {
                default_value: None,
                options: vec![opt("A"), opt("B")],
                placeholder: String::new(),
            },
            None,
        ),
        required: true,
        error: None,
        help_text: None,
    };
    let mut form = Form::new(vec![field]);
    assert!(form.apply("choice", "C"));
    assert!(form.finish().is_none());
    assert_eq!(form.fields[0].error, Some("Invalid value".to_string()));
    // the stale key stays stored for redisplay
    assert!(
        matches!(&form.fields[0].element, Element::Select(_, Some(k)) if k == "C")
    );
}

#[test]
fn scenario_unknown_field_name() {
    let mut form = Form::new(vec![text_field("text", None, true)]);
    assert!(!form.apply("unknown_field", "x"));
    // nothing was recorded anywhere
    assert!(matches!(&form.fields[0].element, Element::Text(_, None)));
    assert_eq!(form.fields[0].error, None);
}

#[test]
fn no_short_circuit_both_fields_judged() {
    let mut form = Form::new(vec![
        text_field("a", Some(10), true),
        text_field("b", Some(3), true),
    ]);
    assert!(form.apply("a", "fine"));
    assert!(form.apply("b", "too big"));
    assert!(form.finish().is_none());
    assert_eq!(form.fields[0].error, None);
    assert_eq!(
        form.fields[1].error,
        Some("Value exceeds max length".to_string())
    );
}

#[test]
fn overwrite_latest_value_wins() {
    let mut form = Form::new(vec![text_field("text", None, true)]);
    assert!(form.apply("text", "first"));
    assert!(form.apply("text", "second"));
    let values = form.finish().expect("valid");
    assert_eq!(values, vec![Some(FieldValue::Text("second".to_string()))]);
}

#[test]
fn empty_input_resets_to_absent() {
    let mut form = Form::new(vec![text_field("text", None, true)]);
    assert!(form.apply("text", "something"));
    assert!(form.apply("text", ""));
    assert!(matches!(&form.fields[0].element, Element::Text(_, None)));
    assert!(form.finish().is_none());
    assert_eq!(form.fields[0].error, Some("Value is required".to_string()));
}

#[test]
fn load_then_finish_round_trip() {
    let mut form = Form::new(vec![
        text_field("name", Some(20), true),
        FormField {
            display_name: "age".to_string(),
            field_name: "age".to_string(),
            element: Element::Number(
                NumberField {
                    min: Some(0),
                    max: Some(120),
                },
                Value::Absent,
            ),
            required: false,
            error: None,
            help_text: None,
        },
    ]);
    let stored = vec![
        Some(FieldValue::Text("Ada".to_string())),
        Some(FieldValue::Number(36)),
    ];
    form.load_from(stored.clone());
    let values = form.finish().expect("loaded values validate");
    assert_eq!(values, stored);
}

#[test]
fn load_missing_entry_leaves_field_absent() {
    let mut form = Form::new(vec![
        text_field("name", None, true),
        text_field("nick", None, false),
    ]);
    form.load_from(vec![Some(FieldValue::Text("Ada".to_string())), None]);
    assert!(matches!(&form.fields[1].element, Element::Text(_, None)));
    let values = form.finish().expect("optional field may stay absent");
    assert_eq!(
        values,
        vec![Some(FieldValue::Text("Ada".to_string())), None]
    );
}

#[test]
fn loaded_value_overridden_by_new_input() {
    let mut form = Form::new(vec![text_field("name", None, true)]);
    form.load_from(vec![Some(FieldValue::Text("old".to_string()))]);
    assert!(form.apply("name", "new"));
    let values = form.finish().expect("valid");
    assert_eq!(values, vec![Some(FieldValue::Text("new".to_string()))]);
}

#[test]
fn valid_reports_recorded_errors() {
    let mut form = Form::new(vec![text_field("a", None, true)]);
    assert!(form.valid().is_some());
    assert!(form.finish().is_none());
    assert!(form.valid().is_none());
}

struct Mock;

impl FormSpecable for Mock {
    type Spec = Form;
}

#[test]
fn form_spec_trait_dispatch() {
    let mut spec = <Mock as FormSpecable>::Spec::generate_spec();
    assert_eq!(spec.fields.len(), 0);
    assert!(!spec.parse_field("anything", "x"));
    let wrapped = FromForm::<Mock>(Form::new(vec![text_field("a", None, true)]));
    let mut inner = wrapped.0;
    assert!(inner.parse_field("a", "value"));
}

fn two_field_form() -> Form {
    Form::new(vec![
        text_field("field1", None, true),
        text_field("field2", None, true),
    ])
}

fn text_state(field: &FormField) -> Option<String> {
    match &field.element {
        Element::Text(_, state) => state.clone(),
        _ => panic!("not a text field"),
    }
}

#[test]
fn urlencoded_parse_success() {
    let body = "field1=value1&field2=value2";
    let mut form = two_field_form();

    assert!(parse_form_urlencoded(&mut form, body.as_bytes()).is_some());
    assert_eq!(text_state(&form.fields[0]), Some("value1".to_string()));
    assert_eq!(text_state(&form.fields[1]), Some("value2".to_string()));

    let inner = form.finish().unwrap();
    assert_eq!(
        inner,
        vec![
            Some(FieldValue::Text("value1".to_string())),
            Some(FieldValue::Text("value2".to_string())),
        ]
    );
}

#[test]
fn urlencoded_parse_failure() {
    let body = "field1=value1&field3=value3";
    let mut form = two_field_form();

    assert!(parse_form_urlencoded(&mut form, body.as_bytes()).is_none());
    assert_eq!(text_state(&form.fields[0]), Some("value1".to_string()));
    assert_eq!(text_state(&form.fields[1]), None);

    assert!(form.finish().is_none());
}

#[test]
fn urlencoded_parse_partial_failure() {
    let body = "field1=value1";
    let mut form = two_field_form();

    assert!(parse_form_urlencoded(&mut form, body.as_bytes()).is_some());
    assert_eq!(text_state(&form.fields[0]), Some("value1".to_string()));
    assert_eq!(text_state(&form.fields[1]), None);

    assert!(form.finish().is_none());
}

#[test]
fn urlencoded_parse_empty() {
    let body = "";
    let mut form = two_field_form();

    assert!(parse_form_urlencoded(&mut form, body.as_bytes()).is_some());
    assert_eq!(text_state(&form.fields[0]), None);
    assert_eq!(text_state(&form.fields[1]), None);

    assert!(form.finish().is_none());
}

#[test]
fn urlencoded_percent_decoding() {
    let body = "field1=a+b%21&field2=x";
    let mut form = two_field_form();

    assert!(parse_form_urlencoded(&mut form, body.as_bytes()).is_some());
    assert_eq!(text_state(&form.fields[0]), Some("a b!".to_string()));
    assert_eq!(text_state(&form.fields[1]), Some("x".to_string()));
}
