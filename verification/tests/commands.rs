//! Slash commands, buttons and forms.
use nobilis::backend::discord::commands::{
    command_usage, commands_listed, interact, list_commands, modal_fields, run_command, submit_modal, use_component,
    FieldValue, Place,
};
use nobilis::json::{parse, Json};

fn json(text: &str) -> Json {
    parse(text).expect("JSON")
}

fn place() -> Place<'static> {
    Place { token: Some("tok"), channel_id: Some("5"), session_id: Some("s"), guild_id: None }
}

#[test]
fn a_form_is_read_into_its_fields() {
    let modal = json(
        r#"{
            "title": "Report a thing",
            "custom_id": "report_form",
            "components": [
                { "type": 1, "components": [
                    { "type": 4, "custom_id": "subject", "label": "Subject", "style": 1, "required": true, "max_length": 100 }
                ]},
                { "type": 1, "components": [
                    { "type": 4, "custom_id": "details", "label": "What happened", "style": 2, "required": false,
                      "placeholder": "as much as you like" }
                ]}
            ]
        }"#,
    );
    let fields = modal_fields(&modal);
    assert_eq!(fields.len(), 2);
    assert_eq!(fields[0].at("customId").text(), Some("subject"));
    assert_eq!(fields[0].at("long").flag(), Some(false));
    assert_eq!(fields[0].at("required").flag(), Some(true));
    assert_eq!(fields[0].at("maxLength").as_u64(), Some(100));
    // The second is a paragraph, which is a different box to draw.
    assert_eq!(fields[1].at("long").flag(), Some(true));
    assert_eq!(fields[1].at("required").flag(), Some(false));
    assert_eq!(fields[1].at("placeholder").text(), Some("as much as you like"));
}

#[test]
fn anything_that_is_not_a_text_input_is_left_alone() {
    let modal = json(
        r#"{
            "components": [
                { "type": 1, "components": [ { "type": 2, "custom_id": "press", "label": "Press" } ] },
                { "type": 1, "components": [ { "type": 4, "custom_id": "name", "label": "Name", "style": 1 } ] }
            ]
        }"#,
    );
    let fields = modal_fields(&modal);
    assert_eq!(fields.len(), 1);
    assert_eq!(fields[0].at("customId").text(), Some("name"));
}

#[test]
fn a_form_with_nothing_in_it_is_no_fields_rather_than_an_error() {
    assert!(modal_fields(&json("{}")).is_empty());
    assert!(modal_fields(&json(r#"{ "components": [] }"#)).is_empty());
}

#[test]
fn commands_are_listed_with_how_to_use_them() {
    assert!(list_commands(None, Some("5"), "").is_err());
    assert!(list_commands(Some("tok"), None, "").is_err());
    let asked = list_commands(Some("tok"), Some("5"), "pi").unwrap();
    assert!(asked.query.iter().any(|q| q.name == "query" && q.value == "pi"));
    let answer = json(
        r#"{
            "applications": [{ "id": "9", "bot": { "username": "pizzabot" } }],
            "application_commands": [{
                "id": "1", "name": "order", "description": "Order one", "application_id": "9",
                "options": [{ "name": "size", "required": true }, { "name": "note" }]
            }]
        }"#,
    );
    let listed = commands_listed(&answer);
    assert!(listed.write().contains("order"));
    let usage = command_usage(&json(r#"{ "name": "order", "options": [{ "name": "size", "required": true }, { "name": "note" }] }"#));
    assert!(usage.contains("size") && usage.contains("note"), "{usage}");
}

#[test]
fn an_interaction_names_its_place() {
    let asked = interact(place(), 2, "9", Json::object(), "77").unwrap();
    let body = asked.body.expect("a body");
    assert_eq!(body.at("type").as_i64(), Some(2));
    assert_eq!(body.at("application_id").text(), Some("9"));
    assert_eq!(body.at("channel_id").text(), Some("5"));
    assert_eq!(body.at("nonce").text(), Some("77"));
    let nowhere = Place { session_id: None, ..place() };
    assert!(interact(nowhere, 2, "9", Json::object(), "77").is_err());
}

#[test]
fn a_form_is_sent_with_what_was_put_into_it() {
    let values = vec![FieldValue { field: "subject".into(), value: "hello".into() }];
    let asked = submit_modal(place(), "9", "report_form", "12", &values, "77").unwrap();
    let text = asked.body.expect("a body").write();
    assert!(text.contains("hello") && text.contains("report_form"), "{text}");
}

#[test]
fn a_command_and_a_button_are_run() {
    let command = json(r#"{ "id": "1", "name": "order", "application_id": "9", "version": "3", "type": 1 }"#);
    let ran = run_command(place(), &command, Json::list(vec![]), "77").unwrap();
    assert!(ran.body.unwrap().write().contains("order"));
    let message = json(r#"{ "id": "8", "author": { "id": "9" }, "application_id": "9", "flags": 0 }"#);
    let pressed = use_component(place(), &message, "8", "press", false, &vec![], "77").unwrap();
    let text = pressed.body.unwrap().write();
    assert!(text.contains("press"), "{text}");
}
