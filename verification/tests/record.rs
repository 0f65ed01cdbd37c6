use story_engine::record::{StoryRecord, CHOICE_KIND, NODE_KIND, RECORD_FIELDS};

fn row_of(values: &[&str]) -> Vec<String> {
    values.iter().map(|value| value.to_string()).collect()
}

#[test]
fn record_is_read_by_position() {
    let record = StoryRecord::from_fields(&row_of(&["SITUACION", "LUZ", "Start", "-10"]));
    assert_eq!(
        record,
        Some(StoryRecord {
            kind: "SITUACION".to_string(),
            tag: "LUZ".to_string(),
            text: "Start".to_string(),
            life_delta: -10,
        })
    );
}

#[test]
fn record_fields_are_trimmed() {
    let record =
        StoryRecord::from_fields(&row_of(&[" OPCION ", "\tDERECHA", "Go right  ", " 25 "]))
            .unwrap();
    assert_eq!(record.kind, "OPCION");
    assert_eq!(record.tag, "DERECHA");
    assert_eq!(record.text, "Go right");
    assert_eq!(record.life_delta, 25);
}

#[test]
fn life_delta_is_the_integer_of_the_fourth_field() {
    for (field, expected) in [
        ("0", 0),
        ("7", 7),
        ("+7", 7),
        ("-150", -150),
        ("2147483647", i32::MAX),
        ("-2147483648", i32::MIN),
        ("  42\n", 42),
    ] {
        let record = StoryRecord::from_fields(&row_of(&["OPCION", "A", "t", field])).unwrap();
        assert_eq!(record.life_delta, expected);
    }
}

#[test]
fn life_delta_defaults_to_zero() {
    for field in ["", "   ", "abc", "1.5", "ten", "-", "2147483648", "1 2", "5;"] {
        let record = StoryRecord::from_fields(&row_of(&["OPCION", "A", "t", field])).unwrap();
        assert_eq!(record.life_delta, 0);
    }
}

#[test]
fn short_row_gives_no_record() {
    assert_eq!(RECORD_FIELDS, 4);
    assert_eq!(StoryRecord::from_fields(&row_of(&[])), None);
    assert_eq!(StoryRecord::from_fields(&row_of(&["SITUACION"])), None);
    assert_eq!(StoryRecord::from_fields(&row_of(&["SITUACION", "LUZ", "Start"])), None);
}

#[test]
fn fields_past_the_fourth_are_not_looked_at() {
    let record =
        StoryRecord::from_fields(&row_of(&["SITUACION", "LUZ", "Start", "3", "extra", "9"]))
            .unwrap();
    assert_eq!(record.tag, "LUZ");
    assert_eq!(record.life_delta, 3);
}

#[test]
fn kinds_are_told_apart() {
    assert_eq!(NODE_KIND, "SITUACION");
    assert_eq!(CHOICE_KIND, "OPCION");
    let node = StoryRecord::from_fields(&row_of(&["SITUACION", "A", "t", "0"])).unwrap();
    let choice = StoryRecord::from_fields(&row_of(&["OPCION", "A", "t", "0"])).unwrap();
    let other = StoryRecord::from_fields(&row_of(&["situacion", "A", "t", "0"])).unwrap();
    assert!(node.is_node() && !node.is_choice());
    assert!(choice.is_choice() && !choice.is_node());
    assert!(!other.is_node() && !other.is_choice());
}

#[test]
fn clone_keeps_every_field() {
    let record = StoryRecord::from_fields(&row_of(&["OPCION", "B", "Back", "-3"])).unwrap();
    assert_eq!(record.clone(), record);
}
