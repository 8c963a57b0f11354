use taskmanager::codec::{load_data, write_data};
use taskmanager::config::load_config;
use taskmanager::project::{ProjectData, ProjectTaskStatus};
use taskmanager::Error;

#[test]
fn loading_a_missing_file_is_the_empty_collection() {
    let data = load_data(None).unwrap();
    assert!(data.list_projects().is_empty());
}

#[test]
fn loading_invalid_content_is_corrupt_store() {
    assert!(matches!(load_data(Some("not json")), Err(Error::CorruptStore)));
    assert!(matches!(load_data(Some("")), Err(Error::CorruptStore)));
    assert!(matches!(load_data(Some("{]")), Err(Error::CorruptStore)));
    assert!(matches!(
        load_data(Some("{} trailing")),
        Err(Error::CorruptStore)
    ));
}

#[test]
fn empty_collection_renders_as_empty_object() {
    let data = ProjectData::new();
    assert_eq!(write_data(&data), "{}");
}

#[test]
fn save_after_load_reproduces_the_file() {
    let pid = "123e4567-e89b-12d3-a456-426614174000";
    let tid = "00112233-4455-6677-8899-aabbccddeeff";
    let s = format!(
        "{{\"{pid}\":{{\"id\":\"{pid}\",\"name\":\"Alpha\",\"description\":\"desc A\",\
\"tasks\":{{\"{tid}\":{{\"id\":\"{tid}\",\"name\":\"T1\",\"description\":\"\",\
\"type_\":\"Default\",\"status\":\"Todo\"}}}}}}}}"
    );
    let data = load_data(Some(&s)).unwrap();
    assert_eq!(write_data(&data), s);

    let projects = data.list_projects();
    assert_eq!(projects.len(), 1);
    assert_eq!(projects[0].id.as_text(), pid);
    assert_eq!(projects[0].name, "Alpha");
    assert_eq!(projects[0].description, "desc A");
    assert_eq!(projects[0].tasks.len(), 1);
    assert_eq!(projects[0].tasks[0].id.as_text(), tid);
    assert_eq!(projects[0].tasks[0].name, "T1");
    assert_eq!(projects[0].tasks[0].status, ProjectTaskStatus::Todo);
}

#[test]
fn round_trip_through_the_api() {
    let mut data = ProjectData::new();
    let pid = data.create_project(&String::from("Alpha"), &String::from("desc A"));
    data.create_task(&pid, &String::from("T1"), &String::from("body"))
        .unwrap();
    data.create_task(&pid, &String::from("T2"), &String::from(""))
        .unwrap();
    data.create_project(&String::from("Beta"), &String::from(""));

    let saved = write_data(&data);
    let reloaded = load_data(Some(&saved)).unwrap();
    assert_eq!(write_data(&reloaded), saved);
}

#[test]
fn escaped_content_survives_a_round_trip() {
    let mut data = ProjectData::new();
    let name = String::from("with \"quotes\" and \\slashes\\");
    let description = String::from("line one\nline two\ttabbed\r\u{0008}\u{000C}");
    let pid = data.create_project(&name, &description);

    let saved = write_data(&data);
    let reloaded = load_data(Some(&saved)).unwrap();
    assert_eq!(write_data(&reloaded), saved);
    let p = &reloaded.list_projects()[0];
    assert_eq!(p.id.as_text(), pid.as_text());
    assert_eq!(p.name, name);
    assert_eq!(p.description, description);
}

#[test]
fn duplicate_keys_are_rejected() {
    let pid = "123e4567-e89b-12d3-a456-426614174000";
    let record = format!(
        "\"{pid}\":{{\"id\":\"{pid}\",\"name\":\"A\",\"description\":\"\",\"tasks\":{{}}}}"
    );
    let s = format!("{{{record},{record}}}");
    assert!(matches!(load_data(Some(&s)), Err(Error::CorruptStore)));
}

#[test]
fn missing_config_file_is_the_default() {
    let config = load_config(None).unwrap();
    assert_eq!(config.mode_text(), "JSON");
}

#[test]
fn config_content_is_read_with_whitespace() {
    let config = load_config(Some("{\"persistence_mode\":\"JSON\"}")).unwrap();
    assert_eq!(config.mode_text(), "JSON");
    let config = load_config(Some("{ \"persistence_mode\": \"JSON\" }")).unwrap();
    assert_eq!(config.mode_text(), "JSON");
    let config = load_config(Some("\n{\n  \"persistence_mode\": \"JSON\"\n}\n")).unwrap();
    assert_eq!(config.mode_text(), "JSON");
}

#[test]
fn config_content_that_does_not_parse_is_corrupt() {
    assert!(matches!(
        load_config(Some("{\"persistence_mode\":\"XML\"}")),
        Err(Error::CorruptStore)
    ));
    assert!(matches!(load_config(Some("garbage")), Err(Error::CorruptStore)));
    assert!(matches!(load_config(Some("")), Err(Error::CorruptStore)));
    assert!(matches!(
        load_config(Some("{\"persistence_mode\":\"JSON\"} trailing")),
        Err(Error::CorruptStore)
    ));
}

#[test]
fn empty_object_content_loads_as_the_empty_collection() {
    let data = load_data(Some("{}")).unwrap();
    assert!(data.list_projects().is_empty());
}
