use taskmanager::ids::{new_id, parse_id};
use taskmanager::project::{ProjectData, ProjectTaskStatus, ProjectTaskType};
use taskmanager::Error;

fn find_name<'a>(data: &'a ProjectData, id_text: &str) -> Option<&'a taskmanager::project::Project> {
    data.list_projects().iter().find(|p| p.id.as_text() == id_text)
}

#[test]
fn created_project_is_retrievable_with_its_fields() {
    let mut data = ProjectData::new();
    let name = String::from("Alpha");
    let description = String::from("desc A");
    let id = data.create_project(&name, &description);
    let p = find_name(&data, id.as_text()).expect("project must be retrievable");
    assert_eq!(p.name, "Alpha");
    assert_eq!(p.description, "desc A");
    assert!(p.tasks.is_empty());
}

#[test]
fn update_project_with_only_name_keeps_description() {
    let mut data = ProjectData::new();
    let id = data.create_project(&String::from("Alpha"), &String::from("desc A"));
    let r = data.update_project(&id, &Some(String::from("Beta")), &None);
    assert_eq!(r, Ok(true));
    let p = find_name(&data, id.as_text()).unwrap();
    assert_eq!(p.name, "Beta");
    assert_eq!(p.description, "desc A");
}

#[test]
fn update_project_with_only_description_keeps_name() {
    let mut data = ProjectData::new();
    let id = data.create_project(&String::from("Alpha"), &String::from("desc A"));
    let r = data.update_project(&id, &None, &Some(String::from("desc B")));
    assert_eq!(r, Ok(true));
    let p = find_name(&data, id.as_text()).unwrap();
    assert_eq!(p.name, "Alpha");
    assert_eq!(p.description, "desc B");
}

#[test]
fn update_task_partial_patch() {
    let mut data = ProjectData::new();
    let pid = data.create_project(&String::from("Alpha"), &String::from(""));
    let tid = data
        .create_task(&pid, &String::from("T1"), &String::from("first"))
        .unwrap();
    let r = data.update_task(&pid, &tid, &Some(String::from("T2")), &None);
    assert_eq!(r, Ok(true));
    let tasks = data.list_tasks(&pid).unwrap();
    assert_eq!(tasks.len(), 1);
    assert_eq!(tasks[0].name, "T2");
    assert_eq!(tasks[0].description, "first");
}

#[test]
fn destroyed_project_makes_its_tasks_unreachable() {
    let mut data = ProjectData::new();
    let pid = data.create_project(&String::from("Alpha"), &String::from("desc A"));
    let tid = data
        .create_task(&pid, &String::from("T1"), &String::from(""))
        .unwrap();
    assert_eq!(data.destroy_project(&pid), Ok(true));
    assert!(matches!(data.list_tasks(&pid), Err(Error::ProjectNotFound)));
    assert_eq!(
        data.destroy_task(&pid, &tid),
        Err(Error::ProjectNotFound)
    );
    assert_eq!(
        data.update_task(&pid, &tid, &Some(String::from("x")), &None),
        Err(Error::ProjectNotFound)
    );
}

#[test]
fn missing_entities_are_reported_distinctly() {
    let mut data = ProjectData::new();
    let pid = data.create_project(&String::from("Alpha"), &String::from(""));
    let other = parse_id("123e4567-e89b-12d3-a456-426614174000").unwrap();
    assert_eq!(data.destroy_task(&other, &other), Err(Error::ProjectNotFound));
    assert_eq!(data.destroy_task(&pid, &other), Err(Error::TaskNotFound));
    assert_eq!(data.destroy_project(&other), Err(Error::ProjectNotFound));
    assert_eq!(
        data.update_project(&other, &Some(String::from("x")), &None),
        Err(Error::ProjectNotFound)
    );
}

#[test]
fn new_task_defaults_to_todo_and_default_type() {
    let mut data = ProjectData::new();
    let pid = data.create_project(&String::from("Alpha"), &String::from(""));
    let _tid = data
        .create_task(&pid, &String::from("T1"), &String::from(""))
        .unwrap();
    let tasks = data.list_tasks(&pid).unwrap();
    assert_eq!(tasks.len(), 1);
    assert_eq!(tasks[0].status, ProjectTaskStatus::Todo);
    assert_eq!(tasks[0].type_, ProjectTaskType::Default);
}

#[test]
fn status_parsing_is_lenient() {
    assert_eq!(ProjectTaskStatus::from_text("todo"), ProjectTaskStatus::Todo);
    assert_eq!(
        ProjectTaskStatus::from_text("in_progress"),
        ProjectTaskStatus::InProgress
    );
    assert_eq!(
        ProjectTaskStatus::from_text("complete"),
        ProjectTaskStatus::Complete
    );
    assert_eq!(
        ProjectTaskStatus::from_text("no such status"),
        ProjectTaskStatus::Default
    );
    assert_eq!(ProjectTaskType::from_text("default"), ProjectTaskType::Default);
    assert_eq!(
        ProjectTaskType::from_text("anything else"),
        ProjectTaskType::Default
    );
}

#[test]
fn parse_id_normalizes_and_validates() {
    let id = parse_id("123E4567-E89B-12D3-A456-426614174000").unwrap();
    assert_eq!(id.as_text(), "123e4567-e89b-12d3-a456-426614174000");
    assert!(matches!(parse_id("not an id"), Err(Error::InvalidIdentifier)));
    assert!(matches!(
        parse_id("123e4567e89b12d3a456426614174000"),
        Err(Error::InvalidIdentifier)
    ));
    assert!(matches!(
        parse_id("123e4567-e89b-12d3-a456-42661417400g"),
        Err(Error::InvalidIdentifier)
    ));
}

#[test]
fn fresh_identifiers_are_canonical() {
    let id = new_id();
    let t = id.as_text();
    assert_eq!(t.len(), 36);
    for (i, c) in t.chars().enumerate() {
        if i == 8 || i == 13 || i == 18 || i == 23 {
            assert_eq!(c, '-');
        } else {
            assert!(c.is_ascii_hexdigit() && !c.is_ascii_uppercase());
        }
    }
    // parsing its own text gives the same identifier back
    let again = parse_id(t).unwrap();
    assert!(again.same_as(&id));
}
