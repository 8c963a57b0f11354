use taskmanager::cli::{Namespace, RuntimeConfig};
use taskmanager::config::{self, Config, ConfigArgs};
use taskmanager::project::{self, Command, ProjectArgs, ProjectData, ProjectTaskStatus};
use taskmanager::{Error, Output};

#[test]
fn scenario_alpha_task_lifecycle() {
    let mut data = ProjectData::new();
    let pid = data.create_project(&String::from("Alpha"), &String::from("desc A"));
    let tid = data
        .create_task(&pid, &String::from("T1"), &String::from(""))
        .unwrap();

    let tasks = data.list_tasks(&pid).unwrap();
    assert_eq!(tasks.len(), 1);
    assert_eq!(tasks[0].name, "T1");
    assert_eq!(tasks[0].status, ProjectTaskStatus::Todo);
    assert!(tasks[0].id.same_as(&tid));

    let destroy = Command::Destroy { project_id: pid.to_text() };
    let r = project::run_command(&mut data, &destroy);
    assert!(matches!(r, Ok(Output::Done)));
    assert!(matches!(data.list_tasks(&pid), Err(Error::ProjectNotFound)));
}

#[test]
fn config_get_reports_the_default_mode() {
    let config = config::load_config(None).unwrap();
    let cmd = config::Command::Get { key: String::from("persistence_mode") };
    match config::run_command(&config, &cmd).unwrap() {
        Output::ConfigValue(v) => assert_eq!(v, "JSON"),
        _ => panic!("expected a config value"),
    }
}

#[test]
fn config_get_unknown_key_is_reported() {
    let config = Config::default();
    let cmd = config::Command::Get { key: String::from("no_such_key") };
    assert!(matches!(
        config::run_command(&config, &cmd).unwrap(),
        Output::InvalidConfigKey
    ));
}

#[test]
fn config_set_only_acknowledges() {
    let config = Config::default();
    let cmd = config::Command::SetValue {
        key: String::from("persistence_mode"),
        value: String::from("XML"),
    };
    match config::run_command(&config, &cmd).unwrap() {
        Output::ConfigSetAck { key, value } => {
            assert_eq!(key, "persistence_mode");
            assert_eq!(value, "XML");
        },
        _ => panic!("expected an acknowledgment"),
    }
    assert_eq!(config.mode_text(), "JSON");
}

#[test]
fn malformed_identifier_is_rejected_before_lookup() {
    let mut data = ProjectData::new();
    let cmd = Command::Destroy { project_id: String::from("not-a-uuid") };
    assert!(matches!(project::run_command(&mut data, &cmd), Err(Error::InvalidIdentifier)));
    let cmd = Command::DestroyTask {
        project_id: String::from("123e4567-e89b-12d3-a456-426614174000"),
        task_id: String::from("bad"),
    };
    assert!(matches!(project::run_command(&mut data, &cmd), Err(Error::InvalidIdentifier)));
}

#[test]
fn create_task_under_missing_project_fails() {
    let mut data = ProjectData::new();
    let cmd = Command::CreateTask {
        project_id: String::from("123e4567-e89b-12d3-a456-426614174000"),
        name: String::from("T1"),
        description: None,
    };
    assert!(matches!(project::run_command(&mut data, &cmd), Err(Error::ProjectNotFound)));
}

#[test]
fn list_command_reports_every_project() {
    let mut data = ProjectData::new();
    let a = data.create_project(&String::from("Alpha"), &String::from("one"));
    let b = data.create_project(&String::from("Beta"), &String::from("two"));
    match project::run_command(&mut data, &Command::List).unwrap() {
        Output::Projects(lines) => {
            assert_eq!(lines.len(), 2);
            assert_eq!(lines[0].id, a.to_text());
            assert_eq!(lines[0].name, "Alpha");
            assert_eq!(lines[0].description, "one");
            assert_eq!(lines[1].id, b.to_text());
            assert_eq!(lines[1].name, "Beta");
        },
        _ => panic!("expected a project listing"),
    }
}

#[test]
fn update_command_patches_partially() {
    let mut data = ProjectData::new();
    let pid = data.create_project(&String::from("Alpha"), &String::from("desc A"));
    let cmd = Command::Update {
        project_id: pid.to_text(),
        name: None,
        description: Some(String::from("desc B")),
    };
    assert!(matches!(project::run_command(&mut data, &cmd), Ok(Output::Done)));
    let p = &data.list_projects()[0];
    assert_eq!(p.name, "Alpha");
    assert_eq!(p.description, "desc B");
}

#[test]
fn runtime_run_flags_mutations_for_persistence() {
    let mut data = ProjectData::new();
    data.create_project(&String::from("Alpha"), &String::from(""));

    let mut rtc = RuntimeConfig {
        namespace: Namespace::Project(ProjectArgs {
            command: Some(Command::Create {
                name: String::from("Beta"),
                description: None,
            }),
        }),
        config: Config::default(),
        projects_data: data,
    };
    let (out, persist) = rtc.run().unwrap();
    assert!(matches!(out, Output::Done));
    assert!(persist);
    assert_eq!(rtc.projects_data.list_projects().len(), 2);

    rtc.namespace = Namespace::Project(ProjectArgs { command: Some(Command::List) });
    let (out, persist) = rtc.run().unwrap();
    assert!(matches!(out, Output::Projects(_)));
    assert!(!persist);

    rtc.namespace = Namespace::Config(ConfigArgs {
        command: Some(config::Command::Get { key: String::from("persistence_mode") }),
    });
    let (out, persist) = rtc.run().unwrap();
    assert!(matches!(out, Output::ConfigValue(_)));
    assert!(!persist);
}

#[test]
fn failed_run_leaves_the_collection_untouched() {
    let mut rtc = RuntimeConfig {
        namespace: Namespace::Project(ProjectArgs {
            command: Some(Command::Destroy {
                project_id: String::from("123e4567-e89b-12d3-a456-426614174000"),
            }),
        }),
        config: Config::default(),
        projects_data: ProjectData::new(),
    };
    assert!(matches!(rtc.run(), Err(Error::ProjectNotFound)));
    assert!(rtc.projects_data.list_projects().is_empty());
}

#[test]
fn error_messages_name_the_missing_entity() {
    assert_eq!(Error::ProjectNotFound.message(), "Project not found");
    assert_eq!(Error::TaskNotFound.message(), "Task not found");
    assert_eq!(Error::InvalidIdentifier.message(), "invalid identifier");
    assert_eq!(Error::CorruptStore.message(), "stored data is corrupt");
    assert_eq!(Error::PersistenceFailure.message(), "could not persist data");
}
