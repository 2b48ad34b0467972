use remote_explorer::error::{Error, LookupError};
use remote_explorer::models::Project;
use remote_explorer::state::{
    add_project, get_project_by_key, project_index, remove_project_by_key, take_projects, Registry,
};

fn project(key: &str, connection: u32) -> Project<u32, String> {
    Project {
        key: key.to_string(),
        name: format!("Project {}", key),
        user: "alice".to_string(),
        host: "10.0.0.5:2222".to_string(),
        password: None,
        key_file: None,
        public_key_file: None,
        auth_method: "agent".to_string(),
        main_connection: connection,
        terminal_connections: Vec::new(),
    }
}

#[test]
fn new_registry_is_empty() {
    let registry: Registry<u32, String> = Registry::new();
    assert_eq!(registry.len(), 0);
    assert_eq!(get_project_by_key(&registry, "p1"), Err(LookupError::ProjectNotFound));
    assert_eq!(project_index(&registry, "p1"), None);
}

#[test]
fn added_project_is_found_by_its_key() {
    let mut registry: Registry<u32, String> = Registry::new();
    assert_eq!(add_project(&mut registry, project("p1", 1)), Ok(()));
    assert_eq!(add_project(&mut registry, project("p2", 2)), Ok(()));
    assert_eq!(registry.len(), 2);
    assert_eq!(get_project_by_key(&registry, "p1"), Ok(&project("p1", 1)));
    assert_eq!(get_project_by_key(&registry, "p2"), Ok(&project("p2", 2)));
    assert_eq!(get_project_by_key(&registry, "p3"), Err(LookupError::ProjectNotFound));
    assert_eq!(project_index(&registry, "p2"), Some(1));
}

#[test]
fn a_key_is_registered_once() {
    let mut registry: Registry<u32, String> = Registry::new();
    assert_eq!(add_project(&mut registry, project("p1", 1)), Ok(()));
    assert_eq!(add_project(&mut registry, project("p1", 7)), Err(Error::DuplicateKey));
    assert_eq!(registry.len(), 1);
    assert_eq!(get_project_by_key(&registry, "p1").map(|p| p.main_connection), Ok(1));
    let with_key = registry.projects.iter().filter(|p| p.key == "p1").count();
    assert_eq!(with_key, 1);
}

#[test]
fn removed_project_is_found_no_more() {
    let mut registry: Registry<u32, String> = Registry::new();
    add_project(&mut registry, project("p1", 1)).unwrap();
    add_project(&mut registry, project("p2", 2)).unwrap();
    add_project(&mut registry, project("p3", 3)).unwrap();
    assert_eq!(remove_project_by_key(&mut registry, "p2"), Ok(()));
    assert_eq!(registry.len(), 2);
    assert_eq!(get_project_by_key(&registry, "p2"), Err(LookupError::ProjectNotFound));
    assert_eq!(get_project_by_key(&registry, "p1"), Ok(&project("p1", 1)));
    assert_eq!(get_project_by_key(&registry, "p3"), Ok(&project("p3", 3)));
    assert_eq!(project_index(&registry, "p3"), Some(1));
}

#[test]
fn removing_twice_reports_not_found_and_changes_nothing() {
    let mut registry: Registry<u32, String> = Registry::new();
    add_project(&mut registry, project("p1", 1)).unwrap();
    add_project(&mut registry, project("p2", 2)).unwrap();
    assert_eq!(remove_project_by_key(&mut registry, "p1"), Ok(()));
    assert_eq!(remove_project_by_key(&mut registry, "p1"), Err(LookupError::ProjectNotFound));
    assert_eq!(remove_project_by_key(&mut registry, "nope"), Err(LookupError::ProjectNotFound));
    assert_eq!(registry.projects, vec![project("p2", 2)]);
}

#[test]
fn removal_takes_every_project_with_the_key() {
    let mut registry: Registry<u32, String> = Registry::new();
    registry.projects.push(project("p1", 1));
    registry.projects.push(project("p2", 2));
    registry.projects.push(project("p1", 3));
    let taken = take_projects(&mut registry, "p1");
    assert_eq!(taken, vec![project("p1", 1), project("p1", 3)]);
    assert_eq!(registry.projects, vec![project("p2", 2)]);
    assert_eq!(take_projects(&mut registry, "p1"), Vec::new());
}

#[test]
fn a_removed_key_can_be_registered_again() {
    let mut registry: Registry<u32, String> = Registry::new();
    add_project(&mut registry, project("p1", 1)).unwrap();
    remove_project_by_key(&mut registry, "p1").unwrap();
    assert_eq!(add_project(&mut registry, project("p1", 9)), Ok(()));
    assert_eq!(get_project_by_key(&registry, "p1").map(|p| p.main_connection), Ok(9));
}
