use wpass_gui::app::{
    resolve_password_dict, AppConfig, DroppedEntry, ExtractionMode, MenuState, WPassApp,
};
use wpass_gui::worker::TaskState;

fn config(mode: ExtractionMode) -> AppConfig {
    AppConfig {
        password_file_path: String::new(),
        archive_executable_path: "/usr/bin/7z".to_string(),
        extraction_mode: mode,
        delete_after_extract: false,
        sanitize: true,
    }
}

#[test]
fn local_mode_uses_parent_directory() {
    let cfg = config(ExtractionMode::Local);
    let out = cfg
        .calculate_output_path_for("/a/b/c.7z", true, false)
        .unwrap();
    assert_eq!(out, "/a/b");
}

#[test]
fn local_mode_falls_back_to_current_directory() {
    let cfg = config(ExtractionMode::Local);
    let out = cfg
        .calculate_output_path_for("/a/b/c.7z", false, false)
        .unwrap();
    assert_eq!(out, ".");
}

#[test]
fn new_directory_mode_strips_the_extension() {
    let cfg = config(ExtractionMode::NewDirectory);
    let out = cfg
        .calculate_output_path_for("/a/b/c.7z", true, false)
        .unwrap();
    assert_eq!(out, "/a/b/c");
}

#[test]
fn new_directory_mode_avoids_an_existing_entry() {
    let cfg = config(ExtractionMode::NewDirectory);
    let out = cfg
        .calculate_output_path_for("/a/b/c.7z", true, true)
        .unwrap();
    assert_eq!(out, "/a/b/c_extracted");
}

#[test]
fn new_directory_mode_rejects_a_path_without_stem() {
    let cfg = config(ExtractionMode::NewDirectory);
    let err = cfg
        .calculate_output_path_for("/a/b/", true, false)
        .unwrap_err();
    assert_eq!(err.message, "InvalidPath: archive has no file stem");
}

#[test]
fn local_mode_root_and_bare_names() {
    let cfg = config(ExtractionMode::Local);
    assert_eq!(cfg.calculate_output_path_for("/c.7z", true, false).unwrap(), "/");
    assert_eq!(cfg.calculate_output_path_for("c.7z", true, false).unwrap(), "");
}

#[test]
fn hidden_files_keep_their_whole_name_as_stem() {
    let cfg = config(ExtractionMode::NewDirectory);
    assert_eq!(
        cfg.calculate_output_path_for("/a/.hidden", true, false).unwrap(),
        "/a/.hidden"
    );
    assert_eq!(
        cfg.calculate_output_path_for("/a/b.tar.gz", true, false).unwrap(),
        "/a/b.tar"
    );
}

#[test]
fn missing_store_yields_the_placeholder_dictionary() {
    let dict = resolve_password_dict(None);
    assert_eq!(dict, vec!["dummy".to_string()]);
}

#[test]
fn loaded_store_is_split_and_trimmed() {
    let store = "foo\n bar \n".to_string();
    let dict = resolve_password_dict(Some(&store));
    assert_eq!(
        dict,
        vec!["foo".to_string(), "bar".to_string(), String::new()]
    );
}

#[test]
fn duplicates_and_blank_lines_are_kept_by_the_resolver() {
    let store = "a\n\na\n\tb\u{3000}".to_string();
    let dict = resolve_password_dict(Some(&store));
    assert_eq!(
        dict,
        vec![
            "a".to_string(),
            String::new(),
            "a".to_string(),
            "b".to_string()
        ]
    );
}

#[test]
fn default_app_is_empty_and_local() {
    let app = WPassApp::default();
    assert_eq!(app.config.password_file_path, "");
    assert_eq!(app.config.archive_executable_path, "");
    assert!(matches!(app.config.extraction_mode, ExtractionMode::Local));
    assert!(!app.config.delete_after_extract);
    assert!(app.config.sanitize);
    assert!(matches!(app.menu_state, MenuState::Main));
    assert!(app.passwords.is_none());
    assert_eq!(app.task_showcase.length(), 0);
}

#[test]
fn init_adopts_the_password_store() {
    let mut app = WPassApp::default();
    app.init(Some("secret".to_string()));
    assert_eq!(app.passwords.as_deref(), Some("secret"));
    app.init(None);
    assert!(app.passwords.is_none());
}

#[test]
fn sanitizing_sorts_trims_and_deduplicates() {
    let mut app = WPassApp::default();
    app.init(Some("b\na\nb\n".to_string()));
    app.try_sanitize_passwords();
    assert_eq!(app.passwords.as_deref(), Some("\na\nb"));
}

#[test]
fn sanitizing_respects_the_switch_and_a_missing_store() {
    let mut app = WPassApp::default();
    app.config.sanitize = false;
    app.init(Some("b\na".to_string()));
    app.try_sanitize_passwords();
    assert_eq!(app.passwords.as_deref(), Some("b\na"));
    app.config.sanitize = true;
    app.init(None);
    app.try_sanitize_passwords();
    assert!(app.passwords.is_none());
}

fn entry(path: &str) -> DroppedEntry {
    DroppedEntry {
        path: Some(path.to_string()),
        parent_is_dir: true,
        stem_path_exists: false,
    }
}

#[test]
fn scheduling_registers_one_running_task_per_resolvable_file() {
    let mut app = WPassApp::default();
    app.init(Some("pw1\npw2".to_string()));
    let files = vec![
        entry("/a/b/c.7z"),
        DroppedEntry {
            path: None,
            parent_is_dir: false,
            stem_path_exists: false,
        },
        entry("/a/b/d.zip"),
    ];
    let jobs = app.schedule_files(&files);
    assert_eq!(app.task_showcase.length(), 2);
    assert!(matches!(app.task_showcase.tasks[0].state, TaskState::Running));
    assert!(matches!(app.task_showcase.tasks[1].state, TaskState::Running));
    assert_eq!(app.task_showcase.tasks[0].description, "/a/b/c.7z");
    assert_eq!(app.task_showcase.tasks[1].description, "/a/b/d.zip");
    assert_eq!(jobs.len(), 2);
    assert_eq!(jobs[0].archive_path, "/a/b/c.7z");
    assert_eq!(jobs[0].output_dir, "/a/b");
    assert_eq!(jobs[1].output_dir, "/a/b");
    assert_eq!(jobs[0].passwords, vec!["pw1".to_string(), "pw2".to_string()]);
    assert_eq!(jobs[1].passwords, vec!["pw1".to_string(), "pw2".to_string()]);
    assert!(!jobs[0].delete_after_extract);
}

#[test]
fn scheduling_without_a_store_uses_the_placeholder() {
    let mut app = WPassApp::default();
    let jobs = app.schedule_files(&vec![entry("/x/y.rar")]);
    assert_eq!(jobs.len(), 1);
    assert_eq!(jobs[0].passwords, vec!["dummy".to_string()]);
}

#[test]
fn scheduling_snapshots_the_configuration() {
    let mut app = WPassApp::default();
    app.config.extraction_mode = ExtractionMode::NewDirectory;
    app.config.delete_after_extract = true;
    app.config.archive_executable_path = "/opt/7zz".to_string();
    let jobs = app.schedule_files(&vec![entry("/data/arc.7z")]);
    assert_eq!(jobs.len(), 1);
    assert_eq!(jobs[0].output_dir, "/data/arc");
    assert_eq!(jobs[0].executable_path, "/opt/7zz");
    assert!(jobs[0].delete_after_extract);
}

#[test]
fn unresolvable_destination_fails_the_task_without_a_job() {
    let mut app = WPassApp::default();
    app.config.extraction_mode = ExtractionMode::NewDirectory;
    let jobs = app.schedule_files(&vec![entry("/a/b/"), entry("/a/b/ok.7z")]);
    assert_eq!(jobs.len(), 1);
    assert_eq!(app.task_showcase.length(), 2);
    match &app.task_showcase.tasks[0].state {
        TaskState::Failed(e) => {
            assert_eq!(e.message, "InvalidPath: archive has no file stem")
        }
        _ => panic!("expected an immediately failed task"),
    }
    assert!(matches!(app.task_showcase.tasks[1].state, TaskState::Running));
    assert_eq!(jobs[0].archive_path, "/a/b/ok.7z");
    assert_eq!(jobs[0].output_dir, "/a/b/ok");
}

#[test]
fn a_job_reports_back_through_its_own_task() {
    let mut app = WPassApp::default();
    let jobs = app.schedule_files(&vec![entry("/a/one.7z"), entry("/a/two.7z")]);
    assert_eq!(jobs.len(), 2);
    app.task_showcase.poll();
    assert!(matches!(app.task_showcase.tasks[0].state, TaskState::Running));
    assert!(matches!(app.task_showcase.tasks[1].state, TaskState::Running));
    jobs[1].sender.send(Ok(true)).unwrap();
    app.task_showcase.poll();
    assert!(matches!(app.task_showcase.tasks[0].state, TaskState::Running));
    assert!(matches!(
        app.task_showcase.tasks[1].state,
        TaskState::Finished(true)
    ));
    jobs[0]
        .sender
        .send(Err(wpass_gui::TaskError::new("wrong password".to_string())))
        .unwrap();
    app.task_showcase.poll();
    match &app.task_showcase.tasks[0].state {
        TaskState::Failed(e) => assert_eq!(e.message, "wrong password"),
        _ => panic!("expected Failed"),
    }
}
