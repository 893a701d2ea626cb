use term::app::{App, AppTab, ConsoleSize, KeyAction, KeyIntent};
use term::buffer::Buff;
use term::project::{Cmd, CmdDescriptor};
use term::scroll::Anchor;

fn cmd_named(name: &str) -> Cmd {
    Cmd::new(CmdDescriptor {
        name: name.to_string(),
        executable: "true".to_string(),
        workdir: ".".to_string(),
    })
}

fn app_with_projects(n: usize) -> App {
    let mut app = App::default();

    for i in 0..n {
        app.projects.push(cmd_named(&format!("p{}", i)));
    }

    app
}

#[test]
fn default_app_is_idle_on_the_sidebar() {
    let app = App::default();

    assert_eq!(app.projects.len(), 0);
    assert_eq!(app.selected_project_index, 0);
    assert!(matches!(app.active_tab, AppTab::Sidebar));
    assert!(!app.should_exit);
}

#[test]
fn select_next_clamps_at_the_last_project() {
    let mut app = app_with_projects(3);

    app.select_next();
    assert_eq!(app.selected_project_index, 1);
    app.select_next();
    assert_eq!(app.selected_project_index, 2);
    app.select_next();
    assert_eq!(app.selected_project_index, 2);
}

#[test]
fn select_prev_clamps_at_the_first_project() {
    let mut app = app_with_projects(3);
    app.selected_project_index = 2;

    app.select_prev();
    assert_eq!(app.selected_project_index, 1);
    app.select_prev();
    assert_eq!(app.selected_project_index, 0);
    app.select_prev();
    assert_eq!(app.selected_project_index, 0);
}

#[test]
fn selection_on_an_empty_list_stays_put() {
    let mut app = App::default();

    app.select_next();
    assert_eq!(app.selected_project_index, 0);
    app.select_prev();
    assert_eq!(app.selected_project_index, 0);
}

#[test]
fn next_tab_toggles_focus() {
    let mut app = App::default();

    app.next_tab();
    assert!(matches!(app.active_tab, AppTab::Console));
    app.next_tab();
    assert!(matches!(app.active_tab, AppTab::Sidebar));
}

#[test]
fn quit_key_raises_the_exit_flag_and_stops_everything() {
    let mut app = app_with_projects(1);

    let action = app.on_key(KeyIntent::Quit);

    assert_eq!(action, KeyAction::StopAll);
    assert!(app.should_exit);
}

#[test]
fn run_and_stop_keys_only_name_the_work_to_do() {
    let mut app = app_with_projects(2);

    assert_eq!(app.on_key(KeyIntent::Run), KeyAction::SpawnSelected);
    assert_eq!(app.on_key(KeyIntent::Stop), KeyAction::StopSelected);
    assert!(!app.should_exit);
    assert!(!app.projects[0].status.is_running);
}

#[test]
fn arrow_keys_move_the_selection_while_the_sidebar_has_focus() {
    let mut app = app_with_projects(3);

    assert_eq!(app.on_key(KeyIntent::Down), KeyAction::Nothing);
    assert_eq!(app.selected_project_index, 1);
    assert_eq!(app.on_key(KeyIntent::Up), KeyAction::Nothing);
    assert_eq!(app.selected_project_index, 0);
}

fn console_app() -> App {
    let mut app = app_with_projects(2);
    let mut lines = vec![];
    for i in 0..10 {
        lines.push(format!("row{}", i));
    }
    app.projects[1].output.data = Buff::new(lines, 4);
    app.selected_project_index = 1;
    app.active_tab = AppTab::Console;
    app.console_widget_size = ConsoleSize { width: 20, height: 5 };
    app
}

#[test]
fn arrow_keys_scroll_the_selected_console() {
    let mut app = console_app();
    app.projects[1].output.scroll_down(3);

    app.on_key(KeyIntent::Down);
    assert_eq!(app.projects[1].output.anchor, Anchor { block: 1, line: 0 });

    app.on_key(KeyIntent::Up);
    app.on_key(KeyIntent::Up);
    assert_eq!(app.projects[1].output.anchor, Anchor { block: 0, line: 2 });
}

#[test]
fn page_keys_scroll_by_the_console_height() {
    let mut app = console_app();

    app.on_key(KeyIntent::PageDown);
    assert_eq!(app.projects[1].output.anchor, Anchor { block: 1, line: 1 });

    app.on_key(KeyIntent::PageUp);
    assert_eq!(app.projects[1].output.anchor, Anchor { block: 0, line: 0 });
}

#[test]
fn scrolling_one_console_leaves_the_others_alone() {
    let mut app = console_app();

    app.on_key(KeyIntent::PageDown);

    assert_eq!(app.projects[0].output.anchor, Anchor { block: 0, line: 0 });
}

#[test]
fn viewport_follows_the_selected_project() {
    let mut app = console_app();

    let rows = app.lines(4, 3);
    assert_eq!(rows, vec!["row0".to_string(), "row1".to_string(), "row2".to_string()]);

    assert_eq!(app.selected_project().descriptor.name, "p1");
}
