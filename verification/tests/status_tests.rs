use task_tracker::task::Task;

fn done_task() -> Task {
    let mut task = Task::new(1, String::from("done"));
    task.completed = true;
    task
}

#[test]
fn status_is_a_glyph_with_or_without_colour() {
    let open = Task::new(1, String::from("open"));
    let open_status = open.status();
    assert!(open_status == " " || open_status == "\u{1b}[33m \u{1b}[0m", "{:?}", open_status);
    let done_status = done_task().status();
    assert!(
        done_status == "\u{2713}" || done_status == "\u{1b}[32m\u{2713}\u{1b}[0m",
        "{:?}",
        done_status
    );
    assert_ne!(open_status, done_status);
}

#[test]
fn status_follows_the_colour_switch() {
    let open = Task::new(1, String::from("open"));
    let done = done_task();

    colored::control::set_override(true);
    assert_eq!(done.status(), "\u{1b}[32m\u{2713}\u{1b}[0m");
    assert_eq!(open.status(), "\u{1b}[33m \u{1b}[0m");

    colored::control::set_override(false);
    assert_eq!(done.status(), "\u{2713}");
    assert_eq!(open.status(), " ");

    colored::control::unset_override();
}
