use task_tracker::error::TaskError;
use task_tracker::store::TaskStore;
use task_tracker::task::Task;

#[test]
fn new_store_is_empty() {
    let store = TaskStore::new();
    assert!(store.is_empty());
    assert_eq!(store.len(), 0);
    assert_eq!(store.next_id(), 1);
    assert!(store.list().is_empty());
}

#[test]
fn new_task_is_not_completed() {
    let task = Task::new(7, String::from("Water plants"));
    assert_eq!(task.id, 7);
    assert_eq!(task.description, "Water plants");
    assert!(!task.completed);
}

#[test]
fn add_hands_out_one_two_three() {
    let mut store = TaskStore::new();
    assert_eq!(store.add("first"), Ok(1));
    assert_eq!(store.add("second"), Ok(2));
    assert_eq!(store.add("third"), Ok(3));
    assert_eq!(store.next_id(), 4);
    let ids: Vec<usize> = store.list().iter().map(|t| t.id).collect();
    assert_eq!(ids, vec![1, 2, 3]);
}

#[test]
fn add_keeps_counting_over_many_tasks() {
    let mut store = TaskStore::new();
    for expected in 1..=200usize {
        assert_eq!(store.add(&format!("task {}", expected)), Ok(expected));
    }
    assert_eq!(store.len(), 200);
    for (position, task) in store.list().iter().enumerate() {
        assert_eq!(task.id, position + 1);
        assert_eq!(task.description, format!("task {}", position + 1));
        assert!(!task.completed);
    }
}

#[test]
fn add_rejects_empty_description() {
    let mut store = TaskStore::new();
    assert_eq!(store.add(""), Err(TaskError::EmptyDescription));
    assert!(store.is_empty());
    assert_eq!(store.next_id(), 1);
}

#[test]
fn add_rejects_whitespace_only_description() {
    let mut store = TaskStore::new();
    assert_eq!(store.add("kept"), Ok(1));
    for blank in ["   ", "\t", "\n", " \r\n ", "\u{a0}", "\u{3000}\u{2003}"] {
        assert_eq!(store.add(blank), Err(TaskError::EmptyDescription));
        assert_eq!(store.len(), 1);
        assert_eq!(store.next_id(), 2);
    }
    assert_eq!(store.add("next"), Ok(2));
}

#[test]
fn add_stores_the_trimmed_description() {
    let mut store = TaskStore::new();
    assert_eq!(store.add("  Buy milk \n"), Ok(1));
    assert_eq!(store.list()[0].description, "Buy milk");
    assert_eq!(store.add("\tinner  space kept\t"), Ok(2));
    assert_eq!(store.list()[1].description, "inner  space kept");
}

#[test]
fn complete_marks_the_task() {
    let mut store = TaskStore::new();
    store.add("one").unwrap();
    store.add("two").unwrap();
    store.add("three").unwrap();
    assert_eq!(store.complete(2), Ok(()));
    let flags: Vec<bool> = store.list().iter().map(|t| t.completed).collect();
    assert_eq!(flags, vec![false, true, false]);
    assert_eq!(store.next_id(), 4);
}

#[test]
fn complete_twice_is_the_same_as_once() {
    let mut once = TaskStore::new();
    once.add("one").unwrap();
    once.add("two").unwrap();
    assert_eq!(once.complete(1), Ok(()));

    let mut twice = TaskStore::new();
    twice.add("one").unwrap();
    twice.add("two").unwrap();
    assert_eq!(twice.complete(1), Ok(()));
    assert_eq!(twice.complete(1), Ok(()));

    assert_eq!(once.list(), twice.list());
    assert_eq!(once.next_id(), twice.next_id());
    assert!(twice.list()[0].completed);
    assert!(!twice.list()[1].completed);
}

#[test]
fn complete_unknown_id_changes_nothing() {
    let mut store = TaskStore::new();
    store.add("one").unwrap();
    store.add("two").unwrap();
    store.complete(1).unwrap();
    for id in [0usize, 3, 5, usize::MAX] {
        assert_eq!(store.complete(id), Err(TaskError::TaskNotFound(id)));
        assert_eq!(store.len(), 2);
        assert_eq!(store.next_id(), 3);
        assert!(store.list()[0].completed);
        assert!(!store.list()[1].completed);
        assert_eq!(store.list()[0].description, "one");
        assert_eq!(store.list()[1].description, "two");
    }
}

#[test]
fn complete_on_empty_store_is_not_found() {
    let mut store = TaskStore::new();
    assert_eq!(store.complete(1), Err(TaskError::TaskNotFound(1)));
    assert!(store.is_empty());
}

#[test]
fn list_keeps_the_order_of_adding() {
    let mut store = TaskStore::new();
    let names = ["delta", "alpha", "charlie", "bravo"];
    for name in names {
        store.add(name).unwrap();
    }
    store.complete(3).unwrap();
    let listed = store.list();
    assert_eq!(listed.len(), names.len());
    for (position, task) in listed.iter().enumerate() {
        assert_eq!(task.id, position + 1);
        assert_eq!(task.description, names[position]);
        assert_eq!(task.completed, position == 2);
    }
}

#[test]
fn rejected_add_does_not_use_up_an_identifier() {
    let mut store = TaskStore::new();
    assert_eq!(store.add("a"), Ok(1));
    assert_eq!(store.add("  "), Err(TaskError::EmptyDescription));
    assert_eq!(store.add(""), Err(TaskError::EmptyDescription));
    assert_eq!(store.add("b"), Ok(2));
    assert_eq!(store.len(), 2);
}

#[test]
fn store_scenario_from_start_to_end() {
    let mut store = TaskStore::new();
    assert_eq!(store.add("Buy milk"), Ok(1));
    assert_eq!(store.add("Walk dog"), Ok(2));
    assert_eq!(store.complete(1), Ok(()));
    {
        let listed = store.list();
        assert_eq!(listed.len(), 2);
        assert_eq!(listed[0].id, 1);
        assert_eq!(listed[0].description, "Buy milk");
        assert!(listed[0].completed);
        assert_eq!(listed[1].id, 2);
        assert_eq!(listed[1].description, "Walk dog");
        assert!(!listed[1].completed);
    }
    assert_eq!(store.complete(5), Err(TaskError::TaskNotFound(5)));
    let listed = store.list();
    assert_eq!(listed.len(), 2);
    assert!(listed[0].completed);
    assert!(!listed[1].completed);
    assert_eq!(listed[0].description, "Buy milk");
    assert_eq!(listed[1].description, "Walk dog");
}
