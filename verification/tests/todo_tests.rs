use wkfl::todo::{TodoError, TodoFile, TodoItem, TodoSection};

#[test]
fn test_add_item_to_default_section() {
    let mut todo_file = TodoFile {
        sections: vec![TodoSection::new("Todo".to_string(), 1)],
        file_path: "/tmp/test.md".to_string(),
    };

    let result = todo_file.add_item("New task".to_string(), None, false, None);
    assert!(result.is_ok());
    assert_eq!(todo_file.sections[0].items.len(), 1);
    assert_eq!(todo_file.sections[0].items[0].description, "New task");
}

#[test]
fn test_add_item_to_specific_section() {
    let mut todo_file = TodoFile {
        sections: vec![
            TodoSection::new("Todo".to_string(), 1),
            TodoSection::new("Work".to_string(), 2),
        ],
        file_path: "/tmp/test.md".to_string(),
    };

    let result = todo_file.add_item("Work task".to_string(), Some("Work".to_string()), false, None);
    assert!(result.is_ok());
    assert_eq!(todo_file.sections[1].items.len(), 1);
    assert_eq!(todo_file.sections[1].items[0].description, "Work task");
}

#[test]
fn test_global_indexing() {
    let todo_file = TodoFile {
        sections: vec![
            TodoSection {
                name: "Todo".to_string(),
                level: 1,
                items: vec![
                    TodoItem { index: 1, completed: false, description: "Task 1".to_string() },
                    TodoItem { index: 2, completed: false, description: "Task 2".to_string() },
                ],
            },
            TodoSection {
                name: "Work".to_string(),
                level: 2,
                items: vec![
                    TodoItem { index: 1, completed: false, description: "Task 3".to_string() },
                ],
            },
        ],
        file_path: "/tmp/test.md".to_string(),
    };

    let all_items = todo_file.all_items();
    assert_eq!(all_items.len(), 3);
    assert_eq!(all_items[0].0, 1);
    assert_eq!(all_items[1].0, 2);
    assert_eq!(all_items[2].0, 3);
    assert_eq!(all_items[0].2.description, "Task 1");
    assert_eq!(all_items[2].2.description, "Task 3");
    assert_eq!(all_items[2].1.name, "Work");
}

fn two_section_file() -> TodoFile {
    TodoFile {
        sections: vec![
            TodoSection {
                name: "Todo".to_string(),
                level: 1,
                items: vec![
                    TodoItem { index: 1, completed: false, description: "Task 1".to_string() },
                    TodoItem { index: 2, completed: true, description: "Task 2".to_string() },
                ],
            },
            TodoSection {
                name: "Work".to_string(),
                level: 2,
                items: vec![
                    TodoItem { index: 1, completed: false, description: "Task 3".to_string() },
                ],
            },
        ],
        file_path: "/tmp/test.md".to_string(),
    }
}

#[test]
fn remove_item_reindexes_section() {
    let mut todo_file = two_section_file();
    let removed = todo_file.remove_item(1).unwrap();
    assert_eq!(removed.description, "Task 1");
    assert_eq!(todo_file.sections[0].items.len(), 1);
    assert_eq!(todo_file.sections[0].items[0].description, "Task 2");
    assert_eq!(todo_file.sections[0].items[0].index, 1);
}

#[test]
fn remove_item_reaches_later_sections() {
    let mut todo_file = two_section_file();
    let removed = todo_file.remove_item(3).unwrap();
    assert_eq!(removed.description, "Task 3");
    assert_eq!(todo_file.sections[1].items.len(), 0);
}

#[test]
fn remove_item_rejects_bad_indices() {
    let mut todo_file = two_section_file();
    assert_eq!(todo_file.remove_item(0).unwrap_err(), TodoError::InvalidIndex);
    assert_eq!(todo_file.remove_item(4).unwrap_err(), TodoError::InvalidIndex);
    let mut empty = TodoFile {
        sections: vec![TodoSection::new("Todo".to_string(), 1)],
        file_path: "/tmp/test.md".to_string(),
    };
    assert_eq!(empty.remove_item(1).unwrap_err(), TodoError::NoItems);
}

#[test]
fn set_item_completion_toggles() {
    let mut todo_file = two_section_file();
    todo_file.set_item_completion(1, true).unwrap();
    assert!(todo_file.sections[0].items[0].completed);
    todo_file.set_item_completion(1, false).unwrap();
    assert!(!todo_file.sections[0].items[0].completed);
}

#[test]
fn filtered_items_respect_flags() {
    let todo_file = two_section_file();
    assert_eq!(todo_file.get_filtered_items(false, false).len(), 3);
    let pending = todo_file.get_filtered_items(true, false);
    assert_eq!(pending.len(), 2);
    assert!(pending.iter().all(|(_, _, item)| !item.completed));
    let completed = todo_file.get_filtered_items(false, true);
    assert_eq!(completed.len(), 1);
    assert_eq!(completed[0].2.description, "Task 2");
}

#[test]
fn add_section_validates_level_and_name() {
    let mut todo_file = two_section_file();
    assert_eq!(
        todo_file.add_section("Misc".to_string(), 3),
        Err(TodoError::InvalidSectionLevel)
    );
    assert_eq!(
        todo_file.add_section("Work".to_string(), 2),
        Err(TodoError::SectionExists)
    );
    assert!(todo_file.add_section("Misc".to_string(), 2).is_ok());
    assert_eq!(todo_file.sections.len(), 3);
    assert_eq!(todo_file.sections[2].name, "Misc");
}

#[test]
fn add_item_missing_section_fails() {
    let mut todo_file = two_section_file();
    assert_eq!(
        todo_file.add_item("x".to_string(), Some("Nope".to_string()), false, None),
        Err(TodoError::SectionNotFound)
    );
}

#[test]
fn add_item_after_index_in_other_section_fails() {
    let mut todo_file = two_section_file();
    assert_eq!(
        todo_file.add_item("x".to_string(), Some("Work".to_string()), false, Some(1)),
        Err(TodoError::AfterIndexInDifferentSection)
    );
    assert_eq!(
        todo_file.add_item("x".to_string(), None, false, Some(9)),
        Err(TodoError::InvalidAfterIndex)
    );
}

#[test]
fn add_item_after_index_inserts_in_place() {
    let mut todo_file = two_section_file();
    todo_file
        .add_item("Task 1.5".to_string(), None, false, Some(1))
        .unwrap();
    assert_eq!(todo_file.sections[0].items[1].description, "Task 1.5");
    assert_eq!(todo_file.sections[0].items[1].index, 2);
    assert_eq!(todo_file.sections[0].items[2].description, "Task 2");
    assert_eq!(todo_file.sections[0].items[2].index, 3);
}

#[test]
fn add_item_at_top_goes_first() {
    let mut todo_file = two_section_file();
    todo_file.add_item("Urgent".to_string(), None, true, None).unwrap();
    assert_eq!(todo_file.sections[0].items[0].description, "Urgent");
    assert_eq!(todo_file.sections[0].items[0].index, 1);
}

#[test]
fn section_output_renders_markdown() {
    let section = TodoSection {
        name: "Work".to_string(),
        level: 2,
        items: vec![
            TodoItem { index: 1, completed: true, description: "Done thing".to_string() },
            TodoItem { index: 2, completed: false, description: "Open thing".to_string() },
        ],
    };
    assert_eq!(
        section.to_output_format(),
        "## Work\n- [x] Done thing\n- [ ] Open thing\n"
    );
}

#[test]
fn item_output_renders_checkbox() {
    let item = TodoItem { index: 1, completed: false, description: "Task".to_string() };
    assert_eq!(item.checkbox(), " ");
    assert_eq!(item.to_output_format(), "- [ ] Task");
    let done = TodoItem { index: 1, completed: true, description: "Task".to_string() };
    assert_eq!(done.checkbox(), "x");
    assert_eq!(done.to_output_format(), "- [x] Task");
}

#[test]
fn total_items_counts_all_sections() {
    let todo_file = two_section_file();
    assert_eq!(todo_file.total_items(), 3);
    assert_eq!(todo_file.list_sections().len(), 2);
}
