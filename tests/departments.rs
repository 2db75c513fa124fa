use rustbook::departments::{parse_add, parse_command, Command, Directory};

#[test]
fn commands_are_read_from_trimmed_lines() {
    assert_eq!(parse_command("1\n"), Command::Add);
    assert_eq!(parse_command("  2 "), Command::List);
    assert_eq!(parse_command("3"), Command::ListAll);
    assert_eq!(parse_command("4"), Command::Invalid);
    assert_eq!(parse_command(""), Command::Invalid);
}

#[test]
fn add_clauses_are_parsed() {
    assert_eq!(
        parse_add("Add Sally to Engineering\n"),
        Some(("Sally", "Engineering"))
    );
    assert_eq!(parse_add("Add Amir to Sales today"), Some(("Amir", "Sales")));
    assert_eq!(parse_add("Add Sally Engineering"), None);
    assert_eq!(parse_add("Put Sally to Engineering"), None);
    assert_eq!(parse_add("Add Sally into Engineering"), None);
    assert_eq!(parse_add(""), None);
}

#[test]
fn directory_keeps_employees_by_department() {
    let mut db = Directory::new();
    assert!(db.employees("Sales").is_none());
    db.add("Sales", "Amir");
    db.add("Engineering", "Sally");
    db.add("Sales", "Bo");
    assert_eq!(
        db.employees("Sales").unwrap(),
        &vec![String::from("Amir"), String::from("Bo")]
    );
    assert_eq!(db.employees("Engineering").unwrap(), &vec![String::from("Sally")]);
    assert_eq!(
        db.departments_sorted(),
        vec![String::from("Engineering"), String::from("Sales")]
    );
}
