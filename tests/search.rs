use rustbook::grep::{line_matches, search, search_case_insensitive, Config};

#[test]
fn case_sensitive() {
    let query = "duct";
    let contents = "\
Rust:
safe, fast, productive.
Pick three.
Duck tape.
";

    assert_eq!(vec!["safe, fast, productive."], search(query, contents));
}

#[test]
fn case_insensitive() {
    let query = "rUsT";
    let contents = "\
Rust:
safe, fast, productive.
Pick three.
Trust me.";

    assert_eq!(
        vec!["Rust:", "Trust me."],
        search_case_insensitive(query, contents)
    );
}

#[test]
fn search_splits_crlf_lines_and_keeps_order() {
    let contents = "one fish\r\ntwo fish\r\nred bird\nblue fish";
    assert_eq!(vec!["one fish", "two fish", "blue fish"], search("fish", contents));
}

#[test]
fn search_in_empty_text_finds_nothing() {
    assert!(search("a", "").is_empty());
}

#[test]
fn search_is_case_sensitive() {
    assert!(search("rust", "Rust:\nTRUST").is_empty());
}

#[test]
fn case_insensitive_lowers_both_sides() {
    assert_eq!(vec!["HELLO there"], search_case_insensitive("hello", "HELLO there\nbye"));
}

#[test]
fn line_matches_finds_substrings() {
    assert!(line_matches("fast", "safe, fast, productive."));
    assert!(line_matches("", "anything"));
    assert!(!line_matches("slow", "safe, fast, productive."));
}

#[test]
fn config_needs_query_and_file() {
    let args = vec![String::from("prog"), String::from("needle")];
    assert_eq!(Config::new(&args, false).err(), Some("not enough arguments"));
}

#[test]
fn config_reads_query_file_and_case() {
    let args = vec![
        String::from("prog"),
        String::from("needle"),
        String::from("poem.txt"),
    ];
    let c = Config::new(&args, false).ok().unwrap();
    assert_eq!(c.query, "needle");
    assert_eq!(c.filename, "poem.txt");
    assert!(c.case_sensitive);
    let c = Config::new(&args, true).ok().unwrap();
    assert!(!c.case_sensitive);
}
