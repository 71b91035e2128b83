use the_rust_programming_language::minigrep::{
    contains, lines, run_search, search, search_case_insensitive, Config,
};

#[test]
fn one_result() {
    let query = "duct";
    let contents = "\
Rust:
safe, fast, productive
Pick three.";
    assert_eq!(vec!["safe, fast, productive"], search(query, contents))
}

#[test]
fn case_sensitive() {
    let query = "duct";
    let contents = "\
Rust:
safe, fast, productive
Pick three.";
    assert_eq!(vec!["safe, fast, productive"], search(query, contents))
}

#[test]
fn case_insensitive() {
    let query = "rUsT";
    let contents = "\
Rust:
safe, fast, productive.
Pick three.
trust me.";
    assert_eq!(vec!["Rust:", "trust me."], search_case_insensitive(query, contents))
}

#[test]
fn lines_split_like_str_lines() {
    assert_eq!(lines("a\r\nb\n\nc\n"), vec!["a", "b", "", "c"]);
    assert_eq!(lines(""), Vec::<&str>::new());
    assert_eq!(lines("x\r"), vec!["x\r"]);
}

#[test]
fn contains_finds_substrings() {
    assert!(contains("productive", "duct"));
    assert!(contains("abc", ""));
    assert!(!contains("ab", "abc"));
    assert!(!contains("Duct", "duct"));
}

#[test]
fn config_reads_arguments() {
    let args = vec!["prog".to_string()];
    assert!(matches!(Config::new(&args, false), Err("Didn't get a query string")));
    let args = vec!["prog".to_string(), "q".to_string()];
    assert!(matches!(Config::new(&args, false), Err("Didn't get a file name")));
    let args = vec!["prog".to_string(), "q".to_string(), "poem.txt".to_string()];
    let c = match Config::new(&args, true) {
        Ok(c) => c,
        Err(_) => panic!("expected a configuration"),
    };
    assert_eq!(c.query, "q");
    assert_eq!(c.filename, "poem.txt");
    assert!(!c.case_sensitive);
    assert_eq!(run_search(&c, "Q\nq\nx"), vec!["Q", "q"]);
}
