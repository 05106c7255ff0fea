use webserver::minigrep::{contains, lines, run, search, search_insensitive, select, Config};

#[test]
fn case_sensitive() {
    let query = "duct";
    let contents = "\
Rust:
safe, fast, productive.
Pick three.";

    assert_eq!(vec!["safe, fast, productive."], search(query, contents));
}

#[test]
fn case_insensitive() {
    let query = "dUcT";
    let contents = "\
RusT:
Safe, faSt, proDuctive.
Pick tHree.";
    assert_eq!(vec!["Safe, faSt, proDuctive."], search_insensitive(query, contents));
}

#[test]
fn lines_follow_the_standard_library() {
    let samples = [
        "", "a", "a\n", "a\nb", "a\r\nb\r\n", "\n\n", "a\r", "a\r\n\r", "\r\n", "x\ny\n\nz",
        "é\nü\r\n",
    ];
    for text in samples {
        let expected: Vec<&str> = text.lines().collect();
        assert_eq!(lines(text), expected, "for {:?}", text);
    }
}

#[test]
fn contains_follows_the_standard_library() {
    let cases = [("", ""), ("abc", ""), ("", "a"), ("abc", "abc"), ("abc", "bc"), ("abc", "abcd"),
        ("aab", "ab"), ("abab", "bb"), ("héllo", "él"), ("hello", "lo")];
    for (hay, needle) in cases {
        assert_eq!(contains(hay, needle), hay.contains(needle), "{:?} in {:?}", needle, hay);
    }
}

#[test]
fn search_is_case_sensitive() {
    assert!(search("DUCT", "safe, fast, productive.").is_empty());
    assert_eq!(search("a", "a\nb\nba"), vec!["a", "ba"]);
}

#[test]
fn config_needs_three_arguments() {
    let two = vec![String::from("prog"), String::from("needle")];
    assert_eq!(
        Config::new(&two, false).err(),
        Some("not enough arguments, should be at least 3")
    );
    let three = vec![String::from("prog"), String::from("needle"), String::from("poem.txt")];
    let config = Config::new(&three, true).ok().unwrap();
    assert_eq!(config.query, "needle");
    assert_eq!(config.file_name, "poem.txt");
    assert!(config.case_insensitive);
}

#[test]
fn run_reports_matches_or_their_absence() {
    let mut config = Config {
        query: String::from("To"),
        file_name: String::from("poem.txt"),
        case_insensitive: false,
    };
    let poem = "I'm nobody! Who are you?\nAre you nobody, too?\nTo tell your name";
    assert_eq!(run(&config, poem), vec![String::from("To tell your name")]);
    config.case_insensitive = true;
    assert_eq!(
        run(&config, poem),
        vec![String::from("Are you nobody, too?"), String::from("To tell your name")]
    );
    config.query = String::from("zebra");
    assert_eq!(run(&config, poem), vec![String::from("No text matched for the string zebra")]);
}

#[test]
fn select_goes_by_the_keys() {
    let lines = vec!["One", "Two", "Three"];
    let keys = vec![String::from("xa"), String::from("b"), String::from("ax")];
    assert_eq!(select(&lines, &keys, "a"), vec!["One", "Three"]);
    assert_eq!(select(&lines, &keys, "b"), vec!["Two"]);
    assert!(select(&lines, &keys, "T").is_empty());
    assert_eq!(select(&lines, &keys, ""), lines);
    let short = vec![String::from("xa")];
    assert!(select(&lines, &short, "a").is_empty());
}

#[test]
fn search_insensitive_keeps_the_lines_as_they_stand() {
    assert_eq!(search_insensitive("RUST", "Rust:\nTrust me.\nno"), vec!["Rust:", "Trust me."]);
    assert!(search_insensitive("x", "").is_empty());
}
