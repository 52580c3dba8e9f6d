use minigrep::lines::lines;
use minigrep::matching::{contains_chars, line_contains};
use minigrep::text::{chars_of, split_after};
use minigrep::{search, search_case_insensitive};

#[test]
fn case_sensitive() {
    let query = "duct";
    let content = "\
Rust:
sécurité, rapidité, productivité.
Obtenez les trois en même temps.
Duct tape";
    assert_eq!(
        vec!["sécurité, rapidité, productivité."],
        search(query, content)
    );
}

#[test]
fn case_insensitive() {
    let query = "rUsT";
    let content = "\
Rust:
sécurité, rapidité, productivité.
Obtenez les trois en même temps.
C'est pas rustique!";
    assert_eq!(
        vec!["Rust:", "C'est pas rustique!"],
        search_case_insensitive(query, content)
    );
}

#[test]
fn exact_search_keeps_matching_lines_only() {
    let content = "alpha\nbeta\nalphabet\ngamma";
    let found = search("alpha", content);
    assert_eq!(found, vec!["alpha", "alphabet"]);
    for line in content.lines() {
        assert_eq!(found.contains(&line), line.contains("alpha"));
    }
}

#[test]
fn folded_search_covers_exact_search() {
    let content = "Tape\ntape\nDUCT TAPE\nnothing";
    let exact = search("tape", content);
    let folded = search_case_insensitive("tape", content);
    assert_eq!(exact, vec!["tape"]);
    assert_eq!(folded, vec!["Tape", "tape", "DUCT TAPE"]);
    for line in exact {
        assert!(folded.contains(&line));
    }
}

#[test]
fn folded_search_can_lose_an_exact_match_on_final_sigma() {
    let content = "ΑΣ";
    assert_eq!(search("Σ", content), vec!["ΑΣ"]);
    assert!(search_case_insensitive("Σ", content).is_empty());
}

#[test]
fn folded_search_uses_unicode_lowercase() {
    let content = "SÉCURITÉ\nsecurite\nSécurité";
    assert_eq!(
        search_case_insensitive("sécurité", content),
        vec!["SÉCURITÉ", "Sécurité"]
    );
    assert!(search("sécurité", content).is_empty());
}

#[test]
fn same_search_twice_gives_same_result() {
    let content = "one\ntwo\none two\nthree";
    assert_eq!(search("one", content), search("one", content));
    assert_eq!(
        search_case_insensitive("ONE", content),
        search_case_insensitive("ONE", content)
    );
}

#[test]
fn empty_query_returns_every_line() {
    let content = "first\n\nthird\r\nfourth";
    let all = vec!["first", "", "third", "fourth"];
    assert_eq!(search("", content), all);
    assert_eq!(search_case_insensitive("", content), all);
}

#[test]
fn empty_content_returns_nothing() {
    assert!(search("a", "").is_empty());
    assert!(search("", "").is_empty());
    assert!(search_case_insensitive("a", "").is_empty());
    assert!(search_case_insensitive("", "").is_empty());
}

#[test]
fn query_longer_than_every_line_returns_nothing() {
    let content = "ab\ncd\nef";
    assert!(search("abcd", content).is_empty());
    assert!(search_case_insensitive("ABCD", content).is_empty());
}

#[test]
fn results_keep_order_and_repeats() {
    let content = "b x\na x\nb x\nc\na x";
    assert_eq!(search("x", content), vec!["b x", "a x", "b x", "a x"]);
    assert_eq!(
        search_case_insensitive("X", content),
        vec!["b x", "a x", "b x", "a x"]
    );
}

#[test]
fn query_does_not_match_across_lines() {
    assert!(search("a\nb", "a\nb").is_empty());
    assert!(search("ab", "a\nb").is_empty());
}

#[test]
fn results_are_slices_of_the_content() {
    let content = String::from("skip\nkeep this\nskip");
    let found = search("keep", &content);
    assert_eq!(found.len(), 1);
    let offset = found[0].as_ptr() as usize - content.as_ptr() as usize;
    assert_eq!(offset, 5);
    assert_eq!(&content[offset..offset + found[0].len()], "keep this");
}

#[test]
fn lines_split_at_line_feeds() {
    assert_eq!(lines("a\nb\nc"), vec!["a", "b", "c"]);
    assert_eq!(lines("a\nb\nc\n"), vec!["a", "b", "c"]);
    assert_eq!(lines("\n"), vec![""]);
    assert_eq!(lines("\n\n"), vec!["", ""]);
    assert_eq!(lines("a\n\nb"), vec!["a", "", "b"]);
    assert!(lines("").is_empty());
    assert_eq!(lines("no line ending"), vec!["no line ending"]);
}

#[test]
fn lines_take_carriage_return_with_line_feed() {
    assert_eq!(lines("a\r\nb\r\n"), vec!["a", "b"]);
    assert_eq!(lines("a\rb\nc"), vec!["a\rb", "c"]);
    assert_eq!(lines("a\r\r\nb"), vec!["a\r", "b"]);
    assert_eq!(lines("\r\n"), vec![""]);
    assert_eq!(lines("a\r"), vec!["a\r"]);
}

#[test]
fn lines_agree_with_the_standard_library() {
    let samples = [
        "",
        "\n",
        "\r",
        "\r\n",
        "a",
        "a\n",
        "a\r\n",
        "a\r",
        "a\n\rb",
        "é\nü\r\n\nß",
        "one\ntwo\r\nthree\n\n",
        "\n\r\n\r\r\n",
    ];
    for sample in samples {
        let expected: Vec<&str> = sample.lines().collect();
        assert_eq!(lines(sample), expected);
    }
}

#[test]
fn lines_count_characters_not_bytes() {
    assert_eq!(lines("é\r\nüü\nß"), vec!["é", "üü", "ß"]);
}

#[test]
fn line_contains_is_exact() {
    assert!(line_contains("Duct tape", "tape"));
    assert!(line_contains("Duct tape", "Duct tape"));
    assert!(line_contains("Duct tape", ""));
    assert!(line_contains("", ""));
    assert!(!line_contains("Duct tape", "duct"));
    assert!(!line_contains("Duct tape", "Duct tape!"));
    assert!(!line_contains("", "a"));
    assert!(line_contains("productivité.", "té."));
    assert!(!line_contains("productivite.", "té."));
    assert!(line_contains("aab", "ab"));
}

#[test]
fn contains_chars_tries_every_position() {
    let hay: Vec<char> = "aaab".chars().collect();
    let found: Vec<char> = "aab".chars().collect();
    let missing: Vec<char> = "aba".chars().collect();
    let empty: Vec<char> = Vec::new();
    assert!(contains_chars(&hay, &found));
    assert!(!contains_chars(&hay, &missing));
    assert!(contains_chars(&hay, &empty));
    assert!(contains_chars(&hay, &hay));
    assert!(!contains_chars(&empty, &hay));
}

#[test]
fn chars_of_gives_the_characters() {
    assert_eq!(chars_of("même"), vec!['m', 'ê', 'm', 'e']);
    assert!(chars_of("").is_empty());
}

#[test]
fn split_after_counts_characters() {
    assert_eq!(split_after("héllo", 2), ("hé", "llo"));
    assert_eq!(split_after("héllo", 0), ("", "héllo"));
    assert_eq!(split_after("héllo", 5), ("héllo", ""));
    assert_eq!(split_after("", 0), ("", ""));
}

#[test]
fn folded_search_can_find_a_query_longer_than_the_line() {
    let query = "i\u{307}";
    let content = "\u{130}";
    assert_eq!(query.chars().count(), 2);
    assert_eq!(content.chars().count(), 1);
    assert_eq!(search_case_insensitive(query, content), vec!["\u{130}"]);
    assert!(search(query, content).is_empty());
}

#[test]
fn searching_the_result_again_changes_nothing() {
    let content = "Tape\ntape\nDUCT TAPE\nnothing\nred tape";
    let exact = search("tape", content);
    let folded = search_case_insensitive("tape", content);
    assert_eq!(search("tape", &exact.join("\n")), exact);
    assert_eq!(search_case_insensitive("tape", &folded.join("\n")), folded);
    assert_eq!(search("tape", &folded.join("\n")), exact);
}

#[test]
fn no_line_holds_a_line_feed() {
    for line in lines("a\nb\r\n\nc\n") {
        assert!(!line.contains('\n'));
    }
}
