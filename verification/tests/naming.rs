use cwt::naming::{branch_name, compose_id, generate_id, merge_message, slug_from_lowered, slugify};

#[test]
fn slug_of_a_sentence() {
    assert_eq!(slugify("Fix the Bug!! in parser"), "fix-the-bug-in-parser");
}

#[test]
fn slug_is_lowercase() {
    assert_eq!(slugify("ADD Tests"), "add-tests");
}

#[test]
fn slug_of_nothing_is_empty() {
    assert_eq!(slugify(""), "");
}

#[test]
fn slug_of_separators_only_is_empty() {
    assert_eq!(slugify("  !!  ??  "), "");
}

#[test]
fn slug_has_no_separator_at_either_end() {
    assert_eq!(slugify("--hello, world--"), "hello-world");
}

#[test]
fn slug_collapses_runs_of_separators() {
    assert_eq!(slugify("a   b___c"), "a-b-c");
}

#[test]
fn slug_keeps_digits() {
    assert_eq!(slugify("Issue #42: crash"), "issue-42-crash");
}

#[test]
fn slug_is_cut_to_thirty_characters() {
    let slug = slugify("abcdefghijklmnopqrstuvwxyz0123456789");
    assert_eq!(slug, "abcdefghijklmnopqrstuvwxyz0123");
    assert_eq!(slug.chars().count(), 30);
}

#[test]
fn slug_of_exactly_thirty_characters_is_whole() {
    assert_eq!(slugify("abcdefghijklmnopqrstuvwxyz0123"), "abcdefghijklmnopqrstuvwxyz0123");
}

#[test]
fn slug_cut_behind_a_separator_ends_in_it() {
    // 29 letters, a space, and more: the thirtieth character is the separator
    let slug = slugify("abcdefghijklmnopqrstuvwxyzabc def");
    assert_eq!(slug, "abcdefghijklmnopqrstuvwxyzabc-");
}

#[test]
fn slug_counts_characters_not_bytes() {
    let task = "ééééééééééééééééééééééééééééééééééé";
    let slug = slugify(task);
    assert_eq!(slug.chars().count(), 30);
    assert!(slug.chars().all(|c| c == 'é'));
}

#[test]
fn slug_lowers_letters_outside_ascii() {
    assert_eq!(slugify("ÄRGER mit Ümlauten"), "ärger-mit-ümlauten");
}

#[test]
fn slug_of_any_text_has_the_shape() {
    let tasks = [
        "Fix the Bug!! in parser",
        "   leading and trailing   ",
        "UPPER lower 123",
        "a-b--c---d",
        "日本語 の タスク",
        "x",
        "!",
        "one two three four five six seven eight nine ten",
    ];
    for task in tasks {
        let slug = slugify(task);
        assert!(slug.chars().count() <= 30);
        assert!(slug.chars().all(|c| c == '-' || c.is_alphanumeric()));
        assert!(!slug.starts_with('-'));
        assert!(!slug.contains("--"));
        assert!(slug.chars().all(|c| !c.is_uppercase()));
    }
}

#[test]
fn slug_from_lowered_leaves_case_alone() {
    assert_eq!(slug_from_lowered("Already Lowered?"), "Already-Lowered");
}

#[test]
fn id_is_made_of_prefix_date_and_suffix() {
    let sample = vec![b'a', b'B', b'3', b'Z'];
    assert_eq!(compose_id("20240131", &sample), "cwt-20240131-ab3z");
}

#[test]
fn id_with_no_suffix() {
    assert_eq!(compose_id("20240131", &Vec::new()), "cwt-20240131-");
}

#[test]
fn generated_id_has_the_format() {
    let id = generate_id();
    let parts: Vec<&str> = id.split('-').collect();
    assert_eq!(parts.len(), 3);
    assert_eq!(parts[0], "cwt");
    assert_eq!(parts[1].len(), 8);
    assert!(parts[1].chars().all(|c| c.is_ascii_digit()));
    assert_eq!(parts[2].len(), 4);
    assert!(parts[2].chars().all(|c| c.is_ascii_lowercase() || c.is_ascii_digit()));
}

#[test]
fn generated_ids_have_the_format_every_time() {
    for _ in 0..200 {
        let id = generate_id();
        assert!(id.starts_with("cwt-"));
        let suffix = &id[id.len() - 4..];
        assert!(suffix.chars().all(|c| c.is_ascii_lowercase() || c.is_ascii_digit()));
        assert_eq!(id.as_bytes()[id.len() - 5], b'-');
    }
}

#[test]
fn branch_name_holds_id_and_slug() {
    assert_eq!(
        branch_name("cwt-20240131-ab3z", "Fix the Bug!! in parser"),
        "cwt/cwt-20240131-ab3z/fix-the-bug-in-parser"
    );
}

#[test]
fn branch_name_of_an_empty_task() {
    assert_eq!(branch_name("cwt-20240131-ab3z", ""), "cwt/cwt-20240131-ab3z/");
}

#[test]
fn merge_message_names_agent_and_task() {
    assert_eq!(
        merge_message("cwt-20240131-ab3z", "Fix the parser"),
        "Merge cwt-20240131-ab3z: Fix the parser"
    );
}
