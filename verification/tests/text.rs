use barchart::text::{chars_of, display_title, text_precedes};

#[test]
fn chars_of_lists_the_characters() {
    assert_eq!(chars_of(""), Vec::<char>::new());
    assert_eq!(chars_of("a\u{e9}z"), vec!['a', '\u{e9}', 'z']);
}

#[test]
fn text_precedes_orders_by_the_first_difference() {
    assert!(text_precedes("apple", "apply"));
    assert!(!text_precedes("apply", "apple"));
    assert!(text_precedes("A", "a"));
    assert!(!text_precedes("b", "a"));
}

#[test]
fn text_precedes_puts_a_prefix_first() {
    assert!(text_precedes("", ""));
    assert!(text_precedes("", "a"));
    assert!(!text_precedes("a", ""));
    assert!(text_precedes("car", "carpet"));
    assert!(!text_precedes("carpet", "car"));
}

#[test]
fn text_precedes_holds_of_equal_texts() {
    assert!(text_precedes("same", "same"));
}

#[test]
fn text_precedes_agrees_with_the_order_of_strings() {
    let words = ["", "a", "ab", "b", "Z", "\u{e9}", "z\u{e9}", "10", "9"];
    for x in words {
        for y in words {
            assert_eq!(text_precedes(x, y), x <= y);
        }
    }
}

#[test]
fn display_title_removes_database_extensions() {
    assert_eq!(display_title("fruit.sqlite"), "fruit");
    assert_eq!(display_title("fruit.sqlite3"), "fruit");
    assert_eq!(display_title("fruit.db"), "fruit");
}

#[test]
fn display_title_removes_repeated_and_stacked_extensions() {
    assert_eq!(display_title("fruit.db.db"), "fruit");
    assert_eq!(display_title("fruit.sqlite.db"), "fruit.sqlite");
    assert_eq!(display_title("fruit.db.sqlite3"), "fruit");
    assert_eq!(display_title("fruit.db.sqlite"), "fruit");
}

#[test]
fn display_title_keeps_other_titles() {
    assert_eq!(display_title(""), "");
    assert_eq!(display_title("Fruit sales"), "Fruit sales");
    assert_eq!(display_title("notes.txt"), "notes.txt");
    assert_eq!(display_title(".db"), "");
    assert_eq!(display_title("db"), "db");
}

fn trimmed(title: &str) -> &str {
    let mut title = title;
    if title.ends_with(".sqlite") {
        title = title.trim_end_matches(".sqlite")
    }
    if title.ends_with(".sqlite3") {
        title = title.trim_end_matches(".sqlite3")
    }
    if title.ends_with(".db") {
        title = title.trim_end_matches(".db")
    }
    title
}

#[test]
fn display_title_agrees_with_trimming_the_extensions_in_turn() {
    let titles = [
        "",
        "a",
        "a.db",
        "a.sqlite",
        "a.sqlite3",
        "a.db.sqlite.sqlite3",
        "a.sqlite3.sqlite.db",
        "a.sqlite.sqlite.sqlite",
        ".sqlite",
        ".sqlite3.db",
        "sqlite",
        "a.DB",
        "a.db ",
        "caf\u{e9}.db",
        "\u{e9}.sqlite3.sqlite3",
        "x.dbx.db.db.db",
    ];
    for title in titles {
        assert_eq!(display_title(title), trimmed(title), "{:?}", title);
    }
}
