use papers::author_name_string::AuthorNameString;

#[test]
fn has_short_name_parts_detects_initials() {
    assert!(AuthorNameString::has_short_name_parts("Ck Clarke"));
    assert!(AuthorNameString::has_short_name_parts("C K Clarke"));
    assert!(AuthorNameString::has_short_name_parts("C.K. Clarke"));
    assert!(AuthorNameString::has_short_name_parts("J Smith"));
    assert!(AuthorNameString::has_short_name_parts("H.M. Manske"));
}

#[test]
fn has_short_name_parts_false_for_full_names() {
    assert!(!AuthorNameString::has_short_name_parts("Jenny Clarke"));
    assert!(!AuthorNameString::has_short_name_parts("John Smith"));
    assert!(!AuthorNameString::has_short_name_parts("Heinrich Magnus Manske"));
}

#[test]
fn format_name_for_initial_search_basic() {
    assert_eq!(AuthorNameString::format_name_for_initial_search("Ck Clarke"), "C.K.Clarke");
    assert_eq!(AuthorNameString::format_name_for_initial_search("C K Clarke"), "C.K.Clarke");
}

#[test]
fn format_name_for_initial_search_dotted() {
    assert_eq!(AuthorNameString::format_name_for_initial_search("C.K. Clarke"), "C.K.Clarke");
    assert_eq!(AuthorNameString::format_name_for_initial_search("H.M. Manske"), "H.M.Manske");
}

#[test]
fn format_name_for_initial_search_single_initial() {
    assert_eq!(AuthorNameString::format_name_for_initial_search("J Smith"), "J.Smith");
}

#[test]
fn format_name_for_initial_search_full_name() {
    assert_eq!(AuthorNameString::format_name_for_initial_search("Jenny Clarke"), "JennyClarke");
}

#[test]
fn short_parts_are_counted_in_characters() {
    assert!(AuthorNameString::has_short_name_parts("Éa Clarke"));
    assert!(!AuthorNameString::has_short_name_parts("Éva Clarke"));
}

#[test]
fn the_search_for_initials_counts_bytes() {
    assert_eq!(AuthorNameString::format_name_for_initial_search("Éa Clarke"), "ÉaClarke");
    assert_eq!(AuthorNameString::format_name_for_initial_search("É Clarke"), "É.Clarke");
    assert_eq!(AuthorNameString::format_name_for_initial_search("é. clarke"), "É.clarke");
}
