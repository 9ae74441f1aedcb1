use papers::scientific_publication_adapter::WorkType;

#[test]
fn work_type_as_q_is_distinct_for_every_variant() {
    let all = [
        WorkType::JournalArticle,
        WorkType::Book,
        WorkType::Monograph,
        WorkType::BookChapter,
        WorkType::ConferencePaper,
        WorkType::Proceedings,
        WorkType::Dissertation,
        WorkType::Preprint,
        WorkType::Dataset,
        WorkType::Report,
        WorkType::Standard,
        WorkType::Software,
        WorkType::PeerReview,
    ];
    let qs: Vec<&'static str> = all.iter().map(|w| w.as_q()).collect();
    let mut unique = qs.clone();
    unique.sort();
    unique.dedup();
    assert_eq!(qs.len(), unique.len(), "duplicate Q-ID across WorkType variants: {qs:?}");
    for q in &qs {
        assert!(q.starts_with('Q') && q[1..].chars().all(|c| c.is_ascii_digit()), "bad Q: {q}");
    }
}

#[test]
fn work_type_from_crossref_known_inputs() {
    assert_eq!(WorkType::from_crossref("journal-article"), Some(WorkType::JournalArticle));
    assert_eq!(WorkType::from_crossref("book"), Some(WorkType::Book));
    assert_eq!(WorkType::from_crossref("edited-book"), Some(WorkType::Book));
    assert_eq!(WorkType::from_crossref("reference-book"), Some(WorkType::Book));
    assert_eq!(WorkType::from_crossref("posted-content"), Some(WorkType::Preprint));
    assert_eq!(WorkType::from_crossref("report-series"), Some(WorkType::Report));
    assert_eq!(WorkType::from_crossref("peer-review"), Some(WorkType::PeerReview));
}

#[test]
fn work_type_from_crossref_unknown_returns_none() {
    assert_eq!(WorkType::from_crossref(""), None);
    assert_eq!(WorkType::from_crossref("unknown-type"), None);
    assert_eq!(WorkType::from_crossref("Journal-Article"), None);
}

#[test]
fn work_type_from_datacite_known_inputs() {
    assert_eq!(WorkType::from_datacite("JournalArticle"), Some(WorkType::JournalArticle));
    assert_eq!(WorkType::from_datacite("Journal Article"), Some(WorkType::JournalArticle));
    assert_eq!(WorkType::from_datacite("ConferenceProceeding"), Some(WorkType::Proceedings));
    assert_eq!(WorkType::from_datacite("Software"), Some(WorkType::Software));
    assert_eq!(WorkType::from_datacite("Preprint"), Some(WorkType::Preprint));
}

#[test]
fn work_type_from_datacite_unknown_returns_none() {
    assert_eq!(WorkType::from_datacite(""), None);
    assert_eq!(WorkType::from_datacite("nope"), None);
    assert_eq!(WorkType::from_datacite("journalarticle"), None);
}

#[test]
fn work_type_crossref_and_datacite_agree_on_overlap() {
    let pairs = [
        ("journal-article", "JournalArticle"),
        ("book", "Book"),
        ("book-chapter", "BookChapter"),
        ("proceedings-article", "ConferencePaper"),
        ("proceedings", "ConferenceProceeding"),
        ("dissertation", "Dissertation"),
        ("posted-content", "Preprint"),
        ("dataset", "Dataset"),
        ("report", "Report"),
        ("standard", "Standard"),
    ];
    for (crossref, datacite) in pairs {
        assert_eq!(
            WorkType::from_crossref(crossref),
            WorkType::from_datacite(datacite),
            "{crossref} (crossref) vs {datacite} (datacite) disagree"
        );
    }
}
