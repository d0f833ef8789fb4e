use llm_fuzz_sanitize::feature::{evolve_corpus, CorpusEntry, GlobalFeature};
use llm_fuzz_sanitize::merge::parse_control_file;

fn entries(text: &str) -> Option<Vec<(String, Vec<u32>)>> {
    parse_control_file(text).map(|c| c.entries.into_iter().map(|CorpusEntry { file, features }| (file, features)).collect())
}

#[test]
fn parses_feature_lines_in_order() {
    let text = "3\n3\nc/a\nc/b\nc/c\nSTARTED 0 10\nFT 0 1 2 3\nCOV 0 5\nSTARTED 1 4\nFT 1 4\nSTARTED 2 7\nFT 2\n";
    assert_eq!(
        entries(text),
        Some(vec![
            ("c/a".to_string(), vec![1, 2, 3]),
            ("c/b".to_string(), vec![4]),
            ("c/c".to_string(), vec![]),
        ])
    );
}

#[test]
fn parses_without_final_newline_and_repeated_inputs() {
    assert_eq!(entries("1\n1\nonly\nFT 0 9\nFT 0 8"), Some(vec![("only".to_string(), vec![9]), ("only".to_string(), vec![8])]));
    assert_eq!(entries("0\n0\n"), Some(vec![]));
}

#[test]
fn rejects_malformed_control_files() {
    assert_eq!(entries(""), None);
    assert_eq!(entries("x\n1\na\n"), None);
    assert_eq!(entries("1\n2\nf\n"), None);
    assert_eq!(entries("3\n3\na\n"), None);
    assert_eq!(entries("1\n1\na\nFT 5 1\n"), None);
    assert_eq!(entries("1\n1\na\nFT 0 x\n"), None);
    assert_eq!(entries("1\n1\na\nFT\n"), None);
    assert_eq!(entries("1\n1\na\nFT 0 4294967296\n"), None);
}

#[test]
fn parsed_merge_feeds_evolution() {
    let text = "2\n2\nw/corpus/x\nw/corpus/y\nSTARTED 0 1\nFT 0 7 8\nSTARTED 1 1\nFT 1 8\n";
    let corpora = parse_control_file(text).unwrap();
    let mut global = GlobalFeature::from_features(&vec![7]);
    assert_eq!(evolve_corpus(&mut global, &corpora), vec!["w/corpus/x".to_string()]);
    assert_eq!(global.len(), 2);
}
