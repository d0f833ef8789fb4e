use llm_fuzz_sanitize::feature::{evolve_corpus, CorporaFeatures, CorpusEntry, GlobalFeature};
use llm_fuzz_sanitize::workdir::{extension, join_path, with_extension, WorkDir};

fn entry(file: &str, features: &[u32]) -> CorpusEntry {
    CorpusEntry { file: file.to_string(), features: features.to_vec() }
}

fn global_of(fs: &[u32]) -> GlobalFeature {
    GlobalFeature::from_features(&fs.to_vec())
}

#[test]
fn test_corpus_evoluation() {
    let work = WorkDir::new("output/cJSON/work/61".to_string());
    let corpus = work.corpus_dir();
    assert_eq!(corpus, "output/cJSON/work/61/corpus");
    assert_eq!(work.merge_control_file(), "output/cJSON/work/61/merge_control_file");
    let mut global = global_of(&[1, 2, 3]);
    let merge = CorporaFeatures {
        entries: vec![
            entry(&join_path(&corpus, "a"), &[1, 2]),
            entry(&join_path(&corpus, "b"), &[2, 4, 4]),
            entry(&join_path(&corpus, "c"), &[4]),
            entry(&join_path(&corpus, "d"), &[5, 1]),
        ],
    };
    let admitted = evolve_corpus(&mut global, &merge);
    assert_eq!(admitted, vec!["output/cJSON/work/61/corpus/b".to_string(), "output/cJSON/work/61/corpus/d".to_string()]);
    assert_eq!(global.features(), vec![1, 2, 3, 4, 5]);
    assert_eq!(global.len(), 5);
}

#[test]
fn evolve_twice_admits_nothing_new() {
    let mut global = global_of(&[7]);
    let merge = CorporaFeatures { entries: vec![entry("x", &[7, 8]), entry("y", &[9])] };
    assert_eq!(evolve_corpus(&mut global, &merge).len(), 2);
    let before = global.features();
    assert!(evolve_corpus(&mut global, &merge).is_empty());
    assert_eq!(global.features(), before);
}

#[test]
fn shared_novel_input_is_admitted_once() {
    let mut global = global_of(&[1, 2]);
    let first = CorporaFeatures { entries: vec![entry("1f3a", &[1, 10, 11]), entry("aa", &[2])] };
    let second = CorporaFeatures { entries: vec![entry("1f3a", &[1, 10, 11]), entry("bb", &[12, 2])] };
    let mut shared: Vec<String> = Vec::new();
    for name in evolve_corpus(&mut global, &first).into_iter().chain(evolve_corpus(&mut global, &second)) {
        if !shared.contains(&name) {
            shared.push(name);
        }
    }
    assert_eq!(shared.iter().filter(|n| *n == "1f3a").count(), 1);
    // distinct new features across both: 10, 11, 12
    assert_eq!(global.len(), 2 + 3);
}

#[test]
fn global_set_only_grows() {
    let mut global = GlobalFeature::new();
    assert!(global.insert_feature(3));
    assert!(!global.insert_feature(3));
    assert!(global.contains(3));
    assert!(!global.contains(4));
    let merge = CorporaFeatures { entries: vec![entry("e", &[])] };
    assert!(evolve_corpus(&mut global, &merge).is_empty());
    assert!(global.contains(3));
    assert_eq!(global.len(), 1);
}

#[test]
fn global_feature_json_round_trip() {
    let g = global_of(&[5, 3, 5, 9]);
    let bytes = g.encode();
    assert_eq!(bytes, b"[5,3,9]".to_vec());
    let back = GlobalFeature::decode(&bytes).unwrap();
    assert_eq!(back.features(), vec![5, 3, 9]);
    assert!(GlobalFeature::decode(b"{\"a\":1}").is_none());
    assert!(GlobalFeature::decode(b"[-1]").is_none());
    assert_eq!(GlobalFeature::decode(b"[]").unwrap().len(), 0);
    assert_eq!(GlobalFeature::new().encode(), b"[]".to_vec());
    assert_eq!(global_of(&[4294967295, 0, 10]).encode(), b"[4294967295,0,10]".to_vec());
}

#[test]
fn file_extensions() {
    assert_eq!(extension("a.tar.gz"), Some("gz".to_string()));
    assert_eq!(extension("seed.cov.out"), Some("out".to_string()));
    assert_eq!(extension(".profdata"), None);
    assert_eq!(extension("cost"), None);
    assert_eq!(extension("trail."), Some(String::new()));
    assert_eq!(extension(".."), None);
}

#[test]
fn binary_paths() {
    assert_eq!(with_extension("output/lib/work/3/3.cc", "out"), "output/lib/work/3/3.out");
    assert_eq!(with_extension("output/lib/work/3/3.cc", "cov.out"), "output/lib/work/3/3.cov.out");
    assert_eq!(with_extension("dir.d/seed", "evo.out"), "dir.d/seed.evo.out");
    assert_eq!(with_extension("dir/.seed", "out"), "dir/.seed.out");
    assert_eq!(join_path("a/", "b"), "a/b");
    assert_eq!(join_path("", "b"), "b");
}
