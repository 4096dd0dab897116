use ctranslate2_src_build_support::submodules::{
    checkout_args, clone_args, decode_modules_file, get_submodules, gitmodules_url,
    module_pairs, must_wait_for_clone, ref_url, submodules_marker, tree_url, trim_chars,
    SubmoduleRecord, TreeEntry,
};
use ctranslate2_src_build_support::BuildError;

const TEXT: &str = "[submodule \"third_party/spdlog\"]\n\tpath = third_party/spdlog\n\turl = https://github.com/gabime/spdlog.git\n[submodule \"third_party/ruy\"]\n\tpath = third_party/ruy\n\turl = https://github.com/google/ruy.git\n";

fn content() -> String {
    format!(
        "{}\n{}\n",
        "W3N1Ym1vZHVsZSAidGhpcmRfcGFydHkvc3BkbG9nIl0KCXBhdGggPSB0aGly",
        "ZF9wYXJ0eS9zcGRsb2cKCXVybCA9IGh0dHBzOi8vZ2l0aHViLmNvbS9nYWJpbWUvc3BkbG9nLmdpdApbc3VibW9kdWxlICJ0aGlyZF9wYXJ0eS9ydXkiXQoJcGF0aCA9IHRoaXJkX3BhcnR5L3J1eQoJdXJsID0gaHR0cHM6Ly9naXRodWIuY29tL2dvb2dsZS9ydXkuZ2l0Cg=="
    )
}

fn entry(path: &str, mode: &str, sha: &str) -> TreeEntry {
    TreeEntry { path: path.to_string(), mode: mode.to_string(), sha: sha.to_string() }
}

#[test]
fn decodes_api_content() {
    assert_eq!(decode_modules_file(&content()), Ok(TEXT.to_string()));
    assert_eq!(decode_modules_file("!!!!"), Err(BuildError::SubmoduleResolutionError));
    assert_eq!(decode_modules_file("//4="), Err(BuildError::SubmoduleResolutionError));
}

#[test]
fn pairs_of_modules_file() {
    let pairs = module_pairs(TEXT);
    assert_eq!(
        pairs,
        vec![
            ("third_party/spdlog".to_string(), "https://github.com/gabime/spdlog.git".to_string()),
            ("third_party/ruy".to_string(), "https://github.com/google/ruy.git".to_string()),
        ]
    );
    let odd = module_pairs("url = https://orphan\n[submodule \"x\"]\n  path = a  \r\n url = u1\nurl = u2\n");
    assert_eq!(
        odd,
        vec![
            (String::new(), "https://orphan".to_string()),
            ("a".to_string(), "u1".to_string()),
            ("a".to_string(), "u2".to_string()),
        ]
    );
}

#[test]
fn gitlinks_joined_with_urls() {
    let tree = vec![
        entry("README.md", "100644", "aaa"),
        entry("third_party/ruy", "160000", "r1"),
        entry("third_party", "040000", "t1"),
        entry("third_party/spdlog", "160000", "s1"),
        entry("third_party/unknown", "160000", "u1"),
    ];
    let text = decode_modules_file(&content()).unwrap();
    let records = get_submodules(&tree, &text);
    let rec = |p: &str, s: &str, u: &str| SubmoduleRecord { path: p.to_string(), sha: s.to_string(), url: u.to_string() };
    assert_eq!(
        records,
        vec![
            rec("third_party/ruy", "r1", "https://github.com/google/ruy.git"),
            rec("third_party/spdlog", "s1", "https://github.com/gabime/spdlog.git"),
            rec("third_party/unknown", "u1", ""),
        ]
    );
    let last_wins = get_submodules(&vec![entry("a", "160000", "x")], "path = a\nurl = u1\nurl = u2\n");
    assert_eq!(last_wins[0].url, "u2");
}

#[test]
fn api_queries() {
    assert_eq!(ref_url("OpenNMT", "CTranslate2", "v4.6.0"), "https://api.github.com/repos/OpenNMT/CTranslate2/git/ref/tags/v4.6.0");
    assert_eq!(tree_url("OpenNMT", "CTranslate2", "abc"), "https://api.github.com/repos/OpenNMT/CTranslate2/git/trees/abc?recursive=1");
    assert_eq!(gitmodules_url("OpenNMT", "CTranslate2", "v4.6.0"), "https://api.github.com/repos/OpenNMT/CTranslate2/contents/.gitmodules?ref=v4.6.0");
}

#[test]
fn materializing_commands() {
    let r = SubmoduleRecord { path: "third_party/ruy".to_string(), sha: "r1".to_string(), url: "https://g/ruy.git".to_string() };
    assert_eq!(clone_args(&r, "CTranslate2-4.6.0"), vec!["clone", "--no-checkout", "https://g/ruy.git", "CTranslate2-4.6.0/third_party/ruy"]);
    assert_eq!(checkout_args(&r), vec!["checkout", "r1"]);
    assert_eq!(submodules_marker("CTranslate2-4.6.0"), "CTranslate2-4.6.0/submodules_downloaded");
    assert!(must_wait_for_clone(false, 5));
    assert!(must_wait_for_clone(true, 1));
    assert!(!must_wait_for_clone(true, 2));
}

#[test]
fn trimming_white_space() {
    let t: Vec<char> = " \t a b \u{3000}\r".chars().collect();
    assert_eq!(trim_chars(&t).into_iter().collect::<String>(), "a b");
    assert!(trim_chars(&"   ".chars().collect()).is_empty());
}
