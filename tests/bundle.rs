use ctranslate2_src_build_support::artifacts::{link_dynamic_libraries, link_libraries, FileEntry};
use ctranslate2_src_build_support::export::export;
use ctranslate2_src_build_support::Os;

#[test]
fn export_plan_members() {
    let es = vec![
        FileEntry { dir: "/b/lib".to_string(), name: "libfoo.a".to_string() },
        FileEntry { dir: "/b/lib/sub".to_string(), name: "libbar.so".to_string() },
    ];
    let statics = link_libraries(&es, Os::Linux).artifacts;
    let dynamics = link_dynamic_libraries(&es, Os::Linux).artifacts;
    let plan = export("/b/lib", &statics, &dynamics);
    assert_eq!(plan.archive_name, "vendored.tar.gz");
    assert_eq!(plan.headers_source, format!("/b/lib/../{}", plan.headers_member));
    assert_eq!(plan.headers_member.len(), 7);
    let members: Vec<(String, String)> = plan.members.iter().map(|m| (m.name.clone(), m.source.clone())).collect();
    assert_eq!(
        members,
        vec![
            ("lib/libfoo.a".to_string(), "/b/lib/libfoo.a".to_string()),
            ("dyn/libbar.so".to_string(), "/b/lib/sub/libbar.so".to_string()),
        ]
    );
}

#[test]
fn export_of_nothing() {
    let plan = export("lib", &Vec::new(), &Vec::new());
    assert!(plan.members.is_empty());
}
