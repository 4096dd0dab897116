use ctranslate2_src_build_support::crt_patch::{
    conditional_replace, patch_cmake_runtime_flags, patch_runtime_flags,
};

const CMAKE: &str = "if(MSVC)\nset(X /MD)\nelse()\n  set(CMAKE_CXX_FLAGS \"/MT /O2\")\nendif()\nset(CMAKE_MSVC_RUNTIME_LIBRARY \"MultiThreaded$<$<CONFIG:Debug>:Debug>\")\n";

#[test]
fn patch_to_dynamic_runtime() {
    let expected = "if(MSVC)\nset(X /MD)\nelse()\n  set(CMAKE_CXX_FLAGS \"/MD /O2\")\nendif()\nset(CMAKE_MSVC_RUNTIME_LIBRARY \"MultiThreaded$<$<CONFIG:Debug>:Debug>DLL\")\n";
    assert_eq!(patch_runtime_flags(CMAKE, true), expected);
    assert_eq!(patch_cmake_runtime_flags(CMAKE, true), Some(expected.to_string()));
}

#[test]
fn patch_twice_is_idempotent() {
    let shared_quote = "\"MultiThreaded$<$<CONFIG:Debug>:Debug>\"MultiThreaded$<$<CONFIG:Debug>:Debug>\"\n";
    for content in [CMAKE, "x\r", "else()\r\n/MT\r\n", shared_quote, "else()\nelse() /MD\n/MD"] {
        for use_md in [true, false] {
            let once = patch_runtime_flags(content, use_md);
            let twice = patch_runtime_flags(&once, use_md);
            assert_eq!(once, twice);
            assert_eq!(patch_cmake_runtime_flags(&once, use_md), None);
        }
    }
}

#[test]
fn patch_to_static_runtime() {
    let dynamic = patch_runtime_flags(CMAKE, true);
    let back = patch_runtime_flags(&dynamic, false);
    let expected = "if(MSVC)\nset(X /MD)\nelse()\n  set(CMAKE_CXX_FLAGS \"/MT /O2\")\nendif()\nset(CMAKE_MSVC_RUNTIME_LIBRARY \"MultiThreaded$<$<CONFIG:Debug>:Debug>\")\n";
    assert_eq!(back, expected);
    assert_eq!(patch_cmake_runtime_flags(CMAKE, false), None);
}

#[test]
fn only_lines_after_else_change() {
    assert_eq!(conditional_replace("a /MT\nelse()\nx /MD y /MD", false), "a /MT\nelse()\nx /MT y /MT");
    assert_eq!(conditional_replace("else()\n/MT /MD", true), "else()\n/MD /MD");
    assert_eq!(conditional_replace("else()\n/MT /MD", false), "else()\n/MT /MT");
    assert_eq!(conditional_replace("", false), "");
    assert_eq!(conditional_replace("else()\n\nx /MD", false), "else()\n\nx /MD");
}

#[test]
fn line_endings_are_kept() {
    assert_eq!(conditional_replace("a\r\nelse()\r\nb /MD\r\n", false), "a\r\nelse()\r\nb /MT\r\n");
    assert_eq!(patch_runtime_flags("x\r", true), "x\r");
    assert_eq!(patch_cmake_runtime_flags("a\r\nb\r\n", true), None);
    assert_eq!(patch_cmake_runtime_flags("no newline at end", false), None);
}

#[test]
fn shared_quote_is_replaced_once() {
    let s = "\"MultiThreaded$<$<CONFIG:Debug>:Debug>\"MultiThreaded$<$<CONFIG:Debug>:Debug>\"";
    assert_eq!(
        patch_runtime_flags(s, true),
        "\"MultiThreaded$<$<CONFIG:Debug>:Debug>DLL\"MultiThreaded$<$<CONFIG:Debug>:Debug>\""
    );
}
