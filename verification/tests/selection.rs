use keyword_rewrite::selection::should_convert;

#[test]
fn the_three_extensions_are_selected() {
    assert!(should_convert("src/a.cpp", Some("cpp")));
    assert!(should_convert("src/a.h", Some("h")));
    assert!(should_convert("src/a.inl", Some("inl")));
}

#[test]
fn other_extensions_are_not_selected() {
    assert!(!should_convert("src/a.c", Some("c")));
    assert!(!should_convert("src/a.hpp", Some("hpp")));
    assert!(!should_convert("src/a.CPP", Some("CPP")));
    assert!(!should_convert("src/a.cpp.bak", Some("bak")));
    assert!(!should_convert("src/a.", Some("")));
    assert!(!should_convert("src/a.cp", Some("cp")));
    assert!(!should_convert("src/a.cppp", Some("cppp")));
}

#[test]
fn file_without_extension_is_not_selected() {
    assert!(!should_convert("src/Makefile", None));
    assert!(!should_convert("", None));
}

#[test]
fn generated_parser_paths_are_not_selected() {
    assert!(!should_convert("vrml/Yacc/parser.cpp", Some("cpp")));
    assert!(!should_convert("vrml/Flex/lexer.h", Some("h")));
    assert!(!should_convert("src/MyYaccFile.cpp", Some("cpp")));
    assert!(!should_convert("Flex.inl", Some("inl")));
    assert!(!should_convert("a/lexFlex", Some("h")));
}

#[test]
fn exclusion_is_case_sensitive() {
    assert!(should_convert("vrml/yacc/parser.cpp", Some("cpp")));
    assert!(should_convert("vrml/FLEX/lexer.h", Some("h")));
    assert!(should_convert("Yac/Fle/x.cpp", Some("cpp")));
}

#[test]
fn path_shorter_than_the_excluded_words() {
    assert!(should_convert("a.h", Some("h")));
    assert!(should_convert("", Some("h")));
}
