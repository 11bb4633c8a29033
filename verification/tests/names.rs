use case::CaseExt;
use savon::gen::out_file_stem;
use savon::names::{to_camel, to_snake};

#[test]
fn snake_exact_values() {
    assert_eq!(to_snake("GetCountries"), "get_countries");
    assert_eq!(to_snake("martinLutherStringJr"), "martin_luther_string_jr");
    assert_eq!(to_snake("fooby"), "fooby");
    assert_eq!(to_snake("WildUnderscoreS"), "wild_underscore_s");
    assert_eq!(to_snake("ABC"), "a_b_c");
    assert_eq!(to_snake(""), "");
}

#[test]
fn camel_exact_values() {
    assert_eq!(to_camel("a_string_and_a_miss"), "AStringAndAMiss");
    assert_eq!(to_camel("fooby"), "Fooby");
    assert_eq!(to_camel("_wild__underscore_s_"), "WildUnderscoreS");
    assert_eq!(to_camel("get_countries"), "GetCountries");
    assert_eq!(to_camel(""), "");
}

#[test]
fn mangling_matches_collaborator() {
    let samples = [
        "GetCountries",
        "get_countries",
        "alreadyCamelCase",
        "ABC",
        "wsdl2rust",
        "foo_bar_baz",
        "_leading",
        "trailing_",
        "a_1",
        "XMLHttpRequest",
    ];
    for s in samples {
        assert_eq!(to_snake(s), s.to_snake());
        assert_eq!(to_camel(s), s.to_camel());
    }
}

#[test]
fn snake_of_camel_is_snake() {
    let samples = ["GetCountries", "get_countries", "fooBar", "ABC", "a1b2", "part_name"];
    for s in samples {
        assert_eq!(to_snake(&to_camel(s)), to_snake(s));
    }
}

#[test]
fn file_stem_snake() {
    assert_eq!(out_file_stem("MyService.wsdl"), "my_service");
    assert_eq!(out_file_stem("example.tar.wsdl"), "example.tar");
    assert_eq!(out_file_stem("noext"), "noext");
}
