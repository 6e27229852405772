use image_rs::fonts::{font_files, font_name_of, load_fonts, sort_names, AbGlyphFontProvider};
use image_rs::error::DomainError;

fn names(v: &[&str]) -> Vec<String> {
    v.iter().map(|s| s.to_string()).collect()
}

#[test]
fn font_files_are_filtered_and_sorted() {
    let entries = names(&["b.ttf", "readme.txt", "A.OTF", "a.ttf", ".ttf"]);
    assert_eq!(font_files(&entries), names(&["A.OTF", "a.ttf", "b.ttf"]));
}

#[test]
fn names_sort_by_character() {
    assert_eq!(sort_names(&names(&["b", "ab", "a", "é", "Z"])), names(&["Z", "a", "ab", "b", "é"]));
}

#[test]
fn fonts_are_named_by_stem() {
    assert_eq!(font_name_of("DejaVuSans.ttf"), "DejaVuSans");
    assert_eq!(font_name_of("x.y.otf"), "x.y");
    assert_eq!(font_name_of(".hidden"), ".hidden");
    assert_eq!(font_name_of(""), "font");
}

#[test]
fn empty_registry_has_no_default() {
    let p: AbGlyphFontProvider<u8> = AbGlyphFontProvider::empty();
    match p.default_font() {
        Err(DomainError::InvalidArgument(m)) => assert_eq!(m, "no fonts loaded"),
        _ => panic!("expected invalid argument"),
    }
    match p.font("any") {
        Err(DomainError::InvalidArgument(m)) => assert_eq!(m, "font not found: any"),
        _ => panic!("expected invalid argument"),
    }
}

#[test]
fn registry_keeps_first_as_default_and_last_per_name() {
    let files = vec![
        ("a.otf".to_string(), Some(1u8)),
        ("bad.ttf".to_string(), None),
        ("a.ttf".to_string(), Some(2u8)),
        ("b.ttf".to_string(), Some(3u8)),
    ];
    let p = AbGlyphFontProvider::from_parsed(files);
    assert_eq!(*p.default_font().unwrap(), 2);
    assert_eq!(*p.font("a").unwrap(), 2);
    assert_eq!(*p.font("b").unwrap(), 3);
    assert!(p.font("bad").is_err());
}

#[test]
fn unreadable_font_data_is_skipped() {
    let p = load_fonts(vec![("broken.ttf".to_string(), vec![0, 1, 2, 3])]);
    assert!(p.font("broken").is_err());
    assert!(p.default_font().is_err());
}

#[test]
fn missing_font_falls_back_to_default() {
    let files = vec![("a.ttf".to_string(), Some(1u8)), ("b.ttf".to_string(), Some(2u8))];
    let p = AbGlyphFontProvider::from_parsed(files);
    assert_eq!(*p.font_or_default("b").unwrap(), 2);
    assert_eq!(*p.font_or_default("nope").unwrap(), 1);
    let empty: AbGlyphFontProvider<u8> = AbGlyphFontProvider::empty();
    match empty.font_or_default("nope") {
        Err(DomainError::InvalidArgument(m)) => assert_eq!(m, "no fonts loaded"),
        _ => panic!("expected invalid argument"),
    }
}
