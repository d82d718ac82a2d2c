use rawriser::scan::{
    candidates, eq_ignoring_ascii_case, extension_dot, file_extension, file_stem, is_candidate,
    is_supported_extension, output_file_name, to_ascii_lower,
};
use std::path::Path;

fn names(list: &[&str]) -> Vec<String> {
    list.iter().map(|n| n.to_string()).collect()
}

#[test]
fn lower_case_touches_ascii_capitals_only() {
    assert_eq!(to_ascii_lower('A'), 'a');
    assert_eq!(to_ascii_lower('Z'), 'z');
    assert_eq!(to_ascii_lower('m'), 'm');
    assert_eq!(to_ascii_lower('2'), '2');
    assert_eq!(to_ascii_lower('@'), '@');
    assert_eq!(to_ascii_lower('['), '[');
    assert_eq!(to_ascii_lower('É'), 'É');
}

#[test]
fn comparison_ignores_ascii_case() {
    assert!(eq_ignoring_ascii_case("ARW", "arw"));
    assert!(eq_ignoring_ascii_case("aRw", "arw"));
    assert!(eq_ignoring_ascii_case("", ""));
    assert!(!eq_ignoring_ascii_case("arw", "ARW"));
    assert!(!eq_ignoring_ascii_case("arw", "ar"));
    assert!(!eq_ignoring_ascii_case("ar", "arw"));
    assert!(!eq_ignoring_ascii_case("arx", "arw"));
}

#[test]
fn extension_follows_the_last_dot() {
    assert_eq!(file_extension("a.arw"), Some("arw"));
    assert_eq!(file_extension("archive.tar.gz"), Some("gz"));
    assert_eq!(file_extension("DSC_0001.NEF"), Some("NEF"));
    assert_eq!(file_extension("a."), Some(""));
    assert_eq!(file_extension("..a"), Some("a"));
    assert_eq!(extension_dot("archive.tar.gz"), Some(11));
}

#[test]
fn names_without_extension() {
    assert_eq!(file_extension("noext"), None);
    assert_eq!(file_extension(""), None);
    assert_eq!(file_extension(".hidden"), None);
    assert_eq!(file_extension(".arw"), None);
    assert_eq!(file_extension("."), None);
    assert_eq!(extension_dot(".arw"), None);
    assert_eq!(extension_dot("noext"), None);
}

#[test]
fn stem_is_the_name_without_extension() {
    assert_eq!(file_stem("a.arw"), "a");
    assert_eq!(file_stem("archive.tar.gz"), "archive.tar");
    assert_eq!(file_stem("noext"), "noext");
    assert_eq!(file_stem(".hidden"), ".hidden");
    assert_eq!(file_stem("a."), "a");
    assert_eq!(file_stem(""), "");
}

#[test]
fn names_beyond_ascii_are_split_by_character() {
    assert_eq!(file_extension("фото.nef"), Some("nef"));
    assert_eq!(file_stem("фото.nef"), "фото");
    assert_eq!(output_file_name("写真 01.ORF"), "写真 01.jpg");
    assert!(is_candidate("фото.NEF"));
    assert!(!is_candidate("a.nèf"));
}

#[test]
fn extension_and_stem_agree_with_the_standard_library() {
    let samples = [
        "a.arw", "b.NEF", "c.txt", "noext", ".hidden", ".hidden.cr2", "x.y.z", "a.", "a..b",
        "..a", "IMG 0001.RW2", "фото.orf", "trailing.dot.", "...",
    ];
    for name in samples {
        let path = Path::new(name);
        assert_eq!(file_extension(name), path.extension().and_then(|e| e.to_str()), "{}", name);
        assert_eq!(Some(file_stem(name)), path.file_stem().and_then(|s| s.to_str()), "{}", name);
    }
}

#[test]
fn supported_extensions_are_the_six_formats() {
    for extension in ["arw", "nef", "crw", "cr2", "orf", "rw2"] {
        assert!(is_supported_extension(extension), "{}", extension);
    }
    for extension in ["ARW", "NEF", "CRW", "CR2", "ORF", "RW2", "Arw", "nEf", "cR2", "oRF"] {
        assert!(is_supported_extension(extension), "{}", extension);
    }
}

#[test]
fn other_extensions_are_not_supported() {
    for extension in ["", "jpg", "jpeg", "txt", "dng", "raw", "ar", "arww", "arw ", "cr3", "rw"] {
        assert!(!is_supported_extension(extension), "{:?}", extension);
    }
}

#[test]
fn candidates_have_a_supported_extension() {
    assert!(is_candidate("a.arw"));
    assert!(is_candidate("B.NEF"));
    assert!(is_candidate("holiday.2019.Cr2"));
    assert!(is_candidate(".hidden.orf"));
    assert!(!is_candidate("c.txt"));
    assert!(!is_candidate("arw"));
    assert!(!is_candidate(".arw"));
    assert!(!is_candidate("a.arw.bak"));
    assert!(!is_candidate("a.jpg"));
    assert!(!is_candidate(""));
}

#[test]
fn output_name_is_stem_and_jpg() {
    assert_eq!(output_file_name("a.arw"), "a.jpg");
    assert_eq!(output_file_name("B.NEF"), "B.jpg");
    assert_eq!(output_file_name("x.y.cr2"), "x.y.jpg");
    assert_eq!(output_file_name("noext"), "noext.jpg");
}

#[test]
fn same_stem_gives_the_same_output_name() {
    assert_eq!(output_file_name("shot.arw"), output_file_name("shot.nef"));
}

#[test]
fn candidate_positions_keep_the_order_of_the_listing() {
    let listing = names(&["readme.txt", "a.arw", "b.jpg", "c.NEF", "d", "e.rw2"]);
    assert_eq!(candidates(&listing), vec![1, 3, 5]);
    assert_eq!(candidates(&names(&[])), Vec::<usize>::new());
    assert_eq!(candidates(&names(&["a.txt", "b.png"])), Vec::<usize>::new());
    assert_eq!(candidates(&names(&["a.crw", "a.crw"])), vec![0, 1]);
}
