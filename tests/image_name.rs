use mdbook_plantuml::image_name::{create_hash_from_code, image_filename};
use std::path::PathBuf;

/// The cache key of code whose includes could not be read (or that has none).
fn hash_without_includes(code: &str) -> String {
    create_hash_from_code(code, &Vec::new())
}

fn extension_from_filename(code: &str, img_format: &str) -> String {
    let file_path = image_filename("foo", code, &Vec::new(), img_format);
    let firstdot = file_path.find('.').unwrap();
    file_path[firstdot + 1..].to_string()
}

#[test]
fn test_image_filename_extension() {
    assert_eq!(String::from("svg"), extension_from_filename("", "svg"));

    assert_eq!(String::from("eps"), extension_from_filename("", "eps"));

    assert_eq!(String::from("png"), extension_from_filename("", "png"));

    assert_eq!(String::from("svg"), extension_from_filename("", ""));

    assert_eq!(String::from("svg"), extension_from_filename("", "svg"));

    assert_eq!(String::from("atxt"), extension_from_filename("", "txt"));

    // Plantuml does this 'braille.png' extension
    assert_eq!(
        String::from("braille.png"),
        extension_from_filename("", "braille")
    );

    {
        // ditaa graphs
        // Note the format is overridden when rendering ditaa
        assert_eq!(
            String::from("png"),
            extension_from_filename("@startditaa", "svg")
        );

        assert_eq!(
            String::from("png"),
            extension_from_filename("@startditaa", "png")
        );

        assert_eq!(
            String::from("png"),
            extension_from_filename(
                "Also when not at the start of the code block @startditaa",
                "svg"
            )
        );
    }
}

#[test]
fn test_image_filename() {
    let code = "asgtfgl";
    let file_path = PathBuf::from(image_filename("foo", code, &Vec::new(), "svg"));
    assert_eq!(PathBuf::from("foo"), file_path.parent().unwrap());
    assert_eq!(
        hash_without_includes(code),
        file_path.file_stem().unwrap().to_str().unwrap()
    );
    assert_eq!(PathBuf::from("svg"), file_path.extension().unwrap());
}

#[test]
fn test_create_hash_from_code_no_include() {
    let code = "@startuml\nAlice -> Bob: Hello\n@enduml";
    let hash = hash_without_includes(code);
    assert_eq!("79b57dbdefc431bfab3f4f17c032d39823cbd210", hash);

    // Different code, different hash
    let code = "@startuml\nBob -> Alice: Hello\n@enduml";
    let hash = hash_without_includes(code);
    assert_eq!("059720b7027e8d7af44cdbabee7d47ae1277cd83", hash);
}

#[test]
fn test_create_hash_from_code_includes() {
    // The contents of include.puml and include_sub.puml, as read from disk.
    let code = "@startuml\n  !include include.puml\n!includesub include_sub.puml!FOO\nAlice -> Bob: Hello\n@enduml";
    let baseline = vec![String::from("goats"), String::from("easels")];
    let baseline_hash = create_hash_from_code(code, &baseline);

    // Now change the include file, the hash should change
    let changed = vec![String::from("goats with pants"), String::from("easels")];
    let include_hash = create_hash_from_code(code, &changed);
    assert_ne!(baseline_hash, include_hash);

    // Now change the includesub file, the hash should change
    let changed = vec![
        String::from("goats with pants"),
        String::from("easels with hats"),
    ];
    let includesub_hash = create_hash_from_code(code, &changed);
    assert_ne!(include_hash, includesub_hash);

    // Finally change the code block itself, the hash should change
    let longer = code.to_owned() + "\n' A comment";
    let hash = create_hash_from_code(&longer, &changed);
    assert_ne!(includesub_hash, hash);

    // Back to the baseline code and files: the hash is the baseline hash again
    let final_hash = create_hash_from_code(code, &baseline);
    assert_eq!(baseline_hash, final_hash);
}

#[test]
fn test_create_hash_from_code_includes_when_includes_cannot_be_found() {
    // Two include files that do not exist are referenced
    let code = "@startuml\n!include not-here.puml\n!includesub not-here-either.puml!FOO\nAlice -> Bob: Hello\n@enduml";
    let hash = hash_without_includes(code);
    assert_eq!("9183290693ec58cf6897b718a376e5b898a17f88", hash);

    // Change the code block itself, the hash should change
    let code = code.to_owned() + "\n' A comment";
    let hash = hash_without_includes(code.as_str());
    assert_eq!("07bdd9d54b4662ef657b0b94f147641d4f9c464b", hash);
}

#[test]
fn cache_path_is_stable_and_follows_included_content() {
    let code = "@startuml\n!include part.puml\n@enduml";
    let first = image_filename("cache", code, &vec![String::from("A -> B")], "png");
    let second = image_filename("cache", code, &vec![String::from("A -> B")], "png");
    assert_eq!(first, second);

    // One byte of the included file changes: the cache key changes
    let changed = image_filename("cache", code, &vec![String::from("A -> C")], "png");
    assert_ne!(first, changed);
}

#[test]
fn image_path_joins_root_once() {
    let hash = create_hash_from_code("x", &Vec::new());
    assert_eq!(
        image_filename("root/", "x", &Vec::new(), "svg"),
        format!("root/{hash}.svg")
    );
    assert_eq!(
        image_filename("root", "x", &Vec::new(), "svg"),
        format!("root/{hash}.svg")
    );
    assert_eq!(
        image_filename("", "x", &Vec::new(), "svg"),
        format!("{hash}.svg")
    );
}

#[test]
fn hash_is_forty_hex_digits_of_sha1() {
    // SHA-1 of the empty input
    assert_eq!(
        "da39a3ee5e6b4b0d3255bfef95601890afd80709",
        create_hash_from_code("", &Vec::new())
    );
    // The code and the included contents are hashed one after the other
    assert_eq!(
        create_hash_from_code("ab", &Vec::new()),
        create_hash_from_code("a", &vec![String::from("b")])
    );
}
