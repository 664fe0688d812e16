use mdbook_plantuml::backend::{
    create, encode_diagram_source, server_address, shell_candidates, split_shell_command,
    BackendKind, PlantUMLShell,
};
use mdbook_plantuml::base64::{encode, Base64PlantUML};
use mdbook_plantuml::config::Config;
use mdbook_plantuml::preprocessor::{relative_img_url, Preprocessor};
use mdbook_plantuml::renderer::{
    create_datauri, create_image_datauri_element, create_inline_txt_image, create_md_link,
    ImageOutput, Renderer,
};

fn config_with_cmd(cmd: Option<&str>) -> Config {
    Config {
        plantuml_cmd: cmd.map(String::from),
        ..Config::default()
    }
}

#[test]
fn renderer_test_create_md_link() {
    assert_eq!(
        String::from("![](foo/bar/baz.svg)\n\n"),
        create_md_link("foo/bar", "/froboz/baz.svg", false)
    );

    assert_eq!("![](/baz.svg)\n\n", create_md_link("", "baz.svg", false));

    assert_eq!(
        String::from("![](/baz.svg)\n\n"),
        create_md_link("", "foo/baz.svg", false)
    );
}

#[test]
fn renderer_test_create_datauri() {
    // The files hold "test content" and a newline
    let content = b"test content\n";
    assert_eq!(
        String::from("data:image/svg+xml;base64,dGVzdCBjb250ZW50Cg=="),
        create_datauri("/tmp/file.svg", content)
    );
    assert_eq!(
        String::from("data:image/png;base64,dGVzdCBjb250ZW50Cg=="),
        create_datauri("/tmp/file.png", content)
    );
    assert_eq!(
        String::from("data:text/plain;base64,dGVzdCBjb250ZW50Cg=="),
        create_datauri("/tmp/file.txt", content)
    );
    assert_eq!(
        String::from("data:image/jpeg;base64,dGVzdCBjb250ZW50Cg=="),
        create_datauri("/tmp/file.jpeg", content)
    );
}

#[test]
fn datauri_elements_and_inline_text() {
    assert_eq!(
        "![](data:image/png;base64,c29tZSBwdW1sIGNvZGUKcG5n)\n\n",
        create_image_datauri_element("c/x.png", b"some puml code\npng", false)
    );
    assert_eq!(
        "[![](data:;base64,YQ==)](data:;base64,YQ==)\n\n",
        create_image_datauri_element("c/x.eps", b"a", true)
    );
    assert_eq!(
        "\n```txt\nsome puml code\ntxt```\n",
        create_inline_txt_image("some puml code\ntxt")
    );
    assert_eq!(
        "[![](r/x.svg)](r/x.svg)\n\n",
        create_md_link("r", "cache/x.svg", true)
    );
}

#[test]
fn renderer_chooses_how_images_go_in() {
    let mut cfg = Config::default();
    let renderer = Renderer::new(&cfg, String::from("cache"));
    assert_eq!(renderer.img_root(), "cache");
    assert!(matches!(renderer.image_output("cache/a.atxt"), ImageOutput::InlineText));
    assert!(matches!(renderer.image_output("cache/a.svg"), ImageOutput::DataUri));

    cfg.use_data_uris = false;
    cfg.clickable_img = true;
    let renderer = Renderer::new(&cfg, String::from("cache"));
    assert!(matches!(renderer.image_output("cache/a.png"), ImageOutput::Link));
    assert_eq!(
        renderer.md_link("img", "cache/a.png"),
        "[![](img/a.png)](img/a.png)\n\n"
    );
}

#[test]
fn renderer_tracks_kept_images() {
    let cfg = Config::default();
    let mut renderer = Renderer::new(&cfg, String::from("cache"));
    let path = renderer.image_path("A -> B", &Vec::new(), "svg");
    assert!(path.starts_with("cache/"));
    assert!(path.ends_with(".svg"));
    renderer.keep(&path);
    let listing = vec![
        mdbook_plantuml::cache_cleaner::ListedEntry { path: path.clone(), is_file: true },
        mdbook_plantuml::cache_cleaner::ListedEntry {
            path: String::from("cache/old.svg"),
            is_file: true,
        },
    ];
    assert_eq!(renderer.finalize(&listing), vec![String::from("cache/old.svg")]);
}

#[test]
fn config_default() {
    let cfg = Config::default();
    assert_eq!(cfg.plantuml_cmd, None);
    assert_eq!(cfg.piped, true);
    assert_eq!(cfg.clickable_img, false);
    assert_eq!(cfg.use_data_uris, true);
    assert_eq!(cfg.verbose, false);
    assert_eq!(cfg.fail_on_error, false);
}

#[test]
fn base64_encodes_bytes() {
    assert_eq!(String::from("Pd9lOczw"), encode(b"froboz"));
    assert_eq!(
        String::from("CJ8pD452GqHXOcDa4WW1"),
        encode(b"1234ABCDabcd\x12\x08\x01")
    );

    let data: Vec<u8> = (0_u8..255_u8).collect();
    assert_eq!(
        String::from(
            "00420mG51WS82GeB30qE3n0H4XCK5HON61aQ6nmT7XyW8I8Z92Kc9o\
             WfAYiiBIulC34oCpGrDZSuEJexF3q-Fq11GaD4HKP7I4bAIqnDJazGKL9JL5LMLr\
             XPMbjSNLvVO65YOsHbPcTeQMfhR6rkRt1nSdDqTNPtU7bwUtnzVd-0WOA3X8M6Xu\
             Y9YekCZOwFa96IavILbfUOcPgRd9sUdw2XegEafQQdgAcggwojhg-miRApjBMsjx\
             YvkhkylRw_mC72myJ5niV8oShBpCtEpz3HqjFKrTRNsDdQszpTtj_WuUBZvENcv-\
             ZfwklixUxlyF7oy_JrzlVu-Vhx_Ft-"
        ),
        encode(&data)
    );
}

#[test]
fn base64_plantuml_encodes_bytes() {
    let data: Vec<u8> = b"froboz".to_vec();
    assert_eq!(String::from("Pd9lOczw"), Base64PlantUML::encode(&data));

    let data: Vec<u8> = b"1234ABCDabcd\x12\x08\x01".to_vec();
    assert_eq!(
        String::from("CJ8pD452GqHXOcDa4WW1"),
        Base64PlantUML::encode(&data)
    );

    let data: Vec<u8> = (0_u8..255_u8).collect();
    assert_eq!(
        String::from(
            "00420mG51WS82GeB30qE3n0H4XCK5HON61aQ6nmT7XyW8I8Z92Kc9o\
             WfAYiiBIulC34oCpGrDZSuEJexF3q-Fq11GaD4HKP7I4bAIqnDJazGKL9JL5LMLr\
             XPMbjSNLvVO65YOsHbPcTeQMfhR6rkRt1nSdDqTNPtU7bwUtnzVd-0WOA3X8M6Xu\
             Y9YekCZOwFa96IavILbfUOcPgRd9sUdw2XegEafQQdgAcggwojhg-miRApjBMsjx\
             YvkhkylRw_mC72myJ5niV8oShBpCtEpz3HqjFKrTRNsDdQszpTtj_WuUBZvENcv-\
             ZfwklixUxlyF7oy_JrzlVu-Vhx_Ft-"
        ),
        Base64PlantUML::encode(&data)
    );
}

#[test]
fn base64_tails_are_padded_or_zero_filled() {
    assert_eq!(encode(b"a"), "OG==");
    assert_eq!(Base64PlantUML::encode(b"a"), "OG00");
    assert_eq!(encode(b"ab"), "OM8=");
    assert_eq!(Base64PlantUML::encode(b"ab"), "OM80");
    assert_eq!(encode(b""), "");
}

#[test]
fn server_test_encode_diagram_source() {
    assert_eq!("SrRGrQsnKt0100==", encode_diagram_source("C --|> D"));
}

#[test]
fn factory_prefers_server_then_first_working_command() {
    let cfg = config_with_cmd(Some("http://localhost:8080/plantuml"));
    assert_eq!(server_address(&cfg), Some("http://localhost:8080/plantuml"));
    match create(&cfg, &vec![false]) {
        Some(BackendKind::Server(url)) => assert_eq!(url, "http://localhost:8080/plantuml"),
        _ => panic!("expected a server"),
    }

    let cfg = config_with_cmd(None);
    assert_eq!(
        shell_candidates(&cfg),
        vec![String::from("plantuml"), String::from("java -jar plantuml.jar")]
    );
    match create(&cfg, &vec![false, true]) {
        Some(BackendKind::Shell(sh)) => {
            assert_eq!(sh.plantuml_cmd, "java -jar plantuml.jar");
            assert!(sh.piped);
        }
        _ => panic!("expected a shell"),
    }
    assert!(create(&cfg, &vec![false, false]).is_none());

    let cfg = config_with_cmd(Some("/opt/plantuml"));
    assert_eq!(server_address(&cfg), None);
    assert_eq!(shell_candidates(&cfg), vec![String::from("/opt/plantuml")]);

    let shell = PlantUMLShell::new(String::from("plantuml"), false);
    assert_eq!(shell.plantuml_cmd, "plantuml");
    assert!(!shell.piped);
}

#[test]
fn test_relative_img_url() {
    assert_eq!(
        String::from("mdbook-plantuml-img"),
        relative_img_url("chapter 1")
    );

    assert_eq!(
        String::from("../mdbook-plantuml-img"),
        relative_img_url("chapter 1/nested 1")
    );

    assert_eq!(
        String::from("../../mdbook-plantuml-img"),
        relative_img_url("chapter 1/nested 1/nested 2")
    );
}

#[test]
fn preprocessor_identity() {
    let pre = Preprocessor;
    assert_eq!(pre.name(), "plantuml");
    assert!(pre.supports_renderer("html"));
    assert!(!pre.supports_renderer("not-supported"));
}

#[test]
fn test_split_shell_command() {
    assert!(split_shell_command("").unwrap().is_empty());

    // String with multiple arguments
    assert_eq!(
        vec![
            String::from("python"),
            String::from("foo"),
            String::from("bar")
        ],
        split_shell_command("python foo bar").unwrap()
    );

    // Unclosed quoted string
    assert!(split_shell_command("python \"/foo").is_err());

    // Backslashes are treated as escape characters, as on posix platforms
    assert_eq!(
        vec![String::from("python"), String::from("D:foobar")],
        split_shell_command("python D:\\foo\\bar").unwrap()
    );

    // String with escaped spaces
    assert_eq!(
        vec![String::from("python"), String::from("foo bar")],
        split_shell_command("python foo\\ bar").unwrap()
    );
}
