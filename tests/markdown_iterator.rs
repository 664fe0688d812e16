use mdbook_plantuml::fence::CodeFence;
use mdbook_plantuml::info::InfoString;
use mdbook_plantuml::markdown_iterator::{blocks, Block, CodeBlock, MarkdownIterator};
use std::collections::HashMap;

fn expect_text_block(expected_text: &str, block: Option<Block>) {
    match block {
        Some(Block::Text(tb)) => assert_eq!(expected_text, tb.text),
        Some(Block::Code(_)) => panic!("expected Block::Text"),
        None => panic!("Block is None"),
    }
}

fn expect_code_block(expected_full_block: &str, expected_code: &str, block: Option<Block>) {
    match block {
        Some(Block::Code(cb)) => {
            assert_eq!(expected_code, cb.code, "Block code");
            assert_eq!(expected_full_block, cb.full_block, "Full block");
        }
        Some(Block::Text(_)) => panic!("expected Block::Code"),
        None => panic!("Block is None"),
    }
}

fn config_of(info: &InfoString) -> HashMap<String, Option<String>> {
    info.config
        .iter()
        .map(|(k, v)| (k.to_string(), v.map(|v| v.to_string())))
        .collect()
}

fn expected_config(pairs: &[(&str, Option<&str>)]) -> HashMap<String, Option<String>> {
    pairs
        .iter()
        .map(|(k, v)| (k.to_string(), v.map(|v| v.to_string())))
        .collect()
}

fn image_format_of(info_str: &str, code: &str) -> String {
    let code_block = CodeBlock {
        full_block: "",
        code,
        info_string: InfoString::from(info_str),
    };
    code_block.get_image_format().to_string()
}

#[test]
fn iterate_returns_none_for_empty_markdown() {
    let mut mit = MarkdownIterator::new("");
    assert!(mit.next().is_none());
}

#[test]
fn iterate_returns_text_block_for_simple_text() {
    let mut mit = MarkdownIterator::new("Foo");
    expect_text_block("Foo", mit.next());
}

#[test]
fn iterate_returns_text_block_for_multiline_text() {
    let mut mit = MarkdownIterator::new("Waldorf\nStentor");
    expect_text_block("Waldorf\nStentor", mit.next());
}

#[test]
fn iterate_returns_code_block() {
    let mut mit = MarkdownIterator::new("```\nCow\n```");
    expect_code_block("```\nCow\n```", "Cow\n", mit.next());
}

#[test]
fn iterate_returns_open_ended_code_block() {
    let mut mit = MarkdownIterator::new("```\nCow\n");
    expect_code_block("```\nCow\n", "Cow\n", mit.next());
}

#[test]
fn iterate_returns_open_ended_empty_code_block() {
    let mut mit = MarkdownIterator::new("```\n");
    expect_code_block("```\n", "", mit.next());
}

#[test]
fn iterate_multiple_block_types() {
    let mut mit = MarkdownIterator::new("Waldorf\n```\nfoo\n```\nStentor");
    expect_text_block("Waldorf\n", mit.next());
    expect_code_block("```\nfoo\n```\n", "foo\n", mit.next());
    expect_text_block("Stentor", mit.next());
    assert!(mit.next().is_none());
}

#[test]
fn iterate_returns_nested_code_block() {
    let mut mit = MarkdownIterator::new("````\nCow\n```Chicken\n```\n````");
    expect_code_block(
        "````\nCow\n```Chicken\n```\n````",
        "Cow\n```Chicken\n```\n",
        mit.next(),
    );
}

#[test]
fn iterate_oneline_block_is_text() {
    let mut mit = MarkdownIterator::new("```oneliner```");
    expect_text_block("```oneliner```", mit.next());

    // A more complex one, with a false end fence
    let mut mit = MarkdownIterator::new("````oneliner```blorgh````ff");
    expect_text_block("````oneliner```blorgh````ff", mit.next());
}

#[test]
fn ignore_closing_fences_with_info_string() {
    let mut mit = MarkdownIterator::new("```\na\n``` info\nb\n```");
    expect_code_block("```\na\n``` info\nb\n```", "a\n``` info\nb\n", mit.next());
}

#[test]
fn get_code_fence() {
    assert_eq!(None, MarkdownIterator::get_code_fence("", None));
    assert_eq!(None, MarkdownIterator::get_code_fence("Staple", None));
    // More than 3 leading spaces -> Not a fence
    assert_eq!(None, MarkdownIterator::get_code_fence("    ```", None));
    assert_eq!(
        None,
        MarkdownIterator::get_code_fence("    ~~~", Some(&CodeFence::new('~', 3)))
    );

    // Up to 3 leading spaces -> it's a fence
    assert_eq!(
        Some(CodeFence::new('~', 3)),
        MarkdownIterator::get_code_fence("   ~~~", None)
    );

    // Spaces rule also applies to closing fences
    assert_eq!(
        Some(CodeFence::new('~', 3)),
        MarkdownIterator::get_code_fence("   ~~~", Some(&CodeFence::new('~', 3)))
    );

    // Check end fence is matching
    assert_eq!(
        None,
        MarkdownIterator::get_code_fence("~~~", Some(&CodeFence::new('~', 4)))
    );
    // Closing fence must be at least as wide
    assert_eq!(
        Some(CodeFence::new('~', 5)),
        MarkdownIterator::get_code_fence("~~~~~", Some(&CodeFence::new('~', 4)))
    );
    // Closing fence cannot contain extra characters behind it
    assert_eq!(
        None,
        MarkdownIterator::get_code_fence("~~~~~ a", Some(&CodeFence::new('~', 4)))
    );
    // Only whitespace after the closing fence is not considered text -> valid closing fence
    assert_eq!(
        Some(CodeFence::new('~', 5)),
        MarkdownIterator::get_code_fence("~~~~~   ", Some(&CodeFence::new('~', 4)))
    );
    assert_eq!(
        None,
        MarkdownIterator::get_code_fence("````", Some(&CodeFence::new('~', 4)))
    );
    assert_eq!(
        None,
        MarkdownIterator::get_code_fence("~~~~", Some(&CodeFence::new('`', 4)))
    );
    assert_eq!(
        Some(CodeFence::new('~', 4)),
        MarkdownIterator::get_code_fence("~~~~", Some(&CodeFence::new('~', 4)))
    );
    assert_eq!(
        Some(CodeFence::new('`', 4)),
        MarkdownIterator::get_code_fence("````", Some(&CodeFence::new('`', 4)))
    );

    // Need at least 3 consecutive identical fence chars
    assert_eq!(None, MarkdownIterator::get_code_fence("``", None));
    assert_eq!(None, MarkdownIterator::get_code_fence("~~", None));
    assert_eq!(None, MarkdownIterator::get_code_fence("``~`", None));

    assert_eq!(
        Some(CodeFence::new('`', 3)),
        MarkdownIterator::get_code_fence("```", None)
    );
    assert_eq!(
        Some(CodeFence::new('`', 4)),
        MarkdownIterator::get_code_fence("````", None)
    );

    assert_eq!(
        Some(CodeFence::new('~', 3)),
        MarkdownIterator::get_code_fence("~~~", None)
    );
    assert_eq!(
        Some(CodeFence::new('~', 4)),
        MarkdownIterator::get_code_fence("~~~~", None)
    );

    assert_eq!(
        Some(CodeFence::new('~', 3)),
        MarkdownIterator::get_code_fence("~~~", None)
    );
}

#[test]
fn is_oneline_fence() {
    assert!(MarkdownIterator::is_oneline_fence(
        "```oneline```",
        &CodeFence::new('`', 3)
    ));
    assert!(MarkdownIterator::is_oneline_fence(
        "```oneline```abc",
        &CodeFence::new('`', 3)
    ));
    assert!(!MarkdownIterator::is_oneline_fence(
        "```oneline``abc",
        &CodeFence::new('`', 3)
    ));
    assert!(!MarkdownIterator::is_oneline_fence(
        "```oneline",
        &CodeFence::new('`', 3)
    ));
    assert!(!MarkdownIterator::is_oneline_fence(
        "```",
        &CodeFence::new('`', 3)
    ));

    assert!(MarkdownIterator::is_oneline_fence(
        "```oneline``abc```def",
        &CodeFence::new('`', 3)
    ));
    assert!(!MarkdownIterator::is_oneline_fence(
        "```oneline````def",
        &CodeFence::new('`', 3)
    ));
    assert!(!MarkdownIterator::is_oneline_fence(
        "```",
        &CodeFence::new('`', 3)
    ));

    // Closing fence should be exactly as wide
    assert!(!MarkdownIterator::is_oneline_fence(
        "``` aabc `````",
        &CodeFence::new('`', 3)
    ));

    // Indented fence
    assert!(MarkdownIterator::is_oneline_fence(
        "   ``` abc ```",
        &CodeFence::new('`', 3)
    ));
    assert!(!MarkdownIterator::is_oneline_fence(
        "   ``` abc",
        &CodeFence::new('`', 3)
    ));

    assert!(!MarkdownIterator::is_oneline_fence(
        "~~~ foo bar ``` ~~~",
        &CodeFence::new('~', 3)
    ));
}

#[test]
fn test_infostring_plantuml_detection() {
    assert!(InfoString::from("plantuml").is_plantuml());
    assert!(InfoString::from("puml").is_plantuml());
    assert!(InfoString::from("plantuml,format=svg").is_plantuml());
    assert!(InfoString::from("puml,format=svg").is_plantuml());

    assert!(!InfoString::from(",plantuml").is_plantuml()); // Bogus info string
    assert!(!InfoString::from("plantUML").is_plantuml()); // Case sensitive
    assert!(!InfoString::from("c++").is_plantuml());
}

#[test]
fn test_infostring_config_parsing() {
    let info = InfoString::from("");
    assert!(info.language.is_none());
    assert!(info.config.is_empty());
    assert_eq!(info.info_string, "");

    let info = InfoString::from("abc");
    assert_eq!(info.language, Some("abc"));
    assert!(info.config.is_empty());
    assert_eq!(info.info_string, "abc");

    let info = InfoString::from("abc=def");
    assert!(info.language.is_none());
    assert_eq!(config_of(&info), expected_config(&[("abc", Some("def"))]));
    assert_eq!(info.info_string, "abc=def");

    let info = InfoString::from("abc=");
    assert!(info.language.is_none());
    assert_eq!(config_of(&info), expected_config(&[("abc", None)]));
    assert_eq!(info.info_string, "abc=");

    let info = InfoString::from("c++,abc=");
    assert_eq!(info.language, Some("c++"));
    assert_eq!(config_of(&info), expected_config(&[("abc", None)]));
    assert_eq!(info.info_string, "c++,abc=");

    let info = InfoString::from("rs,abc=,qq,def=12");
    assert_eq!(info.language, Some("rs"));
    assert_eq!(
        config_of(&info),
        expected_config(&[("abc", None), ("qq", None), ("def", Some("12"))])
    );
    assert_eq!(info.info_string, "rs,abc=,qq,def=12");

    let info = InfoString::from("rs abc= qq def=12");
    assert_eq!(info.language, Some("rs"));
    assert_eq!(
        config_of(&info),
        expected_config(&[("abc", None), ("qq", None), ("def", Some("12"))])
    );
    assert_eq!(info.info_string, "rs abc= qq def=12");
}

#[test]
fn test_plantuml_codeblock_format_detection() {
    assert_eq!("svg", image_format_of("plantuml", "foo"));
    assert_eq!("svg", image_format_of("plantuml,format=svg", "foo"));
    assert_eq!("png", image_format_of("plantuml,format=png", "foo"));
    assert_eq!("txt", image_format_of("plantuml,bruh=123,format=txt", "foo"));
    assert_eq!(
        "jpg",
        image_format_of("plantuml,bruh=123,format=jpg,bruh=123", "foo")
    );
    assert_eq!("png", image_format_of("plantuml", "@startditaa"));

    // Error/edge cases
    assert_eq!("svg", image_format_of("plantuml,format=", "foo"));
    assert_eq!("svg", image_format_of("plantuml,format", "foo"));
    assert_eq!(
        "svg",
        image_format_of("plantuml,bruh=123,format=,bruh=123", "foo")
    );
    assert_eq!("svg", image_format_of("plantuml,bruh=123", "foo"));
}

#[test]
fn markdown_can_be_reconstructed_with_iterator() {
    let markdown = "Some text\n\
        And some more\n\
        ```code\n\
        let foo = bar;\n\
        ```\n\
        More text\n\
        ```unclosed\n";

    let mut reconstructed = String::new();
    let mut it = MarkdownIterator::new(markdown);
    while let Some(block) = it.next() {
        match block {
            Block::Text(tb) => reconstructed.push_str(tb.text),
            Block::Code(cb) => reconstructed.push_str(cb.full_block),
        }
    }

    assert_eq!(markdown, reconstructed);
}

fn rebuild(markdown: &str) -> String {
    let mut out = String::new();
    for block in blocks(markdown) {
        match block {
            Block::Text(tb) => out.push_str(tb.text),
            Block::Code(cb) => out.push_str(cb.full_block),
        }
    }
    out
}

#[test]
fn blocks_rebuild_documents_with_edge_cases() {
    let documents = [
        "",
        "\n",
        "\n\n\n",
        "```",
        "```\n```",
        "text\r\n```plantuml\r\nA -> B\r\n```\r\nafter\r\n",
        "~~~~\n~~~\n~~~~~ \n",
        "````\n```\n````\nnext\n```unclosed",
        "    ```\nnot a fence\n",
        "é```\n```é\n```\n",
        "```a```\n~~~ b ``` ~~~\nx\n~~~\n",
    ];
    for doc in documents {
        assert_eq!(doc, rebuild(doc));
    }
}

#[test]
fn fence_scenarios() {
    // "```" opens a fence of width 3
    assert_eq!(
        Some(CodeFence::new('`', 3)),
        MarkdownIterator::get_code_fence("```", None)
    );
    // 3 leading spaces are accepted for an opening fence, 4 are not
    assert_eq!(
        Some(CodeFence::new('`', 3)),
        MarkdownIterator::get_code_fence("   ```", None)
    );
    assert_eq!(None, MarkdownIterator::get_code_fence("    ```", None));
}

#[test]
fn oneliner_scenarios() {
    let mut mit = MarkdownIterator::new("```oneliner```");
    expect_text_block("```oneliner```", mit.next());
    assert!(mit.next().is_none());

    // A tilde fence is never a one-liner: the line opens a code block
    let mut mit = MarkdownIterator::new("~~~ foo bar ``` ~~~");
    expect_code_block("~~~ foo bar ``` ~~~", "", mit.next());
}

#[test]
fn info_string_scenarios() {
    let info = InfoString::from("plantuml,format=png");
    assert_eq!(info.language, Some("plantuml"));
    assert!(info.is_plantuml());
    assert_eq!(config_of(&info), expected_config(&[("format", Some("png"))]));
    assert_eq!(info.get("format"), Some(Some("png")));
    assert_eq!(info.get("size"), None);

    let info = InfoString::from(",plantuml");
    assert_eq!(info.language, None);
    assert!(!info.is_plantuml());

    // A later option replaces an earlier one
    let info = InfoString::from("puml format=png format=svg");
    assert_eq!(info.get("format"), Some(Some("svg")));
}

#[test]
fn end_to_end_blocks() {
    let blocks = blocks("Waldorf\n```\nfoo\n```\nStentor");
    assert_eq!(3, blocks.len());
    match &blocks[0] {
        Block::Text(tb) => assert_eq!("Waldorf\n", tb.text),
        Block::Code(_) => panic!("expected Block::Text"),
    }
    match &blocks[1] {
        Block::Code(cb) => {
            assert_eq!("foo\n", cb.code);
            assert_eq!("```\nfoo\n```\n", cb.full_block);
            assert_eq!(None, cb.info_string.language);
            assert!(!cb.info_string.is_plantuml());
        }
        Block::Text(_) => panic!("expected Block::Code"),
    }
    match &blocks[2] {
        Block::Text(tb) => assert_eq!("Stentor", tb.text),
        Block::Code(_) => panic!("expected Block::Text"),
    }
}

#[test]
fn indented_fence_info_string() {
    let mut mit = MarkdownIterator::new("  ```plantuml,format=png\nA -> B\n  ```\n");
    match mit.next() {
        Some(Block::Code(cb)) => {
            assert_eq!("A -> B\n", cb.code);
            assert!(cb.info_string.is_plantuml());
            assert_eq!("png", cb.get_image_format());
        }
        _ => panic!("expected Block::Code"),
    }
}

#[test]
fn oneliner_with_a_wider_run_before_the_closing_run() {
    // A wider run does not end the search: a later run exactly as wide closes the line
    assert!(MarkdownIterator::is_oneline_fence(
        "```a`````b```",
        &CodeFence::new('`', 3)
    ));
    assert_eq!(None, MarkdownIterator::get_code_fence("```a`````b```", None));
    let mut mit = MarkdownIterator::new("```a`````b```");
    expect_text_block("```a`````b```", mit.next());

    // Only wider and narrower runs: not a one-liner
    assert!(!MarkdownIterator::is_oneline_fence(
        "```a`````b``",
        &CodeFence::new('`', 3)
    ));
}
