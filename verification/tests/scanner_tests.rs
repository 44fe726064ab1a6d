use taxogen::scanner::get_content_ranges;

#[test]
fn gets_empty_file_ranges() {
    let result = get_content_ranges(b"");
    assert_eq!((result.frontmatter.start, result.frontmatter.end), (0, 0));
    assert_eq!((result.body.start, result.body.end), (0, 0))
}

#[test]
fn parses_no_frontmatter() {
    let input = b"No frontmatter here";
    let result = get_content_ranges(input);
    assert_eq!((result.frontmatter.start, result.frontmatter.end), (0, 0));
    assert_eq!((result.body.start, result.body.end), (0, input.len()))
}

#[test]
fn parses_only_frontmatter() {
    let frontmatter = "title: Name of File";
    let input = format!("---\n{}\n---", frontmatter);
    let result = get_content_ranges(input.as_bytes());
    assert_eq!(input[result.frontmatter.start..result.frontmatter.end].trim(), frontmatter);
    assert_eq!(input[result.body.start..result.body.end].trim(), "");
}

#[test]
fn parse_frontmatter_and_content() {
    let frontmatter = "title: Name of File";
    let content = "Content part";
    let input = format!("---\n{}\n---\n{}", frontmatter, content);
    let result = get_content_ranges(input.as_bytes());
    assert_eq!(input[result.frontmatter.start..result.frontmatter.end].trim(), frontmatter);
    assert_eq!(input[result.body.start..result.body.end].trim(), content);
}

#[test]
fn unclosed_frontmatter_runs_to_end() {
    let input = b"---\nabc";
    let result = get_content_ranges(input);
    assert_eq!((result.frontmatter.start, result.frontmatter.end), (3, input.len()));
    assert_eq!((result.body.start, result.body.end), (input.len(), input.len()));
}

#[test]
fn delimiter_only_buffer() {
    let input = b"---";
    let result = get_content_ranges(input);
    assert_eq!((result.frontmatter.start, result.frontmatter.end), (3, 3));
    assert_eq!((result.body.start, result.body.end), (3, 3));
}

#[test]
fn early_delimiter_inside_frontmatter_terminates_early() {
    let input = b"---\na---b\n---\nrest";
    let result = get_content_ranges(input);
    assert_eq!((result.frontmatter.start, result.frontmatter.end), (3, 5));
    assert_eq!(&input[result.frontmatter.start..result.frontmatter.end], b"\na");
    assert_eq!((result.body.start, result.body.end), (8, input.len()));
}
