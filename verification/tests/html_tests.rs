use taxogen::html::html_tag;

#[test]
fn gets_html_tag_name() {
    let tags = [
        "<tag>",
        "<tag >",
        "<tag id=\"id\" class=\"classes\">",
        "<tag id=\"id\" class=\"classes\"/>",
        "<tag id=\"id\" class=\"classes\" >",
        "<tag id=\"id\" class=\"classes\" />",
        "<tag/>",
        "<tag />",
    ];
    for tag in tags {
        assert_eq!(html_tag(tag), "tag")
    }
}

#[test]
fn html_tag_without_terminator() {
    assert_eq!(html_tag("<tag"), "tag");
    assert_eq!(html_tag("tag"), "tag");
}
