use taxogen::paths::output_path;
use taxogen::paths::write_output_path;

#[test]
fn generates_md_output_path() {
    let outdir = "content/generated";
    let filename = "posts/post-1.md";
    let result = output_path(outdir, filename);
    assert_eq!(result, "content/generated/posts_post-1.md.ts".to_owned())
}

#[test]
fn generates_mdx_output_path() {
    let outdir = "content/generated";
    let filename = "posts/post-1.mdx";
    let result = output_path(outdir, filename);
    assert_eq!(result, "content/generated/posts_post-1.mdx.tsx".to_owned())
}

#[test]
fn strips_one_leading_separator() {
    assert_eq!(output_path("out", "/posts/a.md"), "out/posts_a.md.ts".to_owned());
}

#[test]
fn joins_onto_empty_and_slashed_outdirs() {
    assert_eq!(output_path("", "a.md"), "a.md.ts".to_owned());
    assert_eq!(output_path("out/", "a.md"), "out/a.md.ts".to_owned());
}

#[test]
fn keeps_non_ascii_path_characters() {
    assert_eq!(output_path("o", "p\u{e9}.md"), "o/p\u{e9}.md.ts".to_owned());
}

#[test]
fn streams_the_same_path_bytes() {
    let mut out: Vec<u8> = Vec::new();
    write_output_path("content/generated", "posts/post-1.mdx", &mut out);
    let built = output_path("content/generated", "posts/post-1.mdx");
    assert_eq!(out, built.into_bytes());
}
