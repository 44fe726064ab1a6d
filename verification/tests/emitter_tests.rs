use taxogen::emitter::generate;

fn sample_paths() -> Vec<String> {
    vec!["posts_post-1.md.ts".to_owned(), "pages_about.mdx.tsx".to_owned()]
}

fn sample_taxonomies() -> Vec<(String, Vec<usize>)> {
    vec![("my tag".to_owned(), vec![0usize, 1usize]), ("Empty Tag".to_owned(), Vec::new())]
}

#[test]
fn empty_taxonomy_map_emits_nothing() {
    let paths = sample_paths();
    let taxonomies: Vec<(String, Vec<usize>)> = Vec::new();
    assert!(generate(&paths, &taxonomies).is_none());
}

#[test]
fn emits_full_module() {
    let out = generate(&sample_paths(), &sample_taxonomies()).unwrap();
    let text = String::from_utf8(out).unwrap();
    let expected = "import type { Merge } from \"./generated-helpers\";\n\
                    import q0 from \"./posts_post-1.md.ts\";\n\
                    import q1 from \"./pages_about.mdx.tsx\";\n\
                    \n\
                    export const my_tag: MyTag[] = [ q0, q1];\n\
                    export const empty_tag: EmptyTag[] = [];\n\
                    \n\
                    export type MyTag = Merge<typeof q0 | typeof q1>;\n\
                    export type EmptyTag = Merge<>;\n";
    assert_eq!(text, expected);
}

#[test]
fn emission_is_deterministic() {
    let first = generate(&sample_paths(), &sample_taxonomies()).unwrap();
    let second = generate(&sample_paths(), &sample_taxonomies()).unwrap();
    assert_eq!(first, second);
}

#[test]
fn single_tag_single_document() {
    let paths = vec!["doc.md.ts".to_owned()];
    let taxonomies = vec![("series".to_owned(), vec![0usize])];
    let out = generate(&paths, &taxonomies).unwrap();
    let text = String::from_utf8(out).unwrap();
    let expected = "import type { Merge } from \"./generated-helpers\";\n\
                    import q0 from \"./doc.md.ts\";\n\
                    \n\
                    export const series: Series[] = [ q0];\n\
                    \n\
                    export type Series = Merge<typeof q0>;\n";
    assert_eq!(text, expected);
}

#[test]
fn multi_digit_ids_render_in_decimal() {
    let mut paths: Vec<String> = Vec::new();
    let mut i = 0;
    while i < 12 {
        paths.push(format!("d{}.md.ts", i));
        i += 1;
    }
    let taxonomies = vec![("t".to_owned(), vec![10usize, 11usize])];
    let out = generate(&paths, &taxonomies).unwrap();
    let text = String::from_utf8(out).unwrap();
    assert!(text.contains("import q11 from \"./d11.md.ts\";\n"));
    assert!(text.contains("export const t: T[] = [ q10, q11];\n"));
    assert!(text.contains("export type T = Merge<typeof q10 | typeof q11>;\n"));
}
