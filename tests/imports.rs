use import_scan::{
    dialect_for_path, extract, file_records, record_for, run_aggregate, slice_source, Dialect,
    FileInput, FileOutcome, ImportNode, ImportRecord,
};

fn stat(spec: &str, start: usize, end: usize) -> ImportNode {
    ImportNode::Static { specifier: spec.to_string(), start, end }
}

fn dynamic(lit: Option<&str>) -> ImportNode {
    ImportNode::Dynamic { literal: lit.map(|s| s.to_string()) }
}

fn parsed(path: &str, source: &str, nodes: Vec<ImportNode>) -> FileInput {
    FileInput {
        path: path.to_string(),
        outcome: FileOutcome::Parsed { source: source.to_string(), nodes },
    }
}

fn failed(path: &str, outcome: FileOutcome) -> FileInput {
    FileInput { path: path.to_string(), outcome }
}

fn key(r: &ImportRecord) -> (String, String, Option<String>, usize) {
    (r.file.clone(), r.specifier.clone(), r.raw_text.clone(), r.order)
}

fn keys(rs: &[ImportRecord]) -> Vec<(String, String, Option<String>, usize)> {
    rs.iter().map(key).collect()
}

const SOURCE: &str = "import x from \"./a\"; import(\"./b\");";

#[test]
fn dialect_follows_suffix() {
    assert_eq!(dialect_for_path("src/a.ts"), Dialect::TypeScript);
    assert_eq!(dialect_for_path("src/a.tsx"), Dialect::TypeScriptJsx);
    assert_eq!(dialect_for_path("src/a.jsx"), Dialect::ScriptJsx);
    assert_eq!(dialect_for_path("src/a.js"), Dialect::Script);
    assert_eq!(dialect_for_path("ts"), Dialect::Script);
    assert_eq!(dialect_for_path(""), Dialect::Script);
    assert!(Dialect::TypeScriptJsx.jsx() && Dialect::TypeScriptJsx.typescript());
    assert!(Dialect::ScriptJsx.jsx() && !Dialect::ScriptJsx.typescript());
    assert!(!Dialect::Script.jsx() && !Dialect::Script.typescript());
}

#[test]
fn slice_takes_declaration_text() {
    assert_eq!(slice_source(SOURCE, 0, 20), Some("import x from \"./a\";".to_string()));
    assert_eq!(slice_source(SOURCE, 21, 21), Some(String::new()));
    assert_eq!(slice_source(SOURCE, 5, 4), None);
    assert_eq!(slice_source(SOURCE, 0, SOURCE.len() + 1), None);
    assert_eq!(slice_source("é", 0, 1), None);
    assert_eq!(slice_source("é", 0, 2), Some("é".to_string()));
}

#[test]
fn static_imports_keep_source_order() {
    let nodes = vec![stat("s1", 0, 1), stat("s2", 1, 2), stat("s3", 2, 3)];
    let rs = extract(&"f.ts".to_string(), "abc", &nodes, false);
    let specs: Vec<&str> = rs.iter().map(|r| r.specifier.as_str()).collect();
    assert_eq!(specs, vec!["s1", "s2", "s3"]);
    let orders: Vec<usize> = rs.iter().map(|r| r.order).collect();
    assert_eq!(orders, vec![0, 1, 2]);
    assert!(rs.iter().all(|r| r.raw_text.is_none()));
}

#[test]
fn dynamic_import_needs_a_literal() {
    let f = "f.js".to_string();
    let rs = extract(&f, "", &vec![dynamic(Some("a"))], true);
    assert_eq!(keys(&rs), vec![("f.js".to_string(), "a".to_string(), None, 0)]);
    let rs = extract(&f, "", &vec![dynamic(None)], true);
    assert!(rs.is_empty());
    assert!(record_for(&f, "", &dynamic(None), false, 0).is_none());
}

#[test]
fn raw_text_is_captured_on_request() {
    let f = "a.ts".to_string();
    let nodes = vec![stat("./a", 0, 20), dynamic(Some("./b"))];
    let rs = extract(&f, SOURCE, &nodes, true);
    assert_eq!(
        keys(&rs),
        vec![
            (f.clone(), "./a".to_string(), Some("import x from \"./a\";".to_string()), 0),
            (f.clone(), "./b".to_string(), None, 1),
        ]
    );
    assert_eq!(rs[0].to_result().import_expr, "import x from \"./a\";");
    assert_eq!(rs[1].to_result().import_expr, "./b");
    assert_eq!(rs[1].to_result().file, "a.ts");
    let bad = extract(&f, SOURCE, &vec![stat("./a", 0, 99)], true);
    assert_eq!(bad[0].raw_text, None);
}

#[test]
fn repeated_imports_are_not_merged() {
    let nodes = vec![stat("x", 0, 0), stat("x", 0, 0)];
    let rs = extract(&"f.ts".to_string(), "", &nodes, false);
    assert_eq!(rs.len(), 2);
}

#[test]
fn failed_files_yield_nothing() {
    assert!(file_records(&failed("m.ts", FileOutcome::ReadFailed), true).is_empty());
    assert!(file_records(&failed("m.ts", FileOutcome::ParseFailed), true).is_empty());
}

#[test]
fn unparsable_file_is_isolated() {
    let good1 = parsed("a.ts", SOURCE, vec![stat("./a", 0, 20), dynamic(Some("./b"))]);
    let good2 = parsed("b.ts", "", vec![stat("c", 0, 0)]);
    let bad = failed("bad.ts", FileOutcome::ParseFailed);
    let with_bad = run_aggregate(&vec![good1.clone(), bad, good2.clone()], false);
    let without = run_aggregate(&vec![good1, good2], false);
    assert_eq!(keys(&with_bad), keys(&without));
    assert_eq!(with_bad.len(), 3);
}

#[test]
fn modes_deliver_the_same_records() {
    let files = vec![
        parsed("a.ts", SOURCE, vec![stat("./a", 0, 20), dynamic(Some("./b"))]),
        parsed("b.ts", "", vec![dynamic(None), stat("c", 0, 0)]),
        failed("m.ts", FileOutcome::ReadFailed),
    ];
    let mut aggregate = keys(&run_aggregate(&files, true));
    let mut sink = Vec::new();
    for f in files.iter().rev() {
        for r in file_records(f, true) {
            sink.push(key(&r));
        }
    }
    aggregate.sort();
    sink.sort();
    assert_eq!(aggregate, sink);
}

#[test]
fn rerun_gives_the_same_records() {
    let files = vec![
        parsed("a.ts", SOURCE, vec![stat("./a", 0, 20), dynamic(Some("./b"))]),
        parsed("b.ts", "", vec![stat("c", 0, 0)]),
    ];
    let first = keys(&run_aggregate(&files, false));
    let second = keys(&run_aggregate(&files, false));
    assert_eq!(first, second);
    let mut reordered = keys(&run_aggregate(&vec![files[1].clone(), files[0].clone()], false));
    let mut first_sorted = first.clone();
    reordered.sort();
    first_sorted.sort();
    assert_eq!(reordered, first_sorted);
}

#[test]
fn one_good_file_and_one_missing() {
    let files = vec![
        parsed("a.ts", SOURCE, vec![stat("./a", 0, 20), dynamic(Some("./b"))]),
        failed("missing.ts", FileOutcome::ReadFailed),
    ];
    let rs = run_aggregate(&files, false);
    assert_eq!(rs.len(), 2);
    assert_eq!((rs[0].file.as_str(), rs[0].specifier.as_str()), ("a.ts", "./a"));
    assert_eq!((rs[1].file.as_str(), rs[1].specifier.as_str()), ("a.ts", "./b"));
}
