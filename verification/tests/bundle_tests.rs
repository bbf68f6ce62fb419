use fresh::bundle::{bundle_module, normalize_path, resolve_import, BundleError, SourceTree};
use fresh::transpile::{strip_imports_and_exports, transpile_typescript};

#[test]
fn test_bundle_unresolved_import_names_specifier_and_importer() {
    let mut tree = SourceTree::new();
    tree.add_file("entry.ts", "import { x } from \"./missing\";\nconst a = x;");
    match bundle_module(&tree, "entry.ts") {
        Err(BundleError::UnresolvedImport { specifier, importer }) => {
            assert_eq!(specifier, "./missing");
            assert_eq!(importer, "entry.ts");
        }
        other => panic!("expected an unresolved import, got {:?}", other),
    }
}

#[test]
fn test_bundle_missing_entry_is_read_failure() {
    let tree = SourceTree::new();
    match bundle_module(&tree, "absent.ts") {
        Err(BundleError::ReadFailure { path }) => assert_eq!(path, "absent.ts"),
        other => panic!("expected a read failure, got {:?}", other),
    }
}

#[test]
fn test_bundle_single_file_equals_direct_transpile() {
    let source = "const value: number = 7;\nglobalThis.__solo = value;";
    let mut tree = SourceTree::new();
    tree.add_file("solo.ts", source);
    let bundled = bundle_module(&tree, "solo.ts").unwrap();
    let direct =
        transpile_typescript(&strip_imports_and_exports(source), "solo.ts").unwrap();
    assert_eq!(bundled, format!("{}\n", direct));
}

#[test]
fn test_bundle_dependency_precedes_importer() {
    let mut tree = SourceTree::new();
    tree.add_file(
        "plugin/lib.ts",
        "export const marker: string = \"library\";\nconst libBody = \"LIB_BODY\";",
    );
    tree.add_file(
        "plugin/entry.ts",
        "import { marker } from \"./lib\";\nconst entryBody = \"ENTRY_BODY\";",
    );
    let bundled = bundle_module(&tree, "plugin/entry.ts").unwrap();
    let lib_at = bundled.find("LIB_BODY").expect("library body missing");
    let entry_at = bundled.find("ENTRY_BODY").expect("entry body missing");
    assert!(lib_at < entry_at);
}

#[test]
fn test_bundle_two_file_cycle_terminates_each_body_once() {
    let mut tree = SourceTree::new();
    tree.add_file(
        "a.ts",
        "import { b } from \"./b\";\nexport const a = \"A_BODY\";",
    );
    tree.add_file(
        "b.ts",
        "import { a } from \"./a\";\nexport const b = \"B_BODY\";",
    );
    let bundled = bundle_module(&tree, "a.ts").unwrap();
    assert_eq!(bundled.matches("A_BODY").count(), 1);
    assert_eq!(bundled.matches("B_BODY").count(), 1);
    let b_at = bundled.find("B_BODY").unwrap();
    let a_at = bundled.find("A_BODY").unwrap();
    assert!(b_at < a_at);
}

#[test]
fn test_bundle_transpile_error_is_reported() {
    let mut tree = SourceTree::new();
    tree.add_file("entry.ts", "const broken: = ;;;");
    match bundle_module(&tree, "entry.ts") {
        Err(BundleError::Transpile(_)) => {}
        other => panic!("expected a transpile error, got {:?}", other),
    }
}

#[test]
fn test_resolve_import_extension_order() {
    let mut tree = SourceTree::new();
    tree.add_file("plugin/util.ts", "export const u = 1;");
    tree.add_file("plugin/widgets/index.ts", "export const w = 1;");
    assert_eq!(
        resolve_import(&tree, "./util", "plugin"),
        Some("plugin/util.ts".to_string())
    );
    assert_eq!(
        resolve_import(&tree, "./widgets", "plugin"),
        Some("plugin/widgets/index.ts".to_string())
    );
    assert_eq!(resolve_import(&tree, "./nothing", "plugin"), None);
}

#[test]
fn test_resolve_import_literal_path_wins() {
    let mut tree = SourceTree::new();
    tree.add_file("plugin/exact.js", "const x = 1;");
    tree.add_file("plugin/exact.js.ts", "const y = 2;");
    assert_eq!(
        resolve_import(&tree, "./exact.js", "plugin"),
        Some("plugin/exact.js".to_string())
    );
}

#[test]
fn test_normalize_path_dots() {
    assert_eq!(normalize_path("plugin/./lib/utils"), "plugin/lib/utils");
    assert_eq!(normalize_path("plugin/sub/../shared/bar"), "plugin/shared/bar");
    assert_eq!(normalize_path("../shared/x"), "../shared/x");
    assert_eq!(normalize_path("a//b"), "a/b");
}

#[test]
fn test_bundle_empty_source_file() {
    let mut tree = SourceTree::new();
    tree.add_file("empty.ts", "");
    let bundled = bundle_module(&tree, "empty.ts").unwrap();
    assert_eq!(bundled, "\n");
}
