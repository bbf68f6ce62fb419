use fresh::transpile::{
    extract_local_imports, has_es_imports, has_es_module_syntax, strip_imports_and_exports,
    transpile_typescript, TranspileError,
};

#[test]
fn test_transpile_basic_typescript() {
    let source = r#"
            const x: number = 42;
            function greet(name: string): string {
                return `Hello, ${name}!`;
            }
        "#;

    let result = transpile_typescript(source, "test.ts").unwrap();
    assert!(result.contains("const x = 42"));
    assert!(result.contains("function greet(name)"));
    assert!(!result.contains(": number"));
    assert!(!result.contains(": string"));
}

#[test]
fn test_transpile_interface() {
    let source = r#"
            interface User {
                name: string;
                age: number;
            }
            const user: User = { name: "Alice", age: 30 };
        "#;

    let result = transpile_typescript(source, "test.ts").unwrap();
    assert!(!result.contains("interface"));
    assert!(result.contains("const user = {"));
}

#[test]
fn test_transpile_type_alias() {
    let source = r#"
            type ID = number | string;
            const id: ID = 123;
        "#;

    let result = transpile_typescript(source, "test.ts").unwrap();
    assert!(!result.contains("type ID"));
    assert!(result.contains("const id = 123"));
}

#[test]
fn test_has_es_imports() {
    assert!(has_es_imports("import { foo } from './lib'"));
    assert!(has_es_imports("import foo from 'bar'"));
    assert!(!has_es_imports("const x = 1;"));
    // The detector is textual and does not parse comments; a false positive
    // only means a unit is bundled when it need not be.
    assert!(has_es_imports("// import foo from 'bar'"));
}

#[test]
fn test_extract_local_imports() {
    let source = r#"
            import { foo } from "./lib/utils";
            import bar from "../shared/bar";
            import external from "external-package";
            const x = 1;
        "#;

    let imports = extract_local_imports(source);
    assert_eq!(imports.len(), 2);
    assert!(imports.contains(&"./lib/utils".to_string()));
    assert!(imports.contains(&"../shared/bar".to_string()));
    assert!(!imports.iter().any(|i| i.contains("external")));
}

#[test]
fn test_strip_imports_and_exports() {
    let source = r#"import { foo } from "./lib";
import bar from "../bar";
export const API_VERSION = 1;
export function greet() { return "hi"; }
export interface User { name: string; }
const x = foo() + bar();"#;

    let stripped = strip_imports_and_exports(source);
    assert!(!stripped.contains("import { foo }"));
    assert!(!stripped.contains("import bar from"));
    assert!(!stripped.contains("export const"));
    assert!(!stripped.contains("export function"));
    assert!(!stripped.contains("export interface"));
    assert!(stripped.contains("const API_VERSION = 1"));
    assert!(stripped.contains("function greet()"));
    assert!(stripped.contains("interface User"));
    assert!(stripped.contains("const x = foo() + bar();"));
}

#[test]
fn test_has_es_module_syntax_exports_only() {
    assert!(has_es_module_syntax("export const a = 1;"));
    assert!(has_es_module_syntax("  export function f() {}"));
    assert!(!has_es_module_syntax("const a = 1;"));
}

#[test]
fn test_transpile_syntax_error_collects_messages() {
    let result = transpile_typescript("const x: = ;;;", "bad.ts");
    match result {
        Err(TranspileError::Syntax(messages)) => {
            assert!(!messages.is_empty());
        }
        other => panic!("expected a syntax error, got {:?}", other),
    }
}

#[test]
fn test_transpile_deterministic() {
    let source = "const x: number = 1;\nfunction f(a: string) { return a; }\n";
    let first = transpile_typescript(source, "unit.ts").unwrap();
    let second = transpile_typescript(source, "unit.ts").unwrap();
    assert_eq!(first, second);
}

#[test]
fn test_strip_keeps_declaration_names() {
    let stripped = strip_imports_and_exports("export let counter = 0;\nexport class Widget {}");
    assert!(stripped.contains("let counter = 0;"));
    assert!(stripped.contains("class Widget {}"));
}

#[test]
fn test_strip_drops_default_and_reexports() {
    let source = "export default foo;\nexport { Bar } from './bar';\nconst keep = 1;";
    let stripped = strip_imports_and_exports(source);
    assert!(!stripped.contains("export default"));
    assert!(!stripped.contains("Bar"));
    assert!(stripped.contains("const keep = 1;"));
}
