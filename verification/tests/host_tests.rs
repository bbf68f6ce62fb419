use fresh::bundle::SourceTree;
use fresh::host::ScriptingHost;
use fresh::protocol::{
    CancelOutcome, DeliverOutcome, PendingSet, PluginCommand, RequestIds,
};
use fresh::script::{decimal_string, quote_string};

#[test]
fn test_quickjs_backend_creation() {
    let backend = ScriptingHost::new();
    assert!(backend.is_ok());
}

#[test]
fn test_execute_simple_js() {
    let mut backend = ScriptingHost::new().unwrap();
    let result = backend.execute_js("const x = 1 + 2;", "test.js");
    assert!(result.is_ok());
}

#[test]
fn test_event_handler_registration() {
    let mut backend = ScriptingHost::new().unwrap();
    assert!(!backend.has_handlers("test_event"));
    backend.on("test_event", "testHandler");
    assert!(backend.has_handlers("test_event"));
}

#[test]
fn test_request_ids_monotonic_from_one() {
    let mut ids = RequestIds::new();
    let first = ids.allocate();
    let second = ids.allocate();
    let third = ids.allocate();
    assert_eq!(first, 1);
    assert_eq!(second, 2);
    assert_eq!(third, 3);
    assert!(first < second && second < third);
}

#[test]
fn test_pending_set_single_removal() {
    let mut pending = PendingSet::new();
    pending.insert(7);
    assert!(pending.contains(7));
    assert!(pending.remove(7));
    assert!(!pending.contains(7));
    assert!(!pending.remove(7));
}

#[test]
fn test_cancel_then_deliver_is_ignored() {
    let mut host = ScriptingHost::new().unwrap();
    host.begin_async(1, "readLargeBuffer", "{}");
    assert_eq!(host.cancel(1), CancelOutcome::Cancelled);
    assert_eq!(host.deliver_response(1, "late", false), DeliverOutcome::Ignored);
}

#[test]
fn test_deliver_then_cancel_not_cancelled() {
    let mut host = ScriptingHost::new().unwrap();
    host.begin_async(2, "spawnTool", "{}");
    assert_eq!(host.deliver_response(2, "done", false), DeliverOutcome::Delivered);
    assert_eq!(host.cancel(2), CancelOutcome::NotCancelled);
}

#[test]
fn test_deliver_unknown_id_is_ignored() {
    let mut host = ScriptingHost::new().unwrap();
    assert_eq!(host.deliver_response(99, "{}", false), DeliverOutcome::Ignored);
}

#[test]
fn test_emit_isolates_throwing_handler() {
    let mut host = ScriptingHost::new().unwrap();
    host.execute_js(
        "globalThis.h1 = function(d) { throw new Error('boom'); };\n\
         globalThis.h2 = function(d) { globalThis.__second = 'ran'; };",
        "handlers.js",
    )
    .unwrap();
    host.on("x", "h1");
    host.on("x", "h2");
    let accepted = host.emit("x", "{}").unwrap();
    assert!(accepted);
    let seen = host.eval_expression("String(globalThis.__second)").unwrap();
    assert_eq!(seen, "ran");
}

#[test]
fn test_off_removes_handler_and_duplicates_fire_twice() {
    let mut host = ScriptingHost::new().unwrap();
    host.execute_js(
        "globalThis.__count = 0;\nglobalThis.h1 = function(d) { globalThis.__count += 1; };",
        "handlers.js",
    )
    .unwrap();
    host.on("save", "h1");
    host.off("save", "h1");
    host.emit("save", "{}").unwrap();
    let count = host.eval_expression("String(globalThis.__count)").unwrap();
    assert_eq!(count, "0");

    host.on("save", "h1");
    host.on("save", "h1");
    host.emit("save", "{}").unwrap();
    let count = host.eval_expression("String(globalThis.__count)").unwrap();
    assert_eq!(count, "2");
}

#[test]
fn test_emit_with_no_handlers_is_accepted() {
    let mut host = ScriptingHost::new().unwrap();
    assert_eq!(host.emit("nobody-listens", "{}").unwrap(), true);
}

#[test]
fn test_emit_parses_payload() {
    let mut host = ScriptingHost::new().unwrap();
    host.execute_js(
        "globalThis.keep = function(d) { globalThis.__payload = String(d.key) + ':' + d.n; };",
        "handlers.js",
    )
    .unwrap();
    host.on("data", "keep");
    host.emit("data", "{\"key\": \"value\", \"n\": 3}").unwrap();
    let back = host.eval_expression("globalThis.__payload").unwrap();
    assert_eq!(back, "value:3");
}

#[test]
fn test_emit_tolerates_malformed_payload() {
    let mut host = ScriptingHost::new().unwrap();
    host.execute_js(
        "globalThis.never = function(d) { globalThis.__reached = 'yes'; };",
        "handlers.js",
    )
    .unwrap();
    host.on("data", "never");
    assert_eq!(host.emit("data", "not json at all").unwrap(), true);
    let reached = host.eval_expression("String(globalThis.__reached)").unwrap();
    assert_eq!(reached, "undefined");
}

#[test]
fn test_execute_action_last_registration_wins() {
    let mut host = ScriptingHost::new().unwrap();
    host.execute_js(
        "globalThis.first = function() { globalThis.__ran = 'first'; };\n\
         globalThis.second = function() { globalThis.__ran = 'second'; };",
        "actions.js",
    )
    .unwrap();
    host.register_command("do-it", "first", None);
    host.register_command("do-it", "second", None);
    host.execute_action("do-it").unwrap();
    let ran = host.eval_expression("String(globalThis.__ran)").unwrap();
    assert_eq!(ran, "second");
}

#[test]
fn test_execute_action_unknown_is_noop() {
    let mut host = ScriptingHost::new().unwrap();
    assert!(host.execute_action("nothing-here").is_ok());
}

#[test]
fn test_register_command_forwards_to_editor() {
    let mut host = ScriptingHost::new().unwrap();
    host.register_command("palette-entry", "handler", Some("A test entry".to_string()));
    let commands = host.take_commands();
    assert_eq!(commands.len(), 1);
    match &commands[0] {
        PluginCommand::RegisterCommand { name, description, handler } => {
            assert_eq!(name, "palette-entry");
            assert_eq!(description, "A test entry");
            assert_eq!(handler, "handler");
        }
        other => panic!("expected a register command, got {:?}", other),
    }
    assert_eq!(host.command_count(), 0);
}

#[test]
fn test_begin_async_queues_correlated_command() {
    let mut host = ScriptingHost::new().unwrap();
    host.begin_async(41, "delay", "{\"ms\":5}");
    let commands = host.take_commands();
    assert_eq!(commands.len(), 1);
    match &commands[0] {
        PluginCommand::AsyncCall { id, method, payload } => {
            assert_eq!(*id, 41);
            assert_eq!(method, "delay");
            assert_eq!(payload, "{\"ms\":5}");
        }
        other => panic!("expected an async call, got {:?}", other),
    }
}

#[test]
fn test_cancel_queues_cancellation_command() {
    let mut host = ScriptingHost::new().unwrap();
    host.begin_async(5, "spawnProcess", "{}");
    host.take_commands();
    assert_eq!(host.cancel(5), CancelOutcome::Cancelled);
    let commands = host.take_commands();
    assert_eq!(commands.len(), 1);
    assert!(matches!(commands[0], PluginCommand::CancelRequest { id: 5 }));
}

#[test]
fn test_load_module_transpiles_typed_source() {
    let mut host = ScriptingHost::new().unwrap();
    let tree = SourceTree::new();
    let source = "const n: number = 2;\nglobalThis.__loaded = n;";
    host.load_module_with_source("plugin.ts", source, &tree).unwrap();
    let n = host.eval_expression("String(globalThis.__loaded)").unwrap();
    assert_eq!(n, "2");
}

#[test]
fn test_load_module_bundles_imports_in_dependency_order() {
    let mut host = ScriptingHost::new().unwrap();
    let mut tree = SourceTree::new();
    tree.add_file(
        "plug/lib.ts",
        "globalThis.__order = globalThis.__order || [];\nglobalThis.__order.push('dep');\nexport const x = 1;",
    );
    tree.add_file(
        "plug/entry.ts",
        "import { x } from \"./lib\";\nglobalThis.__order = globalThis.__order || [];\nglobalThis.__order.push('main');",
    );
    let entry_source = "import { x } from \"./lib\";";
    host.load_module_with_source("plug/entry.ts", entry_source, &tree).unwrap();
    let order = host.eval_expression("globalThis.__order.join(',')").unwrap();
    assert_eq!(order, "dep,main");
}

#[test]
fn test_load_module_fails_on_unresolvable_imports() {
    let mut host = ScriptingHost::new().unwrap();
    let tree = SourceTree::new();
    let source = "import { gone } from \"./missing\";\nconst a = gone;";
    let result = host.load_module_with_source("broken.ts", source, &tree);
    match result {
        Err(message) => assert!(message.contains("broken.ts")),
        Ok(()) => panic!("a failed bundling must fail this load attempt"),
    }
    // The failure is terminal for that one plugin only: the host still loads
    // others.
    host.load_module_with_source("fine.js", "globalThis.__fine = 1;", &tree).unwrap();
    assert_eq!(host.eval_expression("String(globalThis.__fine)").unwrap(), "1");
}

#[test]
fn test_load_module_failure_is_isolated() {
    let mut host = ScriptingHost::new().unwrap();
    let tree = SourceTree::new();
    assert!(host.load_module_with_source("bad.js", "throw new Error('no');", &tree).is_err());
    // The host and later loads are unaffected.
    host.load_module_with_source("good.js", "globalThis.__ok = 1;", &tree).unwrap();
    let ok = host.eval_expression("String(globalThis.__ok)").unwrap();
    assert_eq!(ok, "1");
}

#[test]
fn test_transpiled_module_evaluates_in_plain_interpreter() {
    let mut host = ScriptingHost::new().unwrap();
    let typed = "interface P { n: number }\nconst p: P = { n: 9 };\nglobalThis.__p = p.n;";
    let js = fresh::transpile::transpile_typescript(typed, "p.ts").unwrap();
    host.execute_js(&js, "p.ts").unwrap();
    let n = host.eval_expression("String(globalThis.__p)").unwrap();
    assert_eq!(n, "9");
}

#[test]
fn test_quote_string_round_trips_through_interpreter() {
    let mut host = ScriptingHost::new().unwrap();
    let tricky = "a\"b\\c\nnewline\ttab";
    let quoted = quote_string(tricky);
    let back = host.eval_expression(&quoted).unwrap();
    assert_eq!(back, tricky);
}

#[test]
fn test_decimal_string_renders_digits() {
    assert_eq!(decimal_string(0), "0");
    assert_eq!(decimal_string(12345), "12345");
    assert_eq!(decimal_string(u64::MAX), "18446744073709551615");
}

#[test]
fn test_delivery_resolves_registered_completion() {
    let mut host = ScriptingHost::new().unwrap();
    host.execute_js(
        "globalThis.__freshComplete = function(id, payload, isError) {\n\
             globalThis.__completed = id + ':' + payload + ':' + isError;\n\
         };",
        "completion.js",
    )
    .unwrap();
    host.begin_async(12, "readFile", "{}");
    assert_eq!(host.deliver_response(12, "contents", false), DeliverOutcome::Delivered);
    let seen = host.eval_expression("String(globalThis.__completed)").unwrap();
    assert_eq!(seen, "12:contents:false");
}

#[test]
fn test_send_status_and_event_loop_poll() {
    let mut host = ScriptingHost::new().unwrap();
    host.send_status("ready".to_string());
    let commands = host.take_commands();
    assert!(matches!(&commands[0], PluginCommand::SetStatus { message } if message == "ready"));
    assert_eq!(host.poll_event_loop_once(), false);
}
