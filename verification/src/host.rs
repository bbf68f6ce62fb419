//! The scripting host: owns the embedded interpreter, the event and action
//! registries, the pending-response set and the outbound command queue.
//!
//! All plugin code runs synchronously to completion on the host's thread.
//! Nothing here ever blocks on a response: an asynchronous call is recorded
//! as pending and a command is queued; the response is delivered back later
//! by request identifier, between script invocations.

use vstd::prelude::*;
use crate::bundle::{spec_bundle, BundleOutcome, SourceTree};
use crate::protocol::{CancelOutcome, DeliverOutcome, PendingSet, PluginCommand};
use crate::registry::{ActionRegistry, EventRegistry};
use crate::script::{
    action_call_snippet, handler_call_snippet, resolve_call_snippet, wrap_iife,
};
use crate::text::{ends_with, spec_ends_with, spec_starts_with};
use crate::transpile::{has_es_imports, spec_has_es_imports, transpile_typescript};

verus! {

#[verifier::external_type_specification]
#[verifier::external_body]
pub struct ExRuntime(rquickjs::Runtime);

#[verifier::external_type_specification]
#[verifier::external_body]
pub struct ExContext(rquickjs::Context);

/// Relies on rquickjs::Runtime::new: creates a fresh interpreter runtime, or
/// reports why none could be made.
#[verifier::external_body]
fn js_new_runtime() -> (r: Result<rquickjs::Runtime, String>)
{
    rquickjs::Runtime::new().map_err(|e| e.to_string())
}

/// Relies on rquickjs::Context::full: creates a fresh global context on the
/// runtime, or reports why none could be made.
#[verifier::external_body]
fn js_new_context(rt: &rquickjs::Runtime) -> (r: Result<rquickjs::Context, String>)
{
    rquickjs::Context::full(rt).map_err(|e| e.to_string())
}

/// Relies on rquickjs::Ctx::eval: evaluates script text in the global
/// context for its side effects; a thrown value is reported as the error.
#[verifier::external_body]
fn js_eval(ctx: &rquickjs::Context, code: &str) -> (r: Result<(), String>)
{
    ctx.with(|c| c.eval::<(), _>(code.as_bytes())).map_err(|e| e.to_string())
}

/// Relies on rquickjs::Ctx::eval: evaluates script text in the global
/// context and hands back its result coerced to a string; a thrown value is
/// reported as the error.
#[verifier::external_body]
fn js_eval_to_string(ctx: &rquickjs::Context, code: &str) -> (r: Result<String, String>)
{
    ctx.with(|c| c.eval::<String, _>(code.as_bytes())).map_err(|e| e.to_string())
}

/// The scripting host. One instance owns one interpreter; several instances
/// are fully independent — no ambient state is shared.
pub struct ScriptingHost {
    runtime: rquickjs::Runtime,
    context: rquickjs::Context,
    events: EventRegistry,
    actions: ActionRegistry,
    pending: PendingSet,
    outbox: Vec<PluginCommand>,
}

impl ScriptingHost {
    /// The pending-response set holds each identifier at most once.
    pub closed spec fn wf(&self) -> bool {
        self.pending.wf()
    }

    /// The handlers registered for an event, in registration order.
    pub closed spec fn spec_handlers(&self, event: Seq<char>) -> Seq<Seq<char>> {
        self.events.spec_handlers(event)
    }

    /// The handler registered for an action, if any.
    pub closed spec fn spec_action(&self, name: Seq<char>) -> Option<Seq<char>> {
        self.actions.spec_action(name)
    }

    /// The identifiers whose responses are still owed.
    pub closed spec fn spec_pending(&self) -> Set<u64> {
        self.pending@
    }

    /// The commands queued for the editor, oldest first.
    pub closed spec fn spec_outbox(&self) -> Seq<PluginCommand> {
        self.outbox@
    }

    /// Creates a host with a fresh interpreter, empty registries, no pending
    /// responses and an empty outbound queue.
    pub fn new() -> (r: Result<ScriptingHost, String>)
        ensures
            r matches Ok(h) ==> h.wf() && h.spec_pending() == Set::<u64>::empty()
                && h.spec_outbox() == Seq::<PluginCommand>::empty() && (forall|e: Seq<char>|
                h.spec_handlers(e) == Seq::<Seq<char>>::empty()) && (forall|a: Seq<char>|
                h.spec_action(a) is None),
    {
        let runtime = match js_new_runtime() {
            Ok(rt) => rt,
            Err(e) => {
                return Err(e);
            },
        };
        let context = match js_new_context(&runtime) {
            Ok(c) => c,
            Err(e) => {
                return Err(e);
            },
        };
        Ok(
            ScriptingHost {
                runtime,
                context,
                events: EventRegistry::new(),
                actions: ActionRegistry::new(),
                pending: PendingSet::new(),
                outbox: Vec::new(),
            },
        )
    }

    /// The interpreter context, for the embedding program to install its API
    /// bindings on before any plugin code runs.
    pub fn context(&self) -> &rquickjs::Context {
        &self.context
    }

    /// Registers a handler identifier for an event; duplicates are kept and
    /// all fire, in registration order.
    pub fn on(&mut self, event: &str, handler: &str)
        ensures
            final(self).wf() == old(self).wf(),
            final(self).spec_handlers(event@) == old(self).spec_handlers(event@).push(handler@),
            forall|n: Seq<char>|
                n != event@ ==> final(self).spec_handlers(n) == old(self).spec_handlers(n),
            final(self).spec_pending() == old(self).spec_pending(),
            final(self).spec_outbox() == old(self).spec_outbox(),
            forall|a: Seq<char>| final(self).spec_action(a) == old(self).spec_action(a),
    {
        self.events.on(event, handler);
    }

    /// Unregisters a handler identifier from an event: every occurrence is
    /// removed.
    pub fn off(&mut self, event: &str, handler: &str)
        ensures
            final(self).wf() == old(self).wf(),
            final(self).spec_handlers(event@) == old(self).spec_handlers(event@).filter(
                |h: Seq<char>| h != handler@,
            ),
            forall|n: Seq<char>|
                n != event@ ==> final(self).spec_handlers(n) == old(self).spec_handlers(n),
            final(self).spec_pending() == old(self).spec_pending(),
            final(self).spec_outbox() == old(self).spec_outbox(),
            forall|a: Seq<char>| final(self).spec_action(a) == old(self).spec_action(a),
    {
        self.events.off(event, handler);
    }

    /// Whether any handler is registered for an event.
    pub fn has_handlers(&self, event: &str) -> (r: bool)
        ensures
            r == (self.spec_handlers(event@).len() > 0),
    {
        self.events.has_handlers(event)
    }

    /// Registers an action handler — the last registration of a name wins —
    /// and forwards the registration to the editor as a command, so the
    /// action becomes invocable from outside the interpreter.
    pub fn register_command(&mut self, name: &str, handler: &str, description: Option<String>)
        ensures
            final(self).wf() == old(self).wf(),
            final(self).spec_action(name@) == Some(handler@),
            forall|a: Seq<char>|
                a != name@ ==> final(self).spec_action(a) == old(self).spec_action(a),
            final(self).spec_pending() == old(self).spec_pending(),
            final(self).spec_outbox().len() == old(self).spec_outbox().len() + 1,
            final(self).spec_outbox().drop_last() == old(self).spec_outbox(),
            (final(self).spec_outbox().last() matches PluginCommand::RegisterCommand {
                name: n,
                description: d,
                handler: h,
            } && n@ == name@ && h@ == handler@ && (match description {
                Some(given) => d@ == given@,
                None => d@ == name@,
            })),
            forall|e: Seq<char>| final(self).spec_handlers(e) == old(self).spec_handlers(e),
    {
        self.actions.register(name, handler);
        let desc = match description {
            Some(d) => d,
            None => name.to_owned(),
        };
        self.outbox.push(
            PluginCommand::RegisterCommand {
                name: name.to_owned(),
                description: desc,
                handler: handler.to_owned(),
            },
        );
    }

    /// Queues one command for the editor. The queue only grows; the editor's
    /// side drains it between script invocations.
    pub fn push_command(&mut self, command: PluginCommand)
        ensures
            final(self).wf() == old(self).wf(),
            final(self).spec_outbox() == old(self).spec_outbox().push(command),
            final(self).spec_pending() == old(self).spec_pending(),
            forall|e: Seq<char>| final(self).spec_handlers(e) == old(self).spec_handlers(e),
            forall|a: Seq<char>| final(self).spec_action(a) == old(self).spec_action(a),
    {
        self.outbox.push(command);
    }

    /// Starts an asynchronous call: the identifier — allocated exactly once
    /// by the caller's `RequestIds` — is marked pending and the correlated
    /// command is queued. The call returns immediately; nothing blocks.
    pub fn begin_async(&mut self, id: u64, method: &str, payload: &str)
        requires
            old(self).wf(),
        ensures
            final(self).wf(),
            final(self).spec_pending() == old(self).spec_pending().insert(id),
            final(self).spec_outbox().len() == old(self).spec_outbox().len() + 1,
            final(self).spec_outbox().drop_last() == old(self).spec_outbox(),
            (final(self).spec_outbox().last() matches PluginCommand::AsyncCall {
                id: i,
                method: m,
                payload: p,
            } && i == id && m@ == method@ && p@ == payload@),
            forall|e: Seq<char>| final(self).spec_handlers(e) == old(self).spec_handlers(e),
            forall|a: Seq<char>| final(self).spec_action(a) == old(self).spec_action(a),
    {
        self.pending.insert(id);
        self.outbox.push(
            PluginCommand::AsyncCall {
                id,
                method: method.to_owned(),
                payload: payload.to_owned(),
            },
        );
    }

    /// Delivers a response for a request identifier. If the identifier is
    /// still pending, the entry is removed — exactly once — and the
    /// registered completion is invoked with the payload. An unknown or
    /// already-consumed identifier is silently ignored: a cancellation may
    /// have removed the entry first, and that is not a protocol violation.
    pub fn deliver_response(&mut self, id: u64, payload: &str, is_error: bool) -> (r:
        DeliverOutcome)
        requires
            old(self).wf(),
        ensures
            final(self).wf(),
            r == (if old(self).spec_pending().contains(id) {
                DeliverOutcome::Delivered
            } else {
                DeliverOutcome::Ignored
            }),
            final(self).spec_pending() == old(self).spec_pending().remove(id),
            final(self).spec_outbox() == old(self).spec_outbox(),
            forall|e: Seq<char>| final(self).spec_handlers(e) == old(self).spec_handlers(e),
            forall|a: Seq<char>| final(self).spec_action(a) == old(self).spec_action(a),
    {
        if self.pending.remove(id) {
            let code = resolve_call_snippet(id, payload, is_error);
            let _ = js_eval(&self.context, code.as_str());
            DeliverOutcome::Delivered
        } else {
            DeliverOutcome::Ignored
        }
    }

    /// Cancels the asynchronous call with this identifier. If it is still
    /// pending, the single atomic removal wins the race against delivery —
    /// the original response, arriving later, then resolves nothing — and a
    /// cancellation command is queued. Cancelling after completion is a safe
    /// no-op reporting that nothing was cancelled.
    pub fn cancel(&mut self, id: u64) -> (r: CancelOutcome)
        requires
            old(self).wf(),
        ensures
            final(self).wf(),
            r == (if old(self).spec_pending().contains(id) {
                CancelOutcome::Cancelled
            } else {
                CancelOutcome::NotCancelled
            }),
            final(self).spec_pending() == old(self).spec_pending().remove(id),
            old(self).spec_pending().contains(id) ==> final(self).spec_outbox() == old(
                self,
            ).spec_outbox().push(PluginCommand::CancelRequest { id }),
            !old(self).spec_pending().contains(id) ==> final(self).spec_outbox() == old(
                self,
            ).spec_outbox(),
            forall|e: Seq<char>| final(self).spec_handlers(e) == old(self).spec_handlers(e),
            forall|a: Seq<char>| final(self).spec_action(a) == old(self).spec_action(a),
    {
        if self.pending.remove(id) {
            self.outbox.push(PluginCommand::CancelRequest { id });
            CancelOutcome::Cancelled
        } else {
            CancelOutcome::NotCancelled
        }
    }

    /// Hands out the queued commands, oldest first, leaving the queue empty.
    pub fn take_commands(&mut self) -> (r: Vec<PluginCommand>)
        ensures
            final(self).wf() == old(self).wf(),
            r@ == old(self).spec_outbox(),
            final(self).spec_outbox() == Seq::<PluginCommand>::empty(),
            final(self).spec_pending() == old(self).spec_pending(),
            forall|e: Seq<char>| final(self).spec_handlers(e) == old(self).spec_handlers(e),
            forall|a: Seq<char>| final(self).spec_action(a) == old(self).spec_action(a),
    {
        let ghost orig = self.outbox@;
        let ghost pending0 = self.pending;
        let ghost events0 = self.events;
        let ghost actions0 = self.actions;
        let mut reversed: Vec<PluginCommand> = Vec::new();
        while self.outbox.len() > 0
            invariant
                orig == self.outbox@ + reversed@.reverse(),
                self.pending == pending0,
                self.events == events0,
                self.actions == actions0,
            decreases self.outbox@.len(),
        {
            let ghost ob = self.outbox@;
            let ghost rv = reversed@;
            match self.outbox.pop() {
                Some(c) => {
                    reversed.push(c);
                    proof {
                        assert(reversed@.reverse() =~= seq![ob.last()] + rv.reverse());
                        assert(self.outbox@ + reversed@.reverse() =~= orig);
                    }
                },
                None => {},
            }
        }
        let mut result: Vec<PluginCommand> = Vec::new();
        proof {
            assert(orig =~= result@ + reversed@.reverse());
        }
        while reversed.len() > 0
            invariant
                orig == result@ + reversed@.reverse(),
                self.outbox@.len() == 0,
                self.pending == pending0,
                self.events == events0,
                self.actions == actions0,
            decreases reversed@.len(),
        {
            let ghost rv = reversed@;
            match reversed.pop() {
                Some(c) => {
                    result.push(c);
                    proof {
                        assert(rv.reverse() =~= seq![rv.last()] + rv.drop_last().reverse());
                        assert(result@ + reversed@.reverse() =~= orig);
                    }
                },
                None => {},
            }
        }
        proof {
            assert(reversed@.reverse() =~= Seq::<PluginCommand>::empty());
            assert(orig =~= result@);
            assert(self.outbox@ =~= Seq::<PluginCommand>::empty());
        }
        result
    }

    /// The number of queued commands.
    pub fn command_count(&self) -> (r: usize)
        ensures
            r == self.spec_outbox().len(),
    {
        self.outbox.len()
    }

    /// Evaluates script text once, wrapped in an immediately-invoked function
    /// expression, so top-level declarations live in a private local scope. A
    /// thrown value fails the call with an error naming the source; the host
    /// and other loaded plugins are unaffected either way.
    ///
    /// The private scope does not promote local declarations: a script that
    /// registers a handler identifier must bind the function on `globalThis`
    /// itself, because dispatch resolves handlers by name in the global
    /// namespace at call time.
    pub fn execute_js(&mut self, code: &str, source_name: &str) -> (r: Result<(), String>)
        ensures
            *final(self) == *old(self),
            r matches Err(m) ==> spec_starts_with(
                m@,
                "script error in "@ + source_name@ + ": "@,
            ),
    {
        let wrapped = wrap_iife(code);
        match js_eval(&self.context, wrapped.as_str()) {
            Ok(()) => Ok(()),
            Err(e) => {
                let mut msg = "script error in ".to_owned();
                msg.append(source_name);
                msg.append(": ");
                msg.append(e.as_str());
                proof {
                    assert(msg@.subrange(
                        0,
                        ("script error in "@ + source_name@ + ": "@).len() as int,
                    ) =~= "script error in "@ + source_name@ + ": "@);
                }
                Err(msg)
            },
        }
    }

    /// Evaluates one expression and hands back its result as text. This is
    /// the host's window into interpreter state, used to observe what loaded
    /// plugin code did.
    pub fn eval_expression(&mut self, code: &str) -> (r: Result<String, String>)
        ensures
            *final(self) == *old(self),
    {
        js_eval_to_string(&self.context, code)
    }

    /// Loads one plugin module. A unit with static import syntax is bundled
    /// against the given source tree; a plain typed unit is transpiled; plain
    /// script text runs as it is. The result is evaluated inside a private
    /// scope, so a failure — a bundling error, a transpile error, or a thrown
    /// evaluation — is terminal for this one load attempt and leaves the
    /// host and every other loaded plugin untouched.
    ///
    /// Dispatch later looks handlers up by name in the global namespace, not
    /// by reference: a module that registers a handler identifier must bind
    /// the function on `globalThis` itself, since the private scope does not
    /// promote its local declarations.
    pub fn load_module_with_source(
        &mut self,
        path: &str,
        source: &str,
        tree: &SourceTree,
    ) -> (r: Result<(), String>)
        ensures
            *final(self) == *old(self),
            spec_has_es_imports(source@) && !(spec_bundle(tree@, path@)
                matches BundleOutcome::Done(_, _)) ==> (r matches Err(m) && spec_starts_with(
                m@,
                "bundling failed for "@ + path@,
            )),
            !spec_has_es_imports(source@) && spec_ends_with(path@, ".ts"@)
                && crate::bundle::spec_transpile_fails(source@, path@) ==> r is Err,
    {
        if has_es_imports(source) {
            match crate::bundle::bundle_module(tree, path) {
                Ok(bundled) => self.execute_js(bundled.as_str(), path),
                Err(_) => {
                    let mut msg = "bundling failed for ".to_owned();
                    msg.append(path);
                    proof {
                        assert(msg@.subrange(0, ("bundling failed for "@ + path@).len() as int)
                            =~= "bundling failed for "@ + path@);
                    }
                    Err(msg)
                },
            }
        } else {
            if ends_with(path, ".ts") {
                match transpile_typescript(source, path) {
                    Ok(js) => self.execute_js(js.as_str(), path),
                    Err(_) => {
                        let mut msg = "transpile failed for ".to_owned();
                        msg.append(path);
                        Err(msg)
                    },
                }
            } else {
                self.execute_js(source, path)
            }
        }
    }

    /// Queues a status-bar message for the editor.
    pub fn send_status(&mut self, message: String)
        ensures
            final(self).wf() == old(self).wf(),
            (final(self).spec_outbox() == old(self).spec_outbox().push(
                PluginCommand::SetStatus { message },
            )),
            final(self).spec_pending() == old(self).spec_pending(),
            forall|e: Seq<char>| final(self).spec_handlers(e) == old(self).spec_handlers(e),
            forall|a: Seq<char>| final(self).spec_action(a) == old(self).spec_action(a),
    {
        self.outbox.push(PluginCommand::SetStatus { message });
    }

    /// Polls the interpreter's event loop once. The embedded interpreter is
    /// synchronous and has none, so there is never pending work.
    pub fn poll_event_loop_once(&mut self) -> (r: bool)
        ensures
            *final(self) == *old(self),
            r == false,
    {
        false
    }

    /// Emits an event: every handler registered for the name is invoked
    /// synchronously, in registration order, each occurrence once. A handler
    /// that throws, or is no longer a function in the global namespace, is
    /// tolerated and does not stop the handlers after it; emitting never
    /// fails, and an event with no handlers is accepted.
    pub fn emit(&mut self, event_name: &str, event_data: &str) -> (r: Result<bool, String>)
        ensures
            *final(self) == *old(self),
            r matches Ok(accepted) && accepted == true,
    {
        let handlers = self.events.handlers_for(event_name);
        let n = handlers.len();
        let mut i: usize = 0;
        while i < n
            invariant
                self == old(self),
                n == handlers@.len(),
            decreases n - i,
        {
            let code = handler_call_snippet(handlers[i].as_str(), event_data);
            let _ = js_eval(&self.context, code.as_str());
            i += 1;
        }
        Ok(true)
    }

    /// Executes the action registered under `action_name`, invoking its
    /// handler with no arguments and tolerating a throw. An unregistered
    /// action is a no-op, not an error to the caller.
    pub fn execute_action(&mut self, action_name: &str) -> (r: Result<(), String>)
        ensures
            *final(self) == *old(self),
            r is Ok,
    {
        match self.actions.lookup(action_name) {
            Some(handler) => {
                let code = action_call_snippet(handler.as_str());
                let _ = js_eval(&self.context, code.as_str());
                Ok(())
            },
            None => Ok(()),
        }
    }
}

} // verus!
