//! Builders for the script snippets the host evaluates: scope wrappers,
//! handler invocations and response resolutions. Payload strings are embedded
//! as quoted script string literals, so quoting is defined and proved here.

use vstd::prelude::*;

verus! {

/// The escape of one character inside a quoted script string literal.
pub open spec fn spec_escape_char(c: char) -> Seq<char> {
    if c == '"' {
        seq!['\\', '"']
    } else if c == '\\' {
        seq!['\\', '\\']
    } else if c == '\n' {
        seq!['\\', 'n']
    } else if c == '\r' {
        seq!['\\', 'r']
    } else if c == '\t' {
        seq!['\\', 't']
    } else if c == '\u{8}' {
        seq!['\\', 'b']
    } else if c == '\u{c}' {
        seq!['\\', 'f']
    } else if (c as u32) < 32 {
        seq!['\\', 'u', '0', '0', spec_hex_digit((c as u32) as int / 16), spec_hex_digit(
            (c as u32) as int % 16,
        )]
    } else {
        seq![c]
    }
}

/// A hexadecimal digit, lower case.
pub open spec fn spec_hex_digit(n: int) -> char {
    if n == 0 {
        '0'
    } else if n == 1 {
        '1'
    } else if n == 2 {
        '2'
    } else if n == 3 {
        '3'
    } else if n == 4 {
        '4'
    } else if n == 5 {
        '5'
    } else if n == 6 {
        '6'
    } else if n == 7 {
        '7'
    } else if n == 8 {
        '8'
    } else if n == 9 {
        '9'
    } else if n == 10 {
        'a'
    } else if n == 11 {
        'b'
    } else if n == 12 {
        'c'
    } else if n == 13 {
        'd'
    } else if n == 14 {
        'e'
    } else {
        'f'
    }
}

/// The body of a quoted script string literal for `s`.
pub open spec fn spec_escape(s: Seq<char>) -> Seq<char>
    decreases s.len(),
{
    if s.len() == 0 {
        Seq::empty()
    } else {
        spec_escape(s.drop_last()) + spec_escape_char(s.last())
    }
}

/// A quoted script string literal holding exactly the text `s`.
pub open spec fn spec_quote(s: Seq<char>) -> Seq<char> {
    seq!['"'] + spec_escape(s) + seq!['"']
}

/// Appends the escape of one character to `out`.
fn push_escaped(out: &mut String, s: &str, i: usize)
    requires
        i < s@.len(),
    ensures
        final(out)@ == old(out)@ + spec_escape_char(s@[i as int]),
{
    let slen = s.unicode_len();
    let c = s.get_char(i);
    if c == '"' {
        out.append("\\\"");
        proof {
            reveal_strlit("\\\"");
            assert("\\\""@ =~= spec_escape_char(s@[i as int]));
        }
    } else if c == '\\' {
        out.append("\\\\");
        proof {
            reveal_strlit("\\\\");
            assert("\\\\"@ =~= spec_escape_char(s@[i as int]));
        }
    } else if c == '\n' {
        out.append("\\n");
        proof {
            reveal_strlit("\\n");
            assert("\\n"@ =~= spec_escape_char(s@[i as int]));
        }
    } else if c == '\r' {
        out.append("\\r");
        proof {
            reveal_strlit("\\r");
            assert("\\r"@ =~= spec_escape_char(s@[i as int]));
        }
    } else if c == '\t' {
        out.append("\\t");
        proof {
            reveal_strlit("\\t");
            assert("\\t"@ =~= spec_escape_char(s@[i as int]));
        }
    } else if c == '\u{8}' {
        out.append("\\b");
        proof {
            reveal_strlit("\\b");
            assert("\\b"@ =~= spec_escape_char(s@[i as int]));
        }
    } else if c == '\u{c}' {
        out.append("\\f");
        proof {
            reveal_strlit("\\f");
            assert("\\f"@ =~= spec_escape_char(s@[i as int]));
        }
    } else if (c as u32) < 32 {
        out.append("\\u00");
        let n = c as u32;
        push_hex_digit(out, n / 16);
        push_hex_digit(out, n % 16);
        proof {
            reveal_strlit("\\u00");
            assert(old(out)@ + "\\u00"@ + seq![spec_hex_digit(n as int / 16)] + seq![
                spec_hex_digit(n as int % 16),
            ] =~= old(out)@ + spec_escape_char(s@[i as int]));
        }
    } else {
        let piece = s.substring_char(i, i + 1);
        out.append(piece);
        proof {
            assert(s@.subrange(i as int, i as int + 1) =~= seq![s@[i as int]]);
            assert(seq![s@[i as int]] =~= spec_escape_char(s@[i as int]));
        }
    }
}

/// Appends one hexadecimal digit to `out`.
pub(crate) fn push_hex_digit(out: &mut String, n: u32)
    requires
        n < 16,
    ensures
        final(out)@ == old(out)@ + seq![spec_hex_digit(n as int)],
{
    let d = if n == 0 {
        "0"
    } else if n == 1 {
        "1"
    } else if n == 2 {
        "2"
    } else if n == 3 {
        "3"
    } else if n == 4 {
        "4"
    } else if n == 5 {
        "5"
    } else if n == 6 {
        "6"
    } else if n == 7 {
        "7"
    } else if n == 8 {
        "8"
    } else if n == 9 {
        "9"
    } else if n == 10 {
        "a"
    } else if n == 11 {
        "b"
    } else if n == 12 {
        "c"
    } else if n == 13 {
        "d"
    } else if n == 14 {
        "e"
    } else {
        "f"
    };
    out.append(d);
    proof {
        reveal_strlit("0");
        reveal_strlit("1");
        reveal_strlit("2");
        reveal_strlit("3");
        reveal_strlit("4");
        reveal_strlit("5");
        reveal_strlit("6");
        reveal_strlit("7");
        reveal_strlit("8");
        reveal_strlit("9");
        reveal_strlit("a");
        reveal_strlit("b");
        reveal_strlit("c");
        reveal_strlit("d");
        reveal_strlit("e");
        reveal_strlit("f");
        assert(d@ =~= seq![spec_hex_digit(n as int)]);
    }
}

/// Quotes `s` as a script string literal: the payload round-trips through the
/// interpreter's string parser unchanged.
pub fn quote_string(s: &str) -> (r: String)
    ensures
        r@ == spec_quote(s@),
{
    let mut out = String::new();
    out.append("\"");
    proof {
        reveal_strlit("\"");
        assert(out@ =~= seq!['"']);
    }
    let n = s.unicode_len();
    let mut i: usize = 0;
    while i < n
        invariant
            0 <= i <= n,
            n == s@.len(),
            out@ == seq!['"'] + spec_escape(s@.subrange(0, i as int)),
        decreases n - i,
    {
        push_escaped(&mut out, s, i);
        proof {
            assert(s@.subrange(0, i as int + 1).drop_last() =~= s@.subrange(0, i as int));
            assert(s@.subrange(0, i as int + 1).last() == s@[i as int]);
            assert(out@ =~= seq!['"'] + spec_escape(s@.subrange(0, i as int + 1)));
        }
        i += 1;
    }
    proof {
        assert(s@.subrange(0, n as int) =~= s@);
    }
    out.append("\"");
    proof {
        reveal_strlit("\"");
        assert(out@ =~= spec_quote(s@));
    }
    out
}

/// The decimal digit character for `n`.
pub open spec fn spec_dec_digit(n: int) -> char {
    if n == 0 {
        '0'
    } else if n == 1 {
        '1'
    } else if n == 2 {
        '2'
    } else if n == 3 {
        '3'
    } else if n == 4 {
        '4'
    } else if n == 5 {
        '5'
    } else if n == 6 {
        '6'
    } else if n == 7 {
        '7'
    } else if n == 8 {
        '8'
    } else {
        '9'
    }
}

/// The decimal digits of `n`, most significant first.
pub open spec fn spec_decimal(n: int) -> Seq<char>
    decreases n,
{
    if n < 10 {
        seq![spec_dec_digit(n)]
    } else {
        spec_decimal(n / 10).push(spec_dec_digit(n % 10))
    }
}

/// Appends one decimal digit to `out`.
fn push_dec_digit(out: &mut String, n: u64)
    requires
        n < 10,
    ensures
        final(out)@ == old(out)@ + seq![spec_dec_digit(n as int)],
{
    let d = if n == 0 {
        "0"
    } else if n == 1 {
        "1"
    } else if n == 2 {
        "2"
    } else if n == 3 {
        "3"
    } else if n == 4 {
        "4"
    } else if n == 5 {
        "5"
    } else if n == 6 {
        "6"
    } else if n == 7 {
        "7"
    } else if n == 8 {
        "8"
    } else {
        "9"
    };
    out.append(d);
    proof {
        reveal_strlit("0");
        reveal_strlit("1");
        reveal_strlit("2");
        reveal_strlit("3");
        reveal_strlit("4");
        reveal_strlit("5");
        reveal_strlit("6");
        reveal_strlit("7");
        reveal_strlit("8");
        reveal_strlit("9");
        assert(d@ =~= seq![spec_dec_digit(n as int)]);
    }
}

/// Appends the decimal rendering of `n` to `out`.
fn push_decimal(out: &mut String, n: u64)
    ensures
        final(out)@ == old(out)@ + spec_decimal(n as int),
    decreases n,
{
    if n < 10 {
        push_dec_digit(out, n);
    } else {
        push_decimal(out, n / 10);
        push_dec_digit(out, n % 10);
    }
}

/// The decimal rendering of an identifier.
pub fn decimal_string(n: u64) -> (r: String)
    ensures
        r@ == spec_decimal(n as int),
{
    let mut out = String::new();
    push_decimal(&mut out, n);
    out
}

/// A module body wrapped in an immediately-invoked function expression, the
/// private local scope modules are evaluated in.
pub open spec fn spec_iife(code: Seq<char>) -> Seq<char> {
    "(function() {\n"@ + code + "\n})();"@
}

/// Wraps a module body in its private scope.
pub fn wrap_iife(code: &str) -> (r: String)
    ensures
        r@ == spec_iife(code@),
{
    let mut out = "(function() {\n".to_owned();
    out.append(code);
    out.append("\n})();");
    out
}

/// The snippet that invokes one event handler by name with a parsed payload:
/// the handler is looked up in the global namespace at call time, a missing
/// or non-function binding is tolerated, and a throwing handler is caught so
/// that dispatch continues.
pub open spec fn spec_handler_call(handler: Seq<char>, data: Seq<char>) -> Seq<char> {
    "(function() { try { const data = JSON.parse("@ + spec_quote(data)
        + "); if (typeof globalThis."@ + handler + " === 'function') { globalThis."@ + handler
        + "(data); } } catch (e) { console.error('handler failed'); } })();"@
}

/// Builds the invocation snippet for one handler.
pub fn handler_call_snippet(handler: &str, data: &str) -> (r: String)
    ensures
        r@ == spec_handler_call(handler@, data@),
{
    let mut out = "(function() { try { const data = JSON.parse(".to_owned();
    let q = quote_string(data);
    out.append(q.as_str());
    out.append("); if (typeof globalThis.");
    out.append(handler);
    out.append(" === 'function') { globalThis.");
    out.append(handler);
    out.append("(data); } } catch (e) { console.error('handler failed'); } })();");
    out
}

/// The snippet that invokes one action handler by name with no arguments,
/// tolerating a missing binding and catching a throw.
pub open spec fn spec_action_call(handler: Seq<char>) -> Seq<char> {
    "(function() { try { if (typeof globalThis."@ + handler + " === 'function') { globalThis."@
        + handler + "(); } } catch (e) { console.error('action failed'); } })();"@
}

/// Builds the invocation snippet for one action handler.
pub fn action_call_snippet(handler: &str) -> (r: String)
    ensures
        r@ == spec_action_call(handler@),
{
    let mut out = "(function() { try { if (typeof globalThis.".to_owned();
    out.append(handler);
    out.append(" === 'function') { globalThis.");
    out.append(handler);
    out.append("(); } } catch (e) { console.error('action failed'); } })();");
    out
}

/// The snippet that completes the promise registered for a request
/// identifier: it resolves or rejects with the payload, and tolerates an
/// unknown identifier.
pub open spec fn spec_resolve_call(id: int, payload: Seq<char>, is_error: bool) -> Seq<char> {
    "(function() { try { if (typeof globalThis.__freshComplete === 'function') { globalThis.__freshComplete("@
        + spec_decimal(id) + ", "@ + spec_quote(payload) + ", "@ + (if is_error {
        "true"@
    } else {
        "false"@
    }) + "); } } catch (e) { console.error('completion failed'); } })();"@
}

/// Builds the completion snippet for one response.
pub fn resolve_call_snippet(id: u64, payload: &str, is_error: bool) -> (r: String)
    ensures
        r@ == spec_resolve_call(id as int, payload@, is_error),
{
    let mut out =
        "(function() { try { if (typeof globalThis.__freshComplete === 'function') { globalThis.__freshComplete(".to_owned();
    let d = decimal_string(id);
    out.append(d.as_str());
    out.append(", ");
    let q = quote_string(payload);
    out.append(q.as_str());
    out.append(", ");
    if is_error {
        out.append("true");
    } else {
        out.append("false");
    }
    out.append("); } } catch (e) { console.error('completion failed'); } })();");
    out
}

} // verus!
