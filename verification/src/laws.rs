//! Proved facts about the evaluator's transition model: how result kinds
//! are chosen, that failed assignments and redefinitions change no memory
//! (stated per step and over a whole submission), and what a binary
//! operator does to operand order and to an empty stack.

use vstd::prelude::*;

use crate::lexer::blank_token;
use crate::lexer::TokenType;
use crate::lexer::TokenV;
use crate::model::apply_reply;
use crate::model::begin;
use crate::model::bind_value;
use crate::model::binary_op_kind;
use crate::model::numeric_kind;
use crate::model::RequestV;
use crate::model::STEP_BUDGET;
use crate::model::run_n;
use crate::model::run_outcome;
use crate::model::step;
use crate::model::steppable;
use crate::model::ErrorV;
use crate::model::OutcomeV;
use crate::model::PendingV;
use crate::model::ReplyV;
use crate::model::StateV;

verus! {

/// A finished binary operation pushes one token carrying the computed text,
/// and its kind is an integer literal exactly when both operands were
/// integer literals and the computed value has zero fractional part;
/// otherwise it is a decimal literal.
pub proof fn lemma_binary_result_kind(
    s: StateV,
    op: TokenV,
    first: TokenV,
    second: TokenV,
    text: Seq<char>,
    whole: bool,
)
    requires
        s.pending == Some(PendingV::Bin { op: op, first: first, second: second }),
    ensures
        ({
            let post = apply_reply(s, ReplyV::Binary { text: text, whole: whole });
            let kind = if whole && first.kind == TokenType::NumericIntLiteral && second.kind
                == TokenType::NumericIntLiteral {
                TokenType::NumericIntLiteral
            } else {
                TokenType::NumericDecLiteral
            };
            &&& post.stack == s.stack.push(TokenV { kind: kind, text: text })
            &&& post.vars == s.vars
            &&& post.funcs == s.funcs
            &&& post.errors == s.errors
            &&& post.pending is None
        }),
{
}

/// Assigning a value to a variable already bound to another kind signals
/// `AssignmentTypeMismatch` and leaves the variable's old value, the rest of
/// the memories and the stack intact.
pub proof fn lemma_assignment_type_mismatch(s: StateV, t: TokenV)
    requires
        steppable(s),
        !s.def_mode,
        s.queue[s.cursor] == t,
        t.kind == TokenType::Assignment,
        s.stack.len() >= 2,
        s.vars.contains_key(s.stack.last().text),
        s.vars[s.stack.last().text].kind != s.stack[s.stack.len() - 2].kind,
    ensures
        step(s).vars == s.vars,
        step(s).vars[s.stack.last().text] == s.vars[s.stack.last().text],
        step(s).funcs == s.funcs,
        step(s).errors == s.errors.push(
            ErrorV::AssignmentTypeMismatch {
                value: s.stack[s.stack.len() - 2],
                target: s.stack.last(),
                stored_kind: s.vars[s.stack.last().text].kind,
                operation: t.text,
            },
        ),
{
}

/// The bind-and-push rule on a mismatched target, stated directly: no
/// memory and no stack change, one mismatch signal.
pub proof fn lemma_bind_value_mismatch(s: StateV, value: TokenV, target: TokenV, op: TokenV)
    requires
        s.vars.contains_key(target.text),
        s.vars[target.text].kind != value.kind,
    ensures
        bind_value(s, value, target, op).vars == s.vars,
        bind_value(s, value, target, op).stack == s.stack,
        bind_value(s, value, target, op).errors == s.errors.push(
            ErrorV::AssignmentTypeMismatch {
                value: value,
                target: target,
                stored_kind: s.vars[target.text].kind,
                operation: op.text,
            },
        ),
{
}

/// Closing a function definition under a name that already exists signals
/// `FunctionAlreadyExists` and alters no stored body; the accumulator is
/// discarded and definition mode ends.
pub proof fn lemma_function_already_exists(s: StateV, t: TokenV)
    requires
        steppable(s),
        s.def_mode,
        s.queue[s.cursor] == t,
        t.kind == TokenType::Function,
        s.def_stack.len() > 0,
        s.funcs.contains_key(s.def_stack.last().text),
    ensures
        step(s).funcs == s.funcs,
        step(s).funcs[s.def_stack.last().text] == s.funcs[s.def_stack.last().text],
        step(s).errors == s.errors.push(
            ErrorV::FunctionAlreadyExists { name: s.def_stack.last().text },
        ),
        step(s).def_mode == false,
        step(s).def_stack == Seq::<TokenV>::empty(),
        step(s).vars == s.vars,
        step(s).stack == s.stack,
{
}

/// A finished square root always pushes an integer-literal token, whatever
/// text the computation produced.
pub proof fn lemma_sqrt_always_int_literal(s: StateV, value: TokenV, op: TokenV, text: Seq<char>)
    requires
        s.pending == Some(PendingV::Sqrt { value: value, op: op }),
    ensures
        ({
            let post = apply_reply(s, ReplyV::Cast { text: text });
            &&& post.stack == s.stack.push(
                TokenV { kind: TokenType::NumericIntLiteral, text: text },
            )
            &&& post.stack.last().kind == TokenType::NumericIntLiteral
            &&& post.pending is None
        }),
{
}

/// A run of at least one step from a state whose first step already stops
/// the evaluator ends exactly in that first step's state.
pub proof fn lemma_run_absorb(s: StateV, n: nat)
    requires
        n >= 1,
        !steppable(step(s)),
    ensures
        run_n(s, n) == step(s),
    decreases n,
{
    if n == 1 {
        assert(run_n(s, 1) == step(run_n(s, 0)));
        assert(run_n(s, 0) == s);
    } else {
        lemma_run_absorb(s, (n - 1) as nat);
        assert(run_n(s, n) == step(run_n(s, (n - 1) as nat)));
        assert(step(step(s)) == step(s));
    }
}

/// Submitting a lone binary operator to an evaluator whose stack is empty
/// and whose queue is consumed signals `StackEmpty`, and the submission's
/// outcome is the empty `NoType` sentinel.
pub proof fn lemma_binary_on_empty_stack(
    s: StateV,
    t: TokenV,
    n: nat,
    post: StateV,
    out: OutcomeV,
)
    requires
        s.pending is None,
        !s.def_mode,
        s.stack.len() == 0,
        s.cursor == s.queue.len(),
        binary_op_kind(t.kind),
        run_outcome(begin(s, seq![t]), n, post, out),
    ensures
        out == OutcomeV::Done(blank_token()),
        post.errors == s.errors.push(ErrorV::StackEmpty),
        post.stack.len() == 0,
        post.vars == s.vars,
        post.funcs == s.funcs,
{
    let s0 = begin(s, seq![t]);
    assert(s0.queue.len() == s.queue.len() + 1);
    assert(s0.queue[s0.cursor] == t);
    assert(steppable(s0));
    let s1 = step(s0);
    assert(!steppable(s1));
    if n == 0 {
        assert(run_n(s0, 0) == s0);
        assert(false);
    } else {
        lemma_run_absorb(s0, n);
        assert(run_n(s0, n) == s1);
    }
}

/// The instruction queue's invariant: one step never moves the cursor back
/// and never past the queue's end, and the queue only grows.
pub proof fn lemma_cursor_invariant(s: StateV)
    requires
        0 <= s.cursor <= s.queue.len(),
    ensures
        step(s).cursor >= s.cursor,
        step(s).cursor <= step(s).queue.len(),
        step(s).queue.len() >= s.queue.len(),
{
}

/// The bind-and-push rule on a fresh name, or on a target of the same kind:
/// the value is stored under the target's text and pushed back, and nothing
/// is signalled.
pub proof fn lemma_bind_value_success(s: StateV, value: TokenV, target: TokenV, op: TokenV)
    requires
        !s.vars.contains_key(target.text) || s.vars[target.text].kind == value.kind,
    ensures
        bind_value(s, value, target, op).vars == s.vars.insert(target.text, value),
        bind_value(s, value, target, op).stack == s.stack.push(value),
        bind_value(s, value, target, op).errors == s.errors,
{
}

/// Invoking a function splices its body into the queue right at the cursor,
/// unevaluated: no variable is read at splice time, so the body's free
/// names resolve against whatever bindings exist when its tokens are later
/// consumed.
pub proof fn lemma_function_splice(s: StateV, t: TokenV)
    requires
        steppable(s),
        !s.def_mode,
        s.queue[s.cursor] == t,
        t.kind == TokenType::Identifier,
        !s.vars.contains_key(t.text),
        s.funcs.contains_key(t.text),
    ensures
        step(s).queue == s.queue.take(s.cursor + 1) + s.funcs[t.text] + s.queue.skip(
            s.cursor + 1,
        ),
        step(s).cursor == s.cursor + 1,
        step(s).stack == s.stack,
        step(s).vars == s.vars,
        step(s).funcs == s.funcs,
        step(s).errors == s.errors,
{
}

/// Starting a submission alone changes no memory and no stack: the tokens
/// only join the queue, so variable and function memories persist across
/// calls.
pub proof fn lemma_begin_preserves_memories(s: StateV, toks: Seq<TokenV>)
    ensures
        begin(s, toks).vars == s.vars,
        begin(s, toks).funcs == s.funcs,
        begin(s, toks).stack == s.stack,
        begin(s, toks).cursor == s.cursor,
{
}

/// Once the evaluator cannot consume another token, further steps change
/// nothing.
pub proof fn lemma_run_stable(s: StateV, n: nat)
    requires
        !steppable(s),
    ensures
        run_n(s, n) == s,
    decreases n,
{
    if n > 0 {
        lemma_run_stable(s, (n - 1) as nat);
    }
}

/// Runs compose: `m + k` steps are `m` steps and then `k` more.
pub proof fn lemma_run_split(s: StateV, m: nat, k: nat)
    ensures
        run_n(s, m + k) == run_n(run_n(s, m), k),
    decreases k,
{
    if k > 0 {
        lemma_run_split(s, m, (k - 1) as nat);
        assert(run_n(s, m + k) == step(run_n(s, (m + k - 1) as nat)));
        assert(run_n(run_n(s, m), k) == step(run_n(run_n(s, m), (k - 1) as nat)));
    }
}

/// Left-to-right postfix evaluation: submitting two numeric literals and a
/// binary operator always stops on a request that carries the operator and
/// exactly the two literal texts, the earlier literal first.
pub proof fn lemma_binary_operand_order(
    s: StateV,
    a: TokenV,
    b: TokenV,
    t: TokenV,
    n: nat,
    post: StateV,
    out: OutcomeV,
)
    requires
        s.pending is None,
        !s.def_mode,
        s.stack.len() == 0,
        s.cursor == s.queue.len(),
        numeric_kind(a.kind),
        numeric_kind(b.kind),
        !s.vars.contains_key(a.text),
        !s.vars.contains_key(b.text),
        binary_op_kind(t.kind),
        run_outcome(begin(s, seq![a, b, t]), n, post, out),
    ensures
        out == OutcomeV::Need(RequestV::Binary { op: t.kind, first: a.text, second: b.text }),
        post.pending == Some(PendingV::Bin { op: t, first: a, second: b }),
{
    let s0 = begin(s, seq![a, b, t]);
    assert(s0.queue.len() == s.queue.len() + 3);
    assert(s0.queue[s.cursor] == a);
    assert(s0.queue[s.cursor + 1] == b);
    assert(s0.queue[s.cursor + 2] == t);
    assert(run_n(s0, 0) == s0);
    assert(run_n(s0, 1) == step(run_n(s0, 0)));
    assert(run_n(s0, 2) == step(run_n(s0, 1)));
    assert(run_n(s0, 3) == step(run_n(s0, 2)));
    let s1 = step(s0);
    assert(s1.stack =~= s.stack.push(a));
    let s2 = step(s1);
    assert(s2.stack =~= s.stack.push(a).push(b));
    let s3 = step(s2);
    assert(s2.stack.last() == b);
    assert(s2.stack[s2.stack.len() - 2] == a);
    assert(s3.pending == Some(PendingV::Bin { op: t, first: a, second: b }));
    assert(!steppable(s3));
    if n < 3 {
        assert(run_n(s0, n).pending is None);
        assert(run_n(s0, n).cursor < run_n(s0, n).queue.len());
        assert(n != STEP_BUDGET);
        assert(false);
    } else {
        lemma_run_split(s0, 3, (n - 3) as nat);
        lemma_run_stable(s3, (n - 3) as nat);
        assert(run_n(s0, n) == s3);
    }
}

/// While a definition is open, consumed tokens other than `Function` only
/// join the accumulator, in order; nothing else changes.
pub proof fn lemma_accumulation(s: StateV, k: nat)
    requires
        s.pending is None,
        s.def_mode,
        0 <= s.cursor,
        s.cursor + k <= s.queue.len(),
        forall|i: int|
            s.cursor <= i < s.cursor + k ==> (#[trigger] s.queue[i]).kind != TokenType::Function,
    ensures
        run_n(s, k) == (StateV {
            cursor: s.cursor + k,
            def_stack: s.def_stack + s.queue.subrange(s.cursor, s.cursor + k),
            ..s
        }),
    decreases k,
{
    if k == 0 {
        assert(run_n(s, 0) == s);
        assert(s =~~= (StateV {
            cursor: s.cursor,
            def_stack: s.def_stack + s.queue.subrange(s.cursor, s.cursor),
            ..s
        }));
    } else {
        lemma_accumulation(s, (k - 1) as nat);
        let mid = run_n(s, (k - 1) as nat);
        assert(run_n(s, k) == step(mid));
        assert(steppable(mid));
        assert(mid.queue[mid.cursor] == s.queue[s.cursor + (k - 1)]);
        assert(step(mid) =~~= (StateV {
            cursor: s.cursor + k,
            def_stack: s.def_stack + s.queue.subrange(s.cursor, s.cursor + k),
            ..s
        })) by {
            assert(mid.def_stack.push(s.queue[s.cursor + (k - 1)]) =~= s.def_stack
                + s.queue.subrange(s.cursor, s.cursor + k));
        }
    }
}

/// Redefining an existing function name, over a whole submission: the
/// span's tokens are accumulated, the closing `Function` token signals
/// `FunctionAlreadyExists`, the stored body stays untouched, the new
/// accumulator is discarded, definition mode ends, and the submission's
/// outcome is the empty sentinel.
pub proof fn lemma_redefinition_rejected(
    s: StateV,
    gt: TokenV,
    body: Seq<TokenV>,
    name: TokenV,
    fn_tok: TokenV,
    n: nat,
    post: StateV,
    out: OutcomeV,
)
    requires
        s.pending is None,
        !s.def_mode,
        s.stack.len() == 0,
        s.cursor == s.queue.len(),
        gt.kind == TokenType::Greater,
        name.kind != TokenType::Function,
        fn_tok.kind == TokenType::Function,
        forall|i: int| 0 <= i < body.len() ==> (#[trigger] body[i]).kind != TokenType::Function,
        s.funcs.contains_key(name.text),
        body.len() + 3 <= STEP_BUDGET,
        run_outcome(begin(s, seq![gt] + body + (seq![name, fn_tok])), n, post, out),
    ensures
        out == OutcomeV::Done(blank_token()),
        post.funcs == s.funcs,
        post.funcs[name.text] == s.funcs[name.text],
        post.errors == s.errors.push(ErrorV::FunctionAlreadyExists { name: name.text }),
        post.def_mode == false,
        post.def_stack == Seq::<TokenV>::empty(),
        post.vars == s.vars,
        post.stack.len() == 0,
{
    let toks = seq![gt] + body + (seq![name, fn_tok]);
    let s0 = begin(s, toks);
    let k = (body.len() + 1) as nat;
    let total = (body.len() + 3) as nat;
    assert(toks.len() == body.len() + 3);
    assert(s0.queue.len() == s.queue.len() + toks.len());
    assert(forall|j: int| 0 <= j < toks.len() ==> s0.queue[s.queue.len() + j] == toks[j]);
    assert(toks[0] == gt);
    assert(forall|j: int| 0 <= j < body.len() ==> toks[1 + j] == body[j]);
    assert(toks[body.len() as int + 1] == name);
    assert(toks[body.len() as int + 2] == fn_tok);

    // One step opens the definition.
    assert(run_n(s0, 1) == step(run_n(s0, 0)));
    assert(run_n(s0, 0) == s0);
    assert(steppable(s0));
    assert(s0.queue[s0.cursor] == gt);
    let s1 = step(s0);
    assert(s1 == (StateV { cursor: s0.cursor + 1, def_mode: true, ..s0 }));

    // The body and the name token are accumulated.
    assert(forall|i: int|
        s1.cursor <= i < s1.cursor + k ==> (#[trigger] s1.queue[i]).kind != TokenType::Function);
    lemma_accumulation(s1, k);
    let s2 = run_n(s1, k);
    assert(s2.def_stack =~= body.push(name)) by {
        assert(s1.def_stack =~= Seq::<TokenV>::empty());
        assert(s1.queue.subrange(s1.cursor, s1.cursor + k) =~= body.push(name));
    }
    assert(s2.def_stack.len() == k);
    assert(s2.def_stack.last() == name);

    // The closing token rejects the redefinition.
    assert(steppable(s2));
    assert(s2.queue[s2.cursor] == fn_tok);
    let s3 = step(s2);
    assert(s3.funcs == s.funcs);
    assert(s3.errors == s.errors.push(ErrorV::FunctionAlreadyExists { name: name.text }));
    assert(!s3.def_mode && s3.def_stack =~= Seq::<TokenV>::empty());
    assert(s3.cursor == s3.queue.len());
    assert(!steppable(s3));

    // The whole run lands there, whatever step count the outcome cites.
    lemma_run_split(s0, 1, k);
    assert(run_n(s0, 1 + k) == s2);
    assert(run_n(s0, total) == step(run_n(s0, (total - 1) as nat)));
    assert(run_n(s0, total) == s3);
    if n < total {
        let sm = run_n(s0, n);
        if n == 0 {
            assert(sm == s0);
        } else {
            lemma_run_split(s0, 1, (n - 1) as nat);
            lemma_accumulation(s1, (n - 1) as nat);
            assert(sm == run_n(s1, (n - 1) as nat));
        }
        assert(sm.pending is None);
        assert(sm.cursor < sm.queue.len());
        assert(n != STEP_BUDGET);
        assert(false);
    } else {
        lemma_run_split(s0, total, (n - total) as nat);
        lemma_run_stable(s3, (n - total) as nat);
        assert(run_n(s0, n) == s3);
    }
}

} // verus!
