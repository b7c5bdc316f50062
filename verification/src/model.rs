//! The abstract model of the evaluator: its state as mathematical values and
//! the transition functions that say exactly what consuming one token, or one
//! answer to a numeric request, does to that state.  The executable evaluator
//! in [`crate::parse`] is verified against these functions.

use vstd::prelude::*;

use crate::lexer::blank_token;
use crate::lexer::TokenType;
use crate::lexer::TokenV;
use crate::text::int_text;

verus! {

/// An error signal, as handed to the diagnostics sink.  Every error is
/// recoverable: the evaluator reports it and resumes at the next token.
pub ghost enum ErrorV {
    /// An assignment target already holds a value of another kind.
    AssignmentTypeMismatch {
        value: TokenV,
        target: TokenV,
        stored_kind: TokenType,
        operation: Seq<char>,
    },
    /// The (sole or first) operand did not parse as a number.
    WrongTypeFirst { value: Seq<char>, operation: Seq<char> },
    /// The second operand did not parse as a number.
    WrongTypeSecond { first: Seq<char>, second: Seq<char>, operation: Seq<char> },
    /// Neither operand parsed as a number.
    WrongTypeBoth { first: Seq<char>, second: Seq<char>, operation: Seq<char> },
    /// The operand's kind is structurally ineligible for the requested cast.
    InvalidTypeCast { target_kind: TokenType, value: TokenV, operation: TokenV },
    /// An operation required more operands than the stack held.
    StackEmpty,
    /// A token kind with no dispatch behaviour was consumed.
    OperationNotImplemented { value: Seq<char> },
    /// A function definition reused an existing name.
    FunctionAlreadyExists { name: Seq<char> },
}

/// A numeric computation the evaluator has started and now waits on: the
/// operand tokens and the operator token it popped for it.
pub ghost enum PendingV {
    /// A binary operation on the texts of `first` and `second`.
    Bin { op: TokenV, first: TokenV, second: TokenV },
    /// A cast of `value`'s text to an integer literal.
    CastInt { value: TokenV, op: TokenV },
    /// A cast of `value`'s text to a decimal literal.
    CastDec { value: TokenV, op: TokenV },
    /// The truthiness of `value`'s text; `negate` for logical NOT.
    Truth { value: TokenV, op: TokenV, negate: bool },
    /// The square root of `value`'s text.
    Sqrt { value: TokenV, op: TokenV },
}

/// What the evaluator asks its caller to compute.
pub ghost enum RequestV {
    /// Parse both texts as IEEE doubles and apply the operator.
    Binary { op: TokenType, first: Seq<char>, second: Seq<char> },
    /// Parse the text as an IEEE double, truncate toward zero to a 64-bit
    /// integer, and render it.
    CastInt { text: Seq<char> },
    /// Parse the text as an IEEE double and render it.
    CastDec { text: Seq<char> },
    /// Parse the text as an IEEE double and tell whether it is non-zero.
    Truth { text: Seq<char> },
    /// Parse the text as an IEEE double and render its square root.
    Sqrt { text: Seq<char> },
}

/// The caller's answer to a request.
pub ghost enum ReplyV {
    /// Both texts parsed; `text` renders the operation's value and `whole`
    /// says whether that value has zero fractional part.
    Binary { text: Seq<char>, whole: bool },
    /// The first operand's text did not parse.
    BinaryFirstBad,
    /// The second operand's text did not parse.
    BinarySecondBad,
    /// Neither operand's text parsed.
    BinaryBothBad,
    /// The cast or square-root operand parsed; `text` renders the result.
    Cast { text: Seq<char> },
    /// The cast or square-root operand did not parse.
    CastBad,
    /// The truthiness operand parsed; `nonzero` says whether it is non-zero.
    Truth { nonzero: bool },
    /// The truthiness operand did not parse.
    TruthBad,
}

/// What a `parse` or `resume` call hands back.
pub ghost enum OutcomeV {
    /// The queued tokens are consumed; the token is the popped top of the
    /// stack, or the empty `NoType` sentinel if the stack was empty.
    Done(TokenV),
    /// The evaluator waits on a numeric computation.
    Need(RequestV),
    /// The step budget of one call was exhausted before the queue was; a
    /// further call picks the work up again.
    Paused,
}

/// The abstract state of the evaluator.
#[verifier::ext_equal]
pub ghost struct StateV {
    /// The evaluation stack, last-in-first-out at the sequence's end.
    pub stack: Seq<TokenV>,
    /// Every token submitted so far, with spliced function bodies.
    pub queue: Seq<TokenV>,
    /// How many queue positions have been consumed.  Never decreases.
    pub cursor: int,
    /// Variable memory: name to last-assigned token.
    pub vars: Map<Seq<char>, TokenV>,
    /// Function memory: name to body tokens.  Write-once per name.
    pub funcs: Map<Seq<char>, Seq<TokenV>>,
    /// The accumulator of a function definition in progress.
    pub def_stack: Seq<TokenV>,
    /// Whether a function definition is in progress.
    pub def_mode: bool,
    /// The numeric computation waited on, if any.
    pub pending: Option<PendingV>,
    /// Error signals not yet drained by the sink.
    pub errors: Seq<ErrorV>,
    /// Assembly lines emitted since the current submission began.
    pub assembly: Seq<Seq<char>>,
    /// The next free temporary register of the assembly channel.
    pub reg: int,
}

/// The variable memory a fresh evaluator is seeded with: Euler's number,
/// pi, and the speed of light, under their usual names.
pub open spec fn seeded_vars() -> Map<Seq<char>, TokenV> {
    Map::empty().insert(
        "e"@,
        TokenV { kind: TokenType::NumericDecLiteral, text: "2.718281828459045"@ },
    ).insert(
        "pi"@,
        TokenV { kind: TokenType::NumericDecLiteral, text: "3.141592653589793"@ },
    ).insert("C"@, TokenV { kind: TokenType::NumericIntLiteral, text: "299792458"@ })
}

/// The state of a fresh evaluator.
pub open spec fn initial_state() -> StateV {
    StateV {
        stack: Seq::empty(),
        queue: Seq::empty(),
        cursor: 0,
        vars: seeded_vars(),
        funcs: Map::empty(),
        def_stack: Seq::empty(),
        def_mode: false,
        pending: None,
        errors: Seq::empty(),
        assembly: Seq::empty(),
        reg: 0,
    }
}

/// Whether a kind may feed a numeric cast or truthiness test.
pub open spec fn castable_kind(k: TokenType) -> bool {
    ||| k == TokenType::NumericIntLiteral
    ||| k == TokenType::NumericDecLiteral
    ||| k == TokenType::BoolLiteral
}

/// Whether a kind may feed a binary arithmetic operator.
pub open spec fn numeric_kind(k: TokenType) -> bool {
    k == TokenType::NumericIntLiteral || k == TokenType::NumericDecLiteral
}

/// Whether a kind is one of the binary arithmetic operators.
pub open spec fn binary_op_kind(k: TokenType) -> bool {
    ||| k == TokenType::Addition
    ||| k == TokenType::Multiplication
    ||| k == TokenType::Subtraction
    ||| k == TokenType::Division
    ||| k == TokenType::Carrot
}

/// The variable-resolution rule: a popped token whose text names a variable
/// stands for the stored token; any other token stands for itself.
pub open spec fn resolve(vars: Map<Seq<char>, TokenV>, t: TokenV) -> TokenV {
    if vars.contains_key(t.text) {
        vars[t.text]
    } else {
        t
    }
}

/// The assembly line loading a value into the next temporary register.
pub open spec fn li_line(reg: int, text: Seq<char>) -> Seq<char> {
    "li t"@ + int_text(reg) + " "@ + text
}

/// The assembly line adding the two most recent temporary registers.
pub open spec fn add_line(reg: int) -> Seq<char> {
    "add t"@ + int_text(reg - 2) + " t"@ + int_text(reg - 2) + " t"@ + int_text(reg - 1)
}

/// The assembly line subtracting the two most recent temporary registers.
pub open spec fn sub_line(reg: int) -> Seq<char> {
    "sub t"@ + int_text(reg - 2) + " t"@ + int_text(reg - 2) + " t"@ + int_text(reg - 1)
}

/// Popping the stack's top without variable resolution: the popped token
/// and the state after, or `None` and the state unchanged.
pub open spec fn pop_raw(s: StateV) -> (StateV, Option<TokenV>) {
    if s.stack.len() == 0 {
        (s, None)
    } else {
        (StateV { stack: s.stack.drop_last(), ..s }, Some(s.stack.last()))
    }
}

/// Popping the stack's top with variable resolution.
pub open spec fn pop_resolved(s: StateV) -> (StateV, Option<TokenV>) {
    if s.stack.len() == 0 {
        (s, None)
    } else {
        (StateV { stack: s.stack.drop_last(), ..s }, Some(resolve(s.vars, s.stack.last())))
    }
}

/// The bind-and-push rule shared by assignment and the conditional: bind
/// `target`'s text to `value` and push `value` back, unless the target
/// already holds a value of another kind, which signals a mismatch and
/// changes nothing else.
pub open spec fn bind_value(s: StateV, value: TokenV, target: TokenV, op: TokenV) -> StateV {
    if s.vars.contains_key(target.text) && s.vars[target.text].kind != value.kind {
        StateV {
            errors: s.errors.push(
                ErrorV::AssignmentTypeMismatch {
                    value: value,
                    target: target,
                    stored_kind: s.vars[target.text].kind,
                    operation: op.text,
                },
            ),
            ..s
        }
    } else {
        StateV { vars: s.vars.insert(target.text, value), stack: s.stack.push(value), ..s }
    }
}

/// One error signal, nothing else.
pub open spec fn signal(s: StateV, e: ErrorV) -> StateV {
    StateV { errors: s.errors.push(e), ..s }
}

/// Consuming one token in normal mode.  The cursor has already moved past
/// the token; a spliced function body lands at the cursor, so it runs before
/// anything queued later.
pub open spec fn dispatch(s: StateV, t: TokenV) -> StateV {
    match t.kind {
        TokenType::Greater => StateV { def_mode: true, ..s },
        TokenType::NumericIntLiteral => StateV {
            stack: s.stack.push(t),
            assembly: s.assembly.push(li_line(s.reg, t.text)),
            reg: s.reg + 1,
            ..s
        },
        TokenType::NumericDecLiteral => StateV { stack: s.stack.push(t), ..s },
        TokenType::BoolLiteral => {
            if t.text == "true"@ {
                StateV {
                    stack: s.stack.push(TokenV { kind: TokenType::BoolLiteral, text: "1"@ }),
                    ..s
                }
            } else if t.text == "false"@ {
                StateV {
                    stack: s.stack.push(TokenV { kind: TokenType::BoolLiteral, text: "0"@ }),
                    ..s
                }
            } else {
                s
            }
        },
        TokenType::Bang => {
            let (s1, a) = pop_resolved(s);
            truth_of_operand(s1, a, t, true)
        },
        TokenType::TypeBoolKeyword => {
            let (s1, a) = pop_resolved(s);
            truth_of_operand(s1, a, t, false)
        },
        TokenType::TypeIntKeyword => {
            let (s1, a) = pop_resolved(s);
            cast_of_operand(s1, a, t, TokenType::NumericIntLiteral)
        },
        TokenType::TypeDecKeyword => {
            let (s1, a) = pop_resolved(s);
            cast_of_operand(s1, a, t, TokenType::NumericDecLiteral)
        },
        TokenType::TypeSqrtKeyword => {
            let (s1, a) = pop_resolved(s);
            sqrt_of_operand(s1, a, t)
        },
        TokenType::Question => {
            let (s1, c) = pop_resolved(s);
            let (s2, b) = pop_resolved(s1);
            let (s3, a) = pop_resolved(s2);
            match c {
                Some(cv) => {
                    if b is Some && a is Some {
                        if cv.text == "1"@ {
                            assign_of_operands(s3, a, b, t)
                        } else {
                            s3
                        }
                    } else {
                        signal(s3, ErrorV::StackEmpty)
                    }
                },
                None => signal(s3, ErrorV::StackEmpty),
            }
        },
        TokenType::Assignment => {
            let (s1, target) = pop_raw(s);
            let (s2, value) = pop_raw(s1);
            assign_of_operands(s2, value, target, t)
        },
        TokenType::Identifier => {
            if s.vars.contains_key(t.text) {
                if s.stack.len() == 0 {
                    StateV { stack: s.stack.push(s.vars[t.text]), ..s }
                } else {
                    StateV { stack: s.stack.push(t), ..s }
                }
            } else if s.funcs.contains_key(t.text) {
                StateV {
                    queue: s.queue.take(s.cursor) + s.funcs[t.text] + s.queue.skip(s.cursor),
                    ..s
                }
            } else {
                StateV { stack: s.stack.push(t), ..s }
            }
        },
        TokenType::Addition | TokenType::Multiplication | TokenType::Subtraction
            | TokenType::Division | TokenType::Carrot => {
            let (s1, second) = pop_resolved(s);
            let (s2, first) = pop_resolved(s1);
            binary_of_operands(s2, first, second, t)
        },
        _ => signal(s, ErrorV::OperationNotImplemented { value: t.text }),
    }
}

/// What the truthiness operations (`bool` and `!`) do once their operand is
/// popped: a missing operand signals `StackEmpty`; an operand of a
/// non-castable kind signals `InvalidTypeCast`; otherwise the evaluator
/// waits on the operand's truthiness.
pub open spec fn truth_of_operand(s: StateV, a: Option<TokenV>, t: TokenV, negate: bool) -> StateV {
    match a {
        None => signal(s, ErrorV::StackEmpty),
        Some(av) => {
            if castable_kind(av.kind) {
                StateV {
                    pending: Some(PendingV::Truth { value: av, op: t, negate: negate }),
                    ..s
                }
            } else {
                signal(
                    s,
                    ErrorV::InvalidTypeCast {
                        target_kind: TokenType::BoolLiteral,
                        value: av,
                        operation: t,
                    },
                )
            }
        },
    }
}

/// What the `int` and `dec` casts do once their operand is popped.
pub open spec fn cast_of_operand(s: StateV, a: Option<TokenV>, t: TokenV, target: TokenType) -> StateV {
    match a {
        None => signal(s, ErrorV::StackEmpty),
        Some(av) => {
            if castable_kind(av.kind) {
                if target == TokenType::NumericIntLiteral {
                    StateV { pending: Some(PendingV::CastInt { value: av, op: t }), ..s }
                } else {
                    StateV { pending: Some(PendingV::CastDec { value: av, op: t }), ..s }
                }
            } else {
                signal(
                    s,
                    ErrorV::InvalidTypeCast { target_kind: target, value: av, operation: t },
                )
            }
        },
    }
}

/// What the square root does once its operand is popped.  No kind is
/// checked: any operand's text goes straight to the parse.
pub open spec fn sqrt_of_operand(s: StateV, a: Option<TokenV>, t: TokenV) -> StateV {
    match a {
        None => signal(s, ErrorV::StackEmpty),
        Some(av) => StateV { pending: Some(PendingV::Sqrt { value: av, op: t }), ..s },
    }
}

/// What a binary arithmetic operator does once its operands are popped:
/// missing operands signal `StackEmpty`; non-numeric kinds signal
/// `WrongType` against the operands at fault; otherwise the evaluator waits
/// on the computation.
pub open spec fn binary_of_operands(
    s: StateV,
    first: Option<TokenV>,
    second: Option<TokenV>,
    t: TokenV,
) -> StateV {
    match (first, second) {
        (Some(a), Some(b)) => {
            if numeric_kind(a.kind) && numeric_kind(b.kind) {
                StateV { pending: Some(PendingV::Bin { op: t, first: a, second: b }), ..s }
            } else if numeric_kind(b.kind) {
                signal(s, ErrorV::WrongTypeFirst { value: a.text, operation: t.text })
            } else if numeric_kind(a.kind) {
                signal(
                    s,
                    ErrorV::WrongTypeSecond { first: a.text, second: b.text, operation: t.text },
                )
            } else {
                signal(
                    s,
                    ErrorV::WrongTypeBoth { first: a.text, second: b.text, operation: t.text },
                )
            }
        },
        _ => signal(s, ErrorV::StackEmpty),
    }
}

/// The bind-and-push rule applied to popped operands: with either operand
/// missing, nothing happens at all.
pub open spec fn assign_of_operands(
    s: StateV,
    first: Option<TokenV>,
    second: Option<TokenV>,
    t: TokenV,
) -> StateV {
    match (first, second) {
        (Some(a), Some(b)) => bind_value(s, a, b, t),
        _ => s,
    }
}

/// Consuming one token while a function definition is in progress: every
/// token but `Function` joins the accumulator; `Function` closes the
/// definition, taking the last accumulated token as the name and the rest,
/// in order, as the body.  Redefining an existing name signals
/// `FunctionAlreadyExists` and leaves the stored body untouched; either way
/// the accumulator is discarded.
pub open spec fn define_step(s: StateV, t: TokenV) -> StateV {
    if t.kind == TokenType::Function {
        let s2 = StateV { def_mode: false, ..s };
        if s.def_stack.len() == 0 {
            s2
        } else {
            let name = s.def_stack.last();
            if s.funcs.contains_key(name.text) {
                StateV {
                    def_stack: Seq::empty(),
                    ..signal(s2, ErrorV::FunctionAlreadyExists { name: name.text })
                }
            } else {
                StateV {
                    def_stack: Seq::empty(),
                    funcs: s.funcs.insert(name.text, s.def_stack.drop_last()),
                    ..s2
                }
            }
        }
    } else {
        StateV { def_stack: s.def_stack.push(t), ..s }
    }
}

/// Whether the evaluator can consume another token: nothing pending and the
/// cursor short of the queue's end.
pub open spec fn steppable(s: StateV) -> bool {
    s.pending is None && 0 <= s.cursor < s.queue.len()
}

/// Consuming the token under the cursor, or nothing if the evaluator waits.
pub open spec fn step(s: StateV) -> StateV {
    if steppable(s) {
        let t = s.queue[s.cursor];
        let s1 = StateV { cursor: s.cursor + 1, ..s };
        if s.def_mode {
            define_step(s1, t)
        } else {
            dispatch(s1, t)
        }
    } else {
        s
    }
}

/// `n` consecutive steps.
pub open spec fn run_n(s: StateV, n: nat) -> StateV
    decreases n,
{
    if n == 0 {
        s
    } else {
        step(run_n(s, (n - 1) as nat))
    }
}

/// What starting a submission does before any token is consumed: the tokens
/// join the queue's tail, the assembly channel resets, and any definition
/// left unfinished by an earlier submission is abandoned, its accumulator
/// discarded.
pub open spec fn begin(s: StateV, toks: Seq<TokenV>) -> StateV {
    StateV {
        queue: s.queue + toks,
        assembly: Seq::empty(),
        reg: 0,
        def_mode: false,
        def_stack: Seq::empty(),
        ..s
    }
}

/// The request a pending computation asks for.
pub open spec fn request_of(p: PendingV) -> RequestV {
    match p {
        PendingV::Bin { op, first, second } => RequestV::Binary {
            op: op.kind,
            first: first.text,
            second: second.text,
        },
        PendingV::CastInt { value, op } => RequestV::CastInt { text: value.text },
        PendingV::CastDec { value, op } => RequestV::CastDec { text: value.text },
        PendingV::Truth { value, op, negate } => RequestV::Truth { text: value.text },
        PendingV::Sqrt { value, op } => RequestV::Sqrt { text: value.text },
    }
}

/// Whether a reply answers the pending computation's request.
pub open spec fn reply_fits(p: PendingV, r: ReplyV) -> bool {
    match p {
        PendingV::Bin { .. } => r is Binary || r is BinaryFirstBad || r is BinarySecondBad
            || r is BinaryBothBad,
        PendingV::CastInt { .. } => r is Cast || r is CastBad,
        PendingV::CastDec { .. } => r is Cast || r is CastBad,
        PendingV::Sqrt { .. } => r is Cast || r is CastBad,
        PendingV::Truth { .. } => r is Truth || r is TruthBad,
    }
}

/// What a reply does to the state.  A successful binary operation pushes a
/// token whose kind is an integer literal exactly when both operands were
/// integer literals and the value is whole; a successful square root always
/// pushes an integer literal; truthiness pushes a boolean literal with the
/// canonical text `1` or `0`, negated first for logical NOT.  Failed parses
/// signal `WrongType` against the operand at fault.
pub open spec fn apply_reply(s: StateV, r: ReplyV) -> StateV {
    if s.pending is Some {
        let p = s.pending->Some_0;
        let s1 = StateV { pending: None, ..s };
        match p {
            PendingV::Bin { op, first, second } => match r {
                ReplyV::Binary { text, whole } => {
                    let keep_int = first.kind == TokenType::NumericIntLiteral && second.kind
                        == TokenType::NumericIntLiteral;
                    let kind = if whole && keep_int {
                        TokenType::NumericIntLiteral
                    } else {
                        TokenType::NumericDecLiteral
                    };
                    let s2 = StateV { stack: s1.stack.push(TokenV { kind: kind, text: text }), ..s1 };
                    if op.kind == TokenType::Addition {
                        StateV { assembly: s2.assembly.push(add_line(s2.reg)), reg: s2.reg - 1, ..s2 }
                    } else if op.kind == TokenType::Subtraction {
                        StateV { assembly: s2.assembly.push(sub_line(s2.reg)), reg: s2.reg - 1, ..s2 }
                    } else {
                        s2
                    }
                },
                ReplyV::BinaryFirstBad => signal(
                    s1,
                    ErrorV::WrongTypeFirst { value: first.text, operation: op.text },
                ),
                ReplyV::BinarySecondBad => signal(
                    s1,
                    ErrorV::WrongTypeSecond {
                        first: first.text,
                        second: second.text,
                        operation: op.text,
                    },
                ),
                ReplyV::BinaryBothBad => signal(
                    s1,
                    ErrorV::WrongTypeBoth {
                        first: first.text,
                        second: second.text,
                        operation: op.text,
                    },
                ),
                _ => s,
            },
            PendingV::CastInt { value, op } => match r {
                ReplyV::Cast { text } => StateV {
                    stack: s1.stack.push(
                        TokenV { kind: TokenType::NumericIntLiteral, text: text },
                    ),
                    ..s1
                },
                ReplyV::CastBad => signal(
                    s1,
                    ErrorV::WrongTypeFirst { value: value.text, operation: op.text },
                ),
                _ => s,
            },
            PendingV::CastDec { value, op } => match r {
                ReplyV::Cast { text } => StateV {
                    stack: s1.stack.push(
                        TokenV { kind: TokenType::NumericDecLiteral, text: text },
                    ),
                    ..s1
                },
                ReplyV::CastBad => signal(
                    s1,
                    ErrorV::WrongTypeFirst { value: value.text, operation: op.text },
                ),
                _ => s,
            },
            PendingV::Sqrt { value, op } => match r {
                ReplyV::Cast { text } => StateV {
                    stack: s1.stack.push(
                        TokenV { kind: TokenType::NumericIntLiteral, text: text },
                    ),
                    ..s1
                },
                ReplyV::CastBad => signal(
                    s1,
                    ErrorV::WrongTypeFirst { value: value.text, operation: op.text },
                ),
                _ => s,
            },
            PendingV::Truth { value, op, negate } => match r {
                ReplyV::Truth { nonzero } => {
                    let truthy = if negate {
                        !nonzero
                    } else {
                        nonzero
                    };
                    let text = if truthy {
                        "1"@
                    } else {
                        "0"@
                    };
                    StateV {
                        stack: s1.stack.push(TokenV { kind: TokenType::BoolLiteral, text: text }),
                        ..s1
                    }
                },
                ReplyV::TruthBad => signal(
                    s1,
                    ErrorV::WrongTypeFirst { value: value.text, operation: op.text },
                ),
                _ => s,
            },
        }
    } else {
        s
    }
}

/// The step budget of one `parse`, `resume` or `proceed` call.  A run that
/// exhausts it pauses instead of spinning forever on a function whose body
/// invokes itself.
pub const STEP_BUDGET: usize = 1048576;

/// How a finished call relates the state it started from to the state it
/// left and the outcome it returned: some number of steps within the budget,
/// then the stop the outcome describes.  `Done` pops the stack's top (or
/// stands for the empty sentinel) once the queue is consumed; `Need` waits
/// on the pending request; `Paused` means the budget ran out first.
pub open spec fn run_outcome(s0: StateV, n: nat, post: StateV, out: OutcomeV) -> bool {
    let s1 = run_n(s0, n);
    match out {
        OutcomeV::Done(tv) => {
            &&& n <= STEP_BUDGET
            &&& s1.pending is None
            &&& s1.cursor == s1.queue.len()
            &&& if s1.stack.len() > 0 {
                tv == s1.stack.last() && post == (StateV { stack: s1.stack.drop_last(), ..s1 })
            } else {
                tv == blank_token() && post == s1
            }
        },
        OutcomeV::Need(rq) => {
            &&& n <= STEP_BUDGET
            &&& post == s1
            &&& s1.pending matches Some(p) && rq == request_of(p)
        },
        OutcomeV::Paused => {
            &&& n == STEP_BUDGET
            &&& post == s1
            &&& s1.pending is None
            &&& s1.cursor < s1.queue.len()
        },
    }
}

/// The temporary-register counter stays within the number of consumed
/// tokens: each consumed token moves it by at most one, and a pending
/// binary operation holds one move in reserve.
pub open spec fn reg_in_range(s: StateV) -> bool {
    let slack: int = if s.pending matches Some(PendingV::Bin { .. }) {
        1
    } else {
        0
    };
    -s.cursor + slack <= s.reg <= s.cursor - slack
}

/// Room for the assembly channel to move the register counter again
/// without nearing the machine limits.
pub open spec fn reg_room(s: StateV) -> bool {
    -100_000_000_000_000_000_000 < s.reg < 100_000_000_000_000_000_000
}

pub proof fn lemma_step_reg_in_range(s: StateV)
    requires
        reg_in_range(s),
    ensures
        reg_in_range(step(s)),
{
}

pub proof fn lemma_reply_reg_in_range(s: StateV, r: ReplyV)
    requires
        reg_in_range(s),
    ensures
        reg_in_range(apply_reply(s, r)),
{
}

pub proof fn lemma_begin_reg_in_range(s: StateV, toks: Seq<TokenV>)
    requires
        reg_in_range(s),
    ensures
        reg_in_range(begin(s, toks)),
{
}

} // verus!
