//! The evaluator: a stack machine that interprets the token queue against
//! persistent variable and function memories.  It never computes with
//! floating-point numbers itself; whenever a numeric value is needed it
//! stops with a [`Request`] and the caller answers with a [`Reply`] computed
//! over IEEE doubles.  Every state change is specified against the abstract
//! transition functions of [`crate::model`].

use vstd::prelude::*;
use vstd::string::StringExecFns;

use crate::lexer::Token;
use crate::lexer::TokenType;
use crate::lexer::TokenV;
use crate::model::apply_reply;
use crate::model::assign_of_operands;
use crate::model::begin;
use crate::model::binary_of_operands;
use crate::model::cast_of_operand;
use crate::model::dispatch;
use crate::model::initial_state;
use crate::model::lemma_begin_reg_in_range;
use crate::model::lemma_reply_reg_in_range;
use crate::model::lemma_step_reg_in_range;
use crate::model::li_line;
use crate::model::add_line;
use crate::model::sub_line;
use crate::model::pop_resolved;
use crate::model::reg_in_range;
use crate::model::reg_room;
use crate::model::reply_fits;
use crate::model::request_of;
use crate::model::run_n;
use crate::model::run_outcome;
use crate::model::sqrt_of_operand;
use crate::model::step;
use crate::model::steppable;
use crate::model::truth_of_operand;
use crate::model::ErrorV;
use crate::model::OutcomeV;
use crate::model::PendingV;
use crate::model::ReplyV;
use crate::model::RequestV;
use crate::model::StateV;
use crate::model::STEP_BUDGET;
use crate::table::Table;
use crate::text::decimal_text;

verus! {

/// A structured error signal for the diagnostics sink.
#[derive(Debug)]
pub enum ErrorSignal {
    AssignmentTypeMismatch { value: Token, target: Token, stored_kind: TokenType, operation: String },
    WrongTypeFirst { value: String, operation: String },
    WrongTypeSecond { first: String, second: String, operation: String },
    WrongTypeBoth { first: String, second: String, operation: String },
    InvalidTypeCast { target_kind: TokenType, value: Token, operation: Token },
    StackEmpty,
    OperationNotImplemented { value: String },
    FunctionAlreadyExists { name: String },
}

impl View for ErrorSignal {
    type V = ErrorV;

    open spec fn view(&self) -> ErrorV {
        match self {
            ErrorSignal::AssignmentTypeMismatch { value, target, stored_kind, operation } =>
                ErrorV::AssignmentTypeMismatch {
                value: value@,
                target: target@,
                stored_kind: *stored_kind,
                operation: operation@,
            },
            ErrorSignal::WrongTypeFirst { value, operation } => ErrorV::WrongTypeFirst {
                value: value@,
                operation: operation@,
            },
            ErrorSignal::WrongTypeSecond { first, second, operation } => ErrorV::WrongTypeSecond {
                first: first@,
                second: second@,
                operation: operation@,
            },
            ErrorSignal::WrongTypeBoth { first, second, operation } => ErrorV::WrongTypeBoth {
                first: first@,
                second: second@,
                operation: operation@,
            },
            ErrorSignal::InvalidTypeCast { target_kind, value, operation } =>
                ErrorV::InvalidTypeCast {
                target_kind: *target_kind,
                value: value@,
                operation: operation@,
            },
            ErrorSignal::StackEmpty => ErrorV::StackEmpty,
            ErrorSignal::OperationNotImplemented { value } => ErrorV::OperationNotImplemented {
                value: value@,
            },
            ErrorSignal::FunctionAlreadyExists { name } => ErrorV::FunctionAlreadyExists {
                name: name@,
            },
        }
    }
}

impl DeepView for ErrorSignal {
    type V = ErrorV;

    open spec fn deep_view(&self) -> ErrorV {
        self@
    }
}

/// A numeric computation the evaluator waits on.
#[derive(Debug)]
pub enum Pending {
    Bin { op: Token, first: Token, second: Token },
    CastInt { value: Token, op: Token },
    CastDec { value: Token, op: Token },
    Truth { value: Token, op: Token, negate: bool },
    Sqrt { value: Token, op: Token },
}

impl View for Pending {
    type V = PendingV;

    open spec fn view(&self) -> PendingV {
        match self {
            Pending::Bin { op, first, second } => PendingV::Bin {
                op: op@,
                first: first@,
                second: second@,
            },
            Pending::CastInt { value, op } => PendingV::CastInt { value: value@, op: op@ },
            Pending::CastDec { value, op } => PendingV::CastDec { value: value@, op: op@ },
            Pending::Truth { value, op, negate } => PendingV::Truth {
                value: value@,
                op: op@,
                negate: *negate,
            },
            Pending::Sqrt { value, op } => PendingV::Sqrt { value: value@, op: op@ },
        }
    }
}

impl DeepView for Pending {
    type V = PendingV;

    open spec fn deep_view(&self) -> PendingV {
        self@
    }
}

/// What the evaluator asks its caller to compute with IEEE doubles.
#[derive(Debug)]
pub enum Request {
    /// Parse both texts as doubles; apply the operator (`^` is `powf`).
    Binary { op: TokenType, first: String, second: String },
    /// Parse the text as a double, truncate to a 64-bit integer, render it.
    CastInt { text: String },
    /// Parse the text as a double and render it.
    CastDec { text: String },
    /// Parse the text as a double and tell whether it is non-zero.
    Truth { text: String },
    /// Parse the text as a double and render its square root.
    Sqrt { text: String },
}

impl View for Request {
    type V = RequestV;

    open spec fn view(&self) -> RequestV {
        match self {
            Request::Binary { op, first, second } => RequestV::Binary {
                op: *op,
                first: first@,
                second: second@,
            },
            Request::CastInt { text } => RequestV::CastInt { text: text@ },
            Request::CastDec { text } => RequestV::CastDec { text: text@ },
            Request::Truth { text } => RequestV::Truth { text: text@ },
            Request::Sqrt { text } => RequestV::Sqrt { text: text@ },
        }
    }
}

/// The caller's answer to a [`Request`].
#[derive(Debug)]
pub enum Reply {
    /// Both texts parsed: the rendered result and whether it is whole.
    Binary { text: String, whole: bool },
    BinaryFirstBad,
    BinarySecondBad,
    BinaryBothBad,
    /// The cast or square-root operand parsed: the rendered result.
    Cast { text: String },
    CastBad,
    /// The truthiness operand parsed.
    Truth { nonzero: bool },
    TruthBad,
}

impl View for Reply {
    type V = ReplyV;

    open spec fn view(&self) -> ReplyV {
        match self {
            Reply::Binary { text, whole } => ReplyV::Binary { text: text@, whole: *whole },
            Reply::BinaryFirstBad => ReplyV::BinaryFirstBad,
            Reply::BinarySecondBad => ReplyV::BinarySecondBad,
            Reply::BinaryBothBad => ReplyV::BinaryBothBad,
            Reply::Cast { text } => ReplyV::Cast { text: text@ },
            Reply::CastBad => ReplyV::CastBad,
            Reply::Truth { nonzero } => ReplyV::Truth { nonzero: *nonzero },
            Reply::TruthBad => ReplyV::TruthBad,
        }
    }
}

/// What a `parse`, `resume` or `proceed` call hands back.
#[derive(Debug)]
pub enum Outcome {
    /// The queue is consumed: the popped top of the stack, or the empty
    /// `NoType` sentinel.
    Done(Token),
    /// The evaluator waits on a numeric computation.
    Need(Request),
    /// The step budget ran out; call `proceed` to go on.
    Paused,
}

impl View for Outcome {
    type V = OutcomeV;

    open spec fn view(&self) -> OutcomeV {
        match self {
            Outcome::Done(t) => OutcomeV::Done(t@),
            Outcome::Need(r) => OutcomeV::Need(r@),
            Outcome::Paused => OutcomeV::Paused,
        }
    }
}

/// The evaluator's state: the evaluation stack, the instruction queue and
/// its cursor, the two memories, the function-definition accumulator, the
/// pending numeric computation, the error signals not yet drained, and the
/// assembly side channel.
pub struct ParserState {
    /// Whether a function definition is in progress.
    pub function_mode: bool,
    /// Kept for the caller's use; the library itself prints nothing.
    pub verbose: bool,
    /// The evaluation stack; its top is the vector's end.
    pub stack: Vec<Token>,
    /// The instruction queue: every token submitted so far, with spliced
    /// function bodies.
    pub token_stack: Vec<Token>,
    /// Variable memory.
    pub local_memory: Table<Token>,
    /// The function-definition accumulator.
    pub function_stack: Vec<Token>,
    /// Function memory.
    pub function_memory: Table<Vec<Token>>,
    /// The read cursor into the instruction queue.
    pub token_index: usize,
    /// The assembly lines of the current submission.
    pub assembly: Vec<String>,
    /// The next free temporary register of the assembly channel.
    pub temp_reg_index: i128,
    /// The numeric computation waited on, if any.
    pub pending: Option<Pending>,
    /// Error signals not yet drained by the sink.
    pub errors: Vec<ErrorSignal>,
}

impl View for ParserState {
    type V = StateV;

    open spec fn view(&self) -> StateV {
        StateV {
            stack: self.stack.deep_view(),
            queue: self.token_stack.deep_view(),
            cursor: self.token_index as int,
            vars: self.local_memory@,
            funcs: self.function_memory@,
            def_stack: self.function_stack.deep_view(),
            def_mode: self.function_mode,
            pending: self.pending.deep_view(),
            errors: self.errors.deep_view(),
            assembly: self.assembly.deep_view(),
            reg: self.temp_reg_index as int,
        }
    }
}

/// An identical copy of a token vector.
fn dup_tokens(v: &Vec<Token>) -> (r: Vec<Token>)
    ensures
        r.deep_view() == v.deep_view(),
{
    let mut r: Vec<Token> = Vec::new();
    let mut i: usize = 0;
    while i < v.len()
        invariant
            i <= v@.len(),
            r.deep_view() =~= v.deep_view().take(i as int),
        decreases v@.len() - i,
    {
        let ghost rv_old = r.deep_view();
        let t = v[i].dup();
        let ghost tv = t@;
        r.push(t);
        i = i + 1;
        proof {
            assert(r.deep_view() =~= rv_old.push(tv));
            assert(tv == v.deep_view()[i - 1]);
            assert(r.deep_view() =~= v.deep_view().take(i as int));
        }
    }
    proof {
        assert(v.deep_view().take(v.deep_view().len() as int) =~= v.deep_view());
    }
    r
}

/// The request a pending computation asks the caller for.
fn request_from(p: &Pending) -> (r: Request)
    ensures
        r@ == request_of(p@),
{
    match p {
        Pending::Bin { op, first, second } => Request::Binary {
            op: op.token_type,
            first: first.value.clone(),
            second: second.value.clone(),
        },
        Pending::CastInt { value, op: _ } => Request::CastInt { text: value.value.clone() },
        Pending::CastDec { value, op: _ } => Request::CastDec { text: value.value.clone() },
        Pending::Truth { value, op: _, negate: _ } => Request::Truth {
            text: value.value.clone(),
        },
        Pending::Sqrt { value, op: _ } => Request::Sqrt { text: value.value.clone() },
    }
}

pub trait Parser: View<V = StateV> + Sized {
    /// Structural well-formedness: the memories hold no name twice and the
    /// cursor stays within the queue.
    spec fn wf_core(&self) -> bool;

    /// Pops the top of the evaluation stack with variable resolution: a
    /// token whose text names a variable stands for the stored token.
    fn variable_check_pop(&mut self) -> (r: Option<Token>)
        requires
            old(self).wf_core(),
        ensures
            final(self).wf_core(),
            final(self)@ == pop_resolved(old(self)@).0,
            match r {
                Some(t) => pop_resolved(old(self)@).1 == Some(t@),
                None => pop_resolved(old(self)@).1 is None,
            },
    ;

    /// Consumes one token in normal mode, exactly as the model's `dispatch`
    /// says.
    fn match_token_type(&mut self, token: Token)
        requires
            old(self).wf_core(),
            reg_room(old(self)@),
        ensures
            final(self).wf_core(),
            final(self)@ == dispatch(old(self)@, token@),
    ;

    /// Submits tokens: appends them to the instruction queue, resets the
    /// assembly channel, abandons any definition left unfinished by an
    /// earlier call (its accumulator is discarded), and interprets until
    /// the queue is consumed (`Done`, with the popped result or the empty
    /// sentinel), a numeric computation is needed (`Need`), or the step
    /// budget runs out (`Paused`).
    fn parse(&mut self, tokens: Vec<Token>) -> (out: Outcome)
        requires
            old(self).wf_core(),
            reg_in_range(old(self)@),
        ensures
            final(self).wf_core(),
            reg_in_range(final(self)@),
            exists|n: nat|
                run_outcome(begin(old(self)@, tokens.deep_view()), n, final(self)@, out@),
    ;

    /// Hands the evaluator the answer to the request it stopped on, and
    /// interprets on as `parse` does.
    fn resume(&mut self, reply: Reply) -> (out: Outcome)
        requires
            old(self).wf_core(),
            reg_in_range(old(self)@),
            old(self)@.pending matches Some(p) && reply_fits(p, reply@),
        ensures
            final(self).wf_core(),
            reg_in_range(final(self)@),
            exists|n: nat| run_outcome(apply_reply(old(self)@, reply@), n, final(self)@, out@),
    ;

    /// Interprets on after a `Paused` outcome.
    fn proceed(&mut self) -> (out: Outcome)
        requires
            old(self).wf_core(),
            reg_in_range(old(self)@),
        ensures
            final(self).wf_core(),
            reg_in_range(final(self)@),
            exists|n: nat| run_outcome(old(self)@, n, final(self)@, out@),
    ;

    /// The bind-and-push rule on already-popped operands: `first` the
    /// value, `second` the target.  With either missing, nothing happens.
    fn assign_value(&mut self, first: Option<Token>, second: Option<Token>, token: Token)
        requires
            old(self).wf_core(),
        ensures
            final(self).wf_core(),
            final(self)@ == assign_of_operands(
                old(self)@,
                first.deep_view(),
                second.deep_view(),
                token@,
            ),
    ;

    /// Starts the truthiness conversion of an already-popped operand.
    fn convert_to_bool(&mut self, first: Option<Token>, token: Token)
        requires
            old(self).wf_core(),
        ensures
            final(self).wf_core(),
            final(self)@ == truth_of_operand(old(self)@, first.deep_view(), token@, false),
    ;

    /// Emits a load-immediate line for the token and claims the next
    /// temporary register.
    fn assembly_li(&mut self, token: Token)
        requires
            old(self).wf_core(),
            reg_room(old(self)@),
        ensures
            final(self).wf_core(),
            final(self)@ == (StateV {
                assembly: old(self)@.assembly.push(li_line(old(self)@.reg, token@.text)),
                reg: old(self)@.reg + 1,
                ..old(self)@
            }),
    ;

    /// Emits an add line over the two most recent temporary registers and
    /// releases one.
    fn assembly_add(&mut self)
        requires
            old(self).wf_core(),
            reg_room(old(self)@),
        ensures
            final(self).wf_core(),
            final(self)@ == (StateV {
                assembly: old(self)@.assembly.push(add_line(old(self)@.reg)),
                reg: old(self)@.reg - 1,
                ..old(self)@
            }),
    ;

    /// Emits a sub line over the two most recent temporary registers and
    /// releases one.
    fn assembly_sub(&mut self)
        requires
            old(self).wf_core(),
            reg_room(old(self)@),
        ensures
            final(self).wf_core(),
            final(self)@ == (StateV {
                assembly: old(self)@.assembly.push(sub_line(old(self)@.reg)),
                reg: old(self)@.reg - 1,
                ..old(self)@
            }),
    ;

    /// Hands out and clears the assembly lines of the most recent
    /// submission.
    fn output_assembly(&mut self) -> (r: Vec<String>)
        requires
            old(self).wf_core(),
        ensures
            final(self).wf_core(),
            r.deep_view() == old(self)@.assembly,
            final(self)@ == (StateV { assembly: Seq::empty(), ..old(self)@ }),
    ;

    /// Clears the assembly channel and the register counter.
    fn reset_assembly(&mut self)
        requires
            old(self).wf_core(),
        ensures
            final(self).wf_core(),
            final(self)@ == (StateV { assembly: Seq::empty(), reg: 0, ..old(self)@ }),
    ;

    /// Hands out and clears the error signals collected so far.
    fn drain_errors(&mut self) -> (r: Vec<ErrorSignal>)
        requires
            old(self).wf_core(),
        ensures
            final(self).wf_core(),
            r.deep_view() == old(self)@.errors,
            final(self)@ == (StateV { errors: Seq::empty(), ..old(self)@ }),
    ;
}

impl ParserState {
    /// Starts the truthiness conversion, with or without negation.
    fn begin_truth(&mut self, first: Option<Token>, token: Token, negate: bool)
        requires
            old(self).wf_core(),
        ensures
            final(self).wf_core(),
            final(self)@ == truth_of_operand(old(self)@, first.deep_view(), token@, negate),
    {
        match first {
            None => {
                self.errors.push(ErrorSignal::StackEmpty);
                proof {
                    assert(self@ =~~= truth_of_operand(old(self)@, None, token@, negate));
                }
            },
            Some(a) => {
                let fits = a.token_type == TokenType::NumericIntLiteral || a.token_type
                    == TokenType::NumericDecLiteral || a.token_type == TokenType::BoolLiteral;
                let ghost av = a@;
                let ghost tokv = token@;
                if fits {
                    self.pending = Some(Pending::Truth { value: a, op: token, negate: negate });
                } else {
                    self.errors.push(
                        ErrorSignal::InvalidTypeCast {
                            target_kind: TokenType::BoolLiteral,
                            value: a,
                            operation: token,
                        },
                    );
                }
                proof {
                    assert(self@ =~~= truth_of_operand(old(self)@, Some(av), tokv, negate));
                }
            },
        }
    }

    /// Starts an `int` or `dec` cast of an already-popped operand.
    fn begin_cast(&mut self, first: Option<Token>, token: Token, to_int: bool)
        requires
            old(self).wf_core(),
        ensures
            final(self).wf_core(),
            final(self)@ == cast_of_operand(
                old(self)@,
                first.deep_view(),
                token@,
                if to_int {
                    TokenType::NumericIntLiteral
                } else {
                    TokenType::NumericDecLiteral
                },
            ),
    {
        let ghost target = if to_int {
            TokenType::NumericIntLiteral
        } else {
            TokenType::NumericDecLiteral
        };
        match first {
            None => {
                self.errors.push(ErrorSignal::StackEmpty);
                proof {
                    assert(self@ =~~= cast_of_operand(old(self)@, None, token@, target));
                }
            },
            Some(a) => {
                let fits = a.token_type == TokenType::NumericIntLiteral || a.token_type
                    == TokenType::NumericDecLiteral || a.token_type == TokenType::BoolLiteral;
                let ghost av = a@;
                let ghost tokv = token@;
                if fits {
                    if to_int {
                        self.pending = Some(Pending::CastInt { value: a, op: token });
                    } else {
                        self.pending = Some(Pending::CastDec { value: a, op: token });
                    }
                } else {
                    let kind = if to_int {
                        TokenType::NumericIntLiteral
                    } else {
                        TokenType::NumericDecLiteral
                    };
                    self.errors.push(
                        ErrorSignal::InvalidTypeCast {
                            target_kind: kind,
                            value: a,
                            operation: token,
                        },
                    );
                }
                proof {
                    assert(self@ =~~= cast_of_operand(old(self)@, Some(av), tokv, target));
                }
            },
        }
    }

    /// Starts the square root of an already-popped operand.
    fn begin_sqrt(&mut self, first: Option<Token>, token: Token)
        requires
            old(self).wf_core(),
        ensures
            final(self).wf_core(),
            final(self)@ == sqrt_of_operand(old(self)@, first.deep_view(), token@),
    {
        match first {
            None => {
                self.errors.push(ErrorSignal::StackEmpty);
                proof {
                    assert(self@ =~~= sqrt_of_operand(old(self)@, None, token@));
                }
            },
            Some(a) => {
                let ghost av = a@;
                let ghost tokv = token@;
                self.pending = Some(Pending::Sqrt { value: a, op: token });
                proof {
                    assert(self@ =~~= sqrt_of_operand(old(self)@, Some(av), tokv));
                }
            },
        }
    }

    /// Starts a binary arithmetic operation on already-popped operands.
    fn begin_binary(&mut self, first: Option<Token>, second: Option<Token>, token: Token)
        requires
            old(self).wf_core(),
        ensures
            final(self).wf_core(),
            final(self)@ == binary_of_operands(
                old(self)@,
                first.deep_view(),
                second.deep_view(),
                token@,
            ),
    {
        let ghost firstv = first.deep_view();
        let ghost secondv = second.deep_view();
        let ghost tokv = token@;
        match (first, second) {
            (Some(a), Some(b)) => {
                let a_num = a.token_type == TokenType::NumericIntLiteral || a.token_type
                    == TokenType::NumericDecLiteral;
                let b_num = b.token_type == TokenType::NumericIntLiteral || b.token_type
                    == TokenType::NumericDecLiteral;
                if a_num && b_num {
                    self.pending = Some(Pending::Bin { op: token, first: a, second: b });
                } else if b_num {
                    self.errors.push(
                        ErrorSignal::WrongTypeFirst { value: a.value, operation: token.value },
                    );
                } else if a_num {
                    self.errors.push(
                        ErrorSignal::WrongTypeSecond {
                            first: a.value,
                            second: b.value,
                            operation: token.value,
                        },
                    );
                } else {
                    self.errors.push(
                        ErrorSignal::WrongTypeBoth {
                            first: a.value,
                            second: b.value,
                            operation: token.value,
                        },
                    );
                }
                proof {
                    assert(self@ =~~= binary_of_operands(old(self)@, firstv, secondv, tokv));
                }
            },
            _ => {
                self.errors.push(ErrorSignal::StackEmpty);
                proof {
                    assert(self@ =~~= binary_of_operands(old(self)@, firstv, secondv, tokv));
                }
            },
        }
    }

    /// Consumes the token under the cursor.
    fn step_once(&mut self)
        requires
            old(self).wf_core(),
            steppable(old(self)@),
            reg_room(old(self)@),
        ensures
            final(self).wf_core(),
            final(self)@ == step(old(self)@),
    {
        let qlen = self.token_stack.len();
        let t = self.token_stack[self.token_index].dup();
        proof {
            assert(self.token_index < qlen);
        }
        self.token_index = self.token_index + 1;
        proof {
            assert(self@ =~~= (StateV { cursor: old(self)@.cursor + 1, ..old(self)@ }));
        }
        if self.function_mode {
            if t.token_type == TokenType::Function {
                self.function_mode = false;
                let name_opt = self.function_stack.pop();
                match name_opt {
                    Some(name) => {
                        proof {
                            assert(self.function_stack.deep_view() =~= old(
                                self,
                            ).function_stack.deep_view().drop_last());
                        }
                        if self.function_memory.contains(&name.value) {
                            self.errors.push(
                                ErrorSignal::FunctionAlreadyExists { name: name.value },
                            );
                            self.function_stack = Vec::new();
                        } else {
                            let body = self.function_stack.split_off(0);
                            proof {
                                assert(body.deep_view() =~= old(
                                    self,
                                ).function_stack.deep_view().drop_last());
                                assert(self.function_stack.deep_view() =~= Seq::<TokenV>::empty());
                            }
                            self.function_memory.set(name.value, body);
                        }
                    },
                    None => {},
                }
            } else {
                self.function_stack.push(t);
            }
            proof {
                assert(self@ =~~= step(old(self)@));
            }
        } else {
            self.match_token_type(t);
            proof {
                assert(self@ =~~= step(old(self)@));
            }
        }
    }

    /// Interprets from the cursor until the queue is consumed, a numeric
    /// computation is needed, or the step budget runs out; then reports as
    /// `run_outcome` describes.
    fn run_steps(&mut self) -> (out: Outcome)
        requires
            old(self).wf_core(),
            reg_in_range(old(self)@),
        ensures
            final(self).wf_core(),
            reg_in_range(final(self)@),
            exists|n: nat| run_outcome(old(self)@, n, final(self)@, out@),
    {
        let ghost s0 = self@;
        let mut fuel: usize = STEP_BUDGET;
        let ghost mut steps: nat = 0nat;
        while fuel > 0 && self.pending.is_none() && self.token_index < self.token_stack.len()
            invariant
                self.wf_core(),
                reg_in_range(self@),
                steps + fuel == STEP_BUDGET,
                self@ == run_n(s0, steps),
            decreases fuel,
        {
            proof {
                lemma_step_reg_in_range(self@);
            }
            self.step_once();
            fuel = fuel - 1;
            proof {
                steps = steps + 1nat;
                assert(run_n(s0, steps) == step(run_n(s0, (steps - 1) as nat)));
            }
        }
        match self.pending.as_ref() {
            Some(p) => {
                let req = request_from(p);
                let out = Outcome::Need(req);
                proof {
                    assert(run_outcome(s0, steps, self@, out@));
                }
                return out;
            },
            None => {},
        }
        if self.token_index >= self.token_stack.len() {
            let ghost s1 = self@;
            match self.stack.pop() {
                Some(t) => {
                    let out = Outcome::Done(t);
                    proof {
                        assert(self@ =~~= (StateV { stack: s1.stack.drop_last(), ..s1 }));
                        assert(run_outcome(s0, steps, self@, out@));
                    }
                    out
                },
                None => {
                    let out = Outcome::Done(
                        Token { token_type: TokenType::NoType, value: String::new() },
                    );
                    proof {
                        assert(run_outcome(s0, steps, self@, out@));
                    }
                    out
                },
            }
        } else {
            let out = Outcome::Paused;
            proof {
                assert(run_outcome(s0, steps, self@, out@));
            }
            out
        }
    }
}

impl Parser for ParserState {
    open spec fn wf_core(&self) -> bool {
        &&& self.local_memory.wf()
        &&& self.function_memory.wf()
        &&& self.token_index as int <= self.token_stack@.len()
    }

    fn variable_check_pop(&mut self) -> (r: Option<Token>) {
        let first = self.stack.pop();
        proof {
            if old(self).stack@.len() > 0 {
                assert(self.stack.deep_view() =~= old(self).stack.deep_view().drop_last());
            }
        }
        match first {
            Some(a) => {
                match self.local_memory.get(&a.value) {
                    Some(stored) => {
                        let r = stored.dup();
                        Some(r)
                    },
                    None => Some(a),
                }
            },
            None => None,
        }
    }

    fn match_token_type(&mut self, token: Token) {
        let ghost pre = self@;
        let ghost tokv = token@;
        match token.token_type {
            TokenType::Greater => {
                self.function_mode = true;
                proof {
                    assert(self@ =~~= dispatch(pre, tokv));
                }
            },
            TokenType::NumericIntLiteral => {
                self.assembly_li(token.dup());
                self.stack.push(token);
                proof {
                    assert(self.stack.deep_view() =~= pre.stack.push(tokv));
                    assert(self@ =~~= dispatch(pre, tokv));
                }
            },
            TokenType::NumericDecLiteral => {
                self.stack.push(token);
                proof {
                    assert(self.stack.deep_view() =~= pre.stack.push(tokv));
                    assert(self@ =~~= dispatch(pre, tokv));
                }
            },
            TokenType::BoolLiteral => {
                if token.value == String::from_str("true") {
                    self.stack.push(
                        Token { token_type: TokenType::BoolLiteral, value: String::from_str("1") },
                    );
                } else if token.value == String::from_str("false") {
                    self.stack.push(
                        Token { token_type: TokenType::BoolLiteral, value: String::from_str("0") },
                    );
                }
                proof {
                    assert(self@ =~~= dispatch(pre, tokv));
                }
            },
            TokenType::Bang => {
                let first = self.variable_check_pop();
                self.begin_truth(first, token, true);
                proof {
                    assert(self@ =~~= dispatch(pre, tokv));
                }
            },
            TokenType::TypeBoolKeyword => {
                let first = self.variable_check_pop();
                self.convert_to_bool(first, token);
                proof {
                    assert(self@ =~~= dispatch(pre, tokv));
                }
            },
            TokenType::TypeIntKeyword => {
                let first = self.variable_check_pop();
                self.begin_cast(first, token, true);
                proof {
                    assert(self@ =~~= dispatch(pre, tokv));
                }
            },
            TokenType::TypeDecKeyword => {
                let first = self.variable_check_pop();
                self.begin_cast(first, token, false);
                proof {
                    assert(self@ =~~= dispatch(pre, tokv));
                }
            },
            TokenType::TypeSqrtKeyword => {
                let first = self.variable_check_pop();
                self.begin_sqrt(first, token);
                proof {
                    assert(self@ =~~= dispatch(pre, tokv));
                }
            },
            TokenType::Question => {
                let three = self.variable_check_pop();
                let two = self.variable_check_pop();
                let one = self.variable_check_pop();
                match three {
                    Some(c) => {
                        if two.is_some() && one.is_some() {
                            if c.value == String::from_str("1") {
                                self.assign_value(one, two, token);
                            }
                        } else {
                            self.errors.push(ErrorSignal::StackEmpty);
                        }
                    },
                    None => {
                        self.errors.push(ErrorSignal::StackEmpty);
                    },
                }
                proof {
                    assert(self@ =~~= dispatch(pre, tokv));
                }
            },
            TokenType::Assignment => {
                let second = self.stack.pop();
                proof {
                    if pre.stack.len() > 0 {
                        assert(self.stack.deep_view() =~= pre.stack.drop_last());
                    }
                }
                let ghost mid = self@;
                let first = self.stack.pop();
                proof {
                    if mid.stack.len() > 0 {
                        assert(self.stack.deep_view() =~= mid.stack.drop_last());
                    }
                }
                self.assign_value(first, second, token);
                proof {
                    assert(self@ =~~= dispatch(pre, tokv));
                }
            },
            TokenType::Identifier => {
                match self.local_memory.get(&token.value) {
                    Some(stored) => {
                        let s = stored.dup();
                        if self.stack.len() == 0 {
                            self.stack.push(s);
                        } else {
                            self.stack.push(token);
                        }
                        proof {
                            assert(self@ =~~= dispatch(pre, tokv));
                        }
                    },
                    None => {
                        let has_fn = self.function_memory.contains(&token.value);
                        if has_fn {
                            let body = match self.function_memory.get(&token.value) {
                                Some(body_ref) => dup_tokens(body_ref),
                                None => Vec::new(),
                            };
                            let ghost bodyv = body.deep_view();
                            proof {
                                assert(bodyv == pre.funcs[tokv.text]);
                            }
                            let mut k: usize = 0;
                            let end = body.len();
                            while k < end
                                invariant
                                    self.wf_core(),
                                    k <= end,
                                    end == bodyv.len(),
                                    bodyv == body.deep_view(),
                                    self@ =~= (StateV {
                                        queue: pre.queue.take(pre.cursor) + bodyv.take(k as int)
                                            + pre.queue.skip(pre.cursor),
                                        ..pre
                                    }),
                                    self.token_stack@.len() == pre.queue.len() + k,
                                    0 <= pre.cursor <= pre.queue.len(),
                                    self.token_index as int == pre.cursor,
                                decreases end - k,
                            {
                                let cur_len = self.token_stack.len();
                                let ghost qv_old = self.token_stack.deep_view();
                                let t = body[k].dup();
                                let ghost tv = t@;
                                proof {
                                    assert(self.token_index + k <= cur_len);
                                }
                                self.token_stack.insert(self.token_index + k, t);
                                k = k + 1;
                                proof {
                                    assert(self.token_stack.deep_view() =~= qv_old.insert(
                                        pre.cursor + (k - 1),
                                        tv,
                                    ));
                                    assert(tv == bodyv[k - 1]);
                                    assert(self.token_stack.deep_view() =~= pre.queue.take(
                                        pre.cursor,
                                    ) + bodyv.take(k as int) + pre.queue.skip(pre.cursor));
                                }
                            }
                            proof {
                                assert(bodyv.take(bodyv.len() as int) =~= bodyv);
                                assert(self@ =~~= dispatch(pre, tokv));
                            }
                        } else {
                            self.stack.push(token);
                            proof {
                                assert(self@ =~~= dispatch(pre, tokv));
                            }
                        }
                    },
                }
            },
            TokenType::Addition | TokenType::Multiplication | TokenType::Subtraction
                | TokenType::Division | TokenType::Carrot => {
                let second = self.variable_check_pop();
                let first = self.variable_check_pop();
                self.begin_binary(first, second, token);
                proof {
                    assert(self@ =~~= dispatch(pre, tokv));
                }
            },
            _ => {
                self.errors.push(ErrorSignal::OperationNotImplemented { value: token.value });
                proof {
                    assert(self@ =~~= dispatch(pre, tokv));
                }
            },
        }
    }

    fn parse(&mut self, tokens: Vec<Token>) -> (out: Outcome) {
        let ghost pre = self@;
        let ghost toksv = tokens.deep_view();
        let mut tokens = tokens;
        self.reset_assembly();
        self.function_mode = false;
        self.function_stack = Vec::new();
        self.token_stack.append(&mut tokens);
        proof {
            assert(self@ =~~= begin(pre, toksv));
            lemma_begin_reg_in_range(pre, toksv);
        }
        self.run_steps()
    }

    fn resume(&mut self, reply: Reply) -> (out: Outcome) {
        let ghost pre = self@;
        let ghost rv = reply@;
        let pend = self.pending.take();
        match pend {
            Some(p) => {
                match p {
                    Pending::Bin { op, first, second } => {
                        match reply {
                            Reply::Binary { text, whole } => {
                                let keep_int = first.token_type == TokenType::NumericIntLiteral
                                    && second.token_type == TokenType::NumericIntLiteral;
                                let kind = if whole && keep_int {
                                    TokenType::NumericIntLiteral
                                } else {
                                    TokenType::NumericDecLiteral
                                };
                                self.stack.push(Token { token_type: kind, value: text });
                                proof {
                                    assert(reg_room(self@));
                                }
                                if op.token_type == TokenType::Addition {
                                    self.assembly_add();
                                } else if op.token_type == TokenType::Subtraction {
                                    self.assembly_sub();
                                }
                            },
                            Reply::BinaryFirstBad => {
                                self.errors.push(
                                    ErrorSignal::WrongTypeFirst {
                                        value: first.value,
                                        operation: op.value,
                                    },
                                );
                            },
                            Reply::BinarySecondBad => {
                                self.errors.push(
                                    ErrorSignal::WrongTypeSecond {
                                        first: first.value,
                                        second: second.value,
                                        operation: op.value,
                                    },
                                );
                            },
                            Reply::BinaryBothBad => {
                                self.errors.push(
                                    ErrorSignal::WrongTypeBoth {
                                        first: first.value,
                                        second: second.value,
                                        operation: op.value,
                                    },
                                );
                            },
                            _ => {
                                proof {
                                    assert(false);
                                }
                            },
                        }
                    },
                    Pending::CastInt { value, op } => {
                        match reply {
                            Reply::Cast { text } => {
                                self.stack.push(
                                    Token {
                                        token_type: TokenType::NumericIntLiteral,
                                        value: text,
                                    },
                                );
                            },
                            Reply::CastBad => {
                                self.errors.push(
                                    ErrorSignal::WrongTypeFirst {
                                        value: value.value,
                                        operation: op.value,
                                    },
                                );
                            },
                            _ => {
                                proof {
                                    assert(false);
                                }
                            },
                        }
                    },
                    Pending::CastDec { value, op } => {
                        match reply {
                            Reply::Cast { text } => {
                                self.stack.push(
                                    Token {
                                        token_type: TokenType::NumericDecLiteral,
                                        value: text,
                                    },
                                );
                            },
                            Reply::CastBad => {
                                self.errors.push(
                                    ErrorSignal::WrongTypeFirst {
                                        value: value.value,
                                        operation: op.value,
                                    },
                                );
                            },
                            _ => {
                                proof {
                                    assert(false);
                                }
                            },
                        }
                    },
                    Pending::Sqrt { value, op } => {
                        match reply {
                            Reply::Cast { text } => {
                                self.stack.push(
                                    Token {
                                        token_type: TokenType::NumericIntLiteral,
                                        value: text,
                                    },
                                );
                            },
                            Reply::CastBad => {
                                self.errors.push(
                                    ErrorSignal::WrongTypeFirst {
                                        value: value.value,
                                        operation: op.value,
                                    },
                                );
                            },
                            _ => {
                                proof {
                                    assert(false);
                                }
                            },
                        }
                    },
                    Pending::Truth { value, op, negate } => {
                        match reply {
                            Reply::Truth { nonzero } => {
                                let truthy = if negate {
                                    !nonzero
                                } else {
                                    nonzero
                                };
                                let text = if truthy {
                                    String::from_str("1")
                                } else {
                                    String::from_str("0")
                                };
                                self.stack.push(
                                    Token { token_type: TokenType::BoolLiteral, value: text },
                                );
                            },
                            Reply::TruthBad => {
                                self.errors.push(
                                    ErrorSignal::WrongTypeFirst {
                                        value: value.value,
                                        operation: op.value,
                                    },
                                );
                            },
                            _ => {
                                proof {
                                    assert(false);
                                }
                            },
                        }
                    },
                }
            },
            None => {
                proof {
                    assert(false);
                }
            },
        }
        proof {
            assert(self@ =~~= apply_reply(pre, rv));
            lemma_reply_reg_in_range(pre, rv);
        }
        self.run_steps()
    }

    fn proceed(&mut self) -> (out: Outcome) {
        self.run_steps()
    }

    fn assign_value(&mut self, first: Option<Token>, second: Option<Token>, token: Token) {
        let ghost pre = self@;
        let ghost firstv = first.deep_view();
        let ghost secondv = second.deep_view();
        let ghost tokv = token@;
        match (first, second) {
            (Some(a), Some(b)) => {
                let mismatch: Option<TokenType> = match self.local_memory.get(&b.value) {
                    Some(stored) => {
                        if stored.token_type == a.token_type {
                            None
                        } else {
                            Some(stored.token_type)
                        }
                    },
                    None => None,
                };
                match mismatch {
                    Some(stored_kind) => {
                        self.errors.push(
                            ErrorSignal::AssignmentTypeMismatch {
                                value: a,
                                target: b,
                                stored_kind: stored_kind,
                                operation: token.value,
                            },
                        );
                        proof {
                            assert(self@ =~~= assign_of_operands(pre, firstv, secondv, tokv));
                        }
                    },
                    None => {
                        let out = Token { token_type: a.token_type, value: a.value };
                        self.local_memory.set(b.value, out.dup());
                        self.stack.push(out);
                        proof {
                            assert(self.stack.deep_view() =~= pre.stack.push(firstv->Some_0));
                            assert(self@ =~~= assign_of_operands(pre, firstv, secondv, tokv));
                        }
                    },
                }
            },
            _ => {
                proof {
                    assert(self@ =~~= assign_of_operands(pre, firstv, secondv, tokv));
                }
            },
        }
    }

    fn convert_to_bool(&mut self, first: Option<Token>, token: Token) {
        self.begin_truth(first, token, false);
    }

    fn assembly_li(&mut self, token: Token) {
        let ghost pre = self@;
        let line = String::from_str("li t").concat(
            decimal_text(self.temp_reg_index).as_str(),
        ).concat(" ").concat(token.value.as_str());
        proof {
            assert(line@ =~= li_line(pre.reg, token@.text));
        }
        self.assembly.push(line);
        self.temp_reg_index = self.temp_reg_index + 1;
        proof {
            assert(self.assembly.deep_view() =~= pre.assembly.push(li_line(pre.reg, token@.text)));
            assert(self@ =~~= (StateV {
                assembly: pre.assembly.push(li_line(pre.reg, token@.text)),
                reg: pre.reg + 1,
                ..pre
            }));
        }
    }

    fn assembly_add(&mut self) {
        let ghost pre = self@;
        let low = decimal_text(self.temp_reg_index - 2);
        let high = decimal_text(self.temp_reg_index - 1);
        let line = String::from_str("add t").concat(low.as_str()).concat(" t").concat(
            low.as_str(),
        ).concat(" t").concat(high.as_str());
        proof {
            assert(line@ =~= add_line(pre.reg));
        }
        self.assembly.push(line);
        self.temp_reg_index = self.temp_reg_index - 1;
        proof {
            assert(self.assembly.deep_view() =~= pre.assembly.push(add_line(pre.reg)));
            assert(self@ =~~= (StateV {
                assembly: pre.assembly.push(add_line(pre.reg)),
                reg: pre.reg - 1,
                ..pre
            }));
        }
    }

    fn assembly_sub(&mut self) {
        let ghost pre = self@;
        let low = decimal_text(self.temp_reg_index - 2);
        let high = decimal_text(self.temp_reg_index - 1);
        let line = String::from_str("sub t").concat(low.as_str()).concat(" t").concat(
            low.as_str(),
        ).concat(" t").concat(high.as_str());
        proof {
            assert(line@ =~= sub_line(pre.reg));
        }
        self.assembly.push(line);
        self.temp_reg_index = self.temp_reg_index - 1;
        proof {
            assert(self.assembly.deep_view() =~= pre.assembly.push(sub_line(pre.reg)));
            assert(self@ =~~= (StateV {
                assembly: pre.assembly.push(sub_line(pre.reg)),
                reg: pre.reg - 1,
                ..pre
            }));
        }
    }

    fn output_assembly(&mut self) -> (r: Vec<String>) {
        let r = self.assembly.split_off(0);
        proof {
            assert(r.deep_view() =~= old(self)@.assembly);
            assert(self.assembly.deep_view() =~= Seq::<Seq<char>>::empty());
            assert(self@ =~~= (StateV { assembly: Seq::empty(), ..old(self)@ }));
        }
        r
    }

    fn reset_assembly(&mut self) {
        self.assembly = Vec::new();
        self.temp_reg_index = 0;
        proof {
            assert(self@ =~~= (StateV { assembly: Seq::empty(), reg: 0, ..old(self)@ }));
        }
    }

    fn drain_errors(&mut self) -> (r: Vec<ErrorSignal>) {
        let r = self.errors.split_off(0);
        proof {
            assert(r.deep_view() =~= old(self)@.errors);
            assert(self.errors.deep_view() =~= Seq::<ErrorV>::empty());
            assert(self@ =~~= (StateV { errors: Seq::empty(), ..old(self)@ }));
        }
        r
    }
}

/// Creates an evaluator whose variable memory is seeded with `e`, `pi` and
/// `C` and whose other state is empty.
pub fn create_parser(verbose: bool) -> (p: ParserState)
    ensures
        p@ == initial_state(),
        p.wf_core(),
        reg_in_range(p@),
{
    let mut local_memory: Table<Token> = Table::new();
    local_memory.set(
        String::from_str("e"),
        Token {
            token_type: TokenType::NumericDecLiteral,
            value: String::from_str("2.718281828459045"),
        },
    );
    local_memory.set(
        String::from_str("pi"),
        Token {
            token_type: TokenType::NumericDecLiteral,
            value: String::from_str("3.141592653589793"),
        },
    );
    local_memory.set(
        String::from_str("C"),
        Token { token_type: TokenType::NumericIntLiteral, value: String::from_str("299792458") },
    );
    let p = ParserState {
        function_mode: false,
        verbose,
        stack: Vec::new(),
        token_stack: Vec::new(),
        local_memory,
        function_stack: Vec::new(),
        function_memory: Table::new(),
        token_index: 0,
        assembly: Vec::new(),
        temp_reg_index: 0,
        pending: None,
        errors: Vec::new(),
    };
    proof {
        assert(p@ =~~= initial_state());
    }
    p
}

} // verus!
