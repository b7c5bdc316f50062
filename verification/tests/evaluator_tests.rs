use component::lexer::Lex;
use component::lexer::Token;
use component::lexer::TokenType;
use component::parse::create_parser;
use component::parse::ErrorSignal;
use component::parse::Outcome;
use component::parse::Parser;
use component::parse::ParserState;
use component::parse::Reply;
use component::parse::Request;

fn tok(kind: TokenType, text: &str) -> Token {
    Token {
        token_type: kind,
        value: text.to_string(),
    }
}

/// Answers a numeric request the way the interpreter's host does: parse the
/// texts as IEEE doubles, compute, and render with the default formatting.
fn answer(req: &Request) -> Reply {
    match req {
        Request::Binary { op, first, second } => {
            let a = first.parse::<f64>();
            let b = second.parse::<f64>();
            match (a, b) {
                (Ok(x), Ok(y)) => {
                    let v = match op {
                        TokenType::Addition => x + y,
                        TokenType::Subtraction => x - y,
                        TokenType::Multiplication => x * y,
                        TokenType::Division => x / y,
                        TokenType::Carrot => x.powf(y),
                        _ => panic!("not a binary operator"),
                    };
                    Reply::Binary {
                        text: v.to_string(),
                        whole: v.fract() == 0.0,
                    }
                }
                (Err(_), Ok(_)) => Reply::BinaryFirstBad,
                (Ok(_), Err(_)) => Reply::BinarySecondBad,
                (Err(_), Err(_)) => Reply::BinaryBothBad,
            }
        }
        Request::CastInt { text } => match text.parse::<f64>() {
            Ok(v) => Reply::Cast {
                text: (v as i64).to_string(),
            },
            Err(_) => Reply::CastBad,
        },
        Request::CastDec { text } => match text.parse::<f64>() {
            Ok(v) => Reply::Cast {
                text: v.to_string(),
            },
            Err(_) => Reply::CastBad,
        },
        Request::Truth { text } => match text.parse::<f64>() {
            Ok(v) => Reply::Truth {
                nonzero: v != 0.0,
            },
            Err(_) => Reply::TruthBad,
        },
        Request::Sqrt { text } => match text.parse::<f64>() {
            Ok(v) => Reply::Cast {
                text: v.sqrt().to_string(),
            },
            Err(_) => Reply::CastBad,
        },
    }
}

/// Submits tokens and answers the evaluator's requests until it is done.
fn run(p: &mut ParserState, tokens: Vec<Token>) -> Token {
    let mut out = p.parse(tokens);
    loop {
        match out {
            Outcome::Done(t) => return t,
            Outcome::Paused => {
                out = p.proceed();
            }
            Outcome::Need(req) => {
                let reply = answer(&req);
                out = p.resume(reply);
            }
        }
    }
}

#[test]
fn parse_test_1() {
    let input1 = vec![
        tok(TokenType::NumericIntLiteral, "1"),
        tok(TokenType::NumericIntLiteral, "1"),
        tok(TokenType::Addition, "+"),
    ];

    let mut p = create_parser(true);
    let out1 = run(&mut p, input1);

    assert_eq!(out1, tok(TokenType::NumericIntLiteral, "2"));
}

#[test]
fn parse_test_2() {
    let input2 = vec![
        tok(TokenType::NumericIntLiteral, "3"),
        tok(TokenType::NumericIntLiteral, "2"),
        tok(TokenType::Multiplication, "*"),
    ];

    let mut p = create_parser(true);
    let out2 = run(&mut p, input2);

    assert_eq!(out2, tok(TokenType::NumericIntLiteral, "6"));
}

#[test]
fn parse_test_3() {
    let input3 = vec![
        tok(TokenType::NumericIntLiteral, "3"),
        tok(TokenType::NumericIntLiteral, "2"),
        tok(TokenType::Addition, "+"),
        tok(TokenType::NumericIntLiteral, "10"),
        tok(TokenType::Multiplication, "*"),
    ];

    let mut p = create_parser(true);
    let out3 = run(&mut p, input3);

    assert_eq!(out3, tok(TokenType::NumericIntLiteral, "50"));
}

#[test]
fn parse_test_4() {
    let input4 = vec![
        tok(TokenType::Greater, ">"),
        tok(TokenType::Identifier, "t"),
        tok(TokenType::NumericIntLiteral, "1"),
        tok(TokenType::Identifier, "v"),
        tok(TokenType::NumericIntLiteral, "2"),
        tok(TokenType::Carrot, "^"),
        tok(TokenType::Identifier, "C"),
        tok(TokenType::NumericIntLiteral, "2"),
        tok(TokenType::Carrot, "^"),
        tok(TokenType::Division, "/"),
        tok(TokenType::Subtraction, "-"),
        tok(TokenType::TypeSqrtKeyword, "sqrt"),
        tok(TokenType::Division, "/"),
        tok(TokenType::Identifier, "s"),
        tok(TokenType::Function, "fn"),
    ];

    let mut p = create_parser(true);
    let out4 = run(&mut p, input4);

    assert_eq!(out4, tok(TokenType::NoType, ""));

    let input5 = vec![
        // Set var v
        tok(TokenType::NumericIntLiteral, "300040"),
        tok(TokenType::Identifier, "v"),
        tok(TokenType::Assignment, "="),
        // Set var t
        tok(TokenType::NumericIntLiteral, "30"),
        tok(TokenType::Identifier, "t"),
        tok(TokenType::Assignment, "="),
        // Call s
        tok(TokenType::Identifier, "s"),
    ];

    let out5 = run(&mut p, input5);

    assert_eq!(out5, tok(TokenType::NumericDecLiteral, "30.00001502479285"));
}

#[test]
fn int_result_kind_follows_wholeness() {
    let mut p = create_parser(false);
    let sum = run(
        &mut p,
        vec![
            tok(TokenType::NumericIntLiteral, "3"),
            tok(TokenType::NumericIntLiteral, "2"),
            tok(TokenType::Addition, "+"),
        ],
    );
    assert_eq!(sum, tok(TokenType::NumericIntLiteral, "5"));

    let half = run(
        &mut p,
        vec![
            tok(TokenType::NumericIntLiteral, "1"),
            tok(TokenType::NumericIntLiteral, "2"),
            tok(TokenType::Division, "/"),
        ],
    );
    assert_eq!(half, tok(TokenType::NumericDecLiteral, "0.5"));

    // A decimal operand keeps the result decimal even when the value is
    // whole.
    let whole_dec = run(
        &mut p,
        vec![
            tok(TokenType::NumericDecLiteral, "1.5"),
            tok(TokenType::NumericDecLiteral, "0.5"),
            tok(TokenType::Addition, "+"),
        ],
    );
    assert_eq!(whole_dec, tok(TokenType::NumericDecLiteral, "2"));
}

#[test]
fn assignment_persists_across_calls() {
    let mut p = create_parser(false);
    let first = run(
        &mut p,
        vec![
            tok(TokenType::NumericIntLiteral, "300040"),
            tok(TokenType::Identifier, "v"),
            tok(TokenType::Assignment, "="),
        ],
    );
    assert_eq!(first, tok(TokenType::NumericIntLiteral, "300040"));

    let second = run(
        &mut p,
        vec![
            tok(TokenType::NumericIntLiteral, "30"),
            tok(TokenType::Identifier, "t"),
            tok(TokenType::Assignment, "="),
        ],
    );
    assert_eq!(second, tok(TokenType::NumericIntLiteral, "30"));

    let read_back = run(&mut p, vec![tok(TokenType::Identifier, "v")]);
    assert_eq!(read_back, tok(TokenType::NumericIntLiteral, "300040"));
}

#[test]
fn assignment_type_mismatch_keeps_old_value() {
    let mut p = create_parser(false);
    run(
        &mut p,
        vec![
            tok(TokenType::NumericIntLiteral, "5"),
            tok(TokenType::Identifier, "x"),
            tok(TokenType::Assignment, "="),
        ],
    );
    assert!(p.drain_errors().is_empty());

    run(
        &mut p,
        vec![
            tok(TokenType::NumericDecLiteral, "1.5"),
            tok(TokenType::Identifier, "x"),
            tok(TokenType::Assignment, "="),
        ],
    );
    let errors = p.drain_errors();
    assert_eq!(errors.len(), 1);
    assert!(matches!(
        errors[0],
        ErrorSignal::AssignmentTypeMismatch { .. }
    ));

    let read_back = run(&mut p, vec![tok(TokenType::Identifier, "x")]);
    assert_eq!(read_back, tok(TokenType::NumericIntLiteral, "5"));
}

#[test]
fn function_reads_bindings_at_call_time() {
    let mut p = create_parser(false);
    // Define f = a b + before either variable exists.
    run(
        &mut p,
        vec![
            tok(TokenType::Greater, ">"),
            tok(TokenType::Identifier, "a"),
            tok(TokenType::Identifier, "b"),
            tok(TokenType::Addition, "+"),
            tok(TokenType::Identifier, "f"),
            tok(TokenType::Function, "fn"),
        ],
    );
    run(
        &mut p,
        vec![
            tok(TokenType::NumericIntLiteral, "4"),
            tok(TokenType::Identifier, "a"),
            tok(TokenType::Assignment, "="),
        ],
    );
    run(
        &mut p,
        vec![
            tok(TokenType::NumericIntLiteral, "38"),
            tok(TokenType::Identifier, "b"),
            tok(TokenType::Assignment, "="),
        ],
    );
    let out = run(&mut p, vec![tok(TokenType::Identifier, "f")]);
    assert_eq!(out, tok(TokenType::NumericIntLiteral, "42"));

    // Rebind and call again: the new bindings are read, not the old ones.
    run(
        &mut p,
        vec![
            tok(TokenType::NumericIntLiteral, "100"),
            tok(TokenType::Identifier, "a"),
            tok(TokenType::Assignment, "="),
        ],
    );
    let again = run(&mut p, vec![tok(TokenType::Identifier, "f")]);
    assert_eq!(again, tok(TokenType::NumericIntLiteral, "138"));
}

#[test]
fn function_redefinition_is_rejected() {
    let mut p = create_parser(false);
    run(
        &mut p,
        vec![
            tok(TokenType::Greater, ">"),
            tok(TokenType::Identifier, "t"),
            tok(TokenType::NumericIntLiteral, "1"),
            tok(TokenType::Addition, "+"),
            tok(TokenType::Identifier, "g"),
            tok(TokenType::Function, "fn"),
        ],
    );
    assert!(p.drain_errors().is_empty());

    // A second definition under the same name is rejected...
    run(
        &mut p,
        vec![
            tok(TokenType::Greater, ">"),
            tok(TokenType::NumericIntLiteral, "2"),
            tok(TokenType::Identifier, "g"),
            tok(TokenType::Function, "fn"),
        ],
    );
    let errors = p.drain_errors();
    assert_eq!(errors.len(), 1);
    assert!(matches!(
        errors[0],
        ErrorSignal::FunctionAlreadyExists { .. }
    ));

    // ... and the original body still runs.
    run(
        &mut p,
        vec![
            tok(TokenType::NumericIntLiteral, "41"),
            tok(TokenType::Identifier, "t"),
            tok(TokenType::Assignment, "="),
        ],
    );
    let out = run(&mut p, vec![tok(TokenType::Identifier, "g")]);
    assert_eq!(out, tok(TokenType::NumericIntLiteral, "42"));
}

#[test]
fn sqrt_is_always_an_int_literal() {
    let mut p = create_parser(false);
    let out = run(
        &mut p,
        vec![
            tok(TokenType::NumericIntLiteral, "2"),
            tok(TokenType::TypeSqrtKeyword, "sqrt"),
        ],
    );
    assert_eq!(out.token_type, TokenType::NumericIntLiteral);
    assert_eq!(out.value, "1.4142135623730951");
}

#[test]
fn binary_operator_on_empty_stack() {
    let mut p = create_parser(false);
    let out = run(&mut p, vec![tok(TokenType::Addition, "+")]);
    assert_eq!(out, tok(TokenType::NoType, ""));
    let errors = p.drain_errors();
    assert_eq!(errors.len(), 1);
    assert!(matches!(errors[0], ErrorSignal::StackEmpty));
}

#[test]
fn seeded_constants_are_available() {
    let mut p = create_parser(false);
    let c = run(&mut p, vec![tok(TokenType::Identifier, "C")]);
    assert_eq!(c, tok(TokenType::NumericIntLiteral, "299792458"));
    let pi = run(&mut p, vec![tok(TokenType::Identifier, "pi")]);
    assert_eq!(pi, tok(TokenType::NumericDecLiteral, "3.141592653589793"));
    let e = run(&mut p, vec![tok(TokenType::Identifier, "e")]);
    assert_eq!(e, tok(TokenType::NumericDecLiteral, "2.718281828459045"));
}

#[test]
fn casts_and_truthiness() {
    let mut p = create_parser(false);
    let as_int = run(
        &mut p,
        vec![
            tok(TokenType::NumericDecLiteral, "2.9"),
            tok(TokenType::TypeIntKeyword, "int"),
        ],
    );
    assert_eq!(as_int, tok(TokenType::NumericIntLiteral, "2"));

    let as_dec = run(
        &mut p,
        vec![
            tok(TokenType::NumericIntLiteral, "7"),
            tok(TokenType::TypeDecKeyword, "dec"),
        ],
    );
    assert_eq!(as_dec, tok(TokenType::NumericDecLiteral, "7"));

    let truthy = run(
        &mut p,
        vec![
            tok(TokenType::NumericIntLiteral, "5"),
            tok(TokenType::TypeBoolKeyword, "bool"),
        ],
    );
    assert_eq!(truthy, tok(TokenType::BoolLiteral, "1"));

    // Logical NOT pushes the canonical boolean text, so its result feeds
    // casts and the conditional like any other boolean.
    let negated = run(
        &mut p,
        vec![
            tok(TokenType::NumericIntLiteral, "0"),
            tok(TokenType::Bang, "!"),
        ],
    );
    assert_eq!(negated, tok(TokenType::BoolLiteral, "1"));

    let negated_nonzero = run(
        &mut p,
        vec![
            tok(TokenType::NumericIntLiteral, "3"),
            tok(TokenType::Bang, "!"),
        ],
    );
    assert_eq!(negated_nonzero, tok(TokenType::BoolLiteral, "0"));

    let double_negated = run(
        &mut p,
        vec![
            tok(TokenType::NumericIntLiteral, "0"),
            tok(TokenType::Bang, "!"),
            tok(TokenType::Bang, "!"),
        ],
    );
    assert_eq!(double_negated, tok(TokenType::BoolLiteral, "0"));

    // A conditional fired by a negation: `!` of zero is exactly "1".
    let assigned = run(
        &mut p,
        vec![
            tok(TokenType::NumericIntLiteral, "7"),
            tok(TokenType::Identifier, "cq"),
            tok(TokenType::NumericIntLiteral, "0"),
            tok(TokenType::Bang, "!"),
            tok(TokenType::Question, "?"),
        ],
    );
    assert_eq!(assigned, tok(TokenType::NumericIntLiteral, "7"));
}

#[test]
fn bool_literals_are_canonicalized() {
    let mut p = create_parser(false);
    let t = run(&mut p, vec![tok(TokenType::BoolLiteral, "true")]);
    assert_eq!(t, tok(TokenType::BoolLiteral, "1"));
    let f = run(&mut p, vec![tok(TokenType::BoolLiteral, "false")]);
    assert_eq!(f, tok(TokenType::BoolLiteral, "0"));
}

#[test]
fn conditional_assignment() {
    let mut p = create_parser(false);
    // value 7, target q, condition 1 (top): assigns and pushes the value.
    let out = run(
        &mut p,
        vec![
            tok(TokenType::NumericIntLiteral, "7"),
            tok(TokenType::Identifier, "q"),
            tok(TokenType::NumericIntLiteral, "1"),
            tok(TokenType::Question, "?"),
        ],
    );
    assert_eq!(out, tok(TokenType::NumericIntLiteral, "7"));
    let read_back = run(&mut p, vec![tok(TokenType::Identifier, "q")]);
    assert_eq!(read_back, tok(TokenType::NumericIntLiteral, "7"));

    // With a false condition nothing is assigned.
    run(
        &mut p,
        vec![
            tok(TokenType::NumericIntLiteral, "9"),
            tok(TokenType::Identifier, "r"),
            tok(TokenType::NumericIntLiteral, "0"),
            tok(TokenType::Question, "?"),
        ],
    );
    let unbound = run(&mut p, vec![tok(TokenType::Identifier, "r")]);
    assert_eq!(unbound, tok(TokenType::Identifier, "r"));
}

#[test]
fn wrong_type_and_invalid_cast_errors() {
    let mut p = create_parser(false);
    run(
        &mut p,
        vec![
            tok(TokenType::Identifier, "zz"),
            tok(TokenType::NumericIntLiteral, "2"),
            tok(TokenType::Addition, "+"),
        ],
    );
    let errors = p.drain_errors();
    assert_eq!(errors.len(), 1);
    assert!(matches!(errors[0], ErrorSignal::WrongTypeFirst { .. }));

    run(
        &mut p,
        vec![
            tok(TokenType::Identifier, "zz"),
            tok(TokenType::TypeBoolKeyword, "bool"),
        ],
    );
    let errors = p.drain_errors();
    assert_eq!(errors.len(), 1);
    assert!(matches!(errors[0], ErrorSignal::InvalidTypeCast { .. }));

    run(&mut p, vec![tok(TokenType::Semicolon, ";")]);
    let errors = p.drain_errors();
    assert_eq!(errors.len(), 1);
    assert!(matches!(
        errors[0],
        ErrorSignal::OperationNotImplemented { .. }
    ));

    run(&mut p, vec![tok(TokenType::TypeSqrtKeyword, "sqrt")]);
    let errors = p.drain_errors();
    assert_eq!(errors.len(), 1);
    assert!(matches!(errors[0], ErrorSignal::StackEmpty));
}

#[test]
fn assembly_side_channel() {
    let mut p = create_parser(false);
    run(
        &mut p,
        vec![
            tok(TokenType::NumericIntLiteral, "3"),
            tok(TokenType::NumericIntLiteral, "2"),
            tok(TokenType::Addition, "+"),
        ],
    );
    let lines = p.output_assembly();
    assert_eq!(lines, vec!["li t0 3", "li t1 2", "add t0 t0 t1"]);

    // The accessor drains: a second read comes back empty.
    assert!(p.output_assembly().is_empty());

    // The channel also resets at the start of the next submission.
    run(
        &mut p,
        vec![
            tok(TokenType::NumericIntLiteral, "9"),
            tok(TokenType::NumericIntLiteral, "4"),
            tok(TokenType::Subtraction, "-"),
        ],
    );
    let lines = p.output_assembly();
    assert_eq!(lines, vec!["li t0 9", "li t1 4", "sub t0 t0 t1"]);
}

#[test]
fn lexed_line_evaluates() {
    let mut lex = component::lexer::Lexer::new(vec!["3 2 + 10 *".to_string()]);
    let mut tokens = Vec::new();
    loop {
        let t = lex.next();
        if t.token_type == TokenType::EndToken {
            break;
        }
        tokens.push(t);
    }
    let mut p = create_parser(false);
    let out = run(&mut p, tokens);
    assert_eq!(out, tok(TokenType::NumericIntLiteral, "50"));
}

#[test]
fn identifier_push_asymmetry() {
    let mut p = create_parser(false);
    run(
        &mut p,
        vec![
            tok(TokenType::NumericIntLiteral, "5"),
            tok(TokenType::Identifier, "v"),
            tok(TokenType::Assignment, "="),
        ],
    );

    // On an empty stack a bound identifier pushes its stored value...
    let direct = run(&mut p, vec![tok(TokenType::Identifier, "v")]);
    assert_eq!(direct, tok(TokenType::NumericIntLiteral, "5"));

    // ... but on a non-empty stack it pushes the bare identifier, which the
    // operator's resolving pop then looks up.
    let summed = run(
        &mut p,
        vec![
            tok(TokenType::NumericIntLiteral, "1"),
            tok(TokenType::Identifier, "v"),
            tok(TokenType::Addition, "+"),
        ],
    );
    assert_eq!(summed, tok(TokenType::NumericIntLiteral, "6"));

    // A bound identifier read onto an empty stack can be assigned onward.
    run(
        &mut p,
        vec![
            tok(TokenType::Identifier, "v"),
            tok(TokenType::Identifier, "w"),
            tok(TokenType::Assignment, "="),
        ],
    );
    let copied = run(&mut p, vec![tok(TokenType::Identifier, "w")]);
    assert_eq!(copied, tok(TokenType::NumericIntLiteral, "5"));
}

#[test]
fn definition_mode_does_not_span_calls() {
    let mut p = create_parser(false);
    // A definition left open at the end of a call is abandoned: the next
    // call starts in normal mode.
    run(
        &mut p,
        vec![
            tok(TokenType::Greater, ">"),
            tok(TokenType::NumericIntLiteral, "1"),
        ],
    );
    run(
        &mut p,
        vec![
            tok(TokenType::Identifier, "h"),
            tok(TokenType::Function, "fn"),
        ],
    );
    let errors = p.drain_errors();
    assert_eq!(errors.len(), 1);
    assert!(matches!(
        errors[0],
        ErrorSignal::OperationNotImplemented { .. }
    ));

    // Nothing was defined under the name: invoking it pushes the bare
    // identifier.
    let out = run(&mut p, vec![tok(TokenType::Identifier, "h")]);
    assert_eq!(out, tok(TokenType::Identifier, "h"));

    // The abandoned span's accumulator is discarded too: a definition in a
    // later call holds only its own tokens, so invoking it leaves nothing
    // extra on the stack.
    run(
        &mut p,
        vec![
            tok(TokenType::Greater, ">"),
            tok(TokenType::NumericIntLiteral, "5"),
        ],
    );
    run(
        &mut p,
        vec![
            tok(TokenType::Greater, ">"),
            tok(TokenType::NumericIntLiteral, "1"),
            tok(TokenType::NumericIntLiteral, "2"),
            tok(TokenType::Addition, "+"),
            tok(TokenType::Identifier, "own"),
            tok(TokenType::Function, "fn"),
        ],
    );
    assert!(p.drain_errors().is_empty());
    // With a leftover `5` absorbed, the call would leave `5` under the sum
    // and the trailing `+` would find two operands; instead it starves.
    let out = run(
        &mut p,
        vec![
            tok(TokenType::Identifier, "own"),
            tok(TokenType::Addition, "+"),
        ],
    );
    assert_eq!(out, tok(TokenType::NoType, ""));
    let errors = p.drain_errors();
    assert_eq!(errors.len(), 1);
    assert!(matches!(errors[0], ErrorSignal::StackEmpty));
}

#[test]
fn wrong_type_attribution() {
    let mut p = create_parser(false);
    run(
        &mut p,
        vec![
            tok(TokenType::NumericIntLiteral, "2"),
            tok(TokenType::Identifier, "zz"),
            tok(TokenType::Addition, "+"),
        ],
    );
    let errors = p.drain_errors();
    assert_eq!(errors.len(), 1);
    assert!(matches!(errors[0], ErrorSignal::WrongTypeSecond { .. }));

    run(
        &mut p,
        vec![
            tok(TokenType::Identifier, "aa"),
            tok(TokenType::Identifier, "bb"),
            tok(TokenType::Multiplication, "*"),
        ],
    );
    let errors = p.drain_errors();
    assert_eq!(errors.len(), 1);
    assert!(matches!(errors[0], ErrorSignal::WrongTypeBoth { .. }));

    // A token of numeric kind whose text does not parse is caught when the
    // computation is attempted.
    run(
        &mut p,
        vec![
            tok(TokenType::NumericIntLiteral, "abc"),
            tok(TokenType::NumericIntLiteral, "2"),
            tok(TokenType::Addition, "+"),
        ],
    );
    let errors = p.drain_errors();
    assert_eq!(errors.len(), 1);
    assert!(matches!(errors[0], ErrorSignal::WrongTypeFirst { .. }));
}

#[test]
fn runaway_function_pauses() {
    let mut p = create_parser(false);
    // A function whose body invokes itself splices forever; one call's step
    // budget runs out and the submission pauses instead of hanging.
    run(
        &mut p,
        vec![
            tok(TokenType::Greater, ">"),
            tok(TokenType::Identifier, "loopy"),
            tok(TokenType::Identifier, "loopy"),
            tok(TokenType::Function, "fn"),
        ],
    );
    let out = p.parse(vec![tok(TokenType::Identifier, "loopy")]);
    assert!(matches!(out, Outcome::Paused));
}
