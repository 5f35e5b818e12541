use termscript::error::ScriptError;
use termscript::interpreter::{
    change_background, change_foreground, color_of, execute_token, Action, Rgb,
};
use termscript::lexer::derive_tokens;
use termscript::script::{bind_input, parse_tokens, Transcript};
use termscript::store::{global_variables, Variable, VariableStore};
use termscript::token::{Operator, Token};

fn name(s: &str) -> String {
    s.to_string()
}

fn seeded() -> VariableStore {
    global_variables(24, 80, None)
}

fn seeded_with(names: &[&str]) -> VariableStore {
    let mut store = seeded();
    for n in names {
        store.insert(name(n), Variable::Num(0));
    }
    store
}

fn run(script: &str, store: VariableStore, inputs: &[&str]) -> Result<Transcript, ScriptError> {
    let tokens = derive_tokens(script).expect("the script has tokens");
    let inputs: Vec<String> = inputs.iter().map(|s| s.to_string()).collect();
    parse_tokens(&tokens, store, &inputs)
}

#[test]
fn assigned_text_is_printed_once() {
    let t = run("STRING a \"hi\"; PRINT a", seeded_with(&["a"]), &[]).unwrap();
    assert_eq!(t.actions, vec![Action::Write(name("\"hi\""))]);
    assert_eq!(t.out, "");
    assert_eq!(t.store.get(&name("a")), Some(&Variable::Str(name("\"hi\""))));
}

#[test]
fn move_then_shift() {
    let t = run("MOVE 2 3; SHIFT 1 1", seeded(), &[]).unwrap();
    assert_eq!(
        t.actions,
        vec![Action::MoveCursor { row: 2, col: 3 }, Action::MoveCursor { row: 3, col: 4 }]
    );
    assert_eq!(t.store.get(&name("y")), Some(&Variable::Num(3)));
    assert_eq!(t.store.get(&name("x")), Some(&Variable::Num(4)));
}

#[test]
fn color_defined_then_used_as_foreground() {
    let t = run("CLR myColor 500 500 500; FORE myColor", seeded(), &[]).unwrap();
    assert_eq!(t.actions, vec![Action::SetForeground { r: 500, g: 500, b: 500 }]);
    assert_eq!(
        t.store.get(&name("myColor")),
        Some(&Variable::Clr { r: 500, g: 500, b: 500 })
    );
}

#[test]
fn printing_a_number_writes_nothing() {
    let tokens = vec![
        Token::Operator(Operator::NumberAssign),
        Token::Identifier(name("a")),
        Token::Literal(name("5")),
        Token::Separator,
        Token::Operator(Operator::NumberAssign),
        Token::Identifier(name("b")),
        Token::Identifier(name("a")),
        Token::Separator,
        Token::Operator(Operator::Print),
        Token::Identifier(name("b")),
    ];
    let t = parse_tokens(&tokens, seeded_with(&["a", "b"]), &vec![]).unwrap();
    assert_eq!(t.actions, vec![]);
    assert_eq!(t.store.get(&name("a")), Some(&Variable::Num(5)));
    assert_eq!(t.store.get(&name("b")), Some(&Variable::Num(5)));
    assert_eq!(t.out, "");
}

#[test]
fn printing_a_color_writes_nothing() {
    let t = run("PRINT foreground", seeded(), &[]).unwrap();
    assert_eq!(t.actions, vec![]);
}

#[test]
fn tokenized_number_value_is_always_a_literal() {
    let outcome = run("NUM a 5; NUM b a; PRINT b", seeded_with(&["a", "b"]), &[]);
    assert_eq!(outcome.err(), Some(ScriptError::NumberFormat));
}

#[test]
fn number_assignment_needs_an_existing_name() {
    let outcome = run("NUM c 1", seeded(), &[]);
    assert_eq!(outcome.err(), Some(ScriptError::UndefinedVariable));
}

#[test]
fn string_assignment_needs_an_existing_name() {
    let outcome = run("STRING c \"v\"", seeded(), &[]);
    assert_eq!(outcome.err(), Some(ScriptError::UndefinedVariable));
}

#[test]
fn assigning_out_sets_the_result() {
    let t = run("STRING out \"done\"", seeded(), &[]).unwrap();
    assert_eq!(t.out, "\"done\"");
    assert_eq!(t.actions, vec![]);
}

#[test]
fn assigning_out_from_a_text_variable() {
    let tokens = vec![
        Token::Operator(Operator::StringAssign),
        Token::Identifier(name("out")),
        Token::Identifier(name("in")),
    ];
    let store = global_variables(24, 80, Some(name("from the pipe")));
    let t = parse_tokens(&tokens, store, &vec![]).unwrap();
    assert_eq!(t.out, "from the pipe");
}

#[test]
fn printing_a_literal() {
    let t = run("PRINT \"a; b c\"", seeded(), &[]).unwrap();
    assert_eq!(t.actions, vec![Action::Write(name("a; b c"))]);
}

#[test]
fn empty_script_does_nothing() {
    let t = run("", seeded(), &[]).unwrap();
    assert_eq!(t.actions, vec![]);
    assert_eq!(t.out, "");
}

#[test]
fn move_to_the_seeded_corner() {
    let t = run("MOVE G $", seeded(), &[]).unwrap();
    assert_eq!(t.actions, vec![Action::MoveCursor { row: 23, col: 79 }]);
    assert_eq!(t.store.get(&name("y")), Some(&Variable::Num(23)));
    assert_eq!(t.store.get(&name("x")), Some(&Variable::Num(79)));
}

#[test]
fn shift_by_negative_offsets() {
    let t = run("MOVE 5 5; SHIFT -2 -7", seeded(), &[]).unwrap();
    assert_eq!(
        t.actions,
        vec![Action::MoveCursor { row: 5, col: 5 }, Action::MoveCursor { row: 3, col: -2 }]
    );
}

#[test]
fn shift_out_of_range_is_an_error() {
    let outcome = run("MOVE 2147483647 0; SHIFT 1 0", seeded(), &[]);
    assert_eq!(outcome.err(), Some(ScriptError::NumberFormat));
    let outcome = run("MOVE 0 -2147483648; SHIFT 0 -1", seeded(), &[]);
    assert_eq!(outcome.err(), Some(ScriptError::NumberFormat));
}

#[test]
fn shift_needs_a_numeric_cursor() {
    let outcome = run("STRING x \"t\"; SHIFT 1 1", seeded(), &[]);
    assert_eq!(outcome.err(), Some(ScriptError::TypeMismatch));
    let tokens = derive_tokens("SHIFT 1 1").unwrap();
    let outcome = parse_tokens(&tokens, VariableStore::new(), &vec![]);
    assert_eq!(outcome.err(), Some(ScriptError::UndefinedVariable));
}

#[test]
fn move_creates_the_cursor_variables() {
    let tokens = derive_tokens("MOVE 1 2").unwrap();
    let t = parse_tokens(&tokens, VariableStore::new(), &vec![]).unwrap();
    assert_eq!(t.store.get(&name("y")), Some(&Variable::Num(1)));
    assert_eq!(t.store.get(&name("x")), Some(&Variable::Num(2)));
}

#[test]
fn await_binds_a_line() {
    let t = run("AWAIT who; PRINT who", seeded(), &["Ada Lovelace"]).unwrap();
    assert_eq!(
        t.actions,
        vec![Action::ReadLine(name("who")), Action::Write(name("Ada Lovelace"))]
    );
    assert_eq!(t.store.get(&name("who")), Some(&Variable::Str(name("Ada Lovelace"))));
}

#[test]
fn accept_binds_one_character() {
    let t = run("ACCEPT key; AWAIT rest", seeded(), &["yes", "no"]).unwrap();
    assert_eq!(
        t.actions,
        vec![Action::ReadChar(name("key")), Action::ReadLine(name("rest"))]
    );
    assert_eq!(t.store.get(&name("key")), Some(&Variable::Str(name("y"))));
    assert_eq!(t.store.get(&name("rest")), Some(&Variable::Str(name("no"))));
}

#[test]
fn reads_after_the_last_input_bind_the_empty_text() {
    let t = run("AWAIT a; ACCEPT b", seeded(), &["only"]).unwrap();
    assert_eq!(t.store.get(&name("a")), Some(&Variable::Str(name("only"))));
    assert_eq!(t.store.get(&name("b")), Some(&Variable::Str(String::new())));
}

#[test]
fn await_overwrites_whatever_was_bound() {
    let t = run("AWAIT x", seeded(), &["text"]).unwrap();
    assert_eq!(t.store.get(&name("x")), Some(&Variable::Str(name("text"))));
}

#[test]
fn bind_input_ignores_actions_that_read_nothing() {
    let mut store = seeded();
    bind_input(&mut store, &Action::Write(name("x")), "ignored");
    assert_eq!(store.get(&name("x")), Some(&Variable::Num(0)));
    bind_input(&mut store, &Action::ReadChar(name("k")), "\u{e9}t\u{e9}");
    assert_eq!(store.get(&name("k")), Some(&Variable::Str(name("\u{e9}"))));
    bind_input(&mut store, &Action::ReadLine(name("k")), "");
    assert_eq!(store.get(&name("k")), Some(&Variable::Str(String::new())));
}

#[test]
fn literal_color_triples() {
    let tokens = vec![
        Token::Operator(Operator::Background),
        Token::Literal(name("10")),
        Token::Literal(name("20")),
        Token::Literal(name("30")),
    ];
    let t = parse_tokens(&tokens, seeded(), &vec![]).unwrap();
    assert_eq!(t.actions, vec![Action::SetBackground { r: 10, g: 20, b: 30 }]);
    let tokens = vec![
        Token::Operator(Operator::Foreground),
        Token::Literal(name("10")),
        Token::Literal(name("20")),
    ];
    assert_eq!(parse_tokens(&tokens, seeded(), &vec![]).err(), Some(ScriptError::Operand));
    let tokens = vec![
        Token::Operator(Operator::Foreground),
        Token::Literal(name("10")),
        Token::Literal(name("green")),
        Token::Literal(name("30")),
    ];
    assert_eq!(parse_tokens(&tokens, seeded(), &vec![]).err(), Some(ScriptError::NumberFormat));
}

#[test]
fn color_components_are_not_clamped() {
    let t = run("CLR c 32767 -5 1001; BACK c", seeded(), &[]).unwrap();
    assert_eq!(t.actions, vec![Action::SetBackground { r: 32767, g: -5, b: 1001 }]);
    let outcome = run("CLR c 32768 0 0", seeded(), &[]);
    assert_eq!(outcome.err(), Some(ScriptError::NumberFormat));
}

#[test]
fn color_assignment_overwrites_any_variable() {
    let t = run("CLR x 1 2 3", seeded(), &[]).unwrap();
    assert_eq!(t.store.get(&name("x")), Some(&Variable::Clr { r: 1, g: 2, b: 3 }));
}

#[test]
fn operand_errors() {
    assert_eq!(run("PRINT", seeded(), &[]).err(), Some(ScriptError::Operand));
    assert_eq!(run("PRINT MOVE", seeded(), &[]).err(), Some(ScriptError::Operand));
    assert_eq!(run("AWAIT", seeded(), &[]).err(), Some(ScriptError::Operand));
    assert_eq!(run("ACCEPT", seeded(), &[]).err(), Some(ScriptError::Operand));
    assert_eq!(run("FORE", seeded(), &[]).err(), Some(ScriptError::Operand));
    assert_eq!(run("MOVE 1", seeded(), &[]).err(), Some(ScriptError::Operand));
    assert_eq!(run("MOVE 1;", seeded(), &[]).err(), Some(ScriptError::Operand));
    assert_eq!(run("NUM x", seeded(), &[]).err(), Some(ScriptError::Operand));
    assert_eq!(run("CLR c 1 2", seeded(), &[]).err(), Some(ScriptError::Operand));
    let tokens = vec![
        Token::Operator(Operator::NumberAssign),
        Token::Separator,
        Token::Literal(name("1")),
    ];
    assert_eq!(parse_tokens(&tokens, seeded(), &vec![]).err(), Some(ScriptError::Operand));
    let tokens = vec![
        Token::Operator(Operator::StringAssign),
        Token::Literal(name("out")),
        Token::Literal(name("text")),
    ];
    assert_eq!(parse_tokens(&tokens, seeded(), &vec![]).err(), Some(ScriptError::Operand));
    let tokens = vec![
        Token::Operator(Operator::ColorAssign),
        Token::Identifier(name("c")),
        Token::Literal(name("1")),
        Token::Identifier(name("x")),
        Token::Literal(name("3")),
    ];
    assert_eq!(parse_tokens(&tokens, seeded(), &vec![]).err(), Some(ScriptError::Operand));
}

#[test]
fn undefined_variable_errors() {
    assert_eq!(run("PRINT nobody", seeded(), &[]).err(), Some(ScriptError::UndefinedVariable));
    assert_eq!(run("FORE nobody", seeded(), &[]).err(), Some(ScriptError::UndefinedVariable));
    assert_eq!(run("MOVE g 0", seeded(), &[]).err(), Some(ScriptError::UndefinedVariable));
}

#[test]
fn type_mismatch_errors() {
    assert_eq!(run("FORE x", seeded(), &[]).err(), Some(ScriptError::TypeMismatch));
    assert_eq!(run("BACK out", seeded(), &[]).err(), Some(ScriptError::TypeMismatch));
    assert_eq!(
        run("STRING G \"t\"; MOVE G 0", seeded(), &[]).err(),
        Some(ScriptError::TypeMismatch)
    );
    let tokens = vec![
        Token::Operator(Operator::NumberAssign),
        Token::Identifier(name("x")),
        Token::Identifier(name("out")),
    ];
    assert_eq!(parse_tokens(&tokens, seeded(), &vec![]).err(), Some(ScriptError::TypeMismatch));
    let tokens = vec![
        Token::Operator(Operator::StringAssign),
        Token::Identifier(name("out")),
        Token::Identifier(name("x")),
    ];
    assert_eq!(parse_tokens(&tokens, seeded(), &vec![]).err(), Some(ScriptError::TypeMismatch));
}

#[test]
fn number_format_errors() {
    assert_eq!(run("MOVE a 1", seeded(), &[]).err(), Some(ScriptError::NumberFormat));
    assert_eq!(run("MOVE 1 b", seeded(), &[]).err(), Some(ScriptError::NumberFormat));
    assert_eq!(run("NUM x 1.5", seeded(), &[]).err(), Some(ScriptError::NumberFormat));
    assert_eq!(run("NUM x 2147483648", seeded(), &[]).err(), Some(ScriptError::NumberFormat));
    assert_eq!(run("CLR c 1 2 z", seeded(), &[]).err(), Some(ScriptError::NumberFormat));
}

#[test]
fn the_value_is_checked_before_the_target() {
    assert_eq!(run("NUM nobody z", seeded(), &[]).err(), Some(ScriptError::NumberFormat));
}

#[test]
fn an_error_stops_the_run() {
    let outcome = run("PRINT \"shown\"; NUM c 1; STRING out \"late\"", seeded(), &[]);
    assert_eq!(outcome.err(), Some(ScriptError::UndefinedVariable));
}

#[test]
fn operands_do_nothing_when_the_scan_reaches_them() {
    let tokens = derive_tokens("MOVE 2 3; PRINT x").unwrap();
    let mut store = seeded();
    let mut actions = Vec::new();
    for i in 0..tokens.len() {
        actions.push(execute_token(&tokens, i, &mut store).unwrap());
    }
    assert_eq!(
        actions,
        vec![
            Action::MoveCursor { row: 2, col: 3 },
            Action::Nothing,
            Action::Nothing,
            Action::Nothing,
            Action::Nothing,
            Action::Nothing,
        ]
    );
}

#[test]
fn a_failed_token_leaves_the_store_alone() {
    let tokens = derive_tokens("MOVE 7 oops").unwrap();
    let mut store = seeded();
    assert_eq!(execute_token(&tokens, 0, &mut store), Err(ScriptError::NumberFormat));
    assert_eq!(store.get(&name("y")), Some(&Variable::Num(0)));
    assert_eq!(store.get(&name("x")), Some(&Variable::Num(0)));
}

#[test]
fn reads_are_left_to_the_caller_of_a_single_step() {
    let tokens = derive_tokens("AWAIT who").unwrap();
    let mut store = seeded();
    let action = execute_token(&tokens, 0, &mut store).unwrap();
    assert_eq!(action, Action::ReadLine(name("who")));
    assert_eq!(store.get(&name("who")), None);
    bind_input(&mut store, &action, "Grace");
    assert_eq!(store.get(&name("who")), Some(&Variable::Str(name("Grace"))));
}

#[test]
fn color_registers_from_variables() {
    let c = Variable::Clr { r: 1, g: 2, b: 3 };
    assert_eq!(change_foreground(&c), Ok(Action::SetForeground { r: 1, g: 2, b: 3 }));
    assert_eq!(change_background(&c), Ok(Action::SetBackground { r: 1, g: 2, b: 3 }));
    assert_eq!(change_foreground(&Variable::Num(1)), Err(ScriptError::TypeMismatch));
    assert_eq!(change_background(&Variable::Str(name("red"))), Err(ScriptError::TypeMismatch));
    let rgb: Rgb = color_of(&c).unwrap();
    assert_eq!((rgb.r, rgb.g, rgb.b), (1, 2, 3));
}

#[test]
fn an_index_past_the_end_does_nothing() {
    let tokens = derive_tokens("MOVE 2 3").unwrap();
    let mut store = seeded();
    assert_eq!(execute_token(&tokens, 3, &mut store), Ok(Action::Nothing));
    assert_eq!(execute_token(&tokens, usize::MAX, &mut store), Ok(Action::Nothing));
    assert_eq!(store.get(&name("y")), Some(&Variable::Num(0)));
}

#[test]
fn the_last_operand_may_be_the_last_token() {
    let tokens = derive_tokens("CLR c 1 2 3").unwrap();
    let mut store = seeded();
    assert_eq!(execute_token(&tokens, 0, &mut store), Ok(Action::Nothing));
    assert_eq!(store.get(&name("c")), Some(&Variable::Clr { r: 1, g: 2, b: 3 }));
    assert_eq!(execute_token(&tokens, 1, &mut store), Ok(Action::Nothing));
}
