use crate::error::ScriptError;
use crate::number::{component_of, number_of, parse_component, parse_number};
use crate::store::{Bindings, Variable, VariableStore, VariableView};
use crate::token::{token_views, Operator, Token, TokenView};
use vstd::prelude::*;
use vstd::string::StringExecFns;

verus! {

/// What the display surface is asked to do for one token.
#[derive(Debug, Clone, PartialEq, Eq)]
pub enum Action {
    /// Nothing: the token has no effect on the display.
    Nothing,
    /// Write the text at the cursor.
    Write(String),
    /// Move the cursor to an absolute position.
    MoveCursor { row: i32, col: i32 },
    /// Set the foreground colour register.
    SetForeground { r: i16, g: i16, b: i16 },
    /// Set the background colour register.
    SetBackground { r: i16, g: i16, b: i16 },
    /// Read one line with echo on; the text read is to be bound to the name.
    ReadLine(String),
    /// Read one character with echo on; it is to be bound to the name.
    ReadChar(String),
}

/// An action, with its text as a sequence of characters.
pub enum ActionView {
    Nothing,
    Write(Seq<char>),
    MoveCursor { row: i32, col: i32 },
    SetForeground { r: i16, g: i16, b: i16 },
    SetBackground { r: i16, g: i16, b: i16 },
    ReadLine(Seq<char>),
    ReadChar(Seq<char>),
}

impl View for Action {
    type V = ActionView;

    open spec fn view(&self) -> ActionView {
        match *self {
            Action::Nothing => ActionView::Nothing,
            Action::Write(text) => ActionView::Write(text@),
            Action::MoveCursor { row, col } => ActionView::MoveCursor { row, col },
            Action::SetForeground { r, g, b } => ActionView::SetForeground { r, g, b },
            Action::SetBackground { r, g, b } => ActionView::SetBackground { r, g, b },
            Action::ReadLine(name) => ActionView::ReadLine(name@),
            Action::ReadChar(name) => ActionView::ReadChar(name@),
        }
    }
}

/// A colour as its three components.
pub struct Rgb {
    pub r: i16,
    pub g: i16,
    pub b: i16,
}

/// The store after a token and the action that the token asks for.
pub ghost struct Step {
    pub store: Bindings,
    pub action: ActionView,
}

/// The token at index `at`, if there is one.
pub open spec fn token_at(tokens: Seq<TokenView>, at: int) -> Option<TokenView> {
    if 0 <= at < tokens.len() {
        Some(tokens[at])
    } else {
        None
    }
}

/// The number bound to `name`.
pub open spec fn number_bound(store: Bindings, name: Seq<char>) -> Result<i32, ScriptError> {
    if !store.contains_key(name) {
        Err(ScriptError::UndefinedVariable)
    } else {
        match store[name] {
            VariableView::Num(n) => Ok(n),
            _ => Err(ScriptError::TypeMismatch),
        }
    }
}

/// The text bound to `name`.
pub open spec fn text_bound(store: Bindings, name: Seq<char>) -> Result<Seq<char>, ScriptError> {
    if !store.contains_key(name) {
        Err(ScriptError::UndefinedVariable)
    } else {
        match store[name] {
            VariableView::Str(text) => Ok(text),
            _ => Err(ScriptError::TypeMismatch),
        }
    }
}

/// The colour bound to `name`.
pub open spec fn color_bound(store: Bindings, name: Seq<char>) -> Result<Rgb, ScriptError> {
    if !store.contains_key(name) {
        Err(ScriptError::UndefinedVariable)
    } else {
        match store[name] {
            VariableView::Clr { r, g, b } => Ok(Rgb { r, g, b }),
            _ => Err(ScriptError::TypeMismatch),
        }
    }
}

/// A numeric operand: a literal that writes a 32-bit number, or a name bound
/// to a number.
pub open spec fn number_operand(tokens: Seq<TokenView>, at: int, store: Bindings) -> Result<
    i32,
    ScriptError,
> {
    match token_at(tokens, at) {
        Some(TokenView::Literal(text)) => match number_of(text) {
            Some(n) => Ok(n),
            None => Err(ScriptError::NumberFormat),
        },
        Some(TokenView::Identifier(name)) => number_bound(store, name),
        _ => Err(ScriptError::Operand),
    }
}

/// A text operand: a literal, or a name bound to text.
pub open spec fn text_operand(tokens: Seq<TokenView>, at: int, store: Bindings) -> Result<
    Seq<char>,
    ScriptError,
> {
    match token_at(tokens, at) {
        Some(TokenView::Literal(text)) => Ok(text),
        Some(TokenView::Identifier(name)) => text_bound(store, name),
        _ => Err(ScriptError::Operand),
    }
}

/// A colour component: a literal that writes a 16-bit number.
pub open spec fn component_operand(tokens: Seq<TokenView>, at: int) -> Result<i16, ScriptError> {
    match token_at(tokens, at) {
        Some(TokenView::Literal(text)) => match component_of(text) {
            Some(n) => Ok(n),
            None => Err(ScriptError::NumberFormat),
        },
        _ => Err(ScriptError::Operand),
    }
}

/// Three colour components in a row, starting at index `at`. The first one
/// that is wrong decides the error.
pub open spec fn triple_operand(tokens: Seq<TokenView>, at: int) -> Result<Rgb, ScriptError> {
    match component_operand(tokens, at) {
        Err(e) => Err(e),
        Ok(r) => match component_operand(tokens, at + 1) {
            Err(e) => Err(e),
            Ok(g) => match component_operand(tokens, at + 2) {
                Err(e) => Err(e),
                Ok(b) => Ok(Rgb { r, g, b }),
            },
        },
    }
}

/// A colour operand: a name bound to a colour, or three literal components.
pub open spec fn color_operand(tokens: Seq<TokenView>, at: int, store: Bindings) -> Result<
    Rgb,
    ScriptError,
> {
    match token_at(tokens, at) {
        Some(TokenView::Identifier(name)) => color_bound(store, name),
        Some(TokenView::Literal(_)) => triple_operand(tokens, at),
        _ => Err(ScriptError::Operand),
    }
}

/// A name operand: the identifier at index `at`.
pub open spec fn name_operand(tokens: Seq<TokenView>, at: int) -> Result<Seq<char>, ScriptError> {
    match token_at(tokens, at) {
        Some(TokenView::Identifier(name)) => Ok(name),
        _ => Err(ScriptError::Operand),
    }
}

/// The sum of a cursor coordinate and an offset, where it is a 32-bit number.
pub open spec fn shifted(current: i32, offset: i32) -> Result<i32, ScriptError> {
    if i32::MIN <= current + offset <= i32::MAX {
        Ok((current + offset) as i32)
    } else {
        Err(ScriptError::NumberFormat)
    }
}

/// The store with the cursor recorded at (`row`, `col`), and the move itself.
pub open spec fn cursor_step(store: Bindings, row: i32, col: i32) -> Step {
    Step {
        store: store.insert("x"@, VariableView::Num(col)).insert("y"@, VariableView::Num(row)),
        action: ActionView::MoveCursor { row, col },
    }
}

/// `PRINT`: write a literal, or the text bound to a name. A name bound to a
/// number or a colour writes nothing and is no error.
pub open spec fn print_step(tokens: Seq<TokenView>, i: int, store: Bindings) -> Result<
    Step,
    ScriptError,
> {
    match token_at(tokens, i + 1) {
        Some(TokenView::Literal(text)) => Ok(Step { store, action: ActionView::Write(text) }),
        Some(TokenView::Identifier(name)) => match text_bound(store, name) {
            Ok(text) => Ok(Step { store, action: ActionView::Write(text) }),
            Err(ScriptError::UndefinedVariable) => Err(ScriptError::UndefinedVariable),
            Err(_) => Ok(Step { store, action: ActionView::Nothing }),
        },
        _ => Err(ScriptError::Operand),
    }
}

/// `MOVE`: an absolute row and column.
pub open spec fn move_step(tokens: Seq<TokenView>, i: int, store: Bindings) -> Result<
    Step,
    ScriptError,
> {
    match number_operand(tokens, i + 1, store) {
        Err(e) => Err(e),
        Ok(row) => match number_operand(tokens, i + 2, store) {
            Err(e) => Err(e),
            Ok(col) => Ok(cursor_step(store, row, col)),
        },
    }
}

/// `SHIFT`: a row and a column offset from the cursor recorded under `y` and
/// `x`.
pub open spec fn shift_step(tokens: Seq<TokenView>, i: int, store: Bindings) -> Result<
    Step,
    ScriptError,
> {
    match number_operand(tokens, i + 1, store) {
        Err(e) => Err(e),
        Ok(down) => match number_operand(tokens, i + 2, store) {
            Err(e) => Err(e),
            Ok(right) => match number_bound(store, "y"@) {
                Err(e) => Err(e),
                Ok(y) => match number_bound(store, "x"@) {
                    Err(e) => Err(e),
                    Ok(x) => match shifted(y, down) {
                        Err(e) => Err(e),
                        Ok(row) => match shifted(x, right) {
                            Err(e) => Err(e),
                            Ok(col) => Ok(cursor_step(store, row, col)),
                        },
                    },
                },
            },
        },
    }
}

/// An assignment that only changes a name that is already bound.
pub open spec fn rebind_step(tokens: Seq<TokenView>, i: int, store: Bindings, value: VariableView)
    -> Result<Step, ScriptError> {
    match name_operand(tokens, i + 1) {
        Err(e) => Err(e),
        Ok(name) => if store.contains_key(name) {
            Ok(Step { store: store.insert(name, value), action: ActionView::Nothing })
        } else {
            Err(ScriptError::UndefinedVariable)
        },
    }
}

/// `CLR`: bind a name, new or not, to a colour of three literal components.
pub open spec fn color_assign_step(tokens: Seq<TokenView>, i: int, store: Bindings) -> Result<
    Step,
    ScriptError,
> {
    match name_operand(tokens, i + 1) {
        Err(e) => Err(e),
        Ok(name) => match triple_operand(tokens, i + 2) {
            Err(e) => Err(e),
            Ok(c) => Ok(
                Step {
                    store: store.insert(name, VariableView::Clr { r: c.r, g: c.g, b: c.b }),
                    action: ActionView::Nothing,
                },
            ),
        },
    }
}

/// What the token at index `i` does to `store` and asks of the display.
///
/// An operator reads its operands at fixed offsets after itself and skips
/// none of them. Every other token does nothing.
pub open spec fn step(tokens: Seq<TokenView>, i: int, store: Bindings) -> Result<
    Step,
    ScriptError,
> {
    match token_at(tokens, i) {
        Some(TokenView::Operator(Operator::Print)) => print_step(tokens, i, store),
        Some(TokenView::Operator(Operator::Await)) => match name_operand(tokens, i + 1) {
            Ok(name) => Ok(Step { store, action: ActionView::ReadLine(name) }),
            Err(e) => Err(e),
        },
        Some(TokenView::Operator(Operator::Accept)) => match name_operand(tokens, i + 1) {
            Ok(name) => Ok(Step { store, action: ActionView::ReadChar(name) }),
            Err(e) => Err(e),
        },
        Some(TokenView::Operator(Operator::Foreground)) => match color_operand(
            tokens,
            i + 1,
            store,
        ) {
            Ok(c) => Ok(
                Step { store, action: ActionView::SetForeground { r: c.r, g: c.g, b: c.b } },
            ),
            Err(e) => Err(e),
        },
        Some(TokenView::Operator(Operator::Background)) => match color_operand(
            tokens,
            i + 1,
            store,
        ) {
            Ok(c) => Ok(
                Step { store, action: ActionView::SetBackground { r: c.r, g: c.g, b: c.b } },
            ),
            Err(e) => Err(e),
        },
        Some(TokenView::Operator(Operator::Move)) => move_step(tokens, i, store),
        Some(TokenView::Operator(Operator::Shift)) => shift_step(tokens, i, store),
        Some(TokenView::Operator(Operator::StringAssign)) => match text_operand(
            tokens,
            i + 2,
            store,
        ) {
            Ok(text) => rebind_step(tokens, i, store, VariableView::Str(text)),
            Err(e) => Err(e),
        },
        Some(TokenView::Operator(Operator::NumberAssign)) => match number_operand(
            tokens,
            i + 2,
            store,
        ) {
            Ok(n) => rebind_step(tokens, i, store, VariableView::Num(n)),
            Err(e) => Err(e),
        },
        Some(TokenView::Operator(Operator::ColorAssign)) => color_assign_step(tokens, i, store),
        _ => Ok(Step { store, action: ActionView::Nothing }),
    }
}

/// Whether an outcome and the store left behind are what `expected` says: on
/// success the expected action and store, on failure the expected error and
/// the store as it was.
pub open spec fn is_step(
    outcome: Result<Action, ScriptError>,
    before: Bindings,
    after: Bindings,
    expected: Result<Step, ScriptError>,
) -> bool {
    match outcome {
        Ok(action) => expected == Ok::<Step, ScriptError>(Step { store: after, action: action@ }),
        Err(e) => expected == Err::<Step, ScriptError>(e) && after == before,
    }
}

fn operand(tokens: &Vec<Token>, i: usize, offset: usize) -> (token: Option<&Token>)
    requires
        i < tokens@.len(),
    ensures
        match token {
            Some(t) => token_at(token_views(tokens@), i + offset) == Some(t@),
            None => token_at(token_views(tokens@), i + offset) is None,
        },
{
    if offset < tokens.len() - i {
        Some(&tokens[i + offset])
    } else {
        None
    }
}

fn lookup_number(store: &VariableStore, name: &String) -> (value: Result<i32, ScriptError>)
    requires
        store.wf(),
    ensures
        value == number_bound(store@, name@),
{
    match store.get(name) {
        None => Err(ScriptError::UndefinedVariable),
        Some(Variable::Num(n)) => Ok(*n),
        Some(_) => Err(ScriptError::TypeMismatch),
    }
}

fn lookup_text(store: &VariableStore, name: &String) -> (value: Result<String, ScriptError>)
    requires
        store.wf(),
    ensures
        match value {
            Ok(text) => text_bound(store@, name@) == Ok::<Seq<char>, ScriptError>(text@),
            Err(e) => text_bound(store@, name@) == Err::<Seq<char>, ScriptError>(e),
        },
{
    match store.get(name) {
        None => Err(ScriptError::UndefinedVariable),
        Some(Variable::Str(text)) => Ok(text.clone()),
        Some(_) => Err(ScriptError::TypeMismatch),
    }
}

/// The colour that a variable holds; a number or a text is a type mismatch.
pub fn color_of(color: &Variable) -> (value: Result<Rgb, ScriptError>)
    ensures
        value == match color@ {
            VariableView::Clr { r, g, b } => Ok::<Rgb, ScriptError>(Rgb { r, g, b }),
            _ => Err::<Rgb, ScriptError>(ScriptError::TypeMismatch),
        },
{
    match color {
        Variable::Clr { r, g, b } => Ok(Rgb { r: *r, g: *g, b: *b }),
        _ => Err(ScriptError::TypeMismatch),
    }
}

/// The action that loads a variable's colour into the foreground register.
pub fn change_foreground(color: &Variable) -> (action: Result<Action, ScriptError>)
    ensures
        match color@ {
            VariableView::Clr { r, g, b } => action == Ok::<Action, ScriptError>(
                Action::SetForeground { r, g, b },
            ),
            _ => action == Err::<Action, ScriptError>(ScriptError::TypeMismatch),
        },
{
    match color_of(color) {
        Ok(c) => Ok(Action::SetForeground { r: c.r, g: c.g, b: c.b }),
        Err(e) => Err(e),
    }
}

/// The action that loads a variable's colour into the background register.
pub fn change_background(color: &Variable) -> (action: Result<Action, ScriptError>)
    ensures
        match color@ {
            VariableView::Clr { r, g, b } => action == Ok::<Action, ScriptError>(
                Action::SetBackground { r, g, b },
            ),
            _ => action == Err::<Action, ScriptError>(ScriptError::TypeMismatch),
        },
{
    match color_of(color) {
        Ok(c) => Ok(Action::SetBackground { r: c.r, g: c.g, b: c.b }),
        Err(e) => Err(e),
    }
}

fn read_number(tokens: &Vec<Token>, i: usize, offset: usize, store: &VariableStore) -> (value:
    Result<i32, ScriptError>)
    requires
        store.wf(),
        i < tokens@.len(),
    ensures
        value == number_operand(token_views(tokens@), i + offset, store@),
{
    match operand(tokens, i, offset) {
        Some(Token::Literal(text)) => match parse_number(text.as_str()) {
            Some(n) => Ok(n),
            None => Err(ScriptError::NumberFormat),
        },
        Some(Token::Identifier(name)) => lookup_number(store, name),
        _ => Err(ScriptError::Operand),
    }
}

fn read_text(tokens: &Vec<Token>, i: usize, offset: usize, store: &VariableStore) -> (value:
    Result<String, ScriptError>)
    requires
        store.wf(),
        i < tokens@.len(),
    ensures
        match value {
            Ok(text) => text_operand(token_views(tokens@), i + offset, store@) == Ok::<
                Seq<char>,
                ScriptError,
            >(text@),
            Err(e) => text_operand(token_views(tokens@), i + offset, store@) == Err::<
                Seq<char>,
                ScriptError,
            >(e),
        },
{
    match operand(tokens, i, offset) {
        Some(Token::Literal(text)) => Ok(text.clone()),
        Some(Token::Identifier(name)) => lookup_text(store, name),
        _ => Err(ScriptError::Operand),
    }
}

fn read_component(tokens: &Vec<Token>, i: usize, offset: usize) -> (value: Result<
    i16,
    ScriptError,
>)
    requires
        i < tokens@.len(),
    ensures
        value == component_operand(token_views(tokens@), i + offset),
{
    match operand(tokens, i, offset) {
        Some(Token::Literal(text)) => match parse_component(text.as_str()) {
            Some(n) => Ok(n),
            None => Err(ScriptError::NumberFormat),
        },
        _ => Err(ScriptError::Operand),
    }
}

fn read_triple(tokens: &Vec<Token>, i: usize, offset: usize) -> (value: Result<Rgb, ScriptError>)
    requires
        i < tokens@.len(),
        offset <= 2,
    ensures
        value == triple_operand(token_views(tokens@), i + offset),
{
    let r = match read_component(tokens, i, offset) {
        Ok(r) => r,
        Err(e) => {
            return Err(e);
        },
    };
    let g = match read_component(tokens, i, offset + 1) {
        Ok(g) => g,
        Err(e) => {
            return Err(e);
        },
    };
    let b = match read_component(tokens, i, offset + 2) {
        Ok(b) => b,
        Err(e) => {
            return Err(e);
        },
    };
    Ok(Rgb { r, g, b })
}

fn read_color(tokens: &Vec<Token>, i: usize, store: &VariableStore) -> (value: Result<
    Rgb,
    ScriptError,
>)
    requires
        store.wf(),
        i < tokens@.len(),
    ensures
        value == color_operand(token_views(tokens@), i + 1, store@),
{
    match operand(tokens, i, 1) {
        Some(Token::Identifier(name)) => match store.get(name) {
            None => Err(ScriptError::UndefinedVariable),
            Some(variable) => color_of(variable),
        },
        Some(Token::Literal(_)) => read_triple(tokens, i, 1),
        _ => Err(ScriptError::Operand),
    }
}

fn read_name(tokens: &Vec<Token>, i: usize) -> (value: Result<String, ScriptError>)
    requires
        i < tokens@.len(),
    ensures
        match value {
            Ok(name) => name_operand(token_views(tokens@), i + 1) == Ok::<Seq<char>, ScriptError>(
                name@,
            ),
            Err(e) => name_operand(token_views(tokens@), i + 1) == Err::<Seq<char>, ScriptError>(e),
        },
{
    match operand(tokens, i, 1) {
        Some(Token::Identifier(name)) => Ok(name.clone()),
        _ => Err(ScriptError::Operand),
    }
}

fn shift_by(current: i32, offset: i32) -> (value: Result<i32, ScriptError>)
    ensures
        value == shifted(current, offset),
{
    match current.checked_add(offset) {
        Some(sum) => Ok(sum),
        None => Err(ScriptError::NumberFormat),
    }
}

fn move_cursor(store: &mut VariableStore, row: i32, col: i32) -> (action: Action)
    requires
        old(store).wf(),
    ensures
        final(store).wf(),
        cursor_step(old(store)@, row, col) == (Step { store: final(store)@, action: action@ }),
{
    store.insert(String::from_str("x"), Variable::Num(col));
    store.insert(String::from_str("y"), Variable::Num(row));
    Action::MoveCursor { row, col }
}

fn rebind(tokens: &Vec<Token>, i: usize, store: &mut VariableStore, value: Variable) -> (outcome:
    Result<Action, ScriptError>)
    requires
        old(store).wf(),
        i < tokens@.len(),
    ensures
        final(store).wf(),
        is_step(
            outcome,
            old(store)@,
            final(store)@,
            rebind_step(token_views(tokens@), i as int, old(store)@, value@),
        ),
{
    let name = match read_name(tokens, i) {
        Ok(name) => name,
        Err(e) => {
            return Err(e);
        },
    };
    if store.get(&name).is_none() {
        return Err(ScriptError::UndefinedVariable);
    }
    store.insert(name, value);
    Ok(Action::Nothing)
}

fn run_print(tokens: &Vec<Token>, i: usize, store: &VariableStore) -> (outcome: Result<
    Action,
    ScriptError,
>)
    requires
        store.wf(),
        i < tokens@.len(),
    ensures
        is_step(outcome, store@, store@, print_step(token_views(tokens@), i as int, store@)),
{
    match operand(tokens, i, 1) {
        Some(Token::Literal(text)) => Ok(Action::Write(text.clone())),
        Some(Token::Identifier(name)) => match lookup_text(store, name) {
            Ok(text) => Ok(Action::Write(text)),
            Err(ScriptError::UndefinedVariable) => Err(ScriptError::UndefinedVariable),
            Err(_) => Ok(Action::Nothing),
        },
        _ => Err(ScriptError::Operand),
    }
}

fn run_move(tokens: &Vec<Token>, i: usize, store: &mut VariableStore) -> (outcome: Result<
    Action,
    ScriptError,
>)
    requires
        old(store).wf(),
        i < tokens@.len(),
    ensures
        final(store).wf(),
        is_step(
            outcome,
            old(store)@,
            final(store)@,
            move_step(token_views(tokens@), i as int, old(store)@),
        ),
{
    let row = match read_number(tokens, i, 1, store) {
        Ok(row) => row,
        Err(e) => {
            return Err(e);
        },
    };
    let col = match read_number(tokens, i, 2, store) {
        Ok(col) => col,
        Err(e) => {
            return Err(e);
        },
    };
    Ok(move_cursor(store, row, col))
}

fn run_shift(tokens: &Vec<Token>, i: usize, store: &mut VariableStore) -> (outcome: Result<
    Action,
    ScriptError,
>)
    requires
        old(store).wf(),
        i < tokens@.len(),
    ensures
        final(store).wf(),
        is_step(
            outcome,
            old(store)@,
            final(store)@,
            shift_step(token_views(tokens@), i as int, old(store)@),
        ),
{
    let down = match read_number(tokens, i, 1, store) {
        Ok(down) => down,
        Err(e) => {
            return Err(e);
        },
    };
    let right = match read_number(tokens, i, 2, store) {
        Ok(right) => right,
        Err(e) => {
            return Err(e);
        },
    };
    let y = match lookup_number(store, &String::from_str("y")) {
        Ok(y) => y,
        Err(e) => {
            return Err(e);
        },
    };
    let x = match lookup_number(store, &String::from_str("x")) {
        Ok(x) => x,
        Err(e) => {
            return Err(e);
        },
    };
    let row = match shift_by(y, down) {
        Ok(row) => row,
        Err(e) => {
            return Err(e);
        },
    };
    let col = match shift_by(x, right) {
        Ok(col) => col,
        Err(e) => {
            return Err(e);
        },
    };
    Ok(move_cursor(store, row, col))
}

fn run_color_assign(tokens: &Vec<Token>, i: usize, store: &mut VariableStore) -> (outcome: Result<
    Action,
    ScriptError,
>)
    requires
        old(store).wf(),
        i < tokens@.len(),
    ensures
        final(store).wf(),
        is_step(
            outcome,
            old(store)@,
            final(store)@,
            color_assign_step(token_views(tokens@), i as int, old(store)@),
        ),
{
    let name = match read_name(tokens, i) {
        Ok(name) => name,
        Err(e) => {
            return Err(e);
        },
    };
    match read_triple(tokens, i, 2) {
        Ok(c) => {
            store.insert(name, Variable::Clr { r: c.r, g: c.g, b: c.b });
            Ok(Action::Nothing)
        },
        Err(e) => Err(e),
    }
}

/// Executes the token at index `i`: changes the store as the token says and
/// returns what the display is asked to do. On an error the store is left as
/// it was. An index past the last token does nothing.
pub fn execute_token(tokens: &Vec<Token>, i: usize, store: &mut VariableStore) -> (outcome: Result<
    Action,
    ScriptError,
>)
    requires
        old(store).wf(),
    ensures
        final(store).wf(),
        is_step(
            outcome,
            old(store)@,
            final(store)@,
            step(token_views(tokens@), i as int, old(store)@),
        ),
{
    if i >= tokens.len() {
        return Ok(Action::Nothing);
    }
    let op = match &tokens[i] {
        Token::Operator(op) => *op,
        _ => {
            return Ok(Action::Nothing);
        },
    };
    match op {
        Operator::Print => run_print(tokens, i, store),
        Operator::Await => match read_name(tokens, i) {
            Ok(name) => Ok(Action::ReadLine(name)),
            Err(e) => Err(e),
        },
        Operator::Accept => match read_name(tokens, i) {
            Ok(name) => Ok(Action::ReadChar(name)),
            Err(e) => Err(e),
        },
        Operator::Foreground => match read_color(tokens, i, store) {
            Ok(c) => Ok(Action::SetForeground { r: c.r, g: c.g, b: c.b }),
            Err(e) => Err(e),
        },
        Operator::Background => match read_color(tokens, i, store) {
            Ok(c) => Ok(Action::SetBackground { r: c.r, g: c.g, b: c.b }),
            Err(e) => Err(e),
        },
        Operator::Move => run_move(tokens, i, store),
        Operator::Shift => run_shift(tokens, i, store),
        Operator::StringAssign => match read_text(tokens, i, 2, store) {
            Ok(text) => rebind(tokens, i, store, Variable::Str(text)),
            Err(e) => Err(e),
        },
        Operator::NumberAssign => match read_number(tokens, i, 2, store) {
            Ok(n) => rebind(tokens, i, store, Variable::Num(n)),
            Err(e) => Err(e),
        },
        Operator::ColorAssign => run_color_assign(tokens, i, store),
    }
}

/// A token that is no operator does nothing when the scan reaches it, so an
/// operand is never executed a second time on its own.
pub proof fn bare_token_is_inert(tokens: Seq<TokenView>, i: int, store: Bindings)
    requires
        0 <= i < tokens.len(),
        !(tokens[i] is Operator),
    ensures
        step(tokens, i, store) == Ok::<Step, ScriptError>(
            Step { store, action: ActionView::Nothing },
        ),
{
}

/// `STRING` and `NUM` only change a name that is already bound: where they
/// succeed, the store binds the same names as before, and only the target's
/// value may differ.
pub proof fn assignment_adds_no_name(tokens: Seq<TokenView>, i: int, store: Bindings)
    requires
        token_at(tokens, i) == Some(TokenView::Operator(Operator::StringAssign)) || token_at(
            tokens,
            i,
        ) == Some(TokenView::Operator(Operator::NumberAssign)),
        step(tokens, i, store) is Ok,
    ensures
        step(tokens, i, store)->Ok_0.store.dom() == store.dom(),
        name_operand(tokens, i + 1) is Ok,
        store.contains_key(name_operand(tokens, i + 1)->Ok_0),
        forall|name: Seq<char>|
            store.contains_key(name) && name != name_operand(tokens, i + 1)->Ok_0 ==> step(
                tokens,
                i,
                store,
            )->Ok_0.store[name] == store[name],
        step(tokens, i, store)->Ok_0.action == ActionView::Nothing,
{
    let after = step(tokens, i, store)->Ok_0.store;
    assert(after.dom() =~= store.dom());
}

/// `MOVE` and `SHIFT` rewrite `x` and `y` and nothing else: where they
/// succeed, both are numbers, the cursor is moved to the row under `y` and
/// the column under `x`, and every other name is bound as before.
pub proof fn cursor_moves_rewrite_only_the_cursor(
    tokens: Seq<TokenView>,
    i: int,
    store: Bindings,
    name: Seq<char>,
)
    requires
        token_at(tokens, i) == Some(TokenView::Operator(Operator::Move)) || token_at(tokens, i)
            == Some(TokenView::Operator(Operator::Shift)),
        step(tokens, i, store) is Ok,
        name != "x"@,
        name != "y"@,
    ensures
        ({
            let after = step(tokens, i, store)->Ok_0;
            &&& after.store.contains_key("x"@)
            &&& after.store.contains_key("y"@)
            &&& after.store["x"@] is Num
            &&& after.store["y"@] is Num
            &&& after.action == (ActionView::MoveCursor {
                row: after.store["y"@]->Num_0,
                col: after.store["x"@]->Num_0,
            })
            &&& after.store.contains_key(name) == store.contains_key(name)
            &&& store.contains_key(name) ==> after.store[name] == store[name]
        }),
{
    reveal_strlit("x");
    reveal_strlit("y");
    assert("x"@ != "y"@) by {
        assert("x"@[0] != "y"@[0]);
    }
}

} // verus!
