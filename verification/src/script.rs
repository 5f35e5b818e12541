use crate::error::ScriptError;
use crate::interpreter::{execute_token, step, Action, ActionView};
use crate::store::{output_of, Bindings, Variable, VariableStore, VariableView};
use crate::token::{token_views, Token, TokenView};
use vstd::prelude::*;
use vstd::string::StringExecFns;

verus! {

/// What a finished run leaves behind.
#[derive(Debug)]
pub struct Transcript {
    /// What the display was asked to do, in order. Tokens that ask for
    /// nothing leave no entry.
    pub actions: Vec<Action>,
    /// The store after the last token.
    pub store: VariableStore,
    /// The result of the run: the text under `out`.
    pub out: String,
}

/// A run as mathematics: the final store and the actions in order.
pub ghost struct Run {
    pub store: Bindings,
    pub actions: Seq<ActionView>,
}

/// The views of a run of actions, in order.
pub open spec fn action_views(actions: Seq<Action>) -> Seq<ActionView> {
    Seq::new(actions.len(), |i: int| actions[i]@)
}

/// The views of a run of texts, in order.
pub open spec fn text_views(texts: Seq<String>) -> Seq<Seq<char>> {
    Seq::new(texts.len(), |i: int| texts[i]@)
}

/// Whether an action waits for input.
pub open spec fn wants_input(action: ActionView) -> bool {
    action is ReadLine || action is ReadChar
}

/// The first character of `text` as a text, or the empty text.
pub open spec fn first_char(text: Seq<char>) -> Seq<char> {
    if text.len() > 0 {
        text.take(1)
    } else {
        text
    }
}

/// The store once the input that `action` waited for has arrived: a line read
/// is bound whole, a character read binds the first character of what
/// arrived. Either creates the name or overwrites it. An action that reads
/// nothing leaves the store alone.
pub open spec fn after_input(store: Bindings, action: ActionView, text: Seq<char>) -> Bindings {
    match action {
        ActionView::ReadLine(name) => store.insert(name, VariableView::Str(text)),
        ActionView::ReadChar(name) => store.insert(name, VariableView::Str(first_char(text))),
        _ => store,
    }
}

/// The input with index `used`, or the empty text once the inputs have run
/// out.
pub open spec fn input_at(inputs: Seq<Seq<char>>, used: int) -> Seq<char> {
    if 0 <= used < inputs.len() {
        inputs[used]
    } else {
        Seq::empty()
    }
}

/// The actions with `action` added, unless it asks for nothing.
pub open spec fn recorded(actions: Seq<ActionView>, action: ActionView) -> Seq<ActionView> {
    if action is Nothing {
        actions
    } else {
        actions.push(action)
    }
}

/// One forward scan from token `i` to the end. The index advances by one per
/// token whatever the token's arity. Each read takes the next of `inputs`.
/// The first error ends the run.
pub open spec fn run(
    tokens: Seq<TokenView>,
    i: int,
    store: Bindings,
    inputs: Seq<Seq<char>>,
    used: int,
    actions: Seq<ActionView>,
) -> Result<Run, ScriptError>
    decreases tokens.len() - i,
{
    if i < 0 || i >= tokens.len() {
        Ok(Run { store, actions })
    } else {
        match step(tokens, i, store) {
            Err(e) => Err(e),
            Ok(s) => if wants_input(s.action) {
                run(
                    tokens,
                    i + 1,
                    after_input(s.store, s.action, input_at(inputs, used)),
                    inputs,
                    used + 1,
                    actions.push(s.action),
                )
            } else {
                run(tokens, i + 1, s.store, inputs, used, recorded(actions, s.action))
            },
        }
    }
}

/// Whether `outcome` is the run of `tokens` from `store` on `inputs`.
pub open spec fn is_run(
    outcome: Result<Transcript, ScriptError>,
    tokens: Seq<TokenView>,
    store: Bindings,
    inputs: Seq<Seq<char>>,
) -> bool {
    let expected = run(tokens, 0, store, inputs, 0, Seq::empty());
    match outcome {
        Ok(t) => expected == Ok::<Run, ScriptError>(
            Run { store: t.store@, actions: action_views(t.actions@) },
        ) && t.store.wf() && t.out@ == output_of(t.store@),
        Err(e) => expected == Err::<Run, ScriptError>(e),
    }
}

/// Binds the text that the display read for `action` to the name that the
/// action gives.
pub fn bind_input(store: &mut VariableStore, action: &Action, text: &str)
    requires
        old(store).wf(),
    ensures
        final(store).wf(),
        final(store)@ == after_input(old(store)@, action@, text@),
{
    match action {
        Action::ReadLine(name) => {
            store.insert(name.clone(), Variable::Str(String::from_str(text)));
        },
        Action::ReadChar(name) => {
            let key = if text.unicode_len() > 0 {
                String::from_str(text.substring_char(0, 1))
            } else {
                String::from_str(text)
            };
            store.insert(name.clone(), Variable::Str(key));
        },
        _ => {},
    }
}

/// Runs a whole token sequence from the store `global_vars`, with `inputs`
/// standing for what the display would read, and returns the actions for the
/// display, the final store and the result text.
pub fn parse_tokens(tokens: &Vec<Token>, global_vars: VariableStore, inputs: &Vec<String>) -> (outcome:
    Result<Transcript, ScriptError>)
    requires
        global_vars.wf(),
    ensures
        is_run(outcome, token_views(tokens@), global_vars@, text_views(inputs@)),
{
    let ghost tv = token_views(tokens@);
    let ghost iv = text_views(inputs@);
    let ghost start = global_vars@;
    let mut store = global_vars;
    let mut actions: Vec<Action> = Vec::new();
    let mut used: usize = 0;
    let mut i: usize = 0;
    proof {
        assert(action_views(actions@) =~= Seq::<ActionView>::empty());
    }
    while i < tokens.len()
        invariant
            i <= tokens@.len(),
            store.wf(),
            tv == token_views(tokens@),
            iv == text_views(inputs@),
            start == global_vars@,
            used <= i,
            run(tv, 0, start, iv, 0, Seq::empty()) == run(
                tv,
                i as int,
                store@,
                iv,
                used as int,
                action_views(actions@),
            ),
        decreases tokens@.len() - i,
    {
        let ghost before = action_views(actions@);
        let action = match execute_token(tokens, i, &mut store) {
            Ok(action) => action,
            Err(e) => {
                return Err(e);
            },
        };
        match &action {
            Action::Nothing => {},
            Action::ReadLine(_) | Action::ReadChar(_) => {
                if used < inputs.len() {
                    bind_input(&mut store, &action, inputs[used].as_str());
                } else {
                    bind_input(&mut store, &action, "");
                    proof {
                        reveal_strlit("");
                        assert(""@ =~= Seq::<char>::empty());
                    }
                }
                used = used + 1;
                actions.push(action);
                proof {
                    assert(action_views(actions@) =~= before.push(action@));
                }
            },
            _ => {
                actions.push(action);
                proof {
                    assert(action_views(actions@) =~= before.push(action@));
                }
            },
        }
        i = i + 1;
    }
    let out = store.output();
    Ok(Transcript { actions, store, out })
}

} // verus!
