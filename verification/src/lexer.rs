use crate::error::ScriptError;
use crate::token::{token_views, Operator, Token, TokenView};
use vstd::prelude::*;
use vstd::string::StringExecFns;

verus! {

/// The operator that a lexeme spells, if it spells one. Spelling is exact and
/// case-sensitive.
pub open spec fn keyword(lexeme: Seq<char>) -> Option<Operator> {
    if lexeme == "PRINT"@ {
        Some(Operator::Print)
    } else if lexeme == "AWAIT"@ {
        Some(Operator::Await)
    } else if lexeme == "ACCEPT"@ {
        Some(Operator::Accept)
    } else if lexeme == "FORE"@ {
        Some(Operator::Foreground)
    } else if lexeme == "BACK"@ {
        Some(Operator::Background)
    } else if lexeme == "MOVE"@ {
        Some(Operator::Move)
    } else if lexeme == "SHIFT"@ {
        Some(Operator::Shift)
    } else if lexeme == "STRING"@ {
        Some(Operator::StringAssign)
    } else if lexeme == "NUM"@ {
        Some(Operator::NumberAssign)
    } else if lexeme == "CLR"@ {
        Some(Operator::ColorAssign)
    } else {
        None
    }
}

/// `text` with every double quote removed.
pub open spec fn without_quotes(text: Seq<char>) -> Seq<char>
    decreases text.len(),
{
    if text.len() == 0 {
        text
    } else if text.last() == '"' {
        without_quotes(text.drop_last())
    } else {
        without_quotes(text.drop_last()).push(text.last())
    }
}

/// Whether `lexeme` starts with `first`.
pub open spec fn starts_with(lexeme: Seq<char>, first: char) -> bool {
    lexeme.len() > 0 && lexeme[0] == first
}

/// Whether `lexeme` starts with a decimal digit.
pub open spec fn starts_with_digit(lexeme: Seq<char>) -> bool {
    lexeme.len() > 0 && '0' <= lexeme[0] && lexeme[0] <= '9'
}

/// The operator that stands `back` tokens before the end of `context`, if a
/// token stands there and is an operator.
pub open spec fn operator_back(context: Seq<TokenView>, back: int) -> Option<Operator> {
    if 1 <= back <= context.len() {
        match context[context.len() - back] {
            TokenView::Operator(op) => Some(op),
            _ => None,
        }
    } else {
        None
    }
}

/// What a lexeme is when it directly follows the operator `op`.
pub open spec fn after_operator(op: Operator, lexeme: Seq<char>) -> TokenView {
    match op {
        Operator::Print => if starts_with(lexeme, '"') {
            TokenView::Literal(without_quotes(lexeme))
        } else {
            TokenView::Identifier(lexeme)
        },
        Operator::Foreground | Operator::Background => if starts_with_digit(lexeme) {
            TokenView::Literal(lexeme)
        } else {
            TokenView::Identifier(lexeme)
        },
        Operator::Move | Operator::Shift => if lexeme == "G"@ || lexeme == "g"@ {
            TokenView::Identifier(lexeme)
        } else {
            TokenView::Literal(lexeme)
        },
        _ => TokenView::Identifier(lexeme),
    }
}

/// What a lexeme is when the operator `op` stands two tokens back, if that
/// operator has a second operand.
pub open spec fn second_after_operator(op: Operator, lexeme: Seq<char>) -> Option<TokenView> {
    match op {
        Operator::Move | Operator::Shift => if lexeme == "$"@ {
            Some(TokenView::Identifier(lexeme))
        } else {
            Some(TokenView::Literal(lexeme))
        },
        Operator::StringAssign | Operator::NumberAssign | Operator::ColorAssign => Some(
            TokenView::Literal(lexeme),
        ),
        _ => None,
    }
}

/// The token that a closed lexeme becomes after the tokens in `context`, or
/// `None` where no rule accepts it. A keyword is always its operator. Any
/// other lexeme goes by the operator directly before it; else by the operator
/// two tokens back, if that one takes a second operand; else it is a colour
/// component, if a colour assignment stands three or four tokens back. A
/// rule that would look back past the first token does not apply.
pub open spec fn classify(lexeme: Seq<char>, context: Seq<TokenView>) -> Option<TokenView> {
    if keyword(lexeme) is Some {
        Some(TokenView::Operator(keyword(lexeme).unwrap()))
    } else if operator_back(context, 1) is Some {
        Some(after_operator(operator_back(context, 1).unwrap(), lexeme))
    } else if operator_back(context, 2) is Some && second_after_operator(
        operator_back(context, 2).unwrap(),
        lexeme,
    ) is Some {
        second_after_operator(operator_back(context, 2).unwrap(), lexeme)
    } else if operator_back(context, 3) == Some(Operator::ColorAssign) || operator_back(context, 4)
        == Some(Operator::ColorAssign) {
        Some(TokenView::Literal(lexeme))
    } else {
        None
    }
}

/// The tokens of `raw` from character `pos` on, given the lexeme pending in
/// `buffer`, whether a quotation is open, and the tokens closed so far; `None`
/// where a lexeme cannot be classified.
///
/// A double quote joins the buffer and toggles quoting. Outside a quotation a
/// space closes a non-empty buffer and a semicolon closes the buffer and adds
/// a separator. Every other character joins the buffer. At the end a
/// non-empty buffer is closed.
pub open spec fn scan(
    raw: Seq<char>,
    pos: int,
    buffer: Seq<char>,
    quoting: bool,
    tokens: Seq<TokenView>,
) -> Option<Seq<TokenView>>
    decreases raw.len() - pos,
{
    if pos < 0 || pos >= raw.len() {
        if buffer.len() == 0 {
            Some(tokens)
        } else {
            match classify(buffer, tokens) {
                Some(token) => Some(tokens.push(token)),
                None => None,
            }
        }
    } else if raw[pos] == '"' {
        scan(raw, pos + 1, buffer.push(raw[pos]), !quoting, tokens)
    } else if raw[pos] == ' ' && !quoting {
        if buffer.len() == 0 {
            scan(raw, pos + 1, buffer, quoting, tokens)
        } else {
            match classify(buffer, tokens) {
                Some(token) => scan(raw, pos + 1, Seq::empty(), quoting, tokens.push(token)),
                None => None,
            }
        }
    } else if raw[pos] == ';' && !quoting {
        match classify(buffer, tokens) {
            Some(token) => scan(
                raw,
                pos + 1,
                Seq::empty(),
                quoting,
                tokens.push(token).push(TokenView::Separator),
            ),
            None => None,
        }
    } else {
        scan(raw, pos + 1, buffer.push(raw[pos]), quoting, tokens)
    }
}

/// The token sequence of a whole script.
pub open spec fn tokenize(raw: Seq<char>) -> Option<Seq<TokenView>> {
    scan(raw, 0, Seq::empty(), false, Seq::empty())
}

/// Whether `outcome` is what tokenizing `raw` gives: the tokens of `raw`, or a
/// lex error where `raw` has none.
pub open spec fn is_tokenization(raw: Seq<char>, outcome: Result<Vec<Token>, ScriptError>) -> bool {
    match outcome {
        Ok(tokens) => tokenize(raw) == Some(token_views(tokens@)),
        Err(e) => tokenize(raw) is None && e == ScriptError::Lex,
    }
}

/// Whether `token` is the classification `expected`.
pub open spec fn is_classification(token: Option<Token>, expected: Option<TokenView>) -> bool {
    match token {
        Some(t) => expected == Some(t@),
        None => expected is None,
    }
}

fn same_text(a: &str, b: &str) -> (same: bool)
    ensures
        same == (a@ == b@),
{
    String::from_str(a) == String::from_str(b)
}

/// The operator spelled by `raw`, if any.
pub fn lookup_keyword(raw: &str) -> (op: Option<Operator>)
    ensures
        op == keyword(raw@),
{
    if same_text(raw, "PRINT") {
        Some(Operator::Print)
    } else if same_text(raw, "AWAIT") {
        Some(Operator::Await)
    } else if same_text(raw, "ACCEPT") {
        Some(Operator::Accept)
    } else if same_text(raw, "FORE") {
        Some(Operator::Foreground)
    } else if same_text(raw, "BACK") {
        Some(Operator::Background)
    } else if same_text(raw, "MOVE") {
        Some(Operator::Move)
    } else if same_text(raw, "SHIFT") {
        Some(Operator::Shift)
    } else if same_text(raw, "STRING") {
        Some(Operator::StringAssign)
    } else if same_text(raw, "NUM") {
        Some(Operator::NumberAssign)
    } else if same_text(raw, "CLR") {
        Some(Operator::ColorAssign)
    } else {
        None
    }
}

/// A copy of `raw` without its double quotes.
pub fn strip_quotes(raw: &str) -> (text: String)
    ensures
        text@ == without_quotes(raw@),
{
    let n: usize = raw.unicode_len();
    let mut text = String::new();
    let mut i: usize = 0;
    while i < n
        invariant
            n == raw@.len(),
            i <= n,
            text@ == without_quotes(raw@.take(i as int)),
        decreases n - i,
    {
        proof {
            assert(raw@.take(i + 1).drop_last() == raw@.take(i as int));
        }
        if raw.get_char(i) != '"' {
            text.append(raw.substring_char(i, i + 1));
            proof {
                assert(raw@.subrange(i as int, i + 1) == seq![raw@[i as int]]);
                assert(without_quotes(raw@.take(i as int)) + seq![raw@[i as int]]
                    == without_quotes(raw@.take(i as int)).push(raw@[i as int]));
            }
        }
        i = i + 1;
    }
    proof {
        assert(raw@.take(n as int) == raw@);
    }
    text
}

fn operator_behind(context: &Vec<Token>, back: usize) -> (op: Option<Operator>)
    ensures
        op == operator_back(token_views(context@), back as int),
{
    if 1 <= back && back <= context.len() {
        match &context[context.len() - back] {
            Token::Operator(op) => Some(*op),
            _ => None,
        }
    } else {
        None
    }
}

fn first_is(raw: &str, first: char) -> (yes: bool)
    ensures
        yes == starts_with(raw@, first),
{
    raw.unicode_len() > 0 && raw.get_char(0) == first
}

fn first_is_digit(raw: &str) -> (yes: bool)
    ensures
        yes == starts_with_digit(raw@),
{
    raw.unicode_len() > 0 && '0' <= raw.get_char(0) && raw.get_char(0) <= '9'
}

fn classify_after(op: Operator, raw: &str) -> (token: Token)
    ensures
        token@ == after_operator(op, raw@),
{
    match op {
        Operator::Print => {
            if first_is(raw, '"') {
                Token::Literal(strip_quotes(raw))
            } else {
                Token::Identifier(String::from_str(raw))
            }
        },
        Operator::Foreground | Operator::Background => {
            if first_is_digit(raw) {
                Token::Literal(String::from_str(raw))
            } else {
                Token::Identifier(String::from_str(raw))
            }
        },
        Operator::Move | Operator::Shift => {
            if same_text(raw, "G") || same_text(raw, "g") {
                Token::Identifier(String::from_str(raw))
            } else {
                Token::Literal(String::from_str(raw))
            }
        },
        _ => Token::Identifier(String::from_str(raw)),
    }
}

fn classify_second_after(op: Operator, raw: &str) -> (token: Option<Token>)
    ensures
        is_classification(token, second_after_operator(op, raw@)),
{
    match op {
        Operator::Move | Operator::Shift => {
            if same_text(raw, "$") {
                Some(Token::Identifier(String::from_str(raw)))
            } else {
                Some(Token::Literal(String::from_str(raw)))
            }
        },
        Operator::StringAssign | Operator::NumberAssign | Operator::ColorAssign => Some(
            Token::Literal(String::from_str(raw)),
        ),
        _ => None,
    }
}

/// Classifies one closed lexeme, reading the tokens built so far.
pub fn assemble_token(raw: &str, context: &Vec<Token>) -> (token: Option<Token>)
    ensures
        is_classification(token, classify(raw@, token_views(context@))),
{
    if let Some(op) = lookup_keyword(raw) {
        return Some(Token::Operator(op));
    }
    if let Some(op) = operator_behind(context, 1) {
        return Some(classify_after(op, raw));
    }
    if let Some(op) = operator_behind(context, 2) {
        let second = classify_second_after(op, raw);
        if second.is_some() {
            return second;
        }
    }
    let third = operator_behind(context, 3);
    let fourth = operator_behind(context, 4);
    if matches!(third, Some(Operator::ColorAssign)) || matches!(fourth, Some(Operator::ColorAssign)) {
        Some(Token::Literal(String::from_str(raw)))
    } else {
        None
    }
}

/// Tokenizes a whole script: the tokens in order, or a lex error where some
/// lexeme has no classification.
pub fn derive_tokens(raw: &str) -> (outcome: Result<Vec<Token>, ScriptError>)
    ensures
        is_tokenization(raw@, outcome),
{
    let n: usize = raw.unicode_len();
    let mut res: Vec<Token> = Vec::new();
    let mut start: usize = 0;
    let mut in_quotes = false;
    let mut i: usize = 0;
    proof {
        assert(raw@.subrange(0, 0) =~= Seq::<char>::empty());
        assert(token_views(res@) =~= Seq::<TokenView>::empty());
    }
    while i < n
        invariant
            n == raw@.len(),
            start <= i <= n,
            tokenize(raw@) == scan(
                raw@,
                i as int,
                raw@.subrange(start as int, i as int),
                in_quotes,
                token_views(res@),
            ),
        decreases n - i,
    {
        let c = raw.get_char(i);
        let ghost before = token_views(res@);
        let ghost buffer = raw@.subrange(start as int, i as int);
        proof {
            assert(raw@.subrange(start as int, i + 1) =~= buffer.push(c));
            assert(raw@.subrange(i + 1, i + 1) =~= Seq::<char>::empty());
            assert(start == i ==> buffer =~= Seq::<char>::empty());
        }
        if c == '"' {
            in_quotes = !in_quotes;
        } else if c == ' ' && !in_quotes {
            if start < i {
                match assemble_token(raw.substring_char(start, i), &res) {
                    Some(token) => {
                        res.push(token);
                        proof {
                            assert(token_views(res@) =~= before.push(token@));
                        }
                    },
                    None => {
                        return Err(ScriptError::Lex);
                    },
                }
            }
            start = i + 1;
        } else if c == ';' && !in_quotes {
            match assemble_token(raw.substring_char(start, i), &res) {
                Some(token) => {
                    res.push(token);
                    res.push(Token::Separator);
                    proof {
                        assert(token_views(res@) =~= before.push(token@).push(
                            TokenView::Separator,
                        ));
                    }
                },
                None => {
                    return Err(ScriptError::Lex);
                },
            }
            start = i + 1;
        }
        i = i + 1;
    }
    if start < n {
        let ghost before = token_views(res@);
        match assemble_token(raw.substring_char(start, n), &res) {
            Some(token) => {
                res.push(token);
                proof {
                    assert(token_views(res@) =~= before.push(token@));
                }
            },
            None => {
                return Err(ScriptError::Lex);
            },
        }
    }
    Ok(res)
}

/// Tokenizing is a function of the script's characters alone: two outcomes of
/// tokenizing the same script both fail with a lex error, or both succeed
/// with the same tokens.
pub proof fn tokenizing_is_deterministic(
    raw: Seq<char>,
    first: Result<Vec<Token>, ScriptError>,
    second: Result<Vec<Token>, ScriptError>,
)
    requires
        is_tokenization(raw, first),
        is_tokenization(raw, second),
    ensures
        first is Ok <==> second is Ok,
        first is Ok ==> token_views(first->Ok_0@) == token_views(second->Ok_0@),
        first is Err ==> first == second,
{
}

/// A lexeme that spells a keyword is that operator, whatever precedes it.
pub proof fn keyword_wins(lexeme: Seq<char>, context: Seq<TokenView>)
    requires
        keyword(lexeme) is Some,
    ensures
        classify(lexeme, context) == Some(TokenView::Operator(keyword(lexeme).unwrap())),
{
}

/// While a quotation is open, every character up to the next double quote
/// joins the pending lexeme, spaces and semicolons included, and no token is
/// closed.
pub proof fn quotation_joins_the_lexeme(
    raw: Seq<char>,
    pos: int,
    end: int,
    buffer: Seq<char>,
    tokens: Seq<TokenView>,
)
    requires
        0 <= pos <= end <= raw.len(),
        forall|k: int| pos <= k < end ==> raw[k] != '"',
    ensures
        scan(raw, pos, buffer, true, tokens) == scan(
            raw,
            end,
            buffer + raw.subrange(pos, end),
            true,
            tokens,
        ),
    decreases end - pos,
{
    if pos == end {
        assert(buffer + raw.subrange(pos, end) =~= buffer);
    } else {
        quotation_joins_the_lexeme(raw, pos + 1, end, buffer.push(raw[pos]), tokens);
        assert(buffer.push(raw[pos]) + raw.subrange(pos + 1, end) =~= buffer + raw.subrange(
            pos,
            end,
        ));
    }
}

/// Removing the quotes from a text that has none changes nothing.
pub proof fn quote_free_text_is_kept(text: Seq<char>)
    requires
        forall|k: int| 0 <= k < text.len() ==> text[k] != '"',
    ensures
        without_quotes(text) == text,
    decreases text.len(),
{
    if text.len() > 0 {
        quote_free_text_is_kept(text.drop_last());
        assert(text.drop_last().push(text.last()) =~= text);
    }
}

/// Directly after `PRINT`, a quote-free text between two double quotes is the
/// literal of that text.
pub proof fn quoted_operand_of_print(text: Seq<char>, context: Seq<TokenView>)
    requires
        operator_back(context, 1) == Some(Operator::Print),
        forall|k: int| 0 <= k < text.len() ==> text[k] != '"',
    ensures
        classify(seq!['"'] + text + seq!['"'], context) == Some(TokenView::Literal(text)),
{
    let lexeme = seq!['"'] + text + seq!['"'];
    assert(lexeme[0] == '"');
    assert(keyword(lexeme) is None) by {
        reveal_strlit("PRINT");
        reveal_strlit("AWAIT");
        reveal_strlit("ACCEPT");
        reveal_strlit("FORE");
        reveal_strlit("BACK");
        reveal_strlit("MOVE");
        reveal_strlit("SHIFT");
        reveal_strlit("STRING");
        reveal_strlit("NUM");
        reveal_strlit("CLR");
    }
    assert(without_quotes(lexeme) == text) by {
        let inner = seq!['"'] + text;
        assert(lexeme.drop_last() =~= inner);
        assert(lexeme.last() == '"');
        quote_free_text_is_kept(text);
        strip_leading_quote(text);
    }
}

/// A quote in front of a text disappears with the text's own quotes.
proof fn strip_leading_quote(text: Seq<char>)
    ensures
        without_quotes(seq!['"'] + text) == without_quotes(text),
    decreases text.len(),
{
    let whole = seq!['"'] + text;
    if text.len() == 0 {
        assert(whole.drop_last() =~= text);
    } else {
        strip_leading_quote(text.drop_last());
        assert(whole.drop_last() =~= seq!['"'] + text.drop_last());
        assert(whole.last() == text.last());
    }
}

/// Outside a quotation, characters other than the double quote, the space
/// and the semicolon join the pending lexeme and close no token.
pub proof fn word_joins_the_lexeme(
    raw: Seq<char>,
    pos: int,
    end: int,
    buffer: Seq<char>,
    tokens: Seq<TokenView>,
)
    requires
        0 <= pos <= end <= raw.len(),
        forall|k: int| pos <= k < end ==> raw[k] != '"' && raw[k] != ' ' && raw[k] != ';',
    ensures
        scan(raw, pos, buffer, false, tokens) == scan(
            raw,
            end,
            buffer + raw.subrange(pos, end),
            false,
            tokens,
        ),
    decreases end - pos,
{
    if pos == end {
        assert(buffer + raw.subrange(pos, end) =~= buffer);
    } else {
        word_joins_the_lexeme(raw, pos + 1, end, buffer.push(raw[pos]), tokens);
        assert(buffer.push(raw[pos]) + raw.subrange(pos + 1, end) =~= buffer + raw.subrange(
            pos,
            end,
        ));
    }
}

/// Quoting suppresses the meaning of delimiters: `PRINT`, a space, and any
/// quote-free text between double quotes tokenize to the operator and one
/// literal that holds the text, whatever spaces and semicolons it contains.
pub proof fn print_of_quoted_text_is_one_literal(text: Seq<char>)
    requires
        forall|k: int| 0 <= k < text.len() ==> text[k] != '"',
    ensures
        tokenize("PRINT "@ + seq!['"'] + text + seq!['"']) == Some(
            seq![TokenView::Operator(Operator::Print), TokenView::Literal(text)],
        ),
{
    reveal_strlit("PRINT ");
    reveal_strlit("PRINT");
    let raw = "PRINT "@ + seq!['"'] + text + seq!['"'];
    let n = text.len() as int;
    let none = Seq::<TokenView>::empty();
    let print = seq![TokenView::Operator(Operator::Print)];
    let open = seq!['"'];
    let quoted = seq!['"'] + text + seq!['"'];
    assert(raw.len() == n + 8);
    assert(raw[5] == ' ' && raw[6] == '"' && raw[n + 7] == '"');
    assert forall|k: int| 7 <= k < n + 7 implies raw[k] != '"' by {
        assert(raw[k] == text[k - 7]);
    }
    word_joins_the_lexeme(raw, 0, 5, Seq::empty(), none);
    assert(Seq::<char>::empty() + raw.subrange(0, 5) =~= "PRINT"@);
    assert(classify("PRINT"@, none) == Some(TokenView::Operator(Operator::Print)));
    assert(none.push(TokenView::Operator(Operator::Print)) =~= print);
    assert(scan(raw, 5, "PRINT"@, false, none) == scan(raw, 6, Seq::empty(), false, print));
    assert(Seq::<char>::empty().push(raw[6]) =~= open);
    assert(scan(raw, 6, Seq::empty(), false, print) == scan(raw, 7, open, true, print));
    quotation_joins_the_lexeme(raw, 7, n + 7, open, print);
    assert(raw.subrange(7, n + 7) =~= text);
    assert((open + text).push(raw[n + 7]) =~= quoted);
    assert(scan(raw, n + 7, open + text, true, print) == scan(raw, n + 8, quoted, false, print));
    quoted_operand_of_print(text, print);
    assert(print.push(TokenView::Literal(text)) =~= seq![
        TokenView::Operator(Operator::Print),
        TokenView::Literal(text),
    ]);
}

} // verus!
