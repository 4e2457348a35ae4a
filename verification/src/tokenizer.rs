//! The tokenizer: a single left-to-right scan that turns source text into
//! located tokens.
//!
//! The scan keeps a pending word, the current line and column, and a flag
//! that swallows the line feed of a carriage-return/line-feed pair. Its
//! behaviour is defined by [`lex`]; [`parse_tokens`] is the executable form.
use vstd::prelude::*;
use vstd::string::*;

use crate::text::push_char;

verus! {

/// The reserved words of the language.
#[derive(Debug, Clone, Copy, PartialEq, Eq)]
pub enum KeywordToken {
    /// `HAI`, which opens the program header.
    Hai,
    /// `KTHXBYE`, which closes the program.
    KThxBye,
    /// `VISIBLE`, the print statement.
    Visible,
    /// `BTW`, which starts a comment.
    Btw,
    /// `CAN`, which opens an include declaration.
    Can,
    /// `HAS`, which continues an include declaration.
    Has,
    /// `OBTW`, which opens a comment block.
    OBtw,
    /// `TLDR`, which closes a comment block.
    Tldr,
}

impl KeywordToken {
    /// The exact, case-sensitive spelling of the keyword.
    pub open spec fn spelling(self) -> Seq<char> {
        match self {
            KeywordToken::Hai => "HAI"@,
            KeywordToken::KThxBye => "KTHXBYE"@,
            KeywordToken::Visible => "VISIBLE"@,
            KeywordToken::Btw => "BTW"@,
            KeywordToken::Can => "CAN"@,
            KeywordToken::Has => "HAS"@,
            KeywordToken::OBtw => "OBTW"@,
            KeywordToken::Tldr => "TLDR"@,
        }
    }

    /// Whether the keyword starts a comment, whatever context it is met in.
    pub open spec fn opens_comment(self) -> bool {
        self == KeywordToken::Btw || self == KeywordToken::OBtw
    }

    /// The keyword as it is written in source text.
    pub fn to_string(&self) -> (text: String)
        ensures
            text@ == self.spelling(),
    {
        match self {
            KeywordToken::Hai => String::from_str("HAI"),
            KeywordToken::KThxBye => String::from_str("KTHXBYE"),
            KeywordToken::Visible => String::from_str("VISIBLE"),
            KeywordToken::Btw => String::from_str("BTW"),
            KeywordToken::Can => String::from_str("CAN"),
            KeywordToken::Has => String::from_str("HAS"),
            KeywordToken::OBtw => String::from_str("OBTW"),
            KeywordToken::Tldr => String::from_str("TLDR"),
        }
    }
}

/// What a token is.
#[derive(Debug, PartialEq, Eq)]
pub enum TokenType {
    Keyword(KeywordToken),
    /// A delimited word that is no keyword, kept verbatim.
    Word(String),
    /// A space or a tab.
    Space,
    /// A line break: a carriage return, a line feed, or the pair.
    NewLine,
    Period,
    Comma,
    Quote,
}

/// The mathematical model of a [`TokenType`]: a word is its characters.
pub enum TokenTypeView {
    Keyword(KeywordToken),
    Word(Seq<char>),
    Space,
    NewLine,
    Period,
    Comma,
    Quote,
}

impl TokenTypeView {
    /// The text a token stands for: a keyword's spelling, a word's
    /// characters, and one character for each of the others.
    pub open spec fn text(self) -> Seq<char> {
        match self {
            TokenTypeView::Keyword(keyword) => keyword.spelling(),
            TokenTypeView::Word(word) => word,
            TokenTypeView::Space => seq![' '],
            TokenTypeView::NewLine => seq!['\n'],
            TokenTypeView::Period => seq!['.'],
            TokenTypeView::Comma => seq![','],
            TokenTypeView::Quote => seq!['"'],
        }
    }

    /// Whether the token is a keyword that starts a comment.
    pub open spec fn opens_comment(self) -> bool {
        self matches TokenTypeView::Keyword(keyword) && keyword.opens_comment()
    }
}

impl DeepView for TokenType {
    type V = TokenTypeView;

    open spec fn deep_view(&self) -> TokenTypeView {
        match self {
            TokenType::Keyword(keyword) => TokenTypeView::Keyword(*keyword),
            TokenType::Word(word) => TokenTypeView::Word(word@),
            TokenType::Space => TokenTypeView::Space,
            TokenType::NewLine => TokenTypeView::NewLine,
            TokenType::Period => TokenTypeView::Period,
            TokenType::Comma => TokenTypeView::Comma,
            TokenType::Quote => TokenTypeView::Quote,
        }
    }
}

impl View for TokenType {
    type V = TokenTypeView;

    open spec fn view(&self) -> TokenTypeView {
        self.deep_view()
    }
}

impl TokenType {
    /// The text the token stands for.
    pub fn to_string(&self) -> (text: String)
        ensures
            text@ == self@.text(),
    {
        match self {
            TokenType::Keyword(keyword) => keyword.to_string(),
            TokenType::Word(word) => word.clone(),
            TokenType::Space => {
                proof {
                    reveal_strlit(" ");
                }
                let text = String::from_str(" ");
                assert(text@ =~= seq![' ']);
                text
            },
            TokenType::NewLine => {
                proof {
                    reveal_strlit("\n");
                }
                let text = String::from_str("\n");
                assert(text@ =~= seq!['\n']);
                text
            },
            TokenType::Period => {
                proof {
                    reveal_strlit(".");
                }
                let text = String::from_str(".");
                assert(text@ =~= seq!['.']);
                text
            },
            TokenType::Comma => {
                proof {
                    reveal_strlit(",");
                }
                let text = String::from_str(",");
                assert(text@ =~= seq![',']);
                text
            },
            TokenType::Quote => {
                proof {
                    reveal_strlit("\"");
                }
                let text = String::from_str("\"");
                assert(text@ =~= seq!['"']);
                text
            },
        }
    }
}

impl From<KeywordToken> for TokenType {
    fn from(value: KeywordToken) -> (token: TokenType) {
        TokenType::Keyword(value)
    }
}

impl vstd::std_specs::convert::FromSpecImpl<KeywordToken> for TokenType {
    open spec fn obeys_from_spec() -> bool {
        true
    }

    open spec fn from_spec(value: KeywordToken) -> TokenType {
        TokenType::Keyword(value)
    }
}

/// A position in the source text; lines and columns count from 1.
#[derive(Debug, Clone, Copy, PartialEq, Eq)]
pub struct TokenLocation {
    pub line: usize,
    pub column: usize,
}

/// A token and the position it was stamped with.
#[derive(Debug, PartialEq, Eq)]
pub struct Token {
    pub location: TokenLocation,
    pub t_type: TokenType,
}

/// The mathematical model of a [`Token`].
pub struct TokenView {
    pub location: TokenLocation,
    pub t_type: TokenTypeView,
}

impl DeepView for Token {
    type V = TokenView;

    open spec fn deep_view(&self) -> TokenView {
        TokenView { location: self.location, t_type: self.t_type@ }
    }
}

impl View for Token {
    type V = TokenView;

    open spec fn view(&self) -> TokenView {
        self.deep_view()
    }
}

/// The keyword that `word` spells, where it spells one.
pub open spec fn keyword_spelled(word: Seq<char>) -> Option<KeywordToken> {
    if exists|keyword: KeywordToken| keyword.spelling() == word {
        Some(choose|keyword: KeywordToken| keyword.spelling() == word)
    } else {
        None
    }
}

/// The token that a word is: the keyword it spells, or the word itself.
pub open spec fn classify_word(word: Seq<char>) -> TokenTypeView {
    match keyword_spelled(word) {
        Some(keyword) => TokenTypeView::Keyword(keyword),
        None => TokenTypeView::Word(word),
    }
}

/// No two keywords are spelled alike, and none is spelled with no letters.
pub proof fn lemma_spellings_differ(first: KeywordToken, second: KeywordToken)
    ensures
        first.spelling().len() > 0,
        first.spelling() == second.spelling() ==> first == second,
{
    reveal_strlit("HAI");
    reveal_strlit("KTHXBYE");
    reveal_strlit("VISIBLE");
    reveal_strlit("BTW");
    reveal_strlit("CAN");
    reveal_strlit("HAS");
    reveal_strlit("OBTW");
    reveal_strlit("TLDR");
    if first != second && first.spelling().len() == second.spelling().len() {
        if first.spelling().len() == 3 {
            assert(first.spelling()[0] != second.spelling()[0] || first.spelling()[2]
                != second.spelling()[2]);
        } else if first.spelling().len() == 4 {
            assert(first.spelling()[0] != second.spelling()[0]);
        } else {
            assert(first.spelling()[0] != second.spelling()[0]);
        }
    }
}

/// What flushing the pending word yields: nothing for an empty word, else
/// the keyword or word it spells.
pub open spec fn flush_word(buffer: Seq<char>) -> Option<TokenTypeView> {
    if buffer.len() == 0 {
        None
    } else {
        Some(classify_word(buffer))
    }
}

/// The state of the scan between two characters.
pub struct LexerState {
    /// The tokens emitted so far.
    pub tokens: Seq<TokenView>,
    /// The characters of the word being read.
    pub buffer: Seq<char>,
    pub line: int,
    pub column: int,
    /// Set by a carriage return; the next line feed is swallowed and clears it.
    pub skip_newline: bool,
}

/// The state before the first character.
pub open spec fn lexer_start() -> LexerState {
    LexerState { tokens: Seq::empty(), buffer: Seq::empty(), line: 1, column: 1, skip_newline: false }
}

/// `tokens` once the pending word `buffer` is flushed and `delimiter` is
/// emitted behind it. Both tokens are stamped with `location`.
pub open spec fn emitted(
    tokens: Seq<TokenView>,
    buffer: Seq<char>,
    delimiter: TokenTypeView,
    location: TokenLocation,
) -> Seq<TokenView> {
    let flushed = match flush_word(buffer) {
        Some(word) => tokens.push(TokenView { location, t_type: word }),
        None => tokens,
    };
    flushed.push(TokenView { location, t_type: delimiter })
}

/// The scan once a delimiting character has taken it to `line` and
/// `column`: the pending word is flushed and `delimiter` is emitted, both
/// stamped with the position reached.
pub open spec fn emit(state: LexerState, delimiter: TokenTypeView, line: int, column: int) -> LexerState {
    LexerState {
        tokens: emitted(
            state.tokens,
            state.buffer,
            delimiter,
            TokenLocation { line: line as usize, column: column as usize },
        ),
        buffer: Seq::empty(),
        line,
        column,
        skip_newline: state.skip_newline,
    }
}

/// The effect of one character on the scan.
pub open spec fn lex_char(state: LexerState, c: char) -> LexerState {
    if c == '\r' {
        LexerState { skip_newline: true, ..emit(state, TokenTypeView::NewLine, state.line + 1, 1) }
    } else if c == '\n' {
        if state.skip_newline {
            LexerState { skip_newline: false, ..state }
        } else {
            emit(state, TokenTypeView::NewLine, state.line + 1, 1)
        }
    } else if c == ' ' || c == '\t' {
        emit(state, TokenTypeView::Space, state.line, state.column + 1)
    } else if c == '.' {
        emit(state, TokenTypeView::Period, state.line, state.column + 1)
    } else if c == ',' {
        emit(state, TokenTypeView::Comma, state.line, state.column + 1)
    } else if c == '"' {
        emit(state, TokenTypeView::Quote, state.line, state.column + 1)
    } else {
        LexerState { buffer: state.buffer.push(c), column: state.column + 1, ..state }
    }
}

/// The state of the scan after all of `source`.
pub open spec fn lex(source: Seq<char>) -> LexerState
    decreases source.len(),
{
    if source.len() == 0 {
        lexer_start()
    } else {
        lex_char(lex(source.drop_last()), source.last())
    }
}

/// The tokens of `source`. A word that no delimiter follows is still
/// pending at the end of the text and yields no token.
pub open spec fn tokenize(source: Seq<char>) -> Seq<TokenView> {
    lex(source).tokens
}

/// Whether `table` lists `keyword`.
spec fn lists_keyword(table: Seq<(KeywordToken, String)>, keyword: KeywordToken) -> bool {
    exists|i: int| 0 <= i < table.len() && (#[trigger] table[i]).0 == keyword
}

/// Whether `table` lists every keyword, each beside its spelling.
spec fn is_keyword_table(table: Seq<(KeywordToken, String)>) -> bool {
    &&& forall|i: int| 0 <= i < table.len() ==> (#[trigger] table[i]).1@ == table[i].0.spelling()
    &&& forall|keyword: KeywordToken| #[trigger] lists_keyword(table, keyword)
}

/// The keywords beside their spellings. A scan builds the table once and
/// holds every word against it.
fn keyword_table() -> (table: Vec<(KeywordToken, String)>)
    ensures
        is_keyword_table(table@),
{
    let mut table: Vec<(KeywordToken, String)> = Vec::new();
    table.push((KeywordToken::Hai, KeywordToken::Hai.to_string()));
    table.push((KeywordToken::KThxBye, KeywordToken::KThxBye.to_string()));
    table.push((KeywordToken::Visible, KeywordToken::Visible.to_string()));
    table.push((KeywordToken::Btw, KeywordToken::Btw.to_string()));
    table.push((KeywordToken::Can, KeywordToken::Can.to_string()));
    table.push((KeywordToken::Has, KeywordToken::Has.to_string()));
    table.push((KeywordToken::OBtw, KeywordToken::OBtw.to_string()));
    table.push((KeywordToken::Tldr, KeywordToken::Tldr.to_string()));
    proof {
        assert forall|keyword: KeywordToken| #[trigger] lists_keyword(table@, keyword) by {
            match keyword {
                KeywordToken::Hai => assert(table@[0].0 == keyword),
                KeywordToken::KThxBye => assert(table@[1].0 == keyword),
                KeywordToken::Visible => assert(table@[2].0 == keyword),
                KeywordToken::Btw => assert(table@[3].0 == keyword),
                KeywordToken::Can => assert(table@[4].0 == keyword),
                KeywordToken::Has => assert(table@[5].0 == keyword),
                KeywordToken::OBtw => assert(table@[6].0 == keyword),
                KeywordToken::Tldr => assert(table@[7].0 == keyword),
            }
        }
    }
    table
}

/// Takes the pending word out of `buffer`, which is left empty, and says
/// which token it is.
fn parse_word(buffer: &mut String, keywords: &Vec<(KeywordToken, String)>) -> (token: Option<
    TokenType,
>)
    requires
        is_keyword_table(keywords@),
    ensures
        token.deep_view() == flush_word(old(buffer)@),
        final(buffer)@ == Seq::<char>::empty(),
{
    let ghost word = buffer@;
    let mut found: Option<KeywordToken> = None;
    let mut i: usize = 0;
    while i < keywords.len() && found.is_none()
        invariant
            i <= keywords.len(),
            is_keyword_table(keywords@),
            buffer@ == word,
            forall|j: int| 0 <= j < i && found is None ==> (#[trigger] keywords@[j]).1@ != word,
            found matches Some(keyword) ==> keyword.spelling() == word,
        decreases keywords.len() - i + if found is None { 1int } else { 0int },
    {
        if keywords[i].1 == *buffer {
            found = Some(keywords[i].0);
        } else {
            i += 1;
        }
    }
    proof {
        match found {
            Some(keyword) => {
                let chosen = choose|other: KeywordToken| other.spelling() == word;
                lemma_spellings_differ(chosen, keyword);
                lemma_spellings_differ(keyword, keyword);
            },
            None => {
                assert forall|keyword: KeywordToken| keyword.spelling() != word by {
                    assert(lists_keyword(keywords@, keyword));
                    let at = choose|j: int|
                        0 <= j < keywords@.len() && (#[trigger] keywords@[j]).0 == keyword;
                    assert(keywords@[at].1@ != word);
                }
            },
        }
        assert(word.len() == 0 <==> word =~= Seq::<char>::empty());
    }
    let token = match found {
        Some(keyword) => Some(TokenType::Keyword(keyword)),
        None => {
            if *buffer == String::new() {
                None
            } else {
                Some(TokenType::Word(buffer.clone()))
            }
        },
    };
    *buffer = String::new();
    token
}

/// Flushes the pending word into `tokens`, then pushes `delimiter`; both
/// are stamped with `location`.
fn consume_buffer_and_append(
    tokens: &mut Vec<Token>,
    buffer: &mut String,
    keywords: &Vec<(KeywordToken, String)>,
    delimiter: TokenType,
    location: TokenLocation,
)
    requires
        is_keyword_table(keywords@),
    ensures
        final(buffer)@ == Seq::<char>::empty(),
        final(tokens).deep_view() == emitted(
            old(tokens).deep_view(),
            old(buffer)@,
            delimiter@,
            location,
        ),
{
    let ghost before = tokens.deep_view();
    match parse_word(buffer, keywords) {
        Some(word) => {
            let ghost word_view = word@;
            tokens.push(Token { location, t_type: word });
            assert(tokens.deep_view() =~= before.push(TokenView { location, t_type: word_view }));
        },
        None => {},
    }
    let ghost flushed = tokens.deep_view();
    let ghost delimiter_view = delimiter@;
    tokens.push(Token { location, t_type: delimiter });
    assert(tokens.deep_view() =~= flushed.push(TokenView { location, t_type: delimiter_view }));
}

/// Splits `content_string` into tokens.
///
/// Every character is classified, so no text is rejected. The text has to
/// be shorter than `usize::MAX` characters for its positions to be counted.
pub fn parse_tokens(content_string: String) -> (tokens: Vec<Token>)
    requires
        content_string@.len() < usize::MAX,
    ensures
        tokens.deep_view() == tokenize(content_string@),
{
    let keywords = keyword_table();
    let mut parsed_tokens: Vec<Token> = Vec::new();
    let mut buffer = String::new();
    let mut skip_nl = false;
    let mut current_line: usize = 1;
    let mut current_col: usize = 1;
    let ghost source = content_string@;
    assert(parsed_tokens.deep_view() =~= Seq::<TokenView>::empty());
    assert(source.take(0) =~= Seq::<char>::empty());
    for c in it: content_string.as_str().chars()
        invariant
            it.seq() == source,
            source.len() < usize::MAX,
            is_keyword_table(keywords@),
            current_line <= 1 + it.index(),
            current_col <= 1 + it.index(),
            lex(source.take(it.index())) == (LexerState {
                tokens: parsed_tokens.deep_view(),
                buffer: buffer@,
                line: current_line as int,
                column: current_col as int,
                skip_newline: skip_nl,
            }),
    {
        let ghost seen = source.take(it.index());
        let ghost next = source.take(it.index() + 1);
        assert(next.drop_last() =~= seen);
        assert(next.last() == c);
        assert(lex(next) == lex_char(lex(seen), c));
        if c == '\n' && skip_nl {
            skip_nl = false;
        } else if c == '\r' || c == '\n' {
            if c == '\r' {
                skip_nl = true;
            }
            current_line = current_line + 1;
            current_col = 1;
            let location = TokenLocation { line: current_line, column: current_col };
            consume_buffer_and_append(
                &mut parsed_tokens,
                &mut buffer,
                &keywords,
                TokenType::NewLine,
                location,
            );
        } else if c == ' ' || c == '\t' || c == '.' || c == ',' || c == '"' {
            let delimiter = if c == '.' {
                TokenType::Period
            } else if c == ',' {
                TokenType::Comma
            } else if c == '"' {
                TokenType::Quote
            } else {
                TokenType::Space
            };
            current_col = current_col + 1;
            let location = TokenLocation { line: current_line, column: current_col };
            consume_buffer_and_append(
                &mut parsed_tokens,
                &mut buffer,
                &keywords,
                delimiter,
                location,
            );
        } else {
            push_char(&mut buffer, c);
            current_col = current_col + 1;
        }
    }
    assert(source.take(source.len() as int) =~= source);
    parsed_tokens
}

/// The texts of `tokens`, one after the other.
pub open spec fn concat_text(tokens: Seq<TokenView>) -> Seq<char>
    decreases tokens.len(),
{
    if tokens.len() == 0 {
        Seq::empty()
    } else {
        concat_text(tokens.drop_last()) + tokens.last().t_type.text()
    }
}

/// Whether `c` ends a word.
pub open spec fn is_delimiter(c: char) -> bool {
    c == '\r' || c == '\n' || c == ' ' || c == '\t' || c == '.' || c == ',' || c == '"'
}

/// Whether the tokens of `source` can spell it out again: it holds no
/// carriage return and no tab, which no token's text holds, and no word is
/// left pending at its end.
pub open spec fn spelled_by_tokens(source: Seq<char>) -> bool {
    &&& forall|i: int| 0 <= i < source.len() ==> source[i] != '\r' && source[i] != '\t'
    &&& source.len() == 0 || is_delimiter(source.last())
}

proof fn lemma_concat_text_push(tokens: Seq<TokenView>, token: TokenView)
    ensures
        concat_text(tokens.push(token)) == concat_text(tokens) + token.t_type.text(),
{
    assert(tokens.push(token).drop_last() =~= tokens);
}

proof fn lemma_word_text(word: Seq<char>)
    ensures
        classify_word(word).text() == word,
{
}

/// In text without carriage returns and tabs, the texts of the tokens read
/// so far, followed by the pending word, are the text read so far.
pub proof fn lemma_lex_keeps_text(source: Seq<char>)
    requires
        forall|i: int| 0 <= i < source.len() ==> source[i] != '\r' && source[i] != '\t',
    ensures
        concat_text(lex(source).tokens) + lex(source).buffer == source,
        !lex(source).skip_newline,
    decreases source.len(),
{
    if source.len() == 0 {
        assert(concat_text(lex(source).tokens) + lex(source).buffer =~= source);
    } else {
        let seen = source.drop_last();
        let c = source.last();
        lemma_lex_keeps_text(seen);
        let before = lex(seen);
        let after = lex(source);
        assert(after == lex_char(before, c));
        assert(source =~= seen.push(c));
        if is_delimiter(c) {
            let delimiter = after.tokens.last();
            assert(delimiter.t_type.text() =~= seq![c]);
            let flushed = after.tokens.drop_last();
            assert(after.tokens =~= flushed.push(delimiter));
            lemma_concat_text_push(flushed, delimiter);
            if before.buffer.len() == 0 {
                assert(flushed =~= before.tokens);
                assert(concat_text(flushed) =~= concat_text(before.tokens) + before.buffer);
            } else {
                let word = flushed.last();
                assert(flushed =~= before.tokens.push(word));
                lemma_concat_text_push(before.tokens, word);
                lemma_word_text(before.buffer);
            }
            assert(concat_text(after.tokens) + after.buffer =~= source);
        } else {
            assert(concat_text(after.tokens) + after.buffer =~= source);
        }
    }
}

/// Round trip: the texts of the tokens of `source`, one after the other,
/// are `source` again, for every `source` that its tokens can spell. A text
/// in which each line ends in a line feed alone, which has no tabs and
/// which ends in a line break is such a text.
pub proof fn lemma_tokens_spell_source(source: Seq<char>)
    requires
        spelled_by_tokens(source),
    ensures
        concat_text(tokenize(source)) == source,
{
    lemma_lex_keeps_text(source);
    if source.len() > 0 {
        assert(lex(source) == lex_char(lex(source.drop_last()), source.last()));
    }
    assert(lex(source).buffer =~= Seq::<char>::empty());
    assert(concat_text(lex(source).tokens) + Seq::<char>::empty() =~= concat_text(
        lex(source).tokens,
    ));
}

proof fn lemma_concat_text_clean(tokens: Seq<TokenView>, token: TokenView)
    requires
        forall|i: int|
            0 <= i < concat_text(tokens).len() ==> concat_text(tokens)[i] != '\r' && concat_text(
                tokens,
            )[i] != '\t',
        forall|i: int|
            0 <= i < token.t_type.text().len() ==> token.t_type.text()[i] != '\r'
                && token.t_type.text()[i] != '\t',
    ensures
        forall|i: int|
            0 <= i < concat_text(tokens.push(token)).len() ==> concat_text(tokens.push(token))[i]
                != '\r' && concat_text(tokens.push(token))[i] != '\t',
{
    lemma_concat_text_push(tokens, token);
}

/// No token's text holds a carriage return or a tab, and the pending word
/// holds no character that ends a word.
proof fn lemma_texts_hold_no_delimiter(source: Seq<char>)
    ensures
        forall|i: int|
            0 <= i < concat_text(lex(source).tokens).len() ==> concat_text(lex(source).tokens)[i]
                != '\r' && concat_text(lex(source).tokens)[i] != '\t',
        forall|i: int| 0 <= i < lex(source).buffer.len() ==> !is_delimiter(lex(source).buffer[i]),
    decreases source.len(),
{
    if source.len() > 0 {
        let seen = source.drop_last();
        let c = source.last();
        lemma_texts_hold_no_delimiter(seen);
        let before = lex(seen);
        let after = lex(source);
        assert(after == lex_char(before, c));
        if c == '\n' && before.skip_newline {
        } else if is_delimiter(c) {
            let delimiter = after.tokens.last();
            let flushed = after.tokens.drop_last();
            assert(after.tokens =~= flushed.push(delimiter));
            if before.buffer.len() == 0 {
                assert(flushed =~= before.tokens);
            } else {
                let word = flushed.last();
                assert(flushed =~= before.tokens.push(word));
                lemma_word_text(before.buffer);
                lemma_concat_text_clean(before.tokens, word);
            }
            lemma_concat_text_clean(flushed, delimiter);
        }
    }
}

/// The round trip holds of no other text: where the texts of the tokens of
/// `source` are `source` again, `source` holds no carriage return and no
/// tab, and no word is left pending at its end.
pub proof fn lemma_spelled_sources_only(source: Seq<char>)
    requires
        concat_text(tokenize(source)) == source,
    ensures
        spelled_by_tokens(source),
{
    lemma_texts_hold_no_delimiter(source);
    lemma_lex_keeps_text(source);
    assert(lex(source).buffer.len() == 0);
    if source.len() > 0 {
        assert(lex(source) == lex_char(lex(source.drop_last()), source.last()));
    }
}

/// `source` with each carriage return that stands right before a line
/// feed taken out.
pub open spec fn normalize_newlines(source: Seq<char>) -> Seq<char>
    decreases source.len(),
{
    if source.len() == 0 {
        source
    } else if source.len() >= 2 && source[source.len() - 2] == '\r' && source.last() == '\n' {
        normalize_newlines(source.take(source.len() - 2)).push('\n')
    } else {
        normalize_newlines(source.drop_last()).push(source.last())
    }
}

/// Whether a line feed follows every carriage return of `source`.
pub open spec fn crlf_only(source: Seq<char>) -> bool {
    forall|i: int|
        0 <= i < source.len() && #[trigger] source[i] == '\r' ==> i + 1 < source.len() && source[i
            + 1] == '\n'
}

/// A carriage return and the line feed behind it count as one line break:
/// where no carriage return stands alone, the scan of a text ends as the
/// scan of the text without its carriage returns does, with the same
/// tokens at the same positions.
pub proof fn lemma_crlf_is_one_newline(source: Seq<char>)
    requires
        crlf_only(source),
    ensures
        lex(source) == lex(normalize_newlines(source)),
        !lex(source).skip_newline,
        forall|i: int|
            0 <= i < normalize_newlines(source).len() ==> normalize_newlines(source)[i] != '\r',
    decreases source.len(),
{
    let count = source.len() as int;
    if count == 0 {
    } else if count >= 2 && source[count - 2] == '\r' && source.last() == '\n' {
        let head = source.take(count - 2);
        assert(source.drop_last().drop_last() =~= head);
        assert(source.drop_last().last() == '\r');
        assert(crlf_only(head)) by {
            assert forall|i: int| 0 <= i < head.len() && #[trigger] head[i] == '\r' implies i + 1
                < head.len() && head[i + 1] == '\n' by {
                assert(source[i] == '\r');
                assert(source[i + 1] == '\n');
            }
        }
        lemma_crlf_is_one_newline(head);
        let normal = normalize_newlines(head);
        assert(normal.push('\n').drop_last() =~= normal);
        assert(lex(source.drop_last()) == lex_char(lex(head), '\r'));
        assert(lex(source) == lex_char(lex(source.drop_last()), '\n'));
        assert(lex(normal.push('\n')) == lex_char(lex(normal), '\n'));
    } else {
        let head = source.drop_last();
        assert(source.last() != '\r') by {
            if source.last() == '\r' {
                assert(source[count - 1] == '\r');
            }
        }
        assert(crlf_only(head)) by {
            assert forall|i: int| 0 <= i < head.len() && #[trigger] head[i] == '\r' implies i + 1
                < head.len() && head[i + 1] == '\n' by {
                assert(source[i] == '\r');
                assert(source[i + 1] == '\n');
            }
        }
        lemma_crlf_is_one_newline(head);
        let normal = normalize_newlines(head);
        assert(normal.push(source.last()).drop_last() =~= normal);
        assert(lex(normal.push(source.last())) == lex_char(lex(normal), source.last()));
    }
}

/// Round trip over line ends: where a line feed follows every carriage
/// return of `source`, the texts of its tokens, one after the other, are
/// `source` without its carriage returns, if the tokens can spell that.
pub proof fn lemma_tokens_spell_normalized_source(source: Seq<char>)
    requires
        crlf_only(source),
        spelled_by_tokens(normalize_newlines(source)),
    ensures
        concat_text(tokenize(source)) == normalize_newlines(source),
        concat_text(tokenize(normalize_newlines(source))) == normalize_newlines(source),
{
    lemma_crlf_is_one_newline(source);
    lemma_tokens_spell_source(normalize_newlines(source));
}

} // verus!
