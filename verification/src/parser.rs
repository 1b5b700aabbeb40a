//! Splitting ASN.1 text into tokens: separators and runs of text, each with its location.
use vstd::prelude::*;

verus! {

/// A line and a column, both counted from one.
#[derive(Debug, Copy, Clone, PartialOrd, PartialEq, Eq, Structural)]
pub struct Location {
    line: usize,
    column: usize,
}

impl Location {
    /// The line of this location.
    pub closed spec fn line_spec(&self) -> usize {
        self.line
    }

    /// The column of this location.
    pub closed spec fn column_spec(&self) -> usize {
        self.column
    }

    /// The location at `line` and `column`.
    pub fn at(line: usize, column: usize) -> (l: Location)
        ensures
            l.line_spec() == line,
            l.column_spec() == column,
    {
        Location { line, column }
    }

    /// The line of this location.
    pub fn line(&self) -> (n: usize)
        ensures
            n == self.line_spec(),
    {
        self.line
    }

    /// The column of this location.
    pub fn column(&self) -> (n: usize)
        ensures
            n == self.column_spec(),
    {
        self.column
    }
}

impl Default for Location {
    fn default() -> (l: Self)
        ensures
            l.line_spec() == 0,
            l.column_spec() == 0,
    {
        Location { line: 0, column: 0 }
    }
}

/// The location at `line` and `column`, in specifications.
pub closed spec fn location_at(line: usize, column: usize) -> Location {
    Location { line, column }
}

pub proof fn lemma_location_at(line: usize, column: usize)
    ensures
        location_at(line, column).line_spec() == line,
        location_at(line, column).column_spec() == column,
        forall|l: Location| l.line_spec() == line && l.column_spec() == column ==> l == location_at(line, column),
{
}

/// A token of ASN.1 text as a value: a run of text or a separator, with its location.
pub enum TokenView {
    Text(Location, Seq<char>),
    Separator(Location, char),
}

/// A token of ASN.1 text: a run of text or a separator, with its location.
#[derive(Debug, PartialOrd, PartialEq)]
pub enum Token {
    Text(Location, String),
    Separator(Location, char),
}

impl View for Token {
    type V = TokenView;

    open spec fn view(&self) -> TokenView {
        match self {
            Token::Text(l, t) => TokenView::Text(*l, t@),
            Token::Separator(l, c) => TokenView::Separator(*l, *c),
        }
    }
}

/// `c` is the same letter as `d` when ASCII letters are compared without their case.
pub open spec fn ascii_lower(c: char) -> char {
    if 'A' <= c <= 'Z' {
        ((c as u32) + 32) as char
    } else {
        c
    }
}

/// Two texts are equal when ASCII letters are compared without their case.
pub open spec fn eq_ignore_ascii_case(a: Seq<char>, b: Seq<char>) -> bool {
    a.len() == b.len() && forall|i: int| 0 <= i < a.len() ==> ascii_lower(a[i]) == ascii_lower(b[i])
}

/// Whether two texts hold the same characters.
pub(crate) fn text_eq(a: &str, b: &str) -> (r: bool)
    ensures
        r == (a@ == b@),
{
    let n = a.unicode_len();
    if n != b.unicode_len() {
        return false;
    }
    let mut i: usize = 0;
    while i < n
        invariant
            n == a@.len() == b@.len(),
            0 <= i <= n,
            forall|j: int| 0 <= j < i ==> a@[j] == b@[j],
        decreases n - i,
    {
        if a.get_char(i) != b.get_char(i) {
            return false;
        }
        i = i + 1;
    }
    assert(a@ =~= b@);
    true
}

/// The character with an ASCII capital letter made small.
pub(crate) fn to_ascii_lower(c: char) -> (r: char)
    ensures
        r == ascii_lower(c),
{
    if 'A' <= c && c <= 'Z' {
        ((c as u8) + 32) as char
    } else {
        c
    }
}

/// Whether two texts are equal when ASCII letters are compared without their case.
pub(crate) fn text_eq_ignore_ascii_case(a: &str, b: &str) -> (r: bool)
    ensures
        r == eq_ignore_ascii_case(a@, b@),
{
    let n = a.unicode_len();
    if n != b.unicode_len() {
        return false;
    }
    let mut i: usize = 0;
    while i < n
        invariant
            n == a@.len() == b@.len(),
            0 <= i <= n,
            forall|j: int| 0 <= j < i ==> ascii_lower(a@[j]) == ascii_lower(b@[j]),
        decreases n - i,
    {
        if to_ascii_lower(a.get_char(i)) != to_ascii_lower(b.get_char(i)) {
            return false;
        }
        i = i + 1;
    }
    true
}

impl From<char> for Token {
    fn from(separator: char) -> (t: Self) {
        Token::Separator(Location { line: 0, column: 0 }, separator)
    }
}

impl vstd::std_specs::convert::FromSpecImpl<char> for Token {
    open spec fn obeys_from_spec() -> bool {
        true
    }

    open spec fn from_spec(separator: char) -> Token {
        Token::Separator(location_at(0, 0), separator)
    }
}

impl From<String> for Token {
    fn from(text: String) -> (t: Self) {
        Token::Text(Location { line: 0, column: 0 }, text)
    }
}

impl vstd::std_specs::convert::FromSpecImpl<String> for Token {
    open spec fn obeys_from_spec() -> bool {
        true
    }

    open spec fn from_spec(text: String) -> Token {
        Token::Text(location_at(0, 0), text)
    }
}

impl Token {
    /// The location of this token.
    pub fn location(&self) -> (l: Location)
        ensures
            l == match self@ {
                TokenView::Text(l, _) => l,
                TokenView::Separator(l, _) => l,
            },
    {
        match self {
            Token::Text(location, _) => *location,
            Token::Separator(location, _) => *location,
        }
    }

    /// Whether this token is the text `text`.
    pub fn eq_text(&self, text: &str) -> (b: bool)
        ensures
            b == (self@ matches TokenView::Text(_, t) && t == text@),
    {
        match self {
            Token::Text(_, t) => text_eq(t.as_str(), text),
            Token::Separator(_, _) => false,
        }
    }

    /// Whether this token is the text `text` when ASCII letters are compared without their
    /// case.
    pub fn eq_text_ignore_ascii_case(&self, text: &str) -> (b: bool)
        ensures
            b == (self@ matches TokenView::Text(_, t) && eq_ignore_ascii_case(t, text@)),
    {
        match self {
            Token::Text(_, t) => text_eq_ignore_ascii_case(t.as_str(), text),
            Token::Separator(_, _) => false,
        }
    }

    /// Whether this token is the separator `separator`.
    pub fn eq_separator(&self, separator: char) -> (b: bool)
        ensures
            b == (self@ matches TokenView::Separator(_, c) && c == separator),
    {
        match self {
            Token::Separator(_, c) => *c == separator,
            Token::Text(_, _) => false,
        }
    }

    /// The text of this token, if it is one.
    pub fn text(&self) -> (t: Option<&String>)
        ensures
            match self@ {
                TokenView::Text(_, text) => t is Some && t->Some_0@ == text,
                TokenView::Separator(_, _) => t is None,
            },
    {
        match self {
            Token::Text(_, text) => Some(text),
            _ => None,
        }
    }

    /// The separator of this token, if it is one.
    pub fn separator(&self) -> (s: Option<char>)
        ensures
            match self@ {
                TokenView::Separator(_, c) => s == Some(c),
                TokenView::Text(_, _) => s is None,
            },
    {
        match self {
            Token::Separator(_, c) => Some(*c),
            _ => None,
        }
    }

    /// Whether this token is a text.
    pub fn is_text(&self) -> (b: bool)
        ensures
            b == (self@ is Text),
    {
        self.text().is_some()
    }

    /// Whether this token is a separator.
    pub fn is_separator(&self) -> (b: bool)
        ensures
            b == (self@ is Separator),
    {
        self.separator().is_some()
    }

    /// The text of this token, if it is one, consuming it.
    pub fn into_text(self) -> (t: Option<String>)
        ensures
            match self@ {
                TokenView::Text(_, text) => t is Some && t->Some_0@ == text,
                TokenView::Separator(_, _) => t is None,
            },
    {
        if let Token::Text(_, text) = self {
            Some(text)
        } else {
            None
        }
    }

    /// The text of this token, or the error `f` makes of a separator.
    pub fn into_text_or_else<E, F: Fn(Token) -> E>(self, f: F) -> (r: Result<String, E>)
        requires
            self@ is Separator ==> f.requires((self,)),
        ensures
            match self@ {
                TokenView::Text(_, text) => r is Ok && r->Ok_0@ == text,
                TokenView::Separator(_, _) => r is Err && f.ensures((self,), r->Err_0),
            },
    {
        match self {
            Token::Text(_, text) => Ok(text),
            token => Err(f(token)),
        }
    }

    /// The separator of this token, or the error `f` makes of a text.
    pub fn into_separator_or_else<E, F: Fn(Token) -> E>(self, f: F) -> (r: Result<char, E>)
        requires
            self@ is Text ==> f.requires((self,)),
        ensures
            match self@ {
                TokenView::Separator(_, c) => r == Ok::<char, E>(c),
                TokenView::Text(_, _) => r is Err && f.ensures((self,), r->Err_0),
            },
    {
        match self {
            Token::Separator(_, separator) => Ok(separator),
            token => Err(f(token)),
        }
    }
}

/// The characters of a text.
pub(crate) fn chars_of(s: &str) -> (v: Vec<char>)
    ensures
        v@ == s@,
{
    broadcast use vstd::string::axiom_spec_iter;
    let mut v: Vec<char> = Vec::new();
    for c in it: s.chars()
        invariant
            v@ == it.seq().take(it.index() as int),
            it.seq() == s@,
    {
        v.push(c);
    }
    v
}

/// `String::push` appends one character.
pub assume_specification[ std::string::String::push ](s: &mut std::string::String, ch: char)
    ensures
        final(s)@ == old(s)@.push(ch),
;

/// The separators of ASN.1 syntax.
pub open spec fn is_separator_char(c: char) -> bool {
    c == ':' || c == ';' || c == '=' || c == '(' || c == ')' || c == '{' || c == '}' || c == '.'
        || c == ','
}

/// The control characters: the general category Cc of Unicode.
pub open spec fn is_control(c: char) -> bool {
    c <= '\u{1f}' || ('\u{7f}' <= c && c <= '\u{9f}')
}

/// The characters that end a run of text.
pub open spec fn is_blank(c: char) -> bool {
    c == ' ' || c == '\r' || c == '\n' || c == '\t'
}

/// The tokens completed so far and the token being built.
pub type ScanState = (Seq<TokenView>, Option<TokenView>);

/// Adding a token to the scan: a text following a text extends it; otherwise the token being
/// built is completed and the new one takes its place.
pub open spec fn push_token(state: ScanState, token: TokenView) -> ScanState {
    match state.1 {
        None => (state.0, Some(token)),
        Some(current) => match (current, token) {
            (TokenView::Text(l, a), TokenView::Text(_, b)) => (state.0, Some(TokenView::Text(l, a + b))),
            _ => (state.0.push(current), Some(token)),
        },
    }
}

/// The tokens of a scan once the token being built is completed.
pub open spec fn flushed(state: ScanState) -> Seq<TokenView> {
    match state.1 {
        Some(t) => state.0.push(t),
        None => state.0,
    }
}

/// One character of the scan at `line` and `column`: a separator is a token of its own, any
/// other visible character a text, a blank completes the token being built, and other control
/// characters are skipped.
pub open spec fn scan_char(state: ScanState, line: nat, column: nat, c: char) -> ScanState {
    let at = location_at(line as usize, column as usize);
    if is_separator_char(c) {
        push_token(state, TokenView::Separator(at, c))
    } else if !is_control(c) && c != ' ' {
        push_token(state, TokenView::Text(at, seq![c]))
    } else if is_blank(c) {
        (flushed(state), None)
    } else {
        state
    }
}

/// Scanning the characters of `content`, on line `line`, columns counted from one.
pub open spec fn scan(state: ScanState, line: nat, content: Seq<char>) -> ScanState
    decreases content.len(),
{
    if content.len() == 0 {
        state
    } else {
        scan_char(scan(state, line, content.drop_last()), line, content.len(), content.last())
    }
}

/// A line without the carriage return that ended it together with the line feed.
pub open spec fn strip_cr(line: Seq<char>) -> Seq<char> {
    if line.len() > 0 && line.last() == '\r' {
        line.drop_last()
    } else {
        line
    }
}

/// Splitting text into lines: the lines completed so far and the one being read.
pub open spec fn split_prefix(s: Seq<char>) -> (Seq<Seq<char>>, Seq<char>)
    decreases s.len(),
{
    if s.len() == 0 {
        (Seq::empty(), Seq::empty())
    } else {
        let (done, current) = split_prefix(s.drop_last());
        if s.last() == '\n' {
            (done.push(strip_cr(current)), Seq::empty())
        } else {
            (done, current.push(s.last()))
        }
    }
}

/// The lines of a text: it is split at line feeds, a carriage return before a line feed is
/// dropped, and a last empty line is no line.
pub open spec fn lines_of(s: Seq<char>) -> Seq<Seq<char>> {
    let (done, current) = split_prefix(s);
    if current.len() == 0 {
        done
    } else {
        done.push(current)
    }
}

/// A line up to its first `--`, which starts a comment.
pub open spec fn before_comment(line: Seq<char>) -> Seq<char>
    decreases line.len(),
{
    if line.len() < 2 {
        line
    } else if line[0] == '-' && line[1] == '-' {
        Seq::empty()
    } else {
        seq![line[0]] + before_comment(line.drop_first())
    }
}

/// The tokens of the first lines of a text, lines counted from one.
pub open spec fn tokenize_lines(lines: Seq<Seq<char>>) -> Seq<TokenView>
    decreases lines.len(),
{
    if lines.len() == 0 {
        Seq::empty()
    } else {
        flushed(
            scan(
                (tokenize_lines(lines.drop_last()), None),
                lines.len(),
                before_comment(lines.last()),
            ),
        )
    }
}

/// The tokens of an ASN.1 text.
pub open spec fn tokenize(s: Seq<char>) -> Seq<TokenView> {
    tokenize_lines(lines_of(s))
}

/// The views of tokens.
pub open spec fn token_views(tokens: Seq<Token>) -> Seq<TokenView> {
    tokens.map_values(|t: Token| t@)
}

/// The view of a token being built.
pub open spec fn current_view(token: Option<Token>) -> Option<TokenView> {
    match token {
        Some(t) => Some(t@),
        None => None,
    }
}

/// The lines of the characters `chars`, as [`lines_of`] splits them.
fn split_lines(chars: &Vec<char>) -> (lines: Vec<Vec<char>>)
    ensures
        lines@.map_values(|l: Vec<char>| l@) == lines_of(chars@),
{
    let mut done: Vec<Vec<char>> = Vec::new();
    let mut current: Vec<char> = Vec::new();
    let mut i: usize = 0;
    while i < chars.len()
        invariant
            0 <= i <= chars@.len(),
            (done@.map_values(|l: Vec<char>| l@), current@) == split_prefix(chars@.take(i as int)),
        decreases chars@.len() - i,
    {
        let c = chars[i];
        proof {
            assert(chars@.take(i + 1).drop_last() =~= chars@.take(i as int));
        }
        if c == '\n' {
            let mut line = current;
            if line.len() > 0 && line[line.len() - 1] == '\r' {
                line.pop();
                assert(line@ =~= strip_cr(current@));
            }
            let ghost before = done@;
            done.push(line);
            assert(done@.map_values(|l: Vec<char>| l@) =~= before.map_values(|l: Vec<char>| l@).push(
                line@,
            ));
            current = Vec::new();
        } else {
            current.push(c);
        }
        i = i + 1;
    }
    assert(chars@.take(chars@.len() as int) =~= chars@);
    if current.len() > 0 {
        let ghost before = done@;
        done.push(current);
        assert(done@.map_values(|l: Vec<char>| l@) =~= before.map_values(|l: Vec<char>| l@).push(
            current@,
        ));
    }
    done
}

/// A line cut at position `k`, the first where `--` starts, or at its end.
proof fn lemma_before_comment(line: Seq<char>, k: nat)
    requires
        k <= line.len(),
        forall|j: int| 0 <= j < k && j + 1 < line.len() ==> !(#[trigger] line[j] == '-' && line[j + 1] == '-'),
        k == line.len() || (k + 1 < line.len() && line[k as int] == '-' && line[k as int + 1] == '-'),
    ensures
        before_comment(line) == line.take(k as int),
    decreases k,
{
    if line.len() < 2 {
        assert(line.take(k as int) =~= line);
    } else if k == 0 {
        assert(line.take(0) =~= Seq::<char>::empty());
    } else {
        let rest = line.drop_first();
        assert forall|j: int| 0 <= j < k - 1 && j + 1 < rest.len() implies !(#[trigger] rest[j] == '-' && rest[j + 1] == '-') by {
            assert(rest[j] == line[j + 1] && rest[j + 1] == line[j + 2]);
        }
        lemma_before_comment(rest, (k - 1) as nat);
        assert(line.take(k as int) =~= seq![line[0]] + rest.take(k - 1));
    }
}

/// A line without its comment, as [`before_comment`] cuts it.
fn cut_comment(line: &Vec<char>) -> (content: Vec<char>)
    ensures
        content@ == before_comment(line@),
{
    let n = line.len();
    let mut k: usize = 0;
    while k < n && !(k + 1 < n && line[k] == '-' && line[k + 1] == '-')
        invariant
            0 <= k <= n,
            n == line@.len(),
            forall|j: int| 0 <= j < k && j + 1 < n ==> !(#[trigger] line@[j] == '-' && line@[j + 1] == '-'),
        decreases n - k,
    {
        k = k + 1;
    }
    proof {
        lemma_before_comment(line@, k as nat);
    }
    let mut content: Vec<char> = Vec::new();
    let mut i: usize = 0;
    while i < k
        invariant
            0 <= i <= k <= n,
            n == line@.len(),
            content@ == line@.take(i as int),
        decreases k - i,
    {
        content.push(line[i]);
        assert(content@ =~= line@.take(i + 1));
        i = i + 1;
    }
    content
}

/// Adds `token` to the tokens completed and the token being built, as [`push_token`] does.
fn push_scanned(tokens: &mut Vec<Token>, previous: &mut Option<Token>, token: Token)
    ensures
        (token_views(final(tokens)@), current_view(*final(previous))) == push_token(
            (token_views(old(tokens)@), current_view(*old(previous))),
            token@,
        ),
{
    let current = previous.take();
    match current {
        None => {
            *previous = Some(token);
        },
        Some(Token::Text(location, text)) => {
            match token {
                Token::Text(_, other) => {
                    let mut text = text;
                    let mut i: usize = 0;
                    let n = other.as_str().unicode_len();
                    let ghost start = text@;
                    while i < n
                        invariant
                            0 <= i <= n,
                            n == other@.len(),
                            text@ == start + other@.take(i as int),
                        decreases n - i,
                    {
                        text.push(other.as_str().get_char(i));
                        assert(text@ =~= start + other@.take(i + 1));
                        i = i + 1;
                    }
                    assert(other@.take(n as int) =~= other@);
                    *previous = Some(Token::Text(location, text));
                },
                separator => {
                    let ghost before = tokens@;
                    tokens.push(Token::Text(location, text));
                    assert(token_views(tokens@) =~= token_views(before).push(
                        TokenView::Text(location, text@),
                    ));
                    *previous = Some(separator);
                },
            }
        },
        Some(separator) => {
            let ghost before = tokens@;
            let ghost sv = separator@;
            tokens.push(separator);
            assert(token_views(tokens@) =~= token_views(before).push(sv));
            *previous = Some(token);
        },
    }
}

/// Completes the token being built, if any.
fn flush_scanned(tokens: &mut Vec<Token>, previous: Option<Token>)
    ensures
        token_views(final(tokens)@) == flushed((token_views(old(tokens)@), current_view(previous))),
{
    if let Some(token) = previous {
        let ghost before = tokens@;
        let ghost tv = token@;
        tokens.push(token);
        assert(token_views(tokens@) =~= token_views(before).push(tv));
    }
}

/// Appends the tokens of `content`, the text of line `line` without its comment.
fn scan_line(tokens: &mut Vec<Token>, line: usize, content: &Vec<char>)
    ensures
        token_views(final(tokens)@) == flushed(
            scan((token_views(old(tokens)@), None), line as nat, content@),
        ),
{
    let mut previous: Option<Token> = None;
    let mut j: usize = 0;
    while j < content.len()
        invariant
            0 <= j <= content@.len(),
            (token_views(tokens@), current_view(previous)) == scan(
                (token_views(old(tokens)@), None),
                line as nat,
                content@.take(j as int),
            ),
        decreases content@.len() - j,
    {
        let c = content[j];
        let column = j + 1;
        proof {
            assert(content@.take(j + 1).drop_last() =~= content@.take(j as int));
            lemma_location_at(line, column);
        }
        if c == ':' || c == ';' || c == '=' || c == '(' || c == ')' || c == '{' || c == '}'
            || c == '.' || c == ',' {
            // ASN.1 syntax
            push_scanned(tokens, &mut previous, Token::Separator(Location::at(line, column), c));
        } else if !(c <= '\u{1f}' || ('\u{7f}' <= c && c <= '\u{9f}')) && c != ' ' {
            // text
            let mut text = String::new();
            text.push(c);
            assert(text@ =~= seq![c]);
            push_scanned(tokens, &mut previous, Token::Text(Location::at(line, column), text));
        } else if c == ' ' || c == '\r' || c == '\n' || c == '\t' {
            // a blank ends the text
            let current = previous.take();
            flush_scanned(tokens, current);
        }
        j = j + 1;
    }
    assert(content@.take(content@.len() as int) =~= content@);
    flush_scanned(tokens, previous);
}

/// Splits ASN.1 text into tokens.
#[derive(Debug)]
pub struct Tokenizer;

impl Default for Tokenizer {
    fn default() -> (t: Self) {
        Tokenizer
    }
}

impl Tokenizer {
    /// The tokens of `asn`, as [`tokenize`] describes them: line by line, comments removed,
    /// runs of text joined, separators apart.
    pub fn parse(&self, asn: &str) -> (tokens: Vec<Token>)
        ensures
            token_views(tokens@) == tokenize(asn@),
    {
        let chars = chars_of(asn);
        let lines = split_lines(&chars);
        let mut tokens: Vec<Token> = Vec::new();
        let mut i: usize = 0;
        proof {
            assert(token_views(tokens@) =~= Seq::<TokenView>::empty());
        }
        while i < lines.len()
            invariant
                0 <= i <= lines@.len(),
                lines@.map_values(|l: Vec<char>| l@) == lines_of(asn@),
                token_views(tokens@) == tokenize_lines(lines_of(asn@).take(i as int)),
            decreases lines@.len() - i,
        {
            let content = cut_comment(&lines[i]);
            proof {
                let ls = lines_of(asn@);
                assert(ls.take(i + 1).drop_last() =~= ls.take(i as int));
                assert(ls.take(i + 1).last() == lines@[i as int]@);
            }
            scan_line(&mut tokens, i + 1, &content);
            i = i + 1;
        }
        assert(lines_of(asn@).take(lines@.len() as int) =~= lines_of(asn@));
        tokens
    }
}

} // verus!
