//! The input tokenizer: a character-by-character lexer that splits a command
//! line into words, honouring quotes, backslash escapes, continuation lines
//! and home-directory substitution.
use vstd::prelude::*;

use crate::text::{
    from_chars, push_all, starts_with, to_chars, trim, trim_chars, vec_starts_with, words,
};

verus! {

/// What the tokenizer still needs before the logical line is complete.
#[derive(PartialEq, Eq, Structural, Clone, Copy, Debug)]
pub enum Pending {
    /// The line is complete.
    Nothing,
    /// The line ended with a backslash.
    Escape,
    /// A single quote is open.
    SingleQuote,
    /// A double quote is open.
    DoubleQuote,
}

/// The prompt shown while reading a continuation line.
pub open spec fn prompt_text(p: Pending) -> Option<Seq<char>> {
    match p {
        Pending::Nothing => None,
        Pending::Escape => Some(">"@),
        Pending::SingleQuote => Some("quote>"@),
        Pending::DoubleQuote => Some("dquote>"@),
    }
}

impl Pending {
    /// The prompt for the continuation line, if one is needed.
    pub fn prompt(&self) -> (r: Option<&'static str>)
        ensures
            r matches Some(t) ==> prompt_text(*self) == Some(t@),
            r is None <==> prompt_text(*self) is None,
    {
        match self {
            Pending::Nothing => None,
            Pending::Escape => Some(">"),
            Pending::SingleQuote => Some("quote>"),
            Pending::DoubleQuote => Some("dquote>"),
        }
    }
}

/// Characters that a backslash escapes inside double quotes.
pub open spec fn escapable(c: char) -> bool {
    c == '$' || c == '`' || c == '"' || c == '\\'
}

/// Home substitution: `~` alone becomes `home`, and a leading `~/` has its
/// `~` replaced by `home`.
pub open spec fn home_expanded(t: Seq<char>, home: Seq<char>) -> Seq<char> {
    if t == seq!['~'] {
        home
    } else if t.len() >= 2 && t[0] == '~' && t[1] == '/' {
        home + t.drop_first()
    } else {
        t
    }
}

/// The abstract state of a [`Shell`].
pub struct ShellState {
    /// The word being accumulated.
    pub arg: Seq<char>,
    /// The completed words, the command name first.
    pub args: Seq<Seq<char>>,
    pub home: Seq<char>,
    pub in_quote: bool,
    pub quote: char,
    pub escape: bool,
    pub prev_path: Seq<char>,
    pub current_path: Seq<char>,
}

impl ShellState {
    /// The state of a fresh shell.
    pub open spec fn initial() -> ShellState {
        ShellState {
            arg: Seq::empty(),
            args: Seq::empty(),
            home: Seq::empty(),
            in_quote: false,
            quote: '"',
            escape: false,
            prev_path: Seq::empty(),
            current_path: Seq::empty(),
        }
    }

    /// The accumulated word, trimmed and with home substitution applied.
    pub open spec fn token(self) -> Seq<char> {
        home_expanded(trim(self.arg), self.home)
    }

    /// Completes an unquoted word; an empty result is dropped.
    pub open spec fn flush(self) -> ShellState {
        if self.arg.len() == 0 {
            self
        } else {
            ShellState {
                args: if self.token().len() > 0 {
                    self.args.push(self.token())
                } else {
                    self.args
                },
                arg: Seq::empty(),
                ..self
            }
        }
    }

    /// Completes a word that a closing quote ended, as it stands.
    pub open spec fn flush_quoted(self) -> ShellState {
        if self.arg.len() == 0 {
            self
        } else {
            ShellState { args: self.args.push(self.arg), arg: Seq::empty(), ..self }
        }
    }

    /// One character `c` of input, `next` being the character after it on the
    /// same line, if any.
    pub open spec fn step(self, c: char, next: Option<char>) -> ShellState {
        if self.escape {
            ShellState {
                arg: if self.in_quote && !escapable(c) {
                    self.arg.push('\\').push(c)
                } else {
                    self.arg.push(c)
                },
                escape: false,
                ..self
            }
        } else if c == '\\' && self.quote != '\'' {
            ShellState { escape: true, ..self }
        } else if (c == '"' || c == '\'') && !self.in_quote {
            ShellState { in_quote: true, quote: c, ..self }
        } else if c == self.quote {
            let closed = ShellState { in_quote: false, quote: '"', ..self };
            if next is None || next == Some(' ') {
                closed.flush_quoted()
            } else {
                closed
            }
        } else if c == ' ' && !self.in_quote && self.arg.len() > 0 {
            self.flush()
        } else if c != ' ' || self.in_quote {
            ShellState { arg: self.arg.push(c), ..self }
        } else {
            self
        }
    }

    /// What happens once the characters of a line are consumed.
    pub open spec fn end_line(self) -> ShellState {
        if !self.escape && !self.in_quote {
            self.flush()
        } else {
            self
        }
    }

    /// What is still needed to complete the logical line.
    pub open spec fn pending(self) -> Pending {
        if self.escape {
            Pending::Escape
        } else if self.in_quote {
            if self.quote == '\'' {
                Pending::SingleQuote
            } else {
                Pending::DoubleQuote
            }
        } else {
            Pending::Nothing
        }
    }

    /// The state in which a continuation line is read: the pending escape or
    /// the open quote takes a newline.
    pub open spec fn resume(self) -> ShellState {
        if self.escape {
            ShellState { arg: self.arg.push('\n'), escape: false, ..self }
        } else if self.in_quote {
            ShellState { arg: self.arg.push('\n'), ..self }
        } else {
            self
        }
    }

    /// The state once input has ended while a continuation was expected.
    pub open spec fn at_eof(self) -> ShellState {
        let s = ShellState { escape: false, ..self };
        if s.in_quote {
            ShellState { arg: Seq::empty(), args: Seq::empty(), in_quote: false, ..s }
        } else {
            s.flush()
        }
    }
}

/// The state after the first `n` characters of `line`.
pub open spec fn lex(s: ShellState, line: Seq<char>, n: nat) -> ShellState
    decreases n,
{
    if n == 0 || n > line.len() {
        s
    } else {
        lex(s, line, (n - 1) as nat).step(
            line[n - 1],
            if n < line.len() {
                Some(line[n as int])
            } else {
                None
            },
        )
    }
}

/// The state after a whole line.
pub open spec fn lex_line(s: ShellState, line: Seq<char>) -> ShellState {
    lex(s, line, line.len()).end_line()
}

/// The error reported when input ends inside a quote.
pub open spec fn eof_message(quote: char) -> Seq<char> {
    "\nunexpected EOF while looking for matching `"@ + seq![quote]
        + "'\nsyntax error: unexpected end of file"@
}

/// The interpreter's session state and its tokenizer.
pub struct Shell {
    arg: Vec<char>,
    pub args: Vec<String>,
    pub home: String,
    is_quotes: bool,
    quotes_type: char,
    is_backslash: bool,
    pub prev_path: String,
    pub current_path: String,
}

impl View for Shell {
    type V = ShellState;

    closed spec fn view(&self) -> ShellState {
        ShellState {
            arg: self.arg@,
            args: words(self.args@),
            home: self.home@,
            in_quote: self.is_quotes,
            quote: self.quotes_type,
            escape: self.is_backslash,
            prev_path: self.prev_path@,
            current_path: self.current_path@,
        }
    }
}

impl Shell {
    /// A shell with no words, no home and no current directory.
    pub fn new() -> (r: Self)
        ensures
            r@ == ShellState::initial(),
    {
        let r = Shell {
            arg: Vec::new(),
            args: Vec::new(),
            home: String::new(),
            is_quotes: false,
            quotes_type: '"',
            is_backslash: false,
            prev_path: String::new(),
            current_path: String::new(),
        };
        assert(r@.args =~= Seq::<Seq<char>>::empty());
        r
    }

    /// Completes the word ended by a closing quote; an empty one is dropped.
    pub fn add_arg_with_quotes(&mut self, arg: String)
        ensures
            final(self)@ == (if arg@.len() > 0 {
                ShellState { args: old(self)@.args.push(arg@), arg: Seq::empty(), ..old(self)@ }
            } else {
                old(self)@
            }),
    {
        if arg.as_str().unicode_len() > 0 {
            let ghost a = arg@;
            self.args.push(arg);
            self.arg = Vec::new();
            assert(self@.args =~= old(self)@.args.push(a));
            assert(self@.arg =~= Seq::<char>::empty());
        }
    }

    /// Completes the accumulated unquoted word: trims it, applies home
    /// substitution, and appends it unless it is empty.
    pub fn add_arg(&mut self)
        ensures
            final(self)@ == old(self)@.flush(),
    {
        if self.arg.len() > 0 {
            let t = trim_chars(&self.arg);
            let tok = expand_home(&t, &self.home);
            if tok.len() > 0 {
                let w = from_chars(&tok);
                self.args.push(w);
                assert(self@.args =~= old(self)@.args.push(old(self)@.token()));
            }
            self.arg = Vec::new();
            assert(self@.arg =~= Seq::<char>::empty());
        }
    }

    /// Replaces the completed words.
    pub fn set_args(&mut self, value: Vec<String>)
        ensures
            final(self)@ == (ShellState { args: words(value@), ..old(self)@ }),
    {
        self.args = value;
    }

    /// Replaces the word being accumulated.
    pub fn set_arg(&mut self, value: String)
        ensures
            final(self)@ == (ShellState { arg: value@, ..old(self)@ }),
    {
        self.arg = to_chars(value.as_str());
    }

    /// Sets the current directory; an empty path leaves it unchanged.
    pub fn set_current_path(&mut self, value: String)
        ensures
            final(self)@ == (if value@.len() > 0 {
                ShellState { current_path: value@, ..old(self)@ }
            } else {
                old(self)@
            }),
    {
        if value.as_str().unicode_len() > 0 {
            self.current_path = value;
        }
    }

    /// Sets the quote character that a closing quote must match.
    pub fn set_quotes_type(&mut self, value: char)
        ensures
            final(self)@ == (ShellState { quote: value, ..old(self)@ }),
    {
        self.quotes_type = value;
    }

    /// Sets the home directory used for `~` substitution.
    pub fn set_home(&mut self, value: String)
        ensures
            final(self)@ == (ShellState { home: value@, ..old(self)@ }),
    {
        self.home = value;
    }

    fn step(&mut self, c: char, next: Option<char>)
        ensures
            final(self)@ == old(self)@.step(c, next),
    {
        if self.is_backslash {
            if self.is_quotes && !(c == '$' || c == '`' || c == '"' || c == '\\') {
                self.arg.push('\\');
            }
            self.arg.push(c);
            self.is_backslash = false;
            assert(self@ =~= old(self)@.step(c, next));
            return;
        }
        if c == '\\' && self.quotes_type != '\'' {
            self.is_backslash = true;
            return;
        }
        if (c == '"' || c == '\'') && !self.is_quotes {
            self.quotes_type = c;
            self.is_quotes = true;
            return;
        }
        if c == self.quotes_type {
            self.is_quotes = false;
            self.quotes_type = '"';
            let ends_word = match next {
                None => true,
                Some(n) => n == ' ',
            };
            if ends_word {
                let a = from_chars(&self.arg);
                self.add_arg_with_quotes(a);
            }
            return;
        }
        if c == ' ' && !self.is_quotes && self.arg.len() > 0 {
            self.add_arg();
            return;
        }
        if c != ' ' || self.is_quotes {
            self.arg.push(c);
        }
    }

    fn end_line(&mut self)
        ensures
            final(self)@ == old(self)@.end_line(),
    {
        if !self.is_backslash && !self.is_quotes {
            self.add_arg();
        }
    }

    fn pending(&self) -> (r: Pending)
        ensures
            r == self@.pending(),
    {
        if self.is_backslash {
            Pending::Escape
        } else if self.is_quotes {
            if self.quotes_type == '\'' {
                Pending::SingleQuote
            } else {
                Pending::DoubleQuote
            }
        } else {
            Pending::Nothing
        }
    }

    /// Tokenizes one line of input. Completed words are appended to `args`;
    /// the result says whether a continuation line is needed, which is then
    /// handed to [`Shell::continue_input`], or, at end of input, answered by
    /// [`Shell::end_of_input`].
    pub fn parse_input(&mut self, input: &str) -> (r: Pending)
        ensures
            final(self)@ == lex_line(old(self)@, input@),
            r == final(self)@.pending(),
    {
        let chars = to_chars(input);
        let n = chars.len();
        let mut i: usize = 0;
        while i < n
            invariant
                n == chars.len(),
                chars@ == input@,
                i <= n,
                self@ == lex(old(self)@, input@, i as nat),
            decreases n - i,
        {
            let next = if i + 1 < n {
                Some(chars[i + 1])
            } else {
                None
            };
            self.step(chars[i], next);
            i = i + 1;
        }
        self.end_line();
        self.pending()
    }

    /// Tokenizes a continuation line: the pending escape or the open quote
    /// first takes a newline.
    pub fn continue_input(&mut self, input: &str) -> (r: Pending)
        ensures
            final(self)@ == lex_line(old(self)@.resume(), input@),
            r == final(self)@.pending(),
    {
        if self.is_backslash {
            self.is_backslash = false;
            self.arg.push('\n');
        } else if self.is_quotes {
            self.arg.push('\n');
        }
        assert(self@ =~= old(self)@.resume());
        self.parse_input(input)
    }

    /// Input ended while a continuation line was expected. A pending escape
    /// is dropped; an open quote is a syntax error that discards the whole
    /// logical line.
    pub fn end_of_input(&mut self) -> (r: Result<(), String>)
        ensures
            final(self)@ == old(self)@.at_eof(),
            r is Err <==> old(self)@.in_quote,
            r matches Err(m) ==> m@ == eof_message(old(self)@.quote),
    {
        self.is_backslash = false;
        if self.is_quotes {
            self.is_quotes = false;
            self.arg = Vec::new();
            self.args = Vec::new();
            let mut m = String::new();
            push_all(&mut m, "\nunexpected EOF while looking for matching `");
            m.push(self.quotes_type);
            push_all(&mut m, "'\nsyntax error: unexpected end of file");
            assert(self@.args =~= Seq::<Seq<char>>::empty());
            assert(self@.arg =~= Seq::<char>::empty());
            assert(self@ =~= old(self)@.at_eof());
            assert(m@ =~= eof_message(old(self)@.quote));
            return Err(m);
        }
        self.add_arg();
        Ok(())
    }
}

impl Shell {
    /// The command word and its arguments, if a command was entered.
    pub fn command_line(&self) -> (r: Option<(String, Vec<String>)>)
        ensures
            r is None <==> (self@.args.len() == 0 || self@.args[0].len() == 0),
            r matches Some((c, a)) ==> c@ == self@.args[0] && words(a@) == self@.args.drop_first(),
    {
        if self.args.len() == 0 || self.args[0].as_str().unicode_len() == 0 {
            return None;
        }
        let cmd = from_chars(&to_chars(self.args[0].as_str()));
        let mut rest: Vec<String> = Vec::new();
        let mut i: usize = 1;
        while i < self.args.len()
            invariant
                1 <= i <= self.args.len(),
                words(rest@) == words(self.args@).subrange(1, i as int),
            decreases self.args.len() - i,
        {
            let ghost prev = rest@;
            rest.push(from_chars(&to_chars(self.args[i].as_str())));
            assert(words(rest@) =~= words(prev).push(self.args@[i as int]@));
            assert(words(self.args@).subrange(1, i as int + 1) =~= words(self.args@).subrange(1, i as int).push(self.args@[i as int]@));
            i = i + 1;
        }
        assert(words(self.args@).subrange(1, i as int) =~= words(self.args@).drop_first());
        Some((cmd, rest))
    }
}

/// Home substitution on a trimmed word.
pub fn expand_home(t: &Vec<char>, home: &String) -> (r: Vec<char>)
    ensures
        r@ == home_expanded(t@, home@),
{
    if t.len() == 1 && t[0] == '~' {
        assert(t@ =~= seq!['~']);
        return to_chars(home.as_str());
    }
    let mut r = to_chars(home.as_str());
    if t.len() >= 2 && t[0] == '~' && t[1] == '/' {
        let mut i: usize = 1;
        while i < t.len()
            invariant
                1 <= i <= t.len(),
                r@ == home@ + t@.subrange(1, i as int),
            decreases t.len() - i,
        {
            r.push(t[i]);
            assert(t@.subrange(1, i as int + 1) =~= t@.subrange(1, i as int).push(t@[i as int]));
            i = i + 1;
        }
        assert(t@.drop_first() =~= t@.subrange(1, t.len() as int));
        return r;
    }
    let mut c: Vec<char> = Vec::new();
    let mut i: usize = 0;
    while i < t.len()
        invariant
            i <= t.len(),
            c@ == t@.take(i as int),
        decreases t.len() - i,
    {
        c.push(t[i]);
        assert(t@.take(i as int + 1) =~= t@.take(i as int).push(t@[i as int]));
        i = i + 1;
    }
    assert(t@.take(i as int) =~= t@);
    c
}

/// The directory shown in the primary prompt: a leading `home` is written `~`.
pub open spec fn prompt_path_text(path: Seq<char>, home: Seq<char>) -> Seq<char> {
    if starts_with(path, home) {
        seq!['~'] + path.subrange(home.len() as int, path.len() as int)
    } else {
        path
    }
}

/// The directory shown in the primary prompt.
pub fn prompt_path(path: &str, home: &str) -> (r: String)
    ensures
        r@ == prompt_path_text(path@, home@),
{
    let p = to_chars(path);
    let h = to_chars(home);
    if vec_starts_with(&p, &h) {
        let mut r = String::new();
        r.push('~');
        let mut i: usize = h.len();
        while i < p.len()
            invariant
                h.len() <= i <= p.len(),
                r@ == seq!['~'] + p@.subrange(h.len() as int, i as int),
            decreases p.len() - i,
        {
            r.push(p[i]);
            assert(p@.subrange(h.len() as int, i as int + 1) =~= p@.subrange(h.len() as int, i as int).push(p@[i as int]));
            i = i + 1;
        }
        r
    } else {
        from_chars(&p)
    }
}

/// Home substitution: a word that trims to `~` becomes the home directory,
/// and one that trims to `~/` followed by `rest` becomes the home directory
/// followed by `/` and `rest`.
pub proof fn home_substitution(s: ShellState, rest: Seq<char>)
    requires
        s.home.len() > 0,
    ensures
        trim(s.arg) == seq!['~'] ==> s.flush().args == s.args.push(s.home),
        trim(s.arg) == seq!['~', '/'] + rest ==> s.flush().args == s.args.push(
            s.home + seq!['/'] + rest,
        ),
{
    if trim(s.arg) == seq!['~', '/'] + rest {
        assert((seq!['~', '/'] + rest).drop_first() =~= seq!['/'] + rest);
        assert(s.home + (seq!['/'] + rest) =~= s.home + seq!['/'] + rest);
        assert(s.arg.len() > 0);
    }
    if trim(s.arg) == seq!['~'] {
        assert(s.arg.len() > 0);
    }
}

/// Every word is non-empty.
pub open spec fn all_nonempty(args: Seq<Seq<char>>) -> bool {
    forall|i: int| 0 <= i < args.len() ==> #[trigger] args[i].len() > 0
}

proof fn lemma_step_nonempty(s: ShellState, c: char, next: Option<char>)
    requires
        all_nonempty(s.args),
    ensures
        all_nonempty(s.step(c, next).args),
{
    let t = s.step(c, next);
    assert forall|i: int| 0 <= i < t.args.len() implies #[trigger] t.args[i].len() > 0 by {
        if i < s.args.len() {
            assert(t.args[i] == s.args[i]);
        }
    }
}

proof fn lemma_lex_nonempty(s: ShellState, line: Seq<char>, n: nat)
    requires
        all_nonempty(s.args),
    ensures
        all_nonempty(lex(s, line, n).args),
    decreases n,
{
    if n > 0 && n <= line.len() {
        lemma_lex_nonempty(s, line, (n - 1) as nat);
        lemma_step_nonempty(
            lex(s, line, (n - 1) as nat),
            line[n - 1],
            if n < line.len() {
                Some(line[n as int])
            } else {
                None
            },
        );
    }
}

/// The tokenizer never emits an empty word: from a state whose words are
/// all non-empty, tokenizing a line, continuing it, or ending input leaves
/// every word non-empty.
pub proof fn words_never_empty(s: ShellState, line: Seq<char>)
    requires
        all_nonempty(s.args),
    ensures
        all_nonempty(lex_line(s, line).args),
        all_nonempty(lex_line(s.resume(), line).args),
        all_nonempty(s.at_eof().args),
{
    lemma_lex_nonempty(s, line, line.len());
    let e = lex(s, line, line.len());
    assert forall|i: int| 0 <= i < e.end_line().args.len() implies #[trigger] e.end_line().args[i].len() > 0 by {
        if i < e.args.len() {
            assert(e.end_line().args[i] == e.args[i]);
        }
    }
    assert(s.resume().args == s.args);
    lemma_lex_nonempty(s.resume(), line, line.len());
    let f = lex(s.resume(), line, line.len());
    assert forall|i: int| 0 <= i < f.end_line().args.len() implies #[trigger] f.end_line().args[i].len() > 0 by {
        if i < f.args.len() {
            assert(f.end_line().args[i] == f.args[i]);
        }
    }
    let g = ShellState { escape: false, ..s };
    assert forall|i: int| 0 <= i < s.at_eof().args.len() implies #[trigger] s.at_eof().args[i].len() > 0 by {
        if i < s.args.len() {
            assert(g.flush().args[i] == s.args[i]);
        }
    }
}

} // verus!
