//! A plain command-line parser: the command word against the builtin table,
//! and quote-aware argument splitting with continuation lines.
use vstd::prelude::*;

use crate::builtins::{builtin_name, not_found, Builtin};
use crate::text::{from_chars, to_chars, trim, trim_chars, words};

verus! {

/// The abstract state of a [`Parsing`].
pub struct ParsingState {
    pub cmd: Seq<char>,
    pub arg: Seq<char>,
    pub args: Seq<Seq<char>>,
    pub in_quote: bool,
    pub quote: char,
}

impl ParsingState {
    /// `args` with `a` appended unless it is empty.
    pub open spec fn add(self, a: Seq<char>) -> Seq<Seq<char>> {
        if a.len() > 0 { self.args.push(a) } else { self.args }
    }

    /// One character of input.
    pub open spec fn step(self, c: char) -> ParsingState {
        if c == self.quote && self.in_quote {
            ParsingState { in_quote: false, args: self.add(self.arg), arg: Seq::empty(), ..self }
        } else if (c == '"' || c == '\'') && !self.in_quote {
            ParsingState { quote: c, in_quote: true, ..self }
        } else if c == ' ' && !self.in_quote && self.arg.len() > 0 {
            ParsingState { args: self.add(trim(self.arg)), arg: Seq::empty(), ..self }
        } else if c != ' ' || self.in_quote {
            ParsingState { arg: self.arg.push(c), ..self }
        } else {
            self
        }
    }

    /// What happens once the characters of a line are consumed.
    pub open spec fn end_line(self) -> ParsingState {
        if self.arg.len() > 0 && !self.in_quote {
            ParsingState { args: self.add(trim(self.arg)), arg: Seq::empty(), ..self }
        } else {
            self
        }
    }
}

/// The state after the first `n` characters of `line`.
pub open spec fn split_prefix(s: ParsingState, line: Seq<char>, n: nat) -> ParsingState
    decreases n,
{
    if n == 0 || n > line.len() {
        s
    } else {
        split_prefix(s, line, (n - 1) as nat).step(line[n - 1])
    }
}

/// The state after a whole line.
pub open spec fn split_line(s: ParsingState, line: Seq<char>) -> ParsingState {
    split_prefix(s, line, line.len()).end_line()
}

/// The characters before the first space.
pub open spec fn first_word(s: Seq<char>) -> Seq<char>
    decreases s.len(),
{
    if s.len() == 0 || s[0] == ' ' {
        Seq::empty()
    } else {
        seq![s[0]] + first_word(s.drop_first())
    }
}

/// Whether `name` is a command of the builtin table.
pub open spec fn is_parsed_command(name: Seq<char>) -> bool {
    exists|b: Builtin| #[trigger] builtin_name(b) == name
}

/// A command word and its arguments, parsed from input lines.
pub struct Parsing {
    cmd: String,
    arg: Vec<char>,
    args: Vec<String>,
    is_quotes: bool,
    quotes_type: char,
}

impl View for Parsing {
    type V = ParsingState;

    closed spec fn view(&self) -> ParsingState {
        ParsingState {
            cmd: self.cmd@,
            arg: self.arg@,
            args: words(self.args@),
            in_quote: self.is_quotes,
            quote: self.quotes_type,
        }
    }
}

fn clone_words(v: &Vec<String>) -> (r: Vec<String>)
    ensures
        words(r@) == words(v@),
{
    let mut r: Vec<String> = Vec::new();
    let mut i: usize = 0;
    while i < v.len()
        invariant
            i <= v.len(),
            words(r@) == words(v@).take(i as int),
        decreases v.len() - i,
    {
        let ghost prev = r@;
        r.push(v[i].clone());
        assert(words(r@) =~= words(prev).push(v@[i as int]@));
        assert(words(v@).take(i as int + 1) =~= words(v@).take(i as int).push(v@[i as int]@));
        i = i + 1;
    }
    assert(words(v@).take(i as int) =~= words(v@));
    r
}

impl Parsing {
    /// A parser with no command and no arguments.
    pub fn new() -> (r: Self)
        ensures
            r@ == (ParsingState {
                cmd: Seq::empty(),
                arg: Seq::empty(),
                args: Seq::empty(),
                in_quote: false,
                quote: '"',
            }),
    {
        let r = Parsing {
            cmd: String::new(),
            args: Vec::new(),
            arg: Vec::new(),
            is_quotes: false,
            quotes_type: '"',
        };
        assert(r@.args =~= Seq::<Seq<char>>::empty());
        r
    }

    /// Appends `arg` unless it is empty.
    pub fn add_arg(&mut self, arg: String)
        ensures
            final(self)@ == (ParsingState { args: old(self)@.add(arg@), ..old(self)@ }),
    {
        if arg.as_str().unicode_len() > 0 {
            let ghost a = arg@;
            self.args.push(arg);
            assert(self@.args =~= old(self)@.args.push(a));
        }
    }

    /// The command word.
    pub fn get_cmd(&self) -> (r: String)
        ensures
            r@ == self@.cmd,
    {
        from_chars(&to_chars(self.cmd.as_str()))
    }

    /// The completed arguments.
    pub fn get_args(&self) -> (r: Vec<String>)
        ensures
            words(r@) == self@.args,
    {
        clone_words(&self.args)
    }

    /// Replaces the command word.
    pub fn set_cmd(&mut self, value: String)
        ensures
            final(self)@ == (ParsingState { cmd: value@, ..old(self)@ }),
    {
        self.cmd = value;
    }

    /// Replaces the completed arguments.
    pub fn set_args(&mut self, value: Vec<String>)
        ensures
            final(self)@ == (ParsingState { args: words(value@), ..old(self)@ }),
    {
        self.args = value;
    }

    /// Replaces the argument being accumulated.
    pub fn set_arg(&mut self, value: String)
        ensures
            final(self)@ == (ParsingState { arg: value@, ..old(self)@ }),
    {
        self.arg = to_chars(value.as_str());
    }

    /// Takes the command word, the characters before the first space, if it
    /// names a builtin.
    pub fn parse_cmd(&mut self, input: &str) -> (r: Result<(), String>)
        ensures
            r is Ok <==> is_parsed_command(first_word(input@)),
            r is Ok ==> final(self)@ == (ParsingState { cmd: first_word(input@), ..old(self)@ }),
            r is Err ==> final(self)@ == old(self)@,
            r matches Err(m) ==> m@ == crate::builtins::not_found_text(first_word(input@)),
    {
        let chars = to_chars(input);
        let mut w: Vec<char> = Vec::new();
        let mut i: usize = 0;
        assert(chars@.subrange(0, chars.len() as int) =~= chars@);
        while i < chars.len() && chars[i] != ' '
            invariant
                i <= chars.len(),
                first_word(input@) == w@ + first_word(chars@.subrange(i as int, chars.len() as int)),
                chars@ == input@,
            decreases chars.len() - i,
        {
            let ghost rest = chars@.subrange(i as int, chars.len() as int);
            assert(rest.drop_first() =~= chars@.subrange(i as int + 1, chars.len() as int));
            let ghost prev = w@;
            w.push(chars[i]);
            assert(prev + (seq![rest[0]] + first_word(rest.drop_first())) =~= w@ + first_word(
                rest.drop_first(),
            ));
            i = i + 1;
        }
        assert(first_word(chars@.subrange(i as int, chars.len() as int)) =~= Seq::<char>::empty());
        assert(w@ =~= first_word(input@));
        let flag = from_chars(&w);
        match Builtin::from_name(flag.as_str()) {
            Some(_) => {
                self.cmd = flag;
                Ok(())
            },
            None => Err(not_found(flag.as_str())),
        }
    }

    /// Splits one line into arguments. Spaces separate them outside quotes;
    /// a closing quote completes the argument it ends. The result says
    /// whether a quote is still open, in which case the next line goes to
    /// [`Parsing::continue_args`].
    pub fn parse_args(&mut self, input: &str) -> (r: bool)
        ensures
            final(self)@ == split_line(old(self)@, input@),
            r == final(self)@.in_quote,
    {
        let chars = to_chars(input);
        let n = chars.len();
        let mut i: usize = 0;
        while i < n
            invariant
                n == chars.len(),
                chars@ == input@,
                i <= n,
                self@ == split_prefix(old(self)@, input@, i as nat),
            decreases n - i,
        {
            let ch = chars[i];
            let ghost before = self@;
            if ch == self.quotes_type && self.is_quotes {
                self.is_quotes = false;
                let a = from_chars(&self.arg);
                self.add_arg(a);
                self.arg = Vec::new();
                assert(self@ =~= before.step(ch));
            } else if (ch == '"' || ch == '\'') && !self.is_quotes {
                self.quotes_type = ch;
                self.is_quotes = true;
            } else if ch == ' ' && !self.is_quotes && self.arg.len() > 0 {
                let a = from_chars(&trim_chars(&self.arg));
                self.add_arg(a);
                self.arg = Vec::new();
                assert(self@ =~= before.step(ch));
            } else if ch != ' ' || self.is_quotes {
                self.arg.push(ch);
            }
            i = i + 1;
        }
        if self.arg.len() > 0 && !self.is_quotes {
            let ghost before = self@;
            let a = from_chars(&trim_chars(&self.arg));
            self.add_arg(a);
            self.arg = Vec::new();
            assert(self@ =~= before.end_line());
        }
        self.is_quotes
    }

    /// Splits a continuation line: the open quote first takes a newline.
    pub fn continue_args(&mut self, input: &str) -> (r: bool)
        ensures
            final(self)@ == split_line(
                ParsingState { arg: old(self)@.arg.push('\n'), ..old(self)@ },
                input@,
            ),
            r == final(self)@.in_quote,
    {
        self.arg.push('\n');
        self.parse_args(input)
    }
}

} // verus!
