//! Tokenizing a submitted line and resolving its command: a line is split
//! on runs of whitespace (no quoting or escaping — a documented limitation,
//! not a bug), the first token is looked up as an exact, case-sensitive key
//! in the registry, and the result says which handler to invoke with which
//! arguments. The pure text of the built-in `echo` and `help` commands is
//! computed here as well.

use vstd::prelude::*;
use vstd::string::StringExecFns;

use crate::text::{chars_to_string, string_to_chars};

verus! {

/// The whitespace that separates tokens: the ASCII whitespace characters.
pub open spec fn is_space_char(c: char) -> bool {
    c == ' ' || c == '\t' || c == '\n' || c == '\u{c}' || c == '\r'
}

fn is_space(c: char) -> (b: bool)
    ensures
        b == is_space_char(c),
{
    c == ' ' || c == '\t' || c == '\n' || c == '\u{c}' || c == '\r'
}

/// The tokens of a line: the maximal runs of non-whitespace characters, in
/// order. Defined by how one further character extends the tokens of the
/// line before it: whitespace closes any open token, a character following
/// a non-whitespace character extends the last token, and a character at
/// the start or after whitespace opens a new one.
pub open spec fn spec_tokenize(s: Seq<char>) -> Seq<Seq<char>>
    decreases s.len(),
{
    if s.len() == 0 {
        Seq::<Seq<char>>::empty()
    } else {
        let before = spec_tokenize(s.drop_last());
        let c = s.last();
        if is_space_char(c) {
            before
        } else if s.len() >= 2 && !is_space_char(s[s.len() - 2]) {
            before.update(before.len() - 1, before.last().push(c))
        } else {
            before.push(seq![c])
        }
    }
}

/// A token is a run of non-whitespace: every token of a line is nonempty
/// and holds no whitespace character.
pub proof fn lemma_tokens_are_words(s: Seq<char>)
    ensures
        forall|i: int, j: int|
            0 <= i < spec_tokenize(s).len() && 0 <= j < spec_tokenize(s)[i].len()
                ==> !is_space_char(#[trigger] spec_tokenize(s)[i][j]),
        forall|i: int| 0 <= i < spec_tokenize(s).len() ==> (#[trigger] spec_tokenize(s)[i]).len()
            >= 1,
        s.len() > 0 && !is_space_char(s.last()) ==> spec_tokenize(s).len() >= 1,
    decreases s.len(),
{
    if s.len() == 0 {
    } else {
        lemma_tokens_are_words(s.drop_last());
        let before = spec_tokenize(s.drop_last());
        let c = s.last();
        if is_space_char(c) {
        } else if s.len() >= 2 && !is_space_char(s[s.len() - 2]) {
            assert(s.drop_last().last() == s[s.len() - 2]);
            assert(before.len() >= 1);
            let after = before.update(before.len() - 1, before.last().push(c));
            assert forall|i: int, j: int|
                0 <= i < after.len() && 0 <= j < after[i].len() implies !is_space_char(
                #[trigger] after[i][j],
            ) by {
                if i == after.len() - 1 && j < after[i].len() - 1 {
                    assert(after[i][j] == before.last()[j]);
                }
            }
        } else {
            let after = before.push(seq![c]);
            assert forall|i: int, j: int|
                0 <= i < after.len() && 0 <= j < after[i].len() implies !is_space_char(
                #[trigger] after[i][j],
            ) by {
                if i < after.len() - 1 {
                    assert(after[i] == before[i]);
                }
            }
        }
    }
}

/// Splits a line on runs of whitespace.
pub fn tokenize(line: &str) -> (tokens: Vec<String>)
    ensures
        tokens.deep_view() == spec_tokenize(line@),
{
    let chars = string_to_chars(line);
    let mut tokens: Vec<String> = Vec::new();
    let mut current: Vec<char> = Vec::new();
    let mut i: usize = 0;
    while i < chars.len()
        invariant
            chars@ == line@,
            i <= line@.len(),
            current@.len() > 0 ==> i > 0 && !is_space_char(line@[i - 1]),
            current@.len() == 0 ==> (i == 0 || is_space_char(line@[i - 1])),
            spec_tokenize(line@.take(i as int)) == if current@.len() == 0 {
                tokens.deep_view()
            } else {
                tokens.deep_view().push(current@)
            },
        decreases line@.len() - i,
    {
        let c = chars[i];
        let ghost prefix = spec_tokenize(line@.take(i as int));
        let ghost old_tokens = tokens.deep_view();
        let ghost old_current = current@;
        if is_space(c) {
            if current.len() > 0 {
                let word = chars_to_string(&current);
                tokens.push(word);
                current = Vec::new();
            }
        } else {
            current.push(c);
        }
        i = i + 1;
        proof {
            let t = line@.take(i as int);
            assert(t.drop_last() =~= line@.take(i as int - 1));
            assert(t.last() == c);
            if is_space_char(c) {
                if old_current.len() > 0 {
                    assert(tokens.deep_view() =~= old_tokens.push(old_current));
                }
                assert(spec_tokenize(t) == prefix);
            } else if old_current.len() > 0 {
                assert(prefix.len() > 0 && prefix.last() == old_current);
                assert(spec_tokenize(t) == prefix.update(prefix.len() - 1, prefix.last().push(c)));
                assert(prefix.update(prefix.len() - 1, old_current.push(c)) =~= old_tokens.push(
                    old_current.push(c),
                ));
                assert(current@ == old_current.push(c));
            } else {
                assert(spec_tokenize(t) == prefix.push(seq![c]));
                assert(current@ =~= seq![c]);
            }
        }
    }
    if current.len() > 0 {
        let ghost old_tokens = tokens.deep_view();
        let word = chars_to_string(&current);
        tokens.push(word);
        proof {
            assert(tokens.deep_view() =~= old_tokens.push(current@));
        }
    }
    proof {
        assert(line@.take(line@.len() as int) =~= line@);
    }
    tokens
}

/// What dispatching a line amounts to.
#[derive(Debug, PartialEq, Eq)]
pub enum Dispatch {
    /// The line held no token at all: a silent no-op.
    Empty,
    /// The first token names no registered command: report
    /// [`unknown_command_message`] and change nothing.
    Unknown,
    /// Invoke the handler registered under the given index with the full
    /// token sequence as its arguments.
    Invoke(usize, Vec<String>),
}

/// The registered command names, in registration order. The handlers
/// themselves are side-effecting callables and stay with the caller, who
/// keeps them by the index this registry assigns.
pub struct CommandRegistry {
    names: Vec<String>,
}

impl View for CommandRegistry {
    type V = Seq<Seq<char>>;

    closed spec fn view(&self) -> Seq<Seq<char>> {
        Seq::new(self.names@.len(), |i: int| self.names@[i]@)
    }
}

impl CommandRegistry {
    pub fn new() -> (r: CommandRegistry)
        ensures
            r@ == Seq::<Seq<char>>::empty(),
    {
        let r = CommandRegistry { names: Vec::new() };
        proof {
            assert(r@ =~= Seq::<Seq<char>>::empty());
        }
        r
    }

    pub fn len(&self) -> (n: usize)
        ensures
            n == self@.len(),
    {
        self.names.len()
    }

    /// The index of the first registered name equal to `name`, if any.
    pub fn lookup(&self, name: &String) -> (r: Option<usize>)
        ensures
            match r {
                Some(i) => {
                    &&& 0 <= i < self@.len()
                    &&& self@[i as int] == name@
                    &&& forall|j: int| 0 <= j < i ==> self@[j] != name@
                },
                None => forall|j: int| 0 <= j < self@.len() ==> self@[j] != name@,
            },
    {
        let mut i: usize = 0;
        while i < self.names.len()
            invariant
                i <= self@.len(),
                forall|j: int| 0 <= j < i ==> self@[j] != name@,
            decreases self@.len() - i,
        {
            if self.names[i].eq(name) {
                return Some(i);
            }
            i = i + 1;
        }
        None
    }

    /// Registers a command name and returns its handler index: a fresh name
    /// is appended and gets the next index; a name registered before keeps
    /// its old index, so the caller can replace that handler.
    pub fn register(&mut self, name: &str) -> (idx: usize)
        ensures
            idx < final(self)@.len(),
            final(self)@[idx as int] == name@,
            (exists|j: int| 0 <= j < old(self)@.len() && old(self)@[j] == name@) ==> final(self)@
                == old(self)@,
            !(exists|j: int| 0 <= j < old(self)@.len() && old(self)@[j] == name@) ==> final(self)@
                == old(self)@.push(name@) && idx == old(self)@.len(),
    {
        let owned = String::from_str(name);
        match self.lookup(&owned) {
            Some(i) => i,
            None => {
                let idx = self.names.len();
                self.names.push(owned);
                proof {
                    assert(self@ =~= old(self)@.push(name@));
                }
                idx
            },
        }
    }

    /// Resolves a submitted line: tokenizes it, and looks the first token up
    /// among the registered names. The editor's state is never touched.
    pub fn dispatch(&self, line: &str) -> (r: Dispatch)
        ensures
            ({
                let toks = spec_tokenize(line@);
                match r {
                    Dispatch::Empty => toks.len() == 0,
                    Dispatch::Unknown => toks.len() > 0 && (forall|j: int|
                        0 <= j < self@.len() ==> self@[j] != toks[0]),
                    Dispatch::Invoke(i, args) => {
                        &&& toks.len() > 0
                        &&& args.deep_view() == toks
                        &&& 0 <= i < self@.len()
                        &&& self@[i as int] == toks[0]
                        &&& forall|j: int| 0 <= j < i ==> self@[j] != toks[0]
                    },
                }
            }),
    {
        let tokens = tokenize(line);
        if tokens.len() == 0 {
            return Dispatch::Empty;
        }
        proof {
            assert(tokens.deep_view()[0] == tokens@[0]@);
        }
        match self.lookup(&tokens[0]) {
            Some(i) => Dispatch::Invoke(i, tokens),
            None => Dispatch::Unknown,
        }
    }
}

/// Words joined with single spaces and closed with the line terminator;
/// nothing at all for no words.
pub open spec fn spec_joined_line(words: Seq<Seq<char>>) -> Seq<char>
    decreases words.len(),
{
    if words.len() == 0 {
        Seq::<char>::empty()
    } else if words.len() == 1 {
        words[0] + "\n\r"@
    } else {
        words[0] + " "@ + spec_joined_line(words.drop_first())
    }
}

/// What `echo` prints: the arguments after the command name, joined with
/// single spaces, with the line terminator after the last one; nothing at
/// all when only the command name was given.
pub open spec fn spec_echo_output(args: Seq<Seq<char>>) -> Seq<char> {
    if args.len() <= 1 {
        Seq::<char>::empty()
    } else {
        spec_joined_line(args.subrange(1, args.len() as int))
    }
}

/// The text the `echo` command writes for the given tokens (token 0 is the
/// command name itself).
pub fn echo_output(args: &Vec<String>) -> (r: String)
    ensures
        r@ == spec_echo_output(args.deep_view()),
{
    let mut r = String::new();
    let n = args.len();
    if n <= 1 {
        return r;
    }
    let mut i: usize = 1;
    proof {
        assert(r@ + spec_joined_line(args.deep_view().subrange(1, n as int)) =~= spec_echo_output(
            args.deep_view(),
        ));
    }
    while i < n
        invariant
            1 <= i <= n,
            n == args@.len(),
            spec_echo_output(args.deep_view()) == r@ + spec_joined_line(
                args.deep_view().subrange(i as int, n as int),
            ),
        decreases n - i,
    {
        let ghost before = r@;
        let ghost rest = args.deep_view().subrange(i as int, n as int);
        r.append(args[i].as_str());
        if i != n - 1 {
            r.append(" ");
        } else {
            r.append("\n\r");
        }
        i = i + 1;
        proof {
            let rest2 = args.deep_view().subrange(i as int, n as int);
            assert(rest[0] == args.deep_view()[i - 1]);
            assert(rest.drop_first() =~= rest2);
            if i < n {
                assert(spec_joined_line(rest) == rest[0] + " "@ + spec_joined_line(rest2));
                assert(r@ == before + rest[0] + " "@);
            } else {
                assert(rest.len() == 1);
                assert(spec_joined_line(rest) == rest[0] + "\n\r"@);
                assert(r@ == before + rest[0] + "\n\r"@);
                assert(spec_joined_line(rest2) == Seq::<char>::empty());
            }
            assert(r@ + spec_joined_line(rest2) =~= before + spec_joined_line(rest));
        }
    }
    r
}

/// What `help` prints: the built-in command names, one per line.
pub fn help_text() -> (r: String)
    ensures
        r@ == "help\n\rclear\n\recho\n\r"@,
{
    String::from_str("help\n\rclear\n\recho\n\r")
}

/// What a dispatch miss reports.
pub fn unknown_command_message() -> (r: String)
    ensures
        r@ == "unknown command."@,
{
    String::from_str("unknown command.")
}

} // verus!
