//! Quoting words for a POSIX shell.

use crate::text;
use vstd::prelude::*;

verus! {

/// `value` with every single quote written as `'\''`.
pub open spec fn escaped(value: Seq<char>) -> Seq<char>
    decreases value.len(),
{
    if value.len() == 0 {
        Seq::empty()
    } else if value.last() == '\'' {
        escaped(value.drop_last()) + seq!['\'', '\\', '\'', '\'']
    } else {
        escaped(value.drop_last()).push(value.last())
    }
}

/// `value` between single quotes, its own single quotes escaped.
pub open spec fn quoted(value: Seq<char>) -> Seq<char> {
    seq!['\''] + escaped(value) + seq!['\'']
}

/// `value` as one single-quoted shell word.
pub fn shell_quote(value: &str) -> (word: String)
    ensures
        word@ == quoted(value@),
{
    let mut word = String::new();
    word.push('\'');
    for c in it: value.chars()
        invariant
            it.seq() == value@,
            word@ == seq!['\''] + escaped(value@.take(it.index() as int)),
    {
        proof {
            let i = it.index() as int;
            assert(value@.take(i + 1).drop_last() == value@.take(i));
        }
        if c == '\'' {
            word.push('\'');
            word.push('\\');
            word.push('\'');
            word.push('\'');
        } else {
            word.push(c);
        }
    }
    assert(value@.take(value@.len() as int) == value@);
    word.push('\'');
    word
}

/// The words, each quoted, with one space between neighbours.
pub open spec fn command_text(words: Seq<Seq<char>>) -> Seq<char> {
    text::joined(words.map_values(|w: Seq<char>| quoted(w)), seq![' '])
}

/// `program` and `args` as one command line for a shell: every word quoted, one
/// space between neighbours.
pub fn remote_command(program: &str, args: &[String]) -> (command: String)
    ensures
        command@ == command_text(seq![program@] + text::texts(args@)),
{
    let ghost words = seq![program@] + text::texts(args@);
    let ghost parts = words.map_values(|w: Seq<char>| quoted(w));
    let mut command = shell_quote(program);
    assert(parts.take(1) == seq![quoted(program@)]);
    let mut i: usize = 0;
    while i < args.len()
        invariant
            i <= args.len(),
            words == seq![program@] + text::texts(args@),
            parts == words.map_values(|w: Seq<char>| quoted(w)),
            command@ == text::joined(parts.take(i + 1), seq![' ']),
        decreases args.len() - i,
    {
        let word = shell_quote(args[i].as_str());
        command.push(' ');
        command.append(word.as_str());
        proof {
            assert(parts.take(i + 2).drop_last() == parts.take(i + 1));
            assert(parts.take(i + 2).last() == quoted(args@[i as int]@));
        }
        i = i + 1;
    }
    assert(parts.take(args.len() + 1) == parts);
    command
}

/// Where a shell is while it reads a command line.
pub enum Mode {
    /// Outside quotes.
    Bare,
    /// Between single quotes.
    Quoted,
    /// Behind a backslash.
    Escaped,
    /// Behind a character that does more than stand for itself.
    Special,
}

/// The state of a shell that splits a command line into words.
pub struct Reading {
    /// The words that are complete.
    pub words: Seq<Seq<char>>,
    /// The word that is being read, if one was begun.
    pub word: Option<Seq<char>>,
    /// Where the reader is.
    pub mode: Mode,
}

/// Whether a shell gives `c`, outside quotes, a meaning of its own.
pub open spec fn is_special(c: char) -> bool {
    ||| c == '"' || c == '$' || c == '`' || c == ';' || c == '&' || c == '|'
    ||| c == '<' || c == '>' || c == '(' || c == ')' || c == '{' || c == '}'
    ||| c == '*' || c == '?' || c == '[' || c == ']' || c == '#' || c == '~'
    ||| c == '=' || c == '%' || c == '!' || c == '^' || c == '\n' || c == '\r'
}

impl Reading {
    /// Before the first character.
    pub open spec fn start() -> Reading {
        Reading { words: Seq::empty(), word: None, mode: Mode::Bare }
    }

    /// What has been read of the current word.
    pub open spec fn so_far(self) -> Seq<char> {
        match self.word {
            Some(word) => word,
            None => Seq::empty(),
        }
    }

    /// The words, the one that is being read included.
    pub open spec fn all_words(self) -> Seq<Seq<char>> {
        match self.word {
            Some(word) => self.words.push(word),
            None => self.words,
        }
    }

    /// One character further.
    pub open spec fn next(self, c: char) -> Reading {
        match self.mode {
            Mode::Bare => if c == ' ' || c == '\t' {
                Reading { words: self.all_words(), word: None, mode: Mode::Bare }
            } else if c == '\'' {
                Reading { words: self.words, word: Some(self.so_far()), mode: Mode::Quoted }
            } else if c == '\\' {
                Reading { words: self.words, word: Some(self.so_far()), mode: Mode::Escaped }
            } else if is_special(c) {
                Reading { words: self.words, word: self.word, mode: Mode::Special }
            } else {
                Reading { words: self.words, word: Some(self.so_far().push(c)), mode: Mode::Bare }
            },
            Mode::Quoted => if c == '\'' {
                Reading { words: self.words, word: self.word, mode: Mode::Bare }
            } else {
                Reading { words: self.words, word: Some(self.so_far().push(c)), mode: Mode::Quoted }
            },
            Mode::Escaped => if c == '\n' {
                Reading { words: self.words, word: self.word, mode: Mode::Special }
            } else {
                Reading { words: self.words, word: Some(self.so_far().push(c)), mode: Mode::Bare }
            },
            Mode::Special => self,
        }
    }

    /// All characters of `text` further.
    pub open spec fn after(self, text: Seq<char>) -> Reading
        decreases text.len(),
    {
        if text.len() == 0 {
            self
        } else {
            self.after(text.drop_last()).next(text.last())
        }
    }
}

/// The words that a POSIX shell makes of a command line in which every character
/// outside quotes is a word's own, a blank, a single quote or a backslash; `None`
/// for any other command line.
pub open spec fn shell_words(command: Seq<char>) -> Option<Seq<Seq<char>>> {
    let end = Reading::start().after(command);
    if end.mode is Bare {
        Some(end.all_words())
    } else {
        None
    }
}

/// Reading two texts is reading one, then the other.
proof fn lemma_after_concat(from: Reading, first: Seq<char>, second: Seq<char>)
    ensures
        from.after(first + second) == from.after(first).after(second),
    decreases second.len(),
{
    if second.len() == 0 {
        assert(first + second == first);
    } else {
        assert((first + second).drop_last() == first + second.drop_last());
        lemma_after_concat(from, first, second.drop_last());
    }
}

/// Reading one character.
proof fn lemma_after_one(from: Reading, c: char)
    ensures
        from.after(seq![c]) == from.next(c),
{
    assert(seq![c].drop_last() == Seq::<char>::empty());
    assert(from.after(Seq::<char>::empty()) == from);
}

/// Between the quotes a reader takes the escaped text for the text itself.
proof fn lemma_reads_escaped(from: Reading, value: Seq<char>)
    requires
        from.mode is Quoted,
        from.word is Some,
    ensures
        from.after(escaped(value)) == (Reading {
            words: from.words,
            word: Some(from.so_far() + value),
            mode: Mode::Quoted,
        }),
    decreases value.len(),
{
    if value.len() == 0 {
        assert(from.so_far() + value == from.so_far());
    } else {
        let before = value.drop_last();
        lemma_reads_escaped(from, before);
        let middle = from.after(escaped(before));
        assert((from.so_far() + before).push(value.last()) == from.so_far() + value);
        if value.last() == '\'' {
            lemma_after_concat(from, escaped(before), seq!['\'', '\\', '\'', '\'']);
            lemma_after_concat(middle, seq!['\''], seq!['\\', '\'', '\'']);
            lemma_after_one(middle, '\'');
            let bare = middle.next('\'');
            lemma_after_concat(bare, seq!['\\'], seq!['\'', '\'']);
            lemma_after_one(bare, '\\');
            let behind = bare.next('\\');
            lemma_after_concat(behind, seq!['\''], seq!['\'']);
            lemma_after_one(behind, '\'');
            lemma_after_one(behind.next('\''), '\'');
            assert(seq!['\'', '\\', '\'', '\''] == seq!['\''] + seq!['\\', '\'', '\'']);
            assert(seq!['\\', '\'', '\''] == seq!['\\'] + seq!['\'', '\'']);
            assert(seq!['\'', '\''] == seq!['\''] + seq!['\'']);
        } else {
            lemma_after_concat(from, escaped(before), seq![value.last()]);
            lemma_after_one(middle, value.last());
            assert(escaped(value) == escaped(before) + seq![value.last()]);
        }
    }
}

/// A quoted word adds exactly its value to the word that is being read.
proof fn lemma_reads_quoted(from: Reading, value: Seq<char>)
    requires
        from.mode is Bare,
    ensures
        from.after(quoted(value)) == (Reading {
            words: from.words,
            word: Some(from.so_far() + value),
            mode: Mode::Bare,
        }),
{
    let inside = from.next('\'');
    lemma_after_concat(from, seq!['\''] + escaped(value), seq!['\'']);
    lemma_after_concat(from, seq!['\''], escaped(value));
    lemma_after_one(from, '\'');
    lemma_reads_escaped(inside, value);
    lemma_after_one(inside.after(escaped(value)), '\'');
}

/// A reader takes a command of quoted words apart into these words.
proof fn lemma_reads_command(from: Reading, words: Seq<Seq<char>>)
    requires
        from.mode is Bare,
        from.word is None,
        words.len() > 0,
    ensures
        from.after(command_text(words)) == (Reading {
            words: from.words + words.drop_last(),
            word: Some(words.last()),
            mode: Mode::Bare,
        }),
    decreases words.len(),
{
    let parts = words.map_values(|w: Seq<char>| quoted(w));
    if words.len() == 1 {
        lemma_reads_quoted(from, words[0]);
        assert(Seq::<char>::empty() + words[0] == words[0]);
        assert(from.words + words.drop_last() == from.words);
    } else {
        let init = words.drop_last();
        let text = command_text(init);
        lemma_reads_command(from, init);
        assert(parts.drop_last() == init.map_values(|w: Seq<char>| quoted(w)));
        lemma_after_concat(from, text + seq![' '], quoted(words.last()));
        lemma_after_concat(from, text, seq![' ']);
        lemma_after_one(from.after(text), ' ');
        let blank = from.after(text).next(' ');
        lemma_reads_quoted(blank, words.last());
        assert(Seq::<char>::empty() + words.last() == words.last());
        assert((from.words + init.drop_last()).push(init.last()) == from.words + init);
    }
}

/// Quoting is safe and loses nothing: whatever characters a value holds, a shell
/// reads its quoted form as one word, the value itself.
pub proof fn shell_reads_quoted_value(value: Seq<char>)
    ensures
        shell_words(quoted(value)) == Some(seq![value]),
{
    lemma_reads_quoted(Reading::start(), value);
    assert(Seq::<char>::empty() + value == value);
    assert(Seq::<Seq<char>>::empty().push(value) == seq![value]);
}

/// A remote shell runs exactly the program with exactly the arguments that the
/// command was made of, whatever characters they hold.
pub proof fn shell_reads_remote_command(program: Seq<char>, args: Seq<Seq<char>>)
    ensures
        shell_words(command_text(seq![program] + args)) == Some(seq![program] + args),
{
    let words = seq![program] + args;
    lemma_reads_command(Reading::start(), words);
    assert((Seq::<Seq<char>>::empty() + words.drop_last()).push(words.last()) == words);
}

/// A shell reads plain words in front of a remote command as these words, followed
/// by the words of the command.
pub proof fn shell_reads_prefixed_command(prefix: Seq<char>, words: Seq<Seq<char>>)
    requires
        Reading::start().after(prefix).mode is Bare,
        Reading::start().after(prefix).word is None,
        words.len() > 0,
    ensures
        shell_words(prefix) is Some,
        shell_words(prefix + command_text(words)) == Some(shell_words(prefix).unwrap() + words),
{
    let from = Reading::start().after(prefix);
    lemma_after_concat(Reading::start(), prefix, command_text(words));
    lemma_reads_command(from, words);
    assert((from.words + words.drop_last()).push(words.last()) == from.words + words);
}

/// Whether `c`, outside quotes, is a word's own.
pub open spec fn is_ordinary(c: char) -> bool {
    !is_special(c) && c != ' ' && c != '\t' && c != '\'' && c != '\\'
}

/// Outside quotes a reader takes ordinary characters for themselves.
proof fn lemma_reads_ordinary(from: Reading, word: Seq<char>)
    requires
        from.mode is Bare,
        word.len() > 0,
        forall|i: int| 0 <= i < word.len() ==> is_ordinary(#[trigger] word[i]),
    ensures
        from.after(word) == (Reading {
            words: from.words,
            word: Some(from.so_far() + word),
            mode: Mode::Bare,
        }),
    decreases word.len(),
{
    let before = word.drop_last();
    assert(is_ordinary(word[word.len() - 1]));
    assert((from.so_far() + before).push(word.last()) == from.so_far() + word);
    if before.len() == 0 {
        assert(from.after(before) == from);
        assert(from.so_far() + before == from.so_far());
    } else {
        assert forall|i: int| 0 <= i < before.len() implies is_ordinary(#[trigger] before[i]) by {
            assert(before[i] == word[i]);
        }
        lemma_reads_ordinary(from, before);
    }
}

/// A reader takes two words of ordinary characters, each with a space behind it, for
/// these words.
pub proof fn lemma_reads_two_plain_words(first: Seq<char>, second: Seq<char>)
    requires
        first.len() > 0,
        second.len() > 0,
        forall|i: int| 0 <= i < first.len() ==> is_ordinary(#[trigger] first[i]),
        forall|i: int| 0 <= i < second.len() ==> is_ordinary(#[trigger] second[i]),
    ensures
        Reading::start().after(first + seq![' '] + second + seq![' ']) == (Reading {
            words: seq![first, second],
            word: None,
            mode: Mode::Bare,
        }),
{
    let start = Reading::start();
    let blank = seq![' '];
    lemma_after_concat(start, first + blank + second, blank);
    lemma_after_concat(start, first + blank, second);
    lemma_after_concat(start, first, blank);
    lemma_reads_ordinary(start, first);
    let one = start.after(first);
    lemma_after_one(one, ' ');
    lemma_reads_ordinary(one.next(' '), second);
    let two = one.next(' ').after(second);
    lemma_after_one(two, ' ');
    assert(Seq::<char>::empty() + first == first);
    assert(Seq::<char>::empty() + second == second);
    assert(Seq::<Seq<char>>::empty().push(first).push(second) == seq![first, second]);
}

/// Two values with the same quoted form are the same value.
pub proof fn quoting_is_injective(a: Seq<char>, b: Seq<char>)
    requires
        quoted(a) == quoted(b),
    ensures
        a == b,
{
    shell_reads_quoted_value(a);
    shell_reads_quoted_value(b);
    assert(seq![a][0] == seq![b][0]);
}

/// Two remote commands with the same text run the same program with the same
/// arguments.
pub proof fn remote_command_is_injective(a: Seq<Seq<char>>, b: Seq<Seq<char>>)
    requires
        a.len() > 0,
        b.len() > 0,
        command_text(a) == command_text(b),
    ensures
        a == b,
{
    shell_reads_remote_command(a[0], a.drop_first());
    shell_reads_remote_command(b[0], b.drop_first());
    assert(seq![a[0]] + a.drop_first() == a);
    assert(seq![b[0]] + b.drop_first() == b);
}

/// Nothing but single quotes is rewritten: a value without one stands between two single
/// quotes as it is, and every single quote closes the quotes, stands behind a backslash,
/// and opens them again. What is quoted in two parts is the same inside.
pub proof fn only_single_quotes_are_rewritten(a: Seq<char>, b: Seq<char>)
    ensures
        text::lacks(a, '\'') ==> quoted(a) == seq!['\''] + a + seq!['\''],
        quoted(seq!['\'']) == seq!['\'', '\'', '\\', '\'', '\'', '\''],
        quoted(a).len() >= 2 && quoted(b).len() >= 2,
        quoted(a + b) == quoted(a).drop_last() + quoted(b).drop_first(),
{
    if text::lacks(a, '\'') {
        lemma_escaped_plain(a);
    }
    assert(seq!['\''].drop_last() == Seq::<char>::empty());
    assert(escaped(Seq::<char>::empty()) == Seq::<char>::empty());
    assert(escaped(seq!['\'']) == seq!['\'', '\\', '\'', '\'']);
    assert(quoted(seq!['\'']) == seq!['\'', '\'', '\\', '\'', '\'', '\'']);
    lemma_escaped_concat(a, b);
    assert(quoted(a).drop_last() == seq!['\''] + escaped(a));
    assert(quoted(b).drop_first() == escaped(b) + seq!['\'']);
    assert(quoted(a + b) == quoted(a).drop_last() + quoted(b).drop_first());
}

/// A value without single quotes is not rewritten.
proof fn lemma_escaped_plain(value: Seq<char>)
    requires
        text::lacks(value, '\''),
    ensures
        escaped(value) == value,
    decreases value.len(),
{
    if value.len() > 0 {
        let before = value.drop_last();
        assert forall|i: int| 0 <= i < before.len() implies #[trigger] before[i] != '\'' by {
            assert(before[i] == value[i]);
        }
        assert(value[value.len() - 1] != '\'');
        lemma_escaped_plain(before);
        assert(before.push(value.last()) == value);
    }
}

/// A value is rewritten one character after the other.
proof fn lemma_escaped_concat(a: Seq<char>, b: Seq<char>)
    ensures
        escaped(a + b) == escaped(a) + escaped(b),
    decreases b.len(),
{
    if b.len() == 0 {
        assert(a + b == a);
        assert(escaped(a) + escaped(b) == escaped(a));
    } else {
        lemma_escaped_concat(a, b.drop_last());
        assert((a + b).drop_last() == a + b.drop_last());
        assert((a + b).last() == b.last());
        assert(escaped(a + b) == escaped(a) + escaped(b));
    }
}

/// A command is the quoted words with one space between neighbours, and nothing else.
pub proof fn command_grows_by_a_word(words: Seq<Seq<char>>, word: Seq<char>)
    ensures
        command_text(seq![word]) == quoted(word),
        words.len() > 0 ==> command_text(words.push(word)) == command_text(words) + seq![' ']
            + quoted(word),
{
    let parts = words.map_values(|w: Seq<char>| quoted(w));
    assert(seq![word].map_values(|w: Seq<char>| quoted(w)) == seq![quoted(word)]);
    assert(words.push(word).map_values(|w: Seq<char>| quoted(w)) == parts.push(quoted(word)));
    text::joined_grows_by_a_part(parts, quoted(word), seq![' ']);
}

} // verus!
