//! Words quoted for a POSIX shell.
use std::borrow::Cow;

use vstd::prelude::*;
use vstd::string::*;

use crate::text::texts;

verus! {

/// A character that means nothing but itself to a shell.
pub open spec fn is_plain(character: char) -> bool {
    ||| 'a' <= character <= 'z'
    ||| 'A' <= character <= 'Z'
    ||| '0' <= character <= '9'
    ||| character == '-'
    ||| character == '_'
    ||| character == '='
    ||| character == '/'
    ||| character == ','
    ||| character == '.'
    ||| character == '+'
}

/// What stands for a character between single quotes: a quote or an exclamation mark stands
/// behind a backslash, outside the quotes.
pub open spec fn quoted_char(character: char) -> Seq<char> {
    if character == '\'' || character == '!' {
        seq!['\'', '\\', character, '\'']
    } else {
        seq![character]
    }
}

/// What stands for a text between single quotes.
pub open spec fn quoted_body(value: Seq<char>) -> Seq<char>
    decreases value.len(),
{
    if value.len() == 0 {
        Seq::empty()
    } else {
        quoted_char(value[0]) + quoted_body(value.skip(1))
    }
}

/// Whether a text can stand in a command as it is.
pub open spec fn is_plain_word(value: Seq<char>) -> bool {
    value.len() > 0 && forall|k: int| 0 <= k < value.len() ==> is_plain(#[trigger] value[k])
}

/// A text as one word of a shell command: as it is, or between single quotes.
pub open spec fn escaped(value: Seq<char>) -> Seq<char> {
    if is_plain_word(value) {
        value
    } else {
        seq!['\''] + quoted_body(value) + seq!['\'']
    }
}

/// Calls `shell_escape::unix::escape`: a text of plain characters, at least one, is returned as it
/// is; any other is put between single quotes, where each quote and each exclamation mark leaves
/// the quotes to stand behind a backslash.
#[verifier::external_body]
pub(crate) fn escape(value: &str) -> (result: String)
    ensures
        result@ == escaped(value@),
{
    shell_escape::unix::escape(Cow::Borrowed(value)).into_owned()
}

/// Texts with a space before each.
pub open spec fn spaced(words: Seq<Seq<char>>) -> Seq<char>
    decreases words.len(),
{
    if words.len() == 0 {
        Seq::empty()
    } else {
        spaced(words.drop_last()) + seq![' '] + escaped(words.last())
    }
}

/// A command line that replaces the shell by a command with its arguments, each one word.
pub open spec fn exec_line(command: Seq<char>, args: Seq<Seq<char>>) -> Seq<char> {
    "exec "@ + escaped(command) + spaced(args)
}

/// Writes a command line that replaces the shell by a command with its arguments.
pub fn shell_command(command: &str, args: &Vec<String>) -> (line: String)
    ensures
        line@ == exec_line(command@, texts(args@)),
{
    let mut line = "exec ".to_owned();
    line.append(escape(command).as_str());
    let count: usize = args.len();
    let mut index: usize = 0;
    let ghost start = line@;
    let ghost all = texts(args@);
    assert(start + spaced(all.take(0)) =~= start);
    while index < count
        invariant
            index <= count,
            count == args@.len(),
            all == texts(args@),
            line@ == start + spaced(all.take(index as int)),
        decreases count - index,
    {
        let ghost before = line@;
        line.push(' ');
        line.append(escape(args[index].as_str()).as_str());
        proof {
            assert(all.take(index + 1).drop_last() =~= all.take(index as int));
            assert(all.take(index + 1).last() == args@[index as int]@);
            assert(line@ =~= start + (spaced(all.take(index as int)) + seq![' '] + escaped(
                args@[index as int]@,
            )));
        }
        index = index + 1;
    }
    assert(all.take(count as int) =~= all);
    line
}

/// Where a shell is while it reads a command line.
pub enum Reading {
    /// Between words.
    Between,
    /// In a word, outside quotes.
    Word,
    /// In a word, between single quotes.
    Quoted,
    /// In a word, behind a backslash.
    Escaped,
}

/// What a shell has read of a command line: the words that are complete, the one that it is in,
/// and where it is.
pub struct Scan {
    pub words: Seq<Seq<char>>,
    pub word: Seq<char>,
    pub at: Reading,
}

/// One step of a POSIX shell's reading of a simple command line: blanks end words, single quotes
/// keep everything up to the next one, and a backslash keeps the character behind it. Any other
/// character has to be plain; nothing is said of lines that hold one that is not.
pub open spec fn scan_char(scan: Scan, character: char) -> Option<Scan> {
    match scan.at {
        Reading::Quoted => if character == '\'' {
            Some(Scan { at: Reading::Word, ..scan })
        } else {
            Some(Scan { word: scan.word.push(character), ..scan })
        },
        Reading::Escaped => Some(
            Scan { word: scan.word.push(character), at: Reading::Word, ..scan },
        ),
        _ => if character == ' ' {
            match scan.at {
                Reading::Word => Some(
                    Scan {
                        words: scan.words.push(scan.word),
                        word: Seq::empty(),
                        at: Reading::Between,
                    },
                ),
                _ => Some(scan),
            }
        } else if character == '\'' {
            Some(Scan { at: Reading::Quoted, ..scan })
        } else if character == '\\' {
            Some(Scan { at: Reading::Escaped, ..scan })
        } else if is_plain(character) {
            Some(Scan { word: scan.word.push(character), at: Reading::Word, ..scan })
        } else {
            None
        },
    }
}

/// What a shell has read after a text, from where it was before.
pub open spec fn scan(from: Scan, line: Seq<char>) -> Option<Scan>
    decreases line.len(),
{
    if line.len() == 0 {
        Some(from)
    } else {
        match scan(from, line.drop_last()) {
            Some(before) => scan_char(before, line.last()),
            None => None,
        }
    }
}

/// A shell before it has read anything.
pub open spec fn fresh() -> Scan {
    Scan { words: Seq::empty(), word: Seq::empty(), at: Reading::Between }
}

/// The words of a command line, where it is complete and a simple one.
pub open spec fn shell_words(line: Seq<char>) -> Option<Seq<Seq<char>>> {
    match scan(fresh(), line) {
        Some(end) => match end.at {
            Reading::Between => Some(end.words),
            Reading::Word => Some(end.words.push(end.word)),
            _ => None,
        },
        None => None,
    }
}

proof fn lemma_scan_concat(from: Scan, left: Seq<char>, right: Seq<char>)
    ensures
        scan(from, left + right) == match scan(from, left) {
            Some(middle) => scan(middle, right),
            None => None,
        },
    decreases right.len(),
{
    if right.len() == 0 {
        assert(left + right =~= left);
    } else {
        lemma_scan_concat(from, left, right.drop_last());
        assert((left + right).drop_last() =~= left + right.drop_last());
        assert((left + right).last() == right.last());
    }
}

proof fn lemma_scan_char(from: Scan, character: char)
    ensures
        scan(from, seq![character]) == scan_char(from, character),
{
    reveal_with_fuel(scan, 2);
    assert(seq![character].drop_last() =~= Seq::<char>::empty());
}

proof fn lemma_scan_plain(from: Scan, value: Seq<char>)
    requires
        from.at is Between || from.at is Word,
        forall|k: int| 0 <= k < value.len() ==> is_plain(#[trigger] value[k]),
        value.len() > 0,
    ensures
        scan(from, value) == Some(Scan { word: from.word + value, at: Reading::Word, ..from }),
    decreases value.len(),
{
    assert(is_plain(value[value.len() - 1]));
    if value.len() == 1 {
        assert(value =~= seq![value[0]]);
        lemma_scan_char(from, value[0]);
        assert(from.word.push(value[0]) =~= from.word + value);
    } else {
        let shorter = value.drop_last();
        assert forall|k: int| 0 <= k < shorter.len() implies is_plain(#[trigger] shorter[k]) by {
            assert(is_plain(value[k]));
        }
        lemma_scan_plain(from, shorter);
        assert((from.word + shorter).push(value.last()) =~= from.word + value);
    }
}

proof fn lemma_scan_quoted(from: Scan, value: Seq<char>)
    requires
        from.at is Quoted,
    ensures
        scan(from, quoted_body(value)) == Some(Scan { word: from.word + value, ..from }),
    decreases value.len(),
{
    if value.len() == 0 {
        assert(from.word + value =~= from.word);
    } else {
        let first = value[0];
        let rest = value.skip(1);
        let after = Scan { word: from.word.push(first), ..from };
        lemma_scan_concat(from, quoted_char(first), quoted_body(rest));
        if first == '\'' || first == '!' {
            let one = seq!['\''];
            let two = seq!['\\'];
            let three = seq![first];
            let four = seq!['\''];
            let outside = Scan { at: Reading::Word, ..from };
            let behind = Scan { at: Reading::Escaped, ..from };
            let again = Scan { word: from.word.push(first), at: Reading::Word, ..from };
            lemma_scan_char(from, '\'');
            lemma_scan_char(outside, '\\');
            lemma_scan_char(behind, first);
            lemma_scan_char(again, '\'');
            lemma_scan_concat(from, one, two);
            lemma_scan_concat(from, one + two, three);
            lemma_scan_concat(from, one + two + three, four);
            assert(one + two + three + four =~= quoted_char(first));
        } else {
            lemma_scan_char(from, first);
        }
        assert(scan(from, quoted_char(first)) == Some(after));
        lemma_scan_quoted(after, rest);
        assert(from.word.push(first) + rest =~= from.word + value);
    }
}

proof fn lemma_scan_escaped(from: Scan, value: Seq<char>)
    requires
        from.at is Between,
        from.word.len() == 0,
    ensures
        scan(from, escaped(value)) == Some(Scan { word: value, at: Reading::Word, ..from }),
{
    assert(from.word + value =~= value);
    if is_plain_word(value) {
        lemma_scan_plain(from, value);
    } else {
        let open = seq!['\''];
        let inside = Scan { at: Reading::Quoted, ..from };
        let full = Scan { word: value, at: Reading::Quoted, ..from };
        lemma_scan_char(from, '\'');
        lemma_scan_quoted(inside, value);
        lemma_scan_char(full, '\'');
        lemma_scan_concat(from, open, quoted_body(value));
        lemma_scan_concat(from, open + quoted_body(value), open);
    }
}

/// A shell reads an escaped text as one word, and that word is the text, whatever it holds.
pub proof fn law_escaped_is_one_word(value: Seq<char>)
    ensures
        shell_words(escaped(value)) == Some(seq![value]),
{
    lemma_scan_escaped(fresh(), value);
    assert(Seq::<Seq<char>>::empty().push(value) =~= seq![value]);
}

/// Reading a space and then an escaped text adds the word before it and begins the text's.
pub proof fn lemma_scan_next_word(from: Scan, value: Seq<char>)
    requires
        from.at is Word,
    ensures
        scan(from, seq![' '] + escaped(value)) == Some(
            Scan { words: from.words.push(from.word), word: value, at: Reading::Word },
        ),
{
    let between = Scan {
        words: from.words.push(from.word),
        word: Seq::empty(),
        at: Reading::Between,
    };
    lemma_scan_char(from, ' ');
    lemma_scan_concat(from, seq![' '], escaped(value));
    lemma_scan_escaped(between, value);
}

proof fn lemma_scan_spaced(from: Scan, words: Seq<Seq<char>>)
    requires
        from.at is Word,
    ensures
        scan(from, spaced(words)) matches Some(end) && end.at is Word && end.words.push(end.word)
            == from.words.push(from.word) + words,
    decreases words.len(),
{
    if words.len() == 0 {
        assert(from.words.push(from.word) + words =~= from.words.push(from.word));
    } else {
        let shorter = words.drop_last();
        lemma_scan_spaced(from, shorter);
        let middle = scan(from, spaced(shorter))->0;
        lemma_scan_concat(from, spaced(shorter), seq![' '] + escaped(words.last()));
        assert(spaced(shorter) + (seq![' '] + escaped(words.last())) =~= spaced(words));
        lemma_scan_next_word(middle, words.last());
        assert((from.words.push(from.word) + shorter).push(words.last()) =~= from.words.push(
            from.word,
        ) + words);
    }
}

/// A shell reads the command line for a command and its arguments as the word `exec`, the command
/// and the arguments, whatever characters they hold.
pub proof fn law_exec_line_words(command: Seq<char>, args: Seq<Seq<char>>)
    ensures
        shell_words(exec_line(command, args)) == Some(seq!["exec"@, command] + args),
{
    reveal_strlit("exec ");
    reveal_strlit("exec");
    let word = "exec"@;
    assert("exec "@ =~= word + seq![' ']);
    assert forall|k: int| 0 <= k < word.len() implies is_plain(#[trigger] word[k]) by {}
    lemma_scan_plain(fresh(), word);
    assert(fresh().word + word =~= word);
    let started = Scan { words: Seq::empty(), word, at: Reading::Word };
    lemma_scan_concat(fresh(), word, seq![' '] + escaped(command));
    lemma_scan_next_word(started, command);
    let named = Scan { words: seq![word], word: command, at: Reading::Word };
    assert(started.words.push(word) =~= seq![word]);
    lemma_scan_concat(fresh(), word + (seq![' '] + escaped(command)), spaced(args));
    assert(word + (seq![' '] + escaped(command)) + spaced(args) =~= exec_line(command, args));
    lemma_scan_spaced(named, args);
    assert(named.words.push(command) + args =~= seq![word, command] + args);
}

/// A shell reads a command and arguments, quoted with spaces between them, as exactly those words.
pub proof fn law_command_line_words(command: Seq<char>, args: Seq<Seq<char>>)
    ensures
        shell_words(escaped(command) + spaced(args)) == Some(seq![command] + args),
{
    lemma_scan_escaped(fresh(), command);
    let named = Scan { words: Seq::empty(), word: command, at: Reading::Word };
    lemma_scan_concat(fresh(), escaped(command), spaced(args));
    lemma_scan_spaced(named, args);
    assert(named.words.push(command) =~= seq![command]);
}

/// Words of two lists one after the other are spaced as those of each.
pub proof fn lemma_spaced_concat(left: Seq<Seq<char>>, right: Seq<Seq<char>>)
    ensures
        spaced(left + right) == spaced(left) + spaced(right),
    decreases right.len(),
{
    if right.len() == 0 {
        assert(left + right =~= left);
    } else {
        lemma_spaced_concat(left, right.drop_last());
        assert((left + right).drop_last() =~= left + right.drop_last());
        assert(spaced(left + right) =~= spaced(left) + spaced(right));
    }
}

/// A plain word and another.
pub proof fn lemma_spaced_two(first: Seq<char>, second: Seq<char>)
    requires
        is_plain_word(first),
    ensures
        spaced(seq![first, second]) == seq![' '] + first + seq![' '] + escaped(second),
{
    reveal_with_fuel(spaced, 3);
    assert(seq![first, second].drop_last() =~= seq![first]);
    assert(seq![first].drop_last() =~= Seq::<Seq<char>>::empty());
    assert(spaced(seq![first, second]) =~= seq![' '] + first + seq![' '] + escaped(second));
}

/// Two plain words and another.
pub proof fn lemma_spaced_three(first: Seq<char>, second: Seq<char>, third: Seq<char>)
    requires
        is_plain_word(first),
        is_plain_word(second),
    ensures
        spaced(seq![first, second, third]) == seq![' '] + first + seq![' '] + second + seq![' ']
            + escaped(third),
{
    lemma_spaced_two(first, second);
    assert(seq![first, second, third].drop_last() =~= seq![first, second]);
    assert(spaced(seq![first, second, third]) =~= seq![' '] + first + seq![' '] + second + seq![
        ' ',
    ] + escaped(third));
}

} // verus!
