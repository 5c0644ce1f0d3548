//! Words for a POSIX shell: how a text is quoted, and that a shell reads it back unchanged.

use crate::text::{join, joined, replace_char, replaced_char, views};
use vstd::prelude::*;

verus! {

/// A text in single quotes. A single quote in it closes the quotes, stands escaped, and
/// opens them again.
pub open spec fn quoted(text: Seq<char>) -> Seq<char> {
    "'"@ + replace_char(text, '\'', r"'\''"@) + "'"@
}

/// A text in single quotes.
pub fn quote_posix(value: &str) -> (text: String)
    ensures
        text@ == quoted(value@),
{
    let mut text = "'".to_string();
    text.append(replaced_char(value, '\'', r"'\''").as_str());
    text.append("'");
    text
}

/// Each text of a list in single quotes.
pub open spec fn all_quoted(texts: Seq<Seq<char>>) -> Seq<Seq<char>> {
    Seq::new(texts.len(), |i: int| quoted(texts[i]))
}

/// The texts of a list in single quotes, with a space between each two.
pub open spec fn quoted_words(texts: Seq<Seq<char>>) -> Seq<char> {
    join(all_quoted(texts), " "@)
}

/// Each string of a list in single quotes.
pub fn quote_all(values: &Vec<String>) -> (texts: Vec<String>)
    ensures
        views(texts@) == all_quoted(views(values@)),
{
    let mut texts: Vec<String> = Vec::new();
    let mut i: usize = 0;
    while i < values.len()
        invariant
            i <= values.len(),
            views(texts@) == all_quoted(views(values@)).take(i as int),
        decreases values.len() - i,
    {
        let ghost before = views(texts@);
        texts.push(quote_posix(values[i].as_str()));
        assert(views(texts@) =~= before.push(quoted(values@[i as int]@)));
        assert(all_quoted(views(values@)).take(i + 1) =~= before.push(
            all_quoted(views(values@))[i as int],
        ));
        i += 1;
    }
    assert(all_quoted(views(values@)).take(i as int) =~= all_quoted(views(values@)));
    texts
}

/// The strings of a list in single quotes, with a space between each two.
pub fn join_quoted(values: &Vec<String>) -> (text: String)
    ensures
        text@ == quoted_words(views(values@)),
{
    joined(&quote_all(values), " ")
}

/// Whether a character stands for itself outside quotes.
pub open spec fn is_plain(c: char) -> bool {
    ||| 'a' <= c <= 'z'
    ||| 'A' <= c <= 'Z'
    ||| '0' <= c <= '9'
    ||| c == '-'
    ||| c == '_'
    ||| c == '.'
    ||| c == '/'
    ||| c == ':'
}

/// A character behind the word that is being read.
pub open spec fn grown(word: Option<Seq<char>>, c: char) -> Option<Seq<char>> {
    match word {
        Some(word) => Some(word.push(c)),
        None => Some(seq![c]),
    }
}

/// Words before those of a list.
pub open spec fn prepend(words: Seq<Seq<char>>, rest: Option<Seq<Seq<char>>>) -> Option<
    Seq<Seq<char>>,
> {
    match rest {
        Some(rest) => Some(words + rest),
        None => None,
    }
}

/// How a POSIX shell splits a line into words, given the word that is being read and
/// whether single quotes are open. A line that holds anything beyond plain characters,
/// spaces, single quotes and backslashes means more than a list of words.
pub open spec fn words_from(line: Seq<char>, word: Option<Seq<char>>, open: bool) -> Option<
    Seq<Seq<char>>,
>
    decreases line.len(),
{
    if line.len() == 0 {
        if open {
            None
        } else {
            match word {
                Some(word) => Some(seq![word]),
                None => Some(Seq::empty()),
            }
        }
    } else {
        let c = line[0];
        let rest = line.skip(1);
        if open {
            if c == '\'' {
                words_from(rest, word, false)
            } else {
                words_from(rest, grown(word, c), true)
            }
        } else if c == '\'' {
            words_from(
                rest,
                match word {
                    Some(word) => Some(word),
                    None => Some(Seq::empty()),
                },
                true,
            )
        } else if c == '\\' {
            if rest.len() == 0 || rest[0] == '\n' {
                None
            } else {
                words_from(rest.skip(1), grown(word, rest[0]), false)
            }
        } else if c == ' ' {
            match word {
                Some(word) => prepend(seq![word], words_from(rest, None, false)),
                None => words_from(rest, None, false),
            }
        } else if is_plain(c) {
            words_from(rest, grown(word, c), false)
        } else {
            None
        }
    }
}

/// How a POSIX shell splits a line into words.
pub open spec fn shell_words(line: Seq<char>) -> Option<Seq<Seq<char>>> {
    words_from(line, None, false)
}

proof fn lemma_quoted_inside(text: Seq<char>, word: Seq<char>, rest: Seq<char>)
    ensures
        words_from(replace_char(text, '\'', r"'\''"@) + rest, Some(word), true) == words_from(
            rest,
            Some(word + text),
            true,
        ),
    decreases text.len(),
{
    let escape = r"'\''"@;
    if text.len() == 0 {
        assert(replace_char(text, '\'', escape) + rest =~= rest);
        assert(word + text =~= word);
    } else {
        let head = text.drop_last();
        let c = text.last();
        let so_far = word + head;
        assert(word + text =~= so_far.push(c));
        if c == '\'' {
            reveal_strlit(r"'\''");
            let after = escape + rest;
            assert(replace_char(text, '\'', escape) + rest =~= replace_char(head, '\'', escape)
                + after);
            lemma_quoted_inside(head, word, after);
            let second = after.skip(1);
            assert(second[0] == '\\' && second.skip(1)[0] == '\'');
            let fourth = second.skip(1).skip(1);
            assert(fourth[0] == '\'');
            assert(fourth.skip(1) =~= rest);
            assert(words_from(after, Some(so_far), true) == words_from(
                second,
                Some(so_far),
                false,
            ));
            assert(words_from(second, Some(so_far), false) == words_from(
                fourth,
                Some(so_far.push('\'')),
                false,
            ));
            assert(words_from(fourth, Some(so_far.push('\'')), false) == words_from(
                rest,
                Some(so_far.push('\'')),
                true,
            ));
        } else {
            let after = seq![c] + rest;
            assert(replace_char(text, '\'', escape) + rest =~= replace_char(head, '\'', escape)
                + after);
            lemma_quoted_inside(head, word, after);
            assert(after.skip(1) =~= rest);
            assert(after[0] == c);
        }
    }
}

proof fn lemma_quoted_word(text: Seq<char>, rest: Seq<char>)
    ensures
        words_from(quoted(text) + rest, None, false) == words_from(rest, Some(text), false),
{
    reveal_strlit("'");
    let inside = replace_char(text, '\'', r"'\''"@);
    let line = quoted(text) + rest;
    let closing = "'"@ + rest;
    assert(line[0] == '\'');
    assert(line.skip(1) =~= inside + closing);
    lemma_quoted_inside(text, Seq::empty(), closing);
    assert(Seq::<char>::empty() + text =~= text);
    assert(closing[0] == '\'');
    assert(closing.skip(1) =~= rest);
}

proof fn lemma_prepend_twice(a: Seq<Seq<char>>, b: Seq<Seq<char>>, rest: Option<Seq<Seq<char>>>)
    ensures
        prepend(a, prepend(b, rest)) == prepend(a + b, rest),
{
    if rest is Some {
        assert(a + (b + rest->0) =~= a + b + rest->0);
    }
}

proof fn lemma_quoted_words(texts: Seq<Seq<char>>, rest: Seq<char>)
    requires
        texts.len() > 0,
    ensures
        words_from(quoted_words(texts) + rest, None, false) == prepend(
            texts.drop_last(),
            words_from(rest, Some(texts.last()), false),
        ),
    decreases texts.len(),
{
    let parts = all_quoted(texts);
    assert(parts.last() == quoted(texts.last()));
    if texts.len() == 1 {
        assert(parts[0] == quoted(texts[0]));
        lemma_quoted_word(texts[0], rest);
        let found = words_from(rest, Some(texts.last()), false);
        if found is Some {
            assert(texts.drop_last() + found->0 =~= found->0);
        }
    } else {
        let head = texts.drop_last();
        assert(parts.drop_last() =~= all_quoted(head));
        let last = quoted(texts.last()) + rest;
        let after = " "@ + last;
        assert(quoted_words(texts) + rest =~= quoted_words(head) + after);
        lemma_quoted_words(head, after);
        reveal_strlit(" ");
        assert(after[0] == ' ');
        assert(after.skip(1) =~= last);
        lemma_quoted_word(texts.last(), rest);
        let found = words_from(rest, Some(texts.last()), false);
        assert(words_from(after, Some(head.last()), false) == prepend(seq![head.last()], found));
        lemma_prepend_twice(head.drop_last(), seq![head.last()], found);
        assert(head.drop_last() + seq![head.last()] =~= head);
    }
}

proof fn lemma_plain_inside(word: Seq<char>, before: Option<Seq<char>>, rest: Seq<char>)
    requires
        word.len() > 0,
        forall|i: int| 0 <= i < word.len() ==> is_plain(#[trigger] word[i]),
    ensures
        words_from(word + rest, before, false) == words_from(
            rest,
            match before {
                Some(before) => Some(before + word),
                None => Some(word),
            },
            false,
        ),
    decreases word.len(),
{
    let line = word + rest;
    let tail = word.skip(1);
    assert(line[0] == word[0]);
    assert(is_plain(word[0]));
    assert(line.skip(1) =~= tail + rest);
    if word.len() == 1 {
        assert(tail + rest =~= rest);
        assert(grown(before, word[0]) == match before {
            Some(before) => Some(before + word),
            None => Some(word),
        }) by {
            match before {
                Some(before) => assert(before.push(word[0]) =~= before + word),
                None => assert(seq![word[0]] =~= word),
            }
        }
    } else {
        assert forall|i: int| 0 <= i < tail.len() implies is_plain(#[trigger] tail[i]) by {
            assert(tail[i] == word[i + 1]);
        }
        lemma_plain_inside(tail, grown(before, word[0]), rest);
        match before {
            Some(before) => assert(before.push(word[0]) + tail =~= before + word),
            None => assert(seq![word[0]] + tail =~= word),
        }
    }
}

/// A shell reads plain characters up to a space as one word.
pub proof fn lemma_plain_word(word: Seq<char>, rest: Seq<char>)
    requires
        word.len() > 0,
        forall|i: int| 0 <= i < word.len() ==> is_plain(#[trigger] word[i]),
    ensures
        shell_words(word + " "@ + rest) == prepend(seq![word], shell_words(rest)),
{
    reveal_strlit(" ");
    let after = " "@ + rest;
    assert(word + " "@ + rest =~= word + after);
    lemma_plain_inside(word, None, after);
    assert(after[0] == ' ');
    assert(after.skip(1) =~= rest);
}

/// A shell reads two quoted texts with a space between them as two words.
pub proof fn lemma_two_quoted_words(a: Seq<char>, b: Seq<char>)
    ensures
        shell_words(quoted(a) + " "@ + quoted(b)) == Some(seq![a, b]),
{
    law_quoted_words_read_back(seq![a, b]);
    let parts = all_quoted(seq![a, b]);
    assert(parts.drop_last() =~= seq![quoted(a)]);
    assert(join(seq![quoted(a)], " "@) == quoted(a));
    assert(quoted_words(seq![a, b]) =~= quoted(a) + " "@ + quoted(b));
}

/// A shell reads a quoted text as one word, which is the text.
pub proof fn law_quoted_text_is_one_word(text: Seq<char>)
    ensures
        shell_words(quoted(text)) == Some(seq![text]),
{
    lemma_quoted_word(text, Seq::empty());
    assert(quoted(text) + Seq::empty() =~= quoted(text));
}

/// A shell reads a list of quoted texts as just those words, whatever characters they
/// hold: no argument is split, merged, expanded or lost.
pub proof fn law_quoted_words_read_back(texts: Seq<Seq<char>>)
    ensures
        shell_words(quoted_words(texts)) == Some(texts),
{
    if texts.len() == 0 {
        assert(quoted_words(texts) =~= Seq::empty());
        assert(texts =~= Seq::empty());
    } else {
        lemma_quoted_words(texts, Seq::empty());
        assert(quoted_words(texts) + Seq::empty() =~= quoted_words(texts));
        assert(texts.drop_last() + seq![texts.last()] =~= texts);
    }
}

} // verus!
