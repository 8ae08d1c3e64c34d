//! The commands of the interactive client.

use vstd::prelude::*;

use crate::text;

verus! {

/// The user's parsed intent.
#[derive(Debug, PartialEq, Eq)]
pub enum Command {
    /// Send this message to the room.
    Send(String),
    /// Leave the room.
    Leave,
    /// Nothing was typed.
    Blank,
    /// A known command, used wrongly; the text says how to use it.
    Invalid(String),
    /// No command of this name.
    Unknown(String),
}

/// A [`Command`] with its text as a sequence of characters.
pub enum CommandView {
    Send(Seq<char>),
    Leave,
    Blank,
    Invalid(Seq<char>),
    Unknown(Seq<char>),
}

impl View for Command {
    type V = CommandView;

    open spec fn view(&self) -> CommandView {
        match *self {
            Command::Send(s) => CommandView::Send(s@),
            Command::Leave => CommandView::Leave,
            Command::Blank => CommandView::Blank,
            Command::Invalid(s) => CommandView::Invalid(s@),
            Command::Unknown(s) => CommandView::Unknown(s@),
        }
    }
}

/// What a command word with the given argument text means.
pub open spec fn meaning(word: Seq<char>, argument: Seq<char>) -> CommandView {
    if word == "send"@ {
        if argument.len() == 0 {
            CommandView::Invalid("usage: send <msg>"@)
        } else {
            CommandView::Send(argument)
        }
    } else if word == "leave"@ {
        if argument.len() == 0 {
            CommandView::Leave
        } else {
            CommandView::Invalid("usage: leave (takes no arguments)"@)
        }
    } else {
        CommandView::Unknown(word)
    }
}

/// What a line means: its first word is the command, the rest, without
/// whitespace around it, the argument.
pub open spec fn parsed(line: Seq<char>) -> CommandView {
    let input = text::trimmed(line);
    let k = text::word_len(input);
    if input.len() == 0 {
        CommandView::Blank
    } else if k < input.len() {
        meaning(input.take(k as int), text::trimmed(input.skip(k as int + 1)))
    } else {
        meaning(input, Seq::empty())
    }
}

/// Parses a line that the user typed.
pub fn parse_command(line: &str) -> (r: Command)
    ensures
        r@ == parsed(line@),
{
    let input = text::trim(line);
    if input.is_empty() {
        return Command::Blank;
    }
    let (word, rest) = text::split_word(input);
    let argument = text::trim(rest);
    proof {
        if text::word_len(input@) == input@.len() {
            assert(word@ =~= input@);
        }
    }
    if text::same_text(word, "send") {
        if argument.is_empty() {
            Command::Invalid("usage: send <msg>".to_owned())
        } else {
            Command::Send(argument.to_owned())
        }
    } else if text::same_text(word, "leave") {
        if !argument.is_empty() {
            Command::Invalid("usage: leave (takes no arguments)".to_owned())
        } else {
            Command::Leave
        }
    } else {
        Command::Unknown(word.to_owned())
    }
}

/// Whitespace around a line makes no difference.
pub proof fn law_outer_whitespace_is_ignored(front: Seq<char>, line: Seq<char>, back: Seq<char>)
    requires
        text::blank(front),
        text::blank(back),
    ensures
        parsed(front + line + back) == parsed(line),
{
    text::law_trimming_ignores_padding(front, line, back);
}

/// A message that is sent is never empty, and neither starts nor ends with
/// whitespace.
pub proof fn law_sent_message_is_trimmed(line: Seq<char>)
    ensures
        parsed(line) matches CommandView::Send(body) ==> {
            &&& body.len() > 0
            &&& !text::white_space(body[0])
            &&& !text::white_space(body.last())
        },
{
    let input = text::trimmed(line);
    text::law_trimmed(input.skip(text::word_len(input) as int + 1));
}

// ---------------------------------------------------------------------------
// What each line means
// ---------------------------------------------------------------------------

/// `s` is a word: not empty, and without whitespace.
pub open spec fn is_word(s: Seq<char>) -> bool {
    &&& s.len() > 0
    &&& forall|i: int| 0 <= i < s.len() ==> !text::white_space(#[trigger] s[i])
}

/// `s` is an argument: not empty, and with no whitespace at either end.
pub open spec fn is_argument(s: Seq<char>) -> bool {
    s.len() > 0 && !text::white_space(s[0]) && !text::white_space(s.last())
}

/// A line of a word alone.
proof fn lemma_word_alone(front: Seq<char>, word: Seq<char>, back: Seq<char>)
    requires
        text::blank(front),
        is_word(word),
        text::blank(back),
    ensures
        parsed(front + word + back) == meaning(word, Seq::empty()),
{
    text::law_trimmed_is_unique(front, word, back);
    text::law_first_word_is_found(word, Seq::empty());
    assert(word + Seq::<char>::empty() =~= word);
}

/// A line of a word and an argument.
proof fn lemma_word_and_argument(
    front: Seq<char>,
    word: Seq<char>,
    gap: Seq<char>,
    argument: Seq<char>,
    back: Seq<char>,
)
    requires
        text::blank(front),
        is_word(word),
        text::blank(gap),
        gap.len() > 0,
        is_argument(argument),
        text::blank(back),
    ensures
        parsed(front + word + gap + argument + back) == meaning(word, argument),
{
    let input = word + gap + argument;
    assert(front + word + gap + argument + back =~= front + input + back);
    text::law_trimmed_is_unique(front, input, back);
    assert(input =~= word + (gap + argument));
    assert(text::white_space(gap[0]));
    text::law_first_word_is_found(word, gap + argument);
    assert(input.take(word.len() as int) =~= word);
    assert(input.skip(word.len() as int + 1) =~= gap.skip(1) + argument + Seq::<char>::empty());
    text::law_trimmed_is_unique(gap.skip(1), argument, Seq::empty());
}

/// A line means nothing if and only if there is nothing but whitespace on it.
pub proof fn law_blank_lines(line: Seq<char>)
    ensures
        parsed(line) is Blank <==> text::blank(line),
{
    text::law_trimmed(line);
    if text::blank(line) {
        assert(line =~= line + Seq::<char>::empty() + Seq::<char>::empty());
        text::law_trimmed_is_unique(line, Seq::empty(), Seq::empty());
    } else {
        let i = choose|i: int| 0 <= i < line.len() && !text::white_space(line[i]);
        if text::trimmed(line).len() == 0 {
            let (front, back) = choose|front: Seq<char>, back: Seq<char>|
                {
                    &&& line == #[trigger] (front + text::trimmed(line) + back)
                    &&& text::blank(front)
                    &&& text::blank(back)
                };
            if i < front.len() {
                assert(line[i] == front[i]);
            } else {
                assert(line[i] == back[i - front.len()]);
            }
        }
    }
}

/// `send` with a message sends that message, whatever its length and contents
/// and however much whitespace stands around it.
pub proof fn law_message_is_sent(
    front: Seq<char>,
    gap: Seq<char>,
    message: Seq<char>,
    back: Seq<char>,
)
    requires
        text::blank(front),
        text::blank(gap),
        gap.len() > 0,
        is_argument(message),
        text::blank(back),
    ensures
        parsed(front + "send"@ + gap + message + back) == CommandView::Send(message),
{
    reveal_strlit("send");
    lemma_word_and_argument(front, "send"@, gap, message, back);
}

/// `send` without a message is used wrongly, and the user is told how to use
/// it.
pub proof fn law_send_needs_a_message(front: Seq<char>, back: Seq<char>)
    requires
        text::blank(front),
        text::blank(back),
    ensures
        parsed(front + "send"@ + back) == CommandView::Invalid("usage: send <msg>"@),
{
    reveal_strlit("send");
    lemma_word_alone(front, "send"@, back);
}

/// `leave` on its own leaves; with anything behind it, it is used wrongly, and
/// the user is told so.
pub proof fn law_leave_takes_no_arguments(
    front: Seq<char>,
    gap: Seq<char>,
    argument: Seq<char>,
    back: Seq<char>,
)
    requires
        text::blank(front),
        text::blank(back),
    ensures
        parsed(front + "leave"@ + back) == CommandView::Leave,
        text::blank(gap) && gap.len() > 0 && is_argument(argument) ==> parsed(
            front + "leave"@ + gap + argument + back,
        ) == CommandView::Invalid("usage: leave (takes no arguments)"@),
{
    reveal_strlit("leave");
    reveal_strlit("send");
    lemma_word_alone(front, "leave"@, back);
    if text::blank(gap) && gap.len() > 0 && is_argument(argument) {
        lemma_word_and_argument(front, "leave"@, gap, argument, back);
    }
}

/// Any other word is no command, with an argument or without.
pub proof fn law_other_words_are_unknown(
    front: Seq<char>,
    word: Seq<char>,
    gap: Seq<char>,
    argument: Seq<char>,
    back: Seq<char>,
)
    requires
        text::blank(front),
        is_word(word),
        word != "send"@,
        word != "leave"@,
        text::blank(back),
    ensures
        parsed(front + word + back) == CommandView::Unknown(word),
        text::blank(gap) && gap.len() > 0 && is_argument(argument) ==> parsed(
            front + word + gap + argument + back,
        ) == CommandView::Unknown(word),
{
    lemma_word_alone(front, word, back);
    if text::blank(gap) && gap.len() > 0 && is_argument(argument) {
        lemma_word_and_argument(front, word, gap, argument, back);
    }
}

/// Every line has one of these shapes: it is blank, a word, or a word and an
/// argument, with whitespace around and between them.
pub proof fn law_shapes_of_lines(line: Seq<char>)
    ensures
        ({
            ||| text::blank(line)
            ||| exists|front: Seq<char>, word: Seq<char>, back: Seq<char>|
                {
                    &&& line == #[trigger] (front + word + back)
                    &&& text::blank(front) && is_word(word) && text::blank(back)
                }
            ||| exists|
                front: Seq<char>,
                word: Seq<char>,
                gap: Seq<char>,
                argument: Seq<char>,
                back: Seq<char>,
            |
                {
                    &&& line == #[trigger] (front + word + gap + argument + back)
                    &&& text::blank(front) && is_word(word) && text::blank(gap) && gap.len() > 0
                    &&& is_argument(argument) && text::blank(back)
                }
        }),
{
    if !text::blank(line) {
        law_blank_lines(line);
        text::law_trimmed(line);
        let input = text::trimmed(line);
        let (front, back) = choose|front: Seq<char>, back: Seq<char>|
            {
                &&& line == #[trigger] (front + input + back)
                &&& text::blank(front)
                &&& text::blank(back)
            };
        text::law_first_word(input);
        let k = text::word_len(input) as int;
        let word = input.take(k);
        if k == input.len() {
            assert(word =~= input);
            assert(line == front + word + back);
        } else {
            let rest = input.skip(k);
            text::law_trimmed(rest);
            let argument = text::trimmed(rest);
            let (gap, end) = choose|gap: Seq<char>, end: Seq<char>|
                {
                    &&& rest == #[trigger] (gap + argument + end)
                    &&& text::blank(gap)
                    &&& text::blank(end)
                };
            assert(rest[0] == input[k]);
            assert(!text::white_space(rest.last()));
            assert(end.len() == 0) by {
                if end.len() > 0 {
                    assert(rest.last() == end.last());
                }
            }
            if argument.len() == 0 {
                assert(rest.last() == gap.last());
            }
            if gap.len() == 0 {
                assert(rest[0] == argument[0]);
            }
            assert(rest =~= gap + argument);
            assert(input =~= word + rest);
            assert(input =~= word + gap + argument);
            assert(front + input + back =~= front + word + gap + argument + back);
        }
    }
}

/// The view of a command is the command, with its text.
pub proof fn law_command_views(c: Command)
    ensures
        match c {
            Command::Send(s) => c@ == CommandView::Send(s@),
            Command::Leave => c@ == CommandView::Leave,
            Command::Blank => c@ == CommandView::Blank,
            Command::Invalid(s) => c@ == CommandView::Invalid(s@),
            Command::Unknown(s) => c@ == CommandView::Unknown(s@),
        },
{
}

} // verus!
