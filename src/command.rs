//! The commands of the interactive mode: a line holds an address and,
//! optionally, the file to save it to; `quit` or `q` (or an empty line) ends
//! the session.
use crate::text::same_text;
use vstd::prelude::*;

verus! {

/// The words that std's `str::split_whitespace` finds in `s`.
pub uninterp spec fn words_of(s: Seq<char>) -> Seq<Seq<char>>;

/// Relies on std's `str::split_whitespace`: the words of the line, in order;
/// they depend on the line alone.
#[verifier::external_body]
fn split_words(s: &str) -> (r: Vec<String>)
    ensures
        r.deep_view() == words_of(s@),
{
    s.split_whitespace().map(|w| w.to_string()).collect()
}

/// One line of the interactive mode, understood.
pub enum Command {
    /// End the session.
    Quit,
    /// Download `url` into `outfile`.
    Get { url: String, outfile: String },
}

/// `r` is the command that the words of a line give: the first word is the
/// address (`quit` when there is none), the second, when present, the file.
pub open spec fn command_of(r: Command, words: Seq<Seq<char>>, default_outfile: Seq<char>) -> bool {
    let url = if words.len() > 0 { words[0] } else { "quit"@ };
    let outfile = if words.len() > 1 { words[1] } else { default_outfile };
    if url == "quit"@ || url == "q"@ {
        r is Quit
    } else {
        r matches Command::Get { url: u, outfile: o } && u@ == url && o@ == outfile
    }
}

/// The command that `words`, the words of one line, give.
pub fn command_from_words(words: &Vec<String>, default_outfile: &str) -> (r: Command)
    ensures
        command_of(r, words.deep_view(), default_outfile@),
{
    if words.len() == 0 {
        return Command::Quit;
    }
    let url = &words[0];
    assert(url@ == words.deep_view()[0]);
    if same_text(url.as_str(), "quit") || same_text(url.as_str(), "q") {
        return Command::Quit;
    }
    let outfile = if words.len() > 1 {
        assert(words[1]@ == words.deep_view()[1]);
        words[1].clone()
    } else {
        default_outfile.to_owned()
    };
    Command::Get { url: url.clone(), outfile }
}

/// The command that a line of input gives; `default_outfile` is the file
/// used when the line names none.
pub fn parse_command(line: &str, default_outfile: &str) -> (r: Command)
    ensures
        command_of(r, words_of(line@), default_outfile@),
{
    let words = split_words(line);
    command_from_words(&words, default_outfile)
}

} // verus!
