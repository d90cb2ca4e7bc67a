//! Commands: what a decoded query asks for, and where it leads.
use crate::codec::{
    decoded_query, encode_pair, encoded_text, form_encoded, lemma_encoded_query_decodes, SPACE,
};
use crate::text::{
    ascii_text, lemma_ascii_prefix_of_bytes, lemma_ascii_prefix_of_text,
    lemma_encoding_is_injective,
};
use vstd::prelude::*;
use vstd::std_specs::convert::FromSpecImpl;
use vstd::string::*;
use vstd::utf8::*;

verus! {

/// The address of GitHub, without a trailing slash.
pub const GITHUB: &'static str = "https://github.com";

/// The address of Google's search, without a query.
pub const GOOGLE_SEARCH: &'static str = "https://google.com/search";

/// The ASCII `g`.
pub const LOWER_G: u8 = 0x67;

/// The ASCII `h`.
pub const LOWER_H: u8 = 0x68;

/// What the user asked for.
#[derive(Debug, Clone, PartialEq, Eq)]
pub enum Command {
    /// Go to GitHub, or to the given path on it.
    Github(Option<String>),
    /// Search the web for the given text.
    Google(String),
}

/// A command as plain text.
pub enum CommandView {
    Github(Option<Seq<char>>),
    Google(Seq<char>),
}

impl View for Command {
    type V = CommandView;

    open spec fn view(&self) -> CommandView {
        match self {
            Command::Github(Some(repo)) => CommandView::Github(Some(repo@)),
            Command::Github(None) => CommandView::Github(None),
            Command::Google(query) => CommandView::Google(query@),
        }
    }
}

/// The keyword that selects GitHub.
pub open spec fn github_keyword() -> Seq<char> {
    seq!['g', 'h']
}

/// Whether `text` begins with the GitHub keyword and a space.
pub open spec fn has_github_argument(text: Seq<char>) -> bool {
    text.len() >= 3 && text.subrange(0, 3) == github_keyword().push(' ')
}

/// The command that a text stands for: `gh` alone is GitHub, `gh` and a
/// space is GitHub with all that follows the space, and anything else is a
/// search for the whole text.
pub open spec fn parsed(text: Seq<char>) -> CommandView {
    if text == github_keyword() {
        CommandView::Github(None)
    } else if has_github_argument(text) {
        CommandView::Github(Some(text.skip(3)))
    } else {
        CommandView::Google(text)
    }
}

/// The length of the keyword of `text`: the number of characters in front of
/// its first space, or all of them where it has no space.
pub open spec fn keyword_len(text: Seq<char>) -> nat
    decreases text.len(),
{
    if text.len() == 0 || text[0] == ' ' {
        0
    } else {
        1 + keyword_len(text.skip(1))
    }
}

/// The keyword of `text`: what stands in front of its first space.
pub open spec fn keyword(text: Seq<char>) -> Seq<char> {
    text.subrange(0, keyword_len(text) as int)
}

/// The argument of `text`: what follows its first space, where it has one.
pub open spec fn argument(text: Seq<char>) -> Option<Seq<char>> {
    if keyword_len(text) < text.len() {
        Some(text.skip(keyword_len(text) as int + 1))
    } else {
        None
    }
}

/// The command that a text stands for, told by its keyword.
pub open spec fn dispatched(text: Seq<char>) -> CommandView {
    if keyword(text) == github_keyword() {
        CommandView::Github(argument(text))
    } else {
        CommandView::Google(text)
    }
}

/// The destination of a command. The repository path is written as it is;
/// the search text is form-encoded into the parameter `q`.
pub open spec fn location(command: CommandView) -> Seq<char> {
    match command {
        CommandView::Github(Some(repo)) => GITHUB@ + seq!['/'] + repo,
        CommandView::Github(None) => GITHUB@,
        CommandView::Google(query) => GOOGLE_SEARCH@ + seq!['?', 'q', '='] + encoded_text(query),
    }
}

/// The index of the first space among `bytes`, if there is one.
fn first_space(bytes: &[u8]) -> (at: Option<usize>)
    ensures
        match at {
            Some(i) => {
                &&& i < bytes.len()
                &&& bytes[i as int] == SPACE
                &&& forall|j: int| 0 <= j < i ==> bytes[j] != SPACE
            },
            None => forall|j: int| 0 <= j < bytes.len() ==> bytes[j] != SPACE,
        },
{
    let mut i: usize = 0;
    while i < bytes.len()
        invariant
            i <= bytes.len(),
            forall|j: int| 0 <= j < i ==> bytes[j] != SPACE,
        decreases bytes.len() - i,
    {
        if bytes[i] == SPACE {
            return Some(i);
        }
        i += 1;
    }
    None
}

impl Command {
    /// Reads a command from decoded query text.
    ///
    /// The text up to the first space is the keyword. Only the keyword `gh`,
    /// in lower case, is known; what follows its space, further spaces
    /// included, is the repository path. Under any other keyword the whole
    /// text is searched for.
    pub fn parse(text: &str) -> (command: Command)
        ensures
            command@ == parsed(text@),
            text@ != github_keyword() && !has_github_argument(text@) ==> command@
                == CommandView::Google(text@),
    {
        let bytes = text.as_bytes();
        let end = first_space(bytes);
        let stop: usize = match end {
            Some(e) => e,
            None => bytes.len(),
        };
        if stop == 2 && bytes[0] == LOWER_G && bytes[1] == LOWER_H {
            match end {
                Some(e) => {
                    proof {
                        lemma_ascii_prefix_of_bytes(text@, 3);
                        assert(text@.subrange(0, 3) =~= github_keyword().push(' '));
                    }
                    let (_, rest) = text.split_at(e + 1);
                    proof {
                        assert(bytes@.subrange(3, bytes@.len() as int) =~= bytes@.skip(3));
                        lemma_encoding_is_injective(rest@, text@.skip(3));
                    }
                    Command::Github(Some(rest.to_owned()))
                },
                None => {
                    proof {
                        lemma_ascii_prefix_of_bytes(text@, 2);
                        assert(bytes@.skip(2) =~= Seq::<u8>::empty());
                        lemma_encoding_is_injective(text@.skip(2), Seq::<char>::empty());
                        assert(text@ =~= github_keyword());
                    }
                    Command::Github(None)
                },
            }
        } else {
            proof {
                if text@ == github_keyword() {
                    lemma_ascii_prefix_of_text(text@, 2);
                    assert(text@.skip(2) =~= Seq::<char>::empty());
                    assert(bytes@.skip(2).len() == 0);
                    assert(bytes@[0] == LOWER_G && bytes@[1] == LOWER_H);
                    assert(false);
                }
                if has_github_argument(text@) {
                    assert(text@[0] == text@.subrange(0, 3)[0]);
                    assert(text@[1] == text@.subrange(0, 3)[1]);
                    assert(text@[2] == text@.subrange(0, 3)[2]);
                    lemma_ascii_prefix_of_text(text@, 3);
                    assert(bytes@[0] == LOWER_G && bytes@[1] == LOWER_H && bytes@[2] == SPACE);
                    assert(false);
                }
            }
            Command::Google(text.to_owned())
        }
    }

    /// The absolute URL that the command leads to.
    ///
    /// Every command has one: GitHub or a path on it, or a Google search
    /// whose parameter `q` is the form-encoded query.
    pub fn to_location(&self) -> (url: String)
        ensures
            url@ == location(self@),
    {
        match self {
            Command::Github(Some(repo)) => {
                proof {
                    reveal_strlit("/");
                }
                String::from_str(GITHUB).concat("/").concat(repo.as_str())
            },
            Command::Github(None) => String::from_str(GITHUB),
            Command::Google(query) => {
                let pair = encode_pair("q", query.as_str());
                proof {
                    reveal_strlit("q");
                    reveal_strlit("?");
                    lemma_name_is_kept();
                    assert("q"@ =~= seq!['q']);
                    assert("?"@ =~= seq!['?']);
                    assert(pair@ =~= seq!['q', '='] + encoded_text(query@));
                    assert(GOOGLE_SEARCH@ + "?"@ + pair@ =~= location(self@));
                }
                String::from_str(GOOGLE_SEARCH).concat("?").concat(pair.as_str())
            },
        }
    }
}

/// The parameter name `q` is written as it is.
proof fn lemma_name_is_kept()
    ensures
        encoded_text(seq!['q']) == seq!['q'],
{
    let name = seq!['q'];
    is_ascii_chars_encode_utf8(name);
    let bytes = encode_utf8(name);
    assert(bytes[0] == name[0] as u8);
    assert(bytes =~= seq![0x71u8]);
    reveal_with_fuel(form_encoded, 2);
    assert(form_encoded(bytes) =~= seq![0x71u8]);
    assert(ascii_text(form_encoded(bytes)) =~= name);
}

impl<'a> FromSpecImpl<&'a str> for Command {
    /// The conversion is specified through the view of its result: two
    /// strings of the same text are not the same value, so no command can
    /// be named here as the one that comes back.
    open spec fn obeys_from_spec() -> bool {
        false
    }

    open spec fn from_spec(text: &'a str) -> Command {
        arbitrary()
    }
}

impl<'a> From<&'a str> for Command {
    fn from(text: &'a str) -> (command: Command)
        ensures
            command@ == parsed(text@),
            text@ != github_keyword() && !has_github_argument(text@) ==> command@
                == CommandView::Google(text@),
    {
        Command::parse(text)
    }
}

/// The keyword ends at the first space: no character of it is a space, and
/// where the text goes on, a space follows it.
pub proof fn lemma_keyword_ends_at_first_space(text: Seq<char>)
    ensures
        keyword_len(text) <= text.len(),
        forall|i: int| 0 <= i < keyword_len(text) ==> text[i] != ' ',
        keyword_len(text) < text.len() ==> text[keyword_len(text) as int] == ' ',
    decreases text.len(),
{
    if text.len() > 0 && text[0] != ' ' {
        let tail = text.skip(1);
        lemma_keyword_ends_at_first_space(tail);
        assert forall|i: int| 0 <= i < keyword_len(text) implies text[i] != ' ' by {
            if i > 0 {
                assert(tail[i - 1] != ' ');
            }
        }
        if keyword_len(text) < text.len() {
            assert(tail[keyword_len(tail) as int] == ' ');
        }
    }
}

/// The keyword is the only stretch in front of a space that holds none: a
/// text with a space at `end` and none before it has the keyword length
/// `end`, and a text without a space is its own keyword.
pub proof fn lemma_keyword_len_is_first_space(text: Seq<char>, end: int)
    requires
        0 <= end <= text.len(),
        forall|i: int| 0 <= i < end ==> text[i] != ' ',
        end < text.len() ==> text[end] == ' ',
    ensures
        keyword_len(text) == end,
{
    lemma_keyword_ends_at_first_space(text);
    let k = keyword_len(text) as int;
    if k < end {
        assert(text[k] == ' ');
    } else if end < k {
        assert(text[end] != ' ');
    }
}

/// Reading a command is first-token dispatch: the keyword `gh` selects
/// GitHub, with what follows the first space as its argument, and under
/// every other keyword the whole text is searched for.
pub proof fn lemma_parsed_is_dispatched(text: Seq<char>)
    ensures
        parsed(text) == dispatched(text),
{
    let gh = github_keyword();
    lemma_keyword_ends_at_first_space(text);
    if text == gh {
        lemma_keyword_len_is_first_space(text, 2);
        assert(keyword(text) =~= gh);
    } else if has_github_argument(text) {
        assert(text[0] == text.subrange(0, 3)[0]);
        assert(text[1] == text.subrange(0, 3)[1]);
        assert(text[2] == text.subrange(0, 3)[2]);
        lemma_keyword_len_is_first_space(text, 2);
        assert(keyword(text) =~= gh);
    } else if keyword(text) == gh {
        assert(keyword(text).len() == 2);
        assert(keyword(text)[0] == 'g' && keyword(text)[1] == 'h');
        if text.len() == 2 {
            assert(text =~= gh);
        } else {
            assert(text.subrange(0, 3) =~= gh.push(' '));
        }
    }
}

/// Whatever is not `gh` alone and does not begin with `gh` and a space is
/// searched for as it stands.
pub proof fn lemma_other_text_is_searched(text: Seq<char>)
    requires
        text != github_keyword(),
        !has_github_argument(text),
    ensures
        parsed(text) == CommandView::Google(text),
{
}

/// The repository path of a GitHub command is all that follows the first
/// space, further spaces included.
pub proof fn lemma_github_argument_is_verbatim(rest: Seq<char>)
    ensures
        parsed(github_keyword().push(' ') + rest) == CommandView::Github(Some(rest)),
{
    let text = github_keyword().push(' ') + rest;
    assert(text.subrange(0, 3) =~= github_keyword().push(' '));
    assert(text.skip(3) =~= rest);
}

/// The prefix of every search destination: all that stands in front of the
/// encoded query.
pub open spec fn search_prefix() -> Seq<char> {
    GOOGLE_SEARCH@ + seq!['?', 'q', '=']
}

/// The destination of a search is the search prefix and the value of its
/// parameter `q`, and that value decodes to the query it was made from,
/// whatever the query.
pub proof fn lemma_search_location_round_trip(query: Seq<char>)
    ensures
        location(CommandView::Google(query)).subrange(0, search_prefix().len() as int)
            == search_prefix(),
        decoded_query(location(CommandView::Google(query)).skip(search_prefix().len() as int))
            == Some(query),
{
    let url = location(CommandView::Google(query));
    let n = search_prefix().len() as int;
    assert(url =~= search_prefix() + encoded_text(query));
    assert(url.subrange(0, n) =~= search_prefix());
    assert(url.skip(n) =~= encoded_text(query));
    lemma_encoded_query_decodes(query);
}

} // verus!
