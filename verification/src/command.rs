//! Parsing of user input: chat client commands and the command-line tools'
//! `<operation> <text>` form.

use crate::errors::ClientError;
use crate::ops::{csv_parse_of, format_spec, table_spec, Operation};
use vstd::prelude::*;
use vstd::string::StrSliceExecFns;

verus! {

broadcast use vstd::string::group_string_axioms;

/// Whether `i` is the position of the first space of `s`.
pub open spec fn is_first_space(s: Seq<char>, i: int) -> bool {
    &&& 0 <= i < s.len()
    &&& s[i] == ' '
    &&& forall|j: int| 0 <= j < i ==> s[j] != ' '
}

/// Splits at the first space: the part before it and the part after it.
/// Without a space, the whole input and the empty string.
pub fn split_first_space(s: &str) -> (r: (String, String))
    ensures
        (exists|i: int| is_first_space(s@, i)) ==> exists|i: int|
            {
                &&& #[trigger] is_first_space(s@, i)
                &&& r.0@ == s@.take(i)
                &&& r.1@ == s@.skip(i + 1)
            },
        !(exists|i: int| is_first_space(s@, i)) ==> r.0@ == s@ && r.1@ == Seq::<char>::empty(),
{
    let n = s.unicode_len();
    let mut i: usize = 0;
    while i < n
        invariant
            n == s@.len(),
            i <= n,
            forall|j: int| 0 <= j < i ==> s@[j] != ' ',
        decreases n - i,
    {
        if s.get_char(i) == ' ' {
            let head = s.substring_char(0, i).to_owned();
            let tail = s.substring_char(i + 1, n).to_owned();
            proof {
                assert(is_first_space(s@, i as int));
                assert(head@ =~= s@.take(i as int));
                assert(tail@ =~= s@.skip(i + 1));
            }
            return (head, tail);
        }
        i += 1;
    }
    let whole = s.to_owned();
    (whole, String::new())
}

/// A chat client command, parsed from one input line.
pub enum Command {
    /// Plain chat text to send.
    Text(String),
    /// Send the file at this path.
    File(String),
    /// Send the image at this path.
    Image(String),
    /// Leave the chat.
    Quit,
}

impl Command {
    /// Parses one input line: a leading `.file`, `.image` or `.quit` token
    /// selects a command, anything else is chat text.
    pub fn from_str(s: &str) -> (r: Result<Command, ClientError>)
        ensures
            r is Ok,
            ({
                let (head, tail) = spec_split(s@);
                match r {
                    Ok(c) => if head == ".file"@ {
                        c matches Command::File(p) && p@ == tail
                    } else if head == ".image"@ {
                        c matches Command::Image(p) && p@ == tail
                    } else if head == ".quit"@ {
                        c is Quit
                    } else {
                        c matches Command::Text(t) && t@ == s@
                    },
                    Err(_) => false,
                }
            }),
    {
        proof {
            reveal_strlit(".file");
            reveal_strlit(".image");
            reveal_strlit(".quit");
            assert(".file"@.len() == 5 && ".file"@[1] == 'f');
            assert(".image"@.len() == 6 && ".image"@[1] == 'i');
            assert(".quit"@.len() == 5 && ".quit"@[1] == 'q');
            lemma_spec_split(s@);
        }
        let (head, tail) = split_first_space(s);
        proof {
            assert(head@ == spec_split(s@).0 && tail@ == spec_split(s@).1);
        }
        if crate::strutil::str_eq(head.as_str(), ".file") {
            Ok(Command::File(tail))
        } else if crate::strutil::str_eq(head.as_str(), ".image") {
            Ok(Command::Image(tail))
        } else if crate::strutil::str_eq(head.as_str(), ".quit") {
            Ok(Command::Quit)
        } else {
            Ok(Command::Text(s.to_owned()))
        }
    }
}

/// The unique split of `s` at its first space, or the whole input and the
/// empty string when it has none.
pub open spec fn spec_split(s: Seq<char>) -> (Seq<char>, Seq<char>) {
    if exists|i: int| is_first_space(s, i) {
        let i = choose|i: int| is_first_space(s, i);
        (s.take(i), s.skip(i + 1))
    } else {
        (s, Seq::empty())
    }
}

/// The first space of a string is unique, so the split is well defined.
pub proof fn lemma_spec_split(s: Seq<char>)
    ensures
        forall|i: int| #[trigger]
            is_first_space(s, i) ==> spec_split(s).0 == s.take(i) && spec_split(s).1 == s.skip(
                i + 1,
            ),
{
    assert forall|i: int| #[trigger] is_first_space(s, i) implies spec_split(s).0 == s.take(i)
        && spec_split(s).1 == s.skip(i + 1) by {
        let j = choose|j: int| is_first_space(s, j);
        if i < j {
            assert(s[i] != ' ');
        }
        if j < i {
            assert(s[j] != ' ');
        }
    }
}

/// Parses an interactive `<operation> <text>` line: the first token names
/// the operation, the rest is the text to format.
pub fn parse_params(args: &str) -> (r: Result<(Operation, String), String>)
    ensures
        ({
            let (head, tail) = spec_split(args@);
            match r {
                Ok((op, text)) => Operation::try_from_spec_accepts(head) == Some(op) && text@
                    == tail,
                Err(_) => Operation::try_from_spec_accepts(head) is None,
            }
        }),
{
    proof {
        lemma_spec_split(args@);
    }
    let (head, tail) = split_first_space(args);
    proof {
        assert(head@ == spec_split(args@).0 && tail@ == spec_split(args@).1);
    }
    match Operation::try_from(head.as_str()) {
        Ok(op) => Ok((op, tail)),
        Err(e) => Err(e),
    }
}

/// Formats one line of input with the named operation: the command-line
/// tool's whole computation for one run.
pub fn run(arg: &str, text: &str) -> (r: Result<String, String>)
    ensures
        ({
            match Operation::try_from_spec_accepts(arg@) {
                Some(op) => {
                    &&& (format_spec(op, text@) matches Some(expect) ==> r matches Ok(s) && s@
                        == expect)
                    &&& (op == Operation::Random ==> r is Ok)
                    &&& (op == Operation::Csv ==> match csv_parse_of(text@) {
                        Some(parsed) => r matches Ok(s) && s@ == table_spec(parsed.0, parsed.1),
                        None => r is Err,
                    })
                },
                None => r is Err,
            }
        }),
{
    let operation = match Operation::try_from(arg) {
        Ok(op) => op,
        Err(e) => {
            return Err(e);
        },
    };
    operation.format(text)
}

} // verus!
