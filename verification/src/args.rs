//! Reading the command line: which statistics are asked for, and of which
//! file.

use vstd::prelude::*;
use vstd::string::*;
use crate::options::WcOptions;

verus! {

/// What one token of the command line means.
#[derive(Debug, Clone, Copy, PartialEq, Eq, Structural)]
pub enum Token {
    /// `-l`: count lines.
    Lines,
    /// `-w`: count words.
    Words,
    /// `-c`: count bytes.
    Bytes,
    /// `-m`: count characters.
    Chars,
    /// Another token that begins with `-`.
    UnknownFlag,
    /// Any other token: the path of the input file.
    Path,
}

/// Why a command line is refused.
#[derive(Debug, Clone, Copy, PartialEq, Eq, Structural)]
pub enum ArgsError {
    /// There is no token at all, not even the program's name.
    NoArguments,
    /// The token at this index begins with `-` and is none of the four
    /// flags.
    UnknownFlag(usize),
}

/// What a command line asks for.
#[derive(Debug, Clone, Copy, PartialEq, Eq, Structural)]
pub struct Invocation {
    /// The statistics to gather.
    pub options: WcOptions,
    /// The index of the token that names the input file. Without one, the
    /// input is the standard input.
    pub file: Option<usize>,
}

/// The meaning of `token`.
pub open spec fn token_kind(token: Seq<char>) -> Token {
    if token =~= seq!['-', 'l'] {
        Token::Lines
    } else if token =~= seq!['-', 'w'] {
        Token::Words
    } else if token =~= seq!['-', 'c'] {
        Token::Bytes
    } else if token =~= seq!['-', 'm'] {
        Token::Chars
    } else if token.len() > 0 && token[0] == '-' {
        Token::UnknownFlag
    } else {
        Token::Path
    }
}

/// Whether a token after the program's name, before index `end`, means
/// `kind`.
pub open spec fn mentions(args: Seq<String>, end: int, kind: Token) -> bool {
    exists|i: int| 1 <= i < end && i < args.len() && token_kind(#[trigger] args[i]@) == kind
}

/// The statistics that the flags before index `end` select.
pub open spec fn flagged(args: Seq<String>, end: int) -> WcOptions {
    WcOptions {
        count_lines: mentions(args, end, Token::Lines),
        count_words: mentions(args, end, Token::Words),
        count_bytes: mentions(args, end, Token::Bytes),
        count_chars: mentions(args, end, Token::Chars),
    }
}

/// The statistics to gather where the flags select `flags`: those, or all
/// four where the flags select none.
pub open spec fn or_all(flags: WcOptions) -> WcOptions {
    if !flags.count_lines && !flags.count_words && !flags.count_bytes && !flags.count_chars {
        WcOptions::spec_all()
    } else {
        flags
    }
}

/// The index of the last path before index `end`, if there is a path.
pub open spec fn last_path(args: Seq<String>, end: int) -> Option<usize>
    decreases end,
{
    if end <= 1 || end > args.len() {
        None
    } else if token_kind(args[end - 1]@) == Token::Path {
        Some((end - 1) as usize)
    } else {
        last_path(args, end - 1)
    }
}

/// Tells what `token` means.
pub fn classify(token: &str) -> (kind: Token)
    ensures
        kind == token_kind(token@),
{
    let len = token.unicode_len();
    if len == 0 {
        return Token::Path;
    }
    let first = token.get_char(0);
    if first != '-' {
        return Token::Path;
    }
    if len != 2 {
        return Token::UnknownFlag;
    }
    let second = token.get_char(1);
    if second == 'l' {
        Token::Lines
    } else if second == 'w' {
        Token::Words
    } else if second == 'c' {
        Token::Bytes
    } else if second == 'm' {
        Token::Chars
    } else {
        Token::UnknownFlag
    }
}

/// Reads the command line `args`, whose first token is the program's name.
///
/// Each of `-l`, `-w`, `-c` and `-m` selects a statistic; where none of
/// them occurs, all four are selected. Another token that begins with `-`
/// is refused, the first such one by its index. Of the other tokens the
/// last one names the input file.
pub fn parse_args(args: &Vec<String>) -> (r: Result<Invocation, ArgsError>)
    ensures
        match r {
            Err(ArgsError::NoArguments) => args@.len() == 0,
            Err(ArgsError::UnknownFlag(i)) => {
                &&& 1 <= i < args@.len()
                &&& token_kind(args@[i as int]@) == Token::UnknownFlag
                &&& !mentions(args@, i as int, Token::UnknownFlag)
            },
            Ok(invocation) => {
                &&& args@.len() > 0
                &&& !mentions(args@, args@.len() as int, Token::UnknownFlag)
                &&& invocation.options == or_all(flagged(args@, args@.len() as int))
                &&& invocation.file == last_path(args@, args@.len() as int)
            },
        },
{
    if args.len() == 0 {
        return Err(ArgsError::NoArguments);
    }
    let mut options = WcOptions::new();
    let mut file: Option<usize> = None;
    let mut i: usize = 1;
    while i < args.len()
        invariant
            1 <= i <= args.len(),
            !mentions(args@, i as int, Token::UnknownFlag),
            options == flagged(args@, i as int),
            file == last_path(args@, i as int),
        decreases args.len() - i,
    {
        let kind = classify(args[i].as_str());
        let ghost seen = flagged(args@, i as int);
        assert(forall|k: Token|
            mentions(args@, i + 1, k) <==> mentions(args@, i as int, k) || k == kind);
        match kind {
            Token::Lines => {
                options.count_lines = true;
            },
            Token::Words => {
                options.count_words = true;
            },
            Token::Bytes => {
                options.count_bytes = true;
            },
            Token::Chars => {
                options.count_chars = true;
            },
            Token::UnknownFlag => {
                return Err(ArgsError::UnknownFlag(i));
            },
            Token::Path => {
                file = Some(i);
            },
        }
        i = i + 1;
    }
    if options.is_empty() {
        options = WcOptions::all();
    }
    Ok(Invocation { options, file })
}

} // verus!
