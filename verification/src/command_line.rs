//! What the command line says, word by word, and the password it asks for.
//!
//! The words `help`, `benchmark`, `length`, `hashes` and `debug` are keywords.
//! The first word that is none of them is the program's name. After `length`
//! the next such word is the length, after `hashes` it is the repetition
//! count, and any other is not understood.
use crate::chunk::seed_bytes;
use crate::encoding::all_in_alphabet;
use crate::error::DeriveError;
use crate::hashing_arguments::{autohash, password};
use crate::number::{parse_u32, parsed_u32};
use vstd::prelude::*;

verus! {

/// Why the words were not read to the end.
#[derive(Debug, PartialEq, Eq)]
pub enum Halt {
    /// The word `help` asks for the help text.
    Help,
    /// The word that stands for the length is no number.
    Length(String),
    /// The word that stands for the repetition count is no number.
    Count(String),
    /// The word is not understood.
    Argument(String),
}

/// A `Halt` with its word as a sequence of characters.
pub enum HaltView {
    Help,
    Length(Seq<char>),
    Count(Seq<char>),
    Argument(Seq<char>),
}

impl View for Halt {
    type V = HaltView;

    open spec fn view(&self) -> HaltView {
        match *self {
            Halt::Help => HaltView::Help,
            Halt::Length(word) => HaltView::Length(word@),
            Halt::Count(word) => HaltView::Count(word@),
            Halt::Argument(word) => HaltView::Argument(word@),
        }
    }
}

/// What the words read so far have said.
pub struct Told {
    /// The program's name; empty until it has been named.
    pub name: Seq<char>,
    /// The seed; empty while none has been named.
    pub seed: Seq<char>,
    /// The length; zero while the word for it is awaited.
    pub length: u32,
    /// The repetition count; zero while the word for it is awaited.
    pub hashes: u32,
    /// Whether the length of the password is to be reported.
    pub debug: bool,
}

/// What is taken for said before the first word: 32 characters and one
/// repetition.
pub open spec fn told_at_first() -> Told {
    Told { name: Seq::empty(), seed: Seq::empty(), length: 32, hashes: 1, debug: false }
}

/// What one more word makes of what has been said.
pub open spec fn told_by(told: Told, word: Seq<char>) -> Result<Told, HaltView> {
    if word == "help"@ {
        Err(HaltView::Help)
    } else if word == "benchmark"@ {
        Ok(Told { seed: "benchmark"@, ..told })
    } else if word == "length"@ {
        Ok(Told { length: 0, ..told })
    } else if word == "hashes"@ {
        Ok(Told { hashes: 0, ..told })
    } else if word == "debug"@ {
        Ok(Told { debug: true, ..told })
    } else if told.name.len() == 0 {
        Ok(Told { name: word, ..told })
    } else if told.length == 0 {
        match parsed_u32(word) {
            Some(length) => Ok(Told { length, ..told }),
            None => Err(HaltView::Length(word)),
        }
    } else if told.hashes == 0 {
        match parsed_u32(word) {
            Some(hashes) => Ok(Told { hashes, ..told }),
            None => Err(HaltView::Count(word)),
        }
    } else {
        Err(HaltView::Argument(word))
    }
}

/// What the words `words` make of what has been said, read from the first to
/// the last or to the first word that halts.
pub open spec fn told_after(told: Told, words: Seq<Seq<char>>) -> Result<Told, HaltView>
    decreases words.len(),
{
    if words.len() == 0 {
        Ok(told)
    } else {
        match told_by(told, words.first()) {
            Ok(next) => told_after(next, words.drop_first()),
            Err(halt) => Err(halt),
        }
    }
}

/// The words of a command line as sequences of characters.
pub open spec fn words_of(args: Seq<String>) -> Seq<Seq<char>> {
    Seq::new(args.len(), |i: int| args[i]@)
}

/// Reads the words of a command line, the program's name among them. What
/// comes back is the program's name, the seed, the length, the repetition
/// count, and whether the length of the password is to be reported. The seed
/// is empty where no word has named one: it is then for the caller to ask for
/// it.
pub fn process_args(args: Vec<String>) -> (processed: Result<
    (String, String, u32, u32, bool),
    Halt,
>)
    ensures
        match told_after(told_at_first(), words_of(args@)) {
            Ok(told) => processed matches Ok(said) && said.0@ == told.name && said.1@ == told.seed
                && said.2 == told.length && said.3 == told.hashes && said.4 == told.debug,
            Err(halt) => processed matches Err(stopped) && stopped@ == halt,
        },
{
    let help = String::from_str("help");
    let benchmark = String::from_str("benchmark");
    let length_word = String::from_str("length");
    let hashes_word = String::from_str("hashes");
    let debug_word = String::from_str("debug");
    let mut name = String::new();
    let mut seed = String::new();
    let mut length: u32 = 32;
    let mut hashes: u32 = 1;
    let mut debug = false;
    let ghost words = words_of(args@);
    let mut at: usize = 0;
    assert(words.skip(0) =~= words);
    while at < args.len()
        invariant
            at <= args@.len(),
            words == words_of(args@),
            help@ == "help"@,
            benchmark@ == "benchmark"@,
            length_word@ == "length"@,
            hashes_word@ == "hashes"@,
            debug_word@ == "debug"@,
            told_after(told_at_first(), words) == told_after(
                Told { name: name@, seed: seed@, length, hashes, debug },
                words.skip(at as int),
            ),
        decreases args@.len() - at,
    {
        let argument = &args[at];
        proof {
            assert(words.skip(at as int).first() == argument@);
            assert(words.skip(at as int).drop_first() =~= words.skip(at + 1));
        }
        if *argument == help {
            return Err(Halt::Help);
        } else if *argument == benchmark {
            seed = benchmark.clone();
        } else if *argument == length_word {
            length = 0;
        } else if *argument == hashes_word {
            hashes = 0;
        } else if *argument == debug_word {
            debug = true;
        } else if name.as_str().is_empty() {
            name = argument.clone();
        } else if length == 0 {
            match parse_u32(argument.as_str()) {
                Some(number) => {
                    length = number;
                },
                None => {
                    return Err(Halt::Length(argument.clone()));
                },
            }
        } else if hashes == 0 {
            match parse_u32(argument.as_str()) {
                Some(number) => {
                    hashes = number;
                },
                None => {
                    return Err(Halt::Count(argument.clone()));
                },
            }
        } else {
            return Err(Halt::Argument(argument.clone()));
        }
        at = at + 1;
    }
    Ok((name, seed, length, hashes, debug))
}

/// The password that a command line asks for, hashed by one worker. Of what
/// `process_args` gives, the seed, the length and the repetition count are
/// read; the other two are for the caller.
pub fn hash_base94(args: (String, String, u32, u32, bool)) -> (derived: Result<String, DeriveError>)
    ensures
        args.2 == 0 ==> derived == Err::<String, DeriveError>(DeriveError::InvalidParameter),
        args.2 >= 1 ==> (derived matches Ok(text) && text@ == password(
            seed_bytes(args.1@),
            args.2 as nat,
            args.3 as nat,
            1,
        ) && text@.len() <= args.2 && all_in_alphabet(text@)),
{
    let (_prog_name, seed, length, hashes, _debug) = args;
    autohash(seed, hashes as u64, length as u64, 1)
}

} // verus!
