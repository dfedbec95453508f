//! The block structure of version information, and when a reader can walk it.
//!
//! Version information is a tree of blocks of 16-bit words. A block starts with its
//! length in bytes, the length of its value and a type, then comes a nul-terminated
//! key, and after padding the value and the blocks below it. The reader in `pelite`
//! skips over the key and its padding without a look at the block's length. A block
//! that ends with the terminator of a key of odd length has no room for the padding:
//! the reader runs over its end and panics. The predicates below tell the version
//! information on which no walk of the reader meets such a block.
use crate::buffer::lesser;
use vstd::prelude::*;
use vstd::slice::slice_subrange;

verus! {

/// The unit of the value length that a block gives.
#[derive(Debug, Clone, Copy, PartialEq, Eq, Structural)]
pub enum ValueLength {
    /// The block has no value, and says so.
    Zero,
    Bytes,
    Words,
}

/// What the reader makes of the first block of some words.
pub enum Step {
    /// The words do not start with a block. The reader goes no further.
    Stop,
    /// The padding behind the key does not fit in the block.
    Overrun,
    /// A block with its key, with the words of the blocks below it and with the words
    /// that follow it.
    Block { key: Seq<u16>, children: Seq<u16>, rest: Seq<u16> },
}

/// `n`, or the next number where `n` is odd.
pub open spec fn even_from(n: int) -> int {
    n + n % 2
}

/// The place of the first zero word, or the number of words where there is none.
pub open spec fn first_nul(words: Seq<u16>) -> int
    decreases words.len(),
{
    if words.len() == 0 || words[0] == 0 {
        0
    } else {
        1 + first_nul(words.drop_first())
    }
}

/// The length in words of the block that starts at the first word.
pub open spec fn block_length(words: Seq<u16>) -> int {
    if words[0] / 2 < 4 {
        4
    } else {
        words[0] as int / 2
    }
}

/// The length in words of the value of the block that starts at the first word.
pub open spec fn value_length(words: Seq<u16>, unit: ValueLength) -> int {
    match unit {
        ValueLength::Zero => 0,
        ValueLength::Bytes => words[1] as int / 2,
        ValueLength::Words => words[1] as int,
    }
}

/// The first block of `words`.
pub open spec fn first_block(words: Seq<u16>, unit: ValueLength) -> Step {
    if words.len() < 4 || (unit == ValueLength::Zero && words[1] != 0) || block_length(words)
        > words.len() {
        Step::Stop
    } else {
        let length = block_length(words);
        let key_length = first_nul(words.subrange(3, length));
        let body = even_from(key_length) + 4;
        let value = value_length(words, unit);
        if key_length == length - 3 {
            Step::Stop
        } else if body > length {
            Step::Overrun
        } else if value > length - body {
            Step::Stop
        } else {
            Step::Block {
                key: words.subrange(3, 3 + key_length),
                children: words.subrange(body + lesser(even_from(value), length - body), length),
                rest: words.skip(lesser(even_from(length), words.len() as int)),
            }
        }
    }
}

/// No block among the consecutive blocks of `words` overruns.
pub open spec fn run_fits(words: Seq<u16>, unit: ValueLength) -> bool
    decreases words.len(),
{
    match first_block(words, unit) {
        Step::Stop => true,
        Step::Overrun => false,
        Step::Block { key, children, rest } => run_fits(rest, unit),
    }
}

/// The key of the block that lists the languages.
pub open spec fn is_var_file_info(key: Seq<u16>) -> bool {
    key =~= seq![86u16, 97, 114, 70, 105, 108, 101, 73, 110, 102, 111]
}

/// The key of the block that holds the tables of strings.
pub open spec fn is_string_file_info(key: Seq<u16>) -> bool {
    key =~= seq![83u16, 116, 114, 105, 110, 103, 70, 105, 108, 101, 73, 110, 102, 111]
}

/// What a character stands for as a hexadecimal digit. One that is no such digit counts by
/// its distance from the digits, cut to sixteen bits.
pub open spec fn hex_digit(word: u16) -> u16 {
    if word >= 97 {
        (word - 87) as u16
    } else if word >= 65 {
        (word - 55) as u16
    } else {
        (word - 48) as u16
    }
}

/// What four characters stand for as a hexadecimal number.
pub open spec fn hex_number(key: Seq<u16>, at: int) -> u16 {
    (hex_digit(key[at]) << 12u16) | (hex_digit(key[at + 1]) << 8u16) | (hex_digit(key[at + 2])
        << 4u16) | hex_digit(key[at + 3])
}

/// The language that the key of a table of strings names: the numbers of the language and
/// of the character set, of four hexadecimal digits each.
pub open spec fn language_of(key: Seq<u16>) -> Option<(u16, u16)> {
    if key.len() == 8 {
        Some((hex_number(key, 0), hex_number(key, 4)))
    } else {
        None
    }
}

/// `pelite::resources::version_info::Language::parse`: a key of eight characters names a
/// language, and no other does.
#[verifier::external_body]
fn parse_language(key: &[u16]) -> (language: Option<(u16, u16)>)
    ensures
        language == language_of(key@),
{
    match pelite::resources::version_info::Language::parse(key) {
        Ok(language) => Some((language.lang_id, language.charset_id)),
        Err(_) => None,
    }
}

/// A walk for the languages fits, over the blocks below the root.
pub open spec fn var_infos_fit(words: Seq<u16>) -> bool
    decreases words.len(),
{
    match first_block(words, ValueLength::Zero) {
        Step::Stop => true,
        Step::Overrun => false,
        Step::Block { key, children, rest } => {
            &&& is_var_file_info(key) ==> run_fits(children, ValueLength::Bytes)
            &&& var_infos_fit(rest)
        },
    }
}

/// A walk for the strings of a language fits, over tables of strings.
pub open spec fn string_tables_fit(words: Seq<u16>, language: (u16, u16)) -> bool
    decreases words.len(),
{
    match first_block(words, ValueLength::Zero) {
        Step::Stop => true,
        Step::Overrun => false,
        Step::Block { key, children, rest } => {
            &&& language_of(key) == Some(language) ==> run_fits(children, ValueLength::Words)
            &&& string_tables_fit(rest, language)
        },
    }
}

/// A walk for the strings of a language fits, over the blocks below the root.
pub open spec fn string_infos_fit(words: Seq<u16>, language: (u16, u16)) -> bool
    decreases words.len(),
{
    match first_block(words, ValueLength::Zero) {
        Step::Stop => true,
        Step::Overrun => false,
        Step::Block { key, children, rest } => {
            &&& is_string_file_info(key) ==> string_tables_fit(children, language)
            &&& string_infos_fit(rest, language)
        },
    }
}

/// The reader can walk the version information `words` for its languages.
pub open spec fn languages_walkable(words: Seq<u16>) -> bool {
    match first_block(words, ValueLength::Bytes) {
        Step::Stop => true,
        Step::Overrun => false,
        Step::Block { key, children, rest } => var_infos_fit(children),
    }
}

/// The reader can walk the version information `words` for the strings of a language.
pub open spec fn strings_walkable(words: Seq<u16>, language: (u16, u16)) -> bool {
    match first_block(words, ValueLength::Bytes) {
        Step::Stop => true,
        Step::Overrun => false,
        Step::Block { key, children, rest } => string_infos_fit(children, language),
    }
}

/// The first block of some words, as slices of them.
enum Found<'a> {
    Stop,
    Overrun,
    Block { key: &'a [u16], children: &'a [u16], rest: &'a [u16] },
}

impl<'a> View for Found<'a> {
    type V = Step;

    closed spec fn view(&self) -> Step {
        match *self {
            Found::Stop => Step::Stop,
            Found::Overrun => Step::Overrun,
            Found::Block { key, children, rest } => Step::Block {
                key: key@,
                children: children@,
                rest: rest@,
            },
        }
    }
}

/// Finds the first zero word.
fn find_nul(words: &[u16]) -> (at: usize)
    ensures
        at == first_nul(words@),
        at <= words.len(),
{
    let mut at: usize = 0;
    assert(words@.skip(0) =~= words@);
    while at < words.len() && words[at] != 0
        invariant
            at <= words.len(),
            first_nul(words@) == at + first_nul(words@.skip(at as int)),
        decreases words.len() - at,
    {
        assert(words@.skip(at as int).drop_first() =~= words@.skip(at + 1));
        at += 1;
    }
    at
}

/// Reads the first block of `words`.
fn read_block<'a>(words: &'a [u16], unit: ValueLength) -> (found: Found<'a>)
    ensures
        found@ == first_block(words@, unit),
        found matches Found::Block { rest, .. } ==> rest.len() < words.len(),
{
    if words.len() < 4 {
        return Found::Stop;
    }
    let length: usize = if words[0] / 2 < 4 {
        4
    } else {
        (words[0] / 2) as usize
    };
    let value: usize = match unit {
        ValueLength::Zero => {
            if words[1] != 0 {
                return Found::Stop;
            }
            0
        },
        ValueLength::Bytes => (words[1] / 2) as usize,
        ValueLength::Words => words[1] as usize,
    };
    if length > words.len() {
        return Found::Stop;
    }
    let key_length = find_nul(slice_subrange(words, 3, length));
    if key_length == length - 3 {
        return Found::Stop;
    }
    let body: usize = key_length + key_length % 2 + 4;
    if body > length {
        return Found::Overrun;
    }
    if value > length - body {
        return Found::Stop;
    }
    let padded: usize = value + value % 2;
    let skipped: usize = if padded <= length - body {
        padded
    } else {
        length - body
    };
    let next: usize = if length + length % 2 <= words.len() {
        length + length % 2
    } else {
        words.len()
    };
    let key = slice_subrange(words, 3, 3 + key_length);
    let children = slice_subrange(words, body + skipped, length);
    let rest = slice_subrange(words, next, words.len());
    assert(rest@ =~= words@.skip(next as int));
    Found::Block { key, children, rest }
}

/// Whether no block among consecutive blocks overruns.
fn check_run(words: &[u16], unit: ValueLength) -> (fits: bool)
    ensures
        fits == run_fits(words@, unit),
{
    let mut at = words;
    loop
        invariant
            run_fits(words@, unit) == run_fits(at@, unit),
        decreases at.len(),
    {
        match read_block(at, unit) {
            Found::Stop => {
                return true;
            },
            Found::Overrun => {
                return false;
            },
            Found::Block { key, children, rest } => {
                at = rest;
            },
        }
    }
}

/// Whether two runs of words are equal.
fn same_words(a: &[u16], b: &[u16]) -> (same: bool)
    ensures
        same == (a@ =~= b@),
{
    if a.len() != b.len() {
        return false;
    }
    let mut i: usize = 0;
    while i < a.len()
        invariant
            a.len() == b.len(),
            i <= a.len(),
            forall|j: int| 0 <= j < i ==> a@[j] == b@[j],
        decreases a.len() - i,
    {
        if a[i] != b[i] {
            return false;
        }
        i += 1;
    }
    true
}

fn check_var_infos(words: &[u16]) -> (fits: bool)
    ensures
        fits == var_infos_fit(words@),
{
    let wanted: [u16; 11] = [86, 97, 114, 70, 105, 108, 101, 73, 110, 102, 111];
    let mut at = words;
    loop
        invariant
            wanted@ =~= seq![86u16, 97, 114, 70, 105, 108, 101, 73, 110, 102, 111],
            var_infos_fit(words@) == var_infos_fit(at@),
        decreases at.len(),
    {
        match read_block(at, ValueLength::Zero) {
            Found::Stop => {
                return true;
            },
            Found::Overrun => {
                return false;
            },
            Found::Block { key, children, rest } => {
                if same_words(key, &wanted) && !check_run(children, ValueLength::Bytes) {
                    return false;
                }
                at = rest;
            },
        }
    }
}

fn check_string_tables(words: &[u16], language: (u16, u16)) -> (fits: bool)
    ensures
        fits == string_tables_fit(words@, language),
{
    let mut at = words;
    loop
        invariant
            string_tables_fit(words@, language) == string_tables_fit(at@, language),
        decreases at.len(),
    {
        match read_block(at, ValueLength::Zero) {
            Found::Stop => {
                return true;
            },
            Found::Overrun => {
                return false;
            },
            Found::Block { key, children, rest } => {
                let chosen = match parse_language(key) {
                    Some(named) => named.0 == language.0 && named.1 == language.1,
                    None => false,
                };
                if chosen && !check_run(children, ValueLength::Words) {
                    return false;
                }
                at = rest;
            },
        }
    }
}

fn check_string_infos(words: &[u16], language: (u16, u16)) -> (fits: bool)
    ensures
        fits == string_infos_fit(words@, language),
{
    let wanted: [u16; 14] = [83, 116, 114, 105, 110, 103, 70, 105, 108, 101, 73, 110, 102, 111];
    let mut at = words;
    loop
        invariant
            wanted@ =~= seq![83u16, 116, 114, 105, 110, 103, 70, 105, 108, 101, 73, 110, 102, 111],
            string_infos_fit(words@, language) == string_infos_fit(at@, language),
        decreases at.len(),
    {
        match read_block(at, ValueLength::Zero) {
            Found::Stop => {
                return true;
            },
            Found::Overrun => {
                return false;
            },
            Found::Block { key, children, rest } => {
                if same_words(key, &wanted) && !check_string_tables(children, language) {
                    return false;
                }
                at = rest;
            },
        }
    }
}

/// Whether the reader can walk the version information for its languages.
pub fn can_walk_languages(words: &[u16]) -> (walkable: bool)
    ensures
        walkable == languages_walkable(words@),
{
    match read_block(words, ValueLength::Bytes) {
        Found::Stop => true,
        Found::Overrun => false,
        Found::Block { key, children, rest } => check_var_infos(children),
    }
}

/// Whether the reader can walk the version information for the strings of a language.
pub fn can_walk_strings(words: &[u16], language: (u16, u16)) -> (walkable: bool)
    ensures
        walkable == strings_walkable(words@, language),
{
    match read_block(words, ValueLength::Bytes) {
        Found::Stop => true,
        Found::Overrun => false,
        Found::Block { key, children, rest } => check_string_infos(children, language),
    }
}

} // verus!
