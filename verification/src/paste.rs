use vstd::prelude::*;

use crate::text::texts;

verus! {

/// `shlex::QuoteError`: why words could not be quoted for a shell.
#[verifier::external_type_specification]
#[verifier::external_body]
pub struct ExQuoteError(shlex::QuoteError);

/// What `shlex::try_join` gives for words it can quote: the words, each
/// quoted for a POSIX shell where needed, separated by single spaces.
pub uninterp spec fn shell_joined(words: Seq<Seq<char>>) -> Seq<char>;

/// Whether a word holds a nul character, which no shell quoting can carry.
pub open spec fn has_nul(w: Seq<char>) -> bool {
    exists|i: int| 0 <= i < w.len() && w[i] == '\0'
}

/// Whether some word holds a nul character.
pub open spec fn some_has_nul(words: Seq<Seq<char>>) -> bool {
    exists|k: int| 0 <= k < words.len() && has_nul(#[trigger] words[k])
}

/// `shlex::try_join`: joins words into one shell command line. It fails
/// exactly when a word holds a nul character (the only error of the default
/// quoting settings); otherwise the result is named as a function of the
/// words.
#[verifier::external_body]
fn shell_join(words: &Vec<String>) -> (r: Result<String, shlex::QuoteError>)
    ensures
        r.is_err() == some_has_nul(texts(words@)),
        r.is_ok() ==> r.unwrap()@ == shell_joined(texts(words@)),
{
    shlex::try_join(words.iter().map(String::as_str))
}

/// The paths given as text, in order; paths that are not valid Unicode
/// (`None`) are left out.
pub open spec fn path_texts(paths: Seq<Option<String>>) -> Seq<Seq<char>>
    decreases paths.len(),
{
    if paths.len() == 0 {
        Seq::empty()
    } else {
        let r = path_texts(paths.drop_last());
        match paths.last() {
            Some(p) => r.push(p@),
            None => r,
        }
    }
}

/// The joined command line, or nothing when the words could not be quoted.
pub fn joined_or_nothing(r: Result<String, shlex::QuoteError>) -> (t: Option<String>)
    ensures
        match r {
            Ok(s) => t matches Some(v) && v@ == s@,
            Err(_) => t is None,
        },
{
    match r {
        Ok(value) => Some(value),
        Err(_) => None,
    }
}

/// The text pasted into a terminal when files are dropped on it: their
/// paths quoted for the shell and separated by spaces. Nothing is pasted
/// when a path holds a nul character.
pub fn dropped_paths_text(paths: &Vec<Option<String>>) -> (r: Option<String>)
    ensures
        match r {
            Some(s) => !some_has_nul(path_texts(paths@)) && s@ == shell_joined(path_texts(paths@)),
            None => some_has_nul(path_texts(paths@)),
        },
{
    let mut words: Vec<String> = Vec::new();
    let mut i: usize = 0;
    while i < paths.len()
        invariant
            i <= paths@.len(),
            texts(words@) == path_texts(paths@.take(i as int)),
        decreases paths@.len() - i,
    {
        assert(paths@.take(i + 1).drop_last() =~= paths@.take(i as int));
        match &paths[i] {
            Some(p) => {
                let ghost before = texts(words@);
                words.push(p.clone());
                assert(texts(words@) =~= before.push(p@));
            },
            None => {},
        }
        i = i + 1;
    }
    assert(paths@.take(paths@.len() as int) =~= paths@);
    joined_or_nothing(shell_join(&words))
}

} // verus!
