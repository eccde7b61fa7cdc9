//! Stopword sets with case-insensitive membership.
//!
//! A stopword set is built once, from a language's word list or from a
//! caller-supplied list; every stored word and every queried word is
//! lowercased first, so membership does not depend on letter case.

use std::str::FromStr;
use stopwords::{Language, Spark, Stopwords};
use vstd::prelude::*;

verus! {

/// The lowercase form of a word, as Unicode defines it; the result depends
/// on the characters alone.
pub uninterp spec fn lower_of(s: Seq<char>) -> Seq<char>;

/// The set of lowercase forms of a list of words.
pub open spec fn lower_image(words: Seq<Seq<char>>) -> Set<Seq<char>> {
    words.map_values(|w: Seq<char>| lower_of(w)).to_set()
}

/// The word list that the `stopwords` crate's Spark tables hold for a
/// language name, if that name is supported; a fixed table of the crate,
/// so the result depends on the name alone.
pub uninterp spec fn spark_stopword_table(lang: Seq<char>) -> Option<Seq<Seq<char>>>;

/// Relies on `stopwords::Language::from_str` and `stopwords::Spark::stopwords`:
/// both are lookups in static tables, so together they are a function from the
/// language name to its word list, here named `spark_stopword_table`.
#[verifier::external_body]
fn fetch_spark_words(lang: &str) -> (r: Option<Vec<String>>)
    ensures
        r is Some <==> spark_stopword_table(lang@) is Some,
        r matches Some(ws) ==> ws.deep_view() == spark_stopword_table(lang@)->Some_0,
{
    match Language::from_str(lang) {
        Ok(l) => match Spark::stopwords(l) {
            Some(ws) => Some(ws.iter().map(|w| w.to_string()).collect()),
            None => None,
        },
        Err(_) => None,
    }
}

/// Relies on `str::to_lowercase`: the lowercase mapping of the word's
/// characters, here named `lower_of`.
#[verifier::external_body]
fn to_lower(s: &str) -> (r: String)
    ensures
        r@ == lower_of(s@),
{
    s.to_lowercase()
}

/// A set of stopwords.  Its abstract value is the set of lowercased words
/// it holds; membership tests lowercase the queried word first, so words
/// that differ only in letter case are either all members or none.
#[derive(Clone, Debug)]
pub struct StopList {
    words: Vec<String>,
}

impl StopList {
    /// The stored words, as a sequence of character sequences.
    closed spec fn words_seq(&self) -> Seq<Seq<char>> {
        Seq::new(self.words@.len(), |i: int| self.words@[i]@)
    }

    /// The set of lowercased words this list holds.
    pub closed spec fn view(&self) -> Set<Seq<char>> {
        self.words_seq().to_set()
    }

    /// Builds the stopword set of a supported language, from the word table
    /// of that language; `None` when the language name has no table.
    pub fn for_language(lang: &str) -> (r: Option<StopList>)
        ensures
            r is Some <==> spark_stopword_table(lang@) is Some,
            r matches Some(l) ==> l@ == lower_image(spark_stopword_table(lang@)->Some_0),
    {
        match fetch_spark_words(lang) {
            Some(ws) => Some(Self::from_words(&ws)),
            None => None,
        }
    }

    /// Builds a stopword set from any word list: each word is lowercased
    /// and inserted; duplicates collapse and order is irrelevant.
    pub fn from_words(words: &Vec<String>) -> (r: StopList)
        ensures
            r@ == lower_image(words.deep_view()),
    {
        let mut lowered: Vec<String> = Vec::new();
        let mut i: usize = 0;
        while i < words.len()
            invariant
                i <= words@.len(),
                lowered@.len() == i,
                forall|j: int| 0 <= j < i ==> lowered@[j]@ == lower_of(words@[j]@),
            decreases words@.len() - i,
        {
            lowered.push(to_lower(words[i].as_str()));
            i = i + 1;
        }
        let r = StopList { words: lowered };
        assert(r.words_seq() =~= words.deep_view().map_values(|w: Seq<char>| lower_of(w)));
        r
    }

    /// Membership, indifferent to letter case: the queried word is
    /// lowercased and looked up in the stored set.
    pub fn is_stopword(&self, word: &str) -> (r: bool)
        ensures
            r == self@.contains(lower_of(word@)),
    {
        let w = to_lower(word);
        let mut i: usize = 0;
        while i < self.words.len()
            invariant
                i <= self.words@.len(),
                w@ == lower_of(word@),
                forall|j: int| 0 <= j < i ==> self.words_seq()[j] != w@,
            decreases self.words@.len() - i,
        {
            if self.words[i] == w {
                assert(self.words_seq()[i as int] == w@);
                assert(self.words_seq().contains(w@));
                return true;
            }
            i = i + 1;
        }
        assert(!self.words_seq().contains(w@));
        false
    }
}

/// Stopword membership is case-insensitive: two words with the same
/// lowercase form are either both stopwords of a set or neither.
pub proof fn lemma_stopword_case_insensitive(stops: Set<Seq<char>>, w: Seq<char>, v: Seq<char>)
    requires
        lower_of(w) == lower_of(v),
    ensures
        stops.contains(lower_of(w)) == stops.contains(lower_of(v)),
{
}

} // verus!
