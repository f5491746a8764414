//! The kinds of stock transaction and their stored textual form.
use vstd::prelude::*;
use vstd::utf8::is_ascii_chars;
use crate::text::{
    all_white_space, ascii_lowercase, lemma_ascii_lowercase_unchanged, lemma_ascii_stays_ascii,
    lemma_trimmed_ignores_padding, lemma_trimmed_lowercase, lemma_trimmed_unchanged, lower,
    lowered, same_text, trim, trimmed,
};

verus! {

/// The kind of a stock transaction.
#[derive(Debug, Clone, Copy, PartialEq, Eq, Structural)]
pub enum TxType {
    Buy,
    Sell,
    Subdivision,
}

/// The word under which a kind of transaction is stored.
pub open spec fn word_of(t: TxType) -> Seq<char> {
    match t {
        TxType::Buy => "buy"@,
        TxType::Sell => "sell"@,
        TxType::Subdivision => "subdivision"@,
    }
}

/// The kind that a lower-case, trimmed word names; `split` is another
/// word for a subdivision.
pub open spec fn tx_type_of_word(w: Seq<char>) -> Option<TxType> {
    if w == "buy"@ {
        Some(TxType::Buy)
    } else if w == "sell"@ {
        Some(TxType::Sell)
    } else if w == "subdivision"@ || w == "split"@ {
        Some(TxType::Subdivision)
    } else {
        None
    }
}

/// The kind that a text names, whatever its letter case and surrounding
/// whitespace.
pub open spec fn parse_tx_type(s: Seq<char>) -> Option<TxType> {
    tx_type_of_word(lowered(trimmed(s)))
}

/// The kind that a stored text names, a purchase where it names none.
pub open spec fn stored_tx_type(s: Seq<char>) -> TxType {
    match parse_tx_type(s) {
        Some(t) => t,
        None => TxType::Buy,
    }
}

impl TxType {
    /// The word under which this kind is stored.
    pub fn as_str(&self) -> (r: &'static str)
        ensures
            r@ == word_of(*self),
    {
        match self {
            TxType::Buy => "buy",
            TxType::Sell => "sell",
            TxType::Subdivision => "subdivision",
        }
    }

    /// The kind that a lower-case, trimmed word names.
    pub fn from_word(word: &str) -> (r: Option<TxType>)
        ensures
            r == tx_type_of_word(word@),
    {
        if same_text(word, "buy") {
            Some(TxType::Buy)
        } else if same_text(word, "sell") {
            Some(TxType::Sell)
        } else if same_text(word, "subdivision") || same_text(word, "split") {
            Some(TxType::Subdivision)
        } else {
            None
        }
    }

    /// The kind that `value` names once trimmed and lower-cased:
    /// `buy`, `sell`, and `subdivision` or `split`.
    pub fn from_str(value: &str) -> (r: Option<TxType>)
        ensures
            r == parse_tx_type(value@),
    {
        let word = lower(trim(value));
        TxType::from_word(word.as_str())
    }

    /// The kind that a stored text names, a purchase where it names none.
    pub fn from_stored(value: &str) -> (r: TxType)
        ensures
            r == stored_tx_type(value@),
    {
        match TxType::from_str(value) {
            Some(t) => t,
            None => TxType::Buy,
        }
    }
}


/// The word stored for a kind names that kind when read back, also where
/// a stored text is taken to name a purchase by default.
pub proof fn lemma_stored_word_reads_back(t: TxType)
    ensures
        parse_tx_type(word_of(t)) == Some(t),
        stored_tx_type(word_of(t)) == t,
{
    reveal_strlit("buy");
    reveal_strlit("sell");
    reveal_strlit("subdivision");
    reveal_strlit("split");
    let w = word_of(t);
    lemma_trimmed_unchanged(w);
    assert(is_ascii_chars(w));
    lemma_ascii_lowercase_unchanged(w);
    assert(lowered(trimmed(w)) == w);
    if t != TxType::Subdivision {
        assert(w != "subdivision"@);
    }
}


/// Whitespace before and after a text does not change the kind it names.
pub proof fn lemma_parse_ignores_padding(p: Seq<char>, s: Seq<char>, q: Seq<char>)
    requires
        all_white_space(p),
        all_white_space(q),
    ensures
        parse_tx_type(p + s + q) == parse_tx_type(s),
{
    lemma_trimmed_ignores_padding(p, s, q);
}


/// The letter case of an ASCII text does not change the kind it names.
pub proof fn lemma_parse_ignores_ascii_case(s: Seq<char>)
    requires
        is_ascii_chars(s),
    ensures
        parse_tx_type(ascii_lowercase(s)) == parse_tx_type(s),
{
    lemma_ascii_stays_ascii(s);
    lemma_ascii_stays_ascii(ascii_lowercase(s));
    lemma_ascii_stays_ascii(trimmed(s));
    lemma_trimmed_lowercase(s);
    lemma_trimmed_lowercase(trimmed(s));
}

} // verus!
