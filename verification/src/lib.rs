//! A Boolean inverted index over short texts.
//!
//! Raw text is cut into words, folded to lower case, stripped of stop words
//! and stemmed; the resulting terms key a map from term to the set of
//! documents that hold it. A query is analyzed the same way and answered by
//! intersecting the posting sets of all its terms.
pub mod analyzer;
pub mod filters;
pub mod index;
pub mod laws;
pub mod stopwords;
pub mod text;
pub mod tokenizer;
