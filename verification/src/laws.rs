//! What holds of the index whatever is added and asked.
use vstd::prelude::*;
use crate::analyzer::{content_words, terms_of};
use crate::filters::{folded, lowercase_of, stem_of, Language};
use crate::index::{matching, postings, with_documents, with_terms};
use crate::tokenizer::word_tokens;

verus! {

/// Document `i` of the list has the id and holds the term.
pub open spec fn holds_term(
    language: Language,
    docs: Seq<(u64, Seq<char>)>,
    i: int,
    id: u64,
    term: Seq<char>,
) -> bool {
    0 <= i < docs.len() && docs[i].0 == id && terms_of(language, docs[i].1).contains(term)
}

/// After documents are added, an id is listed under a term if and only if it
/// was listed before or one of the documents has the id and holds the term;
/// and the index holds a term if and only if it held it before or one of the
/// documents holds it.
pub proof fn lemma_index_contents(
    index: Map<Seq<char>, Set<u64>>,
    language: Language,
    docs: Seq<(u64, Seq<char>)>,
    term: Seq<char>,
    id: u64,
)
    ensures
        postings(with_documents(index, language, docs), term).contains(id) <==> (postings(
            index,
            term,
        ).contains(id) || exists|i: int| holds_term(language, docs, i, id, term)),
        with_documents(index, language, docs).contains_key(term) <==> (index.contains_key(term)
            || exists|i: int|
            0 <= i < docs.len() && #[trigger] terms_of(language, docs[i].1).contains(term)),
    decreases docs.len(),
{
    if docs.len() > 0 {
        let front = docs.drop_last();
        let last = docs.last();
        lemma_index_contents(index, language, front, term, id);
        let before = with_documents(index, language, front);
        let after = with_documents(index, language, docs);
        assert(after == with_terms(before, last.0, terms_of(language, last.1)));
        if postings(after, term).contains(id) {
            if postings(before, term).contains(id) {
                if !postings(index, term).contains(id) {
                    let i = choose|i: int| holds_term(language, front, i, id, term);
                    assert(holds_term(language, docs, i, id, term));
                }
            } else {
                assert(holds_term(language, docs, docs.len() - 1, id, term));
            }
        }
        if exists|i: int| holds_term(language, docs, i, id, term) {
            let i = choose|i: int| holds_term(language, docs, i, id, term);
            if i < front.len() {
                assert(holds_term(language, front, i, id, term));
            }
        }
        if after.contains_key(term) {
            if before.contains_key(term) {
                if !index.contains_key(term) {
                    let i = choose|i: int|
                        0 <= i < front.len() && #[trigger] terms_of(language, front[i].1).contains(
                            term,
                        );
                    assert(terms_of(language, docs[i].1).contains(term));
                }
            } else {
                assert(terms_of(language, docs[docs.len() - 1].1).contains(term));
            }
        }
        if exists|i: int|
            0 <= i < docs.len() && #[trigger] terms_of(language, docs[i].1).contains(term) {
            let i = choose|i: int|
                0 <= i < docs.len() && #[trigger] terms_of(language, docs[i].1).contains(term);
            if i < front.len() {
                assert(terms_of(language, front[i].1).contains(term));
            }
        }
    }
}

/// Two lists that hold the same documents, in whatever order and however
/// often, give the same index.
pub proof fn lemma_same_documents_same_index(
    index: Map<Seq<char>, Set<u64>>,
    language: Language,
    docs: Seq<(u64, Seq<char>)>,
    others: Seq<(u64, Seq<char>)>,
)
    requires
        docs.to_set() == others.to_set(),
    ensures
        with_documents(index, language, docs) == with_documents(index, language, others),
{
    let left = with_documents(index, language, docs);
    let right = with_documents(index, language, others);
    assert forall|term: Seq<char>| left.contains_key(term) <==> right.contains_key(term) by {
        lemma_index_contents(index, language, docs, term, 0);
        lemma_index_contents(index, language, others, term, 0);
        if exists|i: int|
            0 <= i < docs.len() && #[trigger] terms_of(language, docs[i].1).contains(term) {
            let i = choose|i: int|
                0 <= i < docs.len() && #[trigger] terms_of(language, docs[i].1).contains(term);
            assert(docs.to_set().contains(docs[i]));
            let j = choose|j: int| 0 <= j < others.len() && others[j] == docs[i];
            assert(terms_of(language, others[j].1).contains(term));
        }
        if exists|i: int|
            0 <= i < others.len() && #[trigger] terms_of(language, others[i].1).contains(term) {
            let i = choose|i: int|
                0 <= i < others.len() && #[trigger] terms_of(language, others[i].1).contains(term);
            assert(others.to_set().contains(others[i]));
            let j = choose|j: int| 0 <= j < docs.len() && docs[j] == others[i];
            assert(terms_of(language, docs[j].1).contains(term));
        }
    }
    assert forall|term: Seq<char>, id: u64|
        postings(left, term).contains(id) <==> postings(right, term).contains(id) by {
        lemma_index_contents(index, language, docs, term, id);
        lemma_index_contents(index, language, others, term, id);
        if exists|i: int| holds_term(language, docs, i, id, term) {
            let i = choose|i: int| holds_term(language, docs, i, id, term);
            assert(docs.to_set().contains(docs[i]));
            let j = choose|j: int| 0 <= j < others.len() && others[j] == docs[i];
            assert(holds_term(language, others, j, id, term));
        }
        if exists|i: int| holds_term(language, others, i, id, term) {
            let i = choose|i: int| holds_term(language, others, i, id, term);
            assert(others.to_set().contains(others[i]));
            let j = choose|j: int| 0 <= j < docs.len() && docs[j] == others[i];
            assert(holds_term(language, docs, j, id, term));
        }
    }
    assert forall|term: Seq<char>| left.contains_key(term) implies left[term] =~= right[term] by {
        assert forall|id: u64| left[term].contains(id) <==> right[term].contains(id) by {
            assert(postings(left, term).contains(id) <==> postings(right, term).contains(id));
        }
    }
    assert(left =~= right);
}

/// Adding one list and then another is adding the two lists as one.
pub proof fn lemma_add_in_two_calls(
    index: Map<Seq<char>, Set<u64>>,
    language: Language,
    first: Seq<(u64, Seq<char>)>,
    second: Seq<(u64, Seq<char>)>,
)
    ensures
        with_documents(with_documents(index, language, first), language, second)
            == with_documents(index, language, first + second),
    decreases second.len(),
{
    if second.len() == 0 {
        assert(first + second == first);
    } else {
        lemma_add_in_two_calls(index, language, first, second.drop_last());
        assert((first + second).drop_last() == first + second.drop_last());
        assert((first + second).last() == second.last());
    }
}

/// Adding a document a second time changes nothing: the index, and with it
/// the answer to every query, is as after the first time.
pub proof fn lemma_add_is_idempotent(
    index: Map<Seq<char>, Set<u64>>,
    language: Language,
    doc: (u64, Seq<char>),
)
    ensures
        with_documents(with_documents(index, language, seq![doc]), language, seq![doc])
            == with_documents(index, language, seq![doc]),
        forall|terms: Set<Seq<char>>|
            matching(
                with_documents(with_documents(index, language, seq![doc]), language, seq![doc]),
                terms,
            ) == matching(with_documents(index, language, seq![doc]), terms),
{
    lemma_add_in_two_calls(index, language, seq![doc], seq![doc]);
    assert((seq![doc] + seq![doc]).to_set() =~= seq![doc].to_set());
    lemma_same_documents_same_index(index, language, seq![doc] + seq![doc], seq![doc]);
}

/// Two documents added in either order give the same index.
pub proof fn lemma_add_order_is_free(
    index: Map<Seq<char>, Set<u64>>,
    language: Language,
    one: (u64, Seq<char>),
    other: (u64, Seq<char>),
)
    ensures
        with_documents(index, language, seq![one, other]) == with_documents(
            index,
            language,
            seq![other, one],
        ),
{
    let forth = seq![one, other];
    let back = seq![other, one];
    assert forall|doc: (u64, Seq<char>)| forth.to_set().contains(doc) <==> back.to_set().contains(
        doc,
    ) by {
        if forth.to_set().contains(doc) {
            let i = choose|i: int| 0 <= i < forth.len() && forth[i] == doc;
            assert(back[1 - i] == doc);
        }
        if back.to_set().contains(doc) {
            let i = choose|i: int| 0 <= i < back.len() && back[i] == doc;
            assert(forth[1 - i] == doc);
        }
    }
    assert(forth.to_set() =~= back.to_set());
    lemma_same_documents_same_index(index, language, forth, back);
}

/// An empty index that documents were added to lists an id under a term if
/// and only if one of the documents has the id and holds the term.
pub proof fn lemma_listed_iff_held(
    language: Language,
    docs: Seq<(u64, Seq<char>)>,
    term: Seq<char>,
    id: u64,
)
    ensures
        postings(with_documents(Map::empty(), language, docs), term).contains(id) <==> exists|
            i: int,
        | holds_term(language, docs, i, id, term),
{
    lemma_index_contents(Map::empty(), language, docs, term, id);
}

/// Adding documents only grows the index: every term stays, and every id
/// stays listed under it.
pub proof fn lemma_add_only_grows(
    index: Map<Seq<char>, Set<u64>>,
    language: Language,
    docs: Seq<(u64, Seq<char>)>,
    term: Seq<char>,
)
    ensures
        index.contains_key(term) ==> with_documents(index, language, docs).contains_key(term),
        postings(index, term).subset_of(postings(with_documents(index, language, docs), term)),
{
    assert forall|id: u64| postings(index, term).contains(id) implies postings(
        with_documents(index, language, docs),
        term,
    ).contains(id) by {
        lemma_index_contents(index, language, docs, term, id);
    }
    lemma_index_contents(index, language, docs, term, 0);
}

/// A query whose words are all stop words has no terms and matches nothing,
/// whatever the index holds.
pub proof fn lemma_stop_words_match_nothing(
    index: Map<Seq<char>, Set<u64>>,
    language: Language,
    query: Seq<char>,
)
    requires
        forall|i: int|
            0 <= i < word_tokens(query).len() ==> language.stop_word_set().contains(
                lowercase_of(#[trigger] word_tokens(query)[i]),
            ),
    ensures
        terms_of(language, query) == Set::<Seq<char>>::empty(),
        matching(index, terms_of(language, query)) == Set::<u64>::empty(),
{
    let words = folded(word_tokens(query));
    assert forall|word: Seq<char>| !content_words(language, query).contains(word) by {
        if words.to_set().contains(word) {
            let i = choose|i: int| 0 <= i < words.len() && words[i] == word;
            assert(words[i] == lowercase_of(word_tokens(query)[i]));
        }
    }
    assert(terms_of(language, query) =~= Set::<Seq<char>>::empty());
}

/// The ids that match two non-empty sets of terms taken together are those
/// that match each of the two.
pub proof fn lemma_matching_union(
    index: Map<Seq<char>, Set<u64>>,
    left: Set<Seq<char>>,
    right: Set<Seq<char>>,
)
    requires
        !left.is_empty(),
        !right.is_empty(),
    ensures
        matching(index, left.union(right)) == matching(index, left).intersect(
            matching(index, right),
        ),
{
    let both = left.union(right);
    assert(!both.is_empty()) by {
        if both.is_empty() {
            assert(left =~= Set::empty());
        }
    }
    assert forall|id: u64|
        matching(index, both).contains(id) <==> (matching(index, left).contains(id) && matching(
            index,
            right,
        ).contains(id)) by {
        if matching(index, both).contains(id) {
            assert forall|term: Seq<char>| left.contains(term) implies postings(
                index,
                term,
            ).contains(id) by {
                assert(both.contains(term));
            }
            assert forall|term: Seq<char>| right.contains(term) implies postings(
                index,
                term,
            ).contains(id) by {
                assert(both.contains(term));
            }
        }
    }
    assert(matching(index, both) =~= matching(index, left).intersect(matching(index, right)));
}

/// AND semantics. Where the words of two queries joined by a space are the
/// words of the one followed by the words of the other, and each query has a
/// term, the joined query matches what both queries match.
pub proof fn lemma_joined_query_matches_both(
    index: Map<Seq<char>, Set<u64>>,
    language: Language,
    left: Seq<char>,
    right: Seq<char>,
)
    requires
        word_tokens(left + seq![' '] + right) == word_tokens(left) + word_tokens(right),
        !terms_of(language, left).is_empty(),
        !terms_of(language, right).is_empty(),
    ensures
        matching(index, terms_of(language, left + seq![' '] + right)) == matching(
            index,
            terms_of(language, left),
        ).intersect(matching(index, terms_of(language, right))),
{
    let joined = left + seq![' '] + right;
    let a = folded(word_tokens(left));
    let b = folded(word_tokens(right));
    assert(folded(word_tokens(joined)) =~= a + b);
    vstd::seq_lib::seq_to_set_distributes_over_add(a, b);
    assert(content_words(language, joined) =~= content_words(language, left).union(
        content_words(language, right),
    ));
    let stem = |word: Seq<char>| stem_of(language.algorithm(), word);
    assert forall|term: Seq<char>|
        terms_of(language, joined).contains(term) <==> (terms_of(language, left).contains(term)
            || terms_of(language, right).contains(term)) by {
        if terms_of(language, joined).contains(term) {
            let word = choose|word: Seq<char>|
                content_words(language, joined).contains(word) && term == stem(word);
            if content_words(language, left).contains(word) {
                assert(terms_of(language, left).contains(term));
            } else {
                assert(content_words(language, right).contains(word));
                assert(terms_of(language, right).contains(term));
            }
        }
        if terms_of(language, left).contains(term) {
            let word = choose|word: Seq<char>|
                content_words(language, left).contains(word) && term == stem(word);
            assert(content_words(language, joined).contains(word));
        }
        if terms_of(language, right).contains(term) {
            let word = choose|word: Seq<char>|
                content_words(language, right).contains(word) && term == stem(word);
            assert(content_words(language, joined).contains(word));
        }
    }
    assert(terms_of(language, joined) =~= terms_of(language, left).union(
        terms_of(language, right),
    ));
    lemma_matching_union(index, terms_of(language, left), terms_of(language, right));
}

/// Round trip. After a document is added, a query that has a term, and
/// whose terms are all terms of the document, matches the document.
pub proof fn lemma_query_finds_document(
    index: Map<Seq<char>, Set<u64>>,
    language: Language,
    docs: Seq<(u64, Seq<char>)>,
    i: int,
    query: Seq<char>,
)
    requires
        0 <= i < docs.len(),
        !terms_of(language, query).is_empty(),
        terms_of(language, query).subset_of(terms_of(language, docs[i].1)),
    ensures
        matching(with_documents(index, language, docs), terms_of(language, query)).contains(
            docs[i].0,
        ),
{
    let after = with_documents(index, language, docs);
    assert forall|term: Seq<char>| terms_of(language, query).contains(term) implies postings(
        after,
        term,
    ).contains(docs[i].0) by {
        lemma_index_contents(index, language, docs, term, docs[i].0);
        assert(holds_term(language, docs, i, docs[i].0, term));
    }
}

} // verus!
