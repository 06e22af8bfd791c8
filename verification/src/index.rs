//! This is the place where the Inverted Index is implemented.
use std::collections::HashSet;
use vstd::hash_map::StringHashMap;
use vstd::prelude::*;
use crate::analyzer::{terms_of, Analyzer};
use crate::filters::Language;
use crate::text::texts;

verus! {

broadcast use vstd::std_specs::hash::group_hash_axioms;

/// `Document` represents text that's needs to be indexed.
/// `id`: is a unique text id
/// `text`: is a text which will be divided into tokens and added to an index.
#[derive(Clone)]
pub struct Document {
    pub id: u64,
    pub text: String,
}

impl View for Document {
    type V = (u64, Seq<char>);

    open spec fn view(&self) -> (u64, Seq<char>) {
        (self.id, self.text@)
    }
}

/// The documents of a list as pairs of id and text, in order.
pub open spec fn documents(docs: Seq<Document>) -> Seq<(u64, Seq<char>)> {
    docs.map_values(|doc: Document| doc@)
}

/// The ids listed under a term; none where the index lacks the term.
pub open spec fn postings(index: Map<Seq<char>, Set<u64>>, term: Seq<char>) -> Set<u64> {
    if index.contains_key(term) {
        index[term]
    } else {
        Set::empty()
    }
}

/// The ids listed under every one of the terms. No terms match nothing.
pub open spec fn matching(index: Map<Seq<char>, Set<u64>>, terms: Set<Seq<char>>) -> Set<u64> {
    if terms.is_empty() {
        Set::empty()
    } else {
        Set::new(
            |id: u64|
                forall|term: Seq<char>|
                    #![trigger terms.contains(term)]
                    #![trigger postings(index, term)]
                    terms.contains(term) ==> postings(index, term).contains(id),
        )
    }
}

/// The index after `id` is listed under `term`.
pub open spec fn with_posting(index: Map<Seq<char>, Set<u64>>, term: Seq<char>, id: u64) -> Map<
    Seq<char>,
    Set<u64>,
> {
    index.insert(term, postings(index, term).insert(id))
}

/// The index after `id` is listed under each of the terms.
pub open spec fn with_terms(index: Map<Seq<char>, Set<u64>>, id: u64, terms: Set<Seq<char>>) -> Map<
    Seq<char>,
    Set<u64>,
> {
    Map::new(
        |term: Seq<char>| index.contains_key(term) || terms.contains(term),
        |term: Seq<char>|
            if terms.contains(term) {
                postings(index, term).insert(id)
            } else {
                index[term]
            },
    )
}

/// The index after the documents are added one after the other, each under
/// the terms of its text.
pub open spec fn with_documents(
    index: Map<Seq<char>, Set<u64>>,
    language: Language,
    docs: Seq<(u64, Seq<char>)>,
) -> Map<Seq<char>, Set<u64>>
    decreases docs.len(),
{
    if docs.len() == 0 {
        index
    } else {
        with_terms(
            with_documents(index, language, docs.drop_last()),
            docs.last().0,
            terms_of(language, docs.last().1),
        )
    }
}

/// Listing an id under no term leaves the index as it is.
pub proof fn lemma_with_no_terms(index: Map<Seq<char>, Set<u64>>, id: u64)
    ensures
        with_terms(index, id, Set::empty()) == index,
{
    assert(with_terms(index, id, Set::empty()) =~= index);
}

/// Listing an id under one term more is listing it under the larger set.
pub proof fn lemma_with_terms_insert(
    index: Map<Seq<char>, Set<u64>>,
    id: u64,
    terms: Set<Seq<char>>,
    term: Seq<char>,
)
    ensures
        with_posting(with_terms(index, id, terms), term, id) == with_terms(
            index,
            id,
            terms.insert(term),
        ),
{
    assert(with_posting(with_terms(index, id, terms), term, id) =~~= with_terms(
        index,
        id,
        terms.insert(term),
    ));
}

/// The ids listed under every term of a list.
pub open spec fn listed_under_all(index: Map<Seq<char>, Set<u64>>, terms: Seq<Seq<char>>) -> Set<
    u64,
> {
    Set::new(
        |id: u64|
            forall|k: int|
                0 <= k < terms.len() ==> #[trigger] postings(index, terms[k]).contains(id),
    )
}

/// The ids under every term of a non-empty list are the matches of its set.
pub proof fn lemma_listed_under_all(index: Map<Seq<char>, Set<u64>>, terms: Seq<Seq<char>>)
    requires
        terms.len() > 0,
    ensures
        listed_under_all(index, terms) == matching(index, terms.to_set()),
{
    assert(terms.to_set().contains(terms[0]));
    assert forall|id: u64|
        listed_under_all(index, terms).contains(id) <==> matching(index, terms.to_set()).contains(
            id,
        ) by {
        if listed_under_all(index, terms).contains(id) {
            assert forall|term: Seq<char>| terms.to_set().contains(term) implies postings(
                index,
                term,
            ).contains(id) by {
                let k = choose|k: int| 0 <= k < terms.len() && terms[k] == term;
                assert(postings(index, terms[k]).contains(id));
            }
        }
        if matching(index, terms.to_set()).contains(id) {
            assert forall|k: int| 0 <= k < terms.len() implies #[trigger] postings(
                index,
                terms[k],
            ).contains(id) by {
                assert(terms.to_set().contains(terms[k]));
            }
        }
    }
    assert(listed_under_all(index, terms) =~= matching(index, terms.to_set()));
}

/// One term more in the list keeps the ids that are listed under it too.
pub proof fn lemma_listed_under_all_push(
    index: Map<Seq<char>, Set<u64>>,
    terms: Seq<Seq<char>>,
    term: Seq<char>,
)
    ensures
        listed_under_all(index, terms.push(term)) == listed_under_all(index, terms).intersect(
            postings(index, term),
        ),
{
    let longer = terms.push(term);
    assert forall|id: u64|
        listed_under_all(index, longer).contains(id) <==> (listed_under_all(index, terms).contains(
            id,
        ) && postings(index, term).contains(id)) by {
        if listed_under_all(index, longer).contains(id) {
            assert(postings(index, longer[terms.len() as int]).contains(id));
            assert forall|k: int| 0 <= k < terms.len() implies #[trigger] postings(
                index,
                terms[k],
            ).contains(id) by {
                assert(postings(index, longer[k]).contains(id));
            }
        }
        if listed_under_all(index, terms).contains(id) && postings(index, term).contains(id) {
            assert forall|k: int| 0 <= k < longer.len() implies #[trigger] postings(
                index,
                longer[k],
            ).contains(id) by {
                if k < terms.len() {
                    assert(postings(index, terms[k]).contains(id));
                }
            }
        }
    }
    assert(listed_under_all(index, longer) =~= listed_under_all(index, terms).intersect(
        postings(index, term),
    ));
}

/// A list with a term that the index lacks matches nothing.
pub proof fn lemma_missing_term_matches_nothing(
    index: Map<Seq<char>, Set<u64>>,
    terms: Set<Seq<char>>,
    term: Seq<char>,
)
    requires
        terms.contains(term),
        postings(index, term) == Set::<u64>::empty(),
    ensures
        matching(index, terms) == Set::<u64>::empty(),
{
    assert forall|id: u64| !matching(index, terms).contains(id) by {
        assert(!postings(index, term).contains(id));
    }
    assert(matching(index, terms) =~= Set::<u64>::empty());
}

/// A copy of a set of ids.
fn copy_ids(ids: &HashSet<u64>) -> (copy: HashSet<u64>)
    ensures
        copy@ == ids@,
{
    let mut copy: HashSet<u64> = HashSet::new();
    for id in it: ids.iter()
        invariant
            it.seq().unref().to_set() == ids@,
            it.seq().unref().take(it.seq().len() as int) == it.seq().unref(),
            copy@ == it.seq().unref().take(it.index() as int).to_set(),
    {
        proof {
            let seen = it.seq().unref();
            seen.take(it.index() as int).lemma_push_to_set_commute(*id);
            assert(seen.take(it.index() + 1) == seen.take(it.index() as int).push(*id));
        }
        copy.insert(*id);
    }
    copy
}

/// The ids that two sets have in common.
fn common_ids(ids: &HashSet<u64>, others: &HashSet<u64>) -> (common: HashSet<u64>)
    ensures
        common@ == ids@.intersect(others@),
{
    let mut common: HashSet<u64> = HashSet::new();
    for id in it: ids.iter()
        invariant
            it.seq().unref().to_set() == ids@,
            it.seq().unref().take(it.seq().len() as int) == it.seq().unref(),
            common@ == it.seq().unref().take(it.index() as int).to_set().intersect(others@),
    {
        proof {
            let seen = it.seq().unref();
            seen.take(it.index() as int).lemma_push_to_set_commute(*id);
            assert(seen.take(it.index() + 1) == seen.take(it.index() as int).push(*id));
        }
        if others.contains(id) {
            common.insert(*id);
        }
    }
    common
}

/// Currently, `InvertedIndex` keeps a dictionary from each term to the slot of
/// its posting set. A posting set is a `HashSet`, which holds each id once.
pub struct InvertedIndex {
    slots: StringHashMap<usize>,
    sets: Vec<HashSet<u64>>,
    analyzer: Analyzer,
}

impl View for InvertedIndex {
    type V = Map<Seq<char>, Set<u64>>;

    /// The posting set of each term that the index holds.
    closed spec fn view(&self) -> Map<Seq<char>, Set<u64>> {
        Map::new(
            |term: Seq<char>| self.slots@.contains_key(term),
            |term: Seq<char>| self.sets@[self.slots@[term] as int]@,
        )
    }
}

impl InvertedIndex {
    /// Every term has a slot of its own among the posting sets.
    #[verifier::type_invariant]
    spec fn slots_are_sound(self) -> bool {
        &&& forall|term: Seq<char>| #[trigger]
            self.slots@.contains_key(term) ==> self.slots@[term] < self.sets@.len()
        &&& forall|a: Seq<char>, b: Seq<char>|
            self.slots@.contains_key(a) && self.slots@.contains_key(b) && self.slots@[a]
                == self.slots@[b] ==> a == b
    }

    /// The language in which documents and queries are analyzed.
    pub closed spec fn language(self) -> Language {
        self.analyzer.language()
    }

    /// Creates empty index with custom language.
    pub fn new(language: Language) -> (index: Self)
        ensures
            index@ == Map::<Seq<char>, Set<u64>>::empty(),
            index.language() == language,
    {
        let index = InvertedIndex {
            slots: StringHashMap::new(),
            sets: Vec::new(),
            analyzer: Analyzer::new(language),
        };
        assert(index@ =~= Map::<Seq<char>, Set<u64>>::empty());
        index
    }

    /// Lists `id` under `term`, with a new posting set where the term is new.
    ///
    /// The dictionary and the posting sets leave the index while they change
    /// and come back together, so that the index is sound at every step.
    fn insert_posting(&mut self, term: String, id: u64)
        ensures
            final(self)@ == with_posting(old(self)@, term@, id),
            final(self).language() == old(self).language(),
    {
        proof {
            use_type_invariant(&*self);
        }
        let mut slots: StringHashMap<usize> = StringHashMap::new();
        let mut sets: Vec<HashSet<u64>> = Vec::new();
        core::mem::swap(&mut self.slots, &mut slots);
        core::mem::swap(&mut self.sets, &mut sets);
        match slots.get(term.as_str()) {
            None => {
                let slot = sets.len();
                let mut ids: HashSet<u64> = HashSet::new();
                ids.insert(id);
                sets.push(ids);
                slots.insert(term, slot);
            },
            Some(slot) => {
                let slot = *slot;
                sets[slot].insert(id);
            },
        }
        core::mem::swap(&mut self.sets, &mut sets);
        core::mem::swap(&mut self.slots, &mut slots);
        assert(self@ =~= with_posting(old(self)@, term@, id));
    }

    /// Lists `id` under each of the terms.
    pub fn add_terms(&mut self, id: u64, terms: Vec<String>)
        ensures
            final(self)@ == with_terms(old(self)@, id, texts(terms@).to_set()),
            final(self).language() == old(self).language(),
    {
        let ghost listed = texts(terms@);
        proof {
            lemma_with_no_terms(self@, id);
            assert(listed.take(0).to_set() =~= Set::empty());
        }
        for term in it: terms
            invariant
                it.seq() == terms@,
                listed == texts(terms@),
                self.language() == old(self).language(),
                self@ == with_terms(old(self)@, id, listed.take(it.index() as int).to_set()),
        {
            proof {
                lemma_with_terms_insert(
                    old(self)@,
                    id,
                    listed.take(it.index() as int).to_set(),
                    term@,
                );
                listed.take(it.index() as int).lemma_push_to_set_commute(term@);
                assert(listed.take(it.index() + 1) == listed.take(it.index() as int).push(term@));
            }
            self.insert_posting(term, id);
        }
        assert(listed.take(listed.len() as int) == listed);
    }

    /// Index document
    ///
    /// Each document is analyzed in the language of the index and its id is
    /// listed under each of its terms. Nothing is removed.
    pub fn add(&mut self, docs: &[Document])
        ensures
            final(self)@ == with_documents(old(self)@, old(self).language(), documents(docs@)),
            final(self).language() == old(self).language(),
    {
        for i in 0..docs.len()
            invariant
                self.language() == old(self).language(),
                self@ == with_documents(
                    old(self)@,
                    old(self).language(),
                    documents(docs@.take(i as int)),
                ),
        {
            let doc = &docs[i];
            let terms = self.analyzer.analyze(doc.text.as_str());
            self.add_terms(doc.id, terms);
            proof {
                let taken = documents(docs@.take(i + 1));
                assert(taken.drop_last() == documents(docs@.take(i as int)));
                assert(taken.last() == doc@);
            }
        }
        assert(docs@.take(docs@.len() as int) == docs@);
    }

    /// The posting set of a term, where the index holds the term.
    fn posting_set(&self, term: &str) -> (found: Option<&HashSet<u64>>)
        ensures
            match found {
                Some(ids) => self@.contains_key(term@) && ids@ == self@[term@],
                None => !self@.contains_key(term@),
            },
    {
        proof {
            use_type_invariant(self);
        }
        match self.slots.get(term) {
            None => None,
            Some(slot) => Some(&self.sets[*slot]),
        }
    }

    /// The ids that are listed under every one of the terms: the posting set
    /// of the first term, cut down by that of each further term. No terms,
    /// and a term that the index lacks, match nothing.
    pub fn search_terms(&self, terms: &[String]) -> (ids: HashSet<u64>)
        ensures
            ids@ == matching(self@, texts(terms@).to_set()),
    {
        let ghost listed = texts(terms@);
        if terms.len() == 0 {
            assert(listed.to_set() =~= Set::empty());
            return HashSet::new();
        }
        let mut ids = match self.posting_set(terms[0].as_str()) {
            None => {
                proof {
                    assert(listed.to_set().contains(listed[0]));
                    lemma_missing_term_matches_nothing(self@, listed.to_set(), listed[0]);
                }
                return HashSet::new();
            },
            Some(first) => copy_ids(first),
        };
        proof {
            lemma_listed_under_all_push(self@, Seq::empty(), listed[0]);
            assert(listed.take(1) == Seq::<Seq<char>>::empty().push(listed[0]));
            assert(listed_under_all(self@, Seq::empty()) =~= Set::full());
        }
        for j in 1..terms.len()
            invariant
                listed == texts(terms@),
                ids@ == listed_under_all(self@, listed.take(j as int)),
        {
            proof {
                lemma_listed_under_all_push(self@, listed.take(j as int), listed[j as int]);
                assert(listed.take(j + 1) == listed.take(j as int).push(listed[j as int]));
            }
            match self.posting_set(terms[j].as_str()) {
                None => {
                    proof {
                        assert(listed.to_set().contains(listed[j as int]));
                        lemma_missing_term_matches_nothing(
                            self@,
                            listed.to_set(),
                            listed[j as int],
                        );
                    }
                    return HashSet::new();
                },
                Some(others) => {
                    ids = common_ids(&ids, others);
                },
            }
        }
        proof {
            assert(listed.take(listed.len() as int) == listed);
            lemma_listed_under_all(self@, listed);
        }
        ids
    }

    /// Search text in index
    ///
    /// The query is analyzed as documents are, and the answer holds the ids
    /// that are listed under every one of its terms. A query without terms,
    /// and one with a term that the index lacks, match nothing.
    pub fn search(&self, text: &str) -> (ids: HashSet<u64>)
        ensures
            ids@ == matching(self@, terms_of(self.language(), text@)),
            text@.len() == 0 ==> ids@ == Set::<u64>::empty(),
    {
        let terms = self.analyzer.analyze(text);
        assert(text@.len() == 0 ==> texts(terms@).to_set() =~= Set::empty());
        self.search_terms(terms.as_slice())
    }
}

/// Creates empty index.
/// `Default` assume that a text will be in English.
impl Default for InvertedIndex {
    fn default() -> (index: Self)
        ensures
            index@ == Map::<Seq<char>, Set<u64>>::empty(),
            index.language() == Language::English,
    {
        InvertedIndex::new(Language::English)
    }
}

} // verus!
