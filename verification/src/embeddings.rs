//! The integer half of a hashed bag-of-words embedding: which component
//! of the vector each word of a text falls into.

use crate::base::Error;
use crate::text::{lowercase_of, split_words, trim, trimmed, words};
use std::collections::hash_map::DefaultHasher;
use std::hash::{Hash, Hasher};
use vstd::prelude::*;
use vstd::std_specs::hash::DefaultHasherAdditionalSpecFns;

verus! {

/// The runs of bytes that hashing a string feeds to a hasher.
pub uninterp spec fn str_hash_writes(s: Seq<char>) -> Seq<Seq<u8>>;

/// `Hash::hash` of a string slice into a `DefaultHasher`: the hasher has
/// been fed the runs of bytes that stand for the string, after what it
/// had been fed before.
#[verifier::external_body]
fn feed_str(state: &mut DefaultHasher, s: &str)
    ensures
        final(state)@ == old(state)@ + str_hash_writes(s@),
{
    s.hash(state)
}

/// The hash of a word.
pub open spec fn word_hash(word: Seq<char>) -> u64 {
    DefaultHasher::spec_finish(str_hash_writes(word))
}

/// The component that a word falls into, of `dimension` components.
pub open spec fn bucket_of(word: Seq<char>, dimension: usize) -> usize {
    ((word_hash(word) as usize) % dimension) as usize
}

/// The component of each word, in the order of the words.
pub open spec fn buckets_of(words: Seq<Seq<char>>, dimension: usize) -> Seq<usize> {
    Seq::new(words.len(), |i: int| bucket_of(words[i], dimension))
}

/// Turns texts into vectors of a fixed number of components.
pub struct EmbeddingGenerator {
    model_name: String,
    dimension: usize,
}

impl EmbeddingGenerator {
    /// The name of the model that the generator stands for.
    pub closed spec fn model(&self) -> Seq<char> {
        self.model_name@
    }

    /// The number of components of a vector.
    pub closed spec fn size(&self) -> usize {
        self.dimension
    }

    /// A generator for vectors of 384 components.
    pub fn new() -> (r: Result<EmbeddingGenerator, Error>)
        ensures
            r matches Ok(g) && g.size() == 384 && g.model()
                == "sentence-transformers/all-MiniLM-L6-v2"@,
    {
        Ok(
            EmbeddingGenerator {
                model_name: "sentence-transformers/all-MiniLM-L6-v2".to_owned(),
                dimension: 384,
            },
        )
    }

    /// A generator for another model and number of components.
    pub fn with_model(model_name: String, dimension: usize) -> (r: Result<EmbeddingGenerator, Error>)
        ensures
            r matches Ok(g) && g.size() == dimension && g.model() == model_name@,
    {
        Ok(EmbeddingGenerator { model_name, dimension })
    }

    /// The number of components of a vector.
    pub fn dimension(&self) -> (r: usize)
        ensures
            r == self.size(),
    {
        self.dimension
    }

    /// The text as it is read before it is embedded: trimmed, in lower
    /// case.
    pub fn preprocess(&self, text: &str) -> (r: String)
        ensures
            r@ == lowercase_of(trimmed(text@)),
    {
        trim(text).as_str().to_lowercase()
    }

    /// The component that a word falls into.
    pub fn bucket(&self, word: &str) -> (r: usize)
        requires
            self.size() > 0,
        ensures
            r == bucket_of(word@, self.size()),
            r < self.size(),
    {
        let mut hasher = DefaultHasher::new();
        feed_str(&mut hasher, word);
        assert(hasher@ =~= str_hash_writes(word@));
        let hash = hasher.finish();
        (hash as usize) % self.dimension
    }

    /// The component of each word of `text`, in the order of the words.
    /// The word at position `i` weighs `1 / (i + 1)` in its component.
    pub fn token_buckets(&self, text: &str) -> (r: Vec<usize>)
        requires
            self.size() > 0,
        ensures
            r@ == buckets_of(words(text@), self.size()),
            forall|i: int| 0 <= i < r@.len() ==> r@[i] < self.size(),
    {
        let tokens = split_words(text);
        let mut out: Vec<usize> = Vec::new();
        let mut i: usize = 0;
        while i < tokens.len()
            invariant
                i <= tokens.len(),
                self.size() > 0,
                tokens.deep_view() == words(text@),
                out@ == buckets_of(words(text@).take(i as int), self.size()),
                forall|k: int| 0 <= k < out@.len() ==> out@[k] < self.size(),
            decreases tokens.len() - i,
        {
            let b = self.bucket(tokens[i].as_str());
            assert(tokens.deep_view()[i as int] == tokens@[i as int]@);
            out.push(b);
            i += 1;
            assert(out@ =~= buckets_of(words(text@).take(i as int), self.size()));
        }
        assert(words(text@).take(tokens.len() as int) =~= words(text@));
        out
    }
}

} // verus!
