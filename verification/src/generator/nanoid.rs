//! The NanoID algorithm: IDs of a configured length, each character drawn
//! uniformly at random from a configured alphabet (URL-safe by default).

use rand::Rng;
use std::collections::HashSet;
use vstd::prelude::*;
use vstd::string::StrSliceExecFns;

use crate::error::{AppError, GeneratorError};
use crate::generator::IdGenerator;
use crate::utils::text::push_char;

verus! {

/// The URL-safe alphabet used by default.
pub const DEFAULT_ALPHABET: &'static str = "ABCDEFGHIJKLMNOPQRSTUVWXYZabcdefghijklmnopqrstuvwxyz0123456789-_";

/// The random number generator of the current thread (`rand::rngs::ThreadRng`).
#[verifier::external_type_specification]
#[verifier::external_body]
pub struct ExThreadRng(rand::rngs::ThreadRng);

/// The current thread's random number generator (`rand::thread_rng`).
#[verifier::external_body]
fn thread_rng() -> (rng: rand::rngs::ThreadRng) {
    rand::thread_rng()
}

/// A random index below `upper` (`rand::Rng::gen_range` on `0..upper`,
/// which panics on an empty range). Which index comes back is chance.
#[verifier::external_body]
fn random_index(rng: &mut rand::rngs::ThreadRng, upper: usize) -> (i: usize)
    requires
        upper > 0,
    ensures
        i < upper,
{
    rng.gen_range(0..upper)
}

/// The configuration of a NanoID generator, as values.
pub struct NanoIDState {
    /// Characters per ID.
    pub length: usize,
    /// The characters an ID is drawn from.
    pub alphabet: Seq<char>,
}

/// An alphabet that a generator accepts: non-empty, no character twice.
pub open spec fn spec_alphabet_ok(alphabet: Seq<char>) -> bool {
    alphabet.len() > 0 && alphabet.no_duplicates()
}

/// `e` is the refusal of `alphabet`: an empty one, or else one that holds a
/// character twice.
pub open spec fn spec_alphabet_refusal(alphabet: Seq<char>, e: AppError) -> bool {
    if alphabet.len() == 0 {
        e matches AppError::Generator(GeneratorError::GenerationFailed(m)) && m@ == "字符集不能为空"@
    } else {
        !alphabet.no_duplicates() && (e matches AppError::Generator(
            GeneratorError::GenerationFailed(m),
        ) && m@ == "字符集包含重复字符"@)
    }
}

/// A NanoID generator.
pub struct NanoIDGenerator {
    length: usize,
    alphabet: Vec<char>,
    /// The IDs that `generate` has handed out, in order.
    history: Ghost<Seq<Seq<char>>>,
}

impl View for NanoIDGenerator {
    type V = NanoIDState;

    closed spec fn view(&self) -> NanoIDState {
        NanoIDState { length: self.length, alphabet: self.alphabet@ }
    }
}

/// The ID drawn by the given indices into `alphabet`.
pub open spec fn spec_id_from_indices(alphabet: Seq<char>, indices: Seq<usize>) -> Seq<char> {
    Seq::new(indices.len(), |i: int| alphabet[indices[i] as int])
}

impl NanoIDGenerator {
    #[verifier::type_invariant]
    spec fn inv(self) -> bool {
        &&& self.alphabet@.len() > 0
        &&& self.alphabet@.no_duplicates()
    }

    /// Creates a generator of IDs of `length` characters drawn from
    /// `alphabet`, which must be non-empty and hold no character twice.
    pub fn new(length: usize, alphabet: &str) -> (r: Result<Self, AppError>)
        ensures
            match r {
                Ok(g) => spec_alphabet_ok(alphabet@) && g@ == (NanoIDState { length, alphabet: alphabet@ }),
                Err(e) => spec_alphabet_refusal(alphabet@, e),
            },
            r matches Ok(g) ==> g.spec_history() == Seq::<Seq<char>>::empty(),
    {
        if alphabet.is_empty() {
            return Err(AppError::Generator(GeneratorError::GenerationFailed("字符集不能为空".to_owned())));
        }
        let n = alphabet.unicode_len();
        let mut chars: Vec<char> = Vec::new();
        let mut seen: HashSet<u32> = HashSet::new();
        let mut k: usize = 0;
        while k < n
            invariant
                n == alphabet@.len(),
                k <= n,
                chars@ == alphabet@.subrange(0, k as int),
                chars@.no_duplicates(),
                forall|x: u32|
                    seen@.contains(x) <==> exists|j: int| 0 <= j < k && (#[trigger] alphabet@[j]) as u32 == x,
            decreases n - k,
        {
            let c = alphabet.get_char(k);
            if !seen.insert(c as u32) {
                proof {
                    let j = choose|j: int| 0 <= j < k && (#[trigger] alphabet@[j]) as u32 == c as u32;
                    vstd::utf8::char_u32_cast(alphabet@[j], c as u32);
                    vstd::utf8::char_u32_cast(c, c as u32);
                    assert(alphabet@[j] == alphabet@[k as int]);
                    assert(!alphabet@.no_duplicates());
                }
                return Err(AppError::Generator(GeneratorError::GenerationFailed("字符集包含重复字符".to_owned())));
            }
            proof {
                assert forall|j: int| 0 <= j < k implies chars@[j] != c by {
                    assert(chars@[j] == alphabet@[j]);
                    if alphabet@[j] == c {
                        assert(seen@.contains(c as u32));
                    }
                }
            }
            chars.push(c);
            k = k + 1;
            assert(chars@ =~= alphabet@.subrange(0, k as int));
        }
        assert(chars@ =~= alphabet@);
        Ok(NanoIDGenerator { length, alphabet: chars, history: Ghost(Seq::empty()) })
    }

    /// Creates a generator of IDs of `length` characters drawn from the
    /// URL-safe alphabet `A-Z a-z 0-9 - _`.
    pub fn with_default_alphabet(length: usize) -> (r: Result<Self, AppError>)
        ensures
            r matches Ok(g) && g@ == (NanoIDState { length, alphabet: DEFAULT_ALPHABET@ }),
    {
        proof {
            reveal_strlit("ABCDEFGHIJKLMNOPQRSTUVWXYZabcdefghijklmnopqrstuvwxyz0123456789-_");
        }
        Self::new(length, DEFAULT_ALPHABET)
    }

    /// The ID that the given indices into the alphabet select.
    pub fn id_from_indices(&self, indices: &Vec<usize>) -> (id: String)
        requires
            forall|i: int| 0 <= i < indices@.len() ==> indices@[i] < self@.alphabet.len(),
        ensures
            id@ == spec_id_from_indices(self@.alphabet, indices@),
    {
        let mut id = String::new();
        let mut k: usize = 0;
        while k < indices.len()
            invariant
                k <= indices@.len(),
                forall|i: int| 0 <= i < indices@.len() ==> indices@[i] < self.alphabet@.len(),
                id@ == spec_id_from_indices(self@.alphabet, indices@.subrange(0, k as int)),
            decreases indices@.len() - k,
        {
            let c = self.alphabet[indices[k]];
            push_char(&mut id, c);
            k = k + 1;
            assert(id@ =~= spec_id_from_indices(self@.alphabet, indices@.subrange(0, k as int)));
        }
        assert(indices@.subrange(0, indices@.len() as int) =~= indices@);
        id
    }

    /// A new random ID: `length` characters, each drawn at random from the alphabet.
    pub fn next_id(&self) -> (id: String)
        ensures
            id@.len() == self@.length,
            forall|i: int| 0 <= i < id@.len() ==> self@.alphabet.contains(#[trigger] id@[i]),
    {
        proof {
            use_type_invariant(self);
        }
        let mut rng = thread_rng();
        let mut indices: Vec<usize> = Vec::new();
        let mut k: usize = 0;
        while k < self.length
            invariant
                k <= self.length,
                self.alphabet@.len() > 0,
                indices@.len() == k,
                forall|i: int| 0 <= i < indices@.len() ==> indices@[i] < self.alphabet@.len(),
            decreases self.length - k,
        {
            let idx = random_index(&mut rng, self.alphabet.len());
            indices.push(idx);
            k = k + 1;
        }
        let id = self.id_from_indices(&indices);
        proof {
            assert forall|i: int| 0 <= i < id@.len() implies self@.alphabet.contains(#[trigger] id@[i]) by {
                assert(id@[i] == self@.alphabet[indices@[i] as int]);
            }
        }
        id
    }
}

impl IdGenerator for NanoIDGenerator {
    /// `length` characters, each from the alphabet.
    open spec fn spec_issues(&self, id: Seq<char>) -> bool {
        &&& id.len() == self@.length
        &&& forall|i: int| 0 <= i < id.len() ==> self@.alphabet.contains(#[trigger] id[i])
    }

    /// It never fails.
    open spec fn spec_fails_with(&self, e: AppError) -> bool {
        false
    }

    closed spec fn spec_history(&self) -> Seq<Seq<char>> {
        self.history@
    }

    /// Issues a new random ID.
    fn generate(&mut self) -> (r: Result<String, AppError>)
        ensures
            final(self)@ == old(self)@,
            r is Ok,
    {
        let id = self.next_id();
        proof {
            use_type_invariant(&*self);
            self.history@ = self.history@.push(id@);
        }
        Ok(id)
    }

    fn name(&self) -> (n: &str)
        ensures
            n@ == "nanoid"@,
    {
        "nanoid"
    }
}

} // verus!
