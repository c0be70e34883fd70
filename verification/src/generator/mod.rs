//! The ID generators: a common interface, the names of the algorithms, and
//! the factory that builds a generator from the settings.

pub mod nanoid;
pub mod snowflake;
pub mod ulid;

use vstd::prelude::*;

use crate::config::Settings;
use crate::error::{AppError, GeneratorError};
use crate::utils::text::{spec_ascii_lowercase, spec_to_lowercase, to_lowercase};
use vstd::utf8::is_ascii_chars;
use nanoid::{spec_alphabet_ok, spec_alphabet_refusal, NanoIDGenerator, NanoIDState};
use snowflake::{spec_creation, SnowflakeGenerator, SnowflakeState};
use ulid::ULIDGenerator;

verus! {

/// Issuing one more ID appends its text to a history that ends with the
/// texts of a batch.
pub proof fn lemma_history_append(start: Seq<Seq<char>>, batch: Seq<String>, id: String)
    ensures
        (start + spec_texts(batch)).push(id@) == start + spec_texts(batch.push(id)),
{
    assert(spec_texts(batch.push(id)) =~= spec_texts(batch).push(id@));
    assert((start + spec_texts(batch)).push(id@) =~= start + spec_texts(batch.push(id)));
}

/// The texts of a batch of IDs.
pub closed spec fn spec_texts(ids: Seq<String>) -> Seq<Seq<char>> {
    ids.map_values(|s: String| s@)
}

/// The texts of a batch, one for each ID, in order.
pub proof fn lemma_texts(ids: Seq<String>)
    ensures
        spec_texts(ids).len() == ids.len(),
        forall|i: int| 0 <= i < ids.len() ==> #[trigger] spec_texts(ids)[i] == ids[i]@,
{
}

/// A history stays a prefix of itself with the texts of a batch appended.
pub proof fn lemma_history_prefix(start: Seq<Seq<char>>, batch: Seq<String>)
    ensures
        start.is_prefix_of(start + spec_texts(batch)),
{
    assert((start + spec_texts(batch)).subrange(0, start.len() as int) =~= start);
}

/// What every ID generator offers.
pub trait IdGenerator: Sized {
    /// `id` is an ID that this generator can issue.
    spec fn spec_issues(&self, id: Seq<char>) -> bool;

    /// `e` is an error that this generator can fail with.
    spec fn spec_fails_with(&self, e: AppError) -> bool;

    /// The IDs this generator has issued through `generate`, in order of
    /// issue.
    spec fn spec_history(&self) -> Seq<Seq<char>>;

    /// Issues one ID.
    fn generate(&mut self) -> (r: Result<String, AppError>)
        ensures
            forall|id: Seq<char>| #[trigger] final(self).spec_issues(id) == old(self).spec_issues(id),
            forall|e: AppError| #[trigger] final(self).spec_fails_with(e) == old(self).spec_fails_with(e),
            r matches Ok(id) ==> old(self).spec_issues(id@),
            r matches Err(e) ==> old(self).spec_fails_with(e),
            r matches Ok(id) ==> final(self).spec_history() == old(self).spec_history().push(id@),
            r is Err ==> final(self).spec_history() == old(self).spec_history(),
    ;

    /// Issues `count` IDs, one after the other; the first failure ends the
    /// batch and is returned. A batch of none, and a batch of a generator
    /// that cannot fail, succeed.
    fn generate_batch(&mut self, count: usize) -> (r: Result<Vec<String>, AppError>)
        ensures
            forall|id: Seq<char>| #[trigger] final(self).spec_issues(id) == old(self).spec_issues(id),
            forall|e: AppError| #[trigger] final(self).spec_fails_with(e) == old(self).spec_fails_with(e),
            r matches Err(e) ==> old(self).spec_fails_with(e),
            r matches Ok(ids) ==> ids@.len() == count && forall|i: int|
                0 <= i < count ==> old(self).spec_issues(#[trigger] ids@[i]@),
            count == 0 ==> r is Ok,
            (forall|e: AppError| !#[trigger] old(self).spec_fails_with(e)) ==> r is Ok,
            r matches Ok(ids) ==> final(self).spec_history() == old(self).spec_history() + spec_texts(ids@),
            old(self).spec_history().is_prefix_of(final(self).spec_history()),
    {
        let ghost start = *self;
        let mut ids: Vec<String> = Vec::new();
        let mut k: usize = 0;
        while k < count
            invariant
                k <= count,
                ids@.len() == k,
                start == *old(self),
                forall|id: Seq<char>| #[trigger] self.spec_issues(id) == start.spec_issues(id),
                forall|e: AppError| #[trigger] self.spec_fails_with(e) == start.spec_fails_with(e),
                forall|i: int| 0 <= i < k ==> start.spec_issues(#[trigger] ids@[i]@),
                self.spec_history() == start.spec_history() + spec_texts(ids@),
            decreases count - k,
        {
            let ghost before = *self;
            let r = self.generate();
            assert forall|id: Seq<char>| #[trigger] self.spec_issues(id) == start.spec_issues(id) by {
                assert(self.spec_issues(id) == before.spec_issues(id));
            }
            assert forall|e: AppError| #[trigger] self.spec_fails_with(e) == start.spec_fails_with(e) by {
                assert(self.spec_fails_with(e) == before.spec_fails_with(e));
            }
            match r {
                Ok(id) => {
                    proof {
                        lemma_history_append(start.spec_history(), ids@, id);
                    }
                    ids.push(id);
                },
                Err(e) => {
                    proof {
                        lemma_history_prefix(start.spec_history(), ids@);
                    }
                    return Err(e);
                },
            }
            k = k + 1;
        }
        proof {
            lemma_history_prefix(start.spec_history(), ids@);
        }
        Ok(ids)
    }

    /// The name of the algorithm.
    fn name(&self) -> (n: &str);
}

/// The lowercase form of a name: ASCII case folding for ASCII text, the
/// Unicode lowercase mapping otherwise.
pub open spec fn spec_lowercase(name: Seq<char>) -> Seq<char> {
    if is_ascii_chars(name) {
        spec_ascii_lowercase(name)
    } else {
        spec_to_lowercase(name)
    }
}

/// The algorithms.
#[derive(Debug, Clone, Copy, PartialEq, Eq, Structural)]
pub enum GeneratorType {
    Snowflake,
    ULID,
    NanoID,
}

impl GeneratorType {
    /// The algorithm that a name selects, case aside: "snowflake", "ulid",
    /// and "nanoid" or "nano_id".
    pub open spec fn spec_from_name(name: Seq<char>) -> Option<GeneratorType> {
        let lower = spec_lowercase(name);
        if lower == "snowflake"@ {
            Some(GeneratorType::Snowflake)
        } else if lower == "ulid"@ {
            Some(GeneratorType::ULID)
        } else if lower == "nanoid"@ || lower == "nano_id"@ {
            Some(GeneratorType::NanoID)
        } else {
            None
        }
    }

    /// The name of the algorithm.
    pub open spec fn spec_name(self) -> Seq<char> {
        match self {
            GeneratorType::Snowflake => "snowflake"@,
            GeneratorType::ULID => "ulid"@,
            GeneratorType::NanoID => "nanoid"@,
        }
    }

    /// The algorithm that `s` names, case aside; an unknown name is refused
    /// and reported as given.
    pub fn parse(s: &str) -> (r: Result<GeneratorType, GeneratorError>)
        ensures
            match Self::spec_from_name(s@) {
                Some(t) => r == Ok::<GeneratorType, GeneratorError>(t),
                None => r matches Err(GeneratorError::UnsupportedAlgorithm(n)) && n@ == s@,
            },
    {
        let lower = to_lowercase(s);
        if lower == "snowflake".to_owned() {
            Ok(GeneratorType::Snowflake)
        } else if lower == "ulid".to_owned() {
            Ok(GeneratorType::ULID)
        } else if lower == "nanoid".to_owned() || lower == "nano_id".to_owned() {
            Ok(GeneratorType::NanoID)
        } else {
            Err(GeneratorError::UnsupportedAlgorithm(s.to_owned()))
        }
    }

    /// The name of the algorithm.
    pub fn as_str(&self) -> (s: &'static str)
        ensures
            s@ == self.spec_name(),
    {
        match self {
            GeneratorType::Snowflake => "snowflake",
            GeneratorType::ULID => "ulid",
            GeneratorType::NanoID => "nanoid",
        }
    }
}

impl core::str::FromStr for GeneratorType {
    type Err = GeneratorError;

    fn from_str(s: &str) -> (r: Result<Self, Self::Err>)
        ensures
            match GeneratorType::spec_from_name(s@) {
                Some(t) => r == Ok::<GeneratorType, GeneratorError>(t),
                None => r matches Err(GeneratorError::UnsupportedAlgorithm(n)) && n@ == s@,
            },
    {
        GeneratorType::parse(s)
    }
}

/// The name of an algorithm selects that algorithm.
pub proof fn lemma_name_selects_algorithm(t: GeneratorType)
    ensures
        GeneratorType::spec_from_name(t.spec_name()) == Some(t),
{
    reveal_strlit("snowflake");
    reveal_strlit("ulid");
    reveal_strlit("nanoid");
    reveal_strlit("nano_id");
    let name = t.spec_name();
    assert(is_ascii_chars(name));
    assert(spec_ascii_lowercase(name) =~= name);
}

/// A generator of any of the algorithms.
pub enum AnyGenerator {
    Snowflake(SnowflakeGenerator),
    ULID(ULIDGenerator),
    NanoID(NanoIDGenerator),
}

impl IdGenerator for AnyGenerator {
    open spec fn spec_issues(&self, id: Seq<char>) -> bool {
        match self {
            AnyGenerator::Snowflake(g) => g.spec_issues(id),
            AnyGenerator::ULID(g) => g.spec_issues(id),
            AnyGenerator::NanoID(g) => g.spec_issues(id),
        }
    }

    open spec fn spec_fails_with(&self, e: AppError) -> bool {
        match self {
            AnyGenerator::Snowflake(g) => g.spec_fails_with(e),
            AnyGenerator::ULID(g) => g.spec_fails_with(e),
            AnyGenerator::NanoID(g) => g.spec_fails_with(e),
        }
    }

    open spec fn spec_history(&self) -> Seq<Seq<char>> {
        match self {
            AnyGenerator::Snowflake(g) => g.spec_history(),
            AnyGenerator::ULID(g) => g.spec_history(),
            AnyGenerator::NanoID(g) => g.spec_history(),
        }
    }

    fn generate(&mut self) -> (r: Result<String, AppError>) {
        match self {
            AnyGenerator::Snowflake(g) => g.generate(),
            AnyGenerator::ULID(g) => g.generate(),
            AnyGenerator::NanoID(g) => g.generate(),
        }
    }

    fn name(&self) -> (n: &str)
        ensures
            n@ == self.spec_algorithm().spec_name(),
    {
        match self {
            AnyGenerator::Snowflake(g) => g.name(),
            AnyGenerator::ULID(g) => g.name(),
            AnyGenerator::NanoID(g) => g.name(),
        }
    }
}

impl AnyGenerator {
    /// The algorithm of the generator.
    pub open spec fn spec_algorithm(&self) -> GeneratorType {
        match self {
            AnyGenerator::Snowflake(_) => GeneratorType::Snowflake,
            AnyGenerator::ULID(_) => GeneratorType::ULID,
            AnyGenerator::NanoID(_) => GeneratorType::NanoID,
        }
    }
}

/// Builds generators.
pub struct GeneratorFactory;

impl GeneratorFactory {
    /// A Snowflake generator for machine `worker_id` in data center `datacenter_id`.
    pub fn create_snowflake(worker_id: u64, datacenter_id: u64) -> (r: Result<SnowflakeGenerator, AppError>)
        ensures
            match r {
                Ok(g) => spec_creation(worker_id, datacenter_id) == Ok::<SnowflakeState, AppError>(g@),
                Err(e) => spec_creation(worker_id, datacenter_id) == Err::<SnowflakeState, AppError>(e),
            },
    {
        SnowflakeGenerator::new(worker_id, datacenter_id)
    }

    /// A ULID generator.
    pub fn create_ulid() -> (r: Result<ULIDGenerator, AppError>)
        ensures
            r is Ok,
    {
        Ok(ULIDGenerator::new())
    }

    /// A NanoID generator of IDs of `length` characters from `alphabet`.
    pub fn create_nanoid(length: usize, alphabet: &str) -> (r: Result<NanoIDGenerator, AppError>)
        ensures
            match r {
                Ok(g) => spec_alphabet_ok(alphabet@) && g@ == (NanoIDState { length, alphabet: alphabet@ }),
                Err(e) => spec_alphabet_refusal(alphabet@, e),
            },
    {
        NanoIDGenerator::new(length, alphabet)
    }

    /// A generator of the algorithm `typ`, set up by `config`.
    pub fn create(typ: GeneratorType, config: &Settings) -> (r: Result<AnyGenerator, AppError>)
        ensures
            r matches Ok(g) ==> g.spec_algorithm() == typ,
            typ == GeneratorType::Snowflake ==> match r {
                Ok(AnyGenerator::Snowflake(g)) => spec_creation(
                    config.snowflake.worker_id,
                    config.snowflake.datacenter_id,
                ) == Ok::<SnowflakeState, AppError>(g@),
                Ok(_) => false,
                Err(e) => spec_creation(config.snowflake.worker_id, config.snowflake.datacenter_id)
                    == Err::<SnowflakeState, AppError>(e),
            },
            typ == GeneratorType::ULID ==> r is Ok,
            typ == GeneratorType::NanoID ==> match r {
                Ok(AnyGenerator::NanoID(g)) => spec_alphabet_ok(config.nanoid.alphabet@) && g@ == (
                NanoIDState { length: config.nanoid.length, alphabet: config.nanoid.alphabet@ }),
                Ok(_) => false,
                Err(e) => spec_alphabet_refusal(config.nanoid.alphabet@, e),
            },
    {
        match typ {
            GeneratorType::Snowflake => match Self::create_snowflake(
                config.snowflake.worker_id,
                config.snowflake.datacenter_id,
            ) {
                Ok(g) => Ok(AnyGenerator::Snowflake(g)),
                Err(e) => Err(e),
            },
            GeneratorType::ULID => match Self::create_ulid() {
                Ok(g) => Ok(AnyGenerator::ULID(g)),
                Err(e) => Err(e),
            },
            GeneratorType::NanoID => match Self::create_nanoid(
                config.nanoid.length,
                config.nanoid.alphabet.as_str(),
            ) {
                Ok(g) => Ok(AnyGenerator::NanoID(g)),
                Err(e) => Err(e),
            },
        }
    }
}

} // verus!
