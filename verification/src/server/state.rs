//! The state that the request handlers share: one generator of each algorithm.

use vstd::prelude::*;

use crate::generator::nanoid::NanoIDGenerator;
use crate::generator::snowflake::SnowflakeGenerator;
use crate::generator::ulid::ULIDGenerator;
use crate::generator::{spec_lowercase, GeneratorType, IdGenerator};
use crate::utils::text::to_lowercase;

verus! {

/// The generators that serve requests.
pub struct AppState {
    pub snowflake: SnowflakeGenerator,
    pub ulid: ULIDGenerator,
    pub nanoid: NanoIDGenerator,
}

impl AppState {
    /// The state made of the three generators.
    pub fn new(snowflake: SnowflakeGenerator, ulid: ULIDGenerator, nanoid: NanoIDGenerator) -> (s: Self)
        ensures
            s.snowflake == snowflake,
            s.ulid == ulid,
            s.nanoid == nanoid,
    {
        AppState { snowflake, ulid, nanoid }
    }

    /// The generator that an algorithm name selects, case aside:
    /// "snowflake", "ulid" or "nanoid".
    pub open spec fn spec_lookup(algorithm: Seq<char>) -> Option<GeneratorType> {
        let lower = spec_lowercase(algorithm);
        if lower == "snowflake"@ {
            Some(GeneratorType::Snowflake)
        } else if lower == "ulid"@ {
            Some(GeneratorType::ULID)
        } else if lower == "nanoid"@ {
            Some(GeneratorType::NanoID)
        } else {
            None
        }
    }

    /// `id` is an ID that the generator of algorithm `t` can issue.
    pub open spec fn spec_issues(&self, t: GeneratorType, id: Seq<char>) -> bool {
        match t {
            GeneratorType::Snowflake => self.snowflake.spec_issues(id),
            GeneratorType::ULID => self.ulid.spec_issues(id),
            GeneratorType::NanoID => self.nanoid.spec_issues(id),
        }
    }

    /// The IDs that the generator of algorithm `t` has issued, in order.
    pub open spec fn spec_history(&self, t: GeneratorType) -> Seq<Seq<char>> {
        match t {
            GeneratorType::Snowflake => self.snowflake.spec_history(),
            GeneratorType::ULID => self.ulid.spec_history(),
            GeneratorType::NanoID => self.nanoid.spec_history(),
        }
    }

    /// Which generator serves the algorithm named `algorithm`, case aside.
    pub fn get_generator(&self, algorithm: &str) -> (r: Option<GeneratorType>)
        ensures
            r == Self::spec_lookup(algorithm@),
    {
        let lower = to_lowercase(algorithm);
        if lower == "snowflake".to_owned() {
            Some(GeneratorType::Snowflake)
        } else if lower == "ulid".to_owned() {
            Some(GeneratorType::ULID)
        } else if lower == "nanoid".to_owned() {
            Some(GeneratorType::NanoID)
        } else {
            None
        }
    }
}

} // verus!
