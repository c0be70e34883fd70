//! Bodies of the HTTP API's requests and answers, and what each endpoint
//! computes.

use vstd::prelude::*;

use crate::error::{AppError, GeneratorError};
use crate::generator::{lemma_texts, spec_texts, GeneratorType, IdGenerator};
use crate::generator::snowflake::{spec_issued_in_order, MAX_SEQUENCE};
use crate::utils::text::spec_decimal;
use crate::server::state::AppState;
use vstd::string::StringExecFns;
use crate::utils::time::{current_timestamp_millis, spec_millis};

verus! {

/// The body of a request for IDs.
#[derive(Debug)]
pub struct GenerateRequest {
    /// How many IDs; 1 when absent.
    pub count: usize,
}

impl Default for GenerateRequest {
    /// One ID.
    fn default() -> (r: Self)
        ensures
            r.count == 1,
    {
        GenerateRequest { count: 1 }
    }
}

/// An answer that carries one ID.
#[derive(Debug)]
pub struct IdResponse {
    pub id: String,
    pub algorithm: String,
    pub timestamp: u64,
}

/// An answer that carries a batch of IDs.
#[derive(Debug)]
pub struct BatchIdResponse {
    pub ids: Vec<String>,
    pub algorithm: String,
    pub count: usize,
}

/// The answer to a health or readiness check.
#[derive(Debug)]
pub struct HealthResponse {
    pub status: String,
    pub timestamp: u64,
}

/// The body of an answer that reports an error.
#[derive(Debug)]
pub struct ErrorResponse {
    pub error: bool,
    pub message: String,
}

/// The most IDs that one request can have issued.
pub const MAX_IDS_PER_REQUEST: usize = 100;

/// The most IDs that the batch endpoint accepts as a count.
pub const MAX_BATCH_COUNT: usize = 1000;

/// How many IDs a request for `count` IDs gets: `count`, raised to at least
/// 1 and cut to at most 100.
pub open spec fn spec_batch_size(count: usize) -> usize {
    if count < 1 {
        1
    } else if count > 100 {
        100
    } else {
        count
    }
}

/// What a request for `count` IDs of the algorithm named `algorithm` is
/// answered, with the state before (`pre`) and after (`post`):
/// - an unknown name: 404, "不支持的算法：" and the name, the state unchanged;
/// - otherwise `spec_batch_size(count)` IDs that the selected generator can
///   issue, with the name as given, and the other generators unchanged;
/// - or, for Snowflake alone, 500 with the message of the generator's error:
///   a clock that moved backwards (only once an ID has been issued) or an
///   overflowing sequence (only when the sequence numbers of the generator's
///   last millisecond are used up); a refused request for one ID leaves the
///   generator as it was, and a Snowflake generator that has issued nothing
///   yet always answers a request for one ID;
/// - the IDs answered are the ones the generator issued for this request,
///   one `generate` each, appended to its history in order;
/// - for Snowflake, the IDs answered are new: the generator moved forward,
///   and (while the timestamp fits 41 bits) they strictly increase, lie above
///   every ID it issued before, and no text repeats (`spec_issued_in_order`).
pub open spec fn spec_generate_outcome(
    pre: AppState,
    post: AppState,
    algorithm: Seq<char>,
    count: usize,
    r: Result<BatchIdResponse, (u16, ErrorResponse)>,
) -> bool {
    match AppState::spec_lookup(algorithm) {
        None => {
            &&& post == pre
            &&& r matches Err((status, body)) && status == 404 && body.error && body.message@
                == "不支持的算法："@ + algorithm
        },
        Some(t) => {
            &&& (t != GeneratorType::Snowflake ==> post.snowflake == pre.snowflake)
            &&& (t != GeneratorType::ULID ==> post.ulid == pre.ulid)
            &&& (t != GeneratorType::NanoID ==> post.nanoid == pre.nanoid)
            &&& forall|id: Seq<char>| #[trigger] post.spec_issues(t, id) == pre.spec_issues(t, id)
            &&& match r {
                Ok(resp) => {
                    &&& post.spec_history(t) == pre.spec_history(t) + spec_texts(resp.ids@)
                    &&& resp.algorithm@ == algorithm
                    &&& resp.count == spec_batch_size(count)
                    &&& resp.ids@.len() == spec_batch_size(count)
                    &&& forall|i: int|
                        0 <= i < resp.ids@.len() ==> pre.spec_issues(t, (#[trigger] resp.ids@[i])@)
                    &&& t == GeneratorType::Snowflake ==> spec_issued_in_order(
                        pre.snowflake@,
                        post.snowflake@,
                        resp.ids@,
                    )
                },
                Err((status, body)) => {
                    &&& t == GeneratorType::Snowflake
                    &&& status == 500
                    &&& body.error
                    &&& spec_batch_size(count) == 1 ==> post.snowflake@ == pre.snowflake@
                    &&& {
                        ||| body.message@ == AppError::Generator(GeneratorError::ClockMovedBackwards).spec_message()
                            && post.snowflake@.last_timestamp > 0
                        ||| body.message@ == AppError::Generator(GeneratorError::SequenceOverflow).spec_message()
                            && post.snowflake@.sequence == MAX_SEQUENCE
                    }
                },
            }
            &&& (t == GeneratorType::Snowflake && spec_batch_size(count) == 1 && pre.snowflake@.is_fresh()
                ==> r is Ok)
        },
    }
}

/// The answer for the IDs that a generator issued for the algorithm named
/// `algorithm`: the IDs with the name and their count, or, when the
/// generator failed, 500 with the message of its error.
pub fn batch_answer(result: Result<Vec<String>, AppError>, algorithm: &str) -> (r: Result<
    BatchIdResponse,
    (u16, ErrorResponse),
>)
    ensures
        match result {
            Ok(ids) => r matches Ok(resp) && resp.ids@ == ids@ && resp.algorithm@ == algorithm@
                && resp.count == ids@.len(),
            Err(e) => r matches Err((status, body)) && status == 500 && body.error && body.message@
                == e.spec_message(),
        },
{
    match result {
        Ok(ids) => {
            let count = ids.len();
            Ok(BatchIdResponse { ids, algorithm: algorithm.to_owned(), count })
        },
        Err(e) => Err((500, ErrorResponse { error: true, message: e.message() })),
    }
}

/// Issues `count` IDs (one when `count` is 1) with the generator of
/// algorithm `t`.
fn generate_with(state: &mut AppState, t: GeneratorType, count: usize) -> (r: Result<Vec<String>, AppError>)
    requires
        count >= 1,
    ensures
        t != GeneratorType::Snowflake ==> final(state).snowflake == old(state).snowflake,
        t != GeneratorType::ULID ==> final(state).ulid == old(state).ulid,
        t != GeneratorType::NanoID ==> final(state).nanoid == old(state).nanoid,
        forall|id: Seq<char>| #[trigger] final(state).spec_issues(t, id) == old(state).spec_issues(t, id),
        r matches Ok(ids) ==> ids@.len() == count && forall|i: int|
            0 <= i < count ==> old(state).spec_issues(t, (#[trigger] ids@[i])@),
        r matches Err(e) ==> t == GeneratorType::Snowflake && (e == AppError::Generator(
            GeneratorError::ClockMovedBackwards,
        ) || e == AppError::Generator(GeneratorError::SequenceOverflow)),
        r matches Err(e) ==> {
            ||| e == AppError::Generator(GeneratorError::ClockMovedBackwards)
                && final(state).snowflake@.last_timestamp > 0
            ||| e == AppError::Generator(GeneratorError::SequenceOverflow)
                && final(state).snowflake@.sequence == MAX_SEQUENCE
        },
        r is Err && count == 1 ==> final(state).snowflake@ == old(state).snowflake@,
        t == GeneratorType::Snowflake ==> (r matches Ok(ids) ==> spec_issued_in_order(
            old(state).snowflake@,
            final(state).snowflake@,
            ids@,
        )),
        t == GeneratorType::Snowflake && count == 1 && old(state).snowflake@.is_fresh() ==> r is Ok,
        r matches Ok(ids) ==> final(state).spec_history(t) == old(state).spec_history(t) + spec_texts(ids@),
{
    match t {
        GeneratorType::Snowflake => {
            if count == 1 {
                let ghost pre = state.snowflake@;
                match state.snowflake.generate() {
                    Ok(id) => {
                        let ids = vec![id];
                        proof {
                            lemma_texts(ids@);
                            assert(spec_texts(ids@) =~= seq![ids@[0]@]);
                            let values = seq![state.snowflake@.current_id()];
                            assert(values.len() == ids@.len());
                            assert(ids@[0]@ == spec_decimal(values[0] as nat));
                            assert(spec_issued_in_order(pre, state.snowflake@, ids@));
                        }
                        Ok(ids)
                    },
                    Err(e) => Err(e),
                }
            } else {
                state.snowflake.generate_batch(count)
            }
        },
        GeneratorType::ULID => {
            if count == 1 {
                match state.ulid.generate() {
                    Ok(id) => {
                        let ids = vec![id];
                        proof {
                            lemma_texts(ids@);
                            assert(spec_texts(ids@) =~= seq![ids@[0]@]);
                        }
                        Ok(ids)
                    },
                    Err(e) => Err(e),
                }
            } else {
                state.ulid.generate_batch(count)
            }
        },
        GeneratorType::NanoID => {
            if count == 1 {
                match state.nanoid.generate() {
                    Ok(id) => {
                        let ids = vec![id];
                        proof {
                            lemma_texts(ids@);
                            assert(spec_texts(ids@) =~= seq![ids@[0]@]);
                        }
                        Ok(ids)
                    },
                    Err(e) => Err(e),
                }
            } else {
                state.nanoid.generate_batch(count)
            }
        },
    }
}

/// Answers a request for `count` IDs of the algorithm named `algorithm`
/// (see `spec_generate_outcome`).
pub fn generate_ids(state: &mut AppState, algorithm: &str, count: usize) -> (r: Result<
    BatchIdResponse,
    (u16, ErrorResponse),
>)
    ensures
        spec_generate_outcome(*old(state), *final(state), algorithm@, count, r),
{
    let count = if count > MAX_IDS_PER_REQUEST {
        MAX_IDS_PER_REQUEST
    } else if count < 1 {
        1
    } else {
        count
    };
    let t = match state.get_generator(algorithm) {
        Some(t) => t,
        None => {
            let mut message = "不支持的算法：".to_owned();
            message.append(algorithm);
            return Err((404, ErrorResponse { error: true, message }));
        },
    };
    batch_answer(generate_with(state, t, count), algorithm)
}

/// Answers a request of the batch endpoint: a count outside 1-1000 is
/// refused with 400 and the state unchanged; any other is answered as
/// `generate_ids` answers it.
pub fn batch_generate(state: &mut AppState, algorithm: &str, count: usize) -> (r: Result<
    BatchIdResponse,
    (u16, ErrorResponse),
>)
    ensures
        count == 0 || count > MAX_BATCH_COUNT ==> {
            &&& *final(state) == *old(state)
            &&& r matches Err((status, body)) && status == 400 && body.error && body.message@
                == "count 必须在 1-1000 范围内"@
        },
        1 <= count <= MAX_BATCH_COUNT ==> spec_generate_outcome(*old(state), *final(state), algorithm@, count, r),
{
    if count == 0 || count > MAX_BATCH_COUNT {
        return Err((400, ErrorResponse { error: true, message: "count 必须在 1-1000 范围内".to_owned() }));
    }
    generate_ids(state, algorithm, count)
}

/// The answer to a health check: "healthy", and the time in Unix milliseconds.
pub fn health_check() -> (r: HealthResponse)
    ensures
        r.status@ == "healthy"@,
        exists|secs: i64, ms: u16| ms < 1000 && r.timestamp == spec_millis(secs, ms),
{
    HealthResponse { status: "healthy".to_owned(), timestamp: current_timestamp_millis() }
}

/// The answer to a readiness check: each generator is asked for one ID;
/// "ready" when all of them issue it, "not_ready" otherwise; and the time in
/// Unix milliseconds. Only the Snowflake generator can fail, and it fails
/// exactly when its state stays as it was; a generator that has issued no ID
/// yet cannot fail, so fresh generators answer "ready".
pub fn readiness_check(state: &mut AppState) -> (r: HealthResponse)
    ensures
        r.status@ == "ready"@ || r.status@ == "not_ready"@,
        r.status@ == "not_ready"@ <==> final(state).snowflake@ == old(state).snowflake@,
        r.status@ == "ready"@ ==> old(state).snowflake@.precedes(final(state).snowflake@),
        old(state).snowflake@.is_fresh() ==> r.status@ == "ready"@,
        final(state).ulid == old(state).ulid,
        final(state).nanoid@ == old(state).nanoid@,
        exists|secs: i64, ms: u16| ms < 1000 && r.timestamp == spec_millis(secs, ms),
{
    proof {
        reveal_strlit("ready");
        reveal_strlit("not_ready");
        assert("ready"@.len() != "not_ready"@.len());
    }
    let mut ready = match state.snowflake.generate() {
        Ok(_) => true,
        Err(_) => false,
    };
    if ready {
        // A ULID is always issued; asking for one leaves the generator as it was.
        let _ulid = state.ulid.next_id();
    }
    if ready {
        ready = state.nanoid.generate().is_ok();
    }
    let status = if ready {
        "ready".to_owned()
    } else {
        "not_ready".to_owned()
    };
    HealthResponse { status, timestamp: current_timestamp_millis() }
}

} // verus!
