//! Token counts.
use vstd::prelude::*;

use crate::json::{
    int_json, json_object, json_of_u64, json_u64, object_in, opt_json, u64_in, Json, JsonObject,
    JsonValue, Obj,
};
use crate::llm::{no_usage, CacheDetails, Usage};

verus! {

/// A count, or zero where it is not known.
pub open spec fn or_zero(count: Option<u64>) -> int {
    match count {
        Some(n) => n as int,
        None => 0,
    }
}

/// `a - b`, or zero where `b` is the larger.
pub open spec fn minus(a: u64, b: int) -> u64 {
    if a >= b {
        (a - b) as u64
    } else {
        0
    }
}

/// The usage that the fields of `usageMetadata` say.
pub open spec fn usage_fields(o: Obj) -> Usage {
    let cached = u64_in(o.get("cachedContentTokenCount"@));
    Usage {
        input_tokens: match u64_in(o.get("promptTokenCount"@)) {
            Some(tokens) => Some(minus(tokens, or_zero(cached))),
            None => None,
        },
        cache: CacheDetails { cached, creation: None },
        output_tokens: u64_in(o.get("candidatesTokenCount"@)),
        total_tokens: u64_in(o.get("totalTokenCount"@)),
        reasoning_tokens: u64_in(o.get("thoughtsTokenCount"@)),
    }
}

/// The usage that `usageMetadata` says; none where it is no object.
pub open spec fn usage_of(value: Option<Json>) -> Usage {
    match object_in(value) {
        Some(o) => usage_fields(o),
        None => no_usage(),
    }
}

/// Normalizes `usageMetadata`. `promptTokenCount` includes cached tokens, while the input
/// count of the model excludes them.
pub fn decode_gemini_usage(value: Option<&JsonValue>) -> (usage: Usage)
    ensures
        usage == usage_of(opt_json(value)),
{
    let o = match json_object(value) {
        Some(o) => o,
        None => return Usage::default(),
    };
    let cached = json_u64(o.get("cachedContentTokenCount"));
    let served: u64 = match cached {
        Some(n) => n,
        None => 0,
    };
    let input_tokens = match json_u64(o.get("promptTokenCount")) {
        Some(tokens) => Some(
            if tokens >= served {
                tokens - served
            } else {
                0
            },
        ),
        None => None,
    };
    Usage {
        input_tokens,
        cache: Usage::cache_details(cached, None),
        output_tokens: json_u64(o.get("candidatesTokenCount")),
        total_tokens: json_u64(o.get("totalTokenCount")),
        reasoning_tokens: json_u64(o.get("thoughtsTokenCount")),
    }
}

/// All input tokens, with those that a cache served or took up.
pub open spec fn prompt_tokens(usage: Usage) -> int {
    or_zero(usage.input_tokens) + or_zero(usage.cache.cached) + or_zero(usage.cache.creation)
}

/// All tokens, counted up.
pub open spec fn counted_tokens(usage: Usage) -> int {
    prompt_tokens(usage) + or_zero(usage.output_tokens) + or_zero(usage.reasoning_tokens)
}

/// `o` with the field `key` set to a count, where it is known.
pub open spec fn with_count(o: Obj, key: Seq<char>, count: Option<u64>) -> Obj {
    match count {
        Some(n) => o.insert(key, int_json(n as int)),
        None => o,
    }
}

/// The `usageMetadata` that says a usage.
pub open spec fn usage_json(usage: Usage) -> Json {
    let total = match usage.total_tokens {
        Some(n) => n as int,
        None => counted_tokens(usage),
    };
    let counts = map![
        "promptTokenCount"@ => int_json(prompt_tokens(usage)),
        "candidatesTokenCount"@ => int_json(or_zero(usage.output_tokens)),
        "totalTokenCount"@ => int_json(total)
    ];
    Json::Object(
        with_count(
            with_count(counts, "cachedContentTokenCount"@, usage.cache.cached),
            "thoughtsTokenCount"@,
            usage.reasoning_tokens,
        ),
    )
}

fn count_or_zero(count: Option<u64>) -> (n: u64)
    ensures
        n == or_zero(count),
{
    match count {
        Some(n) => n,
        None => 0,
    }
}

/// Tests whether all tokens, counted up, fit in the number that they are written as.
pub fn counts_fit(usage: &Usage) -> (fit: bool)
    ensures
        fit == (counted_tokens(*usage) <= u64::MAX),
{
    let prompt: u128 = count_or_zero(usage.input_tokens) as u128 + count_or_zero(
        usage.cached_input_tokens(),
    ) as u128 + count_or_zero(usage.cache_creation_input_tokens()) as u128;
    let counted: u128 = prompt + count_or_zero(usage.output_tokens) as u128 + count_or_zero(
        usage.reasoning_tokens,
    ) as u128;
    counted <= u64::MAX as u128
}

/// Encodes normalized usage as `usageMetadata`.
pub fn encode_gemini_usage(usage: &Usage) -> (value: JsonValue)
    requires
        counted_tokens(*usage) <= u64::MAX,
    ensures
        value@ == usage_json(*usage),
{
    let cached = usage.cached_input_tokens();
    let prompt: u64 = count_or_zero(usage.input_tokens) + count_or_zero(cached) + count_or_zero(
        usage.cache_creation_input_tokens(),
    );
    let candidates: u64 = count_or_zero(usage.output_tokens);
    let counted: u64 = prompt + candidates + count_or_zero(usage.reasoning_tokens);
    let total: u64 = match usage.total_tokens {
        Some(n) => n,
        None => counted,
    };
    let mut value = JsonObject::new().with("promptTokenCount", json_of_u64(prompt)).with(
        "candidatesTokenCount",
        json_of_u64(candidates),
    ).with("totalTokenCount", json_of_u64(total));
    match cached {
        Some(n) => value.insert("cachedContentTokenCount", json_of_u64(n)),
        None => {},
    }
    match usage.reasoning_tokens {
        Some(n) => value.insert("thoughtsTokenCount", json_of_u64(n)),
        None => {},
    }
    JsonValue::Object(value)
}

} // verus!
