use gemini_codec::gemini::ids::{gemini_wire_id, GeminiToolIds};
use gemini_codec::policy::{
    Capabilities, DeterministicIdPolicy, LossyPolicy, PreservationPolicy, TranslationPolicy,
};

fn policy(ids: DeterministicIdPolicy) -> TranslationPolicy {
    TranslationPolicy {
        deterministic_ids: ids,
        lossy: LossyPolicy::Report,
        preservation: PreservationPolicy::Discard,
        capabilities: Capabilities { tools: true, structured_output: true },
    }
}

fn stable() -> TranslationPolicy {
    policy(DeterministicIdPolicy::GenerateStable { prefix: "call".to_string() })
}

#[test]
fn parallel_calls_pair_in_order() {
    let p = stable();
    let mut ids = GeminiToolIds::default();
    assert_eq!(ids.call_id(None, "f", &p), "call_00000001");
    assert_eq!(ids.call_id(None, "g", &p), "call_00000002");
    assert_eq!(ids.call_id(Some(""), "f", &p), "call_00000003");
    assert_eq!(ids.result_id(None, "f"), "call_00000001");
    assert_eq!(ids.result_id(Some(""), "f"), "call_00000003");
    assert_eq!(ids.result_id(None, "g"), "call_00000002");
    assert_eq!(ids.result_id(None, "f"), "f");
}

#[test]
fn a_response_keeps_its_id() {
    let p = stable();
    let mut ids = GeminiToolIds::default();
    assert_eq!(ids.call_id(Some("a"), "f", &p), "a");
    assert_eq!(ids.call_id(Some("b"), "f", &p), "b");
    assert_eq!(ids.result_id(Some("b"), "f"), "b");
    assert_eq!(ids.result_id(Some("x"), "f"), "x");
    assert_eq!(ids.result_id(None, "f"), "a");
    assert_eq!(ids.result_id(None, "f"), "f");
}

#[test]
fn an_id_under_another_name_answers_nothing() {
    let p = stable();
    let mut ids = GeminiToolIds::default();
    assert_eq!(ids.call_id(Some("a"), "f", &p), "a");
    assert_eq!(ids.result_id(Some("a"), "g"), "a");
    assert_eq!(ids.result_id(None, "f"), "a");
}

#[test]
fn ids_stay_empty_where_the_policy_says_so() {
    let p = policy(DeterministicIdPolicy::Preserve);
    let mut ids = GeminiToolIds::default();
    assert_eq!(ids.call_id(None, "f", &p), "");
    assert_eq!(ids.result_id(None, "f"), "");
    assert_eq!(gemini_wire_id("", &p), None);
    assert_eq!(gemini_wire_id("call_00000001", &p), Some("call_00000001"));
}

#[test]
fn made_ids_are_withheld() {
    let p = stable();
    assert_eq!(gemini_wire_id("call_00000001", &p), None);
    assert_eq!(gemini_wire_id("call_123456789", &p), None);
    assert_eq!(gemini_wire_id("call_0000001", &p), Some("call_0000001"));
    assert_eq!(gemini_wire_id("call_0000000x", &p), Some("call_0000000x"));
    assert_eq!(gemini_wire_id("call00000001", &p), Some("call00000001"));
    assert_eq!(gemini_wire_id("toolu_00000001", &p), Some("toolu_00000001"));
    assert_eq!(gemini_wire_id("call_٠٠٠٠٠٠٠١", &p), Some("call_٠٠٠٠٠٠٠١"));
    assert_eq!(gemini_wire_id("", &p), None);
}
