use kora::classifier::{
    fall_back, find, ClassificationResult, ClassifierConfig, Finding, TransactionClassification,
    TransactionClassifier, WellKnown,
};
use kora::primitives::Address;

const SVM_ROUTE: [u8; 4] = [0x53, 0x56, 0x4d, 0x00];
const VECTOR_SEARCH: [u8; 4] = [0x76, 0x65, 0x63, 0x73];
const PARSE_INTENT: [u8; 4] = [0x69, 0x6e, 0x74, 0x70];
const AI_INFER: [u8; 4] = [0x61, 0x69, 0x6e, 0x66];
const REGISTER_AGENT: [u8; 4] = [0x1a, 0xa3, 0xa0, 0x08];
const GIVE_FEEDBACK: [u8; 4] = [0x2b, 0x4d, 0x7c, 0xf5];
const VALIDATION_REQUEST: [u8; 4] = [0x3c, 0x5e, 0x8d, 0x06];

#[test]
fn classify_contract_creation() {
    let classifier = TransactionClassifier::enabled();
    let result = classifier.classify(None, &[]);
    assert_eq!(result.classification, TransactionClassification::PureEvm);
    assert_eq!(result.confidence, 100);
}

#[test]
fn classify_identity_registry() {
    let classifier = TransactionClassifier::enabled();
    let result = classifier.classify(Some(WellKnown::identity_registry()), &[]);
    assert_eq!(result.classification, TransactionClassification::AgentToAgent);
    assert!(result.confidence >= 90);
}

#[test]
fn classify_reputation_registry() {
    let classifier = TransactionClassifier::enabled();
    let result = classifier.classify(Some(WellKnown::reputation_registry()), &[]);
    assert_eq!(result.classification, TransactionClassification::AgentToAgent);
}

#[test]
fn classify_validation_registry() {
    let classifier = TransactionClassifier::enabled();
    let result = classifier.classify(Some(WellKnown::validation_registry()), &[]);
    assert_eq!(result.classification, TransactionClassification::AgentToAgent);
}

#[test]
fn classify_svm_router_precompile() {
    let classifier = TransactionClassifier::enabled();
    let result = classifier.classify(Some(WellKnown::svm_router()), &[]);
    assert_eq!(result.classification, TransactionClassification::SvmRouted);
}

#[test]
fn classify_vector_similarity_precompile() {
    let classifier = TransactionClassifier::enabled();
    let result = classifier.classify(Some(WellKnown::vector_similarity()), &[]);
    assert_eq!(result.classification, TransactionClassification::RagEnhanced);
}

#[test]
fn classify_ai_inference_precompile() {
    let classifier = TransactionClassifier::enabled();
    let result = classifier.classify(Some(WellKnown::ai_inference()), &[]);
    assert_eq!(result.classification, TransactionClassification::RagEnhanced);
}

#[test]
fn classify_cross_chain_message_passer() {
    let classifier = TransactionClassifier::enabled();
    let result = classifier.classify(Some(WellKnown::cross_chain_message_passer()), &[]);
    assert_eq!(result.classification, TransactionClassification::HybridCrossChain);
}

#[test]
fn classify_svm_function_selector() {
    let classifier = TransactionClassifier::enabled();
    let input = SVM_ROUTE.to_vec();
    let result = classifier.classify(Some(Address::zero()), &input);
    assert_eq!(result.classification, TransactionClassification::SvmRouted);
}

#[test]
fn classify_vector_search_selector() {
    let classifier = TransactionClassifier::enabled();
    let input = VECTOR_SEARCH.to_vec();
    let result = classifier.classify(Some(Address::zero()), &input);
    assert_eq!(result.classification, TransactionClassification::RagEnhanced);
}

#[test]
fn classify_register_agent_selector() {
    let classifier = TransactionClassifier::enabled();
    let input = REGISTER_AGENT.to_vec();
    let result = classifier.classify(Some(Address::zero()), &input);
    assert_eq!(result.classification, TransactionClassification::AgentToAgent);
}

#[test]
fn classify_plain_transfer() {
    let classifier = TransactionClassifier::enabled();
    let result = classifier.classify(Some(Address::zero()), &[]);
    assert_eq!(result.classification, TransactionClassification::PureEvm);
}

#[test]
fn classify_unknown_calldata() {
    let classifier = TransactionClassifier::enabled();
    let input = vec![0xde, 0xad, 0xbe, 0xef, 0x01, 0x02];
    let result = classifier.classify(Some(Address::zero()), &input);
    assert_eq!(result.classification, TransactionClassification::PureEvm);
}

#[test]
fn classifier_disabled() {
    let classifier = TransactionClassifier::disabled();
    let result = classifier.classify(Some(WellKnown::identity_registry()), &[]);
    assert_eq!(result.classification, TransactionClassification::PureEvm);
    assert_eq!(result.reason, "classifier disabled");
}

#[test]
fn confidence_threshold_fallback() {
    let config = ClassifierConfig { confidence_threshold: 99, enabled: true };
    let classifier = TransactionClassifier::new(config);
    // The SVM selector has a confidence of 85, which is below the threshold of 99.
    let input = SVM_ROUTE.to_vec();
    let result = classifier.classify(Some(Address::zero()), &input);
    assert_eq!(result.classification, TransactionClassification::PureEvm);
}

#[test]
fn classification_display() {
    assert_eq!(TransactionClassification::PureEvm.to_text(), "PureEvm");
    assert_eq!(TransactionClassification::SvmRouted.to_text(), "SvmRouted");
    assert_eq!(TransactionClassification::HybridCrossChain.to_text(), "HybridCrossChain");
    assert_eq!(TransactionClassification::RagEnhanced.to_text(), "RagEnhanced");
    assert_eq!(TransactionClassification::AgentToAgent.to_text(), "AgentToAgent");
}

#[test]
fn short_calldata_no_panic() {
    let classifier = TransactionClassifier::enabled();
    // Calldata shorter than 4 bytes should not panic
    let result = classifier.classify(Some(Address::zero()), &[0x01, 0x02]);
    assert_eq!(result.classification, TransactionClassification::PureEvm);
}

#[test]
fn every_rule_gives_its_confidence_and_reason() {
    let classifier = TransactionClassifier::enabled();
    let plain = Some(Address::zero());
    let cases: Vec<(Option<Address>, Vec<u8>, TransactionClassification, u8, String)> = vec![
        (None, vec![], TransactionClassification::PureEvm, 100, "contract creation".into()),
        (
            Some(WellKnown::identity_registry()),
            SVM_ROUTE.to_vec(),
            TransactionClassification::AgentToAgent,
            95,
            "targets ERC-8004 registry at 0x8004000000000000000000000000000000000001".into(),
        ),
        (
            Some(WellKnown::svm_router()),
            vec![],
            TransactionClassification::SvmRouted,
            95,
            "targets SVM Router precompile".into(),
        ),
        (
            Some(WellKnown::ai_inference()),
            vec![],
            TransactionClassification::RagEnhanced,
            90,
            "targets AI/RAG precompile at 0x0000000000000000000000000000000000001000".into(),
        ),
        (
            Some(WellKnown::cross_chain_message_passer()),
            vec![],
            TransactionClassification::HybridCrossChain,
            95,
            "targets Cross-Chain Message Passer".into(),
        ),
        (
            plain,
            SVM_ROUTE.to_vec(),
            TransactionClassification::SvmRouted,
            85,
            "SVM route function selector".into(),
        ),
        (
            plain,
            AI_INFER.to_vec(),
            TransactionClassification::RagEnhanced,
            80,
            "AI/RAG function selector".into(),
        ),
        (
            plain,
            PARSE_INTENT.to_vec(),
            TransactionClassification::RagEnhanced,
            80,
            "intent parser function selector".into(),
        ),
        (
            plain,
            GIVE_FEEDBACK.to_vec(),
            TransactionClassification::AgentToAgent,
            80,
            "ERC-8004 function selector".into(),
        ),
        (
            plain,
            VALIDATION_REQUEST.to_vec(),
            TransactionClassification::AgentToAgent,
            80,
            "ERC-8004 function selector".into(),
        ),
        (
            Some(WellKnown::intent_parser()),
            vec![1, 2, 3, 4],
            TransactionClassification::PureEvm,
            100,
            "no agent-specific patterns detected".into(),
        ),
    ];
    for (to, input, classification, confidence, reason) in cases {
        let result = classifier.classify_inner(to, &input);
        assert_eq!(result, ClassificationResult { classification, confidence, reason });
    }
}

#[test]
fn findings_by_target_and_selector() {
    assert_eq!(find(None, &SVM_ROUTE), Finding::ContractCreation);
    assert_eq!(find(Some(WellKnown::validation_registry()), &[]), Finding::Registry);
    assert_eq!(find(Some(WellKnown::vector_similarity()), &[]), Finding::RagTarget);
    assert_eq!(find(Some(Address::zero()), &VECTOR_SEARCH), Finding::RagSelector);
    assert_eq!(find(Some(Address::zero()), &[0x53, 0x56, 0x4d]), Finding::Plain);
    assert_eq!(find(Some(Address::zero()), &[0x53, 0x56, 0x4d, 0x00, 0xff]), Finding::SvmSelector);
}

#[test]
fn fallback_says_what_was_given_up() {
    let classifier =
        TransactionClassifier::new(ClassifierConfig { confidence_threshold: 99, enabled: true });
    let result = classifier.classify(Some(Address::zero()), &SVM_ROUTE);
    assert_eq!(
        result,
        ClassificationResult {
            classification: TransactionClassification::PureEvm,
            confidence: 85,
            reason: "below threshold (was SvmRouted at 0.85)".into(),
        }
    );
    let certain = ClassificationResult {
        classification: TransactionClassification::AgentToAgent,
        confidence: 100,
        reason: String::new(),
    };
    assert_eq!(fall_back(&certain).reason, "below threshold (was AgentToAgent at 1.00)");
    let low = ClassificationResult {
        classification: TransactionClassification::RagEnhanced,
        confidence: 5,
        reason: String::new(),
    };
    assert_eq!(fall_back(&low).reason, "below threshold (was RagEnhanced at 0.05)");
}

#[test]
fn threshold_is_not_applied_to_pure_evm_and_is_inclusive() {
    let strict =
        TransactionClassifier::new(ClassifierConfig { confidence_threshold: 255, enabled: true });
    let plain = strict.classify(Some(Address::zero()), &[]);
    assert_eq!(plain.classification, TransactionClassification::PureEvm);
    assert_eq!(plain.reason, "no agent-specific patterns detected");

    let exact =
        TransactionClassifier::new(ClassifierConfig { confidence_threshold: 85, enabled: true });
    let kept = exact.classify(Some(Address::zero()), &SVM_ROUTE);
    assert_eq!(kept.classification, TransactionClassification::SvmRouted);
    assert_eq!(ClassifierConfig::default(), ClassifierConfig { confidence_threshold: 70, enabled: true });
}
