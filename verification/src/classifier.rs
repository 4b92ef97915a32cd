//! Classification of transactions before execution, by target address and
//! function selector, so that each can be routed to the environment that
//! executes it.

use crate::primitives::{address_bytes, Address};
use crate::text::{append, checksum_text, digit_char, digit_text};
use vstd::prelude::*;

verus! {

/// The identity registry: `0x8004000000000000000000000000000000000001`.
pub open spec fn identity_registry() -> Address {
    Address { hi: 0x8004_0000, lo: 1 }
}

/// The reputation registry: `0x8004000000000000000000000000000000000002`.
pub open spec fn reputation_registry() -> Address {
    Address { hi: 0x8004_0000, lo: 2 }
}

/// The validation registry: `0x8004000000000000000000000000000000000003`.
pub open spec fn validation_registry() -> Address {
    Address { hi: 0x8004_0000, lo: 3 }
}

/// The inference precompile: `0x…1000`.
pub open spec fn ai_inference() -> Address {
    Address { hi: 0, lo: 0x1000 }
}

/// The vector similarity precompile: `0x…1001`.
pub open spec fn vector_similarity() -> Address {
    Address { hi: 0, lo: 0x1001 }
}

/// The intent parser precompile: `0x…1002`.
pub open spec fn intent_parser() -> Address {
    Address { hi: 0, lo: 0x1002 }
}

/// The SVM router precompile: `0x…1003`.
pub open spec fn svm_router() -> Address {
    Address { hi: 0, lo: 0x1003 }
}

/// The cross-chain message passer precompile: `0x…4200`.
pub open spec fn cross_chain_message_passer() -> Address {
    Address { hi: 0, lo: 0x4200 }
}

/// The well-known addresses.
pub struct WellKnown;

impl WellKnown {
    /// The identity registry.
    pub fn identity_registry() -> (a: Address)
        ensures
            a == identity_registry(),
    {
        Address { hi: 0x8004_0000, lo: 1 }
    }

    /// The reputation registry.
    pub fn reputation_registry() -> (a: Address)
        ensures
            a == reputation_registry(),
    {
        Address { hi: 0x8004_0000, lo: 2 }
    }

    /// The validation registry.
    pub fn validation_registry() -> (a: Address)
        ensures
            a == validation_registry(),
    {
        Address { hi: 0x8004_0000, lo: 3 }
    }

    /// The inference precompile.
    pub fn ai_inference() -> (a: Address)
        ensures
            a == ai_inference(),
    {
        Address { hi: 0, lo: 0x1000 }
    }

    /// The vector similarity precompile.
    pub fn vector_similarity() -> (a: Address)
        ensures
            a == vector_similarity(),
    {
        Address { hi: 0, lo: 0x1001 }
    }

    /// The intent parser precompile.
    pub fn intent_parser() -> (a: Address)
        ensures
            a == intent_parser(),
    {
        Address { hi: 0, lo: 0x1002 }
    }

    /// The SVM router precompile.
    pub fn svm_router() -> (a: Address)
        ensures
            a == svm_router(),
    {
        Address { hi: 0, lo: 0x1003 }
    }

    /// The cross-chain message passer precompile.
    pub fn cross_chain_message_passer() -> (a: Address)
        ensures
            a == cross_chain_message_passer(),
    {
        Address { hi: 0, lo: 0x4200 }
    }
}

/// How a transaction is to be executed.
#[derive(Clone, Copy, Debug, PartialEq, Eq, Structural)]
pub enum TransactionClassification {
    /// Standard execution; no routing.
    PureEvm,
    /// Routed to the Solana VM.
    SvmRouted,
    /// An operation across chains.
    HybridCrossChain,
    /// Needs context injected before execution.
    RagEnhanced,
    /// Commerce between agents, through the registries.
    AgentToAgent,
}

impl TransactionClassification {
    /// The name of the classification.
    pub open spec fn name_of(self) -> Seq<char> {
        match self {
            TransactionClassification::PureEvm => "PureEvm"@,
            TransactionClassification::SvmRouted => "SvmRouted"@,
            TransactionClassification::HybridCrossChain => "HybridCrossChain"@,
            TransactionClassification::RagEnhanced => "RagEnhanced"@,
            TransactionClassification::AgentToAgent => "AgentToAgent"@,
        }
    }

    /// The name of the classification.
    pub fn name(&self) -> (name: &'static str)
        ensures
            name@ == self.name_of(),
    {
        match self {
            TransactionClassification::PureEvm => "PureEvm",
            TransactionClassification::SvmRouted => "SvmRouted",
            TransactionClassification::HybridCrossChain => "HybridCrossChain",
            TransactionClassification::RagEnhanced => "RagEnhanced",
            TransactionClassification::AgentToAgent => "AgentToAgent",
        }
    }

    /// The name of the classification, as text of its own.
    pub fn to_text(&self) -> (name: String)
        ensures
            name@ == self.name_of(),
    {
        self.name().to_owned()
    }
}

/// A classification, how sure it is, and why it was made.
#[derive(Debug, PartialEq, Eq)]
pub struct ClassificationResult {
    /// The classification.
    pub classification: TransactionClassification,
    /// The confidence, in hundredths: 100 is certain.
    pub confidence: u8,
    /// The reason, in words.
    pub reason: String,
}

impl Clone for ClassificationResult {
    fn clone(&self) -> (copy: Self)
        ensures
            copy.classification == self.classification,
            copy.confidence == self.confidence,
            copy.reason@ == self.reason@,
    {
        ClassificationResult {
            classification: self.classification,
            confidence: self.confidence,
            reason: self.reason.clone(),
        }
    }
}

/// The settings of the classifier.
#[derive(Clone, Copy, Debug, PartialEq, Eq, Structural)]
pub struct ClassifierConfig {
    /// The confidence, in hundredths, below which a classification other
    /// than `PureEvm` is given up for `PureEvm`.
    pub confidence_threshold: u8,
    /// Whether the classifier classifies at all.
    pub enabled: bool,
}

impl Default for ClassifierConfig {
    fn default() -> (config: Self)
        ensures
            config == (ClassifierConfig { confidence_threshold: 70, enabled: true }),
    {
        ClassifierConfig { confidence_threshold: 70, enabled: true }
    }
}

/// What the rules find in a transaction.
#[derive(Clone, Copy, Debug, PartialEq, Eq, Structural)]
pub enum Finding {
    /// The transaction creates a contract.
    ContractCreation,
    /// The target is one of the three registries.
    Registry,
    /// The target is the SVM router.
    SvmRouterTarget,
    /// The target is the inference or the vector similarity precompile.
    RagTarget,
    /// The target is the cross-chain message passer.
    CrossChainTarget,
    /// The calldata starts with the SVM route selector.
    SvmSelector,
    /// The calldata starts with the vector search or inference selector.
    RagSelector,
    /// The calldata starts with the intent parser selector.
    IntentSelector,
    /// The calldata starts with a selector of the registries.
    RegistrySelector,
    /// None of the above.
    Plain,
}

/// Whether `input` starts with the four bytes of a selector.
pub open spec fn starts_with(input: Seq<u8>, b0: u8, b1: u8, b2: u8, b3: u8) -> bool {
    input.len() >= 4 && input[0] == b0 && input[1] == b1 && input[2] == b2 && input[3] == b3
}

/// What the rules find: the target decides first, then the selector.
pub open spec fn finding_of(to: Option<Address>, input: Seq<u8>) -> Finding {
    match to {
        None => Finding::ContractCreation,
        Some(target) => if target == identity_registry() || target == reputation_registry()
            || target == validation_registry() {
            Finding::Registry
        } else if target == svm_router() {
            Finding::SvmRouterTarget
        } else if target == vector_similarity() || target == ai_inference() {
            Finding::RagTarget
        } else if target == cross_chain_message_passer() {
            Finding::CrossChainTarget
        } else if starts_with(input, 0x53, 0x56, 0x4d, 0x00) {
            Finding::SvmSelector
        } else if starts_with(input, 0x76, 0x65, 0x63, 0x73) || starts_with(
            input,
            0x61,
            0x69,
            0x6e,
            0x66,
        ) {
            Finding::RagSelector
        } else if starts_with(input, 0x69, 0x6e, 0x74, 0x70) {
            Finding::IntentSelector
        } else if starts_with(input, 0x1a, 0xa3, 0xa0, 0x08) || starts_with(
            input,
            0x2b,
            0x4d,
            0x7c,
            0xf5,
        ) || starts_with(input, 0x3c, 0x5e, 0x8d, 0x06) {
            Finding::RegistrySelector
        } else {
            Finding::Plain
        },
    }
}

impl Finding {
    /// The classification that the finding stands for.
    pub open spec fn classification(self) -> TransactionClassification {
        match self {
            Finding::ContractCreation | Finding::Plain => TransactionClassification::PureEvm,
            Finding::Registry | Finding::RegistrySelector => TransactionClassification::AgentToAgent,
            Finding::SvmRouterTarget | Finding::SvmSelector => TransactionClassification::SvmRouted,
            Finding::RagTarget | Finding::RagSelector | Finding::IntentSelector =>
                TransactionClassification::RagEnhanced,
            Finding::CrossChainTarget => TransactionClassification::HybridCrossChain,
        }
    }

    /// The confidence of the finding, in hundredths.
    pub open spec fn confidence(self) -> u8 {
        match self {
            Finding::ContractCreation | Finding::Plain => 100,
            Finding::Registry | Finding::SvmRouterTarget | Finding::CrossChainTarget => 95,
            Finding::RagTarget => 90,
            Finding::SvmSelector => 85,
            Finding::RagSelector | Finding::IntentSelector | Finding::RegistrySelector => 80,
        }
    }

    /// The reason that the finding gives; `target` is the text of the target.
    pub open spec fn reason(self, target: Seq<char>) -> Seq<char> {
        match self {
            Finding::ContractCreation => "contract creation"@,
            Finding::Registry => "targets ERC-8004 registry at "@ + target,
            Finding::SvmRouterTarget => "targets SVM Router precompile"@,
            Finding::RagTarget => "targets AI/RAG precompile at "@ + target,
            Finding::CrossChainTarget => "targets Cross-Chain Message Passer"@,
            Finding::SvmSelector => "SVM route function selector"@,
            Finding::RagSelector => "AI/RAG function selector"@,
            Finding::IntentSelector => "intent parser function selector"@,
            Finding::RegistrySelector => "ERC-8004 function selector"@,
            Finding::Plain => "no agent-specific patterns detected"@,
        }
    }
}

/// The text of the target, where there is one.
pub open spec fn target_text(to: Option<Address>) -> Seq<char> {
    match to {
        Some(target) => checksum_text(address_bytes(target@)),
        None => Seq::empty(),
    }
}

/// The text of a confidence with two decimals: `0.85` for 85, `1.00` for 100.
pub open spec fn confidence_text(confidence: u8) -> Seq<char> {
    seq![
        digit_char(confidence as int / 100 % 10),
        '.',
        digit_char(confidence as int / 10 % 10),
        digit_char(confidence as int % 10),
    ]
}

/// Whether `input` starts with the four given bytes.
fn has_selector(input: &[u8], b0: u8, b1: u8, b2: u8, b3: u8) -> (found: bool)
    ensures
        found == starts_with(input@, b0, b1, b2, b3),
{
    input.len() >= 4 && input[0] == b0 && input[1] == b1 && input[2] == b2 && input[3] == b3
}

/// What the rules find in a transaction to `to` with calldata `input`.
pub fn find(to: Option<Address>, input: &[u8]) -> (finding: Finding)
    ensures
        finding == finding_of(to, input@),
{
    let target = match to {
        Some(target) => target,
        None => {
            return Finding::ContractCreation;
        },
    };
    if target == WellKnown::identity_registry() || target == WellKnown::reputation_registry()
        || target == WellKnown::validation_registry() {
        return Finding::Registry;
    }
    if target == WellKnown::svm_router() {
        return Finding::SvmRouterTarget;
    }
    if target == WellKnown::vector_similarity() || target == WellKnown::ai_inference() {
        return Finding::RagTarget;
    }
    if target == WellKnown::cross_chain_message_passer() {
        return Finding::CrossChainTarget;
    }
    if has_selector(input, 0x53, 0x56, 0x4d, 0x00) {
        return Finding::SvmSelector;
    }
    if has_selector(input, 0x76, 0x65, 0x63, 0x73) || has_selector(input, 0x61, 0x69, 0x6e, 0x66) {
        return Finding::RagSelector;
    }
    if has_selector(input, 0x69, 0x6e, 0x74, 0x70) {
        return Finding::IntentSelector;
    }
    if has_selector(input, 0x1a, 0xa3, 0xa0, 0x08) || has_selector(input, 0x2b, 0x4d, 0x7c, 0xf5)
        || has_selector(input, 0x3c, 0x5e, 0x8d, 0x06) {
        return Finding::RegistrySelector;
    }
    Finding::Plain
}

/// Appends the text of a confidence with two decimals.
fn append_confidence(text: &mut String, confidence: u8)
    ensures
        final(text)@ == old(text)@ + confidence_text(confidence),
{
    proof {
        reveal_strlit(".");
    }
    append(text, digit_text((confidence / 100 % 10) as u64));
    append(text, ".");
    append(text, digit_text((confidence / 10 % 10) as u64));
    append(text, digit_text((confidence % 10) as u64));
    assert(text@ =~= old(text)@ + confidence_text(confidence));
}

/// The result that gives `found` up for `PureEvm`, keeping its confidence
/// and saying what it was.
pub fn fall_back(found: &ClassificationResult) -> (result: ClassificationResult)
    ensures
        result.classification == TransactionClassification::PureEvm,
        result.confidence == found.confidence,
        result.reason@ == "below threshold (was "@ + found.classification.name_of() + " at "@
            + confidence_text(found.confidence) + ")"@,
{
    let mut reason = "below threshold (was ".to_owned();
    append(&mut reason, found.classification.name());
    append(&mut reason, " at ");
    append_confidence(&mut reason, found.confidence);
    append(&mut reason, ")");
    ClassificationResult {
        classification: TransactionClassification::PureEvm,
        confidence: found.confidence,
        reason,
    }
}

/// Classifies transactions by target address, function selector and
/// calldata, before they are executed.
#[derive(Clone, Copy, Debug)]
pub struct TransactionClassifier {
    config: ClassifierConfig,
}

impl TransactionClassifier {
    /// The settings of the classifier.
    pub closed spec fn settings(&self) -> ClassifierConfig {
        self.config
    }

    /// The classifier with the given settings.
    pub fn new(config: ClassifierConfig) -> (classifier: Self)
        ensures
            classifier.settings() == config,
    {
        TransactionClassifier { config }
    }

    /// The classifier with the default settings.
    pub fn enabled() -> (classifier: Self)
        ensures
            classifier.settings() == (ClassifierConfig { confidence_threshold: 70, enabled: true }),
    {
        TransactionClassifier { config: ClassifierConfig { confidence_threshold: 70, enabled: true } }
    }

    /// The classifier that classifies nothing: every transaction is `PureEvm`.
    pub fn disabled() -> (classifier: Self)
        ensures
            classifier.settings() == (ClassifierConfig { confidence_threshold: 70, enabled: false }),
    {
        TransactionClassifier {
            config: ClassifierConfig { confidence_threshold: 70, enabled: false },
        }
    }

    /// What the rules make of a transaction to `to` with calldata `input`,
    /// whatever the settings: the classification, confidence and reason of
    /// what they find.
    pub fn classify_inner(&self, to: Option<Address>, input: &[u8]) -> (result: ClassificationResult)
        ensures
            result.classification == finding_of(to, input@).classification(),
            result.confidence == finding_of(to, input@).confidence(),
            result.reason@ == finding_of(to, input@).reason(target_text(to)),
    {
        let finding = find(to, input);
        match finding {
            Finding::ContractCreation => ClassificationResult {
                classification: TransactionClassification::PureEvm,
                confidence: 100,
                reason: "contract creation".to_owned(),
            },
            Finding::Registry => {
                let mut reason = "targets ERC-8004 registry at ".to_owned();
                let shown = match to {
                    Some(target) => target.to_text(),
                    None => String::new(),
                };
                append(&mut reason, shown.as_str());
                ClassificationResult {
                    classification: TransactionClassification::AgentToAgent,
                    confidence: 95,
                    reason,
                }
            },
            Finding::SvmRouterTarget => ClassificationResult {
                classification: TransactionClassification::SvmRouted,
                confidence: 95,
                reason: "targets SVM Router precompile".to_owned(),
            },
            Finding::RagTarget => {
                let mut reason = "targets AI/RAG precompile at ".to_owned();
                let shown = match to {
                    Some(target) => target.to_text(),
                    None => String::new(),
                };
                append(&mut reason, shown.as_str());
                ClassificationResult {
                    classification: TransactionClassification::RagEnhanced,
                    confidence: 90,
                    reason,
                }
            },
            Finding::CrossChainTarget => ClassificationResult {
                classification: TransactionClassification::HybridCrossChain,
                confidence: 95,
                reason: "targets Cross-Chain Message Passer".to_owned(),
            },
            Finding::SvmSelector => ClassificationResult {
                classification: TransactionClassification::SvmRouted,
                confidence: 85,
                reason: "SVM route function selector".to_owned(),
            },
            Finding::RagSelector => ClassificationResult {
                classification: TransactionClassification::RagEnhanced,
                confidence: 80,
                reason: "AI/RAG function selector".to_owned(),
            },
            Finding::IntentSelector => ClassificationResult {
                classification: TransactionClassification::RagEnhanced,
                confidence: 80,
                reason: "intent parser function selector".to_owned(),
            },
            Finding::RegistrySelector => ClassificationResult {
                classification: TransactionClassification::AgentToAgent,
                confidence: 80,
                reason: "ERC-8004 function selector".to_owned(),
            },
            Finding::Plain => ClassificationResult {
                classification: TransactionClassification::PureEvm,
                confidence: 100,
                reason: "no agent-specific patterns detected".to_owned(),
            },
        }
    }

    /// Classifies a transaction to `to` with calldata `input`. A disabled
    /// classifier answers `PureEvm` with full confidence. Otherwise the
    /// answer is what the rules find, unless that is not `PureEvm` and its
    /// confidence is below the threshold: then it is `PureEvm` with the
    /// confidence of what was found.
    pub fn classify(&self, to: Option<Address>, input: &[u8]) -> (result: ClassificationResult)
        ensures
            !self.settings().enabled ==> result.classification == TransactionClassification::PureEvm
                && result.confidence == 100 && result.reason@ == "classifier disabled"@,
            self.settings().enabled ==> ({
                let found = finding_of(to, input@);
                let gives_up = found.classification() != TransactionClassification::PureEvm
                    && found.confidence() < self.settings().confidence_threshold;
                &&& result.confidence == found.confidence()
                &&& result.classification == (if gives_up {
                    TransactionClassification::PureEvm
                } else {
                    found.classification()
                })
                &&& result.reason@ == (if gives_up {
                    "below threshold (was "@ + found.classification().name_of() + " at "@
                        + confidence_text(found.confidence()) + ")"@
                } else {
                    found.reason(target_text(to))
                })
            }),
    {
        if !self.config.enabled {
            return ClassificationResult {
                classification: TransactionClassification::PureEvm,
                confidence: 100,
                reason: "classifier disabled".to_owned(),
            };
        }
        let result = self.classify_inner(to, input);
        if result.classification != TransactionClassification::PureEvm && result.confidence
            < self.config.confidence_threshold {
            return fall_back(&result);
        }
        result
    }
}

} // verus!
