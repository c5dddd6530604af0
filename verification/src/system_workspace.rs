//! The NixOS preview of a system-workspace proposal: both SystemSpecs are
//! translated, and the proposal itself stays semantic.
use vstd::prelude::*;
use crate::nixos::{
    steps_view, translation_outcome, validation_view, NixBackendError, NixBackendErrorView,
    NixOsBackend, StepView, TranslationStep,
};
use crate::system_spec::{canonical_system_spec, system_spec_text, SystemSpec};
use crate::text::{copy_texts, texts_view, utf8};

verus! {

/// A proposed change to the semantic system model: the baseline and proposed
/// SystemSpecs, with the semantic diff the workspace computed between them.
pub struct SystemWorkspaceProposal {
    pub title: String,
    pub desired_outcome: String,
    pub semantic_diff: Vec<String>,
    pub baseline: SystemSpec,
    pub proposed: SystemSpec,
}

/// What a NixOS host would do with a proposal, shown without leaving the semantic model.
#[derive(Clone, Debug, PartialEq, Eq)]
pub struct NixOsSystemWorkspacePreview {
    pub title: String,
    pub desired_outcome: String,
    pub semantic_diff: Vec<String>,
    pub baseline_module: String,
    pub proposed_module: String,
    pub proposed_canonical_system_spec: String,
    pub translation_trace: Vec<TranslationStep>,
}

#[derive(Clone, Debug, PartialEq, Eq)]
pub enum NixOsSystemWorkspacePreviewError {
    BaselineTranslation(NixBackendError),
    ProposedTranslation(NixBackendError),
}

/// The preview fields a successful translation of both SystemSpecs gives.
pub open spec fn preview_matches(
    p: NixOsSystemWorkspacePreview,
    proposal: SystemWorkspaceProposal,
    baseline_module: Seq<char>,
    proposed_module: Seq<char>,
    trace: Seq<StepView>,
) -> bool {
    &&& p.title@ == proposal.title@
    &&& p.desired_outcome@ == proposal.desired_outcome@
    &&& texts_view(p.semantic_diff@) == texts_view(proposal.semantic_diff@)
    &&& p.baseline_module@ == baseline_module
    &&& p.proposed_module@ == proposed_module
    &&& utf8(p.proposed_canonical_system_spec@) == system_spec_text(proposal.proposed@)
    &&& steps_view(p.translation_trace@) == trace
}

impl NixOsSystemWorkspacePreview {
    /// Translates the baseline, then the proposed SystemSpec, each with the
    /// result of its semantic validation; the first translation that fails
    /// names which side it was.
    pub fn from_proposal(
        proposal: &SystemWorkspaceProposal,
        baseline_validation: Result<(), Vec<String>>,
        proposed_validation: Result<(), Vec<String>>,
    ) -> (r: Result<Self, NixOsSystemWorkspacePreviewError>)
        ensures
            match translation_outcome(proposal.baseline@, validation_view(baseline_validation)) {
                Err(e) => r matches Err(NixOsSystemWorkspacePreviewError::BaselineTranslation(x))
                    && x@ == e,
                Ok((baseline_module, _)) => match translation_outcome(
                    proposal.proposed@,
                    validation_view(proposed_validation),
                ) {
                    Err(e) => r matches Err(
                        NixOsSystemWorkspacePreviewError::ProposedTranslation(x),
                    ) && x@ == e,
                    Ok((proposed_module, trace)) => r matches Ok(p) && preview_matches(
                        p,
                        *proposal,
                        baseline_module,
                        proposed_module,
                        trace,
                    ),
                },
            },
    {
        let baseline = match NixOsBackend::translate(&proposal.baseline, baseline_validation) {
            Ok(t) => t,
            Err(e) => {
                return Err(NixOsSystemWorkspacePreviewError::BaselineTranslation(e));
            },
        };
        let proposed = match NixOsBackend::translate(&proposal.proposed, proposed_validation) {
            Ok(t) => t,
            Err(e) => {
                return Err(NixOsSystemWorkspacePreviewError::ProposedTranslation(e));
            },
        };
        Ok(NixOsSystemWorkspacePreview {
            title: proposal.title.clone(),
            desired_outcome: proposal.desired_outcome.clone(),
            semantic_diff: copy_texts(&proposal.semantic_diff),
            baseline_module: baseline.module_text,
            proposed_module: proposed.module_text,
            proposed_canonical_system_spec: canonical_system_spec(&proposal.proposed),
            translation_trace: proposed.trace,
        })
    }
}

} // verus!
