use blob_nixos::nixos::NixBackendError;
use blob_nixos::system_spec::{
    KernelPolicy, SemanticBuildProfile, SystemArchitecture, SystemChannel, SystemConstructionMode,
    SystemFeatureSelection, SystemPriority, SystemSpec,
};
use blob_nixos::system_workspace::{
    NixOsSystemWorkspacePreview, NixOsSystemWorkspacePreviewError, SystemWorkspaceProposal,
};

fn spec(bluetooth: SystemFeatureSelection) -> SystemSpec {
    SystemSpec {
        id: "system:linux-pilot".into(),
        hostname: "blob-pilot".into(),
        architecture: SystemArchitecture::X86_64,
        base_channel: SystemChannel::Stable,
        kernel_policy: KernelPolicy::LatestSupported,
        profile: SemanticBuildProfile {
            id: "profile:development-balanced".into(),
            construction_mode: SystemConstructionMode::AiDesigned,
            priorities: vec![SystemPriority::Reliability],
            features: vec![bluetooth, SystemFeatureSelection::enabled("pipewire")],
        },
        experience_profile: None,
    }
}

/// The Bluetooth proposal of the system workspace: the same host, with
/// Bluetooth turned on.
fn bluetooth_proposal() -> SystemWorkspaceProposal {
    SystemWorkspaceProposal {
        title: "Enable Bluetooth".into(),
        desired_outcome: "Pair Bluetooth headphones".into(),
        semantic_diff: vec!["feature:bluetooth: disabled -> enabled".into()],
        baseline: spec(SystemFeatureSelection::disabled("bluetooth")),
        proposed: spec(SystemFeatureSelection::enabled("bluetooth")),
    }
}

fn bluetooth_demo() -> NixOsSystemWorkspacePreview {
    NixOsSystemWorkspacePreview::from_proposal(&bluetooth_proposal(), Ok(()), Ok(()))
        .expect("the Bluetooth proposal must be supported by the NixOS backend")
}

#[test]
fn bluetooth_preview_keeps_native_translation_out_of_the_system_workspace_model() {
    let preview = bluetooth_demo();
    assert_eq!(preview.semantic_diff, vec!["feature:bluetooth: disabled -> enabled"]);
    assert!(preview.baseline_module.contains("hardware.bluetooth.enable = false;"));
    assert!(preview.proposed_module.contains("hardware.bluetooth.enable = true;"));
    assert!(preview.proposed_canonical_system_spec.starts_with("theblob-system-spec-v1\n"));
    assert!(preview.translation_trace.iter().any(|step| {
        step.semantic_source == "feature:bluetooth=enabled" && step.nix_target == "hardware.bluetooth.enable"
    }));
}

#[test]
fn canonical_request_contains_no_native_nix_escape_hatch() {
    let preview = bluetooth_demo();
    assert!(!preview.proposed_canonical_system_spec.contains("hardware.bluetooth.enable"));
    assert!(!preview.proposed_canonical_system_spec.contains("raw-nix"));
    assert!(!preview.proposed_canonical_system_spec.contains("builtins."));
    assert!(!preview.proposed_canonical_system_spec.contains("--impure"));
}

#[test]
fn an_unsupported_proposed_feature_names_the_proposed_side() {
    let mut proposal = bluetooth_proposal();
    proposal.proposed.profile.features.push(SystemFeatureSelection::enabled("teleport"));
    assert_eq!(
        NixOsSystemWorkspacePreview::from_proposal(&proposal, Ok(()), Ok(())),
        Err(NixOsSystemWorkspacePreviewError::ProposedTranslation(NixBackendError::UnsupportedFeature(
            "teleport".into()
        )))
    );
}

#[test]
fn an_invalid_baseline_is_reported_before_the_proposal() {
    let proposal = bluetooth_proposal();
    assert_eq!(
        NixOsSystemWorkspacePreview::from_proposal(&proposal, Err(vec!["bad baseline".into()]), Err(vec![])),
        Err(NixOsSystemWorkspacePreviewError::BaselineTranslation(NixBackendError::InvalidSpec(vec![
            "bad baseline".into()
        ])))
    );
}
