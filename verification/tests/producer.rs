use blob_nixos::candidate_producer::{
    one_store_path, StdNixCandidateSourceBuilder, canonical_candidate_flake, canonical_candidate_receipt, canonical_system_spec, nix_string,
    parse_canonical_system_spec, CandidateManifestReceipt, CandidateProducerError,
    CanonicalSystemSpecError, ProducerLayoutFacts, RootSystemSpecCandidateProducer,
};
use blob_nixos::fsmeta::FileFacts;
use blob_nixos::nixos::{NixOsBackend, NixTranslation, TranslationStep};
use blob_nixos::system_spec::{
    validate_id, KernelPolicy, SemanticBuildProfile, SystemArchitecture, SystemChannel,
    SystemConstructionMode, SystemFeatureSelection, SystemPriority, SystemSpec,
};

use blob_nixos::system_spec::{accept_parsed_system_spec, parse_system_spec_fields};

fn spec() -> SystemSpec {
    SystemSpec {
        id: "system:linux-pilot".into(),
        hostname: "blob-pilot".into(),
        architecture: SystemArchitecture::X86_64,
        base_channel: SystemChannel::Stable,
        kernel_policy: KernelPolicy::LatestSupported,
        profile: SemanticBuildProfile {
            id: "profile:development-balanced".into(),
            construction_mode: SystemConstructionMode::AiDesigned,
            priorities: vec![SystemPriority::Reliability, SystemPriority::Energy],
            features: vec![
                SystemFeatureSelection::enabled("bluetooth"),
                SystemFeatureSelection::enabled("hyprland"),
                SystemFeatureSelection::enabled("pipewire"),
                SystemFeatureSelection::disabled("printing"),
            ],
        },
        experience_profile: Some("experience:hyprland".into()),
    }
}

fn dir() -> FileFacts {
    FileFacts { is_symlink: false, is_dir: true, is_file: false, uid: 0, mode: 0o700, len: 0 }
}

#[test]
fn canonical_system_spec_round_trips() {
    let expected = spec();
    let text = canonical_system_spec(&expected);
    assert_eq!(parse_canonical_system_spec(&text), Ok(expected));
}

#[test]
fn feature_order_is_canonicalized() {
    let mut unordered = spec();
    unordered.profile.features.reverse();
    let text = canonical_system_spec(&unordered);
    let bluetooth = text.find("626c7565746f6f7468").expect("bluetooth");
    let hyprland = text.find("687970726c616e64").expect("hyprland");
    let pipewire = text.find("7069706577697265").expect("pipewire");
    let printing = text.find("7072696e74696e67").expect("printing");
    assert!(bluetooth < hyprland && hyprland < pipewire && pipewire < printing);
    assert_eq!(parse_canonical_system_spec(&text), Ok(spec()));
}

#[test]
fn extra_native_configuration_is_rejected() {
    let mut text = canonical_system_spec(&spec());
    text.push_str("raw-nix=696d70757265\n");
    assert!(parse_canonical_system_spec(&text).is_err());
}

#[test]
fn unsafe_ids_are_rejected() {
    assert_eq!(validate_id("system:ok;--impure"), Err(CanonicalSystemSpecError::InvalidId));
}

#[test]
fn canonical_flake_uses_only_trusted_inputs_and_generated_modules() {
    let flake = canonical_candidate_flake(&spec(), "/nix/store/aaaaaaaa-nixpkgs-source").expect("flake");
    assert!(flake.contains("modules = [ ./base.nix ./generated.nix ];"));
    assert!(flake.contains("path:/nix/store/aaaaaaaa-nixpkgs-source"));
    assert!(!flake.contains("builtins.getEnv"));
    assert!(!flake.contains("--impure"));
}

#[test]
fn canonical_spec_text_is_exact() {
    let text = canonical_system_spec(&spec());
    assert!(text.starts_with("theblob-system-spec-v1\nsystem-spec=73797374656d3a6c696e75782d70696c6f74\n"));
    assert!(text.contains("\narchitecture=x86_64\nbase-channel=stable\nkernel-policy=latest-supported\n"));
    assert!(text.contains("\npriority-count=2\npriority-0=reliability\npriority-1=energy\nfeature-count=4\n"));
    assert!(text.contains("\nfeature-3-state=disabled\n"));
    assert!(text.ends_with("\n"));
}

#[test]
fn parse_refusals_are_specific() {
    let text = canonical_system_spec(&spec());
    let too_large = "x".repeat(65537);
    assert_eq!(parse_canonical_system_spec(&too_large), Err(CanonicalSystemSpecError::TooLarge));
    assert_eq!(
        parse_canonical_system_spec(&text.replace("theblob-system-spec-v1", "other")),
        Err(CanonicalSystemSpecError::Malformed)
    );
    let padded = text.replace("priority-count=2", "priority-count=02");
    assert_eq!(parse_canonical_system_spec(&padded), Err(CanonicalSystemSpecError::NonCanonical));
    let mut bad_id = spec();
    bad_id.id = "system:bad id".into();
    assert_eq!(
        parse_canonical_system_spec(&canonical_system_spec(&bad_id)),
        Err(CanonicalSystemSpecError::InvalidId)
    );
    let mut no_experience = spec();
    no_experience.experience_profile = None;
    assert_eq!(
        parse_canonical_system_spec(&canonical_system_spec(&no_experience)),
        Ok(no_experience)
    );
}

#[test]
fn nix_strings_are_escaped() {
    assert_eq!(nix_string("a\\b\"c${d}$e"), "a\\\\b\\\"c\\${d}$e");
    assert_eq!(nix_string("plain"), "plain");
}

#[test]
fn producer_receipt_is_versioned_and_hex_encoded() {
    let receipt = CandidateManifestReceipt {
        causal_id: "causal:one".into(),
        occurred_at_unix_ms: 5,
        requester_system_bus_name: ":1.2".into(),
        manifest_id: "manifest:one".into(),
        candidate: "candidate:one".into(),
        system_spec: "system:one".into(),
        immutable_flake_root: "/nix/store/aaaa-source".into(),
        canonical_system_spec: "x".into(),
        translation_evidence: vec!["a -> b".into()],
    };
    let text = canonical_candidate_receipt(&receipt);
    assert_eq!(
        text,
        "theblob-candidate-manifest-receipt-v1\ncausal-id=63617573616c3a6f6e65\noccurred-at-unix-ms=5\nrequester-system-bus=3a312e32\nmanifest-id=6d616e69666573743a6f6e65\ncandidate=63616e6469646174653a6f6e65\nsystem-spec=73797374656d3a6f6e65\nimmutable-flake-root=2f6e69782f73746f72652f616161612d736f75726365\ncanonical-system-spec=78\ntranslation-evidence-count=1\ntranslation-evidence-0=61202d3e2062\n"
    );
}

#[test]
fn production_derives_every_identity_in_root() {
    let producer = RootSystemSpecCandidateProducer::new("/m", "/r", "/g", 0);
    let layout = ProducerLayoutFacts { manifest_root: dir(), receipt_root: dir(), source_gcroot_root: dir() };
    let text = canonical_system_spec(&spec());
    let produced = producer
        .produce(
            ":1.9",
            &text,
            &layout,
            Ok(()),
            Ok("/nix/store/aaaa-source".into()),
            Ok([0xab; 16]),
            Ok(77),
        )
        .expect("produced");
    assert_eq!(produced.manifest.manifest_id, "manifest:systemspec-abababababababababababababababab");
    assert_eq!(produced.manifest.candidate, "candidate:systemspec-abababababababababababababababab");
    assert_eq!(
        produced.manifest.installable_attribute,
        "nixosConfigurations.blob-pilot.config.system.build.toplevel"
    );
    assert_eq!(produced.manifest.provenance[2], "requester-system-bus::1.9");
    assert!(produced.manifest.provenance.contains(&"translation:feature:bluetooth=enabled -> hardware.bluetooth.enable".to_string()));
    assert_eq!(produced.receipt.causal_id, "causal:candidate-manifest-abababababababababababababababab");
    assert_eq!(produced.receipt.occurred_at_unix_ms, 77);
    assert_eq!(produced.receipt.canonical_system_spec, text);
    assert_eq!(produced.manifest_path, "/m/manifest-6d616e69666573743a73797374656d737065632d6162616261626162616261626162616261626162616261626162616261626162.candidate");
    assert_eq!(produced.receipt_path, "/r/manifest-6d616e69666573743a73797374656d737065632d6162616261626162616261626162616261626162616261626162616261626162.receipt");
    assert_eq!(produced.source_gcroot, "/g/manifest-6d616e69666573743a73797374656d737065632d6162616261626162616261626162616261626162616261626162616261626162-source");
}

#[test]
fn production_refuses_in_order() {
    let producer = RootSystemSpecCandidateProducer::new("/m", "/r", "/g", 0);
    let layout = ProducerLayoutFacts { manifest_root: dir(), receipt_root: dir(), source_gcroot_root: dir() };
    let text = canonical_system_spec(&spec());
    let run = |sender: &str, layout: &ProducerLayoutFacts, text: &str, source: Result<String, String>| {
        producer.produce(sender, text, layout, Ok(()), source, Ok([0u8; 16]), Ok(1))
    };
    assert_eq!(
        run("1.9", &layout, &text, Ok("/nix/store/a".into())).unwrap_err(),
        CandidateProducerError::InvalidSender
    );
    let mut open_receipts = dir();
    open_receipts.mode = 0o755;
    let open = ProducerLayoutFacts { manifest_root: dir(), receipt_root: open_receipts, source_gcroot_root: dir() };
    assert_eq!(
        run(":1.9", &open, &text, Ok("/nix/store/a".into())).unwrap_err(),
        CandidateProducerError::InvalidReceiptRoot
    );
    assert_eq!(
        run(":1.9", &layout, "nope", Ok("/nix/store/a".into())).unwrap_err(),
        CandidateProducerError::SystemSpec(CanonicalSystemSpecError::Malformed)
    );
    assert!(matches!(
        run(":1.9", &layout, &text, Ok("/tmp/a".into())).unwrap_err(),
        CandidateProducerError::Source(_)
    ));
    let mut edge = spec();
    edge.base_channel = SystemChannel::Edge;
    assert!(matches!(
        run(":1.9", &layout, &canonical_system_spec(&edge), Ok("/nix/store/a".into())).unwrap_err(),
        CandidateProducerError::Backend(_)
    ));
    assert_eq!(
        producer
            .produce(":1.9", &text, &layout, Err(vec!["bad".into()]), Ok("/nix/store/a".into()), Ok([0u8; 16]), Ok(1))
            .unwrap_err(),
        CandidateProducerError::SystemSpec(CanonicalSystemSpecError::InvalidSystemSpec(vec!["bad".into()]))
    );
}

#[test]
fn renders_a_deterministic_nixos_module() {
    let mut s = spec();
    s.profile.id = "profile:dev".into();
    s.profile.features = vec![
        SystemFeatureSelection::enabled("pipewire"),
        SystemFeatureSelection::disabled("printing"),
        SystemFeatureSelection::enabled("bluetooth"),
        SystemFeatureSelection::enabled("hyprland"),
    ];
    let output: NixTranslation = NixOsBackend::translate(&s, Ok(())).expect("supported spec");
    assert_eq!(
        output.module_text,
        "{ pkgs, ... }:\n{\n  networking.hostName = \"blob-pilot\";\n  nixpkgs.hostPlatform = \"x86_64-linux\";\n  boot.kernelPackages = pkgs.linuxPackages_latest;\n  hardware.bluetooth.enable = true;\n  programs.hyprland.enable = true;\n  services.pipewire.enable = true;\n  services.printing.enable = false;\n}\n"
    );
}

#[test]
fn trace_explains_semantic_to_nix_translation() {
    let output = NixOsBackend::translate(&spec(), Ok(())).expect("supported spec");
    assert!(output.trace.iter().any(|step: &TranslationStep| {
        step.semantic_source == "feature:bluetooth=enabled" && step.nix_target == "hardware.bluetooth.enable"
    }));
    assert!(output.trace.iter().any(|step| {
        step.semantic_source == "SystemSpec.kernel_policy=latest-supported"
            && step.nix_target.contains("linuxPackages_latest")
    }));
}

#[test]
fn unsupported_feature_is_never_silently_ignored() {
    let mut candidate = spec();
    candidate.profile.features.push(SystemFeatureSelection::enabled("unknown-feature"));
    assert_eq!(
        NixOsBackend::translate(&candidate, Ok(())),
        Err(blob_nixos::nixos::NixBackendError::UnsupportedFeature("unknown-feature".into()))
    );
}

#[test]
fn unsupported_channel_is_explicit() {
    let mut candidate = spec();
    candidate.base_channel = SystemChannel::Edge;
    assert_eq!(
        NixOsBackend::translate(&candidate, Ok(())),
        Err(blob_nixos::nixos::NixBackendError::UnsupportedChannel(SystemChannel::Edge))
    );
}

#[test]
fn invalid_spec_is_rejected_before_translation() {
    let mut candidate = spec();
    candidate.hostname = "Bad Host".into();
    assert!(matches!(
        NixOsBackend::translate(&candidate, Err(vec!["hostname is not a DNS label".into()])),
        Err(blob_nixos::nixos::NixBackendError::InvalidSpec(_))
    ));
}

#[test]
fn distribution_kernel_adds_no_module_line() {
    let mut s = spec();
    s.kernel_policy = KernelPolicy::DistributionDefault;
    s.architecture = SystemArchitecture::Aarch64;
    s.profile.features = vec![];
    let output = NixOsBackend::translate(&s, Ok(())).expect("supported");
    assert_eq!(
        output.module_text,
        "{ pkgs, ... }:\n{\n  networking.hostName = \"blob-pilot\";\n  nixpkgs.hostPlatform = \"aarch64-linux\";\n}\n"
    );
    assert_eq!(output.trace.len(), 3);
    assert_eq!(output.trace[2].nix_target, "backend default kernel selection");
}

#[test]
fn store_add_output_must_name_exactly_one_store_path() {
    assert_eq!(
        one_store_path("\n  /nix/store/aaaa-theblob-candidate-source  \n\n"),
        Ok("/nix/store/aaaa-theblob-candidate-source".to_string())
    );
    assert_eq!(
        one_store_path("/nix/store/a\n/nix/store/b\n"),
        Err("expected one store path, observed [\"/nix/store/a\", \"/nix/store/b\"]".to_string())
    );
    assert_eq!(one_store_path("relative/path\n"), Err("path is not absolute".to_string()));
    assert_eq!(
        one_store_path("/tmp/source\n"),
        Err("path is outside an immutable Nix store object".to_string())
    );
}

#[test]
fn source_builder_inputs_must_be_store_objects() {
    let good = StdNixCandidateSourceBuilder::new(
        "/run/current-system/sw/bin/nix",
        "/nix/store/aaaa-nixpkgs-source",
        "/nix/store/bbbb-base-module/base.nix",
        "/var/lib/theblob/staging",
        0,
    );
    assert_eq!(good.check_sources(), Ok(()));
    let bad = StdNixCandidateSourceBuilder::new(
        "/run/current-system/sw/bin/nix",
        "/nix/store/aaaa-nixpkgs-source",
        "/etc/nixos/base.nix",
        "/var/lib/theblob/staging",
        0,
    );
    assert_eq!(bad.check_sources(), Err("path is outside an immutable Nix store object".to_string()));
}

#[test]
fn translation_does_not_depend_on_feature_order() {
    let mut unordered = spec();
    unordered.profile.features.reverse();
    assert_eq!(NixOsBackend::translate(&unordered, Ok(())), NixOsBackend::translate(&spec(), Ok(())));
}

#[test]
fn parsed_spec_must_pass_semantic_validation_before_the_canonical_check() {
    let text = canonical_system_spec(&spec());
    let parsed = parse_system_spec_fields(&text).expect("fields");
    assert_eq!(
        accept_parsed_system_spec(parsed.clone(), &text, Err(vec!["no hostname".into()])),
        Err(CanonicalSystemSpecError::InvalidSystemSpec(vec!["no hostname".into()]))
    );
    assert_eq!(accept_parsed_system_spec(parsed.clone(), &text, Ok(())), Ok(spec()));
    let padded = format!("{text}\n");
    assert_eq!(
        accept_parsed_system_spec(parsed, &padded, Ok(())),
        Err(CanonicalSystemSpecError::NonCanonical)
    );
}

#[test]
fn nonce_bytes_are_written_as_lowercase_hex() {
    assert_eq!(blob_nixos::text::hex_bytes_text(&[0x00, 0xab, 0x7f]), "00ab7f");
    assert_eq!(blob_nixos::text::hex_bytes_text(&[0xff; 16]).len(), 32);
}
