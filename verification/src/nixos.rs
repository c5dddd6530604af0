//! The deterministic translation of a semantic SystemSpec into a NixOS module,
//! with a trace that explains where each native option came from.
use vstd::prelude::*;
use crate::system_spec::{
    distinct_feature_ids, lemma_feature_order_is_canonical, lemma_sorted_features, with_features,
    sort_features, sorted_features, features_view, FeatureState, FeatureView, KernelPolicy,
    SystemArchitecture, SystemChannel, SystemFeatureSelection, SystemSpec, SpecView,
};
use crate::text::str_eq;

verus! {

/// One semantic value and the native option it became.
#[derive(Clone, Debug, PartialEq, Eq)]
pub struct TranslationStep {
    pub semantic_source: String,
    pub nix_target: String,
}

pub struct StepView {
    pub semantic_source: Seq<char>,
    pub nix_target: Seq<char>,
}

impl View for TranslationStep {
    type V = StepView;

    open spec fn view(&self) -> StepView {
        StepView { semantic_source: self.semantic_source@, nix_target: self.nix_target@ }
    }
}

pub open spec fn steps_view(v: Seq<TranslationStep>) -> Seq<StepView> {
    v.map_values(|s: TranslationStep| s@)
}

/// A NixOS module and the trace of its translation.
#[derive(Clone, Debug, PartialEq, Eq)]
pub struct NixTranslation {
    pub module_text: String,
    pub trace: Vec<TranslationStep>,
}

/// Why a SystemSpec has no NixOS translation.
#[derive(Clone, Debug, PartialEq, Eq)]
pub enum NixBackendError {
    /// The semantic validation of the SystemSpec reported these violations.
    InvalidSpec(Vec<String>),
    UnsupportedChannel(SystemChannel),
    UnsupportedFeature(String),
}

pub struct NixOsBackend;

pub open spec fn step(source: Seq<char>, target: Seq<char>) -> StepView {
    StepView { semantic_source: source, nix_target: target }
}

/// The NixOS option that a semantic feature sets, if the backend supports it.
pub open spec fn feature_option(id: Seq<char>) -> Option<Seq<char>> {
    if id == "bluetooth"@ {
        Some("hardware.bluetooth.enable"@)
    } else if id == "containers"@ {
        Some("virtualisation.podman.enable"@)
    } else if id == "flatpak"@ {
        Some("services.flatpak.enable"@)
    } else if id == "hyprland"@ {
        Some("programs.hyprland.enable"@)
    } else if id == "pipewire"@ {
        Some("services.pipewire.enable"@)
    } else if id == "printing"@ {
        Some("services.printing.enable"@)
    } else if id == "ssh"@ {
        Some("services.openssh.enable"@)
    } else {
        None
    }
}

/// The option each supported feature turns on, one fact per feature; every
/// other id is unsupported.
pub proof fn lemma_feature_options()
    ensures
        bool_text(FeatureState::Enabled) == "true"@,
        bool_text(FeatureState::Disabled) == "false"@,
        feature_option("bluetooth"@) == Some("hardware.bluetooth.enable"@),
        feature_option("containers"@) == Some("virtualisation.podman.enable"@),
        feature_option("flatpak"@) == Some("services.flatpak.enable"@),
        feature_option("hyprland"@) == Some("programs.hyprland.enable"@),
        feature_option("pipewire"@) == Some("services.pipewire.enable"@),
        feature_option("printing"@) == Some("services.printing.enable"@),
        feature_option("ssh"@) == Some("services.openssh.enable"@),
        forall|id: Seq<char>|
            id != "bluetooth"@ && id != "containers"@ && id != "flatpak"@ && id != "hyprland"@ && id
                != "pipewire"@ && id != "printing"@ && id != "ssh"@ ==> #[trigger] feature_option(id)
                is None,
{
    reveal_strlit("bluetooth");
    reveal_strlit("containers");
    reveal_strlit("flatpak");
    reveal_strlit("hyprland");
    reveal_strlit("pipewire");
    reveal_strlit("printing");
    reveal_strlit("ssh");
    assert("containers"@ != "bluetooth"@) by {
        assert("containers"@[0] != "bluetooth"@[0]);
    }
    assert("flatpak"@ != "bluetooth"@) by {
        assert("flatpak"@[0] != "bluetooth"@[0]);
    }
    assert("flatpak"@ != "containers"@) by {
        assert("flatpak"@[0] != "containers"@[0]);
    }
    assert("hyprland"@ != "bluetooth"@) by {
        assert("hyprland"@[0] != "bluetooth"@[0]);
    }
    assert("hyprland"@ != "containers"@) by {
        assert("hyprland"@[0] != "containers"@[0]);
    }
    assert("hyprland"@ != "flatpak"@) by {
        assert("hyprland"@[0] != "flatpak"@[0]);
    }
    assert("pipewire"@ != "bluetooth"@) by {
        assert("pipewire"@[0] != "bluetooth"@[0]);
    }
    assert("pipewire"@ != "containers"@) by {
        assert("pipewire"@[0] != "containers"@[0]);
    }
    assert("pipewire"@ != "flatpak"@) by {
        assert("pipewire"@[0] != "flatpak"@[0]);
    }
    assert("pipewire"@ != "hyprland"@) by {
        assert("pipewire"@[0] != "hyprland"@[0]);
    }
    assert("printing"@ != "bluetooth"@) by {
        assert("printing"@[0] != "bluetooth"@[0]);
    }
    assert("printing"@ != "containers"@) by {
        assert("printing"@[0] != "containers"@[0]);
    }
    assert("printing"@ != "flatpak"@) by {
        assert("printing"@[0] != "flatpak"@[0]);
    }
    assert("printing"@ != "hyprland"@) by {
        assert("printing"@[0] != "hyprland"@[0]);
    }
    assert("printing"@ != "pipewire"@) by {
        assert("printing"@[1] != "pipewire"@[1]);
    }
    assert("ssh"@ != "bluetooth"@) by {
        assert("ssh"@[0] != "bluetooth"@[0]);
    }
    assert("ssh"@ != "containers"@) by {
        assert("ssh"@[0] != "containers"@[0]);
    }
    assert("ssh"@ != "flatpak"@) by {
        assert("ssh"@[0] != "flatpak"@[0]);
    }
    assert("ssh"@ != "hyprland"@) by {
        assert("ssh"@[0] != "hyprland"@[0]);
    }
    assert("ssh"@ != "pipewire"@) by {
        assert("ssh"@[0] != "pipewire"@[0]);
    }
    assert("ssh"@ != "printing"@) by {
        assert("ssh"@[0] != "printing"@[0]);
    }
}

pub open spec fn state_text(s: FeatureState) -> Seq<char> {
    match s {
        FeatureState::Enabled => "enabled"@,
        FeatureState::Disabled => "disabled"@,
    }
}

pub open spec fn bool_text(s: FeatureState) -> Seq<char> {
    match s {
        FeatureState::Enabled => "true"@,
        FeatureState::Disabled => "false"@,
    }
}

pub open spec fn host_platform(a: SystemArchitecture) -> Seq<char> {
    match a {
        SystemArchitecture::X86_64 => "x86_64-linux"@,
        SystemArchitecture::Aarch64 => "aarch64-linux"@,
    }
}

/// The first feature, in order, that the backend does not support.
pub open spec fn first_unsupported(fs: Seq<FeatureView>) -> Option<Seq<char>>
    decreases fs.len(),
{
    if fs.len() == 0 {
        None
    } else {
        match first_unsupported(fs.drop_last()) {
            Some(id) => Some(id),
            None => if feature_option(fs.last().feature) is None {
                Some(fs.last().feature)
            } else {
                None
            },
        }
    }
}

/// The module lines `  <option> = <bool>;` of supported features.
pub open spec fn feature_module(fs: Seq<FeatureView>) -> Seq<char>
    decreases fs.len(),
{
    if fs.len() == 0 {
        Seq::<char>::empty()
    } else {
        feature_module(fs.drop_last()) + "  "@ + feature_option(fs.last().feature)->0 + " = "@
            + bool_text(fs.last().state) + ";\n"@
    }
}

pub open spec fn feature_steps(fs: Seq<FeatureView>) -> Seq<StepView> {
    Seq::new(
        fs.len(),
        |i: int|
            step(
                "feature:"@ + fs[i].feature + "="@ + state_text(fs[i].state),
                feature_option(fs[i].feature)->0,
            ),
    )
}

pub open spec fn kernel_module(k: KernelPolicy) -> Seq<char> {
    match k {
        KernelPolicy::DistributionDefault => Seq::<char>::empty(),
        KernelPolicy::LatestSupported => "  boot.kernelPackages = pkgs.linuxPackages_latest;\n"@,
    }
}

pub open spec fn kernel_step(k: KernelPolicy) -> StepView {
    match k {
        KernelPolicy::DistributionDefault => step(
            "SystemSpec.kernel_policy=distribution-default"@,
            "backend default kernel selection"@,
        ),
        KernelPolicy::LatestSupported => step(
            "SystemSpec.kernel_policy=latest-supported"@,
            "boot.kernelPackages = pkgs.linuxPackages_latest"@,
        ),
    }
}

/// The module text of a supported SystemSpec.
pub open spec fn module_text(v: SpecView) -> Seq<char> {
    "{ pkgs, ... }:\n{\n"@ + "  networking.hostName = \""@ + v.hostname + "\";\n"@
        + "  nixpkgs.hostPlatform = \""@ + host_platform(v.architecture) + "\";\n"@ + kernel_module(
        v.kernel_policy,
    ) + feature_module(sorted_features(v.profile.features)) + "}\n"@
}

/// The trace of a supported SystemSpec, one step per translated value.
pub open spec fn module_trace(v: SpecView) -> Seq<StepView> {
    seq![
        step("SystemSpec.hostname"@, "networking.hostName"@),
        step("SystemSpec.architecture"@, "nixpkgs.hostPlatform"@),
        kernel_step(v.kernel_policy),
    ] + feature_steps(sorted_features(v.profile.features))
}

/// What the translation does with a SystemSpec whose semantic validation gave `validation`.
pub open spec fn translation_outcome(v: SpecView, validation: Result<(), Seq<Seq<char>>>) -> Result<
    (Seq<char>, Seq<StepView>),
    NixBackendErrorView,
> {
    match validation {
        Err(violations) => Err(NixBackendErrorView::InvalidSpec(violations)),
        Ok(_) => if v.base_channel != SystemChannel::Stable {
            Err(NixBackendErrorView::UnsupportedChannel(v.base_channel))
        } else {
            match first_unsupported(sorted_features(v.profile.features)) {
                Some(id) => Err(NixBackendErrorView::UnsupportedFeature(id)),
                None => Ok((module_text(v), module_trace(v))),
            }
        },
    }
}

/// When no feature is reported unsupported, every feature has a native option.
proof fn lemma_none_unsupported(fs: Seq<FeatureView>)
    requires
        first_unsupported(fs) is None,
    ensures
        forall|i: int| 0 <= i < fs.len() ==> (#[trigger] feature_option(fs[i].feature)) is Some,
    decreases fs.len(),
{
    if fs.len() > 0 {
        lemma_none_unsupported(fs.drop_last());
        assert forall|i: int| 0 <= i < fs.len() implies (#[trigger] feature_option(
            fs[i].feature,
        )) is Some by {
            if i < fs.len() - 1 {
                assert(fs.drop_last()[i] == fs[i]);
            }
        }
    }
}

/// No feature is silently dropped: a SystemSpec that selects a feature the
/// backend has no option for, enabled or disabled, has no translation.
pub proof fn lemma_unsupported_feature_is_never_ignored(
    v: SpecView,
    validation: Result<(), Seq<Seq<char>>>,
    i: int,
)
    requires
        0 <= i < v.profile.features.len(),
        feature_option(v.profile.features[i].feature) is None,
    ensures
        translation_outcome(v, validation) is Err,
{
    broadcast use vstd::seq_lib::group_to_multiset_ensures;
    let fs = v.profile.features;
    let sorted = sorted_features(fs);
    lemma_sorted_features(fs);
    assert(fs.contains(fs[i]));
    assert(sorted.to_multiset().count(fs[i]) > 0);
    let k = choose|k: int| 0 <= k < sorted.len() && sorted[k] == fs[i];
    if first_unsupported(sorted) is None {
        lemma_none_unsupported(sorted);
        assert(feature_option(sorted[k].feature) is Some);
    }
}

/// The translation, like the canonical text, does not depend on the order the
/// features are listed in when each feature is named once.
pub proof fn lemma_translation_ignores_feature_order(
    v: SpecView,
    features: Seq<FeatureView>,
    validation: Result<(), Seq<Seq<char>>>,
)
    requires
        features.to_multiset() == v.profile.features.to_multiset(),
        distinct_feature_ids(v.profile.features),
    ensures
        translation_outcome(with_features(v, features), validation) == translation_outcome(
            v,
            validation,
        ),
{
    lemma_feature_order_is_canonical(v.profile.features, features);
    let w = with_features(v, features);
    assert(module_text(w) == module_text(v));
    assert(module_trace(w) == module_trace(v));
}

/// The trace of a translation explains every selected feature, enabled or
/// disabled: one step from `feature:<id>=<state>` to the option it set.
pub proof fn lemma_trace_explains_every_feature(
    v: SpecView,
    validation: Result<(), Seq<Seq<char>>>,
    i: int,
)
    requires
        0 <= i < v.profile.features.len(),
        translation_outcome(v, validation) is Ok,
    ensures
        translation_outcome(v, validation)->Ok_0.1.contains(
            step(
                "feature:"@ + v.profile.features[i].feature + "="@ + state_text(
                    v.profile.features[i].state,
                ),
                feature_option(v.profile.features[i].feature)->0,
            ),
        ),
{
    broadcast use vstd::seq_lib::group_to_multiset_ensures;
    let fs = v.profile.features;
    let sorted = sorted_features(fs);
    lemma_sorted_features(fs);
    assert(fs.contains(fs[i]));
    assert(sorted.to_multiset().count(fs[i]) > 0);
    let k = choose|k: int| 0 <= k < sorted.len() && sorted[k] == fs[i];
    let trace = module_trace(v);
    let head = seq![
        step("SystemSpec.hostname"@, "networking.hostName"@),
        step("SystemSpec.architecture"@, "nixpkgs.hostPlatform"@),
        kernel_step(v.kernel_policy),
    ];
    assert(trace == head + feature_steps(sorted));
    assert(trace[3 + k] == feature_steps(sorted)[k]);
}

pub enum NixBackendErrorView {
    InvalidSpec(Seq<Seq<char>>),
    UnsupportedChannel(SystemChannel),
    UnsupportedFeature(Seq<char>),
}

impl View for NixBackendError {
    type V = NixBackendErrorView;

    open spec fn view(&self) -> NixBackendErrorView {
        match self {
            NixBackendError::InvalidSpec(v) => NixBackendErrorView::InvalidSpec(
                crate::text::texts_view(v@),
            ),
            NixBackendError::UnsupportedChannel(c) => NixBackendErrorView::UnsupportedChannel(*c),
            NixBackendError::UnsupportedFeature(f) => NixBackendErrorView::UnsupportedFeature(f@),
        }
    }
}

pub open spec fn validation_view(r: Result<(), Vec<String>>) -> Result<(), Seq<Seq<char>>> {
    match r {
        Ok(_) => Ok(()),
        Err(v) => Err(crate::text::texts_view(v@)),
    }
}

fn state_name(state: FeatureState) -> (r: &'static str)
    ensures
        r@ == state_text(state),
{
    match state {
        FeatureState::Enabled => "enabled",
        FeatureState::Disabled => "disabled",
    }
}

fn bool_literal(state: FeatureState) -> (r: &'static str)
    ensures
        r@ == bool_text(state),
{
    match state {
        FeatureState::Enabled => "true",
        FeatureState::Disabled => "false",
    }
}

/// The NixOS option and value of one feature, or the feature the backend refuses.
pub fn translate_feature(selection: &SystemFeatureSelection) -> (r: Result<(&'static str, &'static str), NixBackendError>)
    ensures
        match r {
            Ok((option, value)) => feature_option(selection.feature@) == Some(option@)
                && value@ == bool_text(selection.state),
            Err(e) => feature_option(selection.feature@) is None && e@
                == NixBackendErrorView::UnsupportedFeature(selection.feature@),
        },
{
    let id = selection.feature.as_str();
    let option = if str_eq(id, "bluetooth") {
        "hardware.bluetooth.enable"
    } else if str_eq(id, "containers") {
        "virtualisation.podman.enable"
    } else if str_eq(id, "flatpak") {
        "services.flatpak.enable"
    } else if str_eq(id, "hyprland") {
        "programs.hyprland.enable"
    } else if str_eq(id, "pipewire") {
        "services.pipewire.enable"
    } else if str_eq(id, "printing") {
        "services.printing.enable"
    } else if str_eq(id, "ssh") {
        "services.openssh.enable"
    } else {
        return Err(NixBackendError::UnsupportedFeature(selection.feature.clone()));
    };
    Ok((option, bool_literal(selection.state)))
}

fn text_step(source: String, target: &str) -> (r: TranslationStep)
    ensures
        r@ == step(source@, target@),
{
    TranslationStep { semantic_source: source, nix_target: target.to_owned() }
}

/// Appends the module lines and trace steps of the features, in order.
fn translate_features(
    features: &Vec<SystemFeatureSelection>,
    module: &mut String,
    trace: &mut Vec<TranslationStep>,
) -> (r: Result<(), NixBackendError>)
    ensures
        match r {
            Ok(_) => first_unsupported(features_view(features@)) is None
                && final(module)@ == old(module)@ + feature_module(features_view(features@))
                && steps_view(final(trace)@) == steps_view(old(trace)@) + feature_steps(
                features_view(features@),
            ),
            Err(e) => first_unsupported(features_view(features@)) matches Some(id)
                && e@ == NixBackendErrorView::UnsupportedFeature(id),
        },
{
    let ghost fs = features_view(features@);
    let ghost m0 = module@;
    let ghost t0 = steps_view(trace@);
    let mut i: usize = 0;
    while i < features.len()
        invariant
            fs == features_view(features@),
            i <= features@.len(),
            first_unsupported(fs.take(i as int)) is None,
            module@ == m0 + feature_module(fs.take(i as int)),
            steps_view(trace@) == t0 + feature_steps(fs.take(i as int)),
        decreases features.len() - i,
    {
        let f = &features[i];
        proof {
            assert(fs.take(i + 1).drop_last() =~= fs.take(i as int));
            assert(fs.take(i + 1).last() == f@);
        }
        match translate_feature(f) {
            Ok((option, value)) => {
                module.append("  ");
                module.append(option);
                module.append(" = ");
                module.append(value);
                module.append(";\n");
                let mut source = String::new();
                source.append("feature:");
                source.append(f.feature.as_str());
                source.append("=");
                source.append(state_name(f.state));
                let s = text_step(source, option);
                let ghost before = trace@;
                trace.push(s);
                proof {
                    assert(steps_view(trace@) =~= steps_view(before).push(s@));
                    assert(feature_steps(fs.take(i + 1)) =~= feature_steps(fs.take(i as int)).push(
                        s@,
                    ));
                    assert(module@ =~= m0 + feature_module(fs.take(i + 1)));
                }
            },
            Err(e) => {
                proof {
                    let t = fs.take(i + 1);
                    assert(first_unsupported(t) == Some(f@.feature));
                    lemma_first_unsupported_prefix(fs, i + 1);
                    assert(fs.take(fs.len() as int) =~= fs);
                }
                return Err(e);
            },
        }
        i = i + 1;
    }
    assert(fs.take(features@.len() as int) =~= fs);
    Ok(())
}

/// Once a prefix holds an unsupported feature, the whole sequence has the same first one.
proof fn lemma_first_unsupported_prefix(fs: Seq<FeatureView>, k: int)
    requires
        0 <= k <= fs.len(),
        first_unsupported(fs.take(k)) is Some,
    ensures
        first_unsupported(fs) == first_unsupported(fs.take(k)),
    decreases fs.len() - k,
{
    if k < fs.len() {
        assert(fs.take(k + 1).drop_last() =~= fs.take(k));
        lemma_first_unsupported_prefix(fs, k + 1);
    } else {
        assert(fs.take(k) =~= fs);
    }
}

impl NixOsBackend {
    /// Translates a SystemSpec whose semantic validation gave `validation`.
    ///
    /// Only the stable channel and the features the backend knows are translated; a
    /// feature it does not know is reported, never ignored.
    pub fn translate(spec: &SystemSpec, validation: Result<(), Vec<String>>) -> (r: Result<
        NixTranslation,
        NixBackendError,
    >)
        ensures
            match r {
                Ok(t) => translation_outcome(spec@, validation_view(validation)) == Ok::<
                    (Seq<char>, Seq<StepView>),
                    NixBackendErrorView,
                >((t.module_text@, steps_view(t.trace@))),
                Err(e) => translation_outcome(spec@, validation_view(validation)) == Err::<
                    (Seq<char>, Seq<StepView>),
                    NixBackendErrorView,
                >(e@),
            },
    {
        match validation {
            Err(violations) => return Err(NixBackendError::InvalidSpec(violations)),
            Ok(_) => {},
        }
        match spec.base_channel {
            SystemChannel::Stable => {},
            _ => return Err(NixBackendError::UnsupportedChannel(spec.base_channel)),
        }
        let mut module = String::new();
        let mut trace: Vec<TranslationStep> = Vec::new();
        module.append("{ pkgs, ... }:\n{\n");
        module.append("  networking.hostName = \"");
        module.append(spec.hostname.as_str());
        module.append("\";\n");
        trace.push(text_step("SystemSpec.hostname".to_owned(), "networking.hostName"));
        let platform = match spec.architecture {
            SystemArchitecture::X86_64 => "x86_64-linux",
            SystemArchitecture::Aarch64 => "aarch64-linux",
        };
        module.append("  nixpkgs.hostPlatform = \"");
        module.append(platform);
        module.append("\";\n");
        trace.push(text_step("SystemSpec.architecture".to_owned(), "nixpkgs.hostPlatform"));
        match spec.kernel_policy {
            KernelPolicy::DistributionDefault => {
                trace.push(
                    text_step(
                        "SystemSpec.kernel_policy=distribution-default".to_owned(),
                        "backend default kernel selection",
                    ),
                );
            },
            KernelPolicy::LatestSupported => {
                module.append("  boot.kernelPackages = pkgs.linuxPackages_latest;\n");
                trace.push(
                    text_step(
                        "SystemSpec.kernel_policy=latest-supported".to_owned(),
                        "boot.kernelPackages = pkgs.linuxPackages_latest",
                    ),
                );
            },
        }
        let ghost head_module = module@;
        let ghost head_trace = steps_view(trace@);
        proof {
            assert(head_trace =~= seq![
                step("SystemSpec.hostname"@, "networking.hostName"@),
                step("SystemSpec.architecture"@, "nixpkgs.hostPlatform"@),
                kernel_step(spec.kernel_policy),
            ]);
            reveal_strlit("");
        }
        let features = sort_features(&spec.profile.features);
        match translate_features(&features, &mut module, &mut trace) {
            Ok(_) => {},
            Err(e) => return Err(e),
        }
        module.append("}\n");
        proof {
            assert(module@ =~= module_text(spec@));
            assert(steps_view(trace@) =~= module_trace(spec@));
        }
        Ok(NixTranslation { module_text: module, trace })
    }
}

} // verus!
