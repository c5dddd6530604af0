//! The backend-neutral description of a system that a requester may ask for: its
//! identity, base channel, kernel policy and semantic build profile.
use vstd::prelude::*;
use vstd::multiset::Multiset;
use crate::lines::{
    all_lines_plain, count_field, field_line, field_value, indexed_key, lemma_field_line,
    lemma_indexed_key_plain, lemma_plain_ascii_bytes, lemma_split_lines_text, lines_text,
    make_indexed_key, no_newline, plain_ascii, split_lines, LineCursor, RecordWriter,
};
use crate::materialization_authority::{lemma_decimal_line, lemma_hex_line};
use crate::lines::lemma_hex_line_bytes;
use crate::text::{
    all_alnum_or, ascii_chars, bytes_equal, decimal, hex_of_text, is_alnum, is_ascii_bytes,
    lemma_decimal_round_trip, lemma_hex_text_round_trip, text_of_hex_with, utf8,
};

verus! {

#[derive(Clone, Copy, Debug, PartialEq, Eq, Structural)]
pub enum SystemArchitecture {
    X86_64,
    Aarch64,
}

#[derive(Clone, Copy, Debug, PartialEq, Eq, Structural)]
pub enum SystemChannel {
    Stable,
    Testing,
    Edge,
}

#[derive(Clone, Copy, Debug, PartialEq, Eq, Structural)]
pub enum KernelPolicy {
    DistributionDefault,
    LatestSupported,
}

#[derive(Clone, Copy, Debug, PartialEq, Eq, Structural)]
pub enum SystemConstructionMode {
    Ready,
    AiDesigned,
    Expert,
}

#[derive(Clone, Copy, Debug, PartialEq, Eq, Structural)]
pub enum SystemPriority {
    Reliability,
    Security,
    Latency,
    Energy,
    Memory,
    BuildTime,
}

#[derive(Clone, Copy, Debug, PartialEq, Eq, Structural)]
pub enum FeatureState {
    Enabled,
    Disabled,
}

/// One semantic feature and whether it is wanted.
#[derive(Clone, Debug, PartialEq, Eq)]
pub struct SystemFeatureSelection {
    pub feature: String,
    pub state: FeatureState,
}

pub struct FeatureView {
    pub feature: Seq<char>,
    pub state: FeatureState,
}

impl View for SystemFeatureSelection {
    type V = FeatureView;

    open spec fn view(&self) -> FeatureView {
        FeatureView { feature: self.feature@, state: self.state }
    }
}

impl SystemFeatureSelection {
    pub fn enabled(feature: &str) -> (r: Self)
        ensures
            r@ == (FeatureView { feature: feature@, state: FeatureState::Enabled }),
    {
        SystemFeatureSelection { feature: feature.to_owned(), state: FeatureState::Enabled }
    }

    pub fn disabled(feature: &str) -> (r: Self)
        ensures
            r@ == (FeatureView { feature: feature@, state: FeatureState::Disabled }),
    {
        SystemFeatureSelection { feature: feature.to_owned(), state: FeatureState::Disabled }
    }
}

/// How a system is to be built: construction mode, ordered priorities and features.
#[derive(Clone, Debug, PartialEq, Eq)]
pub struct SemanticBuildProfile {
    pub id: String,
    pub construction_mode: SystemConstructionMode,
    pub priorities: Vec<SystemPriority>,
    pub features: Vec<SystemFeatureSelection>,
}

pub struct ProfileView {
    pub id: Seq<char>,
    pub construction_mode: SystemConstructionMode,
    pub priorities: Seq<SystemPriority>,
    pub features: Seq<FeatureView>,
}

pub open spec fn features_view(v: Seq<SystemFeatureSelection>) -> Seq<FeatureView> {
    v.map_values(|f: SystemFeatureSelection| f@)
}

impl View for SemanticBuildProfile {
    type V = ProfileView;

    open spec fn view(&self) -> ProfileView {
        ProfileView {
            id: self.id@,
            construction_mode: self.construction_mode,
            priorities: self.priorities@,
            features: features_view(self.features@),
        }
    }
}

/// A requested system.
#[derive(Clone, Debug, PartialEq, Eq)]
pub struct SystemSpec {
    pub id: String,
    pub hostname: String,
    pub architecture: SystemArchitecture,
    pub base_channel: SystemChannel,
    pub kernel_policy: KernelPolicy,
    pub profile: SemanticBuildProfile,
    pub experience_profile: Option<String>,
}

pub struct SpecView {
    pub id: Seq<char>,
    pub hostname: Seq<char>,
    pub architecture: SystemArchitecture,
    pub base_channel: SystemChannel,
    pub kernel_policy: KernelPolicy,
    pub profile: ProfileView,
    pub experience_profile: Option<Seq<char>>,
}

impl View for SystemSpec {
    type V = SpecView;

    open spec fn view(&self) -> SpecView {
        SpecView {
            id: self.id@,
            hostname: self.hostname@,
            architecture: self.architecture,
            base_channel: self.base_channel,
            kernel_policy: self.kernel_policy,
            profile: self.profile@,
            experience_profile: match self.experience_profile {
                Some(e) => Some(e@),
                None => None,
            },
        }
    }
}

// ---------------------------------------------------------------------------
// Names of the semantic values
// ---------------------------------------------------------------------------

pub open spec fn architecture_text(a: SystemArchitecture) -> Seq<char> {
    match a {
        SystemArchitecture::X86_64 => "x86_64"@,
        SystemArchitecture::Aarch64 => "aarch64"@,
    }
}

pub open spec fn channel_text(c: SystemChannel) -> Seq<char> {
    match c {
        SystemChannel::Stable => "stable"@,
        SystemChannel::Testing => "testing"@,
        SystemChannel::Edge => "edge"@,
    }
}

pub open spec fn kernel_text(k: KernelPolicy) -> Seq<char> {
    match k {
        KernelPolicy::DistributionDefault => "distribution-default"@,
        KernelPolicy::LatestSupported => "latest-supported"@,
    }
}

pub open spec fn construction_text(m: SystemConstructionMode) -> Seq<char> {
    match m {
        SystemConstructionMode::Ready => "ready"@,
        SystemConstructionMode::AiDesigned => "ai-designed"@,
        SystemConstructionMode::Expert => "expert"@,
    }
}

pub open spec fn priority_text(p: SystemPriority) -> Seq<char> {
    match p {
        SystemPriority::Reliability => "reliability"@,
        SystemPriority::Security => "security"@,
        SystemPriority::Latency => "latency"@,
        SystemPriority::Energy => "energy"@,
        SystemPriority::Memory => "memory"@,
        SystemPriority::BuildTime => "build-time"@,
    }
}

pub open spec fn feature_state_text(s: FeatureState) -> Seq<char> {
    match s {
        FeatureState::Enabled => "enabled"@,
        FeatureState::Disabled => "disabled"@,
    }
}

pub fn architecture_name(value: SystemArchitecture) -> (r: &'static str)
    ensures
        r@ == architecture_text(value),
{
    match value {
        SystemArchitecture::X86_64 => "x86_64",
        SystemArchitecture::Aarch64 => "aarch64",
    }
}

pub fn channel_name(value: SystemChannel) -> (r: &'static str)
    ensures
        r@ == channel_text(value),
{
    match value {
        SystemChannel::Stable => "stable",
        SystemChannel::Testing => "testing",
        SystemChannel::Edge => "edge",
    }
}

pub fn kernel_name(value: KernelPolicy) -> (r: &'static str)
    ensures
        r@ == kernel_text(value),
{
    match value {
        KernelPolicy::DistributionDefault => "distribution-default",
        KernelPolicy::LatestSupported => "latest-supported",
    }
}

pub fn construction_name(value: SystemConstructionMode) -> (r: &'static str)
    ensures
        r@ == construction_text(value),
{
    match value {
        SystemConstructionMode::Ready => "ready",
        SystemConstructionMode::AiDesigned => "ai-designed",
        SystemConstructionMode::Expert => "expert",
    }
}

pub fn priority_name(value: SystemPriority) -> (r: &'static str)
    ensures
        r@ == priority_text(value),
{
    match value {
        SystemPriority::Reliability => "reliability",
        SystemPriority::Security => "security",
        SystemPriority::Latency => "latency",
        SystemPriority::Energy => "energy",
        SystemPriority::Memory => "memory",
        SystemPriority::BuildTime => "build-time",
    }
}

pub fn feature_state_name(value: FeatureState) -> (r: &'static str)
    ensures
        r@ == feature_state_text(value),
{
    match value {
        FeatureState::Enabled => "enabled",
        FeatureState::Disabled => "disabled",
    }
}

// ---------------------------------------------------------------------------
// Reading the names back
// ---------------------------------------------------------------------------

pub open spec fn architecture_of(b: Seq<u8>) -> Option<SystemArchitecture> {
    if b == utf8("x86_64"@) {
        Some(SystemArchitecture::X86_64)
    } else if b == utf8("aarch64"@) {
        Some(SystemArchitecture::Aarch64)
    } else {
        None
    }
}

pub open spec fn channel_of(b: Seq<u8>) -> Option<SystemChannel> {
    if b == utf8("stable"@) {
        Some(SystemChannel::Stable)
    } else if b == utf8("testing"@) {
        Some(SystemChannel::Testing)
    } else if b == utf8("edge"@) {
        Some(SystemChannel::Edge)
    } else {
        None
    }
}

pub open spec fn kernel_of(b: Seq<u8>) -> Option<KernelPolicy> {
    if b == utf8("distribution-default"@) {
        Some(KernelPolicy::DistributionDefault)
    } else if b == utf8("latest-supported"@) {
        Some(KernelPolicy::LatestSupported)
    } else {
        None
    }
}

pub open spec fn construction_of(b: Seq<u8>) -> Option<SystemConstructionMode> {
    if b == utf8("ready"@) {
        Some(SystemConstructionMode::Ready)
    } else if b == utf8("ai-designed"@) {
        Some(SystemConstructionMode::AiDesigned)
    } else if b == utf8("expert"@) {
        Some(SystemConstructionMode::Expert)
    } else {
        None
    }
}

pub open spec fn priority_of(b: Seq<u8>) -> Option<SystemPriority> {
    if b == utf8("reliability"@) {
        Some(SystemPriority::Reliability)
    } else if b == utf8("security"@) {
        Some(SystemPriority::Security)
    } else if b == utf8("latency"@) {
        Some(SystemPriority::Latency)
    } else if b == utf8("energy"@) {
        Some(SystemPriority::Energy)
    } else if b == utf8("memory"@) {
        Some(SystemPriority::Memory)
    } else if b == utf8("build-time"@) {
        Some(SystemPriority::BuildTime)
    } else {
        None
    }
}

pub open spec fn feature_state_of(b: Seq<u8>) -> Option<FeatureState> {
    if b == utf8("enabled"@) {
        Some(FeatureState::Enabled)
    } else if b == utf8("disabled"@) {
        Some(FeatureState::Disabled)
    } else {
        None
    }
}

pub fn parse_architecture(value: &[u8]) -> (r: Option<SystemArchitecture>)
    ensures
        r == architecture_of(value@),
{
    if bytes_equal(value, "x86_64".as_bytes()) {
        Some(SystemArchitecture::X86_64)
    } else if bytes_equal(value, "aarch64".as_bytes()) {
        Some(SystemArchitecture::Aarch64)
    } else {
        None
    }
}

pub fn parse_channel(value: &[u8]) -> (r: Option<SystemChannel>)
    ensures
        r == channel_of(value@),
{
    if bytes_equal(value, "stable".as_bytes()) {
        Some(SystemChannel::Stable)
    } else if bytes_equal(value, "testing".as_bytes()) {
        Some(SystemChannel::Testing)
    } else if bytes_equal(value, "edge".as_bytes()) {
        Some(SystemChannel::Edge)
    } else {
        None
    }
}

pub fn parse_kernel(value: &[u8]) -> (r: Option<KernelPolicy>)
    ensures
        r == kernel_of(value@),
{
    if bytes_equal(value, "distribution-default".as_bytes()) {
        Some(KernelPolicy::DistributionDefault)
    } else if bytes_equal(value, "latest-supported".as_bytes()) {
        Some(KernelPolicy::LatestSupported)
    } else {
        None
    }
}

pub fn parse_construction(value: &[u8]) -> (r: Option<SystemConstructionMode>)
    ensures
        r == construction_of(value@),
{
    if bytes_equal(value, "ready".as_bytes()) {
        Some(SystemConstructionMode::Ready)
    } else if bytes_equal(value, "ai-designed".as_bytes()) {
        Some(SystemConstructionMode::AiDesigned)
    } else if bytes_equal(value, "expert".as_bytes()) {
        Some(SystemConstructionMode::Expert)
    } else {
        None
    }
}

pub fn parse_priority(value: &[u8]) -> (r: Option<SystemPriority>)
    ensures
        r == priority_of(value@),
{
    if bytes_equal(value, "reliability".as_bytes()) {
        Some(SystemPriority::Reliability)
    } else if bytes_equal(value, "security".as_bytes()) {
        Some(SystemPriority::Security)
    } else if bytes_equal(value, "latency".as_bytes()) {
        Some(SystemPriority::Latency)
    } else if bytes_equal(value, "energy".as_bytes()) {
        Some(SystemPriority::Energy)
    } else if bytes_equal(value, "memory".as_bytes()) {
        Some(SystemPriority::Memory)
    } else if bytes_equal(value, "build-time".as_bytes()) {
        Some(SystemPriority::BuildTime)
    } else {
        None
    }
}

pub fn parse_feature_state(value: &[u8]) -> (r: Option<FeatureState>)
    ensures
        r == feature_state_of(value@),
{
    if bytes_equal(value, "enabled".as_bytes()) {
        Some(FeatureState::Enabled)
    } else if bytes_equal(value, "disabled".as_bytes()) {
        Some(FeatureState::Disabled)
    } else {
        None
    }
}

/// Each name is read back as the value it names.
pub proof fn lemma_names_round_trip(
    a: SystemArchitecture,
    c: SystemChannel,
    k: KernelPolicy,
    m: SystemConstructionMode,
    p: SystemPriority,
    s: FeatureState,
)
    ensures
        architecture_of(utf8(architecture_text(a))) == Some(a),
        channel_of(utf8(channel_text(c))) == Some(c),
        kernel_of(utf8(kernel_text(k))) == Some(k),
        construction_of(utf8(construction_text(m))) == Some(m),
        priority_of(utf8(priority_text(p))) == Some(p),
        feature_state_of(utf8(feature_state_text(s))) == Some(s),
{
    lemma_name_literals();
}

proof fn lemma_name_literals()
    ensures
        utf8("x86_64"@) != utf8("aarch64"@),
        utf8("stable"@) != utf8("testing"@),
        utf8("stable"@) != utf8("edge"@),
        utf8("testing"@) != utf8("edge"@),
        utf8("distribution-default"@) != utf8("latest-supported"@),
        utf8("ready"@) != utf8("ai-designed"@),
        utf8("ready"@) != utf8("expert"@),
        utf8("ai-designed"@) != utf8("expert"@),
        utf8("reliability"@) != utf8("security"@),
        utf8("reliability"@) != utf8("latency"@),
        utf8("reliability"@) != utf8("energy"@),
        utf8("reliability"@) != utf8("memory"@),
        utf8("reliability"@) != utf8("build-time"@),
        utf8("security"@) != utf8("latency"@),
        utf8("security"@) != utf8("energy"@),
        utf8("security"@) != utf8("memory"@),
        utf8("security"@) != utf8("build-time"@),
        utf8("latency"@) != utf8("energy"@),
        utf8("latency"@) != utf8("memory"@),
        utf8("latency"@) != utf8("build-time"@),
        utf8("energy"@) != utf8("memory"@),
        utf8("energy"@) != utf8("build-time"@),
        utf8("memory"@) != utf8("build-time"@),
        utf8("enabled"@) != utf8("disabled"@),
{
    reveal_strlit("x86_64");
    lemma_ascii_literal("x86_64"@);
    reveal_strlit("aarch64");
    lemma_ascii_literal("aarch64"@);
    reveal_strlit("stable");
    lemma_ascii_literal("stable"@);
    reveal_strlit("testing");
    lemma_ascii_literal("testing"@);
    reveal_strlit("edge");
    lemma_ascii_literal("edge"@);
    reveal_strlit("distribution-default");
    lemma_ascii_literal("distribution-default"@);
    reveal_strlit("latest-supported");
    lemma_ascii_literal("latest-supported"@);
    reveal_strlit("ready");
    lemma_ascii_literal("ready"@);
    reveal_strlit("ai-designed");
    lemma_ascii_literal("ai-designed"@);
    reveal_strlit("expert");
    lemma_ascii_literal("expert"@);
    reveal_strlit("reliability");
    lemma_ascii_literal("reliability"@);
    reveal_strlit("security");
    lemma_ascii_literal("security"@);
    reveal_strlit("latency");
    lemma_ascii_literal("latency"@);
    reveal_strlit("energy");
    lemma_ascii_literal("energy"@);
    reveal_strlit("memory");
    lemma_ascii_literal("memory"@);
    reveal_strlit("build-time");
    lemma_ascii_literal("build-time"@);
    reveal_strlit("enabled");
    lemma_ascii_literal("enabled"@);
    reveal_strlit("disabled");
    lemma_ascii_literal("disabled"@);
    assert(utf8("energy"@)[0] != utf8("memory"@)[0]);
}

proof fn lemma_ascii_literal(s: Seq<char>)
    requires
        crate::lines::plain_ascii(s),
    ensures
        utf8(s).len() == s.len(),
        forall|i: int| 0 <= i < s.len() ==> #[trigger] utf8(s)[i] == s[i] as u8,
{
    vstd::utf8::is_ascii_chars_encode_utf8(s);
}

// ---------------------------------------------------------------------------
// Identifiers
// ---------------------------------------------------------------------------

pub open spec fn id_byte_ok(b: u8) -> bool {
    is_alnum(b) || b == 58 || b == 45 || b == 95 || b == 46
}

/// An identifier: 1 to 256 ASCII letters, digits, `:`, `-`, `_` or `.`.
pub open spec fn spec_id_ok(b: Seq<u8>) -> bool {
    &&& 0 < b.len() <= 256
    &&& forall|i: int| 0 <= i < b.len() ==> #[trigger] id_byte_ok(b[i])
}

pub fn validate_id(value: &str) -> (r: Result<(), CanonicalSystemSpecError>)
    ensures
        r is Ok <==> spec_id_ok(utf8(value@)),
        r is Err ==> r == Err::<(), CanonicalSystemSpecError>(CanonicalSystemSpecError::InvalidId),
{
    let b = value.as_bytes();
    if b.len() == 0 || b.len() > 256 {
        return Err(CanonicalSystemSpecError::InvalidId);
    }
    let extra: [u8; 4] = [58, 45, 95, 46];
    let ok = all_alnum_or(b, extra.as_slice());
    proof {
        assert(extra@ == seq![58u8, 45u8, 95u8, 46u8]);
        assert forall|i: int| 0 <= i < b@.len() implies (#[trigger] is_alnum(b@[i]) || extra@.contains(b@[i]))
            == id_byte_ok(b@[i]) by {
            if extra@.contains(b@[i]) {
                let k = choose|k: int| 0 <= k < 4 && extra@[k] == b@[i];
            }
            if b@[i] == 58 { assert(extra@[0] == b@[i]); }
            if b@[i] == 45 { assert(extra@[1] == b@[i]); }
            if b@[i] == 95 { assert(extra@[2] == b@[i]); }
            if b@[i] == 46 { assert(extra@[3] == b@[i]); }
        }
    }
    if !ok {
        return Err(CanonicalSystemSpecError::InvalidId);
    }
    Ok(())
}


// ---------------------------------------------------------------------------
// The canonical order of features: by the bytes of their identifiers
// ---------------------------------------------------------------------------

/// Byte-wise lexicographic order (`str::cmp` on UTF-8 text).
pub open spec fn lex_lt(a: Seq<u8>, b: Seq<u8>) -> bool
    decreases a.len(),
{
    if a.len() == 0 {
        b.len() > 0
    } else if b.len() == 0 {
        false
    } else if a[0] < b[0] {
        true
    } else if a[0] > b[0] {
        false
    } else {
        lex_lt(a.drop_first(), b.drop_first())
    }
}

pub proof fn lemma_lex_irreflexive(a: Seq<u8>)
    ensures
        !lex_lt(a, a),
    decreases a.len(),
{
    if a.len() > 0 {
        lemma_lex_irreflexive(a.drop_first());
    }
}

pub proof fn lemma_lex_transitive(a: Seq<u8>, b: Seq<u8>, c: Seq<u8>)
    requires
        lex_lt(a, b),
        lex_lt(b, c),
    ensures
        lex_lt(a, c),
    decreases a.len(),
{
    if a.len() > 0 && b.len() > 0 && c.len() > 0 && a[0] == b[0] && b[0] == c[0] {
        lemma_lex_transitive(a.drop_first(), b.drop_first(), c.drop_first());
    }
}

pub proof fn lemma_lex_total(a: Seq<u8>, b: Seq<u8>)
    ensures
        a == b || lex_lt(a, b) || lex_lt(b, a),
    decreases a.len(),
{
    if a.len() > 0 && b.len() > 0 && a[0] == b[0] {
        lemma_lex_total(a.drop_first(), b.drop_first());
        if a.drop_first() == b.drop_first() {
            assert(a =~= seq![a[0]] + a.drop_first());
            assert(b =~= seq![b[0]] + b.drop_first());
        }
    } else if a.len() == 0 && b.len() == 0 {
        assert(a =~= b);
    }
}

pub open spec fn feature_key(f: FeatureView) -> Seq<u8> {
    utf8(f.feature)
}

/// Inserts `x` after every feature whose key is not greater than its own.
pub open spec fn insert_feature(s: Seq<FeatureView>, x: FeatureView) -> Seq<FeatureView>
    decreases s.len(),
{
    if s.len() == 0 {
        seq![x]
    } else if lex_lt(feature_key(x), feature_key(s.last())) {
        insert_feature(s.drop_last(), x).push(s.last())
    } else {
        s.push(x)
    }
}

/// The features in the stable order of their keys (what `sort_by` on the ids gives).
pub open spec fn sorted_features(fs: Seq<FeatureView>) -> Seq<FeatureView>
    decreases fs.len(),
{
    if fs.len() == 0 {
        fs
    } else {
        insert_feature(sorted_features(fs.drop_last()), fs.last())
    }
}

pub open spec fn features_in_order(s: Seq<FeatureView>) -> bool {
    forall|i: int, j: int|
        0 <= i < j < s.len() ==> !lex_lt(#[trigger] feature_key(s[j]), #[trigger] feature_key(s[i]))
}

proof fn lemma_insert_feature(s: Seq<FeatureView>, x: FeatureView)
    ensures
        insert_feature(s, x).to_multiset() =~= s.to_multiset().insert(x),
        insert_feature(s, x).len() == s.len() + 1,
        features_in_order(s) ==> features_in_order(insert_feature(s, x)),
    decreases s.len(),
{
    broadcast use vstd::seq_lib::group_to_multiset_ensures;
    if s.len() == 0 {
        assert(seq![x] =~= Seq::<FeatureView>::empty().push(x));
    } else if lex_lt(feature_key(x), feature_key(s.last())) {
        let t = s.drop_last();
        lemma_insert_feature(t, x);
        assert(s =~= t.push(s.last()));
        let r = insert_feature(t, x);
        if features_in_order(s) {
            assert forall|i: int, j: int| 0 <= i < j < r.push(s.last()).len() implies !lex_lt(
                #[trigger] feature_key(r.push(s.last())[j]),
                #[trigger] feature_key(r.push(s.last())[i]),
            ) by {
                let q = r.push(s.last());
                if j == r.len() {
                    // every element of r is x or an element of t, each not above the last
                    assert(r.to_multiset().contains(r[i]));
                    assert(s.to_multiset().insert(x).count(r[i]) > 0);
                    if r[i] == x {
                        lemma_lex_irreflexive(feature_key(x));
                        if lex_lt(feature_key(s.last()), feature_key(x)) {
                            lemma_lex_transitive(feature_key(x), feature_key(s.last()), feature_key(x));
                        }
                    } else {
                        assert(t.to_multiset().count(r[i]) > 0);
                        assert(t.contains(r[i]));
                        let k = choose|k: int| 0 <= k < t.len() && t[k] == r[i];
                        assert(s[k] == t[k]);
                        assert(!lex_lt(feature_key(s[s.len() - 1]), feature_key(s[k])));
                    }
                } else {
                    assert(q[i] == r[i] && q[j] == r[j]);
                }
            }
        }
    } else {
        if features_in_order(s) {
            let r = s.push(x);
            assert forall|i: int, j: int| 0 <= i < j < r.len() implies !lex_lt(
                #[trigger] feature_key(r[j]),
                #[trigger] feature_key(r[i]),
            ) by {
                if j == s.len() && i < s.len() - 1 {
                    let a = feature_key(s[i]);
                    let b = feature_key(s.last());
                    let c = feature_key(x);
                    assert(!lex_lt(b, a));
                    assert(!lex_lt(c, b));
                    lemma_lex_total(a, b);
                    lemma_lex_total(b, c);
                    if lex_lt(c, a) {
                        if lex_lt(a, b) {
                            lemma_lex_transitive(c, a, b);
                        }
                    }
                } else if j < s.len() {
                    assert(r[i] == s[i] && r[j] == s[j]);
                }
            }
        }
    }
}

/// Sorting keeps exactly the features it was given and puts them in key order.
pub proof fn lemma_sorted_features(fs: Seq<FeatureView>)
    ensures
        sorted_features(fs).to_multiset() =~= fs.to_multiset(),
        sorted_features(fs).len() == fs.len(),
        features_in_order(sorted_features(fs)),
    decreases fs.len(),
{
    broadcast use vstd::seq_lib::group_to_multiset_ensures;
    if fs.len() > 0 {
        let t = fs.drop_last();
        lemma_sorted_features(t);
        lemma_insert_feature(sorted_features(t), fs.last());
        assert(fs =~= t.push(fs.last()));
    }
}

/// Features already in key order are left as they are.
pub proof fn lemma_sorted_features_identity(fs: Seq<FeatureView>)
    requires
        features_in_order(fs),
    ensures
        sorted_features(fs) == fs,
    decreases fs.len(),
{
    if fs.len() > 0 {
        let t = fs.drop_last();
        assert forall|i: int, j: int| 0 <= i < j < t.len() implies !lex_lt(
            #[trigger] feature_key(t[j]),
            #[trigger] feature_key(t[i]),
        ) by {
            assert(t[i] == fs[i] && t[j] == fs[j]);
        }
        lemma_sorted_features_identity(t);
        if t.len() > 0 {
            assert(!lex_lt(feature_key(fs[fs.len() - 1]), feature_key(fs[fs.len() - 2])));
        }
        assert(fs =~= t.push(fs.last()));
    }
}

/// Sorting twice is sorting once.
pub proof fn lemma_sorted_features_idempotent(fs: Seq<FeatureView>)
    ensures
        sorted_features(sorted_features(fs)) == sorted_features(fs),
{
    lemma_sorted_features(fs);
    lemma_sorted_features_identity(sorted_features(fs));
}

/// Feature selections that name each feature at most once.
pub open spec fn distinct_feature_ids(fs: Seq<FeatureView>) -> bool {
    forall|i: int, j: int|
        0 <= i < j < fs.len() ==> (#[trigger] fs[i]).feature != (#[trigger] fs[j]).feature
}

/// A multiset of selections in which each key names at most one selection, once.
spec fn keyed(m: Multiset<FeatureView>) -> bool {
    &&& forall|x: FeatureView| #[trigger] m.count(x) <= 1
    &&& forall|x: FeatureView, y: FeatureView|
        #![trigger m.count(x), m.count(y)]
        m.count(x) > 0 && m.count(y) > 0 && feature_key(x) == feature_key(y) ==> x == y
}

proof fn lemma_feature_key_injective(x: FeatureView, y: FeatureView)
    requires
        feature_key(x) == feature_key(y),
    ensures
        x.feature == y.feature,
{
    crate::text::lemma_utf8_round_trip(x.feature);
    crate::text::lemma_utf8_round_trip(y.feature);
}

proof fn lemma_distinct_ids_keyed(fs: Seq<FeatureView>)
    requires
        distinct_feature_ids(fs),
    ensures
        keyed(fs.to_multiset()),
    decreases fs.len(),
{
    broadcast use vstd::seq_lib::group_to_multiset_ensures;
    if fs.len() == 0 {
        assert(fs.to_multiset() =~= Multiset::empty());
    } else {
        let t = fs.drop_last();
        let l = fs.last();
        assert(fs =~= t.push(l));
        assert forall|i: int, j: int| 0 <= i < j < t.len() implies (#[trigger] t[i]).feature
            != (#[trigger] t[j]).feature by {
            assert(t[i] == fs[i] && t[j] == fs[j]);
        }
        lemma_distinct_ids_keyed(t);
        let m = t.to_multiset();
        assert(fs.to_multiset() == m.insert(l));
        // no earlier selection has the last one's key
        assert forall|x: FeatureView| m.count(x) > 0 implies #[trigger] feature_key(x) != feature_key(l) by {
            assert(t.contains(x));
            let k = choose|k: int| 0 <= k < t.len() && t[k] == x;
            assert(fs[k] == x);
            assert(fs[k].feature != fs[fs.len() - 1].feature);
            if feature_key(x) == feature_key(l) {
                lemma_feature_key_injective(x, l);
            }
        }
        assert forall|x: FeatureView| #[trigger] fs.to_multiset().count(x) <= 1 by {
            if x == l {
                if m.count(l) > 0 {
                    assert(feature_key(l) != feature_key(l));
                }
            }
        }
        assert forall|x: FeatureView, y: FeatureView|
            fs.to_multiset().count(x) > 0 && fs.to_multiset().count(y) > 0 && feature_key(x)
                == feature_key(y) implies x == y by {
            if x != l && y != l {
                assert(m.count(x) > 0 && m.count(y) > 0);
            } else if x == l && y != l {
                assert(m.count(y) > 0);
                assert(feature_key(y) != feature_key(l));
            } else if y == l && x != l {
                assert(m.count(x) > 0);
                assert(feature_key(x) != feature_key(l));
            }
        }
    }
}

proof fn lemma_in_order_drop_first(s: Seq<FeatureView>)
    requires
        s.len() > 0,
        features_in_order(s),
    ensures
        features_in_order(s.drop_first()),
{
    let t = s.drop_first();
    assert forall|i: int, j: int| 0 <= i < j < t.len() implies !lex_lt(
        #[trigger] feature_key(t[j]),
        #[trigger] feature_key(t[i]),
    ) by {
        assert(t[i] == s[i + 1] && t[j] == s[j + 1]);
    }
}

/// Two key-ordered arrangements of the same keyed selections are the same.
proof fn lemma_ordered_arrangement_unique(s: Seq<FeatureView>, t: Seq<FeatureView>)
    requires
        features_in_order(s),
        features_in_order(t),
        s.to_multiset() == t.to_multiset(),
        keyed(s.to_multiset()),
    ensures
        s == t,
    decreases s.len(),
{
    broadcast use vstd::seq_lib::group_to_multiset_ensures;
    let m = s.to_multiset();
    assert(m.len() == s.len());
    assert(t.to_multiset().len() == t.len());
    if s.len() == 0 {
        assert(t.len() == 0);
        assert(s =~= t);
    } else {
        assert(t.len() == s.len());
        let a = s[0];
        let b = t[0];
        assert(m.count(a) > 0 && t.contains(a));
        let k = choose|k: int| 0 <= k < t.len() && t[k] == a;
        assert(t.contains(b));
        assert(t.to_multiset().count(b) > 0);
        assert(s.contains(b));
        let q = choose|q: int| 0 <= q < s.len() && s[q] == b;
        if k > 0 {
            assert(!lex_lt(feature_key(t[k]), feature_key(t[0])));
        }
        if q > 0 {
            assert(!lex_lt(feature_key(s[q]), feature_key(s[0])));
        }
        lemma_lex_total(feature_key(a), feature_key(b));
        assert(feature_key(a) == feature_key(b));
        assert(m.count(b) > 0);
        assert(a == b);
        let s1 = s.drop_first();
        let t1 = t.drop_first();
        assert(s.remove(0) =~= s1);
        assert(t.remove(0) =~= t1);
        assert(s1.to_multiset() == m.remove(a));
        assert(t1.to_multiset() == m.remove(a));
        let m1 = m.remove(a);
        assert forall|x: FeatureView| #[trigger] m1.count(x) <= 1 by {
            assert(m.count(x) <= 1);
        }
        assert forall|x: FeatureView, y: FeatureView|
            m1.count(x) > 0 && m1.count(y) > 0 && feature_key(x) == feature_key(y) implies x
            == y by {
            assert(m.count(x) > 0 && m.count(y) > 0);
        }
        lemma_in_order_drop_first(s);
        lemma_in_order_drop_first(t);
        lemma_ordered_arrangement_unique(s1, t1);
        assert(s =~= seq![a] + s1);
        assert(t =~= seq![b] + t1);
    }
}

/// The canonical order does not depend on the order the features were given
/// in: two arrangements of the same selections, each feature named once, sort
/// to the same sequence.
pub proof fn lemma_feature_order_is_canonical(a: Seq<FeatureView>, b: Seq<FeatureView>)
    requires
        a.to_multiset() == b.to_multiset(),
        distinct_feature_ids(a),
    ensures
        sorted_features(a) == sorted_features(b),
{
    lemma_sorted_features(a);
    lemma_sorted_features(b);
    lemma_distinct_ids_keyed(a);
    lemma_ordered_arrangement_unique(sorted_features(a), sorted_features(b));
}

/// A SystemSpec with its features listed as given.
pub open spec fn with_features(v: SpecView, features: Seq<FeatureView>) -> SpecView {
    SpecView { profile: ProfileView { features, ..v.profile }, ..v }
}

/// The canonical text of a SystemSpec does not depend on the order its
/// features are listed in, when each feature is named once.
pub proof fn lemma_canonical_text_ignores_feature_order(v: SpecView, features: Seq<FeatureView>)
    requires
        features.to_multiset() == v.profile.features.to_multiset(),
        distinct_feature_ids(v.profile.features),
    ensures
        system_spec_text(with_features(v, features)) == system_spec_text(v),
{
    broadcast use vstd::seq_lib::group_to_multiset_ensures;
    lemma_feature_order_is_canonical(v.profile.features, features);
    assert(features.to_multiset().len() == features.len());
    assert(v.profile.features.to_multiset().len() == v.profile.features.len());
    let w = with_features(v, features);
    assert(spec_head_lines(w) == spec_head_lines(v));
    assert(spec_tail_lines(w) == spec_tail_lines(v));
    assert(spec_lines(w) == spec_lines(v));
}

/// Compares two byte strings in lexicographic order.
pub fn bytes_less(a: &[u8], b: &[u8]) -> (r: bool)
    ensures
        r == lex_lt(a@, b@),
{
    let mut i: usize = 0;
    assert(a@.skip(0) =~= a@);
    assert(b@.skip(0) =~= b@);
    while i < a.len() && i < b.len()
        invariant
            i <= a.len(),
            i <= b.len(),
            lex_lt(a@, b@) == lex_lt(a@.skip(i as int), b@.skip(i as int)),
        decreases a.len() - i,
    {
        if a[i] < b[i] {
            return true;
        }
        if a[i] > b[i] {
            return false;
        }
        assert(a@.skip(i as int).drop_first() =~= a@.skip(i + 1));
        assert(b@.skip(i as int).drop_first() =~= b@.skip(i + 1));
        i = i + 1;
    }
    assert(a@.skip(i as int).len() == a.len() - i);
    assert(b@.skip(i as int).len() == b.len() - i);
    i == a.len() && i < b.len()
}

fn copy_feature(f: &SystemFeatureSelection) -> (r: SystemFeatureSelection)
    ensures
        r@ == f@,
{
    SystemFeatureSelection { feature: f.feature.clone(), state: f.state }
}

/// Inserting before a larger last element moves that element to the tail.
proof fn lemma_insert_past(rest: Seq<FeatureView>, last: FeatureView, x: FeatureView, tail: Seq<FeatureView>)
    requires
        lex_lt(feature_key(x), feature_key(last)),
    ensures
        insert_feature(rest.push(last), x) + tail == insert_feature(rest, x) + (seq![last] + tail),
{
    assert(rest.push(last).drop_last() =~= rest);
    assert(insert_feature(rest.push(last), x) == insert_feature(rest, x).push(last));
    assert(insert_feature(rest, x).push(last) + tail =~= insert_feature(rest, x) + (seq![last] + tail));
}

/// Returns the features in the canonical order of their identifiers.
pub fn sort_features(features: &Vec<SystemFeatureSelection>) -> (r: Vec<SystemFeatureSelection>)
    ensures
        features_view(r@) == sorted_features(features_view(features@)),
{
    let ghost fs = features_view(features@);
    let mut out: Vec<SystemFeatureSelection> = Vec::new();
    let mut i: usize = 0;
    assert(fs.take(0) =~= Seq::<FeatureView>::empty());
    assert(features_view(out@) =~= Seq::<FeatureView>::empty());
    while i < features.len()
        invariant
            fs == features_view(features@),
            i <= features.len(),
            features_view(out@) == sorted_features(fs.take(i as int)),
        decreases features.len() - i,
    {
        let x = copy_feature(&features[i]);
        let ghost before = features_view(out@);
        let mut tail: Vec<SystemFeatureSelection> = Vec::new();
        proof {
            assert(features_view(tail@).reverse() =~= Seq::<FeatureView>::empty());
            assert(insert_feature(before, x@) =~= insert_feature(features_view(out@), x@)
                + features_view(tail@).reverse());
        }
        while out.len() > 0 && bytes_less(
            x.feature.as_str().as_bytes(),
            out[out.len() - 1].feature.as_str().as_bytes(),
        )
            invariant
                insert_feature(before, x@) == insert_feature(features_view(out@), x@) + features_view(
                    tail@,
                ).reverse(),
            decreases out.len(),
        {
            let ghost o = features_view(out@);
            let ghost tv = features_view(tail@).reverse();
            let last = out.pop().unwrap();
            proof {
                assert(o =~= features_view(out@).push(last@));
                lemma_insert_past(features_view(out@), last@, x@, tv);
                assert(features_view(tail@.push(last)).reverse() =~= seq![last@] + tv);
            }
            tail.push(last);
        }
        let ghost mid = features_view(out@);
        proof {
            assert(insert_feature(mid, x@) == mid.push(x@));
        }
        out.push(x);
        while tail.len() > 0
            invariant
                insert_feature(before, x@) == features_view(out@) + features_view(tail@).reverse(),
            decreases tail.len(),
        {
            let t = tail.pop().unwrap();
            proof {
                assert(features_view(tail@.push(t)).reverse() =~= seq![t@] + features_view(
                    tail@,
                ).reverse());
                assert(features_view(out@.push(t)) =~= features_view(out@).push(t@));
            }
            out.push(t);
        }
        proof {
            assert(features_view(tail@).reverse() =~= Seq::<FeatureView>::empty());
            assert(fs.take(i + 1).drop_last() =~= fs.take(i as int));
            assert(fs.take(i + 1).last() == x@);
        }
        i = i + 1;
    }
    assert(fs.take(features.len() as int) =~= fs);
    out
}


// ---------------------------------------------------------------------------
// The canonical text
// ---------------------------------------------------------------------------

/// The largest canonical SystemSpec text, in bytes.
pub const MAX_CANONICAL_SYSTEM_SPEC_BYTES: u64 = 65536;

/// The most priorities and features a canonical text may list.
pub const MAX_SPEC_PRIORITIES: usize = 32;

pub const MAX_SPEC_FEATURES: usize = 256;

pub open spec fn experience_text(e: Option<Seq<char>>) -> Seq<char> {
    match e {
        Some(x) => x,
        None => Seq::<char>::empty(),
    }
}

pub open spec fn kl(key: Seq<char>, value: Seq<u8>) -> Seq<u8> {
    field_line(utf8(key), value)
}

/// The first nine lines: header, identity, platform, profile and priority count.
pub open spec fn spec_head_lines(v: SpecView) -> Seq<Seq<u8>> {
    seq![
        utf8("theblob-system-spec-v1"@),
        kl("system-spec"@, hex_of_text(v.id)),
        kl("hostname"@, hex_of_text(v.hostname)),
        kl("architecture"@, utf8(architecture_text(v.architecture))),
        kl("base-channel"@, utf8(channel_text(v.base_channel))),
        kl("kernel-policy"@, utf8(kernel_text(v.kernel_policy))),
        kl("profile"@, hex_of_text(v.profile.id)),
        kl("construction-mode"@, utf8(construction_text(v.profile.construction_mode))),
        kl("priority-count"@, decimal(v.profile.priorities.len())),
    ]
}

pub open spec fn priority_key(i: nat) -> Seq<u8> {
    indexed_key(utf8("priority-"@), i, Seq::<u8>::empty())
}

pub open spec fn priority_lines(ps: Seq<SystemPriority>) -> Seq<Seq<u8>> {
    Seq::new(ps.len(), |i: int| field_line(priority_key(i as nat), utf8(priority_text(ps[i]))))
}

pub open spec fn feature_id_key(i: nat) -> Seq<u8> {
    indexed_key(utf8("feature-"@), i, utf8("-id"@))
}

pub open spec fn feature_state_key(i: nat) -> Seq<u8> {
    indexed_key(utf8("feature-"@), i, utf8("-state"@))
}

/// Line `k` of the feature block: identifier lines at even `k`, state lines at odd `k`.
pub open spec fn feature_line(fs: Seq<FeatureView>, k: int) -> Seq<u8> {
    if k % 2 == 0 {
        field_line(feature_id_key((k / 2) as nat), hex_of_text(fs[k / 2].feature))
    } else {
        field_line(feature_state_key((k / 2) as nat), utf8(feature_state_text(fs[k / 2].state)))
    }
}

pub open spec fn feature_lines(fs: Seq<FeatureView>) -> Seq<Seq<u8>> {
    Seq::new(2 * fs.len(), |k: int| feature_line(fs, k))
}

pub open spec fn spec_tail_lines(v: SpecView) -> Seq<Seq<u8>> {
    seq![kl("feature-count"@, decimal(v.profile.features.len()))] + feature_lines(
        sorted_features(v.profile.features),
    ) + seq![kl("experience-profile"@, hex_of_text(experience_text(v.experience_profile)))]
}

pub open spec fn spec_lines(v: SpecView) -> Seq<Seq<u8>> {
    spec_head_lines(v) + priority_lines(v.profile.priorities) + spec_tail_lines(v)
}

/// The canonical UTF-8 bytes of a SystemSpec: features listed in the order of their ids.
pub open spec fn system_spec_text(v: SpecView) -> Seq<u8> {
    lines_text(spec_lines(v))
}

proof fn lemma_spec_literals()
    ensures
        plain_ascii("theblob-system-spec-v1"@),
        plain_ascii("system-spec"@),
        plain_ascii("hostname"@),
        plain_ascii("architecture"@),
        plain_ascii("base-channel"@),
        plain_ascii("kernel-policy"@),
        plain_ascii("profile"@),
        plain_ascii("construction-mode"@),
        plain_ascii("priority-count"@),
        plain_ascii("priority-"@),
        plain_ascii("feature-count"@),
        plain_ascii("feature-"@),
        plain_ascii("-id"@),
        plain_ascii("-state"@),
        plain_ascii("experience-profile"@),
        plain_ascii(""@),
{
    reveal_strlit("theblob-system-spec-v1");
    reveal_strlit("system-spec");
    reveal_strlit("hostname");
    reveal_strlit("architecture");
    reveal_strlit("base-channel");
    reveal_strlit("kernel-policy");
    reveal_strlit("profile");
    reveal_strlit("construction-mode");
    reveal_strlit("priority-count");
    reveal_strlit("priority-");
    reveal_strlit("feature-count");
    reveal_strlit("feature-");
    reveal_strlit("-id");
    reveal_strlit("-state");
    reveal_strlit("experience-profile");
    reveal_strlit("");
}

proof fn lemma_name_texts_plain(
    a: SystemArchitecture,
    c: SystemChannel,
    k: KernelPolicy,
    m: SystemConstructionMode,
    p: SystemPriority,
    s: FeatureState,
)
    ensures
        plain_ascii(architecture_text(a)),
        plain_ascii(channel_text(c)),
        plain_ascii(kernel_text(k)),
        plain_ascii(construction_text(m)),
        plain_ascii(priority_text(p)),
        plain_ascii(feature_state_text(s)),
{
    reveal_strlit("x86_64");
    reveal_strlit("aarch64");
    reveal_strlit("stable");
    reveal_strlit("testing");
    reveal_strlit("edge");
    reveal_strlit("distribution-default");
    reveal_strlit("latest-supported");
    reveal_strlit("ready");
    reveal_strlit("ai-designed");
    reveal_strlit("expert");
    reveal_strlit("reliability");
    reveal_strlit("security");
    reveal_strlit("latency");
    reveal_strlit("energy");
    reveal_strlit("memory");
    reveal_strlit("build-time");
    reveal_strlit("enabled");
    reveal_strlit("disabled");
}

/// A line `key=value` of newline-free ASCII parts is newline-free ASCII.
proof fn lemma_plain_line(key: Seq<u8>, value: Seq<u8>)
    requires
        no_newline(key),
        is_ascii_bytes(key),
        no_newline(value),
        is_ascii_bytes(value),
    ensures
        no_newline(field_line(key, value)),
        is_ascii_bytes(field_line(key, value)),
{
    crate::lines::lemma_field_line_plain(key, value);
    let l = field_line(key, value);
    assert forall|i: int| 0 <= i < l.len() implies #[trigger] l[i] < 128 by {
        if i < key.len() {
            assert(l[i] == key[i]);
        } else if i > key.len() {
            assert(l[i] == value[i - key.len() - 1]);
        }
    }
}

proof fn lemma_name_line(key: Seq<u8>, name: Seq<char>)
    requires
        no_newline(key),
        is_ascii_bytes(key),
        plain_ascii(name),
    ensures
        no_newline(field_line(key, utf8(name))),
        is_ascii_bytes(field_line(key, utf8(name))),
{
    lemma_plain_ascii_bytes(name);
    lemma_plain_line(key, utf8(name));
}

proof fn lemma_spec_lines_plain(v: SpecView)
    ensures
        forall|k: int| 0 <= k < spec_lines(v).len() ==> no_newline(#[trigger] spec_lines(v)[k])
            && is_ascii_bytes(spec_lines(v)[k]),
{
    lemma_spec_literals();
    lemma_name_texts_plain(
        v.architecture,
        v.base_channel,
        v.kernel_policy,
        v.profile.construction_mode,
        SystemPriority::Reliability,
        FeatureState::Enabled,
    );
    lemma_plain_ascii_bytes("theblob-system-spec-v1"@);
    lemma_plain_ascii_bytes("architecture"@);
    lemma_plain_ascii_bytes("base-channel"@);
    lemma_plain_ascii_bytes("kernel-policy"@);
    lemma_plain_ascii_bytes("construction-mode"@);
    lemma_hex_line("system-spec"@, v.id);
    lemma_hex_line("hostname"@, v.hostname);
    lemma_name_line(utf8("architecture"@), architecture_text(v.architecture));
    lemma_name_line(utf8("base-channel"@), channel_text(v.base_channel));
    lemma_name_line(utf8("kernel-policy"@), kernel_text(v.kernel_policy));
    lemma_hex_line("profile"@, v.profile.id);
    lemma_name_line(utf8("construction-mode"@), construction_text(v.profile.construction_mode));
    lemma_decimal_line("priority-count"@, v.profile.priorities.len());
    lemma_decimal_line("feature-count"@, v.profile.features.len());
    lemma_hex_line("experience-profile"@, experience_text(v.experience_profile));
    let ps = v.profile.priorities;
    let fs = sorted_features(v.profile.features);
    assert forall|i: int| 0 <= i < ps.len() implies no_newline(#[trigger] priority_lines(ps)[i])
        && is_ascii_bytes(priority_lines(ps)[i]) by {
        crate::lines::lemma_empty_utf8();
        lemma_indexed_key_plain("priority-"@, i as nat, ""@);
        lemma_name_texts_plain(
            v.architecture,
            v.base_channel,
            v.kernel_policy,
            v.profile.construction_mode,
            ps[i],
            FeatureState::Enabled,
        );
        lemma_name_line(priority_key(i as nat), priority_text(ps[i]));
    }
    assert forall|k: int| 0 <= k < feature_lines(fs).len() implies no_newline(
        #[trigger] feature_lines(fs)[k],
    ) && is_ascii_bytes(feature_lines(fs)[k]) by {
        lemma_indexed_key_plain("feature-"@, (k / 2) as nat, "-id"@);
        lemma_indexed_key_plain("feature-"@, (k / 2) as nat, "-state"@);
        lemma_hex_line_bytes(feature_id_key((k / 2) as nat), fs[k / 2].feature);
        lemma_name_texts_plain(
            v.architecture,
            v.base_channel,
            v.kernel_policy,
            v.profile.construction_mode,
            SystemPriority::Reliability,
            fs[k / 2].state,
        );
        lemma_name_line(feature_state_key((k / 2) as nat), feature_state_text(fs[k / 2].state));
    }
    let ls = spec_lines(v);
    let h = spec_head_lines(v);
    let pl = priority_lines(ps);
    let t = spec_tail_lines(v);
    assert forall|k: int| 0 <= k < ls.len() implies no_newline(#[trigger] ls[k]) && is_ascii_bytes(
        ls[k],
    ) by {
        if k < 9 {
            assert(ls[k] == h[k]);
        } else if k < 9 + pl.len() {
            assert(ls[k] == pl[k - 9]);
        } else {
            let j = k - 9 - pl.len();
            assert(ls[k] == t[j]);
            if j == 0 {
            } else if j < 1 + feature_lines(fs).len() {
                assert(t[j] == feature_lines(fs)[j - 1]);
            } else {
            }
        }
    }
}

fn write_spec_head(w: &mut RecordWriter, spec: &SystemSpec)
    requires
        old(w).inv(),
        old(w).lines().len() == 0,
    ensures
        final(w).inv(),
        final(w).lines() == spec_head_lines(spec@),
{
    w.literal("theblob-system-spec-v1");
    w.hex_field("system-spec".as_bytes(), spec.id.as_str());
    w.hex_field("hostname".as_bytes(), spec.hostname.as_str());
    w.raw_field("architecture".as_bytes(), architecture_name(spec.architecture).as_bytes());
    w.raw_field("base-channel".as_bytes(), channel_name(spec.base_channel).as_bytes());
    w.raw_field("kernel-policy".as_bytes(), kernel_name(spec.kernel_policy).as_bytes());
    w.hex_field("profile".as_bytes(), spec.profile.id.as_str());
    w.raw_field(
        "construction-mode".as_bytes(),
        construction_name(spec.profile.construction_mode).as_bytes(),
    );
    w.decimal_field("priority-count".as_bytes(), spec.profile.priorities.len() as u64);
    assert(w.lines() =~= spec_head_lines(spec@));
}

fn write_priorities(w: &mut RecordWriter, ps: &Vec<SystemPriority>)
    requires
        old(w).inv(),
    ensures
        final(w).inv(),
        final(w).lines() == old(w).lines() + priority_lines(ps@),
{
    let ghost head = w.lines();
    let mut i: usize = 0;
    while i < ps.len()
        invariant
            i <= ps@.len(),
            w.inv(),
            w.lines() == head + priority_lines(ps@.take(i as int)),
        decreases ps.len() - i,
    {
        let key = make_indexed_key("priority-", i as u64, "");
        proof {
            crate::lines::lemma_empty_utf8();
            assert(key@ =~= priority_key(i as nat));
        }
        w.raw_field(key.as_slice(), priority_name(ps[i]).as_bytes());
        i = i + 1;
        assert(priority_lines(ps@.take(i as int)) =~= priority_lines(ps@.take(i - 1)).push(
            field_line(priority_key((i - 1) as nat), utf8(priority_text(ps@[i - 1]))),
        ));
        assert(w.lines() =~= head + priority_lines(ps@.take(i as int)));
    }
    assert(ps@.take(ps@.len() as int) =~= ps@);
}

fn write_features(w: &mut RecordWriter, fs: &Vec<SystemFeatureSelection>)
    requires
        old(w).inv(),
    ensures
        final(w).inv(),
        final(w).lines() == old(w).lines() + feature_lines(features_view(fs@)),
{
    let ghost head = w.lines();
    let ghost v = features_view(fs@);
    let mut i: usize = 0;
    while i < fs.len()
        invariant
            v == features_view(fs@),
            i <= fs@.len(),
            w.inv(),
            w.lines() == head + feature_lines(v.take(i as int)),
        decreases fs.len() - i,
    {
        let id_key = make_indexed_key("feature-", i as u64, "-id");
        let state_key = make_indexed_key("feature-", i as u64, "-state");
        w.hex_field(id_key.as_slice(), fs[i].feature.as_str());
        w.raw_field(state_key.as_slice(), feature_state_name(fs[i].state).as_bytes());
        i = i + 1;
        proof {
            let a = feature_lines(v.take(i - 1));
            let b = feature_lines(v.take(i as int));
            assert(b.len() == a.len() + 2);
            assert forall|k: int| 0 <= k < a.len() implies b[k] == a[k] by {
                assert(v.take(i as int)[k / 2] == v.take(i - 1)[k / 2]);
            }
            assert(b[a.len() as int] == field_line(id_key@, hex_of_text(v[i - 1].feature)));
            assert(b[a.len() + 1int] == field_line(state_key@, utf8(feature_state_text(v[i - 1].state))));
            assert(b =~= a.push(field_line(id_key@, hex_of_text(v[i - 1].feature))).push(
                field_line(state_key@, utf8(feature_state_text(v[i - 1].state))),
            ));
            assert(w.lines() =~= head + b);
        }
    }
    assert(v.take(fs@.len() as int) =~= v);
}

/// Serializes a SystemSpec in its versioned canonical form, features ordered by id.
pub fn canonical_system_spec(spec: &SystemSpec) -> (r: String)
    ensures
        utf8(r@) == system_spec_text(spec@),
        r@ == ascii_chars(system_spec_text(spec@)),
{
    let features = sort_features(&spec.profile.features);
    proof {
        lemma_sorted_features(features_view(spec.profile.features@));
    }
    let mut w = RecordWriter::new();
    write_spec_head(&mut w, spec);
    write_priorities(&mut w, &spec.profile.priorities);
    w.decimal_field("feature-count".as_bytes(), features.len() as u64);
    write_features(&mut w, &features);
    match &spec.experience_profile {
        Some(e) => w.hex_field("experience-profile".as_bytes(), e.as_str()),
        None => w.hex_field("experience-profile".as_bytes(), ""),
    }
    proof {
        reveal_strlit("");
        assert(w.lines() =~= spec_lines(spec@));
        lemma_spec_lines_plain(spec@);
    }
    w.finish()
}


// ---------------------------------------------------------------------------
// Reading the canonical text
// ---------------------------------------------------------------------------

/// The value of `key=value` on line `k`, if there is such a line.
pub open spec fn line_field(ls: Seq<Seq<u8>>, k: int, key: Seq<u8>) -> Option<Seq<u8>> {
    if 0 <= k < ls.len() {
        field_value(ls[k], key)
    } else {
        None
    }
}

pub open spec fn hex_at(ls: Seq<Seq<u8>>, k: int, key: Seq<u8>) -> Option<Seq<char>> {
    match line_field(ls, k, key) {
        Some(v) => text_of_hex_with(v, false),
        None => None,
    }
}

pub open spec fn count_at(ls: Seq<Seq<u8>>, k: int, key: Seq<u8>, maximum: nat) -> Option<nat> {
    if 0 <= k < ls.len() {
        count_field(ls[k], key, maximum)
    } else {
        None
    }
}

pub open spec fn architecture_at(ls: Seq<Seq<u8>>) -> Option<SystemArchitecture> {
    match line_field(ls, 3, utf8("architecture"@)) {
        Some(v) => architecture_of(v),
        None => None,
    }
}

pub open spec fn channel_at(ls: Seq<Seq<u8>>) -> Option<SystemChannel> {
    match line_field(ls, 4, utf8("base-channel"@)) {
        Some(v) => channel_of(v),
        None => None,
    }
}

pub open spec fn kernel_at(ls: Seq<Seq<u8>>) -> Option<KernelPolicy> {
    match line_field(ls, 5, utf8("kernel-policy"@)) {
        Some(v) => kernel_of(v),
        None => None,
    }
}

pub open spec fn construction_at(ls: Seq<Seq<u8>>) -> Option<SystemConstructionMode> {
    match line_field(ls, 7, utf8("construction-mode"@)) {
        Some(v) => construction_of(v),
        None => None,
    }
}

/// The first nine lines are well formed.
pub open spec fn head_ok(ls: Seq<Seq<u8>>) -> bool {
    &&& ls.len() > 0 && ls[0] == utf8("theblob-system-spec-v1"@)
    &&& hex_at(ls, 1, utf8("system-spec"@)) is Some
    &&& hex_at(ls, 2, utf8("hostname"@)) is Some
    &&& architecture_at(ls) is Some
    &&& channel_at(ls) is Some
    &&& kernel_at(ls) is Some
    &&& hex_at(ls, 6, utf8("profile"@)) is Some
    &&& construction_at(ls) is Some
    &&& count_at(ls, 8, utf8("priority-count"@), MAX_SPEC_PRIORITIES as nat) is Some
}

pub open spec fn priority_at(ls: Seq<Seq<u8>>, i: int) -> Option<SystemPriority> {
    match line_field(ls, 9 + i, priority_key(i as nat)) {
        Some(v) => priority_of(v),
        None => None,
    }
}

pub open spec fn priorities_ok(ls: Seq<Seq<u8>>, n: nat) -> bool {
    forall|i: int| 0 <= i < n ==> (#[trigger] priority_at(ls, i)) is Some
}

/// Feature `i` of a block of feature lines starting at line `base`.
pub open spec fn feature_at(ls: Seq<Seq<u8>>, base: int, i: int) -> Option<FeatureView> {
    match hex_at(ls, base + 2 * i, feature_id_key(i as nat)) {
        Some(id) => match line_field(ls, base + 2 * i + 1, feature_state_key(i as nat)) {
            Some(v) => match feature_state_of(v) {
                Some(st) => Some(FeatureView { feature: id, state: st }),
                None => None,
            },
            None => None,
        },
        None => None,
    }
}

/// The first refusal among features `i..n`: a malformed one, or an invalid id.
pub open spec fn features_outcome(ls: Seq<Seq<u8>>, base: int, i: int, n: int) -> Option<
    CanonicalSystemSpecError,
>
    decreases n - i,
{
    if i >= n {
        None
    } else {
        match feature_at(ls, base, i) {
            None => Some(CanonicalSystemSpecError::Malformed),
            Some(f) => if !spec_id_ok(utf8(f.feature)) {
                Some(CanonicalSystemSpecError::InvalidId)
            } else {
                features_outcome(ls, base, i + 1, n)
            },
        }
    }
}

/// The SystemSpec that well-formed lines describe.
pub open spec fn spec_of_lines(ls: Seq<Seq<u8>>, p: nat, f: nat) -> SpecView {
    let e = hex_at(ls, (10 + p + 2 * f) as int, utf8("experience-profile"@))->0;
    SpecView {
        id: hex_at(ls, 1, utf8("system-spec"@))->0,
        hostname: hex_at(ls, 2, utf8("hostname"@))->0,
        architecture: architecture_at(ls)->0,
        base_channel: channel_at(ls)->0,
        kernel_policy: kernel_at(ls)->0,
        profile: ProfileView {
            id: hex_at(ls, 6, utf8("profile"@))->0,
            construction_mode: construction_at(ls)->0,
            priorities: Seq::new(p, |i: int| priority_at(ls, i)->0),
            features: Seq::new(f, |i: int| feature_at(ls, (10 + p) as int, i)->0),
        },
        experience_profile: if e.len() == 0 {
            None
        } else {
            Some(e)
        },
    }
}

/// The structure and identifier checks, in the order the reader applies them.
pub open spec fn spec_fields(ls: Seq<Seq<u8>>) -> Result<SpecView, CanonicalSystemSpecError> {
    if !head_ok(ls) {
        Err(CanonicalSystemSpecError::Malformed)
    } else {
        let p = count_at(ls, 8, utf8("priority-count"@), MAX_SPEC_PRIORITIES as nat)->0;
        if !priorities_ok(ls, p) {
            Err(CanonicalSystemSpecError::Malformed)
        } else {
            match count_at(ls, (9 + p) as int, utf8("feature-count"@), MAX_SPEC_FEATURES as nat) {
                None => Err(CanonicalSystemSpecError::Malformed),
                Some(f) => match features_outcome(ls, (10 + p) as int, 0, f as int) {
                    Some(e) => Err(e),
                    None => if hex_at(ls, (10 + p + 2 * f) as int, utf8("experience-profile"@)) is None {
                        Err(CanonicalSystemSpecError::Malformed)
                    } else if !(ls.len() == 12 + p + 2 * f && ls[(11 + p + 2 * f) as int].len() == 0) {
                        Err(CanonicalSystemSpecError::Malformed)
                    } else {
                        let v = spec_of_lines(ls, p, f);
                        if !spec_id_ok(utf8(v.id)) {
                            Err(CanonicalSystemSpecError::InvalidId)
                        } else if !spec_id_ok(utf8(v.profile.id)) {
                            Err(CanonicalSystemSpecError::InvalidId)
                        } else if v.experience_profile is Some && !spec_id_ok(
                            utf8(v.experience_profile->0),
                        ) {
                            Err(CanonicalSystemSpecError::InvalidId)
                        } else {
                            Ok(v)
                        }
                    },
                },
            }
        }
    }
}

/// The size, structure and identifier checks of a SystemSpec text.
pub open spec fn spec_fields_result(b: Seq<u8>) -> Result<SpecView, CanonicalSystemSpecError> {
    if b.len() > MAX_CANONICAL_SYSTEM_SPEC_BYTES {
        Err(CanonicalSystemSpecError::TooLarge)
    } else {
        spec_fields(split_lines(b))
    }
}

/// What `parse_canonical_system_spec` gives for the UTF-8 bytes of a text.
pub open spec fn parse_spec_result(b: Seq<u8>) -> Result<SpecView, CanonicalSystemSpecError> {
    match spec_fields_result(b) {
        Err(e) => Err(e),
        Ok(v) => if system_spec_text(v) != b {
            Err(CanonicalSystemSpecError::NonCanonical)
        } else {
            Ok(v)
        },
    }
}

/// The first nine lines, read: identity, platform, profile and the priority count.
struct SpecHead {
    id: String,
    hostname: String,
    architecture: SystemArchitecture,
    base_channel: SystemChannel,
    kernel_policy: KernelPolicy,
    profile: String,
    construction_mode: SystemConstructionMode,
    priority_count: usize,
}

fn read_spec_head(c: &mut LineCursor) -> (r: Option<SpecHead>)
    requires
        old(c).position() == 0,
    ensures
        final(c).lines() == old(c).lines(),
        r is Some <==> head_ok(old(c).lines()),
        r matches Some(h) ==> {
            let ls = old(c).lines();
            &&& final(c).position() == 9
            &&& h.id@ == hex_at(ls, 1, utf8("system-spec"@))->0
            &&& h.hostname@ == hex_at(ls, 2, utf8("hostname"@))->0
            &&& h.architecture == architecture_at(ls)->0
            &&& h.base_channel == channel_at(ls)->0
            &&& h.kernel_policy == kernel_at(ls)->0
            &&& h.profile@ == hex_at(ls, 6, utf8("profile"@))->0
            &&& h.construction_mode == construction_at(ls)->0
            &&& h.priority_count as nat == count_at(
                ls,
                8,
                utf8("priority-count"@),
                MAX_SPEC_PRIORITIES as nat,
            )->0
        },
{
    if !c.literal("theblob-system-spec-v1".as_bytes()) {
        return None;
    }
    let id = match c.hex_field("system-spec".as_bytes(), false) {
        Some(v) => v,
        None => return None,
    };
    let hostname = match c.hex_field("hostname".as_bytes(), false) {
        Some(v) => v,
        None => return None,
    };
    let architecture = match c.field("architecture".as_bytes()) {
        Some(v) => match parse_architecture(v.as_slice()) {
            Some(a) => a,
            None => return None,
        },
        None => return None,
    };
    let base_channel = match c.field("base-channel".as_bytes()) {
        Some(v) => match parse_channel(v.as_slice()) {
            Some(a) => a,
            None => return None,
        },
        None => return None,
    };
    let kernel_policy = match c.field("kernel-policy".as_bytes()) {
        Some(v) => match parse_kernel(v.as_slice()) {
            Some(a) => a,
            None => return None,
        },
        None => return None,
    };
    let profile = match c.hex_field("profile".as_bytes(), false) {
        Some(v) => v,
        None => return None,
    };
    let construction_mode = match c.field("construction-mode".as_bytes()) {
        Some(v) => match parse_construction(v.as_slice()) {
            Some(a) => a,
            None => return None,
        },
        None => return None,
    };
    let priority_count = match c.count_field("priority-count".as_bytes(), MAX_SPEC_PRIORITIES) {
        Some(v) => v,
        None => return None,
    };
    Some(
        SpecHead {
            id,
            hostname,
            architecture,
            base_channel,
            kernel_policy,
            profile,
            construction_mode,
            priority_count,
        },
    )
}

fn read_priorities(c: &mut LineCursor, count: usize) -> (r: Option<Vec<SystemPriority>>)
    requires
        old(c).position() == 9,
    ensures
        final(c).lines() == old(c).lines(),
        r is Some <==> priorities_ok(old(c).lines(), count as nat),
        r matches Some(ps) ==> final(c).position() == 9 + count && ps@ == Seq::new(
            count as nat,
            |i: int| priority_at(old(c).lines(), i)->0,
        ),
{
    let ghost ls = c.lines();
    let mut out: Vec<SystemPriority> = Vec::new();
    let mut i: usize = 0;
    while i < count
        invariant
            c.lines() == ls,
            ls == old(c).lines(),
            c.position() == 9 + i,
            i <= count,
            out@.len() == i,
            forall|j: int| 0 <= j < i ==> (#[trigger] priority_at(ls, j)) == Some(out@[j]),
        decreases count - i,
    {
        let key = make_indexed_key("priority-", i as u64, "");
        proof {
            crate::lines::lemma_empty_utf8();
            assert(key@ =~= priority_key(i as nat));
        }
        let got = match c.field(key.as_slice()) {
            Some(v) => parse_priority(v.as_slice()),
            None => None,
        };
        match got {
            Some(p) => out.push(p),
            None => {
                assert(priority_at(ls, i as int) is None);
                return None;
            },
        }
        i = i + 1;
    }
    assert(out@ =~= Seq::new(count as nat, |j: int| priority_at(ls, j)->0));
    Some(out)
}

fn read_features(c: &mut LineCursor, base: usize, count: usize) -> (r: Result<
    Vec<SystemFeatureSelection>,
    CanonicalSystemSpecError,
>)
    requires
        old(c).position() == base,
        base <= 100,
        count <= MAX_SPEC_FEATURES,
    ensures
        final(c).lines() == old(c).lines(),
        match r {
            Ok(fs) => features_outcome(old(c).lines(), base as int, 0, count as int) is None
                && final(c).position() == base + 2 * count && features_view(fs@) == Seq::new(
                count as nat,
                |i: int| feature_at(old(c).lines(), base as int, i)->0,
            ),
            Err(e) => features_outcome(old(c).lines(), base as int, 0, count as int) == Some(e),
        },
{
    let ghost ls = c.lines();
    let mut out: Vec<SystemFeatureSelection> = Vec::new();
    let mut i: usize = 0;
    while i < count
        invariant
            c.lines() == ls,
            ls == old(c).lines(),
            old(c).position() == base,
            c.position() == base + 2 * i,
            base <= 100,
            count <= MAX_SPEC_FEATURES,
            i <= count,
            out@.len() == i,
            features_outcome(ls, base as int, 0, count as int) == features_outcome(
                ls,
                base as int,
                i as int,
                count as int,
            ),
            forall|j: int| 0 <= j < i ==> (#[trigger] feature_at(ls, base as int, j)) == Some(out@[j]@),
        decreases count - i,
    {
        let id_key = make_indexed_key("feature-", i as u64, "-id");
        let state_key = make_indexed_key("feature-", i as u64, "-state");
        let ghost k = base + 2 * i;
        let id = match c.hex_field(id_key.as_slice(), false) {
            Some(v) => v,
            None => {
                assert(feature_at(ls, base as int, i as int) is None);
                return Err(CanonicalSystemSpecError::Malformed);
            },
        };
        let state = match c.field(state_key.as_slice()) {
            Some(v) => match parse_feature_state(v.as_slice()) {
                Some(st) => st,
                None => {
                    assert(feature_at(ls, base as int, i as int) is None);
                    return Err(CanonicalSystemSpecError::Malformed);
                },
            },
            None => {
                assert(feature_at(ls, base as int, i as int) is None);
                return Err(CanonicalSystemSpecError::Malformed);
            },
        };
        assert(feature_at(ls, base as int, i as int) == Some(FeatureView { feature: id@, state }));
        if validate_id(id.as_str()).is_err() {
            return Err(CanonicalSystemSpecError::InvalidId);
        }
        out.push(SystemFeatureSelection { feature: id, state });
        i = i + 1;
    }
    assert(features_view(out@) =~= Seq::new(count as nat, |j: int| feature_at(ls, base as int, j)->0));
    Ok(out)
}

/// Reads the fields of a SystemSpec text: its size, structure and identifiers.
#[verifier::rlimit(40)]
#[verifier::spinoff_prover]
pub fn parse_system_spec_fields(text: &str) -> (r: Result<SystemSpec, CanonicalSystemSpecError>)
    ensures
        match r {
            Ok(spec) => spec_fields_result(utf8(text@)) == Ok::<SpecView, CanonicalSystemSpecError>(spec@),
            Err(e) => spec_fields_result(utf8(text@)) == Err::<SpecView, CanonicalSystemSpecError>(e),
        },
{
    let bytes = text.as_bytes();
    if bytes.len() as u64 > MAX_CANONICAL_SYSTEM_SPEC_BYTES {
        return Err(CanonicalSystemSpecError::TooLarge);
    }
    let mut c = LineCursor::new(bytes);
    let ghost ls = c.lines();
    let head = match read_spec_head(&mut c) {
        Some(h) => h,
        None => return Err(CanonicalSystemSpecError::Malformed),
    };
    let p = head.priority_count;
    let priorities = match read_priorities(&mut c, p) {
        Some(ps) => ps,
        None => return Err(CanonicalSystemSpecError::Malformed),
    };
    let f = match c.count_field("feature-count".as_bytes(), MAX_SPEC_FEATURES) {
        Some(v) => v,
        None => return Err(CanonicalSystemSpecError::Malformed),
    };
    let features = match read_features(&mut c, 10 + p, f) {
        Ok(fs) => fs,
        Err(e) => return Err(e),
    };
    let experience = match c.hex_field("experience-profile".as_bytes(), false) {
        Some(v) => v,
        None => return Err(CanonicalSystemSpecError::Malformed),
    };
    if !c.finish() {
        return Err(CanonicalSystemSpecError::Malformed);
    }
    let experience_profile = if experience.as_str().as_bytes().len() == 0 {
        None
    } else {
        Some(experience)
    };
    let spec = SystemSpec {
        id: head.id,
        hostname: head.hostname,
        architecture: head.architecture,
        base_channel: head.base_channel,
        kernel_policy: head.kernel_policy,
        profile: SemanticBuildProfile {
            id: head.profile,
            construction_mode: head.construction_mode,
            priorities,
            features,
        },
        experience_profile,
    };
    proof {
        let v = spec_of_lines(ls, p as nat, f as nat);
        assert(spec@.profile.priorities =~= v.profile.priorities);
        assert(spec@.profile.features =~= v.profile.features);
        assert(spec@ == v);
        assert(spec_fields(ls) == if !spec_id_ok(utf8(v.id)) {
            Err(CanonicalSystemSpecError::InvalidId)
        } else if !spec_id_ok(utf8(v.profile.id)) {
            Err(CanonicalSystemSpecError::InvalidId)
        } else if v.experience_profile is Some && !spec_id_ok(utf8(v.experience_profile->0)) {
            Err(CanonicalSystemSpecError::InvalidId)
        } else {
            Ok(v)
        });
    }
    if validate_id(spec.id.as_str()).is_err() {
        return Err(CanonicalSystemSpecError::InvalidId);
    }
    if validate_id(spec.profile.id.as_str()).is_err() {
        return Err(CanonicalSystemSpecError::InvalidId);
    }
    match &spec.experience_profile {
        Some(e) => {
            if validate_id(e.as_str()).is_err() {
                return Err(CanonicalSystemSpecError::InvalidId);
            }
        },
        None => {},
    }
    Ok(spec)
}

/// Whether a SystemSpec is written exactly as `text`.
pub fn is_canonical_text(spec: &SystemSpec, text: &str) -> (r: bool)
    ensures
        r == (system_spec_text(spec@) == utf8(text@)),
{
    let rendered = canonical_system_spec(spec);
    bytes_equal(rendered.as_str().as_bytes(), text.as_bytes())
}

/// Reads a canonical SystemSpec text, refusing any other form of the same system.
/// The semantic validation of the system model is not part of it: a caller that
/// has it parses with `parse_system_spec_fields` and finishes with
/// `accept_parsed_system_spec`.
pub fn parse_canonical_system_spec(text: &str) -> (r: Result<SystemSpec, CanonicalSystemSpecError>)
    ensures
        match r {
            Ok(spec) => parse_spec_result(utf8(text@)) == Ok::<SpecView, CanonicalSystemSpecError>(spec@),
            Err(e) => parse_spec_result(utf8(text@)) == Err::<SpecView, CanonicalSystemSpecError>(e),
        },
{
    let spec = match parse_system_spec_fields(text) {
        Ok(s) => s,
        Err(e) => return Err(e),
    };
    if !is_canonical_text(&spec, text) {
        return Err(CanonicalSystemSpecError::NonCanonical);
    }
    Ok(spec)
}


/// The step after `parse_system_spec_fields`: the parsed spec must pass the
/// semantic validation of the system model (`validation`, computed on that
/// spec), and then the text must be exactly its canonical form.
pub fn accept_parsed_system_spec(
    spec: SystemSpec,
    text: &str,
    validation: Result<(), Vec<String>>,
) -> (r: Result<SystemSpec, CanonicalSystemSpecError>)
    ensures
        match validation {
            Err(v) => r == Err::<SystemSpec, CanonicalSystemSpecError>(
                CanonicalSystemSpecError::InvalidSystemSpec(v),
            ),
            Ok(()) => if system_spec_text(spec@) == utf8(text@) {
                r == Ok::<SystemSpec, CanonicalSystemSpecError>(spec)
            } else {
                r == Err::<SystemSpec, CanonicalSystemSpecError>(CanonicalSystemSpecError::NonCanonical)
            },
        },
{
    match validation {
        Ok(()) => {},
        Err(v) => return Err(CanonicalSystemSpecError::InvalidSystemSpec(v)),
    }
    if !is_canonical_text(&spec, text) {
        return Err(CanonicalSystemSpecError::NonCanonical);
    }
    Ok(spec)
}

/// The rules a SystemSpec meets to be written and read back.
pub open spec fn spec_writable(v: SpecView) -> bool {
    &&& spec_id_ok(utf8(v.id))
    &&& spec_id_ok(utf8(v.profile.id))
    &&& v.experience_profile matches Some(e) ==> spec_id_ok(utf8(e))
    &&& v.profile.priorities.len() <= MAX_SPEC_PRIORITIES
    &&& v.profile.features.len() <= MAX_SPEC_FEATURES
    &&& forall|i: int|
        0 <= i < v.profile.features.len() ==> spec_id_ok(#[trigger] utf8(v.profile.features[i].feature))
    &&& system_spec_text(v).len() <= MAX_CANONICAL_SYSTEM_SPEC_BYTES
}

/// The same SystemSpec with its features in canonical order.
pub open spec fn in_canonical_order(v: SpecView) -> SpecView {
    SpecView {
        profile: ProfileView { features: sorted_features(v.profile.features), ..v.profile },
        ..v
    }
}

proof fn lemma_features_outcome_none(ls: Seq<Seq<u8>>, base: int, i: int, n: int)
    requires
        0 <= i <= n,
        forall|j: int|
            i <= j < n ==> (#[trigger] feature_at(ls, base, j)) is Some && spec_id_ok(
                utf8(feature_at(ls, base, j)->0.feature),
            ),
    ensures
        features_outcome(ls, base, i, n) is None,
    decreases n - i,
{
    if i < n {
        assert(feature_at(ls, base, i) is Some);
        lemma_features_outcome_none(ls, base, i + 1, n);
    }
}

proof fn lemma_name_fields(key: Seq<char>, name: Seq<char>)
    ensures
        field_value(kl(key, utf8(name)), utf8(key)) == Some(utf8(name)),
{
    lemma_field_line(utf8(key), utf8(name));
}

/// Reading the canonical text of a SystemSpec gives it back, its features in canonical order.
#[verifier::rlimit(80)]
#[verifier::spinoff_prover]
pub proof fn lemma_system_spec_round_trip(v: SpecView)
    requires
        spec_writable(v),
    ensures
        parse_spec_result(system_spec_text(v)) == Ok::<SpecView, CanonicalSystemSpecError>(
            in_canonical_order(v),
        ),
{
    let ls = spec_lines(v);
    lemma_spec_lines_plain(v);
    assert(all_lines_plain(ls));
    lemma_split_lines_text(ls);
    let sp = split_lines(system_spec_text(v));
    assert(sp == ls.push(Seq::<u8>::empty()));
    let p: int = v.profile.priorities.len() as int;
    let fs = sorted_features(v.profile.features);
    lemma_sorted_features(v.profile.features);
    let f: int = fs.len() as int;
    assert(f == v.profile.features.len());
    let h = spec_head_lines(v);
    let pl = priority_lines(v.profile.priorities);
    let t = spec_tail_lines(v);
    let fl = feature_lines(fs);
    assert(ls.len() == 9 + p + 1 + 2 * f + 1);
    assert forall|k: int| 0 <= k < 9 implies sp[k] == h[k] by {}
    lemma_names_round_trip(
        v.architecture,
        v.base_channel,
        v.kernel_policy,
        v.profile.construction_mode,
        SystemPriority::Reliability,
        FeatureState::Enabled,
    );
    lemma_field_line(utf8("system-spec"@), hex_of_text(v.id));
    lemma_field_line(utf8("hostname"@), hex_of_text(v.hostname));
    lemma_name_fields("architecture"@, architecture_text(v.architecture));
    lemma_name_fields("base-channel"@, channel_text(v.base_channel));
    lemma_name_fields("kernel-policy"@, kernel_text(v.kernel_policy));
    lemma_field_line(utf8("profile"@), hex_of_text(v.profile.id));
    lemma_name_fields("construction-mode"@, construction_text(v.profile.construction_mode));
    lemma_field_line(utf8("priority-count"@), decimal(p as nat));
    lemma_hex_text_round_trip(v.id, false);
    lemma_hex_text_round_trip(v.hostname, false);
    lemma_hex_text_round_trip(v.profile.id, false);
    lemma_decimal_round_trip(p as nat);
    assert(sp[0] == h[0]);
    assert(sp[1] == h[1]);
    assert(sp[2] == h[2]);
    assert(sp[3] == h[3]);
    assert(sp[4] == h[4]);
    assert(sp[5] == h[5]);
    assert(sp[6] == h[6]);
    assert(sp[7] == h[7]);
    assert(sp[8] == h[8]);
    assert(head_ok(sp));
    assert forall|i: int| 0 <= i < p implies (#[trigger] priority_at(sp, i)) == Some(
        v.profile.priorities[i],
    ) by {
        assert(sp[9 + i] == pl[i]);
        lemma_field_line(priority_key(i as nat), utf8(priority_text(v.profile.priorities[i])));
        lemma_names_round_trip(
            v.architecture,
            v.base_channel,
            v.kernel_policy,
            v.profile.construction_mode,
            v.profile.priorities[i],
            FeatureState::Enabled,
        );
    }
    assert(priorities_ok(sp, p as nat));
    assert(sp[9 + p] == t[0]);
    lemma_field_line(utf8("feature-count"@), decimal(f as nat));
    lemma_decimal_round_trip(f as nat);
    assert(count_at(sp, 9 + p, utf8("feature-count"@), MAX_SPEC_FEATURES as nat) == Some(f as nat));
    assert forall|j: int| 0 <= j < f implies (#[trigger] feature_at(sp, 10 + p, j)) == Some(fs[j]) by {
        assert(sp[10 + p + 2 * j] == fl[2 * j]);
        assert(sp[10 + p + 2 * j + 1] == fl[2 * j + 1]);
        assert((2 * j) / 2 == j);
        assert((2 * j + 1) / 2 == j);
        lemma_field_line(feature_id_key(j as nat), hex_of_text(fs[j].feature));
        lemma_hex_text_round_trip(fs[j].feature, false);
        lemma_field_line(feature_state_key(j as nat), utf8(feature_state_text(fs[j].state)));
        lemma_names_round_trip(
            v.architecture,
            v.base_channel,
            v.kernel_policy,
            v.profile.construction_mode,
            SystemPriority::Reliability,
            fs[j].state,
        );
    }
    assert forall|j: int| 0 <= j < f implies spec_id_ok(#[trigger] utf8(fs[j].feature)) by {
        broadcast use vstd::seq_lib::group_to_multiset_ensures;
        assert(fs.to_multiset().count(fs[j]) > 0);
        assert(v.profile.features.contains(fs[j]));
        let k = choose|k: int| 0 <= k < v.profile.features.len() && v.profile.features[k] == fs[j];
        assert(spec_id_ok(utf8(v.profile.features[k].feature)));
    }
    lemma_features_outcome_none(sp, 10 + p, 0, f);
    let e = experience_text(v.experience_profile);
    assert(sp[10 + p + 2 * f] == t[1 + 2 * f]);
    lemma_field_line(utf8("experience-profile"@), hex_of_text(e));
    lemma_hex_text_round_trip(e, false);
    assert(sp[11 + p + 2 * f] == Seq::<u8>::empty());
    let got = spec_of_lines(sp, p as nat, f as nat);
    let want = in_canonical_order(v);
    assert(got.profile.priorities =~= want.profile.priorities);
    assert(got.profile.features =~= want.profile.features);
    if v.experience_profile is None {
        crate::lines::lemma_empty_utf8();
        assert(e =~= Seq::<char>::empty());
    } else {
        assert(utf8(e).len() > 0);
        assert(e.len() > 0);
    }
    assert(got == want);
    assert(spec_fields(sp) == Ok::<SpecView, CanonicalSystemSpecError>(want));
    lemma_sorted_features_idempotent(v.profile.features);
    assert(spec_lines(want) == spec_lines(v));
}

/// Why a canonical SystemSpec text was refused.
#[derive(Clone, Debug, PartialEq, Eq)]
pub enum CanonicalSystemSpecError {
    TooLarge,
    Malformed,
    NonCanonical,
    InvalidId,
    InvalidSystemSpec(Vec<String>),
}

} // verus!
