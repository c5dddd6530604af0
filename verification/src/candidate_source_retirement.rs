//! Retiring a candidate's selection and then its immutable source, in
//! monotonic phases, with an exact source-retirement receipt.
use vstd::prelude::*;
use crate::lifecycle::{hex_entry, LifecyclePaths};
use crate::paths::{components, hex_name, join, join_name, parts_view, path_parts};
use crate::text::{
    ascii_chars, bytes_equal, decimal, has_prefix, hex_of_text, hex_text, is_ascii_bytes,
    lemma_decimal_round_trip, lemma_hex_text_round_trip, starts_with, str_eq, text_from_utf8,
    unsigned_value, utf8, utf8_text,
};
use crate::fsmeta::{is_protected_file, protected_file, FileFacts};
use crate::lifecycle::{link_points_to, LinkObservation};
use crate::lines::{
    field_line, field_value, hex_text_field, lemma_field_line, lemma_split_lines_text, lines_text,
    split_lines, u64_field, LineCursor, RecordWriter,
};
use crate::materialization_authority::{lemma_decimal_line, lemma_hex_line};

verus! {

pub const DEFAULT_SOURCE_RETIREMENT_RECEIPT_ROOT: &'static str =
    "/var/lib/theblob/materialization-lifecycle/source-retirements";

/// The largest source retirement receipt read back.
pub const MAX_SOURCE_RETIREMENT_RECEIPT_BYTES: u64 = 65536;

#[derive(Debug)]
pub enum CandidateSourceRetirementError {
    Lease(String),
    Lifecycle(crate::lifecycle::LifecycleError),
    MissingSelectionReceipt,
    InvalidSelectionReceipt,
    SourceRootConflict,
    InvalidLayout,
    Io(String),
}

#[derive(Clone, Copy, Debug, PartialEq, Eq, Structural)]
pub enum CandidateSourceRetirementDisposition {
    Reclaimed,
    AlreadyReclaimed,
}

pub open spec fn source_receipt_lines(
    manifest_id: Seq<char>,
    source: Seq<char>,
    occurred: u64,
    decision: Seq<char>,
) -> Seq<Seq<u8>> {
    seq![
        utf8("theblob-candidate-source-retirement-v1"@),
        field_line(utf8("manifest-id"@), hex_of_text(manifest_id)),
        field_line(utf8("source"@), hex_of_text(source)),
        field_line(utf8("occurred-at-unix-ms"@), decimal(occurred as nat)),
        field_line(utf8("decision"@), hex_of_text(decision)),
    ]
}

/// The UTF-8 bytes of a source retirement receipt.
pub open spec fn source_retirement_text(
    manifest_id: Seq<char>,
    source: Seq<char>,
    occurred: u64,
    decision: Seq<char>,
) -> Seq<u8> {
    lines_text(source_receipt_lines(manifest_id, source, occurred, decision))
}

proof fn lemma_source_receipt_lines_plain(m: Seq<char>, s: Seq<char>, n: u64, d: Seq<char>)
    ensures
        forall|k: int| 0 <= k < 5 ==> crate::lines::no_newline(
            #[trigger] source_receipt_lines(m, s, n, d)[k],
        ) && is_ascii_bytes(source_receipt_lines(m, s, n, d)[k]),
{
    reveal_strlit("theblob-candidate-source-retirement-v1");
    reveal_strlit("manifest-id");
    reveal_strlit("source");
    reveal_strlit("occurred-at-unix-ms");
    reveal_strlit("decision");
    crate::lines::lemma_plain_ascii_bytes("theblob-candidate-source-retirement-v1"@);
    lemma_hex_line("manifest-id"@, m);
    lemma_hex_line("source"@, s);
    lemma_decimal_line("occurred-at-unix-ms"@, n as nat);
    lemma_hex_line("decision"@, d);
}

/// Serializes a source retirement receipt: identifiers and source as
/// hexadecimal UTF-8.
pub fn canonical_source_retirement_receipt(
    manifest_id: &str,
    source: &str,
    now_unix_ms: u64,
    decision: &str,
) -> (r: String)
    ensures
        utf8(r@) == source_retirement_text(manifest_id@, source@, now_unix_ms, decision@),
{
    let mut w = RecordWriter::new();
    w.literal("theblob-candidate-source-retirement-v1");
    w.hex_field("manifest-id".as_bytes(), manifest_id);
    w.hex_field("source".as_bytes(), source);
    w.decimal_field("occurred-at-unix-ms".as_bytes(), now_unix_ms);
    w.hex_field("decision".as_bytes(), decision);
    proof {
        assert(w.lines() =~= source_receipt_lines(manifest_id@, source@, now_unix_ms, decision@));
        lemma_source_receipt_lines_plain(manifest_id@, source@, now_unix_ms, decision@);
    }
    w.finish()
}

/// A source retirement receipt of `manifest_id` and `source`: its exact canonical
/// text for some time and decision.
pub open spec fn source_receipt_valid(text: Seq<u8>, manifest_id: Seq<char>, source: Seq<char>) -> bool {
    exists|n: u64, d: Seq<char>| text == #[trigger] source_retirement_text(manifest_id, source, n, d)
}

proof fn lemma_source_receipt_reads(m: Seq<char>, s: Seq<char>, n: u64, d: Seq<char>)
    ensures
        ({
            let ls = split_lines(source_retirement_text(m, s, n, d));
            &&& ls.len() == 6
            &&& ls[0] == utf8("theblob-candidate-source-retirement-v1"@)
            &&& field_value(ls[1], utf8("manifest-id"@)) == Some(hex_of_text(m))
            &&& field_value(ls[2], utf8("source"@)) == Some(hex_of_text(s))
            &&& u64_field(ls[3], utf8("occurred-at-unix-ms"@)) == Some(n)
            &&& hex_text_field(ls[4], utf8("decision"@), false) == Some(d)
            &&& ls[5].len() == 0
        }),
{
    let ls = source_receipt_lines(m, s, n, d);
    lemma_source_receipt_lines_plain(m, s, n, d);
    assert(crate::lines::all_lines_plain(ls));
    lemma_split_lines_text(ls);
    lemma_field_line(utf8("manifest-id"@), hex_of_text(m));
    lemma_field_line(utf8("source"@), hex_of_text(s));
    lemma_field_line(utf8("occurred-at-unix-ms"@), decimal(n as nat));
    lemma_field_line(utf8("decision"@), hex_of_text(d));
    lemma_decimal_round_trip(n as nat);
    lemma_hex_text_round_trip(d, false);
}

/// `/nix/store/<name>` written as such: the prefix, no trailing `/`, and
/// exactly four components.
pub open spec fn exact_nix_store_text(p: Seq<char>) -> bool {
    &&& has_prefix(utf8(p), utf8("/nix/store/"@))
    &&& !(utf8(p).len() > 0 && utf8(p).last() == 47)
    &&& path_parts(utf8(p)).len() == 4
}

pub fn is_exact_nix_store_path(path: &str) -> (r: bool)
    ensures
        r == exact_nix_store_text(path@),
{
    let b = path.as_bytes();
    if !crate::text::starts_with(b, "/nix/store/".as_bytes()) || (b.len() > 0 && b[b.len() - 1]
        == 47) {
        return false;
    }
    let c = components(b);
    proof {
        assert(parts_view(c@).len() == c@.len());
    }
    c.len() == 4
}

/// Retires a candidate's selection and source.
/// The decision a source retirement receipt records once the selection is
/// retired and no lease refers to the candidate.
pub const SOURCE_RETIREMENT_DECISION: &'static str = "decision:retired-barrier-and-quiescence-proved";

pub struct RootCandidateSourceRetirement {
    lifecycle_paths: LifecyclePaths,
    lease_root: String,
    receipt_root: String,
    expected_owner_uid: u32,
}

/// A source is retired only while no enqueue lease of its manifest is held
/// (`held_leases` counts them).
pub fn check_quiescent(held_leases: usize) -> (r: Result<(), CandidateSourceRetirementError>)
    ensures
        r is Ok <==> held_leases == 0,
        r matches Err(e) ==> (e matches CandidateSourceRetirementError::Lease(m) && m@
            == crate::privileged_helper::number_text(held_leases as nat) + " enqueue leases still held"@),
{
    if held_leases != 0 {
        let n = crate::privileged_helper::decimal_text(held_leases as u64);
        return Err(CandidateSourceRetirementError::Lease(n.concat(" enqueue leases still held")));
    }
    Ok(())
}

impl RootCandidateSourceRetirement {
    pub closed spec fn paths_spec(&self) -> LifecyclePaths {
        self.lifecycle_paths
    }

    pub closed spec fn lease_root_spec(&self) -> Seq<char> {
        self.lease_root@
    }

    pub closed spec fn receipt_root_spec(&self) -> Seq<char> {
        self.receipt_root@
    }

    pub closed spec fn owner(&self) -> u32 {
        self.expected_owner_uid
    }

    pub fn production_default() -> (r: Self)
        ensures
            crate::lifecycle::production_lifecycle_paths(r.paths_spec()),
            r.lease_root_spec() == crate::candidate_lease::DEFAULT_CANDIDATE_ENQUEUE_LEASE_ROOT@,
            r.receipt_root_spec() == DEFAULT_SOURCE_RETIREMENT_RECEIPT_ROOT@,
            r.owner() == 0,
    {
        Self::new(
            LifecyclePaths::production_default(),
            crate::candidate_lease::DEFAULT_CANDIDATE_ENQUEUE_LEASE_ROOT,
            DEFAULT_SOURCE_RETIREMENT_RECEIPT_ROOT,
            0,
        )
    }

    pub fn new(lifecycle_paths: LifecyclePaths, lease_root: &str, receipt_root: &str, expected_owner_uid: u32) -> (r: Self)
        ensures
            r.paths_spec() == lifecycle_paths,
            r.lease_root_spec() == lease_root@,
            r.receipt_root_spec() == receipt_root@,
            r.owner() == expected_owner_uid,
    {
        RootCandidateSourceRetirement {
            lifecycle_paths,
            lease_root: lease_root.to_owned(),
            receipt_root: receipt_root.to_owned(),
            expected_owner_uid,
        }
    }

    pub fn lifecycle_paths(&self) -> (r: &LifecyclePaths)
        ensures
            *r == self.paths_spec(),
    {
        &self.lifecycle_paths
    }

    pub fn lease_root(&self) -> (r: &str)
        ensures
            r@ == self.lease_root_spec(),
    {
        self.lease_root.as_str()
    }

    pub fn receipt_root(&self) -> (r: &str)
        ensures
            r@ == self.receipt_root_spec(),
    {
        self.receipt_root.as_str()
    }

    pub fn expected_owner_uid(&self) -> (r: u32)
        ensures
            r == self.owner(),
    {
        self.expected_owner_uid
    }

    /// `<source roots>/manifest-<hex>-source`.
    pub fn source_gcroot_path(&self, manifest_id: &str) -> (r: String)
        ensures
            utf8(r@) == hex_entry(
                self.paths_spec().candidate_source_gcroot_root@,
                "manifest-"@,
                manifest_id@,
                "-source"@,
            ),
    {
        let name = hex_name("manifest-", manifest_id, "-source");
        join_name(self.lifecycle_paths.candidate_source_gcroot_root.as_str(), name.as_slice())
    }

    /// `<lifecycle>/receipts/candidate-retirement-<hex>.receipt`.
    pub fn selection_receipt_path(&self, manifest_id: &str) -> (r: String)
        ensures
            utf8(r@) == join(
                join(utf8(self.paths_spec().lifecycle_root@), utf8("receipts"@)),
                utf8("candidate-retirement-"@) + hex_of_text(manifest_id@) + utf8(".receipt"@),
            ),
    {
        proof {
            vstd::utf8::encode_utf8_valid_utf8("receipts"@);
        }
        let root = join_name(self.lifecycle_paths.lifecycle_root.as_str(), "receipts".as_bytes());
        let name = hex_name("candidate-retirement-", manifest_id, ".receipt");
        join_name(root.as_str(), name.as_slice())
    }

    /// `<receipts>/candidate-source-<hex>.receipt`.
    pub fn source_retirement_receipt_path(&self, manifest_id: &str) -> (r: String)
        ensures
            utf8(r@) == hex_entry(self.receipt_root_spec(), "candidate-source-"@, manifest_id@, ".receipt"@),
    {
        let name = hex_name("candidate-source-", manifest_id, ".receipt");
        join_name(self.receipt_root.as_str(), name.as_slice())
    }
}


// ---------------------------------------------------------------------------
// Reading receipts back
// ---------------------------------------------------------------------------

/// The checks on a source retirement receipt file of the given metadata and text.
pub open spec fn source_receipt_file_ok(
    facts: FileFacts,
    owner: u32,
    text: Seq<char>,
    manifest_id: Seq<char>,
    source: Seq<char>,
) -> bool {
    &&& protected_file(facts, owner)
    &&& facts.len <= MAX_SOURCE_RETIREMENT_RECEIPT_BYTES
    &&& utf8(text).len() <= MAX_SOURCE_RETIREMENT_RECEIPT_BYTES
    &&& source_receipt_valid(utf8(text), manifest_id, source)
}

/// `text.lines()` for a text that ends with a newline: each line without its `\r`.
pub open spec fn strip_cr(l: Seq<u8>) -> Seq<u8> {
    if l.len() > 0 && l.last() == 13 {
        l.drop_last()
    } else {
        l
    }
}

pub open spec fn text_lines(b: Seq<u8>) -> Seq<Seq<u8>> {
    split_lines(b).drop_last().map_values(|l: Seq<u8>| strip_cr(l))
}

/// The rest of the first line that starts with `prefix`.
pub open spec fn first_with_prefix(ls: Seq<Seq<u8>>, prefix: Seq<u8>) -> Option<Seq<u8>>
    decreases ls.len(),
{
    if ls.len() == 0 {
        None
    } else if has_prefix(ls[0], prefix) {
        Some(ls[0].skip(prefix.len() as int))
    } else {
        first_with_prefix(ls.drop_first(), prefix)
    }
}

/// The rests of all lines that start with `prefix`, in order.
pub open spec fn values_with_prefix(ls: Seq<Seq<u8>>, prefix: Seq<u8>) -> Seq<Seq<u8>>
    decreases ls.len(),
{
    if ls.len() == 0 {
        Seq::<Seq<u8>>::empty()
    } else {
        let rest = values_with_prefix(ls.drop_last(), prefix);
        if has_prefix(ls.last(), prefix) {
            rest.push(ls.last().skip(prefix.len() as int))
        } else {
            rest
        }
    }
}

/// A digit of `u8::from_str_radix(.., 16)`: either case.
pub open spec fn radix_digit(b: u8) -> Option<u8> {
    if 48 <= b <= 57 {
        Some((b - 48) as u8)
    } else if 97 <= b <= 102 {
        Some((b - 87) as u8)
    } else if 65 <= b <= 70 {
        Some((b - 55) as u8)
    } else {
        None
    }
}

/// `u8::from_str_radix` on two bytes: an optional `+` and one digit, or two digits.
pub open spec fn radix_pair(a: u8, b: u8) -> Option<u8> {
    if a == 43 {
        radix_digit(b)
    } else {
        match (radix_digit(a), radix_digit(b)) {
            (Some(x), Some(y)) => Some((16 * x + y) as u8),
            _ => None,
        }
    }
}

/// The bytes of a hexadecimal text read pair by pair.
pub open spec fn radix_decode(h: Seq<u8>) -> Option<Seq<u8>>
    decreases h.len(),
{
    if h.len() == 0 {
        Some(Seq::<u8>::empty())
    } else if h.len() < 2 {
        None
    } else {
        match (radix_pair(h[0], h[1]), radix_decode(h.skip(2))) {
            (Some(x), Some(rest)) => Some(seq![x] + rest),
            _ => None,
        }
    }
}

pub open spec fn evidence_key(i: nat) -> Seq<u8> {
    crate::lines::indexed_key(utf8("evidence-"@), i, utf8("="@))
}

/// The source the evidence items `i..n` of a selection receipt name first.
pub open spec fn source_search(ls: Seq<Seq<u8>>, i: int, n: int) -> Option<Seq<char>>
    decreases n - i,
{
    if i >= n {
        None
    } else {
        let vs = values_with_prefix(ls, evidence_key(i as nat));
        if vs.len() != 1 {
            None
        } else {
            match radix_decode(vs[0]) {
                None => None,
                Some(bytes) => match utf8_text(bytes) {
                    None => None,
                    Some(d) => if d.len() >= 16 && d.subrange(0, 16) == "source-retained:"@ {
                        let src = d.subrange(16, d.len() as int);
                        if exact_nix_store_text(src) {
                            Some(src)
                        } else {
                            None
                        }
                    } else {
                        source_search(ls, i + 1, n)
                    },
                },
            }
        }
    }
}

/// The prefix a candidate selection retirement receipt of `manifest_id` starts with.
pub open spec fn selection_prefix(manifest_id: Seq<char>) -> Seq<u8> {
    utf8("theblob-materialization-lifecycle-receipt-v1\nkind="@) + hex_of_text(
        "candidate-retirement"@,
    ) + utf8("\nsubject-id="@) + hex_of_text(manifest_id) + utf8("\n"@)
}

/// The exact store source a candidate selection retirement receipt names.
pub open spec fn selection_source(text: Seq<u8>, manifest_id: Seq<char>) -> Option<Seq<char>> {
    if !has_prefix(text, selection_prefix(manifest_id)) || !(text.len() > 0 && text.last() == 10) {
        None
    } else {
        let ls = text_lines(text);
        match first_with_prefix(ls, utf8("evidence-count="@)) {
            None => None,
            Some(v) => match unsigned_value(v) {
                None => None,
                Some(n) => if n > 4096 {
                    None
                } else {
                    source_search(ls, 0, n as int)
                },
            },
        }
    }
}

fn radix_digit_of(b: u8) -> (r: Option<u8>)
    ensures
        r == radix_digit(b),
{
    if 48 <= b && b <= 57 {
        Some(b - 48)
    } else if 97 <= b && b <= 102 {
        Some(b - 87)
    } else if 65 <= b && b <= 70 {
        Some(b - 55)
    } else {
        None
    }
}

/// Decodes a hexadecimal text pair by pair, as `u8::from_str_radix` reads each pair.
pub fn decode_radix_pairs(h: &[u8]) -> (r: Option<Vec<u8>>)
    ensures
        match r {
            Some(b) => radix_decode(h@) == Some(b@),
            None => radix_decode(h@) is None,
        },
{
    if h.len() % 2 != 0 {
        proof {
            lemma_radix_odd(h@);
        }
        return None;
    }
    let mut out: Vec<u8> = Vec::new();
    let mut i: usize = 0;
    proof {
        assert(h@.skip(0) =~= h@);
        match radix_decode(h@) {
            Some(rest) => {
                assert(out@ + rest =~= rest);
            },
            None => {},
        }
    }
    while i < h.len()
        invariant
            i <= h.len(),
            i % 2 == 0,
            h.len() % 2 == 0,
            radix_decode(h@) == match radix_decode(h@.skip(i as int)) {
                Some(rest) => Some(out@ + rest),
                None => None::<Seq<u8>>,
            },
        decreases h.len() - i,
    {
        let ghost t = h@.skip(i as int);
        assert(t[0] == h@[i as int] && t[1] == h@[i + 1]);
        assert(t.skip(2) =~= h@.skip(i + 2));
        let pair = if h[i] == 43 {
            radix_digit_of(h[i + 1])
        } else {
            match (radix_digit_of(h[i]), radix_digit_of(h[i + 1])) {
                (Some(x), Some(y)) => Some(16 * x + y),
                _ => None,
            }
        };
        match pair {
            Some(x) => {
                proof {
                    match radix_decode(t.skip(2)) {
                        Some(rest) => {
                            assert(out@.push(x) + rest =~= out@ + (seq![x] + rest));
                        },
                        None => {},
                    }
                }
                out.push(x);
            },
            None => {
                return None;
            },
        }
        i = i + 2;
    }
    assert(h@.skip(h.len() as int) =~= Seq::<u8>::empty());
    assert(out@ + Seq::<u8>::empty() =~= out@);
    Some(out)
}

proof fn lemma_radix_odd(h: Seq<u8>)
    requires
        h.len() % 2 == 1,
    ensures
        radix_decode(h) is None,
    decreases h.len(),
{
    if h.len() >= 2 {
        lemma_radix_odd(h.skip(2));
    }
}

/// The lines of a text ending with a newline, each without a trailing `\r`.
pub(crate) fn text_lines_of(b: &[u8]) -> (r: Vec<Vec<u8>>)
    ensures
        r@.map_values(|l: Vec<u8>| l@) == text_lines(b@),
{
    let mut lines: Vec<Vec<u8>> = Vec::new();
    let mut current: Vec<u8> = Vec::new();
    let mut i: usize = 0;
    assert(b@.take(0) =~= Seq::<u8>::empty());
    while i < b.len()
        invariant
            i <= b.len(),
            split_lines(b@.take(i as int)).len() >= 1,
            split_lines(b@.take(i as int)).last() == current@,
            lines@.map_values(|l: Vec<u8>| l@) == split_lines(b@.take(i as int)).drop_last().map_values(
                |l: Seq<u8>| strip_cr(l),
            ),
        decreases b.len() - i,
    {
        let x = b[i];
        let ghost before = b@.take(i as int);
        let ghost sl = split_lines(before);
        let ghost old_lines = lines@.map_values(|l: Vec<u8>| l@);
        assert(b@.take(i + 1).drop_last() =~= before);
        assert(b@.take(i + 1).last() == x);
        if x == 10 {
            let mut done = current;
            current = Vec::new();
            if done.len() > 0 && done[done.len() - 1] == 13 {
                done.pop();
            }
            lines.push(done);
            proof {
                let nl = split_lines(b@.take(i + 1));
                assert(nl == sl.push(Seq::<u8>::empty()));
                assert(nl.drop_last() =~= sl);
                assert(sl =~= sl.drop_last().push(sl.last()));
                assert(lines@.map_values(|l: Vec<u8>| l@) =~= old_lines.push(done@));
                assert(sl.map_values(|l: Seq<u8>| strip_cr(l)) =~= sl.drop_last().map_values(
                    |l: Seq<u8>| strip_cr(l),
                ).push(strip_cr(sl.last())));
            }
        } else {
            current.push(x);
            proof {
                let nl = split_lines(b@.take(i + 1));
                assert(nl == sl.update(sl.len() - 1, sl.last().push(x)));
                assert(nl.drop_last() =~= sl.drop_last());
                assert(lines@.map_values(|l: Vec<u8>| l@) =~= old_lines);
            }
        }
        i = i + 1;
    }
    assert(b@.take(b.len() as int) =~= b@);
    lines
}


fn first_value_with_prefix(ls: &Vec<Vec<u8>>, prefix: &[u8]) -> (r: Option<Vec<u8>>)
    ensures
        match r {
            Some(v) => first_with_prefix(ls@.map_values(|l: Vec<u8>| l@), prefix@) == Some(v@),
            None => first_with_prefix(ls@.map_values(|l: Vec<u8>| l@), prefix@) is None,
        },
{
    let ghost all = ls@.map_values(|l: Vec<u8>| l@);
    let mut i: usize = 0;
    assert(all.skip(0) =~= all);
    while i < ls.len()
        invariant
            all == ls@.map_values(|l: Vec<u8>| l@),
            i <= ls.len(),
            first_with_prefix(all, prefix@) == first_with_prefix(all.skip(i as int), prefix@),
        decreases ls.len() - i,
    {
        assert(all.skip(i as int)[0] == ls@[i as int]@);
        assert(all.skip(i as int).drop_first() =~= all.skip(i + 1));
        if starts_with(ls[i].as_slice(), prefix) {
            let mut v: Vec<u8> = Vec::new();
            let mut j: usize = prefix.len();
            while j < ls[i].len()
                invariant
                    i < ls@.len(),
                    prefix.len() <= j <= ls@[i as int].len(),
                    v@ == ls@[i as int]@.subrange(prefix.len() as int, j as int),
                decreases ls@[i as int].len() - j,
            {
                v.push(ls[i][j]);
                j = j + 1;
                assert(v@ =~= ls@[i as int]@.subrange(prefix.len() as int, j as int));
            }
            assert(v@ =~= ls@[i as int]@.skip(prefix.len() as int));
            return Some(v);
        }
        i = i + 1;
    }
    assert(all.skip(ls.len() as int) =~= Seq::<Seq<u8>>::empty());
    None
}

fn values_of_prefix(ls: &Vec<Vec<u8>>, prefix: &[u8]) -> (r: Vec<Vec<u8>>)
    ensures
        r@.map_values(|l: Vec<u8>| l@) == values_with_prefix(ls@.map_values(|l: Vec<u8>| l@), prefix@),
{
    let ghost all = ls@.map_values(|l: Vec<u8>| l@);
    let mut out: Vec<Vec<u8>> = Vec::new();
    let mut i: usize = 0;
    assert(all.take(0) =~= Seq::<Seq<u8>>::empty());
    while i < ls.len()
        invariant
            all == ls@.map_values(|l: Vec<u8>| l@),
            i <= ls.len(),
            out@.map_values(|l: Vec<u8>| l@) == values_with_prefix(all.take(i as int), prefix@),
        decreases ls.len() - i,
    {
        assert(all.take(i + 1).drop_last() =~= all.take(i as int));
        assert(all.take(i + 1).last() == ls@[i as int]@);
        if starts_with(ls[i].as_slice(), prefix) {
            let mut v: Vec<u8> = Vec::new();
            let mut j: usize = prefix.len();
            while j < ls[i].len()
                invariant
                    i < ls@.len(),
                    prefix.len() <= j <= ls@[i as int].len(),
                    v@ == ls@[i as int]@.subrange(prefix.len() as int, j as int),
                decreases ls@[i as int].len() - j,
            {
                v.push(ls[i][j]);
                j = j + 1;
                assert(v@ =~= ls@[i as int]@.subrange(prefix.len() as int, j as int));
            }
            assert(v@ =~= ls@[i as int]@.skip(prefix.len() as int));
            let ghost prev = out@;
            out.push(v);
            assert(out@.map_values(|l: Vec<u8>| l@) =~= prev.map_values(|l: Vec<u8>| l@).push(v@));
        }
        i = i + 1;
    }
    assert(all.take(ls.len() as int) =~= all);
    out
}

/// The prefix bytes of a candidate selection retirement receipt of `manifest_id`.
fn selection_prefix_bytes(manifest_id: &str) -> (r: Vec<u8>)
    ensures
        r@ == selection_prefix(manifest_id@),
{
    let mut r: Vec<u8> = Vec::new();
    crate::text::push_all(&mut r, "theblob-materialization-lifecycle-receipt-v1\nkind=".as_bytes());
    crate::text::push_hex(&mut r, "candidate-retirement".as_bytes());
    crate::text::push_all(&mut r, "\nsubject-id=".as_bytes());
    crate::text::push_hex(&mut r, manifest_id.as_bytes());
    crate::text::push_all(&mut r, "\n".as_bytes());
    r
}

impl RootCandidateSourceRetirement {
    /// Reads a source retirement receipt: a root-owned, closed, bounded file holding the
    /// canonical receipt of this manifest and source.
    pub fn validate_source_retirement_receipt(
        &self,
        manifest_id: &str,
        source: &str,
        facts: &FileFacts,
        text: &str,
    ) -> (r: Result<(), CandidateSourceRetirementError>)
        ensures
            r is Ok <==> source_receipt_file_ok(*facts, self.owner(), text@, manifest_id@, source@),
            r matches Err(e) ==> e == CandidateSourceRetirementError::InvalidSelectionReceipt,
    {
        if !is_protected_file(facts, self.expected_owner_uid)
            || facts.len > MAX_SOURCE_RETIREMENT_RECEIPT_BYTES
            || text.as_bytes().len() as u64 > MAX_SOURCE_RETIREMENT_RECEIPT_BYTES {
            return Err(CandidateSourceRetirementError::InvalidSelectionReceipt);
        }
        let ok = source_receipt_matches(manifest_id, source, text);
        if !ok {
            return Err(CandidateSourceRetirementError::InvalidSelectionReceipt);
        }
        Ok(())
    }

    /// The exact source a candidate selection retirement receipt names, given the
    /// receipt's metadata (`None` when it does not exist) and text.
    pub fn expected_source_from_selection_receipt(
        &self,
        manifest_id: &str,
        facts: Option<FileFacts>,
        text: &str,
    ) -> (r: Result<String, CandidateSourceRetirementError>)
        ensures
            facts is None ==> r matches Err(CandidateSourceRetirementError::MissingSelectionReceipt),
            facts matches Some(f) ==> if !protected_file(f, self.owner())
                || f.len > MAX_SOURCE_RETIREMENT_RECEIPT_BYTES || utf8(text@).len()
                > MAX_SOURCE_RETIREMENT_RECEIPT_BYTES {
                r matches Err(CandidateSourceRetirementError::InvalidSelectionReceipt)
            } else {
                match selection_source(utf8(text@), manifest_id@) {
                    Some(src) => r matches Ok(p) && p@ == src,
                    None => r matches Err(CandidateSourceRetirementError::InvalidSelectionReceipt),
                }
            },
    {
        let f = match facts {
            None => return Err(CandidateSourceRetirementError::MissingSelectionReceipt),
            Some(f) => f,
        };
        let b = text.as_bytes();
        if !is_protected_file(&f, self.expected_owner_uid) || f.len > MAX_SOURCE_RETIREMENT_RECEIPT_BYTES
            || b.len() as u64 > MAX_SOURCE_RETIREMENT_RECEIPT_BYTES {
            return Err(CandidateSourceRetirementError::InvalidSelectionReceipt);
        }
        let prefix = selection_prefix_bytes(manifest_id);
        if !starts_with(b, prefix.as_slice()) || !(b.len() > 0 && b[b.len() - 1] == 10) {
            return Err(CandidateSourceRetirementError::InvalidSelectionReceipt);
        }
        let lines = text_lines_of(b);
        let ghost ls = lines@.map_values(|l: Vec<u8>| l@);
        let count_value = match first_value_with_prefix(&lines, "evidence-count=".as_bytes()) {
            Some(v) => v,
            None => return Err(CandidateSourceRetirementError::InvalidSelectionReceipt),
        };
        let count = match crate::text::parse_unsigned(count_value.as_slice(), 4096) {
            Some(n) => n,
            None => return Err(CandidateSourceRetirementError::InvalidSelectionReceipt),
        };
        let mut i: u64 = 0;
        proof {
            assert(selection_source(utf8(text@), manifest_id@) == source_search(ls, 0, count as int));
        }
        while i < count
            invariant
                ls == lines@.map_values(|l: Vec<u8>| l@),
                i <= count,
                count <= 4096,
                facts == Some(f),
                protected_file(f, self.owner()),
                f.len <= MAX_SOURCE_RETIREMENT_RECEIPT_BYTES,
                utf8(text@).len() <= MAX_SOURCE_RETIREMENT_RECEIPT_BYTES,
                selection_source(utf8(text@), manifest_id@) == source_search(ls, i as int, count as int),
            decreases count - i,
        {
            let key = crate::lines::make_indexed_key("evidence-", i, "=");
            let values = values_of_prefix(&lines, key.as_slice());
            proof {
                assert(key@ == evidence_key(i as nat));
                assert(values@.map_values(|l: Vec<u8>| l@).len() == values@.len());
            }
            if values.len() != 1 {
                return Err(CandidateSourceRetirementError::InvalidSelectionReceipt);
            }
            proof {
                assert(values@.map_values(|l: Vec<u8>| l@)[0] == values@[0]@);
            }
            let bytes = match decode_radix_pairs(values[0].as_slice()) {
                Some(v) => v,
                None => return Err(CandidateSourceRetirementError::InvalidSelectionReceipt),
            };
            let decoded = match text_from_utf8(bytes) {
                Some(d) => d,
                None => return Err(CandidateSourceRetirementError::InvalidSelectionReceipt),
            };
            let n = decoded.as_str().unicode_len();
            if n >= 16 && str_eq(decoded.as_str().substring_char(0, 16), "source-retained:") {
                let src = decoded.as_str().substring_char(16, n);
                if !is_exact_nix_store_path(src) {
                    return Err(CandidateSourceRetirementError::InvalidSelectionReceipt);
                }
                return Ok(src.to_owned());
            }
            i = i + 1;
        }
        Err(CandidateSourceRetirementError::InvalidSelectionReceipt)
    }

    /// What the state of the source GC root leaves to do once the selection is retired:
    /// a root pointing at the expected source is reclaimed; an absent one was already
    /// reclaimed if its receipt exists; anything else is a conflict.
    pub fn source_root_disposition(
        link: &LinkObservation,
        expected_source: &str,
        receipt_exists: bool,
    ) -> (r: Result<CandidateSourceRetirementDisposition, CandidateSourceRetirementError>)
        ensures
            link is Missing ==> (if receipt_exists {
                r matches Ok(CandidateSourceRetirementDisposition::AlreadyReclaimed)
            } else {
                r matches Err(CandidateSourceRetirementError::SourceRootConflict)
            }),
            !(link is Missing) ==> (if link_points_to(*link, expected_source@) {
                r matches Ok(CandidateSourceRetirementDisposition::Reclaimed)
            } else {
                r matches Err(CandidateSourceRetirementError::SourceRootConflict)
            }),
    {
        match link {
            LinkObservation::Missing => if receipt_exists {
                Ok(CandidateSourceRetirementDisposition::AlreadyReclaimed)
            } else {
                Err(CandidateSourceRetirementError::SourceRootConflict)
            },
            LinkObservation::NotSymlink => Err(CandidateSourceRetirementError::SourceRootConflict),
            LinkObservation::Target(t) => if crate::paths::same_path(
                t.as_str().as_bytes(),
                expected_source.as_bytes(),
            ) {
                Ok(CandidateSourceRetirementDisposition::Reclaimed)
            } else {
                Err(CandidateSourceRetirementError::SourceRootConflict)
            },
        }
    }
}

/// Whether `text` is the canonical receipt of this manifest and source for some time
/// and decision.
fn source_receipt_matches(manifest_id: &str, source: &str, text: &str) -> (r: bool)
    ensures
        r == source_receipt_valid(utf8(text@), manifest_id@, source@),
{
    let mut c = LineCursor::new(text.as_bytes());
    let ghost ls = c.lines();
    let m_hex = hex_text(manifest_id);
    let s_hex = hex_text(source);
    let header = c.literal("theblob-candidate-source-retirement-v1".as_bytes());
    let m = c.field("manifest-id".as_bytes());
    let sv = c.field("source".as_bytes());
    let n = c.u64_field("occurred-at-unix-ms".as_bytes());
    let d = c.hex_field("decision".as_bytes(), false);
    let fin = c.finish();
    let r = match (m, sv, n, d) {
        (Some(mv), Some(svv), Some(nv), Some(dv)) => {
            if header && fin && bytes_equal(mv.as_slice(), m_hex.as_str().as_bytes()) && bytes_equal(
                svv.as_slice(),
                s_hex.as_str().as_bytes(),
            ) {
                let rendered = canonical_source_retirement_receipt(manifest_id, source, nv, dv.as_str());
                bytes_equal(rendered.as_str().as_bytes(), text.as_bytes())
            } else {
                false
            }
        },
        _ => false,
    };
    proof {
        if r {
            let (nv, dv) = (n->0, d->0@);
            assert(utf8(text@) == source_retirement_text(manifest_id@, source@, nv, dv));
        } else if source_receipt_valid(utf8(text@), manifest_id@, source@) {
            let (n0, d0) = choose|n0: u64, d0: Seq<char>| utf8(text@) == #[trigger] source_retirement_text(
                manifest_id@,
                source@,
                n0,
                d0,
            );
            lemma_source_receipt_reads(manifest_id@, source@, n0, d0);
            assert(false);
        }
    }
    r
}

} // verus!
