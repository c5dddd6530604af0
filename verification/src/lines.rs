//! Newline-separated `key=value` records and the cursor that reads them.
use vstd::prelude::*;
use crate::text::{
    ascii_chars, ascii_string, bytes_equal, decimal, decode_hex_with, hex_encode, hex_of_text,
    is_ascii_bytes, lemma_decimal_ascii, lemma_hex_encode_ascii, parse_u32, parse_u32_spec,
    parse_u64, parse_u64_spec, parse_unsigned, push_all, push_decimal, push_hex, starts_with,
    text_of_hex_with, texts_view, unsigned_value, utf8,
};

verus! {

/// `text.split('\n')` on UTF-8 bytes: always at least one piece.
pub open spec fn split_lines(b: Seq<u8>) -> Seq<Seq<u8>>
    decreases b.len(),
{
    if b.len() == 0 {
        seq![Seq::<u8>::empty()]
    } else {
        let rest = split_lines(b.drop_last());
        if b.last() == 10 {
            rest.push(Seq::<u8>::empty())
        } else {
            rest.update(rest.len() - 1, rest.last().push(b.last()))
        }
    }
}

/// Lines each followed by a newline: `[lines.., ""].join("\n")`.
pub open spec fn lines_text(lines: Seq<Seq<u8>>) -> Seq<u8>
    decreases lines.len(),
{
    if lines.len() == 0 {
        Seq::<u8>::empty()
    } else {
        lines_text(lines.drop_last()) + lines.last() + seq![10u8]
    }
}

pub open spec fn no_newline(l: Seq<u8>) -> bool {
    forall|i: int| 0 <= i < l.len() ==> #[trigger] l[i] != 10
}

pub open spec fn all_lines_plain(lines: Seq<Seq<u8>>) -> bool {
    forall|k: int| 0 <= k < lines.len() ==> no_newline(#[trigger] lines[k])
}

/// The line `key=value`.
pub open spec fn field_line(key: Seq<u8>, value: Seq<u8>) -> Seq<u8> {
    key + seq![61u8] + value
}

/// The value of a `key=value` line (`strip_prefix("{key}=")`).
pub open spec fn field_value(line: Seq<u8>, key: Seq<u8>) -> Option<Seq<u8>> {
    if line.len() > key.len() && line.take(key.len() as int) == key && line[key.len() as int] == 61 {
        Some(line.skip(key.len() + 1int))
    } else {
        None
    }
}

/// A field whose value is text written as hexadecimal UTF-8.
pub open spec fn hex_text_field(line: Seq<u8>, key: Seq<u8>, upper_ok: bool) -> Option<Seq<char>> {
    match field_value(line, key) {
        Some(v) => text_of_hex_with(v, upper_ok),
        None => None,
    }
}

pub open spec fn u64_field(line: Seq<u8>, key: Seq<u8>) -> Option<u64> {
    match field_value(line, key) {
        Some(v) => parse_u64_spec(v),
        None => None,
    }
}

pub open spec fn u32_field(line: Seq<u8>, key: Seq<u8>) -> Option<u32> {
    match field_value(line, key) {
        Some(v) => parse_u32_spec(v),
        None => None,
    }
}

/// A count no larger than `maximum`.
pub open spec fn count_field(line: Seq<u8>, key: Seq<u8>, maximum: nat) -> Option<nat> {
    match field_value(line, key) {
        Some(v) => match unsigned_value(v) {
            Some(n) => if n <= maximum {
                Some(n)
            } else {
                None
            },
            None => None,
        },
        None => None,
    }
}

pub open spec fn opt_bytes(r: Option<Vec<u8>>) -> Option<Seq<u8>> {
    match r {
        Some(v) => Some(v@),
        None => None,
    }
}

pub open spec fn opt_text(r: Option<String>) -> Option<Seq<char>> {
    match r {
        Some(v) => Some(v@),
        None => None,
    }
}

pub open spec fn opt_count(r: Option<usize>) -> Option<nat> {
    match r {
        Some(v) => Some(v as nat),
        None => None,
    }
}

/// The key `{prefix}{index}{suffix}`.
pub open spec fn indexed_key(prefix: Seq<u8>, index: nat, suffix: Seq<u8>) -> Seq<u8> {
    prefix + decimal(index) + suffix
}

/// The key `{prefix}{i}` of the `i`-th item of a list.
pub open spec fn list_key(prefix: Seq<u8>, i: nat) -> Seq<u8> {
    indexed_key(prefix, i, Seq::<u8>::empty())
}

/// One line `{prefix}{i}=<hex>` for each text of a list.
pub open spec fn hex_list_lines(prefix: Seq<u8>, xs: Seq<Seq<char>>) -> Seq<Seq<u8>> {
    Seq::new(xs.len(), |i: int| field_line(list_key(prefix, i as nat), hex_of_text(xs[i])))
}

/// The `count` texts of a list read from lines `start..start + count`.
pub open spec fn hex_list_at(
    ls: Seq<Seq<u8>>,
    start: int,
    prefix: Seq<u8>,
    count: nat,
    upper_ok: bool,
) -> Option<Seq<Seq<char>>> {
    if 0 <= start && forall|i: int|
        0 <= i < count ==> start + i < ls.len() && (#[trigger] hex_text_field(
            ls[start + i],
            list_key(prefix, i as nat),
            upper_ok,
        )) is Some {
        Some(
            Seq::new(
                count,
                |i: int| hex_text_field(ls[start + i], list_key(prefix, i as nat), upper_ok)->0,
            ),
        )
    } else {
        None
    }
}

pub open spec fn opt_texts(r: Option<Vec<String>>) -> Option<Seq<Seq<char>>> {
    match r {
        Some(v) => Some(texts_view(v@)),
        None => None,
    }
}

pub proof fn lemma_split_lines_nonempty(b: Seq<u8>)
    ensures
        split_lines(b).len() >= 1,
    decreases b.len(),
{
    if b.len() > 0 {
        lemma_split_lines_nonempty(b.drop_last());
    }
}

proof fn lemma_split_append_plain(x: Seq<u8>, l: Seq<u8>)
    requires
        no_newline(l),
    ensures
        split_lines(x + l) == split_lines(x).update(
            split_lines(x).len() - 1,
            split_lines(x).last() + l,
        ),
    decreases l.len(),
{
    lemma_split_lines_nonempty(x);
    if l.len() == 0 {
        assert(x + l =~= x);
        assert(split_lines(x).last() + l =~= split_lines(x).last());
        assert(split_lines(x).update(split_lines(x).len() - 1, split_lines(x).last())
            =~= split_lines(x));
    } else {
        let lp = l.drop_last();
        assert(no_newline(lp));
        lemma_split_append_plain(x, lp);
        assert((x + l).drop_last() =~= x + lp);
        assert((x + l).last() == l.last());
        let s = split_lines(x);
        assert(split_lines(x + l) =~= s.update(s.len() - 1, s.last() + l)) by {
            assert(s.last() + lp + seq![l.last()] =~= s.last() + l);
            assert((s.last() + lp).push(l.last()) =~= s.last() + l);
        }
    }
}

/// Splitting the text of newline-free lines gives them back, and one empty piece.
pub proof fn lemma_split_lines_text(lines: Seq<Seq<u8>>)
    requires
        all_lines_plain(lines),
    ensures
        split_lines(lines_text(lines)) == lines.push(Seq::<u8>::empty()),
    decreases lines.len(),
{
    if lines.len() > 0 {
        let init = lines.drop_last();
        assert(all_lines_plain(init)) by {
            assert forall|k: int| 0 <= k < init.len() implies no_newline(#[trigger] init[k]) by {
                assert(init[k] == lines[k]);
            }
        }
        lemma_split_lines_text(init);
        let t = lines_text(init);
        let l = lines.last();
        assert(no_newline(l)) by {
            assert(l == lines[lines.len() - 1]);
        }
        lemma_split_append_plain(t, l);
        let full = t + l + seq![10u8];
        assert(full.drop_last() =~= t + l);
        assert(split_lines(full) == split_lines(t + l).push(Seq::<u8>::empty()));
        assert(Seq::<u8>::empty() + l =~= l);
        assert(init.push(Seq::<u8>::empty()).update(init.len() as int, l) =~= lines);
    }
}

pub proof fn lemma_empty_utf8()
    ensures
        crate::text::utf8(""@) == Seq::<u8>::empty(),
        plain_ascii(""@),
{
    reveal_strlit("");
    vstd::utf8::is_ascii_chars_encode_utf8(""@);
    assert(crate::text::utf8(""@) =~= Seq::<u8>::empty());
}

pub proof fn lemma_field_line(key: Seq<u8>, value: Seq<u8>)
    ensures
        field_value(field_line(key, value), key) == Some(value),
{
    let line = field_line(key, value);
    assert(line.take(key.len() as int) =~= key);
    assert(line.skip(key.len() + 1int) =~= value);
}

pub proof fn lemma_field_line_plain(key: Seq<u8>, value: Seq<u8>)
    requires
        no_newline(key),
        no_newline(value),
    ensures
        no_newline(field_line(key, value)),
{
    let line = field_line(key, value);
    assert forall|i: int| 0 <= i < line.len() implies #[trigger] line[i] != 10 by {
        if i < key.len() {
            assert(line[i] == key[i]);
        } else if i > key.len() {
            assert(line[i] == value[i - key.len() - 1]);
        }
    }
}

/// The text of a literal: ASCII characters without a newline.
pub open spec fn plain_ascii(s: Seq<char>) -> bool {
    &&& is_ascii_chars_spec(s)
    &&& forall|i: int| 0 <= i < s.len() ==> #[trigger] s[i] != '\n'
}

pub open spec fn is_ascii_chars_spec(s: Seq<char>) -> bool {
    forall|i: int| 0 <= i < s.len() ==> '\0' <= #[trigger] s[i] <= '\u{7f}'
}

pub proof fn lemma_plain_ascii_bytes(s: Seq<char>)
    requires
        plain_ascii(s),
    ensures
        no_newline(utf8(s)),
        is_ascii_bytes(utf8(s)),
        utf8(s).len() == s.len(),
{
    vstd::utf8::is_ascii_chars_encode_utf8(s);
    assert forall|i: int| 0 <= i < utf8(s).len() implies #[trigger] utf8(s)[i] != 10 && utf8(s)[i]
        < 128 by {
        assert(s[i] as u8 == utf8(s)[i]);
        assert(s[i] != '\n');
    }
}

pub proof fn lemma_plain_concat(a: Seq<u8>, b: Seq<u8>)
    requires
        no_newline(a),
        no_newline(b),
    ensures
        no_newline(a + b),
{
    assert forall|i: int| 0 <= i < (a + b).len() implies #[trigger] (a + b)[i] != 10 by {
        if i < a.len() {
            assert((a + b)[i] == a[i]);
        } else {
            assert((a + b)[i] == b[i - a.len()]);
        }
    }
}

pub proof fn lemma_hex_plain(b: Seq<u8>)
    ensures
        no_newline(hex_encode(b)),
        is_ascii_bytes(hex_encode(b)),
{
    lemma_hex_encode_ascii(b);
}

pub proof fn lemma_decimal_plain(n: nat)
    ensures
        no_newline(decimal(n)),
        is_ascii_bytes(decimal(n)),
{
    lemma_decimal_ascii(n);
}

pub proof fn lemma_lines_text_push(lines: Seq<Seq<u8>>, l: Seq<u8>)
    ensures
        lines_text(lines.push(l)) == lines_text(lines) + l + seq![10u8],
{
    assert(lines.push(l).drop_last() =~= lines);
}

pub proof fn lemma_lines_text_ascii(lines: Seq<Seq<u8>>)
    requires
        forall|k: int| 0 <= k < lines.len() ==> is_ascii_bytes(#[trigger] lines[k]),
    ensures
        is_ascii_bytes(lines_text(lines)),
    decreases lines.len(),
{
    if lines.len() > 0 {
        let init = lines.drop_last();
        assert forall|k: int| 0 <= k < init.len() implies is_ascii_bytes(#[trigger] init[k]) by {
            assert(init[k] == lines[k]);
        }
        lemma_lines_text_ascii(init);
        let l = lines.last();
        assert(is_ascii_bytes(l)) by {
            assert(l == lines[lines.len() - 1]);
        }
        let t = lines_text(lines);
        assert forall|i: int| 0 <= i < t.len() implies #[trigger] t[i] < 128 by {
            let a = lines_text(init);
            if i < a.len() {
                assert(t[i] == a[i]);
            } else if i < a.len() + l.len() {
                assert(t[i] == l[i - a.len()]);
            }
        }
    }
}

/// The key `{prefix}{i}{suffix}` of newline-free ASCII literals is newline-free ASCII.
pub proof fn lemma_indexed_key_plain(prefix: Seq<char>, i: nat, suffix: Seq<char>)
    requires
        plain_ascii(prefix),
        plain_ascii(suffix),
    ensures
        no_newline(indexed_key(utf8(prefix), i, utf8(suffix))),
        is_ascii_bytes(indexed_key(utf8(prefix), i, utf8(suffix))),
{
    lemma_plain_ascii_bytes(prefix);
    lemma_plain_ascii_bytes(suffix);
    lemma_decimal_plain(i);
    let k = indexed_key(utf8(prefix), i, utf8(suffix));
    let p = utf8(prefix);
    let d = decimal(i);
    assert forall|j: int| 0 <= j < k.len() implies #[trigger] k[j] != 10 && k[j] < 128 by {
        if j < p.len() {
            assert(k[j] == p[j]);
        } else if j < p.len() + d.len() {
            assert(k[j] == d[j - p.len()]);
        } else {
            assert(k[j] == utf8(suffix)[j - p.len() - d.len()]);
        }
    }
}

/// A hexadecimal line under a newline-free ASCII key is newline-free ASCII.
pub proof fn lemma_hex_line_bytes(key: Seq<u8>, value: Seq<char>)
    requires
        no_newline(key),
        is_ascii_bytes(key),
    ensures
        no_newline(field_line(key, hex_of_text(value))),
        is_ascii_bytes(field_line(key, hex_of_text(value))),
{
    lemma_hex_plain(utf8(value));
    lemma_field_line_plain(key, hex_of_text(value));
    let l = field_line(key, hex_of_text(value));
    assert forall|i: int| 0 <= i < l.len() implies #[trigger] l[i] < 128 by {
        if i < key.len() {
            assert(l[i] == key[i]);
        } else if i > key.len() {
            assert(l[i] == hex_of_text(value)[i - key.len() - 1]);
        }
    }
}

/// The lines of a list under a newline-free ASCII prefix are newline-free ASCII.
pub proof fn lemma_hex_list_lines_plain(prefix: Seq<char>, xs: Seq<Seq<char>>)
    requires
        plain_ascii(prefix),
    ensures
        all_lines_plain(hex_list_lines(utf8(prefix), xs)),
        forall|k: int|
            0 <= k < xs.len() ==> is_ascii_bytes(#[trigger] hex_list_lines(utf8(prefix), xs)[k]),
{
    let ls = hex_list_lines(utf8(prefix), xs);
    reveal_strlit("");
    assert forall|k: int| 0 <= k < ls.len() implies no_newline(#[trigger] ls[k]) && is_ascii_bytes(
        ls[k],
    ) by {
        lemma_indexed_key_plain(prefix, k as nat, ""@);
        lemma_empty_utf8();
        lemma_hex_line_bytes(list_key(utf8(prefix), k as nat), xs[k]);
    }
}

/// Reading back the lines of a list, wherever they stand, gives the list.
pub proof fn lemma_hex_list_round_trip(
    ls: Seq<Seq<u8>>,
    start: int,
    prefix: Seq<u8>,
    xs: Seq<Seq<char>>,
    upper_ok: bool,
)
    requires
        0 <= start,
        start + xs.len() <= ls.len(),
        forall|i: int| 0 <= i < xs.len() ==> ls[start + i] == #[trigger] hex_list_lines(prefix, xs)[i],
    ensures
        hex_list_at(ls, start, prefix, xs.len(), upper_ok) == Some(xs),
{
    assert forall|i: int| 0 <= i < xs.len() implies (#[trigger] hex_text_field(
        ls[start + i],
        list_key(prefix, i as nat),
        upper_ok,
    )) == Some(xs[i]) by {
        assert(ls[start + i] == hex_list_lines(prefix, xs)[i]);
        lemma_field_line(list_key(prefix, i as nat), hex_of_text(xs[i]));
        crate::text::lemma_hex_text_round_trip(xs[i], upper_ok);
    }
    let got = hex_list_at(ls, start, prefix, xs.len(), upper_ok)->0;
    assert(got =~= xs);
}

/// Every line newline-free ASCII.
pub open spec fn ascii_lines(ls: Seq<Seq<u8>>) -> bool {
    forall|k: int| 0 <= k < ls.len() ==> no_newline(#[trigger] ls[k]) && is_ascii_bytes(ls[k])
}

pub proof fn lemma_ascii_lines_concat(a: Seq<Seq<u8>>, b: Seq<Seq<u8>>)
    requires
        ascii_lines(a),
        ascii_lines(b),
    ensures
        ascii_lines(a + b),
{
    assert forall|k: int| 0 <= k < (a + b).len() implies no_newline(#[trigger] (a + b)[k])
        && is_ascii_bytes((a + b)[k]) by {
        if k < a.len() {
            assert((a + b)[k] == a[k]);
        } else {
            assert((a + b)[k] == b[k - a.len()]);
        }
    }
}

/// Builds the newline-terminated text of a record line by line.
pub struct RecordWriter {
    out: Vec<u8>,
    lines: Ghost<Seq<Seq<u8>>>,
}

impl RecordWriter {
    pub closed spec fn lines(&self) -> Seq<Seq<u8>> {
        self.lines@
    }

    pub closed spec fn inv(&self) -> bool {
        self.out@ == lines_text(self.lines@)
    }

    pub fn new() -> (w: Self)
        ensures
            w.inv(),
            w.lines() == Seq::<Seq<u8>>::empty(),
    {
        RecordWriter { out: Vec::new(), lines: Ghost(Seq::empty()) }
    }

    /// Adds a line holding only `literal`.
    pub fn literal(&mut self, literal: &str)
        requires
            old(self).inv(),
        ensures
            final(self).inv(),
            final(self).lines() == old(self).lines().push(utf8(literal@)),
    {
        push_all(&mut self.out, literal.as_bytes());
        self.out.push(10);
        proof {
            lemma_lines_text_push(self.lines@, utf8(literal@));
            assert(self.out@ =~= lines_text(self.lines@) + utf8(literal@) + seq![10u8]);
            self.lines@ = self.lines@.push(utf8(literal@));
        }
    }

    /// Adds `key=` followed by the hexadecimal UTF-8 of `value`.
    pub fn hex_field(&mut self, key: &[u8], value: &str)
        requires
            old(self).inv(),
        ensures
            final(self).inv(),
            final(self).lines() == old(self).lines().push(field_line(key@, hex_of_text(value@))),
    {
        push_all(&mut self.out, key);
        self.out.push(61);
        push_hex(&mut self.out, value.as_bytes());
        self.out.push(10);
        proof {
            let l = field_line(key@, hex_of_text(value@));
            lemma_lines_text_push(self.lines@, l);
            assert(self.out@ =~= lines_text(self.lines@) + l + seq![10u8]);
            self.lines@ = self.lines@.push(l);
        }
    }

    /// Adds `key=` followed by `n` in decimal.
    pub fn decimal_field(&mut self, key: &[u8], n: u64)
        requires
            old(self).inv(),
        ensures
            final(self).inv(),
            final(self).lines() == old(self).lines().push(field_line(key@, decimal(n as nat))),
    {
        push_all(&mut self.out, key);
        self.out.push(61);
        push_decimal(&mut self.out, n);
        self.out.push(10);
        proof {
            let l = field_line(key@, decimal(n as nat));
            lemma_lines_text_push(self.lines@, l);
            assert(self.out@ =~= lines_text(self.lines@) + l + seq![10u8]);
            self.lines@ = self.lines@.push(l);
        }
    }

    /// Adds `key=value` with `value` written verbatim.
    pub fn raw_field(&mut self, key: &[u8], value: &[u8])
        requires
            old(self).inv(),
        ensures
            final(self).inv(),
            final(self).lines() == old(self).lines().push(field_line(key@, value@)),
    {
        push_all(&mut self.out, key);
        self.out.push(61);
        push_all(&mut self.out, value);
        self.out.push(10);
        proof {
            let l = field_line(key@, value@);
            lemma_lines_text_push(self.lines@, l);
            assert(self.out@ =~= lines_text(self.lines@) + l + seq![10u8]);
            self.lines@ = self.lines@.push(l);
        }
    }

    /// Adds one line `{prefix}{i}=<hex>` for each value, in order.
    pub fn hex_list(&mut self, prefix: &str, values: &Vec<String>)
        requires
            old(self).inv(),
        ensures
            final(self).inv(),
            final(self).lines() == old(self).lines() + hex_list_lines(utf8(prefix@), texts_view(values@)),
    {
        let ghost head = self.lines();
        let ghost xs = texts_view(values@);
        let mut i: usize = 0;
        while i < values.len()
            invariant
                i <= values@.len(),
                xs == texts_view(values@),
                self.inv(),
                self.lines() == head + hex_list_lines(utf8(prefix@), xs.take(i as int)),
            decreases values.len() - i,
        {
            let key = make_indexed_key(prefix, i as u64, "");
            proof {
                lemma_empty_utf8();
                assert(key@ =~= list_key(utf8(prefix@), i as nat));
            }
            self.hex_field(key.as_slice(), values[i].as_str());
            i = i + 1;
            assert(hex_list_lines(utf8(prefix@), xs.take(i as int)) =~= hex_list_lines(
                utf8(prefix@),
                xs.take(i - 1),
            ).push(field_line(list_key(utf8(prefix@), (i - 1) as nat), hex_of_text(xs[i - 1]))));
            assert(self.lines() =~= head + hex_list_lines(utf8(prefix@), xs.take(i as int)));
        }
        assert(xs.take(values@.len() as int) =~= xs);
    }

    /// The record text; every line must be ASCII.
    pub fn finish(self) -> (s: String)
        requires
            self.inv(),
            forall|k: int| 0 <= k < self.lines().len() ==> is_ascii_bytes(#[trigger] self.lines()[k]),
        ensures
            s@ == ascii_chars(lines_text(self.lines())),
            utf8(s@) == lines_text(self.lines()),
    {
        proof {
            assert forall|k: int| 0 <= k < self.lines@.len() implies is_ascii_bytes(
                #[trigger] self.lines@[k],
            ) by {
                assert(self.lines()[k] == self.lines@[k]);
            }
            lemma_lines_text_ascii(self.lines@);
        }
        ascii_string(self.out)
    }
}

/// The key `{prefix}{index}{suffix}` as bytes.
pub fn make_indexed_key(prefix: &str, index: u64, suffix: &str) -> (k: Vec<u8>)
    ensures
        k@ == indexed_key(utf8(prefix@), index as nat, utf8(suffix@)),
{
    let mut k: Vec<u8> = Vec::new();
    push_all(&mut k, prefix.as_bytes());
    push_decimal(&mut k, index);
    push_all(&mut k, suffix.as_bytes());
    k
}

/// Reads a record line by line, the way the canonical parsers do.
pub struct LineCursor {
    lines: Vec<Vec<u8>>,
    position: usize,
}

impl LineCursor {
    pub closed spec fn lines(&self) -> Seq<Seq<u8>> {
        self.lines@.map_values(|l: Vec<u8>| l@)
    }

    pub closed spec fn position(&self) -> int {
        self.position as int
    }

    /// Splits `text` on every newline.
    pub fn new(text: &[u8]) -> (c: Self)
        ensures
            c.lines() == split_lines(text@),
            c.position() == 0,
    {
        let mut lines: Vec<Vec<u8>> = Vec::new();
        let mut current: Vec<u8> = Vec::new();
        let mut i: usize = 0;
        while i < text.len()
            invariant
                i <= text.len(),
                lines@.map_values(|l: Vec<u8>| l@).push(current@) == split_lines(text@.take(i as int)),
            decreases text.len() - i,
        {
            let b = text[i];
            let ghost before = text@.take(i as int);
            let ghost old_lines = lines@.map_values(|l: Vec<u8>| l@);
            let ghost old_current = current@;
            assert(text@.take(i + 1).drop_last() =~= before);
            if b == 10 {
                let done = current;
                current = Vec::new();
                lines.push(done);
                assert(lines@.map_values(|l: Vec<u8>| l@) =~= old_lines.push(old_current));
                assert(lines@.map_values(|l: Vec<u8>| l@).push(current@) =~= split_lines(
                    text@.take(i + 1),
                ));
            } else {
                current.push(b);
                assert(lines@.map_values(|l: Vec<u8>| l@) =~= old_lines);
                assert(old_lines.push(old_current).update(
                    old_lines.len() as int,
                    old_current.push(b),
                ) =~= old_lines.push(current@));
            }
            i = i + 1;
        }
        let ghost last = current@;
        let ghost done_lines = lines@.map_values(|l: Vec<u8>| l@);
        lines.push(current);
        assert(lines@.map_values(|l: Vec<u8>| l@) =~= done_lines.push(last));
        assert(text@.take(text.len() as int) =~= text@);
        LineCursor { lines, position: 0 }
    }

    /// The next line, if any.
    pub fn next(&mut self) -> (r: Option<Vec<u8>>)
        ensures
            final(self).lines() == old(self).lines(),
            r is Some <==> old(self).position() < old(self).lines().len(),
            r matches Some(l) ==> l@ == old(self).lines()[old(self).position()] && final(self).position() == old(self).position() + 1,
            r is None ==> final(self).position() == old(self).position(),
    {
        if self.position < self.lines.len() {
            let line = vstd::slice::slice_to_vec(self.lines[self.position].as_slice());
            assert(line@ == self.lines()[self.position as int]);
            self.position = self.position + 1;
            Some(line)
        } else {
            None
        }
    }

    /// Whether the next line is exactly `expected`.
    pub fn literal(&mut self, expected: &[u8]) -> (r: bool)
        ensures
            final(self).lines() == old(self).lines(),
            r == (old(self).position() < old(self).lines().len() && old(self).lines()[old(self).position()] == expected@),
            r ==> final(self).position() == old(self).position() + 1,
    {
        match self.next() {
            Some(line) => bytes_equal(line.as_slice(), expected),
            None => false,
        }
    }

    /// The value of the next line, which must be `key=value`.
    pub fn field(&mut self, key: &[u8]) -> (r: Option<Vec<u8>>)
        ensures
            final(self).lines() == old(self).lines(),
            old(self).position() < old(self).lines().len() ==> opt_bytes(r)
                == field_value(old(self).lines()[old(self).position()], key@),
            old(self).position() >= old(self).lines().len() ==> r is None,
            r is Some ==> final(self).position() == old(self).position() + 1,
    {
        match self.next() {
            Some(line) => {
                if line.len() > key.len() && starts_with(line.as_slice(), key) && line[key.len()]
                    == 61 {
                    let mut value: Vec<u8> = Vec::new();
                    let mut i: usize = key.len() + 1;
                    while i < line.len()
                        invariant
                            key.len() + 1 <= i <= line.len(),
                            value@ == line@.subrange(key.len() + 1, i as int),
                        decreases line.len() - i,
                    {
                        value.push(line[i]);
                        i = i + 1;
                        assert(value@ =~= line@.subrange(key.len() + 1, i as int));
                    }
                    assert(value@ =~= line@.skip(key.len() + 1));
                    Some(value)
                } else {
                    None
                }
            },
            None => None,
        }
    }

    /// A field holding hexadecimal UTF-8 text.
    pub fn hex_field(&mut self, key: &[u8], upper_ok: bool) -> (r: Option<String>)
        ensures
            final(self).lines() == old(self).lines(),
            old(self).position() < old(self).lines().len() ==> opt_text(r)
                == hex_text_field(old(self).lines()[old(self).position()], key@, upper_ok),
            old(self).position() >= old(self).lines().len() ==> r is None,
            r is Some ==> final(self).position() == old(self).position() + 1,
    {
        match self.field(key) {
            Some(v) => decode_hex_with(v.as_slice(), upper_ok),
            None => None,
        }
    }

    /// A field holding a `u64`.
    pub fn u64_field(&mut self, key: &[u8]) -> (r: Option<u64>)
        ensures
            final(self).lines() == old(self).lines(),
            old(self).position() < old(self).lines().len() ==> r == u64_field(
                old(self).lines()[old(self).position()],
                key@,
            ),
            old(self).position() >= old(self).lines().len() ==> r is None,
            r is Some ==> final(self).position() == old(self).position() + 1,
    {
        match self.field(key) {
            Some(v) => parse_u64(v.as_slice()),
            None => None,
        }
    }

    /// A field holding a `u32`.
    pub fn u32_field(&mut self, key: &[u8]) -> (r: Option<u32>)
        ensures
            final(self).lines() == old(self).lines(),
            old(self).position() < old(self).lines().len() ==> r == u32_field(
                old(self).lines()[old(self).position()],
                key@,
            ),
            old(self).position() >= old(self).lines().len() ==> r is None,
            r is Some ==> final(self).position() == old(self).position() + 1,
    {
        match self.field(key) {
            Some(v) => parse_u32(v.as_slice()),
            None => None,
        }
    }

    /// A field holding a count no larger than `maximum`.
    pub fn count_field(&mut self, key: &[u8], maximum: usize) -> (r: Option<usize>)
        ensures
            final(self).lines() == old(self).lines(),
            old(self).position() < old(self).lines().len() ==> opt_count(r)
                == count_field(old(self).lines()[old(self).position()], key@, maximum as nat),
            old(self).position() >= old(self).lines().len() ==> r is None,
            r is Some ==> final(self).position() == old(self).position() + 1,
    {
        match self.field(key) {
            Some(v) => match parse_unsigned(v.as_slice(), maximum as u64) {
                Some(n) => Some(n as usize),
                None => None,
            },
            None => None,
        }
    }

    /// `count` fields `{prefix}{i}` holding hexadecimal UTF-8 text.
    pub fn hex_list(&mut self, prefix: &str, count: usize, upper_ok: bool) -> (r: Option<Vec<String>>)
        ensures
            final(self).lines() == old(self).lines(),
            opt_texts(r) == hex_list_at(
                old(self).lines(),
                old(self).position(),
                utf8(prefix@),
                count as nat,
                upper_ok,
            ),
            r is Some ==> final(self).position() == old(self).position() + count,
    {
        let ghost ls = self.lines();
        let ghost start = self.position();
        let mut out: Vec<String> = Vec::new();
        let mut i: usize = 0;
        while i < count
            invariant
                self.lines() == ls,
                ls == old(self).lines(),
                start == old(self).position(),
                self.position() == start + i,
                0 <= start,
                i <= count,
                out@.len() == i,
                forall|j: int|
                    0 <= j < i ==> start + j < ls.len() && (#[trigger] hex_text_field(
                        ls[start + j],
                        list_key(utf8(prefix@), j as nat),
                        upper_ok,
                    )) == Some(out@[j]@),
            decreases count - i,
        {
            let key = make_indexed_key(prefix, i as u64, "");
            proof {
                lemma_empty_utf8();
                assert(key@ =~= list_key(utf8(prefix@), i as nat));
            }
            match self.hex_field(key.as_slice(), upper_ok) {
                Some(v) => out.push(v),
                None => {
                    proof {
                        let ii = i as int;
                        if start + ii < ls.len() {
                            assert(hex_text_field(ls[start + ii], list_key(utf8(prefix@), ii as nat), upper_ok) is None);
                        }
                        assert(hex_list_at(ls, start, utf8(prefix@), count as nat, upper_ok) is None);
                    }
                    return None;
                },
            }
            i = i + 1;
        }
        proof {
            let want = hex_list_at(ls, start, utf8(prefix@), count as nat, upper_ok);
            assert(want is Some);
            assert(texts_view(out@) =~= want->0);
        }
        Some(out)
    }

    /// The record ends here: one empty line and nothing after it.
    pub fn finish(&mut self) -> (r: bool)
        ensures
            r == (old(self).position() == old(self).lines().len() - 1 && old(self).lines()[old(self).position()].len() == 0),
    {
        match self.next() {
            Some(line) => line.len() == 0 && self.position == self.lines.len(),
            None => false,
        }
    }
}

} // verus!
