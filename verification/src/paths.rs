//! Unix paths as UTF-8 bytes: their components (as `Path::components` yields
//! them), joining, and the Nix store path shapes the backends accept.
use vstd::prelude::*;
use crate::text::{
    ends_with, has_suffix, hex_of_text, lemma_ascii_chars, lemma_hex_encode_ascii, push_all,
    push_hex, utf8, utf8_string,
};
use vstd::utf8::{encode_utf8_valid_utf8, valid_utf8, valid_utf8_concat};

verus! {

/// One path component, as `std::path::Component` names it on Unix.
pub enum PathPart {
    RootDir,
    CurDir,
    ParentDir,
    Normal(Seq<u8>),
}

/// Pieces of `b` between the separator bytes `sep` (at least one piece).
pub open spec fn split_on(b: Seq<u8>, sep: u8) -> Seq<Seq<u8>>
    decreases b.len(),
{
    if b.len() == 0 {
        seq![Seq::<u8>::empty()]
    } else {
        let rest = split_on(b.drop_last(), sep);
        if b.last() == sep {
            rest.push(Seq::<u8>::empty())
        } else {
            rest.update(rest.len() - 1, rest.last().push(b.last()))
        }
    }
}

pub proof fn lemma_split_on_nonempty(b: Seq<u8>, sep: u8)
    ensures
        split_on(b, sep).len() >= 1,
    decreases b.len(),
{
    if b.len() > 0 {
        lemma_split_on_nonempty(b.drop_last(), sep);
    }
}

/// The component a segment between separators stands for; empty segments and
/// `.` vanish, except a leading `.` of a relative path.
pub open spec fn segment_part(seg: Seq<u8>, leading_of_relative: bool) -> Option<PathPart> {
    if seg.len() == 0 {
        None
    } else if seg == seq![46u8] {
        if leading_of_relative {
            Some(PathPart::CurDir)
        } else {
            None
        }
    } else if seg == seq![46u8, 46u8] {
        Some(PathPart::ParentDir)
    } else {
        Some(PathPart::Normal(seg))
    }
}

pub open spec fn parts_of(segs: Seq<Seq<u8>>, relative: bool) -> Seq<PathPart>
    decreases segs.len(),
{
    if segs.len() == 0 {
        Seq::<PathPart>::empty()
    } else {
        let init = parts_of(segs.drop_last(), relative);
        match segment_part(segs.last(), relative && segs.len() == 1) {
            Some(c) => init.push(c),
            None => init,
        }
    }
}

/// A path that starts at the root (`Path::is_absolute` on Unix).
pub open spec fn has_root(p: Seq<u8>) -> bool {
    p.len() > 0 && p[0] == 47
}

/// `Path::components`.
pub open spec fn path_parts(p: Seq<u8>) -> Seq<PathPart> {
    if has_root(p) {
        seq![PathPart::RootDir] + parts_of(split_on(p, 47), false)
    } else {
        parts_of(split_on(p, 47), true)
    }
}

pub open spec fn nix_bytes() -> Seq<u8> {
    seq![110u8, 105u8, 120u8]
}

pub open spec fn store_bytes() -> Seq<u8> {
    seq![115u8, 116u8, 111u8, 114u8, 101u8]
}

/// Exactly `/nix/store/<name>`.
pub open spec fn is_exact_store_path(p: Seq<u8>) -> bool {
    let c = path_parts(p);
    &&& c.len() == 4
    &&& c[0] == PathPart::RootDir
    &&& c[1] == PathPart::Normal(nix_bytes())
    &&& c[2] == PathPart::Normal(store_bytes())
    &&& c[3] is Normal
}

/// An absolute path inside one store object: `/nix/store/<name>[/<more>..]`.
pub open spec fn is_store_subpath(p: Seq<u8>) -> bool {
    let c = path_parts(p);
    &&& has_root(p)
    &&& c.len() >= 4
    &&& c[0] == PathPart::RootDir
    &&& c[1] == PathPart::Normal(nix_bytes())
    &&& c[2] == PathPart::Normal(store_bytes())
    &&& forall|i: int| 3 <= i < c.len() ==> (#[trigger] c[i]) is Normal
}

/// The last component, when it is a normal one (`Path::file_name`).
pub open spec fn file_name(p: Seq<u8>) -> Option<Seq<u8>> {
    let c = path_parts(p);
    if c.len() > 0 && c.last() is Normal {
        Some(c.last()->Normal_0)
    } else {
        None
    }
}

/// A file name whose extension (`Path::extension`) is `drv`.
pub open spec fn name_has_drv_extension(name: Seq<u8>) -> bool {
    name.len() >= 5 && name.subrange(name.len() - 4, name.len() as int) == seq![
        46u8,
        100u8,
        114u8,
        118u8,
    ]
}

pub open spec fn has_drv_extension(p: Seq<u8>) -> bool {
    file_name(p) matches Some(n) && name_has_drv_extension(n)
}

/// `PathBuf::push` of a relative name: a separator is added unless `base` is
/// empty or already ends with one.
pub open spec fn join(base: Seq<u8>, name: Seq<u8>) -> Seq<u8> {
    if base.len() == 0 || base.last() == 47 {
        base + name
    } else {
        base + seq![47u8] + name
    }
}

/// A path component owned by executable code.
#[derive(Clone, Debug, PartialEq, Eq)]
pub enum Component {
    RootDir,
    CurDir,
    ParentDir,
    Normal(Vec<u8>),
}

impl Component {
    pub open spec fn part(&self) -> PathPart {
        match self {
            Component::RootDir => PathPart::RootDir,
            Component::CurDir => PathPart::CurDir,
            Component::ParentDir => PathPart::ParentDir,
            Component::Normal(v) => PathPart::Normal(v@),
        }
    }
}

pub open spec fn parts_view(c: Seq<Component>) -> Seq<PathPart> {
    c.map_values(|x: Component| x.part())
}

fn segment_component(seg: Vec<u8>, leading_of_relative: bool) -> (r: Option<Component>)
    ensures
        match r {
            Some(c) => segment_part(seg@, leading_of_relative) == Some(c.part()),
            None => segment_part(seg@, leading_of_relative) is None,
        },
{
    if seg.len() == 0 {
        None
    } else if seg.len() == 1 && seg[0] == 46 {
        assert(seg@ =~= seq![46u8]);
        if leading_of_relative {
            Some(Component::CurDir)
        } else {
            None
        }
    } else if seg.len() == 2 && seg[0] == 46 && seg[1] == 46 {
        assert(seg@ =~= seq![46u8, 46u8]);
        Some(Component::ParentDir)
    } else {
        assert(seg@ != seq![46u8]);
        assert(seg@ != seq![46u8, 46u8]);
        Some(Component::Normal(seg))
    }
}

/// `Path::components` of the path spelled by `p`.
pub fn components(p: &[u8]) -> (r: Vec<Component>)
    ensures
        parts_view(r@) == path_parts(p@),
{
    let rooted = p.len() > 0 && p[0] == 47;
    let mut out: Vec<Component> = Vec::new();
    if rooted {
        out.push(Component::RootDir);
    }
    let ghost head: Seq<PathPart> = if rooted {
        seq![PathPart::RootDir]
    } else {
        Seq::empty()
    };
    let mut current: Vec<u8> = Vec::new();
    let mut completed: usize = 0;
    let mut i: usize = 0;
    while i < p.len()
        invariant
            i <= p.len(),
            rooted == has_root(p@),
            head == (if rooted {
                seq![PathPart::RootDir]
            } else {
                Seq::<PathPart>::empty()
            }),
            split_on(p@.take(i as int), 47).len() == completed + 1,
            split_on(p@.take(i as int), 47).last() == current@,
            parts_view(out@) == head + parts_of(
                split_on(p@.take(i as int), 47).drop_last(),
                !rooted,
            ),
            completed <= i,
        decreases p.len() - i,
    {
        let b = p[i];
        let ghost s = split_on(p@.take(i as int), 47);
        assert(p@.take(i + 1).drop_last() =~= p@.take(i as int));
        if b == 47 {
            let seg = current;
            current = Vec::new();
            let ghost segv = seg@;
            let ghost before = parts_view(out@);
            match segment_component(seg, !rooted && completed == 0) {
                Some(c) => {
                    out.push(c);
                    assert(parts_view(out@) =~= before.push(c.part()));
                },
                None => {},
            }
            proof {
                let s2 = split_on(p@.take(i + 1), 47);
                assert(s2 == s.push(Seq::<u8>::empty()));
                assert(s2.drop_last() =~= s);
                assert(s.drop_last().push(segv) =~= s);
                assert(parts_of(s, !rooted) == {
                    let init = parts_of(s.drop_last(), !rooted);
                    match segment_part(s.last(), !rooted && s.len() == 1) {
                        Some(c) => init.push(c),
                        None => init,
                    }
                });
            }
            completed = completed + 1;
        } else {
            current.push(b);
            proof {
                let s2 = split_on(p@.take(i + 1), 47);
                assert(s2 == s.update(s.len() - 1, s.last().push(b)));
                assert(s2.drop_last() =~= s.drop_last());
            }
        }
        i = i + 1;
    }
    assert(p@.take(p.len() as int) =~= p@);
    let ghost s = split_on(p@, 47);
    let ghost segv = current@;
    let ghost before = parts_view(out@);
    match segment_component(current, !rooted && completed == 0) {
        Some(c) => {
            out.push(c);
            assert(parts_view(out@) =~= before.push(c.part()));
        },
        None => {},
    }
    proof {
        assert(s.drop_last().push(segv) =~= s);
        assert(parts_of(s, !rooted) == {
            let init = parts_of(s.drop_last(), !rooted);
            match segment_part(s.last(), !rooted && s.len() == 1) {
                Some(c) => init.push(c),
                None => init,
            }
        });
        assert(head + parts_of(s, !rooted) =~= parts_view(out@));
    }
    out
}

fn is_nix(c: &Component) -> (r: bool)
    ensures
        r == (c.part() == PathPart::Normal(nix_bytes())),
{
    match c {
        Component::Normal(v) => {
            let r = v.len() == 3 && v[0] == 110 && v[1] == 105 && v[2] == 120;
            if r {
                assert(v@ =~= nix_bytes());
            } else {
                assert(v@ != nix_bytes());
            }
            r
        },
        _ => false,
    }
}

fn is_store(c: &Component) -> (r: bool)
    ensures
        r == (c.part() == PathPart::Normal(store_bytes())),
{
    match c {
        Component::Normal(v) => {
            let r = v.len() == 5 && v[0] == 115 && v[1] == 116 && v[2] == 111 && v[3] == 114
                && v[4] == 101;
            if r {
                assert(v@ =~= store_bytes());
            } else {
                assert(v@ != store_bytes());
            }
            r
        },
        _ => false,
    }
}

fn is_normal(c: &Component) -> (r: bool)
    ensures
        r == (c.part() is Normal),
{
    match c {
        Component::Normal(_) => true,
        _ => false,
    }
}

/// Whether `p` is exactly one store object: `/nix/store/<name>`.
pub fn exact_store_path(p: &[u8]) -> (r: bool)
    ensures
        r == is_exact_store_path(p@),
{
    let c = components(p);
    proof {
        assert(c@.len() == path_parts(p@).len());
    }
    if c.len() != 4 {
        return false;
    }
    let r = match &c[0] {
        Component::RootDir => true,
        _ => false,
    } && is_nix(&c[1]) && is_store(&c[2]) && is_normal(&c[3]);
    proof {
        assert(parts_view(c@)[0] == c@[0].part());
        assert(parts_view(c@)[1] == c@[1].part());
        assert(parts_view(c@)[2] == c@[2].part());
        assert(parts_view(c@)[3] == c@[3].part());
    }
    r
}

/// Whether `p` is an absolute path inside one store object.
pub fn store_subpath(p: &[u8]) -> (r: bool)
    ensures
        r == is_store_subpath(p@),
{
    if !(p.len() > 0 && p[0] == 47) {
        return false;
    }
    let c = components(p);
    if c.len() < 4 {
        return false;
    }
    proof {
        assert(parts_view(c@)[0] == c@[0].part());
        assert(parts_view(c@)[1] == c@[1].part());
        assert(parts_view(c@)[2] == c@[2].part());
    }
    let head = match &c[0] {
        Component::RootDir => true,
        _ => false,
    } && is_nix(&c[1]) && is_store(&c[2]);
    if !head {
        return false;
    }
    let mut i: usize = 3;
    while i < c.len()
        invariant
            3 <= i <= c@.len(),
            parts_view(c@) == path_parts(p@),
            forall|k: int| 3 <= k < i ==> (#[trigger] path_parts(p@)[k]) is Normal,
        decreases c.len() - i,
    {
        assert(parts_view(c@)[i as int] == c@[i as int].part());
        if !is_normal(&c[i]) {
            return false;
        }
        i = i + 1;
    }
    true
}

/// The final normal component of `p`, if there is one.
pub fn path_file_name(p: &[u8]) -> (r: Option<Vec<u8>>)
    ensures
        match r {
            Some(n) => file_name(p@) == Some(n@),
            None => file_name(p@) is None,
        },
{
    let mut c = components(p);
    if c.len() == 0 {
        return None;
    }
    let ghost last = c@.last();
    assert(parts_view(c@).last() == last.part());
    match c.pop() {
        Some(Component::Normal(v)) => Some(v),
        _ => None,
    }
}

pub fn name_is_drv(name: &[u8]) -> (r: bool)
    ensures
        r == name_has_drv_extension(name@),
{
    let n = name.len();
    if n < 5 {
        return false;
    }
    let r = name[n - 4] == 46 && name[n - 3] == 100 && name[n - 2] == 114 && name[n - 1] == 118;
    if r {
        assert(name@.subrange(n - 4, n as int) =~= seq![46u8, 100u8, 114u8, 118u8]);
    } else {
        assert(name@.subrange(n - 4, n as int) != seq![46u8, 100u8, 114u8, 118u8]) by {
            let s = name@.subrange(n - 4, n as int);
            assert(s[0] == name@[n - 4]);
            assert(s[1] == name@[n - 3]);
            assert(s[2] == name@[n - 2]);
            assert(s[3] == name@[n - 1]);
        }
    }
    r
}

/// Whether the extension of `p` is `drv`.
pub fn path_is_drv(p: &[u8]) -> (r: bool)
    ensures
        r == has_drv_extension(p@),
{
    match path_file_name(p) {
        Some(n) => name_is_drv(n.as_slice()),
        None => false,
    }
}

/// A file name whose extension (`Path::extension`) is `ext`, a text without
/// dots: the name ends in `.ext` and something comes before that dot.
pub open spec fn name_has_extension(name: Seq<u8>, ext: Seq<u8>) -> bool {
    name.len() > ext.len() + 1 && has_suffix(name, seq![46u8] + ext)
}

pub open spec fn has_extension(p: Seq<u8>, ext: Seq<u8>) -> bool {
    file_name(p) matches Some(n) && name_has_extension(n, ext)
}

/// Whether the extension of `p` is `ext` (given with its leading dot in `dot_ext`).
pub fn path_has_extension(p: &[u8], dot_ext: &[u8]) -> (r: bool)
    requires
        dot_ext@.len() >= 1,
        dot_ext@[0] == 46,
    ensures
        r == has_extension(p@, dot_ext@.skip(1)),
{
    assert(seq![46u8] + dot_ext@.skip(1) =~= dot_ext@);
    match path_file_name(p) {
        Some(n) => n.len() > dot_ext.len() && ends_with(n.as_slice(), dot_ext),
        None => false,
    }
}

fn same_component(x: &Component, y: &Component) -> (r: bool)
    ensures
        r == (x.part() == y.part()),
{
    match (x, y) {
        (Component::RootDir, Component::RootDir) => true,
        (Component::CurDir, Component::CurDir) => true,
        (Component::ParentDir, Component::ParentDir) => true,
        (Component::Normal(a), Component::Normal(b)) => crate::text::bytes_equal(
            a.as_slice(),
            b.as_slice(),
        ),
        _ => false,
    }
}

/// `Path == Path`: the two paths have the same components.
pub fn same_path(a: &[u8], b: &[u8]) -> (r: bool)
    ensures
        r == (path_parts(a@) == path_parts(b@)),
{
    let ca = components(a);
    let cb = components(b);
    if ca.len() != cb.len() {
        assert(path_parts(a@).len() != path_parts(b@).len());
        return false;
    }
    let mut i: usize = 0;
    while i < ca.len()
        invariant
            ca.len() == cb.len(),
            i <= ca.len(),
            parts_view(ca@) == path_parts(a@),
            parts_view(cb@) == path_parts(b@),
            forall|k: int| 0 <= k < i ==> #[trigger] parts_view(ca@)[k] == parts_view(cb@)[k],
        decreases ca.len() - i,
    {
        assert(parts_view(ca@)[i as int] == ca@[i as int].part());
        assert(parts_view(cb@)[i as int] == cb@[i as int].part());
        if !same_component(&ca[i], &cb[i]) {
            return false;
        }
        i = i + 1;
    }
    assert(parts_view(ca@) =~= parts_view(cb@));
    true
}

/// `base.join(name)` for a relative `name`.
pub fn join_path(base: &str, name: &[u8]) -> (r: Vec<u8>)
    ensures
        r@ == join(utf8(base@), name@),
{
    let b = base.as_bytes();
    let mut out: Vec<u8> = Vec::new();
    push_all(&mut out, b);
    if b.len() > 0 && b[b.len() - 1] != 47 {
        out.push(47);
    }
    push_all(&mut out, name);
    out
}

/// `base.join(name)` as a string, for a relative UTF-8 `name`.
pub fn join_name(base: &str, name: &[u8]) -> (r: String)
    requires
        valid_utf8(name@),
    ensures
        utf8(r@) == join(utf8(base@), name@),
{
    let v = join_path(base, name);
    proof {
        encode_utf8_valid_utf8(base@);
        if utf8(base@).len() > 0 && utf8(base@).last() != 47 {
            lemma_ascii_chars(seq![47u8]);
            valid_utf8_concat(utf8(base@), seq![47u8]);
            valid_utf8_concat(utf8(base@) + seq![47u8], name@);
        } else {
            valid_utf8_concat(utf8(base@), name@);
        }
    }
    utf8_string(v)
}

/// The file name `{prefix}{hex of value}{suffix}`.
pub fn hex_name(prefix: &str, value: &str, suffix: &str) -> (r: Vec<u8>)
    ensures
        r@ == utf8(prefix@) + hex_of_text(value@) + utf8(suffix@),
        valid_utf8(r@),
{
    let mut r: Vec<u8> = Vec::new();
    push_all(&mut r, prefix.as_bytes());
    push_hex(&mut r, value.as_bytes());
    push_all(&mut r, suffix.as_bytes());
    proof {
        lemma_hex_encode_ascii(utf8(value@));
        lemma_ascii_chars(hex_of_text(value@));
        encode_utf8_valid_utf8(prefix@);
        encode_utf8_valid_utf8(suffix@);
        valid_utf8_concat(utf8(prefix@), hex_of_text(value@));
        valid_utf8_concat(utf8(prefix@) + hex_of_text(value@), utf8(suffix@));
        assert(r@ =~= utf8(prefix@) + hex_of_text(value@) + utf8(suffix@));
    }
    r
}

} // verus!
