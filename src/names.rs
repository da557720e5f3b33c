//! Module paths: relative qualifiers, primitive type names, and comparisons.

use vstd::prelude::*;
use vstd::string::*;

verus! {

/// A path as a sequence of segments: `a::b::C` is `[a, b, C]`.
pub type Name = Seq<Seq<char>>;

/// Compares two strings character by character.
pub fn str_eq(a: &str, b: &str) -> (r: bool)
    ensures
        r == (a@ == b@),
{
    let n = a.unicode_len();
    if n != b.unicode_len() {
        return false;
    }
    let mut i: usize = 0;
    while i < n
        invariant
            n == a@.len(),
            n == b@.len(),
            i <= n,
            forall|j: int| 0 <= j < i ==> a@[j] == b@[j],
        decreases n - i,
    {
        if a.get_char(i) != b.get_char(i) {
            return false;
        }
        i += 1;
    }
    assert(a@ =~= b@);
    true
}


/// The built-in and standard-library type names that never give a composition
/// edge: numbers, text, `bool`, the unit type, and the common containers.
pub open spec fn is_primitive(s: Seq<char>) -> bool {
    s == "u8"@ ||
        s == "u16"@ ||
        s == "u32"@ ||
        s == "u64"@ ||
        s == "u128"@ ||
        s == "usize"@ ||
        s == "i8"@ ||
        s == "i16"@ ||
        s == "i32"@ ||
        s == "i64"@ ||
        s == "i128"@ ||
        s == "isize"@ ||
        s == "f32"@ ||
        s == "f64"@ ||
        s == "bool"@ ||
        s == "char"@ ||
        s == "str"@ ||
        s == "()"@ ||
        s == "String"@ ||
        s == "Vec"@ ||
        s == "Option"@ ||
        s == "Result"@ ||
        s == "Box"@ ||
        s == "Rc"@ ||
        s == "Arc"@ ||
        s == "HashMap"@ ||
        s == "HashSet"@ ||
        s == "BTreeMap"@ ||
        s == "BTreeSet"@
}

/// Whether `s` is one of the names that [`is_primitive`] lists.
pub fn is_primitive_type(s: &str) -> (r: bool)
    ensures
        r == is_primitive(s@),
{
    str_eq(s, "u8") ||
        str_eq(s, "u16") ||
        str_eq(s, "u32") ||
        str_eq(s, "u64") ||
        str_eq(s, "u128") ||
        str_eq(s, "usize") ||
        str_eq(s, "i8") ||
        str_eq(s, "i16") ||
        str_eq(s, "i32") ||
        str_eq(s, "i64") ||
        str_eq(s, "i128") ||
        str_eq(s, "isize") ||
        str_eq(s, "f32") ||
        str_eq(s, "f64") ||
        str_eq(s, "bool") ||
        str_eq(s, "char") ||
        str_eq(s, "str") ||
        str_eq(s, "()") ||
        str_eq(s, "String") ||
        str_eq(s, "Vec") ||
        str_eq(s, "Option") ||
        str_eq(s, "Result") ||
        str_eq(s, "Box") ||
        str_eq(s, "Rc") ||
        str_eq(s, "Arc") ||
        str_eq(s, "HashMap") ||
        str_eq(s, "HashSet") ||
        str_eq(s, "BTreeMap") ||
        str_eq(s, "BTreeSet")
}


/// A path with its relative qualifier (`crate::`, `self::` or `super::`)
/// rewritten against the module `m` it was written in. `super::` goes up one
/// level only, and at or below the root's first level it goes to the root.
/// A path without such a qualifier is left as it is: a single segment is then
/// a bare name for the resolver, and a longer one is taken as absolute.
pub open spec fn normalized(p: Name, m: Name) -> Name {
    if p.len() >= 2 && p[0] == "crate"@ {
        p.drop_first()
    } else if p.len() >= 2 && p[0] == "self"@ {
        m + p.drop_first()
    } else if p.len() >= 2 && p[0] == "super"@ {
        if m.len() <= 1 {
            p.drop_first()
        } else {
            m.drop_last() + p.drop_first()
        }
    } else {
        p
    }
}

/// Whether two paths have the same segments.
pub fn same_name(a: &Vec<String>, b: &Vec<String>) -> (r: bool)
    ensures
        r == (a.deep_view() == b.deep_view()),
{
    if a.len() != b.len() {
        assert(a.deep_view().len() != b.deep_view().len());
        return false;
    }
    let mut i: usize = 0;
    while i < a.len()
        invariant
            a.len() == b.len(),
            i <= a.len(),
            forall|j: int| 0 <= j < i ==> a.deep_view()[j] == b.deep_view()[j],
        decreases a.len() - i,
    {
        if a[i] != b[i] {
            assert(a.deep_view()[i as int] != b.deep_view()[i as int]);
            return false;
        }
        i += 1;
    }
    assert(a.deep_view() =~= b.deep_view());
    true
}

/// Appends the segments `src[lo..hi]` to `out`.
pub fn append_segments(out: &mut Vec<String>, src: &Vec<String>, lo: usize, hi: usize)
    requires
        lo <= hi <= src.len(),
    ensures
        final(out).deep_view() == old(out).deep_view() + src.deep_view().subrange(
            lo as int,
            hi as int,
        ),
{
    let mut i: usize = lo;
    while i < hi
        invariant
            lo <= i <= hi <= src.len(),
            out.deep_view() == old(out).deep_view() + src.deep_view().subrange(lo as int, i as int),
        decreases hi - i,
    {
        let ghost before = out.deep_view();
        out.push(src[i].clone());
        assert(out.deep_view() =~= before.push(src.deep_view()[i as int]));
        assert(src.deep_view().subrange(lo as int, i + 1) =~= src.deep_view().subrange(
            lo as int,
            i as int,
        ).push(src.deep_view()[i as int]));
        i += 1;
    }
}

/// A copy of a path.
pub fn copy_name(p: &Vec<String>) -> (r: Vec<String>)
    ensures
        r.deep_view() == p.deep_view(),
{
    let mut r: Vec<String> = Vec::new();
    append_segments(&mut r, p, 0, p.len());
    assert(p.deep_view().subrange(0, p.len() as int) =~= p.deep_view());
    assert(r.deep_view() =~= p.deep_view());
    r
}

/// Rewrites the relative qualifier of `path` against `current_module`, as
/// [`normalized`] states.
pub fn normalize_relative_path(path: &Vec<String>, current_module: &Vec<String>) -> (r: Vec<
    String,
>)
    ensures
        r.deep_view() == normalized(path.deep_view(), current_module.deep_view()),
{
    let p = Ghost(path.deep_view());
    let m = Ghost(current_module.deep_view());
    if path.len() >= 2 {
        let mut out: Vec<String> = Vec::new();
        if str_eq(path[0].as_str(), "crate") {
            append_segments(&mut out, path, 1, path.len());
            assert(out.deep_view() =~= p@.drop_first());
            return out;
        } else if str_eq(path[0].as_str(), "self") {
            append_segments(&mut out, current_module, 0, current_module.len());
            append_segments(&mut out, path, 1, path.len());
            assert(out.deep_view() =~= m@ + p@.drop_first());
            return out;
        } else if str_eq(path[0].as_str(), "super") {
            if current_module.len() > 1 {
                append_segments(&mut out, current_module, 0, current_module.len() - 1);
            }
            append_segments(&mut out, path, 1, path.len());
            assert(out.deep_view() =~= normalized(p@, m@));
            return out;
        }
    }
    copy_name(path)
}


/// A path written out with `::` between its segments.
pub open spec fn joined(p: Name) -> Seq<char>
    decreases p.len(),
{
    if p.len() == 0 {
        Seq::empty()
    } else if p.len() == 1 {
        p[0]
    } else {
        joined(p.drop_last()) + "::"@ + p.last()
    }
}

/// Writes a path out with `::` between its segments, as [`joined`] states.
pub fn join_path(p: &Vec<String>) -> (r: String)
    ensures
        r@ == joined(p.deep_view()),
{
    let mut out = String::new();
    let mut i: usize = 0;
    while i < p.len()
        invariant
            i <= p.len(),
            out@ == joined(p.deep_view().subrange(0, i as int)),
        decreases p.len() - i,
    {
        let ghost sub = p.deep_view().subrange(0, i + 1);
        assert(sub.drop_last() =~= p.deep_view().subrange(0, i as int));
        if i == 0 {
            out = p[i].clone();
            assert(sub.len() == 1);
        } else {
            out = out.concat("::");
            out = out.concat(p[i].as_str());
        }
        i += 1;
    }
    assert(p.deep_view().subrange(0, p.len() as int) =~= p.deep_view());
    out
}

} // verus!
