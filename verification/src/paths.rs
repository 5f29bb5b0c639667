//! File paths as the operating system sees them: strings of bytes.

use vstd::prelude::*;

verus! {

/// The byte between the components of a path.
pub const SEPARATOR: u8 = 0x2f;

/// Whether a path starts at the root of the file system.
pub open spec fn absolute(path: Seq<u8>) -> bool {
    path.len() > 0 && path[0] == SEPARATOR
}

/// What `component` names when it is looked up from `base`. An absolute component stands for
/// itself; any other follows `base`, with one separator between them where `base` has something
/// that needs one.
pub open spec fn joined(base: Seq<u8>, component: Seq<u8>) -> Seq<u8> {
    if absolute(component) {
        component
    } else if base.len() == 0 || base.last() == SEPARATOR {
        base + component
    } else {
        base.push(SEPARATOR) + component
    }
}

/// The byte that makes up a component for the directory itself.
pub const DOT: u8 = 0x2e;

/// Whether a part between two separators counts as a component: repeated separators do not make
/// one, and neither does a dot.
pub open spec fn counts(part: Seq<u8>) -> bool {
    part.len() > 0 && part != seq![DOT]
}

/// `list` with `part` behind it, where it counts.
pub open spec fn with_part(list: Seq<Seq<u8>>, part: Seq<u8>) -> Seq<Seq<u8>> {
    if counts(part) {
        list.push(part)
    } else {
        list
    }
}

/// What follows the last separator of a path.
pub open spec fn last_part(path: Seq<u8>) -> Seq<u8>
    decreases path.len(),
{
    if path.len() == 0 || path.last() == SEPARATOR {
        Seq::empty()
    } else {
        last_part(path.drop_last()).push(path.last())
    }
}

/// The components of a path up to its last separator.
pub open spec fn earlier_parts(path: Seq<u8>) -> Seq<Seq<u8>>
    decreases path.len(),
{
    if path.len() == 0 {
        Seq::empty()
    } else if path.last() == SEPARATOR {
        with_part(earlier_parts(path.drop_last()), last_part(path.drop_last()))
    } else {
        earlier_parts(path.drop_last())
    }
}

/// The components of a path, without the root or the dot that it may begin with.
pub open spec fn components(path: Seq<u8>) -> Seq<Seq<u8>> {
    with_part(earlier_parts(path), last_part(path))
}

/// Whether a path begins with a dot for the directory itself.
pub open spec fn dotted(path: Seq<u8>) -> bool {
    path.len() > 0 && path[0] == DOT && (path.len() == 1 || path[1] == SEPARATOR)
}

/// Whether two paths are the same path, component by component: repeated and trailing separators
/// play no part, and neither does a dot except at the beginning.
pub open spec fn same_path(a: Seq<u8>, b: Seq<u8>) -> bool {
    &&& absolute(a) == absolute(b)
    &&& dotted(a) == dotted(b)
    &&& components(a) == components(b)
}

/// Whether two paths are the same path, component by component.
pub fn is_same_path(a: &[u8], b: &[u8]) -> (same: bool)
    ensures
        same == same_path(a@, b@),
{
    if is_absolute(a) != is_absolute(b) || is_dotted(a) != is_dotted(b) {
        return false;
    }
    let first = split_components(a);
    let second = split_components(b);
    if first.len() != second.len() {
        assert(byte_strings(first@).len() != byte_strings(second@).len());
        return false;
    }
    let mut i: usize = 0;
    while i < first.len()
        invariant
            i <= first.len(),
            first.len() == second.len(),
            byte_strings(first@) == components(a@),
            byte_strings(second@) == components(b@),
            forall|j: int|
                0 <= j < i ==> #[trigger] byte_strings(first@)[j] == byte_strings(second@)[j],
        decreases first.len() - i,
    {
        if !same_bytes(first[i].as_slice(), second[i].as_slice()) {
            assert(byte_strings(first@)[i as int] != byte_strings(second@)[i as int]);
            return false;
        }
        i = i + 1;
    }
    assert(byte_strings(first@) =~= byte_strings(second@));
    true
}

/// Whether a path begins with a dot for the directory itself.
fn is_dotted(path: &[u8]) -> (result: bool)
    ensures
        result == dotted(path@),
{
    path.len() > 0 && path[0] == DOT && (path.len() == 1 || path[1] == SEPARATOR)
}

/// Splits a path into its components.
fn split_components(path: &[u8]) -> (list: Vec<Vec<u8>>)
    ensures
        byte_strings(list@) == components(path@),
{
    let mut list: Vec<Vec<u8>> = Vec::new();
    let mut part: Vec<u8> = Vec::new();
    let mut i: usize = 0;
    assert(byte_strings(list@) =~= earlier_parts(path@.take(0)));
    while i < path.len()
        invariant
            i <= path.len(),
            byte_strings(list@) == earlier_parts(path@.take(i as int)),
            part@ == last_part(path@.take(i as int)),
        decreases path.len() - i,
    {
        let byte = path[i];
        proof {
            assert(path@.take(i + 1).drop_last() =~= path@.take(i as int));
            assert(path@.take(i + 1).last() == byte);
        }
        if byte == SEPARATOR {
            push_part(&mut list, part);
            part = Vec::new();
        } else {
            part.push(byte);
        }
        i = i + 1;
    }
    assert(path@.take(i as int) =~= path@);
    push_part(&mut list, part);
    list
}

/// Appends `part`, where it counts.
fn push_part(list: &mut Vec<Vec<u8>>, part: Vec<u8>)
    ensures
        byte_strings(final(list)@) == with_part(byte_strings(old(list)@), part@),
{
    if part.len() == 0 {
        return;
    }
    if part.len() == 1 && part[0] == DOT {
        assert(part@ =~= seq![DOT]);
        return;
    }
    assert(part@ != seq![DOT]);
    list.push(part);
    assert(byte_strings(list@) =~= byte_strings(old(list)@).push(part@));
}

/// A list of byte strings, as sequences.
pub open spec fn byte_strings(list: Seq<Vec<u8>>) -> Seq<Seq<u8>> {
    list.map_values(|bytes: Vec<u8>| bytes@)
}

/// A path is the same as itself, and whether two paths are the same does not depend on which of
/// them comes first.
pub proof fn law_sameness_of_paths_is_an_equivalence(a: Seq<u8>, b: Seq<u8>, c: Seq<u8>)
    ensures
        same_path(a, a),
        same_path(a, b) == same_path(b, a),
        same_path(a, b) && same_path(b, c) ==> same_path(a, c),
{
}

/// Appends `bytes` to `buffer`.
pub fn append_bytes(buffer: &mut Vec<u8>, bytes: &[u8])
    ensures
        final(buffer)@ == old(buffer)@ + bytes@,
{
    let mut i: usize = 0;
    while i < bytes.len()
        invariant
            i <= bytes.len(),
            buffer@ == old(buffer)@ + bytes@.take(i as int),
        decreases bytes.len() - i,
    {
        buffer.push(bytes[i]);
        proof {
            assert(bytes@.take(i + 1) =~= bytes@.take(i as int).push(bytes@[i as int]));
        }
        i = i + 1;
    }
    proof {
        assert(bytes@.take(i as int) =~= bytes@);
    }
}

/// A copy of `bytes`.
pub fn copied(bytes: &[u8]) -> (copy: Vec<u8>)
    ensures
        copy@ == bytes@,
{
    let mut copy: Vec<u8> = Vec::new();
    append_bytes(&mut copy, bytes);
    copy
}

/// Whether two strings of bytes are the same.
pub fn same_bytes(a: &[u8], b: &[u8]) -> (same: bool)
    ensures
        same == (a@ == b@),
{
    if a.len() != b.len() {
        return false;
    }
    let mut i: usize = 0;
    while i < a.len()
        invariant
            i <= a.len(),
            a.len() == b.len(),
            forall|j: int| 0 <= j < i ==> a@[j] == b@[j],
        decreases a.len() - i,
    {
        if a[i] != b[i] {
            return false;
        }
        i = i + 1;
    }
    assert(a@ =~= b@);
    true
}

/// Whether a path starts at the root of the file system.
pub fn is_absolute(path: &[u8]) -> (result: bool)
    ensures
        result == absolute(path@),
{
    path.len() > 0 && path[0] == SEPARATOR
}

/// Looks `component` up from `base`.
pub fn join(base: &[u8], component: &[u8]) -> (path: Vec<u8>)
    ensures
        path@ == joined(base@, component@),
{
    if is_absolute(component) {
        return copied(component);
    }
    let mut path = copied(base);
    if base.len() > 0 && base[base.len() - 1] != SEPARATOR {
        path.push(SEPARATOR);
    }
    append_bytes(&mut path, component);
    path
}

/// A component that is looked up from a directory is found below it: the path begins with the
/// directory and ends with the component, with at most one separator in between, unless the
/// component starts at the root and stands for itself.
pub proof fn law_joined_path_lies_below_its_base(base: Seq<u8>, component: Seq<u8>)
    ensures
        absolute(component) ==> joined(base, component) == component,
        !absolute(component) ==> {
            let path = joined(base, component);
            let gap = path.len() - base.len() - component.len();
            &&& 0 <= gap <= 1
            &&& path.take(base.len() as int) == base
            &&& path.skip(path.len() - component.len()) == component
            &&& gap == 1 <==> base.len() > 0 && base.last() != SEPARATOR
            &&& gap == 1 ==> path[base.len() as int] == SEPARATOR
        },
{
    let path = joined(base, component);
    if !absolute(component) {
        assert(path.take(base.len() as int) =~= base);
        assert(path.skip(path.len() - component.len()) =~= component);
    }
}

} // verus!
