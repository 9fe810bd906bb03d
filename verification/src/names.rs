//! Names of assets, as bytes.
//!
//! A name is split at its last dot into a stem and an extension. The dot is
//! a single byte in every encoding that the names come in, so the split works
//! on bytes and cuts no character in two.

use vstd::prelude::*;

verus! {

/// The byte of a dot.
pub const DOT: u8 = 0x2E;

/// The extension of a material library that names none: `mtl`.
pub open spec fn library_extension() -> Seq<u8> {
    seq![0x6Du8, 0x74u8, 0x6Cu8]
}

/// The name of the texture of a model that names none: `default`.
pub open spec fn default_texture() -> Seq<u8> {
    seq![0x64u8, 0x65u8, 0x66u8, 0x61u8, 0x75u8, 0x6Cu8, 0x74u8]
}

/// Where the last dot of a name is, if the name has one.
pub open spec fn last_dot(name: Seq<u8>) -> Option<int>
    decreases name.len(),
{
    if name.len() == 0 {
        None
    } else if name.last() == DOT {
        Some(name.len() - 1)
    } else {
        last_dot(name.drop_last())
    }
}

/// The last dot is a dot with no dot after it, and a name without one holds
/// no dot at all.
pub proof fn lemma_last_dot(name: Seq<u8>)
    ensures
        match last_dot(name) {
            Some(at) => {
                &&& 0 <= at < name.len()
                &&& name[at] == DOT
                &&& forall|i: int| at < i < name.len() ==> #[trigger] name[i] != DOT
            },
            None => forall|i: int| 0 <= i < name.len() ==> #[trigger] name[i] != DOT,
        },
    decreases name.len(),
{
    if name.len() > 0 && name.last() != DOT {
        lemma_last_dot(name.drop_last());
        match last_dot(name) {
            Some(at) => {
                assert forall|i: int| at < i < name.len() implies #[trigger] name[i] != DOT by {
                    if i < name.len() - 1 {
                        assert(name.drop_last()[i] == name[i]);
                    }
                }
            },
            None => {
                assert forall|i: int| 0 <= i < name.len() implies #[trigger] name[i] != DOT by {
                    if i < name.len() - 1 {
                        assert(name.drop_last()[i] == name[i]);
                    }
                }
            },
        }
    }
}

/// The stem and the extension of a library's name: what stands before and
/// after the last dot, or the whole name and `mtl` where there is no dot.
pub open spec fn split_reference_spec(name: Seq<u8>) -> (Seq<u8>, Seq<u8>) {
    match last_dot(name) {
        Some(at) => (name.take(at), name.skip(at + 1)),
        None => (name, library_extension()),
    }
}

/// The name under which a texture is kept: the file's name up to its last
/// dot, or `default` for no file or a file's name without a dot.
pub open spec fn texture_key_spec(file: Option<Seq<u8>>) -> Seq<u8> {
    match file {
        Some(name) => match last_dot(name) {
            Some(at) => name.take(at),
            None => default_texture(),
        },
        None => default_texture(),
    }
}

/// Finds the last dot of a name.
pub fn find_last_dot(name: &Vec<u8>) -> (r: Option<usize>)
    ensures
        r matches Some(at) ==> at < name@.len() && last_dot(name@) == Some(at as int),
        r is None ==> last_dot(name@) is None,
{
    let mut end: usize = name.len();
    assert(name@.take(end as int) =~= name@);
    while end > 0
        invariant
            end <= name@.len(),
            last_dot(name@) == last_dot(name@.take(end as int)),
        decreases end,
    {
        assert(name@.take(end as int).last() == name@[end - 1]);
        assert(name@.take(end as int).drop_last() =~= name@.take(end - 1));
        if name[end - 1] == DOT {
            return Some(end - 1);
        }
        end -= 1;
    }
    None
}

/// Copies the bytes of a name from one place up to another.
pub fn copy_range(name: &Vec<u8>, from: usize, to: usize) -> (r: Vec<u8>)
    requires
        from <= to <= name@.len(),
    ensures
        r@ == name@.subrange(from as int, to as int),
{
    let mut out: Vec<u8> = Vec::new();
    let mut i: usize = from;
    while i < to
        invariant
            from <= i <= to <= name@.len(),
            out@ == name@.subrange(from as int, i as int),
        decreases to - i,
    {
        out.push(name[i]);
        assert(out@ =~= name@.subrange(from as int, i + 1));
        i += 1;
    }
    out
}

/// Splits the name of a material library into stem and extension.
pub fn split_reference(name: &Vec<u8>) -> (r: (Vec<u8>, Vec<u8>))
    ensures
        (r.0@, r.1@) == split_reference_spec(name@),
{
    let n = name.len();
    match find_last_dot(name) {
        Some(at) => {
            let stem = copy_range(name, 0, at);
            let extension = copy_range(name, at + 1, n);
            assert(stem@ =~= name@.take(at as int));
            assert(extension@ =~= name@.skip(at + 1));
            (stem, extension)
        },
        None => {
            let stem = copy_range(name, 0, name.len());
            assert(stem@ =~= name@);
            let mut extension: Vec<u8> = Vec::new();
            extension.push(0x6D);
            extension.push(0x74);
            extension.push(0x6C);
            assert(extension@ =~= library_extension());
            (stem, extension)
        },
    }
}

/// The name under which the texture of a model is kept.
pub fn texture_key(file: Option<&Vec<u8>>) -> (r: Vec<u8>)
    ensures
        r@ == texture_key_spec(
            match file {
                Some(name) => Some(name@),
                None => None,
            },
        ),
{
    if let Some(name) = file {
        if let Some(at) = find_last_dot(name) {
            let stem = copy_range(name, 0, at);
            assert(stem@ =~= name@.take(at as int));
            return stem;
        }
    }
    let mut key: Vec<u8> = Vec::new();
    key.push(0x64);
    key.push(0x65);
    key.push(0x66);
    key.push(0x61);
    key.push(0x75);
    key.push(0x6C);
    key.push(0x74);
    assert(key@ =~= default_texture());
    key
}

} // verus!
