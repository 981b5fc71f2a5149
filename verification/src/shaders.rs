//! Cycling through the shaders in the current shader's directory.
//!
//! The files of the directory are taken in the order of their names (byte by byte). Cycling
//! forwards picks the file after the current one, cycling backwards the one before it; past
//! either end, or when the current shader is not among the files, it starts again from the
//! first file in the direction of travel.
//!
//! The shader's output buffer has padded sides, whose size is worked out here too.
use vstd::prelude::*;

verus! {

/// Name `a` sorts before name `b`, byte by byte, a prefix first.
pub open spec fn name_lt(a: Seq<u8>, b: Seq<u8>) -> bool
    decreases a.len(),
{
    if a.len() == 0 {
        b.len() > 0
    } else if b.len() == 0 {
        false
    } else if a[0] != b[0] {
        a[0] < b[0]
    } else {
        name_lt(a.drop_first(), b.drop_first())
    }
}

/// Name `a` comes before name `b` in the direction of travel.
pub open spec fn precedes(a: Seq<u8>, b: Seq<u8>, forwards: bool) -> bool {
    if forwards {
        name_lt(a, b)
    } else {
        name_lt(b, a)
    }
}

/// The index of the name that comes first in the direction of travel, among the names that
/// satisfy `allowed`.
pub open spec fn is_first_among(names: Seq<Seq<u8>>, forwards: bool, allowed: spec_fn(Seq<u8>) -> bool, j: int) -> bool {
    &&& 0 <= j < names.len()
    &&& allowed(names[j])
    &&& forall|k: int| 0 <= k < names.len() && allowed(names[k]) && names[k] != names[j] ==> precedes(names[j], names[k], forwards)
}

/// The names that come after the current one in the direction of travel.
pub open spec fn after_current(current: Seq<u8>, forwards: bool) -> spec_fn(Seq<u8>) -> bool {
    |name: Seq<u8>| precedes(current, name, forwards)
}

/// Every name.
pub open spec fn any_name() -> spec_fn(Seq<u8>) -> bool {
    |name: Seq<u8>| true
}

/// Compare two names byte by byte.
fn names_lt(a: &Vec<u8>, b: &Vec<u8>) -> (res: bool)
    ensures
        res == name_lt(a@, b@),
{
    let mut i: usize = 0;
    assert(a@.skip(0) =~= a@);
    assert(b@.skip(0) =~= b@);
    while i < a.len() && i < b.len() && a[i] == b[i]
        invariant
            0 <= i <= a@.len(),
            i <= b@.len(),
            name_lt(a@, b@) == name_lt(a@.skip(i as int), b@.skip(i as int)),
        decreases a@.len() - i,
    {
        proof {
            assert(a@.skip(i as int).drop_first() =~= a@.skip(i + 1));
            assert(b@.skip(i as int).drop_first() =~= b@.skip(i + 1));
            assert(a@.skip(i as int)[0] == a@[i as int]);
            assert(b@.skip(i as int)[0] == b@[i as int]);
        }
        i = i + 1;
    }
    proof {
        if i < a@.len() && i < b@.len() {
            assert(a@.skip(i as int)[0] == a@[i as int]);
            assert(b@.skip(i as int)[0] == b@[i as int]);
        }
    }
    if i == a.len() {
        i < b.len()
    } else if i == b.len() {
        false
    } else {
        a[i] < b[i]
    }
}

/// Whether two names are the same.
fn names_eq(a: &Vec<u8>, b: &Vec<u8>) -> (res: bool)
    ensures
        res == (a@ == b@),
{
    if a.len() != b.len() {
        return false;
    }
    let mut i: usize = 0;
    while i < a.len()
        invariant
            a@.len() == b@.len(),
            0 <= i <= a@.len(),
            forall|k: int| 0 <= k < i ==> a@[k] == b@[k],
        decreases a@.len() - i,
    {
        if a[i] != b[i] {
            return false;
        }
        i = i + 1;
    }
    assert(a@ =~= b@);
    true
}

/// Names with the same first byte and the same rest are the same.
proof fn lemma_same_first_and_rest(a: Seq<u8>, b: Seq<u8>)
    requires
        a.len() > 0,
        b.len() > 0,
    ensures
        a[0] == b[0] && a.drop_first() == b.drop_first() ==> a == b,
{
    if a[0] == b[0] && a.drop_first() == b.drop_first() {
        assert(a.drop_first().len() == b.drop_first().len());
        assert(a.len() == b.len());
        assert forall|i: int| 0 <= i < a.len() implies a[i] == b[i] by {
            if i > 0 {
                assert(a[i] == a.drop_first()[i - 1]);
                assert(b[i] == b.drop_first()[i - 1]);
            }
        }
        assert(a =~= b);
    }
}

/// Byte order is a strict total order on names.
proof fn lemma_name_order(a: Seq<u8>, b: Seq<u8>, c: Seq<u8>)
    ensures
        !name_lt(a, a),
        a != b ==> name_lt(a, b) || name_lt(b, a),
        name_lt(a, b) ==> !name_lt(b, a),
        name_lt(a, b) && name_lt(b, c) ==> name_lt(a, c),
    decreases a.len(),
{
    if a.len() > 0 && b.len() > 0 && c.len() > 0 {
        lemma_name_order(a.drop_first(), b.drop_first(), c.drop_first());
        lemma_same_first_and_rest(a, b);
    } else if a.len() > 0 && b.len() > 0 {
        lemma_name_order(a.drop_first(), b.drop_first(), c);
        lemma_same_first_and_rest(a, b);
    } else if a.len() > 0 {
        lemma_name_order(a.drop_first(), b, c);
    }
    if a.len() == 0 && b.len() == 0 {
        assert(a =~= b);
    }
}

/// The index of the name that comes first in the direction of travel, among the names after
/// `current` when `only_after` holds, or among all names.
fn first_name(names: &Vec<Vec<u8>>, forwards: bool, current: &Vec<u8>, only_after: bool) -> (res: Option<usize>)
    ensures
        match res {
            Some(j) => is_first_among(
                names@.map_values(|n: Vec<u8>| n@),
                forwards,
                if only_after {
                    after_current(current@, forwards)
                } else {
                    any_name()
                },
                j as int,
            ),
            None => forall|k: int|
                0 <= k < names@.len() ==> !(if only_after {
                    after_current(current@, forwards)
                } else {
                    any_name()
                })(#[trigger] names@[k]@),
        },
{
    let ghost views = names@.map_values(|n: Vec<u8>| n@);
    let ghost allowed = if only_after {
        after_current(current@, forwards)
    } else {
        any_name()
    };
    let mut best: Option<usize> = None;
    let mut i: usize = 0;
    while i < names.len()
        invariant
            views == names@.map_values(|n: Vec<u8>| n@),
            allowed == (if only_after {
                after_current(current@, forwards)
            } else {
                any_name()
            }),
            0 <= i <= names@.len(),
            match best {
                Some(j) => {
                    &&& j < i
                    &&& allowed(views[j as int])
                    &&& forall|k: int| 0 <= k < i && allowed(views[k]) && views[k] != views[j as int]
                        ==> precedes(views[j as int], views[k], forwards)
                },
                None => forall|k: int| 0 <= k < i ==> !allowed(#[trigger] views[k]),
            },
        decreases names@.len() - i,
    {
        let name = &names[i];
        assert(views[i as int] == name@);
        let is_allowed = if only_after {
            if forwards {
                names_lt(current, name)
            } else {
                names_lt(name, current)
            }
        } else {
            true
        };
        assert(is_allowed == allowed(views[i as int]));
        if is_allowed {
            match best {
                Some(j) => {
                    let better = if forwards {
                        names_lt(name, &names[j])
                    } else {
                        names_lt(&names[j], name)
                    };
                    if better {
                        proof {
                            assert forall|k: int|
                                0 <= k < i + 1 && allowed(views[k]) && views[k] != views[i as int]
                                    implies precedes(views[i as int], views[k], forwards) by {
                                lemma_name_order(views[i as int], views[j as int], views[k]);
                                lemma_name_order(views[k], views[j as int], views[i as int]);
                            }
                        }
                        best = Some(i);
                    } else {
                        proof {
                            lemma_name_order(views[i as int], views[j as int], views[i as int]);
                            lemma_name_order(views[j as int], views[i as int], views[j as int]);
                        }
                    }
                },
                None => {
                    best = Some(i);
                },
            }
        }
        i = i + 1;
    }
    proof {
        match best {
            Some(j) => {
                assert(is_first_among(views, forwards, allowed, j as int));
            },
            None => {
                assert forall|k: int| 0 <= k < names@.len() implies !allowed(#[trigger] names@[k]@) by {
                    assert(views[k] == names@[k]@);
                }
            },
        }
    }
    best
}

/// The shader to change to: the index, among the shader directory's files, of the file after
/// the current one in the direction of travel, or of the first file in that direction when
/// there is none after it or the current shader is not among the files. `None` when there
/// are no files.
pub fn cycle_shader(names: &Vec<Vec<u8>>, current: &Vec<u8>, forwards: bool) -> (res: Option<usize>)
    ensures
        names@.len() == 0 <==> res is None,
        ({
            let views = names@.map_values(|n: Vec<u8>| n@);
            let found = views.contains(current@);
            let has_next = exists|k: int| 0 <= k < views.len() && precedes(current@, #[trigger] views[k], forwards);
            res matches Some(j) ==> if found && has_next {
                is_first_among(views, forwards, after_current(current@, forwards), j as int)
            } else {
                is_first_among(views, forwards, any_name(), j as int)
            }
        }),
{
    let ghost views = names@.map_values(|n: Vec<u8>| n@);
    let mut found = false;
    let mut i: usize = 0;
    while i < names.len()
        invariant
            views == names@.map_values(|n: Vec<u8>| n@),
            0 <= i <= names@.len(),
            found == views.take(i as int).contains(current@),
        decreases names@.len() - i,
    {
        let same = names_eq(&names[i], current);
        proof {
            assert(views.take(i + 1) =~= views.take(i as int).push(views[i as int]));
            if same {
                assert(views.take(i + 1)[i as int] == current@);
            }
            let prefix = views.take(i + 1);
            if prefix.contains(current@) && !same {
                let k = choose|k: int| 0 <= k < prefix.len() && #[trigger] prefix[k] == current@;
                assert(views.take(i as int)[k] == current@);
            }
        }
        found = found || same;
        i = i + 1;
    }
    assert(views.take(i as int) =~= views);
    if found {
        match first_name(names, forwards, current, true) {
            Some(j) => {
                proof {
                    assert(precedes(current@, views[j as int], forwards));
                }
                return Some(j);
            },
            None => {
                proof {
                    assert forall|k: int| 0 <= k < views.len() implies !precedes(current@, #[trigger] views[k], forwards) by {
                        assert(!after_current(current@, forwards)(names@[k]@));
                    }
                }
            },
        }
    }
    let first = first_name(names, forwards, current, false);
    proof {
        if names@.len() > 0 {
            assert(any_name()(names@[0]@));
        }
    }
    first
}

/// The smallest multiple of 256 that is not below `number`.
pub open spec fn aligned_dimension(number: int) -> int {
    (number + 255) / 256 * 256
}

/// Align a side of the shader's output buffer, of `number` pixels, to a consistent multiple:
/// the smallest multiple of 256 that is not below it.
pub fn align_dimension(number: u32) -> (res: u32)
    requires
        number <= u32::MAX - 255,
    ensures
        res == aligned_dimension(number as int),
        res % 256 == 0,
        number <= res < number + 256,
{
    let multiple: u32 = 256;
    let blocks: u32 = (number + 255) / multiple;
    assert(blocks * 256 <= number + 255) by (nonlinear_arith)
        requires
            blocks == (number + 255) / 256,
    ;
    assert(blocks * 256 + 256 > number + 255) by (nonlinear_arith)
        requires
            blocks == (number + 255) / 256,
    ;
    let res = blocks * multiple;
    assert(res % 256 == 0) by (nonlinear_arith)
        requires
            res == blocks * 256,
    ;
    res
}

/// The size in bytes of the shader's output buffer for an image of `width` by `height`
/// pixels: four bytes a pixel over both aligned sides.
pub fn output_buffer_size(width: u16, height: u16) -> (res: u64)
    ensures
        res == 4 * aligned_dimension(width as int) * aligned_dimension(height as int),
{
    let w = align_dimension(width as u32);
    let h = align_dimension(height as u32);
    assert(w <= 65536 && h <= 65536);
    assert(4 * w * h <= 4 * 65536 * 65536) by (nonlinear_arith)
        requires
            w <= 65536,
            h <= 65536,
    ;
    let pixel_bytes: u64 = 4;
    let size: u64 = pixel_bytes * (w as u64) * (h as u64);
    size
}

} // verus!
