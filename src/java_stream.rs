//! A reader for the one shape of Java object stream that a FreeOTP export
//! has: a single `java.util.HashMap` of strings to strings. Anything else is
//! refused.
use vstd::prelude::*;

use crate::text::{bytes_equal, copy_range};

verus! {

/// Big-endian two-byte length at `p`.
pub open spec fn u16_at(b: Seq<u8>, p: int) -> int {
    b[p] as int * 256 + b[p + 1] as int
}

/// A string in the stream's short UTF form at `p`: a two-byte length and the
/// bytes; with the position after it.
pub open spec fn utf_at(b: Seq<u8>, p: int) -> Option<(Seq<u8>, int)> {
    if 0 <= p && p + 2 <= b.len() && p + 2 + u16_at(b, p) <= b.len() {
        Some((b.subrange(p + 2, p + 2 + u16_at(b, p)), p + 2 + u16_at(b, p)))
    } else {
        None
    }
}

/// The size of a primitive field of the given type code.
pub open spec fn prim_size(tc: u8) -> Option<nat> {
    if tc == 66 || tc == 90 {
        Some(1)  // byte, boolean
    } else if tc == 67 || tc == 83 {
        Some(2)  // char, short
    } else if tc == 70 || tc == 73 {
        Some(4)  // float, int
    } else if tc == 68 || tc == 74 {
        Some(8)  // double, long
    } else {
        None
    }
}

/// `n` primitive field descriptors at `p` (type code, then name): the total
/// size of their values, with the position after them.
pub open spec fn fields_at(b: Seq<u8>, p: int, n: nat) -> Option<(nat, int)>
    decreases n,
{
    if n == 0 {
        Some((0, p))
    } else if 0 <= p < b.len() && prim_size(b[p]) is Some && utf_at(b, p + 1) is Some {
        match fields_at(b, utf_at(b, p + 1)->Some_0.1, (n - 1) as nat) {
            Some((size, end)) => Some((prim_size(b[p])->Some_0 + size, end)),
            None => None,
        }
    } else {
        None
    }
}

/// A string object (`TC_STRING`) at `p`.
pub open spec fn string_at(b: Seq<u8>, p: int) -> Option<(Seq<u8>, int)> {
    if 0 <= p < b.len() && b[p] == 0x74 {
        utf_at(b, p + 1)
    } else {
        None
    }
}

/// `n` key/value pairs of string objects at `p`, with the position after them.
pub open spec fn entries_at(b: Seq<u8>, p: int, n: nat) -> Option<(Seq<(Seq<u8>, Seq<u8>)>, int)>
    decreases n,
{
    if n == 0 {
        Some((Seq::empty(), p))
    } else {
        match string_at(b, p) {
            Some((k, p1)) => match string_at(b, p1) {
                Some((v, p2)) => match entries_at(b, p2, (n - 1) as nat) {
                    Some((rest, end)) => Some((seq![(k, v)] + rest, end)),
                    None => None,
                },
                None => None,
            },
            None => None,
        }
    }
}

/// No key occurs twice.
pub open spec fn keys_distinct(es: Seq<(Seq<u8>, Seq<u8>)>) -> bool {
    forall|i: int, j: int| 0 <= i < j < es.len() ==> es[i].0 != es[j].0
}

/// `java.util.HashMap`.
pub open spec fn hash_map_class() -> Seq<u8> {
    seq![106u8, 97, 118, 97, 46, 117, 116, 105, 108, 46, 72, 97, 115, 104, 77, 97, 112]
}

/// The stream header, a new object and a new class descriptor.
pub open spec fn stream_start(b: Seq<u8>) -> bool {
    b.len() >= 6 && b[0] == 0xac && b[1] == 0xed && b[2] == 0x00 && b[3] == 0x05 && b[4] == 0x73
        && b[5] == 0x72
}

/// The entries of a serialized `java.util.HashMap` of strings, in stream order:
/// stream header; object of class `java.util.HashMap` (any serial version,
/// flags serializable with a write method, primitive fields only, no class
/// annotation, no superclass); its field values; a block of capacity and size;
/// `size` pairs of string objects; end of block, and nothing after.
pub open spec fn java_map(b: Seq<u8>) -> Option<Seq<(Seq<u8>, Seq<u8>)>> {
    if !stream_start(b) {
        None
    } else {
        match utf_at(b, 6) {
            None => None,
            Some((name, p)) => if name != hash_map_class() || p + 11 > b.len() || b[p + 8] != 0x03 {
                None
            } else {
                match fields_at(b, p + 11, u16_at(b, p + 9) as nat) {
                    None => None,
                    Some((size, q)) => {
                        let r = q + 2 + size;
                        if q + 2 > b.len() || b[q] != 0x78 || b[q + 1] != 0x70 || r + 10 > b.len()
                            || b[r] != 0x77 || b[r + 1] != 0x08 || b[r + 6] >= 0x80 {
                            None
                        } else {
                            let count = b[r + 6] as int * 0x1000000 + b[r + 7] as int * 0x10000
                                + b[r + 8] as int * 0x100 + b[r + 9] as int;
                            match entries_at(b, r + 10, count as nat) {
                                Some((es, end)) => if end + 1 == b.len() && b[end] == 0x78
                                    && keys_distinct(es) {
                                    Some(es)
                                } else {
                                    None
                                },
                                None => None,
                            }
                        }
                    },
                }
            },
        }
    }
}

/// The models of decoded entries.
pub open spec fn entry_models(es: Seq<(Vec<u8>, Vec<u8>)>) -> Seq<(Seq<u8>, Seq<u8>)> {
    es.map_values(|e: (Vec<u8>, Vec<u8>)| (e.0@, e.1@))
}

fn read_utf(b: &[u8], p: usize) -> (r: Option<(Vec<u8>, usize)>)
    ensures
        match utf_at(b@, p as int) {
            Some((s, e)) => r matches Some((v, e2)) && v@ == s && e2 == e,
            None => r is None,
        },
{
    if p > b.len() || b.len() - p < 2 {
        return None;
    }
    let n = (b[p] as usize) * 256 + (b[p + 1] as usize);
    if b.len() - p - 2 < n {
        return None;
    }
    let s = copy_range(b, p + 2, p + 2 + n);
    Some((s, p + 2 + n))
}

fn prim_size_of(tc: u8) -> (r: Option<usize>)
    ensures
        match prim_size(tc) {
            Some(n) => r == Some(n as usize),
            None => r is None,
        },
{
    if tc == 66 || tc == 90 {
        Some(1)
    } else if tc == 67 || tc == 83 {
        Some(2)
    } else if tc == 70 || tc == 73 {
        Some(4)
    } else if tc == 68 || tc == 74 {
        Some(8)
    } else {
        None
    }
}

fn read_fields(b: &[u8], p: usize, n: usize) -> (r: Option<(usize, usize)>)
    requires
        n <= 0xffff,
    ensures
        match fields_at(b@, p as int, n as nat) {
            Some((size, e)) => r matches Some((s2, e2)) && s2 as nat == size && e2 as int == e,
            None => r is None,
        },
{
    let mut pos = p;
    let mut k: usize = 0;
    let mut acc: usize = 0;
    while k < n
        invariant
            k <= n <= 0xffff,
            acc <= 8 * k,
            pos <= b@.len() || k == 0,
            fields_at(b@, p as int, n as nat) == match fields_at(b@, pos as int, (n - k) as nat) {
                Some((size, e)) => Some(((acc + size) as nat, e)),
                None => None::<(nat, int)>,
            },
        decreases n - k,
    {
        if pos >= b.len() {
            return None;
        }
        let size = match prim_size_of(b[pos]) {
            Some(s) => s,
            None => return None,
        };
        let next = match read_utf(b, pos + 1) {
            Some((_, e)) => e,
            None => return None,
        };
        acc = acc + size;
        pos = next;
        k += 1;
    }
    Some((acc, pos))
}

fn read_string(b: &[u8], p: usize) -> (r: Option<(Vec<u8>, usize)>)
    ensures
        match string_at(b@, p as int) {
            Some((s, e)) => r matches Some((v, e2)) && v@ == s && e2 == e,
            None => r is None,
        },
{
    if p >= b.len() || b[p] != 0x74 {
        return None;
    }
    read_utf(b, p + 1)
}

fn read_entries(b: &[u8], p: usize, n: usize) -> (r: Option<(Vec<(Vec<u8>, Vec<u8>)>, usize)>)
    ensures
        match entries_at(b@, p as int, n as nat) {
            Some((es, e)) => r matches Some((v, e2)) && entry_models(v@) == es && e2 == e,
            None => r is None,
        },
{
    let mut out: Vec<(Vec<u8>, Vec<u8>)> = Vec::new();
    let mut pos = p;
    let mut k: usize = 0;
    while k < n
        invariant
            k <= n,
            entries_at(b@, p as int, n as nat) == match entries_at(b@, pos as int, (n - k) as nat) {
                Some((rest, e)) => Some((entry_models(out@) + rest, e)),
                None => None::<(Seq<(Seq<u8>, Seq<u8>)>, int)>,
            },
        decreases n - k,
    {
        let (key, p1) = match read_string(b, pos) {
            Some(x) => x,
            None => return None,
        };
        let (value, p2) = match read_string(b, p1) {
            Some(x) => x,
            None => return None,
        };
        let ghost before = entry_models(out@);
        out.push((key, value));
        proof {
            assert(entry_models(out@) =~= before.push((key@, value@)));
            match entries_at(b@, p2 as int, (n - k - 1) as nat) {
                Some((rest, e)) => {
                    assert(before + (seq![(key@, value@)] + rest) =~= entry_models(out@) + rest);
                },
                None => {},
            }
        }
        pos = p2;
        k += 1;
    }
    assert(entry_models(out@) + Seq::<(Seq<u8>, Seq<u8>)>::empty() =~= entry_models(out@));
    Some((out, pos))
}

fn distinct_keys(es: &Vec<(Vec<u8>, Vec<u8>)>) -> (r: bool)
    ensures
        r == keys_distinct(entry_models(es@)),
{
    let ghost m = entry_models(es@);
    let mut j: usize = 0;
    while j < es.len()
        invariant
            j <= es@.len(),
            m == entry_models(es@),
            forall|x: int, y: int| 0 <= x < y < j ==> m[x].0 != m[y].0,
        decreases es@.len() - j,
    {
        let mut i: usize = 0;
        while i < j
            invariant
                i <= j < es@.len(),
                m == entry_models(es@),
                forall|x: int, y: int| 0 <= x < y < j ==> m[x].0 != m[y].0,
                forall|x: int| 0 <= x < i ==> m[x].0 != m[j as int].0,
            decreases j - i,
        {
            if bytes_equal(es[i].0.as_slice(), es[j].0.as_slice()) {
                assert(m[i as int].0 == m[j as int].0);
                return false;
            }
            i += 1;
        }
        j += 1;
    }
    assert(keys_distinct(m));
    true
}

fn hash_map_name() -> (r: Vec<u8>)
    ensures
        r@ == hash_map_class(),
{
    let r: Vec<u8> = vec![106u8, 97, 118, 97, 46, 117, 116, 105, 108, 46, 72, 97, 115, 104, 77, 97, 112];
    assert(r@ =~= hash_map_class());
    r
}

/// Reads the entries of a serialized `java.util.HashMap` of strings, in
/// stream order; `None` for any stream of another shape.
pub fn read_java_map(b: &[u8]) -> (r: Option<Vec<(Vec<u8>, Vec<u8>)>>)
    ensures
        match java_map(b@) {
            Some(es) => r matches Some(v) && entry_models(v@) == es,
            None => r is None,
        },
{
    if !(b.len() >= 6 && b[0] == 0xac && b[1] == 0xed && b[2] == 0x00 && b[3] == 0x05 && b[4] == 0x73
        && b[5] == 0x72) {
        return None;
    }
    let (name, p) = match read_utf(b, 6) {
        Some(x) => x,
        None => return None,
    };
    let expected = hash_map_name();
    if !bytes_equal(name.as_slice(), expected.as_slice()) || p > b.len() || b.len() - p < 11 || b[p + 8]
        != 0x03 {
        return None;
    }
    let nfields = (b[p + 9] as usize) * 256 + (b[p + 10] as usize);
    assert(nfields == u16_at(b@, p + 9));
    let (size, q) = match read_fields(b, p + 11, nfields) {
        Some(x) => x,
        None => return None,
    };
    if q > b.len() || b.len() - q < 2 || b[q] != 0x78 || b[q + 1] != 0x70 || b.len() - q - 2 < size
        || b.len() - q - 2 - size < 10 {
        return None;
    }
    let r = q + 2 + size;
    if b[r] != 0x77 || b[r + 1] != 0x08 || b[r + 6] >= 0x80 {
        return None;
    }
    let count = (b[r + 6] as usize) * 0x1000000 + (b[r + 7] as usize) * 0x10000 + (b[r + 8] as usize)
        * 0x100 + (b[r + 9] as usize);
    assert(count == b@[r + 6] as int * 0x1000000 + b@[r + 7] as int * 0x10000 + b@[r + 8] as int
        * 0x100 + b@[r + 9] as int);
    let (es, end) = match read_entries(b, r + 10, count) {
        Some(x) => x,
        None => return None,
    };
    if end >= b.len() || end + 1 != b.len() || b[end] != 0x78 || !distinct_keys(&es) {
        return None;
    }
    Some(es)
}

} // verus!
