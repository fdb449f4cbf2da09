//! How deeply the documents inside a BSON buffer nest.
//!
//! The walk below follows the element layout that bson's raw reader uses:
//! each element's size comes from its type and length prefix, an embedded
//! document or array is the byte range its length prefix gives, and the scope
//! of a code-with-scope value follows its code string. Every document that the
//! reader enters is entered here too, in the same order. Where the bytes are
//! malformed the reader fails, and the walk stops.
use vstd::prelude::*;

verus! {

/// The most documents that may be open at once, the outermost included.
pub const MAX_BSON_DEPTH: usize = 200;

/// The little-endian 32-bit integer at `b[at..at + 4]`.
pub open spec fn le32(b: Seq<u8>, at: int) -> int {
    b[at] + 256 * b[at + 1] + 65536 * b[at + 2] + 16777216 * b[at + 3]
}

/// The first position from `i` on, before `de`, that holds a zero byte; `de`
/// if there is none.
pub open spec fn zero_from(b: Seq<u8>, i: int, de: int) -> int
    decreases de - i,
{
    if i >= de {
        de
    } else if b[i] == 0 {
        i
    } else {
        zero_from(b, i + 1, de)
    }
}

/// The size of a value of type `t` that has no length prefix.
pub open spec fn fixed_size(t: u8) -> Option<int> {
    if t == 1 || t == 9 || t == 17 || t == 18 {
        Some(8)
    } else if t == 16 {
        Some(4)
    } else if t == 7 {
        Some(12)
    } else if t == 19 {
        Some(16)
    } else if t == 8 {
        Some(1)
    } else if t == 6 || t == 10 || t == 255 || t == 127 {
        Some(0)
    } else {
        None
    }
}

/// The value of type `t` at `b[off..]`, inside a document ending at `de`: its
/// size, and where the elements of the document it holds start, if any.
pub open spec fn element_extent(b: Seq<u8>, t: u8, off: int, de: int) -> Option<(int, Option<int>)> {
    let r: Option<(int, Option<int>)> = if fixed_size(t) is Some {
        Some((fixed_size(t)->0, None))
    } else if t == 11 {
        let p1 = zero_from(b, off, de);
        let p2 = zero_from(b, p1 + 1, de);
        if p1 >= de || p2 >= de {
            None
        } else {
            Some((p2 + 1 - off, None))
        }
    } else if off + 4 > de {
        None
    } else {
        let l = le32(b, off);
        if l >= 0x80000000 {
            None
        } else if t == 2 || t == 13 || t == 14 {
            Some((l + 4, None))
        } else if t == 12 {
            Some((l + 16, None))
        } else if t == 5 {
            Some((l + 5, None))
        } else if t == 3 || t == 4 {
            if l >= 5 && off + l <= de && b[off + l - 1] == 0 {
                Some((l, Some(off + 4)))
            } else {
                None
            }
        } else if t == 15 {
            if off + 8 <= de && le32(b, off + 4) < 0x80000000 && 13 + le32(b, off + 4) <= l {
                Some((l, Some(off + 12 + le32(b, off + 4))))
            } else {
                Some((l, None))
            }
        } else {
            None
        }
    };
    match r {
        Some((size, _)) => if off + size <= de {
            r
        } else {
            None
        },
        None => None,
    }
}

/// Whether, walking on from the element at `pos` with the documents that end
/// at `ends` open, no more than `MAX_BSON_DEPTH` documents are ever open.
pub open spec fn nesting_from(b: Seq<u8>, pos: int, ends: Seq<usize>) -> bool
    decreases b.len() - pos,
{
    if ends.len() == 0 || pos < 0 {
        true
    } else {
        let de = ends.last() as int;
        if de > b.len() {
            true
        } else if pos + 1 == de {
            if b[pos] == 0 && ends.len() > 1 {
                nesting_from(b, de, ends.drop_last())
            } else {
                true
            }
        } else if pos + 1 > de {
            true
        } else {
            let k = zero_from(b, pos + 1, de);
            if k >= de {
                true
            } else {
                match element_extent(b, b[pos], k + 1, de) {
                    None => true,
                    Some((size, None)) => if pos < k + 1 + size <= b.len() {
                        nesting_from(b, k + 1 + size, ends)
                    } else {
                        true
                    },
                    Some((size, Some(cs))) => if ends.len() >= MAX_BSON_DEPTH {
                        false
                    } else if pos < cs < k + 1 + size <= b.len() {
                        nesting_from(b, cs, ends.push((k + 1 + size) as usize))
                    } else {
                        true
                    },
                }
            }
        }
    }
}

/// Whether the documents of the BSON buffer `b` nest at most
/// `MAX_BSON_DEPTH` deep.
pub open spec fn bson_nesting_ok(b: Seq<u8>) -> bool {
    b.len() < 5 || nesting_from(b, 4, seq![b.len() as usize])
}

fn read_le32(b: &[u8], at: usize) -> (r: u64)
    requires
        at + 4 <= b@.len(),
    ensures
        r as int == le32(b@, at as int),
        r < 0x100000000,
{
    b[at] as u64 + 256 * (b[at + 1] as u64) + 65536 * (b[at + 2] as u64) + 16777216 * (b[at + 3] as u64)
}

fn find_zero(b: &[u8], i: usize, de: usize) -> (r: usize)
    requires
        i <= de <= b@.len(),
    ensures
        r as int == zero_from(b@, i as int, de as int),
        i <= r <= de,
{
    let mut j: usize = i;
    while j < de && b[j] != 0
        invariant
            i <= j <= de <= b@.len(),
            zero_from(b@, i as int, de as int) == zero_from(b@, j as int, de as int),
        decreases de - j,
    {
        j = j + 1;
    }
    j
}

fn extent(b: &[u8], t: u8, off: usize, de: usize) -> (r: Option<(usize, Option<usize>)>)
    requires
        off <= de <= b@.len(),
    ensures
        match (r, element_extent(b@, t, off as int, de as int)) {
            (Some((size, c)), Some((ss, sc))) => size == ss && match (c, sc) {
                (Some(x), Some(y)) => x == y,
                (None, None) => true,
                _ => false,
            },
            (None, None) => true,
            _ => false,
        },
{
    let room: u64 = (de - off) as u64;
    let r: Option<(u64, Option<usize>)> = if t == 1 || t == 9 || t == 17 || t == 18 {
        Some((8, None))
    } else if t == 16 {
        Some((4, None))
    } else if t == 7 {
        Some((12, None))
    } else if t == 19 {
        Some((16, None))
    } else if t == 8 {
        Some((1, None))
    } else if t == 6 || t == 10 || t == 255 || t == 127 {
        Some((0, None))
    } else if t == 11 {
        let p1 = find_zero(b, off, de);
        if p1 >= de {
            None
        } else {
            let p2 = find_zero(b, p1 + 1, de);
            if p2 >= de {
                None
            } else {
                Some(((p2 + 1 - off) as u64, None))
            }
        }
    } else if room < 4 {
        None
    } else {
        let l = read_le32(b, off);
        if l >= 0x80000000 {
            None
        } else if t == 2 || t == 13 || t == 14 {
            Some((l + 4, None))
        } else if t == 12 {
            Some((l + 16, None))
        } else if t == 5 {
            Some((l + 5, None))
        } else if t == 3 || t == 4 {
            if l >= 5 && l <= room && b[off + l as usize - 1] == 0 {
                Some((l, Some(off + 4)))
            } else {
                None
            }
        } else if t == 15 {
            if room >= 8 {
                let sl = read_le32(b, off + 4);
                if sl < 0x80000000 && 13 + sl <= l && l <= room {
                    Some((l, Some(off + 12 + sl as usize)))
                } else {
                    Some((l, None))
                }
            } else {
                Some((l, None))
            }
        } else {
            None
        }
    };
    match r {
        Some((size, c)) => if size <= room {
            Some((size as usize, c))
        } else {
            None
        },
        None => None,
    }
}

/// Whether the documents of the BSON buffer `b` nest at most
/// `MAX_BSON_DEPTH` deep.
pub fn check_bson_nesting(b: &[u8]) -> (r: bool)
    ensures
        r == bson_nesting_ok(b@),
{
    if b.len() < 5 {
        return true;
    }
    let mut ends: Vec<usize> = Vec::new();
    ends.push(b.len());
    assert(ends@ =~= seq![b@.len() as usize]);
    let mut pos: usize = 4;
    loop
        invariant
            nesting_from(b@, pos as int, ends@) == bson_nesting_ok(b@),
            ends@.len() >= 1,
            pos <= b@.len(),
        decreases b@.len() - pos,
    {
        let de = ends[ends.len() - 1];
        if de > b.len() || pos >= de {
            return true;
        }
        if pos + 1 == de {
            if b[pos] == 0 && ends.len() > 1 {
                ends.pop();
                pos = de;
                continue;
            } else {
                return true;
            }
        }
        let k = find_zero(b, pos + 1, de);
        if k >= de {
            return true;
        }
        match extent(b, b[pos], k + 1, de) {
            None => {
                return true;
            },
            Some((size, None)) => {
                pos = k + 1 + size;
            },
            Some((size, Some(cs))) => {
                if ends.len() >= MAX_BSON_DEPTH {
                    return false;
                }
                if !(pos < cs && cs < k + 1 + size) {
                    return true;
                }
                ends.push(k + 1 + size);
                pos = cs;
            },
        }
    }
}

} // verus!
