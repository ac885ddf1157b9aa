use vstd::prelude::*;
use vstd::string::{StrSliceExecFns, StringExecFns};

verus! {

/// The most records that one output chunk holds.
pub const CHUNK_SIZE: usize = 50;

/// Whether `b` cuts `n` records, in order, into chunks of at most `size`:
/// each chunk is a non-empty half-open range that starts where the previous
/// one ended, the first at 0 and the last at `n`; every chunk but the last
/// is full.
pub open spec fn is_chunking(n: nat, size: nat, b: Seq<(usize, usize)>) -> bool {
    &&& (n == 0 <==> b.len() == 0)
    &&& b.len() > 0 ==> b[0].0 == 0 && b.last().1 == n
    &&& forall|i: int| 0 <= i < b.len() ==> #[trigger] b[i].0 < b[i].1 && b[i].1 - b[i].0 <= size
    &&& forall|i: int| 0 <= i < b.len() - 1 ==> #[trigger] b[i].1 == b[i + 1].0 && b[i].1 - b[i].0 == size
}

/// The ranges of the chunks that `n` records are written in, `size` records
/// to a chunk, in order.
pub fn chunk_bounds(n: usize, size: usize) -> (r: Vec<(usize, usize)>)
    requires
        size > 0,
    ensures
        is_chunking(n as nat, size as nat, r@),
        forall|i: int| 0 <= i < r@.len() ==> #[trigger] r@[i].0 == i * size && r@[i].1 == (if (i + 1) * size < n {
            (i + 1) * size
        } else {
            n as int
        }),
{
    let mut r: Vec<(usize, usize)> = Vec::new();
    let mut start: usize = 0;
    while start < n
        invariant
            size > 0,
            start <= n,
            r@.len() > 0 && start < n ==> r@.last().1 - r@.last().0 == size,
            start < n ==> start == r@.len() * size,
            forall|i: int| 0 <= i < r@.len() ==> #[trigger] r@[i].0 == i * size && r@[i].1 == (if (i + 1) * size < n {
                (i + 1) * size
            } else {
                n as int
            }),
            r@.len() == 0 <==> start == 0,
            r@.len() > 0 ==> r@[0].0 == 0 && r@.last().1 == start,
            forall|i: int| 0 <= i < r@.len() ==> #[trigger] r@[i].0 < r@[i].1 && r@[i].1 - r@[i].0 <= size,
            forall|i: int| 0 <= i < r@.len() - 1 ==> #[trigger] r@[i].1 == r@[i + 1].0 && r@[i].1 - r@[i].0 == size,
        decreases n - start,
    {
        let end = if n - start > size { start + size } else { n };
        proof {
            let k = r@.len() as int;
            assert((k + 1) * size == k * size + size) by (nonlinear_arith);
        }
        r.push((start, end));
        start = end;
    }
    r
}

/// A character of an output name: path separators become underscores.
pub open spec fn safe_char(c: char) -> char {
    if c == '\\' || c == '/' {
        '_'
    } else {
        c
    }
}

/// An export name made safe as a file name: each path separator (`\` or `/`)
/// becomes `_`.
pub fn safe_name(export_name: &str) -> (r: String)
    ensures
        r@ == export_name@.map_values(|c: char| safe_char(c)),
{
    let n = export_name.unicode_len();
    let mut r = String::new();
    let mut i: usize = 0;
    proof {
        reveal_strlit("_");
    }
    while i < n
        invariant
            n == export_name@.len(),
            i <= n,
            r@ == export_name@.subrange(0, i as int).map_values(|c: char| safe_char(c)),
            "_"@ == seq!['_'],
        decreases n - i,
    {
        let c = export_name.get_char(i);
        if c == '\\' || c == '/' {
            r.append("_");
        } else {
            r.append(export_name.substring_char(i, i + 1));
        }
        proof {
            assert(export_name@.subrange(0, i + 1).map_values(|c: char| safe_char(c)) =~= export_name@.subrange(
                0,
                i as int,
            ).map_values(|c: char| safe_char(c)).push(safe_char(c)));
            assert(export_name@.subrange(i as int, i + 1) =~= seq![c]);
        }
        i = i + 1;
    }
    proof {
        assert(export_name@.subrange(0, n as int) =~= export_name@);
    }
    r
}

} // verus!
