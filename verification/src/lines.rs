use vstd::prelude::*;

verus! {

/// A line of a source file: the file's name and the line's index in it.
#[derive(Debug)]
pub struct LineKey {
    pub file: String,
    pub line: usize,
}

/// Whether two keys name one line of one file.
pub open spec fn same_line(a: LineKey, b: LineKey) -> bool {
    a.file@ == b.file@ && a.line == b.line
}

/// Whether the line at `i` stands in `keys` before `i` too.
pub open spec fn seen_before(keys: Seq<Option<LineKey>>, i: int) -> bool {
    exists|j: int|
        0 <= j < i && keys[j] is Some && keys[i] is Some && same_line(
            keys[j]->Some_0,
            keys[i]->Some_0,
        )
}

/// Whether the entry at `i` is printed: it names no line, or a line that no
/// earlier entry names.
pub open spec fn is_printed(keys: Seq<Option<LineKey>>, i: int) -> bool {
    keys[i] is None || !seen_before(keys, i)
}

/// The positions below `n` whose entries are printed, in ascending order.
pub open spec fn printed_upto(keys: Seq<Option<LineKey>>, n: nat) -> Seq<usize>
    decreases n,
{
    if n == 0 {
        Seq::empty()
    } else {
        let before = printed_upto(keys, (n - 1) as nat);
        if is_printed(keys, n - 1) {
            before.push((n - 1) as usize)
        } else {
            before
        }
    }
}

/// The positions of `keys` whose entries are printed, in ascending order.
pub open spec fn printed(keys: Seq<Option<LineKey>>) -> Seq<usize> {
    printed_upto(keys, keys.len())
}

/// What `printed_upto` holds: the positions below `n` that are printed, each
/// once, in ascending order.
pub proof fn lemma_printed_upto(keys: Seq<Option<LineKey>>, n: nat)
    requires
        n <= keys.len(),
        keys.len() <= usize::MAX,
    ensures
        forall|a: int|
            0 <= a < printed_upto(keys, n).len() ==> 0 <= #[trigger] printed_upto(keys, n)[a] < n
                && is_printed(keys, printed_upto(keys, n)[a] as int),
        forall|a: int, b: int|
            0 <= a < b < printed_upto(keys, n).len() ==> printed_upto(keys, n)[a]
                < printed_upto(keys, n)[b],
        forall|i: int|
            0 <= i < n && is_printed(keys, i) ==> printed_upto(keys, n).contains(i as usize),
    decreases n,
{
    if n > 0 {
        let before = printed_upto(keys, (n - 1) as nat);
        let now = printed_upto(keys, n);
        lemma_printed_upto(keys, (n - 1) as nat);
        assert forall|i: int| 0 <= i < n && is_printed(keys, i) implies now.contains(
            i as usize,
        ) by {
            if i < n - 1 {
                assert(before.contains(i as usize));
                let a = choose|a: int| 0 <= a < before.len() && before[a] == i as usize;
                assert(now[a] == i as usize);
            } else {
                assert(now[now.len() - 1] == i as usize);
            }
        }
    }
}

/// No line is printed twice: two printed positions that both name a line
/// name different lines.
pub proof fn lemma_printed_once(keys: Seq<Option<LineKey>>, a: int, b: int)
    requires
        keys.len() <= usize::MAX,
        0 <= a < printed(keys).len(),
        0 <= b < printed(keys).len(),
        a != b,
        keys[printed(keys)[a] as int] is Some,
        keys[printed(keys)[b] as int] is Some,
    ensures
        !same_line(
            keys[printed(keys)[a] as int]->Some_0,
            keys[printed(keys)[b] as int]->Some_0,
        ),
{
    lemma_printed_upto(keys, keys.len());
    let p = printed(keys);
    if a < b {
        assert(p[a] < p[b]);
        assert(is_printed(keys, p[b] as int));
    } else {
        assert(p[b] < p[a]);
        assert(is_printed(keys, p[a] as int));
    }
}

/// Every line is printed: each entry that names a line has a printed
/// position, at or before its own, that names the same line.
pub proof fn lemma_printed_all(keys: Seq<Option<LineKey>>, i: int)
    requires
        keys.len() <= usize::MAX,
        0 <= i < keys.len(),
        keys[i] is Some,
    ensures
        exists|a: int|
            0 <= a < printed(keys).len() && #[trigger] printed(keys)[a] <= i && keys[printed(
                keys,
            )[a] as int] is Some && same_line(
                keys[printed(keys)[a] as int]->Some_0,
                keys[i]->Some_0,
            ),
    decreases i,
{
    lemma_printed_upto(keys, keys.len());
    let p = printed(keys);
    if is_printed(keys, i) {
        assert(p.contains(i as usize));
        let a = choose|a: int| 0 <= a < p.len() && p[a] == i as usize;
        assert(p[a] <= i);
    } else {
        let j = choose|j: int|
            0 <= j < i && keys[j] is Some && keys[i] is Some && same_line(
                keys[j]->Some_0,
                keys[i]->Some_0,
            );
        lemma_printed_all(keys, j);
        let a = choose|a: int|
            0 <= a < p.len() && #[trigger] p[a] <= j && keys[p[a] as int] is Some && same_line(
                keys[p[a] as int]->Some_0,
                keys[j]->Some_0,
            );
        assert(p[a] <= i);
    }
}

/// Whether `keys` names the line of `key` below position `n`.
fn seen(keys: &Vec<Option<LineKey>>, n: usize, key: &LineKey) -> (r: bool)
    requires
        n <= keys@.len(),
    ensures
        r == exists|j: int| 0 <= j < n && keys@[j] is Some && same_line(keys@[j]->Some_0, *key),
{
    let mut j: usize = 0;
    while j < n
        invariant
            j <= n,
            n <= keys@.len(),
            forall|k: int| 0 <= k < j ==> !(keys@[k] is Some && same_line(keys@[k]->Some_0, *key)),
        decreases n - j,
    {
        match &keys[j] {
            Some(earlier) => {
                if earlier.line == key.line && earlier.file == key.file {
                    return true;
                }
            },
            None => {},
        }
        j += 1;
    }
    false
}

/// The positions of the entries to print, in ascending order. An entry names
/// the first line of a flagged span, or no line where the span has none.
/// Each line is printed once, where it comes first; an entry without a line
/// is printed every time.
pub fn distinct_lines(keys: &Vec<Option<LineKey>>) -> (positions: Vec<usize>)
    ensures
        positions@ == printed(keys@),
{
    let mut positions: Vec<usize> = Vec::new();
    let mut i: usize = 0;
    while i < keys.len()
        invariant
            i <= keys.len(),
            positions@ == printed_upto(keys@, i as nat),
        decreases keys.len() - i,
    {
        let print = match &keys[i] {
            None => true,
            Some(key) => !seen(keys, i, key),
        };
        if print {
            positions.push(i);
        }
        i += 1;
    }
    positions
}

} // verus!
