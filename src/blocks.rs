//! The block splitter: a model file is cut into blocks, one before the first
//! `HEADER` marker (when the file does not begin with one) and one from each
//! marker up to the next marker or the end of the file.

use vstd::prelude::*;
use crate::text::chars_of;

verus! {

/// The marker that opens a section: `HEADER`.
pub open spec fn header_token() -> Seq<char> {
    seq!['H', 'E', 'A', 'D', 'E', 'R']
}

/// Whether the marker occurs in `s` at position `i`.
pub open spec fn header_at(s: Seq<char>, i: int) -> bool {
    0 <= i && i + 6 <= s.len() && s.subrange(i, i + 6) == header_token()
}

/// The blocks of `s` from a block that opened at `start`, with the marker
/// looked for from `pos` on: each marker after `start` closes the open block
/// and opens the next one; the end of `s` closes the last.
pub open spec fn blocks_from(s: Seq<char>, start: int, pos: int) -> Seq<Seq<char>>
    decreases s.len() - pos,
{
    if pos >= s.len() {
        if start < s.len() {
            seq![s.subrange(start, s.len() as int)]
        } else {
            seq![]
        }
    } else if pos > start && header_at(s, pos) {
        seq![s.subrange(start, pos)] + blocks_from(s, pos, pos + 1)
    } else {
        blocks_from(s, start, pos + 1)
    }
}

/// The blocks of a whole input.
pub open spec fn split_model(s: Seq<char>) -> Seq<Seq<char>> {
    blocks_from(s, 0, 0)
}

/// The text of each block.
pub open spec fn block_texts(r: Seq<&str>) -> Seq<Seq<char>> {
    r.map_values(|b: &str| b@)
}

/// Two markers never overlap: no proper suffix of `HEADER` begins it.
proof fn lemma_markers_apart(s: Seq<char>, i: int, j: int)
    requires
        header_at(s, i),
        header_at(s, j),
        i < j,
    ensures
        i + 6 <= j,
{
    if j < i + 6 {
        assert(s.subrange(j, j + 6)[0] == s[j]);
        assert(s.subrange(i, i + 6)[j - i] == s[j]);
    }
}

/// Flattening a sequence with one more block in front.
proof fn lemma_flatten_prepend(a: Seq<char>, rest: Seq<Seq<char>>, k: int)
    requires
        0 <= k <= rest.len(),
    ensures
        (seq![a] + rest).flatten() == a + rest.flatten(),
        (seq![a] + rest).take(k + 1).flatten() == a + rest.take(k).flatten(),
{
    assert((seq![a] + rest).drop_first() =~= rest);
    assert((seq![a] + rest).take(k + 1).drop_first() =~= rest.take(k));
    assert((seq![a] + rest).take(k + 1).first() == a);
}

/// What holds of the blocks from any point of the scan.
proof fn lemma_blocks_from(s: Seq<char>, start: int, pos: int)
    requires
        0 <= start <= pos,
        start <= s.len(),
        forall|j: int| start < j < pos ==> !header_at(s, j),
    ensures
        blocks_from(s, start, pos).flatten() == s.subrange(start, s.len() as int),
        forall|k: int|
            0 <= k < blocks_from(s, start, pos).len() ==> #[trigger] blocks_from(
                s,
                start,
                pos,
            )[k].len() > 0,
        forall|k: int|
            0 < k < blocks_from(s, start, pos).len() ==> header_at(
                #[trigger] blocks_from(s, start, pos)[k],
                0,
            ),
        header_at(s, start) ==> blocks_from(s, start, pos).len() > 0 && header_at(
            blocks_from(s, start, pos)[0],
            0,
        ),
        forall|k: int, i: int|
            0 <= k < blocks_from(s, start, pos).len() && 0 < i ==> !#[trigger] header_at(blocks_from(s, start, pos)[k], i),
        forall|p: int|
            (p == start && start < s.len()) || (p >= pos && p > start && header_at(s, p))
                ==> exists|k: int|
                0 <= k < blocks_from(s, start, pos).len() && start + (#[trigger] blocks_from(
                    s,
                    start,
                    pos,
                ).take(k)).flatten().len() == p,
    decreases s.len() - pos,
{
    let bs = blocks_from(s, start, pos);
    if pos >= s.len() {
        if start < s.len() {
            let b = s.subrange(start, s.len() as int);
            lemma_flatten_prepend(b, seq![], 0);
            assert(seq![b] + Seq::<Seq<char>>::empty() =~= bs);
            assert forall|k: int, i: int| 0 <= k < bs.len() && 0 < i implies !#[trigger] header_at(bs[k], i) by {
                assert(bs[k] == b);
                if header_at(b, i) {
                    assert(s.subrange(start + i, start + i + 6) =~= b.subrange(i, i + 6));
                    assert(!header_at(s, start + i));
                }
            }
            assert forall|p: int|
                (p == start && start < s.len()) || (p >= pos && p > start && header_at(s, p))
                    implies exists|k: int|
                0 <= k < bs.len() && start + (#[trigger] bs.take(k)).flatten().len() == p by {
                assert(bs.take(0) =~= Seq::<Seq<char>>::empty());
                assert(start + bs.take(0).flatten().len() == p);
            }
            if header_at(s, start) {
                assert(b.subrange(0, 6) =~= s.subrange(start, start + 6));
            }
        } else {
            assert(s.subrange(start, s.len() as int) =~= Seq::<char>::empty());
        }
    } else if pos > start && header_at(s, pos) {
        let b = s.subrange(start, pos);
        let rest = blocks_from(s, pos, pos + 1);
        lemma_blocks_from(s, pos, pos + 1);
        lemma_flatten_prepend(b, rest, 0);
        assert(b + s.subrange(pos, s.len() as int) =~= s.subrange(start, s.len() as int));
        assert forall|k: int| 0 < k < bs.len() implies header_at(#[trigger] bs[k], 0) by {
            assert(bs[k] == rest[k - 1]);
            if k == 1 {
                assert(header_at(s, pos));
            }
        }
        if header_at(s, start) {
            lemma_markers_apart(s, start, pos);
            assert(b.subrange(0, 6) =~= s.subrange(start, start + 6));
        }
        assert forall|k: int, i: int| 0 <= k < bs.len() && 0 < i implies !#[trigger] header_at(bs[k], i) by {
            if k == 0 {
                assert(bs[k] == b);
                if header_at(b, i) {
                    assert(s.subrange(start + i, start + i + 6) =~= b.subrange(i, i + 6));
                    assert(!header_at(s, start + i));
                }
            } else {
                assert(bs[k] == rest[k - 1]);
            }
        }
        assert forall|p: int|
            (p == start && start < s.len()) || (p >= pos && p > start && header_at(s, p))
                implies exists|k: int|
            0 <= k < bs.len() && start + (#[trigger] bs.take(k)).flatten().len() == p by {
            if p == start {
                assert(bs.take(0) =~= Seq::<Seq<char>>::empty());
                assert(start + bs.take(0).flatten().len() == p);
            } else {
                let k2 = choose|k2: int|
                    0 <= k2 < rest.len() && pos + (#[trigger] rest.take(k2)).flatten().len() == p;
                lemma_flatten_prepend(b, rest, k2);
                assert(seq![b] + rest == bs);
                assert(start + bs.take(k2 + 1).flatten().len() == p);
            }
        }
    } else {
        lemma_blocks_from(s, start, pos + 1);
    }
}

/// Without a marker the scan never closes a block.
proof fn lemma_blocks_unmarked(s: Seq<char>, pos: int)
    requires
        0 <= pos,
        s.len() > 0,
        forall|i: int| !#[trigger] header_at(s, i),
    ensures
        blocks_from(s, 0, pos) == seq![s],
    decreases s.len() - pos,
{
    if pos >= s.len() {
        assert(s.subrange(0, s.len() as int) =~= s);
    } else {
        lemma_blocks_unmarked(s, pos + 1);
    }
}

/// Joining the blocks in order gives back the input exactly.
pub proof fn lemma_split_concat(s: Seq<char>)
    ensures
        split_model(s).flatten() == s,
{
    lemma_blocks_from(s, 0, 0);
    assert(s.subrange(0, s.len() as int) =~= s);
}

/// A non-empty input in which the marker does not occur is one block: the
/// whole input.
pub proof fn lemma_split_unmarked(s: Seq<char>)
    requires
        s.len() > 0,
        forall|i: int| !#[trigger] header_at(s, i),
    ensures
        split_model(s) == seq![s],
{
    lemma_blocks_unmarked(s, 0);
}

/// An input that begins with the marker has a first block that begins with it.
pub proof fn lemma_split_marker_first(s: Seq<char>)
    requires
        header_at(s, 0),
    ensures
        split_model(s).len() > 0,
        header_at(split_model(s)[0], 0),
{
    lemma_blocks_from(s, 0, 0);
}

/// Every occurrence of the marker opens a block, whatever text surrounds it:
/// no block is empty, every block but the first begins with the marker, no
/// block holds the marker past its first character, and each position of the
/// input where the marker occurs is where some block begins.
pub proof fn lemma_split_every_marker(s: Seq<char>)
    ensures
        forall|k: int| 0 <= k < split_model(s).len() ==> #[trigger] split_model(s)[k].len() > 0,
        forall|k: int| 0 < k < split_model(s).len() ==> header_at(#[trigger] split_model(s)[k], 0),
        forall|k: int, i: int|
            0 <= k < split_model(s).len() && 0 < i ==> !#[trigger] header_at(split_model(s)[k], i),
        forall|p: int|
            #[trigger] header_at(s, p) ==> exists|k: int|
                0 <= k < split_model(s).len() && (#[trigger] split_model(s).take(k)).flatten().len() == p,
{
    lemma_blocks_from(s, 0, 0);
    assert forall|p: int| #[trigger] header_at(s, p) implies exists|k: int|
        0 <= k < split_model(s).len() && (#[trigger] split_model(s).take(k)).flatten().len() == p by {
        let bs = blocks_from(s, 0, 0);
        assert((p == 0 && 0 < s.len()) || (p >= 0 && p > 0 && header_at(s, p)));
        let k = choose|k: int| 0 <= k < bs.len() && 0 + (#[trigger] bs.take(k)).flatten().len() == p;
        assert(split_model(s).take(k).flatten().len() == p);
    }
}

/// Executable `header_at`.
fn is_header_at(cs: &Vec<char>, i: usize) -> (b: bool)
    ensures
        b == header_at(cs@, i as int),
{
    if cs.len() < 6 || i > cs.len() - 6 {
        return false;
    }
    let b = cs[i] == 'H' && cs[i + 1] == 'E' && cs[i + 2] == 'A' && cs[i + 3] == 'D'
        && cs[i + 4] == 'E' && cs[i + 5] == 'R';
    if b {
        assert(cs@.subrange(i as int, i + 6) =~= header_token());
    } else {
        assert(cs@.subrange(i as int, i + 6) != header_token()) by {
            if cs@.subrange(i as int, i + 6) == header_token() {
                assert(cs@.subrange(i as int, i + 6)[0] == cs@[i as int]);
                assert(cs@.subrange(i as int, i + 6)[1] == cs@[i + 1]);
                assert(cs@.subrange(i as int, i + 6)[2] == cs@[i + 2]);
                assert(cs@.subrange(i as int, i + 6)[3] == cs@[i + 3]);
                assert(cs@.subrange(i as int, i + 6)[4] == cs@[i + 4]);
                assert(cs@.subrange(i as int, i + 6)[5] == cs@[i + 5]);
            }
        }
    }
    b
}

/// Cuts `input` into its blocks: the text before the first `HEADER` marker,
/// if any, then one block from each marker up to the next one or the end.
/// Every occurrence of the marker opens a block, wherever it stands.
pub fn split_blocks(input: &str) -> (r: Vec<&str>)
    ensures
        block_texts(r@) == split_model(input@),
        block_texts(r@).flatten() == input@,
{
    let cs = chars_of(input);
    let n = cs.len();
    let mut r: Vec<&str> = Vec::new();
    let mut start: usize = 0;
    let mut i: usize = 0;
    while i < n
        invariant
            cs@ == input@,
            n == cs.len(),
            start <= i <= n,
            split_model(input@) == block_texts(r@) + blocks_from(input@, start as int, i as int),
        decreases n - i,
    {
        if i > start && is_header_at(&cs, i) {
            let b = input.substring_char(start, i);
            proof {
                assert(block_texts(r@.push(b)) =~= block_texts(r@).push(b@));
                assert(block_texts(r@).push(b@) + blocks_from(input@, i as int, i + 1)
                    =~= block_texts(r@) + (seq![b@] + blocks_from(input@, i as int, i + 1)));
            }
            r.push(b);
            start = i;
        }
        i = i + 1;
    }
    if start < n {
        let b = input.substring_char(start, n);
        proof {
            assert(block_texts(r@.push(b)) =~= block_texts(r@).push(b@));
            assert(block_texts(r@).push(b@) =~= block_texts(r@) + blocks_from(input@, start as int, n as int));
        }
        r.push(b);
    } else {
        assert(block_texts(r@) =~= block_texts(r@) + blocks_from(input@, start as int, n as int));
    }
    proof {
        lemma_split_concat(input@);
    }
    r
}

} // verus!
