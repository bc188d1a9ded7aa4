use vstd::prelude::*;
use vstd::seq_lib::group_seq_properties;

verus! {

/// The position of the first occurrence of `d` in `s`, or `s.len()` when `d`
/// does not occur.
pub open spec fn first_index_of(s: Seq<char>, d: char) -> nat
    decreases s.len(),
{
    if s.len() == 0 {
        0
    } else if s[0] == d {
        0
    } else {
        1 + first_index_of(s.subrange(1, s.len() as int), d)
    }
}

proof fn lemma_first_index_of(s: Seq<char>, d: char)
    ensures
        first_index_of(s, d) <= s.len(),
        first_index_of(s, d) < s.len() ==> s[first_index_of(s, d) as int] == d,
        forall|k: int| 0 <= k < first_index_of(s, d) ==> s[k] != d,
    decreases s.len(),
{
    if s.len() == 0 {
    } else if s[0] == d {
    } else {
        let sub = s.subrange(1, s.len() as int);
        lemma_first_index_of(sub, d);
        assert forall|k: int| 0 <= k < first_index_of(s, d) implies s[k] != d by {
            if k > 0 {
                assert(s[k] == sub[k - 1]);
            }
        }
    }
}

/// `first_index_of` is pinned by its characteristic properties.
proof fn lemma_first_index_of_unique(s: Seq<char>, d: char, m: int)
    requires
        0 <= m <= s.len(),
        forall|k: int| 0 <= k < m ==> s[k] != d,
        m < s.len() ==> s[m] == d,
    ensures
        first_index_of(s, d) == m,
    decreases s.len(),
{
    if s.len() == 0 {
    } else if s[0] == d {
    } else {
        lemma_first_index_of_unique(s.subrange(1, s.len() as int), d, m - 1);
    }
}

/// Splitting `s` on the delimiter `d`: the pieces between occurrences of
/// `d`, in order, empty pieces included.
pub open spec fn split_chars(s: Seq<char>, d: char) -> Seq<Seq<char>>
    decreases s.len(),
{
    let i = first_index_of(s, d) as int;
    if i >= s.len() {
        seq![s]
    } else {
        seq![s.subrange(0, i)] + split_chars(s.subrange(i + 1, s.len() as int), d)
    }
}

/// The list-splitting rule of the collector: split on the delimiter and
/// discard the pieces that are exactly empty, keeping the split order.
pub open spec fn split_nonempty(s: Seq<char>, d: char) -> Seq<Seq<char>> {
    split_chars(s, d).filter(|p: Seq<char>| p.len() != 0)
}

/// The delimiter-joined form of an ordered list.
pub open spec fn join_chars(l: Seq<Seq<char>>, d: char) -> Seq<char>
    decreases l.len(),
{
    if l.len() == 0 {
        Seq::empty()
    } else if l.len() == 1 {
        l[0]
    } else {
        l[0] + seq![d] + join_chars(l.drop_first(), d)
    }
}

/// Every piece that list-splitting keeps is non-empty: empty pieces between
/// delimiters are always discarded.
pub proof fn lemma_split_pieces_nonempty(s: Seq<char>, d: char)
    ensures
        forall|i: int|
            0 <= i < split_nonempty(s, d).len() ==> #[trigger] split_nonempty(s, d)[i].len() != 0,
{
    broadcast use vstd::seq_lib::group_filter_ensures;

    let pred = |p: Seq<char>| p.len() != 0;
    assert forall|i: int| 0 <= i < split_nonempty(s, d).len() implies #[trigger] split_nonempty(
        s,
        d,
    )[i].len() != 0 by {
        assert(pred(split_chars(s, d).filter(pred)[i]));
    }
}

/// No piece of a split contains the delimiter.
pub proof fn lemma_split_pieces_delim_free(s: Seq<char>, d: char)
    ensures
        forall|i: int, k: int|
            0 <= i < split_chars(s, d).len() && 0 <= k < split_chars(s, d)[i].len()
                ==> #[trigger] split_chars(s, d)[i][k] != d,
    decreases s.len(),
{
    lemma_first_index_of(s, d);
    let fi = first_index_of(s, d) as int;
    if fi < s.len() {
        let rest = s.subrange(fi + 1, s.len() as int);
        lemma_split_pieces_delim_free(rest, d);
        assert forall|i: int, k: int|
            0 <= i < split_chars(s, d).len() && 0 <= k < split_chars(s, d)[i].len() implies #[trigger] split_chars(
            s,
            d,
        )[i][k] != d by {
            if i == 0 {
                assert(split_chars(s, d)[0] == s.subrange(0, fi));
                assert(s.subrange(0, fi)[k] == s[k]);
            } else {
                assert(split_chars(s, d)[i] == split_chars(rest, d)[i - 1]);
            }
        }
    } else {
        assert forall|i: int, k: int|
            0 <= i < split_chars(s, d).len() && 0 <= k < split_chars(s, d)[i].len() implies #[trigger] split_chars(
            s,
            d,
        )[i][k] != d by {
            assert(split_chars(s, d)[i] == s);
        }
    }
}

/// One step of the left-to-right scan: when the text between `start` and `i`
/// is delimiter-free and `i` sits on a delimiter (or at the end), splitting
/// the tail that starts at `start` yields the piece `[start, i)` (kept only
/// when non-empty) followed by the split of the tail that starts at `i + 1`.
proof fn lemma_split_step(s: Seq<char>, d: char, start: int, i: int)
    requires
        0 <= start <= i <= s.len(),
        forall|k: int| start <= k < i ==> s[k] != d,
        i < s.len() ==> s[i] == d,
    ensures
        i < s.len() ==> split_nonempty(s.subrange(start, s.len() as int), d) == (
        if i > start {
            seq![s.subrange(start, i)]
        } else {
            Seq::<Seq<char>>::empty()
        }) + split_nonempty(s.subrange(i + 1, s.len() as int), d),
        i == s.len() ==> split_nonempty(s.subrange(start, s.len() as int), d) == (
        if i > start {
            seq![s.subrange(start, i)]
        } else {
            Seq::<Seq<char>>::empty()
        }),
{
    let pred = |p: Seq<char>| p.len() != 0;
    let tail = s.subrange(start, s.len() as int);
    let piece = s.subrange(start, i);
    reveal_with_fuel(Seq::<Seq<char>>::filter, 3);
    if i < s.len() {
        lemma_first_index_of_unique(tail, d, i - start);
        assert(tail.subrange(0, i - start) =~= piece);
        assert(tail.subrange(i - start + 1, tail.len() as int) =~= s.subrange(
            i + 1,
            s.len() as int,
        ));
        assert(split_chars(tail, d) == seq![piece] + split_chars(
            s.subrange(i + 1, s.len() as int),
            d,
        ));
        Seq::filter_distributes_over_add(
            seq![piece],
            split_chars(s.subrange(i + 1, s.len() as int), d),
            pred,
        );
        assert(seq![piece].filter(pred) =~= (
        if i > start {
            seq![piece]
        } else {
            Seq::<Seq<char>>::empty()
        }));
    } else {
        lemma_first_index_of_unique(tail, d, tail.len() as int);
        assert(split_chars(tail, d) =~= seq![tail]);
        assert(tail =~= piece);
        assert(seq![piece].filter(pred) =~= (
        if i > start {
            seq![piece]
        } else {
            Seq::<Seq<char>>::empty()
        }));
    }
}

/// List-splitting is idempotent under re-parsing: re-splitting the
/// delimiter-joined form of an ordered list of non-empty, delimiter-free
/// elements yields the same ordered list.
pub proof fn lemma_split_join_roundtrip(l: Seq<Seq<char>>, d: char)
    requires
        forall|i: int| 0 <= i < l.len() ==> (#[trigger] l[i]).len() != 0,
        forall|i: int, k: int| 0 <= i < l.len() && 0 <= k < l[i].len() ==> #[trigger] l[i][k] != d,
    ensures
        split_nonempty(join_chars(l, d), d) == l,
    decreases l.len(),
{
    broadcast use vstd::seq_lib::group_filter_ensures;

    let pred = |p: Seq<char>| p.len() != 0;
    let j = join_chars(l, d);
    if l.len() == 0 {
        assert(j.len() == 0);
        lemma_first_index_of(j, d);
        assert(split_chars(j, d) =~= seq![j]);
        reveal_with_fuel(Seq::<Seq<char>>::filter, 3);
        assert(split_nonempty(j, d) =~= l);
    } else if l.len() == 1 {
        assert(j == l[0]);
        lemma_first_index_of_unique(j, d, j.len() as int);
        assert(split_chars(j, d) =~= seq![l[0]]);
        reveal_with_fuel(Seq::<Seq<char>>::filter, 3);
        assert(split_nonempty(j, d) =~= l);
    } else {
        let rest = join_chars(l.drop_first(), d);
        assert(j == l[0] + seq![d] + rest);
        let m = l[0].len() as int;
        assert forall|k: int| 0 <= k < m implies j[k] != d by {
            assert(j[k] == l[0][k]);
        }
        assert(j[m] == d);
        lemma_first_index_of_unique(j, d, m);
        assert(j.subrange(0, m) =~= l[0]);
        assert(j.subrange(m + 1, j.len() as int) =~= rest);
        assert(split_chars(j, d) == seq![l[0]] + split_chars(rest, d));
        assert forall|i: int| 0 <= i < l.drop_first().len() implies (#[trigger] l.drop_first()[i]).len()
            != 0 by {
            assert(l.drop_first()[i] == l[i + 1]);
        }
        assert forall|i: int, k: int|
            0 <= i < l.drop_first().len() && 0 <= k < l.drop_first()[i].len() implies #[trigger] l.drop_first()[i][k]
            != d by {
            assert(l.drop_first()[i] == l[i + 1]);
        }
        lemma_split_join_roundtrip(l.drop_first(), d);
        Seq::filter_distributes_over_add(seq![l[0]], split_chars(rest, d), pred);
        reveal_with_fuel(Seq::<Seq<char>>::filter, 3);
        assert(seq![l[0]].filter(pred) =~= seq![l[0]]);
        assert(split_nonempty(j, d) =~= seq![l[0]] + l.drop_first());
        assert(seq![l[0]] + l.drop_first() =~= l);
    }
}

/// Splits `input` on `delim`, discards the pieces that are exactly empty and
/// keeps the split order.
pub fn split_list(input: &str, delim: char) -> (r: Vec<String>)
    ensures
        r@.len() == split_nonempty(input@, delim).len(),
        forall|k: int| 0 <= k < r@.len() ==> (#[trigger] r@[k])@ == split_nonempty(input@, delim)[k],
{
    broadcast use group_seq_properties;
    broadcast use vstd::seq_lib::group_filter_ensures;

    let ghost pred = |p: Seq<char>| p.len() != 0;
    let n = input.unicode_len();
    let mut result: Vec<String> = Vec::new();
    let mut start: usize = 0;
    let mut i: usize = 0;
    proof {
        assert(input@.subrange(0, n as int) =~= input@);
    }
    while i < n
        invariant
            n == input@.len(),
            start <= i <= n,
            forall|k: int| start <= k < i ==> input@[k] != delim,
            forall|k: int|
                0 <= k < result@.len() ==> (#[trigger] result@[k])@ == split_nonempty(
                    input@,
                    delim,
                )[k],
            result@.len() + split_nonempty(input@.subrange(start as int, n as int), delim).len()
                == split_nonempty(input@, delim).len(),
            forall|k: int|
                0 <= k < split_nonempty(input@.subrange(start as int, n as int), delim).len()
                    ==> #[trigger] split_nonempty(input@.subrange(start as int, n as int), delim)[k]
                    == split_nonempty(input@, delim)[result@.len() + k],
        decreases n - i,
    {
        if input.get_char(i) == delim {
            proof {
                lemma_split_step(input@, delim, start as int, i as int);
            }
            let ghost old_len = result@.len() as int;
            let ghost old_tail_split = split_nonempty(
                input@.subrange(start as int, n as int),
                delim,
            );
            if i > start {
                let piece = input.substring_char(start, i);
                result.push(piece.to_owned());
            }
            proof {
                let c: int = if i > start {
                    1
                } else {
                    0
                };
                assert(result@.len() == old_len + c);
                if i > start {
                    assert(result@[old_len]@ == old_tail_split[0]);
                }
                let new_tail_split = split_nonempty(input@.subrange(i + 1, n as int), delim);
                assert(old_tail_split.len() == c + new_tail_split.len());
                assert forall|k: int| 0 <= k < new_tail_split.len() implies new_tail_split[k]
                    == split_nonempty(input@, delim)[result@.len() + k] by {
                    assert(old_tail_split[c + k] == new_tail_split[k]);
                }
            }
            start = i + 1;
        }
        i = i + 1;
    }
    // the last piece runs to the end of the input
    proof {
        lemma_split_step(input@, delim, start as int, n as int);
    }
    let ghost old_len = result@.len() as int;
    let ghost old_tail_split = split_nonempty(input@.subrange(start as int, n as int), delim);
    if n > start {
        let piece = input.substring_char(start, n);
        result.push(piece.to_owned());
        proof {
            assert(result@[old_len]@ == old_tail_split[0]);
        }
    }
    result
}

} // verus!
