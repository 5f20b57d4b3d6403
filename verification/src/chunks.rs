//! Cutting a list into parts of a fixed size.
use crate::text::basic::texts;
use vstd::prelude::*;

verus! {

/// The parts of `s`, each of `n` elements, the last of at most `n`.
pub open spec fn chunked<T>(s: Seq<T>, n: nat) -> Seq<Seq<T>>
    decreases s.len(),
{
    if s.len() == 0 || n == 0 {
        Seq::empty()
    } else if s.len() <= n {
        seq![s]
    } else {
        seq![s.take(n as int)] + chunked(s.skip(n as int), n)
    }
}

/// The elements of all the parts, in order.
pub open spec fn flat<T>(parts: Seq<Seq<T>>) -> Seq<T>
    decreases parts.len(),
{
    if parts.len() == 0 {
        Seq::empty()
    } else {
        parts[0] + flat(parts.drop_first())
    }
}

/// The lists of numbers of a list.
pub open spec fn id_lists(v: Seq<Vec<i64>>) -> Seq<Seq<i64>> {
    v.map_values(|c: Vec<i64>| c@)
}

/// The lists of texts of a list.
pub open spec fn text_lists(v: Seq<Vec<String>>) -> Seq<Seq<Seq<char>>> {
    v.map_values(|c: Vec<String>| texts(c@))
}

/// Cuts a list of numbers into parts of `n`.
pub fn chunk_ids(ids: &Vec<i64>, n: usize) -> (r: Vec<Vec<i64>>)
    requires
        n > 0,
    ensures
        id_lists(r@) == chunked(ids@, n as nat),
{
    let len = ids.len();
    let mut out: Vec<Vec<i64>> = Vec::new();
    let mut i: usize = 0;
    assert(ids@.skip(0) == ids@);
    assert(id_lists(out@) + chunked(ids@, n as nat) =~= chunked(ids@, n as nat));
    while i < len
        invariant
            i <= len,
            len == ids@.len(),
            n > 0,
            id_lists(out@) + chunked(ids@.skip(i as int), n as nat) == chunked(ids@, n as nat),
        decreases len - i,
    {
        let ghost rest = ids@.skip(i as int);
        let end: usize = if len - i > n {
            i + n
        } else {
            len
        };
        let mut part: Vec<i64> = Vec::new();
        let mut k: usize = i;
        while k < end
            invariant
                i <= k <= end <= ids@.len(),
                part@ == ids@.subrange(i as int, k as int),
            decreases end - k,
        {
            part.push(ids[k]);
            k += 1;
        }
        let ghost was = id_lists(out@);
        assert(rest.skip(end - i) == ids@.skip(end as int));
        assert(part@ == rest.take(end - i));
        assert(rest.len() <= n ==> rest.take(end - i) == rest);
        out.push(part);
        assert(id_lists(out@) =~= was.push(part@));
        assert(id_lists(out@) + chunked(ids@.skip(end as int), n as nat) =~= was + chunked(
            rest,
            n as nat,
        ));
        i = end;
    }
    assert(id_lists(out@) + chunked(ids@.skip(len as int), n as nat) =~= id_lists(out@));
    out
}

/// Cuts a list of texts into parts of `n`.
pub fn chunk_texts(list: &Vec<String>, n: usize) -> (r: Vec<Vec<String>>)
    requires
        n > 0,
    ensures
        text_lists(r@) == chunked(texts(list@), n as nat),
{
    let len = list.len();
    let ghost all = texts(list@);
    let mut out: Vec<Vec<String>> = Vec::new();
    let mut i: usize = 0;
    assert(all.skip(0) == all);
    assert(text_lists(out@) + chunked(all, n as nat) =~= chunked(all, n as nat));
    while i < len
        invariant
            i <= len,
            len == list@.len(),
            all == texts(list@),
            n > 0,
            text_lists(out@) + chunked(all.skip(i as int), n as nat) == chunked(all, n as nat),
        decreases len - i,
    {
        let ghost rest = all.skip(i as int);
        let end: usize = if len - i > n {
            i + n
        } else {
            len
        };
        let mut part: Vec<String> = Vec::new();
        let mut k: usize = i;
        while k < end
            invariant
                i <= k <= end <= list@.len(),
                all == texts(list@),
                texts(part@) == all.subrange(i as int, k as int),
            decreases end - k,
        {
            let ghost before = texts(part@);
            part.push(list[k].clone());
            assert(texts(part@) =~= before.push(all[k as int]));
            k += 1;
        }
        let ghost was = text_lists(out@);
        assert(rest.skip(end - i) == all.skip(end as int));
        assert(texts(part@) == rest.take(end - i));
        assert(rest.len() <= n ==> rest.take(end - i) == rest);
        out.push(part);
        assert(text_lists(out@) =~= was.push(texts(part@)));
        assert(text_lists(out@) + chunked(all.skip(end as int), n as nat) =~= was + chunked(
            rest,
            n as nat,
        ));
        i = end;
    }
    assert(text_lists(out@) + chunked(all.skip(len as int), n as nat) =~= text_lists(out@));
    out
}

/// Nothing is lost, moved or repeated: the parts together are the list.
pub proof fn law_chunks_make_up_the_list<T>(s: Seq<T>, n: nat)
    requires
        n > 0,
    ensures
        flat(chunked(s, n)) == s,
    decreases s.len(),
{
    if s.len() == 0 {
    } else if s.len() <= n {
        let parts = chunked(s, n);
        assert(parts.drop_first() =~= Seq::<Seq<T>>::empty());
        assert(flat(parts.drop_first()) =~= Seq::<T>::empty());
        assert(parts[0] + flat(parts.drop_first()) =~= s);
    } else {
        let rest = chunked(s.skip(n as int), n);
        law_chunks_make_up_the_list(s.skip(n as int), n);
        assert(chunked(s, n).drop_first() =~= rest);
        assert(s.take(n as int) + s.skip(n as int) =~= s);
    }
}

/// No part is empty or longer than `n`, and only the last is shorter.
pub proof fn law_chunk_sizes<T>(s: Seq<T>, n: nat)
    requires
        n > 0,
    ensures
        forall|i: int|
            0 <= i < chunked(s, n).len() ==> 0 < (#[trigger] chunked(s, n)[i]).len() <= n,
        forall|i: int|
            0 <= i < chunked(s, n).len() - 1 ==> (#[trigger] chunked(s, n)[i]).len() == n,
    decreases s.len(),
{
    if s.len() > n {
        let rest = chunked(s.skip(n as int), n);
        law_chunk_sizes(s.skip(n as int), n);
        assert forall|i: int| 0 <= i < chunked(s, n).len() implies 0 < (#[trigger] chunked(
            s,
            n,
        )[i]).len() <= n && (i < chunked(s, n).len() - 1 ==> chunked(s, n)[i].len() == n) by {
            if i > 0 {
                assert(chunked(s, n)[i] == rest[i - 1]);
            }
        }
    }
}

} // verus!
