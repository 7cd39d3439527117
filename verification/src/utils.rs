//! Reading cache keys back into their parts.
use vstd::prelude::*;
use crate::constants::{colon, join, key1, key2, spec_channel_key, channel_key};
use crate::decimal::{decimal, lemma_decimal_has_no_colon};

verus! {

/// The parts of `s` between its `':'` separators, as `str::split(':')`
/// yields them: one more part than there are separators, empty parts kept.
pub open spec fn split_colon(s: Seq<char>) -> Seq<Seq<char>>
    decreases s.len(),
{
    if s.len() == 0 {
        seq![Seq::<char>::empty()]
    } else {
        let parts = split_colon(s.drop_last());
        if s.last() == ':' {
            parts.push(Seq::<char>::empty())
        } else {
            parts.update(parts.len() - 1, parts.last().push(s.last()))
        }
    }
}

pub proof fn lemma_split_nonempty(s: Seq<char>)
    ensures
        split_colon(s).len() >= 1,
    decreases s.len(),
{
    if s.len() > 0 {
        lemma_split_nonempty(s.drop_last());
    }
}

/// A text without `':'` is a single part.
pub proof fn lemma_split_no_colon(s: Seq<char>)
    requires
        !s.contains(':'),
    ensures
        split_colon(s) == seq![s],
    decreases s.len(),
{
    if s.len() == 0 {
        assert(s =~= Seq::<char>::empty());
        assert(split_colon(s) =~= seq![s]);
    } else {
        let t = s.drop_last();
        assert(!t.contains(':')) by {
            if t.contains(':') {
                let i = choose|i: int| 0 <= i < t.len() && t[i] == ':';
                assert(s[i] == ':');
            }
        }
        lemma_split_no_colon(t);
        assert(s.last() != ':') by {
            assert(s[s.len() - 1] == s.last());
        }
        assert(t.push(s.last()) =~= s);
        assert(seq![t].update(0, seq![t].last().push(s.last())) =~= seq![s]);
    }
}

/// Appending `':'` and a text without `':'` adds that text as a last part.
pub proof fn lemma_split_append(a: Seq<char>, b: Seq<char>)
    requires
        !b.contains(':'),
    ensures
        split_colon(a + colon() + b) == split_colon(a).push(b),
    decreases b.len(),
{
    if b.len() == 0 {
        let x = a + colon() + b;
        assert(x.drop_last() =~= a);
        assert(x.last() == ':');
        assert(b =~= Seq::<char>::empty());
    } else {
        let b0 = b.drop_last();
        assert(!b0.contains(':')) by {
            if b0.contains(':') {
                let i = choose|i: int| 0 <= i < b0.len() && b0[i] == ':';
                assert(b[i] == ':');
            }
        }
        lemma_split_append(a, b0);
        lemma_split_nonempty(a);
        assert((a + colon() + b).drop_last() =~= a + colon() + b0);
        assert((a + colon() + b).last() == b.last());
        assert(b.last() != ':') by {
            assert(b[b.len() - 1] == b.last());
        }
        assert(b0.push(b.last()) =~= b);
        let p = split_colon(a).push(b0);
        assert(p.len() - 1 == split_colon(a).len());
        assert(p.last() == b0);
        assert(p.update(p.len() - 1, p.last().push(b.last())) =~= split_colon(a).push(b));
    }
}

/// The parts of `kind:id`.
pub proof fn lemma_split_key1(kind: Seq<char>, id: u64)
    requires
        !kind.contains(':'),
    ensures
        split_colon(key1(kind, id)) == seq![kind, decimal(id as nat)],
{
    lemma_decimal_has_no_colon(id as nat);
    lemma_split_no_colon(kind);
    lemma_split_append(kind, decimal(id as nat));
    assert(seq![kind].push(decimal(id as nat)) =~= seq![kind, decimal(id as nat)]);
}

/// The parts of `kind:first:second`.
pub proof fn lemma_split_key2(kind: Seq<char>, first: u64, second: u64)
    requires
        !kind.contains(':'),
    ensures
        split_colon(key2(kind, first, second)) == seq![kind, decimal(first as nat), decimal(second as nat)],
{
    lemma_split_key1(kind, first);
    lemma_decimal_has_no_colon(second as nat);
    lemma_split_append(join(kind, decimal(first as nat)), decimal(second as nat));
    assert(seq![kind, decimal(first as nat)].push(decimal(second as nat))
        =~= seq![kind, decimal(first as nat), decimal(second as nat)]);
}

/// The parts of a cache key between its `':'` separators.
pub fn get_keys(key: &str) -> (parts: Vec<String>)
    ensures
        parts.deep_view() == split_colon(key@),
{
    let ghost s = key@;
    let len = key.unicode_len();
    let mut parts: Vec<String> = Vec::new();
    let mut start: usize = 0;
    let mut i: usize = 0;
    assert(s.take(0) =~= Seq::<char>::empty());
    assert(s.subrange(0, 0) =~= Seq::<char>::empty());
    assert(parts.deep_view().push(s.subrange(0, 0)) =~= seq![Seq::<char>::empty()]);
    while i < len
        invariant
            start <= i <= len,
            len == s.len(),
            key@ == s,
            split_colon(s.take(i as int)) == parts.deep_view().push(s.subrange(start as int, i as int)),
        decreases len - i,
    {
        let c = key.get_char(i);
        let ghost old_parts = parts.deep_view();
        assert(s.take(i + 1).drop_last() =~= s.take(i as int));
        assert(s.take(i + 1).last() == c);
        if c == ':' {
            let part = key.substring_char(start, i);
            parts.push(part.to_owned());
            proof {
                assert(parts.deep_view() =~= old_parts.push(s.subrange(start as int, i as int)));
                assert(s.subrange(i + 1, i + 1) =~= Seq::<char>::empty());
            }
            start = i + 1;
        } else {
            proof {
                assert(s.subrange(start as int, i + 1) =~= s.subrange(start as int, i as int).push(c));
                assert(old_parts.push(s.subrange(start as int, i as int)).update(
                    old_parts.len() as int,
                    s.subrange(start as int, i + 1),
                ) =~= old_parts.push(s.subrange(start as int, i + 1)));
            }
        }
        i = i + 1;
    }
    let last = key.substring_char(start, len);
    parts.push(last.to_owned());
    assert(s.take(len as int) =~= s);
    parts
}

/// The cache key of a channel: `channel:guild_id:channel_id` when it belongs
/// to a guild, `channel:channel_id` when it is private.
pub fn get_channel_key(guild: Option<u64>, channel: u64) -> (key: String)
    ensures
        key@ == spec_channel_key(guild, channel),
{
    channel_key(guild, channel)
}

} // verus!
