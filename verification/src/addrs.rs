//! The list handling around the configured bind addresses: collapsing
//! adjacent duplicates after parsing, and folding in addresses from
//! the older environment variables while dropping the then-redundant
//! default. Reading the environment and parsing the text stays
//! outside this crate; these functions take the parsed addresses.

use vstd::prelude::*;

use crate::peer::PeerAddr;

verus! {

/// `s` with every run of equal adjacent elements collapsed to one:
/// what `Vec::dedup` leaves behind.
pub open spec fn dedup_adjacent(s: Seq<PeerAddr>) -> Seq<PeerAddr>
    decreases s.len(),
{
    if s.len() <= 1 {
        s
    } else if s[s.len() - 2] == s.last() {
        dedup_adjacent(s.drop_last())
    } else {
        dedup_adjacent(s.drop_last()).push(s.last())
    }
}

/// A non-empty list keeps its last element through deduplication.
proof fn lemma_dedup_adjacent_last(s: Seq<PeerAddr>)
    requires
        s.len() >= 1,
    ensures
        dedup_adjacent(s).len() >= 1,
        dedup_adjacent(s).last() == s.last(),
    decreases s.len(),
{
    if s.len() > 1 && s[s.len() - 2] == s.last() {
        lemma_dedup_adjacent_last(s.drop_last());
        assert(s.drop_last().last() == s[s.len() - 2]);
    }
}

/// Collapses adjacent duplicate addresses in place, keeping the first
/// of each run.
pub fn dedup_addrs(addrs: &mut Vec<PeerAddr>)
    ensures
        final(addrs)@ == dedup_adjacent(old(addrs)@),
{
    let n = addrs.len();
    let mut out: Vec<PeerAddr> = Vec::new();
    let mut i: usize = 0;
    while i < n
        invariant
            addrs@ == old(addrs)@,
            n == addrs@.len(),
            0 <= i <= n,
            out@ == dedup_adjacent(addrs@.take(i as int)),
        decreases n - i,
    {
        let ghost prefix = addrs@.take(i as int);
        proof {
            assert(addrs@.take(i + 1).drop_last() =~= prefix);
            assert(addrs@.take(i + 1).last() == addrs@[i as int]);
            if i > 0 {
                lemma_dedup_adjacent_last(prefix);
                assert(prefix.last() == addrs@[i - 1]);
            }
        }
        let keep: bool = if out.len() == 0 {
            true
        } else {
            out[out.len() - 1] != addrs[i]
        };
        if keep {
            out.push(addrs[i]);
        }
        i += 1;
    }
    proof {
        assert(addrs@.take(n as int) =~= addrs@);
    }
    *addrs = out;
}

/// The address list after the environment addresses are folded in:
/// they are appended, and if more than one address results the list's
/// head — the still-standing default — is dropped and adjacent
/// duplicates are collapsed.
pub open spec fn enriched(addrs: Seq<PeerAddr>, extra: Seq<PeerAddr>) -> Seq<PeerAddr> {
    let all = addrs + extra;
    if all.len() > 1 {
        dedup_adjacent(all.drop_first())
    } else {
        all
    }
}

/// Folds the addresses read from the compatibility environment
/// variables into the configured list, as [`enriched`] describes.
pub fn enrich_with_env_addrs(addrs: &mut Vec<PeerAddr>, extra: &Vec<PeerAddr>)
    ensures
        final(addrs)@ == enriched(old(addrs)@, extra@),
{
    let m = extra.len();
    let mut k: usize = 0;
    while k < m
        invariant
            m == extra@.len(),
            0 <= k <= m,
            addrs@ == old(addrs)@ + extra@.take(k as int),
        decreases m - k,
    {
        proof {
            assert((old(addrs)@ + extra@.take(k as int)).push(extra@[k as int]) =~= old(addrs)@
                + extra@.take(k + 1));
        }
        addrs.push(extra[k]);
        k += 1;
    }
    proof {
        assert(old(addrs)@ + extra@.take(m as int) =~= old(addrs)@ + extra@);
    }
    if addrs.len() > 1 {
        let ghost all = addrs@;
        addrs.remove(0);
        proof {
            assert(all.remove(0) =~= all.drop_first());
        }
        dedup_addrs(addrs);
    }
}

/// Collapses adjacent duplicates in the freshly parsed list and says
/// whether it still holds nothing but the default bind address — the
/// one case in which the compatibility environment variables are
/// consulted at all.
pub fn normalize_parsed_addrs(addrs: &mut Vec<PeerAddr>) -> (still_default: bool)
    ensures
        final(addrs)@ == dedup_adjacent(old(addrs)@),
        still_default == (final(addrs)@.len() == 1 && final(addrs)@[0].spec_is_default_bind()),
{
    dedup_addrs(addrs);
    if addrs.len() == 1 {
        addrs[0].is_default_bind()
    } else {
        false
    }
}

} // verus!
