//! Properties that relate several operations of the crate, stated and
//! proved over the same spec functions the operations' contracts use.

use crate::read::{spec_counts, spec_entries, spec_last_name_index};
use crate::reader::{le16_at, le32_at};
use crate::records::{
    eocd_candidate, eocd_search, eocd_window_low, spec_find_eocd,
    ZIP64_CENTRAL_DIRECTORY_END_LOCATOR_SIGNATURE,
};
use crate::result::FailKind;
use crate::types::EntryModel;
use vstd::prelude::*;

verus! {

/// An archive that opens has exactly as many entries as the trailer
/// declared: parsing `n` directory records, where it succeeds, yields `n`
/// entry models, so `len()` reports the declared count.
pub proof fn lemma_entry_count(s: Seq<u8>, p: int, n: nat, archive_offset: u64)
    requires
        spec_entries(s, p, n, archive_offset) is Ok,
    ensures
        spec_entries(s, p, n, archive_offset)->Ok_0.len() == n,
    decreases n,
{
    if n != 0 {
        lemma_entry_count(
            s,
            p + crate::read::cd_entry_size(s, p),
            (n - 1) as nat,
            archive_offset,
        );
    }
}

/// The name lookup resolves to the *last* entry carrying the name: the
/// index it yields holds the name and no later index does, and it yields
/// `None` only when no entry at all holds the name.  Earlier duplicates
/// stay reachable by their own indices through `by_index`.
pub proof fn lemma_duplicate_names_last_wins(entries: Seq<EntryModel>, name: Seq<char>)
    ensures
        match spec_last_name_index(entries, name) {
            Some(i) => 0 <= i < entries.len() && entries[i].file_name == name && forall|j: int|
                i < j < entries.len() ==> entries[j].file_name != name,
            None => forall|j: int| 0 <= j < entries.len() ==> entries[j].file_name != name,
        },
    decreases entries.len(),
{
    if entries.len() == 0 {
    } else if entries.last().file_name == name {
    } else {
        lemma_duplicate_names_last_wins(entries.drop_last(), name);
        assert(forall|j: int|
            0 <= j < entries.len() - 1 ==> entries[j] == entries.drop_last()[j]);
    }
}

/// A backward scan that reports a position found the highest candidate:
/// where `q` is a candidate and nothing above it up to `p` is, the scan
/// from `p` stops exactly at `q`.
pub proof fn lemma_eocd_search_finds(s: Seq<u8>, p: int, lo: int, q: int)
    requires
        lo <= q <= p,
        eocd_candidate(s, q),
        forall|x: int| q < x <= p ==> !eocd_candidate(s, x),
    ensures
        eocd_search(s, p, lo) == Some(q),
    decreases p - lo + 1,
{
    if p != q {
        lemma_eocd_search_finds(s, p - 1, lo, q);
    }
}

/// What a successful backward scan means: the reported position is a
/// candidate within the window and nothing above it is.
pub proof fn lemma_eocd_search_props(s: Seq<u8>, p: int, lo: int)
    requires
        eocd_search(s, p, lo) is Some,
    ensures
        ({
            let q = eocd_search(s, p, lo)->Some_0;
            &&& lo <= q <= p
            &&& eocd_candidate(s, q)
            &&& forall|x: int| q < x <= p ==> !eocd_candidate(s, x)
        }),
    decreases p - lo + 1,
{
    if p < lo {
    } else if eocd_candidate(s, p) {
    } else {
        lemma_eocd_search_props(s, p - 1, lo);
    }
}

/// Prepending arbitrary bytes to a self-consistent archive moves the
/// trailer search result by exactly the prepended amount, and the resolved
/// prepended-bytes offset equals that amount: `offset()` reports the exact
/// byte count of the junk in front of the container's true start.
///
/// `tail` is self-consistent in the classic sense: its trailer sits exactly
/// where its recorded directory size and offset place it, and no ZIP64
/// locator shape precedes the shifted trailer.
pub proof fn lemma_prepended_data_offset(junk: Seq<u8>, tail: Seq<u8>, p: int)
    requires
        junk.len() + tail.len() <= usize::MAX,
        spec_find_eocd(tail) == Some(p),
        p == le32_at(tail, p + 12) + le32_at(tail, p + 16),
        !(p + junk.len() >= 20 && le32_at(junk + tail, p + junk.len() - 20)
            == ZIP64_CENTRAL_DIRECTORY_END_LOCATOR_SIGNATURE),
    ensures
        spec_find_eocd(junk + tail) == Some(p + junk.len()),
        spec_counts(junk + tail, p + junk.len()) == Ok::<(u64, u64, u64), FailKind>(
            (
                junk.len() as u64,
                (le32_at(tail, p + 16) + junk.len()) as u64,
                le16_at(tail, p + 8) as u64,
            ),
        ),
{
    let s2 = junk + tail;
    let jl = junk.len() as int;
    assert(s2.len() == jl + tail.len());
    assert(forall|i: int| 0 <= i < tail.len() ==> s2[jl + i] == tail[i]);

    assert forall|q: int| 0 <= q <= tail.len() - 22 implies (eocd_candidate(s2, jl + q)
        <==> eocd_candidate(tail, q)) by {
        assert(s2[jl + q] == tail[q]);
        assert(s2[jl + q + 1] == tail[q + 1]);
        assert(s2[jl + q + 2] == tail[q + 2]);
        assert(s2[jl + q + 3] == tail[q + 3]);
        assert(s2[jl + q + 20] == tail[q + 20]);
        assert(s2[jl + q + 21] == tail[q + 21]);
    }

    // what the search in the tail alone found
    assert(tail.len() >= 22);
    lemma_eocd_search_props(tail, tail.len() - 22, eocd_window_low(tail));
    assert(eocd_candidate(tail, p));
    assert(eocd_candidate(s2, jl + p));

    // nothing above the shifted position is a candidate
    assert forall|x: int| jl + p < x <= s2.len() - 22 implies !eocd_candidate(s2, x) by {
        let q = x - jl;
        assert(p < q <= tail.len() - 22);
        assert(!eocd_candidate(tail, q));
        assert(eocd_candidate(s2, jl + q) <==> eocd_candidate(tail, q));
    }

    // the shifted position lies inside the window of the combined source
    assert(eocd_window_low(s2) <= jl + p);

    lemma_eocd_search_finds(s2, s2.len() - 22, eocd_window_low(s2), jl + p);
    assert(spec_find_eocd(s2) == Some(jl + p));

    // offset resolution: the classic branch, with the discrepancy equal to
    // the prepended amount
    let p2 = jl + p;
    assert(le32_at(s2, p2 + 12) == le32_at(tail, p + 12)) by {
        assert(s2[p2 + 12] == tail[p + 12]);
        assert(s2[p2 + 13] == tail[p + 13]);
        assert(s2[p2 + 14] == tail[p + 14]);
        assert(s2[p2 + 15] == tail[p + 15]);
    }
    assert(le32_at(s2, p2 + 16) == le32_at(tail, p + 16)) by {
        assert(s2[p2 + 16] == tail[p + 16]);
        assert(s2[p2 + 17] == tail[p + 17]);
        assert(s2[p2 + 18] == tail[p + 18]);
        assert(s2[p2 + 19] == tail[p + 19]);
    }
    assert(le16_at(s2, p2 + 8) == le16_at(tail, p + 8)) by {
        assert(s2[p2 + 8] == tail[p + 8]);
        assert(s2[p2 + 9] == tail[p + 9]);
    }
}

} // verus!

verus! {

/// Little-endian reads at positions shifted by a prepended block see the
/// same bytes.
pub proof fn lemma_le_shift(junk: Seq<u8>, tail: Seq<u8>, i: int)
    requires
        0 <= i,
    ensures
        i + 2 <= tail.len() ==> crate::reader::le16_at(junk + tail, junk.len() + i)
            == crate::reader::le16_at(tail, i),
        i + 4 <= tail.len() ==> crate::reader::le32_at(junk + tail, junk.len() + i)
            == crate::reader::le32_at(tail, i),
        i + 8 <= tail.len() ==> crate::reader::le64_at(junk + tail, junk.len() + i)
            == crate::reader::le64_at(tail, i),
{
    let s2 = junk + tail;
    let jl = junk.len() as int;
    assert(forall|k: int| 0 <= k < tail.len() ==> s2[jl + k] == tail[k]);
    if i + 8 <= tail.len() {
        assert(s2[jl + i + 4] == tail[i + 4]);
        assert(s2[jl + i + 5] == tail[i + 5]);
        assert(s2[jl + i + 6] == tail[i + 6]);
        assert(s2[jl + i + 7] == tail[i + 7]);
    }
    if i + 4 <= tail.len() {
        assert(s2[jl + i + 2] == tail[i + 2]);
        assert(s2[jl + i + 3] == tail[i + 3]);
    }
    if i + 2 <= tail.len() {
        assert(s2[jl + i] == tail[i]);
        assert(s2[jl + i + 1] == tail[i + 1]);
    }
}

/// Subranges at positions shifted by a prepended block are the same bytes.
pub proof fn lemma_subrange_shift(junk: Seq<u8>, tail: Seq<u8>, a: int, b: int)
    requires
        0 <= a <= b <= tail.len(),
    ensures
        (junk + tail).subrange(junk.len() + a, junk.len() + b) == tail.subrange(a, b),
{
    assert((junk + tail).subrange(junk.len() + a, junk.len() + b) =~= tail.subrange(a, b));
}

/// The entry model `m` with its header start moved by `off`.
pub open spec fn shift_entry(m: EntryModel, off: u64) -> EntryModel {
    EntryModel { header_start: (m.header_start + off) as u64, ..m }
}

/// One central-directory record parses the same under a prepended block,
/// with the block's length folded into the header start.
pub proof fn lemma_cd_entry_shift(junk: Seq<u8>, tail: Seq<u8>, q: int, off: u64)
    requires
        0 <= q,
        junk.len() == off,
        crate::read::spec_cd_entry(tail, q, 0) is Ok,
        crate::read::spec_cd_entry(tail, q, 0)->Ok_0.header_start + off <= u64::MAX,
    ensures
        crate::read::spec_cd_entry(junk + tail, junk.len() + q, off) == Ok::<
            EntryModel,
            FailKind,
        >(shift_entry(crate::read::spec_cd_entry(tail, q, 0)->Ok_0, off)),
        crate::read::cd_entry_size(junk + tail, junk.len() + q) == crate::read::cd_entry_size(
            tail,
            q,
        ),
{
    let s2 = junk + tail;
    let jl = junk.len() as int;
    lemma_le_shift(junk, tail, q);
    lemma_le_shift(junk, tail, q + 8);
    lemma_le_shift(junk, tail, q + 10);
    lemma_le_shift(junk, tail, q + 12);
    lemma_le_shift(junk, tail, q + 14);
    lemma_le_shift(junk, tail, q + 16);
    lemma_le_shift(junk, tail, q + 20);
    lemma_le_shift(junk, tail, q + 24);
    lemma_le_shift(junk, tail, q + 28);
    lemma_le_shift(junk, tail, q + 30);
    lemma_le_shift(junk, tail, q + 32);
    lemma_le_shift(junk, tail, q + 4);
    lemma_le_shift(junk, tail, q + 38);
    lemma_le_shift(junk, tail, q + 42);
    let nlen = le16_at(tail, q + 28);
    let elen = le16_at(tail, q + 30);
    let clen = le16_at(tail, q + 32);
    lemma_subrange_shift(junk, tail, q + 46, q + 46 + nlen);
    lemma_subrange_shift(junk, tail, q + 46 + nlen, q + 46 + nlen + elen);
    lemma_subrange_shift(junk, tail, q + 46 + nlen + elen, q + 46 + nlen + elen + clen);
    assert(crate::read::spec_cd_entry(s2, jl + q, off) matches Ok(m2) && m2 =~= shift_entry(
        crate::read::spec_cd_entry(tail, q, 0)->Ok_0,
        off,
    ));
}

/// A whole run of central-directory records parses the same under a
/// prepended block: the same entries come out, each with its header start
/// moved by exactly the block's length.
pub proof fn lemma_entries_shift(junk: Seq<u8>, tail: Seq<u8>, q: int, n: nat, off: u64)
    requires
        0 <= q,
        junk.len() == off,
        spec_entries(tail, q, n, 0) is Ok,
        forall|i: int| 0 <= i < spec_entries(tail, q, n, 0)->Ok_0.len() ==> spec_entries(
            tail,
            q,
            n,
            0,
        )->Ok_0[i].header_start + off <= u64::MAX,
    ensures
        spec_entries(junk + tail, junk.len() + q, n, off) == Ok::<Seq<EntryModel>, FailKind>(
            spec_entries(tail, q, n, 0)->Ok_0.map_values(|m: EntryModel| shift_entry(m, off)),
        ),
    decreases n,
{
    let ms = spec_entries(tail, q, n, 0)->Ok_0;
    if n == 0 {
        assert(ms.map_values(|m: EntryModel| shift_entry(m, off)) =~= Seq::<EntryModel>::empty());
    } else {
        let m0 = crate::read::spec_cd_entry(tail, q, 0)->Ok_0;
        let q1 = q + crate::read::cd_entry_size(tail, q);
        let rest = spec_entries(tail, q1, (n - 1) as nat, 0)->Ok_0;
        assert(ms == seq![m0] + rest);
        assert(ms[0] == m0);
        assert(forall|i: int| 0 <= i < rest.len() ==> rest[i] == ms[i + 1]);
        lemma_cd_entry_shift(junk, tail, q, off);
        lemma_entries_shift(junk, tail, q1, (n - 1) as nat, off);
        assert(seq![shift_entry(m0, off)] + rest.map_values(
            |m: EntryModel| shift_entry(m, off),
        ) =~= ms.map_values(|m: EntryModel| shift_entry(m, off)));
    }
}

} // verus!

verus! {

/// The full prepended-data property: prepending arbitrary bytes to a
/// self-consistent archive yields an archive that still opens, whose
/// resolved offset is exactly the prepended byte count, whose comment is
/// unchanged, and whose entries are the same ones with each header start
/// moved by exactly that count — so every entry still resolves correctly.
///
/// `tail` is self-consistent in the classic sense: its trailer sits exactly
/// where its recorded directory size and offset place it, it carries no
/// ZIP64 locator, and no locator shape arises in front of the shifted
/// trailer either.
#[verifier::rlimit(100)]
pub proof fn lemma_prepended_archive(junk: Seq<u8>, tail: Seq<u8>, p: int)
    requires
        junk.len() + tail.len() <= usize::MAX,
        spec_find_eocd(tail) == Some(p),
        p == le32_at(tail, p + 12) + le32_at(tail, p + 16),
        !(p >= 20 && le32_at(tail, p - 20) == ZIP64_CENTRAL_DIRECTORY_END_LOCATOR_SIGNATURE),
        !(p + junk.len() >= 20 && le32_at(junk + tail, p + junk.len() - 20)
            == ZIP64_CENTRAL_DIRECTORY_END_LOCATOR_SIGNATURE),
        crate::read::spec_open(tail) is Ok,
        forall|i: int| 0 <= i < crate::read::spec_open(tail)->Ok_0.0.len() ==> crate::read::spec_open(
            tail,
        )->Ok_0.0[i].header_start + junk.len() <= u64::MAX,
    ensures
        crate::read::spec_open(junk + tail) matches Ok(t2) && {
            let t1 = crate::read::spec_open(tail)->Ok_0;
            &&& t2.1 == junk.len() as u64
            &&& t2.0 == t1.0.map_values(|m: EntryModel| shift_entry(m, junk.len() as u64))
            &&& t2.2 == t1.2
        },
{
    let s2 = junk + tail;
    let jl = junk.len() as int;
    let off = junk.len() as u64;
    let t1 = crate::read::spec_open(tail)->Ok_0;

    // the trailer record is a candidate: it lies fully inside the tail
    lemma_eocd_search_props(tail, tail.len() - 22, eocd_window_low(tail));
    assert(eocd_candidate(tail, p));

    lemma_prepended_data_offset(junk, tail, p);

    // the single-disk check reads the same two fields on both sides
    lemma_le_shift(junk, tail, p + 4);
    lemma_le_shift(junk, tail, p + 6);

    // the tail resolves classically with a zero offset
    let cds = le32_at(tail, p + 12);
    let cdo = le32_at(tail, p + 16);
    let n = le16_at(tail, p + 8);
    assert(spec_counts(tail, p) == Ok::<(u64, u64, u64), FailKind>(
        (0u64, cdo as u64, n as u64),
    ));
    assert(spec_entries(tail, cdo, n as nat, 0) is Ok);

    // the entries parse the same, shifted
    let ms = spec_entries(tail, cdo, n as nat, 0)->Ok_0;
    assert(ms == t1.0);
    assert forall|i: int| 0 <= i < ms.len() implies ms[i].header_start + off <= u64::MAX by {
        assert(t1.0[i].header_start + junk.len() <= u64::MAX);
    }
    lemma_entries_shift(junk, tail, cdo, n as nat, off);
    assert(spec_entries(s2, jl + cdo, n as nat, off) == Ok::<Seq<EntryModel>, FailKind>(
        ms.map_values(|m: EntryModel| shift_entry(m, off)),
    ));

    // the comment is the same bytes
    lemma_subrange_shift(junk, tail, p + 22, tail.len() as int);

    // walk the open pipeline of the combined source
    let p2 = jl + p;
    assert(spec_find_eocd(s2) == Some(p2));
    assert(le16_at(s2, p2 + 4) == le16_at(s2, p2 + 6));
    assert(spec_counts(s2, p2) == Ok::<(u64, u64, u64), FailKind>(
        (off, (cdo + jl) as u64, n as u64),
    ));
    assert(spec_entries(s2, jl + cdo, n as nat, off) == Ok::<Seq<EntryModel>, FailKind>(
        ms.map_values(|m: EntryModel| shift_entry(m, off)),
    ));
    let t2 = crate::read::spec_open(s2)->Ok_0;
    assert(t2.2 == t1.2);
    assert(t2.0 =~= t1.0.map_values(|m: EntryModel| shift_entry(m, junk.len() as u64)));
}

} // verus!

verus! {

/// Opening an entry against the prepended source behaves the same: the
/// resolved data start moves by exactly the prepended amount, and the raw
/// compressed bytes it delimits are the very same bytes.  Together with
/// `lemma_prepended_archive` and the handle contracts — whose content is a
/// function of those raw bytes alone — draining any entry of the prepended
/// archive yields the same bytes as draining it in the bare one.
pub proof fn lemma_open_entry_shift(junk: Seq<u8>, tail: Seq<u8>, m: EntryModel, off: u64)
    requires
        junk.len() == off,
        crate::read::spec_open_entry(tail, m) is Ok,
        m.header_start + off <= u64::MAX,
        crate::read::spec_open_entry(tail, m)->Ok_0.0 + off <= u64::MAX,
    ensures
        ({
            let t1 = crate::read::spec_open_entry(tail, m)->Ok_0;
            &&& crate::read::spec_open_entry(junk + tail, shift_entry(m, off)) matches Ok(t2) && {
                &&& t2.0 == t1.0 + off
                &&& t2.1 == t1.1 + junk.len()
                &&& t2.2 == t1.2 + junk.len()
                &&& (junk + tail).subrange(t2.1, t2.2) == tail.subrange(t1.1, t1.2)
            }
        }),
{
    let s2 = junk + tail;
    let jl = junk.len() as int;
    let hs = m.header_start as int;
    lemma_le_shift(junk, tail, hs);
    lemma_le_shift(junk, tail, hs + 26);
    lemma_le_shift(junk, tail, hs + 28);
    let t1 = crate::read::spec_open_entry(tail, m)->Ok_0;
    lemma_subrange_shift(junk, tail, t1.1, t1.2);
}

} // verus!

verus! {

/// A well-formed sequential layout: `k` complete local records sit back to
/// back from `p` — none encrypted, none declaring a data descriptor, each
/// method supported, each followed by exactly its declared compressed
/// bytes — and the central directory begins right after the last one.
pub open spec fn stream_layout(s: Seq<u8>, p: int, k: nat) -> bool
    decreases k,
{
    if k == 0 {
        &&& p + 4 <= s.len()
        &&& le32_at(s, p) == crate::records::CENTRAL_DIRECTORY_HEADER_SIGNATURE
    } else {
        &&& 0 <= p
        &&& p + 30 <= s.len()
        &&& le32_at(s, p) == crate::records::LOCAL_FILE_HEADER_SIGNATURE
        &&& le16_at(s, p + 6) % 2 == 0
        &&& (le16_at(s, p + 6) / 8) % 2 == 0
        &&& crate::compression::is_supported_method(
            crate::compression::spec_method_from_u16(le16_at(s, p + 8) as u16),
        )
        &&& ({
            let nlen = le16_at(s, p + 26);
            let elen = le16_at(s, p + 28);
            let lo = p + 30 + nlen + elen;
            let scan = crate::extra::ef_scan(
                s.subrange(p + 30 + nlen, lo),
                0,
                le32_at(s, p + 22) as u64,
                le32_at(s, p + 18) as u64,
                0,
            );
            &&& lo + scan.1 <= s.len()
            &&& stream_layout(s, lo + scan.1, (k - 1) as nat)
        })
    }
}

/// One step of the sequential traversal of a well-formed layout: with `k`
/// entries left it hands out the entry at `p` and stops exactly at the next
/// record, which again carries a well-formed layout of `k - 1` entries;
/// with none left it reports the end of the entries, not an error.
/// Applied repeatedly — the reader's contract moves the position to exactly
/// the bound this lemma speaks of — the traversal yields one handle per
/// entry, front to back, and then exactly one such end signal.
pub proof fn lemma_streaming_traversal(s: Seq<u8>, p: int, k: nat)
    requires
        stream_layout(s, p, k),
    ensures
        k == 0 ==> crate::read::spec_stream_entry(s, p) == Ok::<
            Option<(EntryModel, int, int)>,
            FailKind,
        >(None),
        k > 0 ==> (crate::read::spec_stream_entry(s, p) matches Ok(Some(t)) && {
            &&& t.1 > p
            &&& t.2 >= t.1
            &&& stream_layout(s, t.2, (k - 1) as nat)
        }),
{
}

} // verus!
