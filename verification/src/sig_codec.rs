//! The storage-layer encoding of quorum signatures as relational rows: a
//! multi-signature stores one row per witness, while an aggregated BLS
//! signature stores a single row whose witness id carries a sentinel prefix
//! and the comma-joined signer ids. These functions convert between the two
//! forms at the seam, and the round trip is proved.

use vstd::prelude::*;

use crate::encoding::copy_bytes;
use crate::encoding::string_views;
use crate::signature_scheme::AttestationSignatures;
use crate::signature_scheme::rows_equiv;
use crate::types::WitnessSignature;

verus! {

/// The sentinel prefix that marks an aggregated-signature row.
pub open spec fn sentinel() -> Seq<char> {
    "BLS_AGGREGATED:"@
}

/// True when the string holds no comma.
pub open spec fn comma_free(s: Seq<char>) -> bool {
    forall|i: int| 0 <= i < s.len() ==> s[i] != ','
}

/// The ids joined with single commas.
pub open spec fn spec_join_ids(ids: Seq<Seq<char>>) -> Seq<char>
    decreases ids.len(),
{
    if ids.len() == 0 {
        Seq::empty()
    } else if ids.len() == 1 {
        ids[0]
    } else {
        ids[0] + seq![','] + spec_join_ids(ids.drop_first())
    }
}

/// The index of the first comma, or the length if there is none.
pub open spec fn first_comma(s: Seq<char>) -> int
    decreases s.len(),
{
    if s.len() == 0 {
        0
    } else if s[0] == ',' {
        0
    } else {
        1 + first_comma(s.drop_first())
    }
}

/// The string split at commas; splitting the empty string gives one empty
/// piece, as Rust's `split` does.
pub open spec fn spec_split_ids(s: Seq<char>) -> Seq<Seq<char>>
    decreases s.len(),
{
    let k = first_comma(s);
    if k == s.len() {
        seq![s]
    } else if 0 <= k < s.len() {
        seq![s.subrange(0, k)] + spec_split_ids(s.subrange(k + 1, s.len() as int))
    } else {
        seq![s]
    }
}

/// The first comma lies within the string, or at its end.
proof fn lemma_first_comma_range(s: Seq<char>)
    ensures
        0 <= first_comma(s) <= s.len(),
        first_comma(s) < s.len() ==> s[first_comma(s)] == ',',
        forall|j: int| 0 <= j < first_comma(s) ==> s[j] != ',',
    decreases s.len(),
{
    if s.len() == 0 {
    } else if s[0] == ',' {
    } else {
        lemma_first_comma_range(s.drop_first());
        assert forall|j: int| 0 <= j < first_comma(s) implies s[j] != ',' by {
            if j >= 1 {
                assert(s[j] == s.drop_first()[j - 1]);
            }
        }
    }
}

/// A comma-free prefix followed by a comma puts the first comma exactly at
/// the prefix's end.
proof fn lemma_first_comma_concat(a: Seq<char>, b: Seq<char>)
    requires
        comma_free(a),
    ensures
        first_comma(a + seq![','] + b) == a.len(),
    decreases a.len(),
{
    let s = a + seq![','] + b;
    if a.len() == 0 {
        assert(s[0] == ',');
    } else {
        assert(s[0] == a[0]);
        assert(s[0] != ',');
        lemma_first_comma_concat(a.drop_first(), b);
        assert(s.drop_first() =~= a.drop_first() + seq![','] + b);
    }
}

/// A comma-free string has no comma at all.
proof fn lemma_first_comma_free(s: Seq<char>)
    requires
        comma_free(s),
    ensures
        first_comma(s) == s.len(),
{
    lemma_first_comma_range(s);
    if first_comma(s) < s.len() {
        assert(s[first_comma(s)] == ',');
    }
}

/// Splitting a join of comma-free ids returns exactly those ids.
pub proof fn lemma_split_join_ids(ids: Seq<Seq<char>>)
    requires
        ids.len() >= 1,
        forall|i: int| 0 <= i < ids.len() ==> comma_free(#[trigger] ids[i]),
    ensures
        spec_split_ids(spec_join_ids(ids)) == ids,
    decreases ids.len(),
{
    if ids.len() == 1 {
        lemma_first_comma_free(ids[0]);
        assert(spec_join_ids(ids) == ids[0]);
        assert(spec_split_ids(ids[0]) =~= ids);
    } else {
        let rest = ids.drop_first();
        let joined = spec_join_ids(ids);
        assert(joined == ids[0] + seq![','] + spec_join_ids(rest));
        lemma_first_comma_concat(ids[0], spec_join_ids(rest));
        let k = first_comma(joined);
        assert(k == ids[0].len());
        assert(k < joined.len());
        assert(joined.subrange(0, k) =~= ids[0]);
        assert(joined.subrange(k + 1, joined.len() as int) =~= spec_join_ids(rest));
        assert forall|i: int| 0 <= i < rest.len() implies comma_free(#[trigger] rest[i]) by {
            assert(rest[i] == ids[i + 1]);
        }
        lemma_split_join_ids(rest);
        assert(spec_split_ids(joined) =~= seq![ids[0]] + rest);
        assert(seq![ids[0]] + rest =~= ids);
    }
}

/// Joining a further id appends a comma and the id.
proof fn lemma_join_snoc(ids: Seq<Seq<char>>, x: Seq<char>)
    requires
        ids.len() >= 1,
    ensures
        spec_join_ids(ids.push(x)) == spec_join_ids(ids) + seq![','] + x,
    decreases ids.len(),
{
    let snoc = ids.push(x);
    if ids.len() == 1 {
        assert(snoc.drop_first() =~= seq![x]);
        assert(spec_join_ids(snoc) == snoc[0] + seq![','] + spec_join_ids(snoc.drop_first()));
        assert(snoc[0] == ids[0]);
        assert(spec_join_ids(seq![x]) == x);
    } else {
        assert(snoc.drop_first() =~= ids.drop_first().push(x));
        lemma_join_snoc(ids.drop_first(), x);
        assert(spec_join_ids(snoc) == snoc[0] + seq![','] + spec_join_ids(ids.drop_first().push(x)));
        assert(snoc[0] == ids[0]);
        assert(ids[0] + seq![','] + (spec_join_ids(ids.drop_first()) + seq![','] + x) =~= (ids[0]
            + seq![','] + spec_join_ids(ids.drop_first())) + seq![','] + x);
    }
}

/// Joins signer ids with commas.
pub fn join_ids(ids: &Vec<String>) -> (r: String)
    requires
        ids@.len() >= 1,
    ensures
        r@ == spec_join_ids(string_views(ids@)),
{
    let ghost views = string_views(ids@);
    let n = ids.len();
    let mut acc: String = ids[0].clone();
    let mut i: usize = 1;
    assert(views.subrange(0, 1) =~= seq![views[0]]);
    assert(acc@ == spec_join_ids(views.subrange(0, 1)));
    while i < n
        invariant
            n == views.len(),
            views == string_views(ids@),
            1 <= i <= n,
            acc@ == spec_join_ids(views.subrange(0, i as int)),
        decreases n - i,
    {
        let ghost prefix = views.subrange(0, i as int);
        acc.append(",");
        acc.append(ids[i].as_str());
        proof {
            reveal_strlit(",");
            lemma_join_snoc(prefix, views[i as int]);
            assert(views.subrange(0, i + 1) =~= prefix.push(views[i as int]));
            assert(acc@ =~= spec_join_ids(prefix) + seq![','] + views[i as int]);
        }
        i = i + 1;
    }
    assert(views.subrange(0, n as int) =~= views);
    acc
}

/// Splits a string at commas.
pub fn split_ids(s: &str) -> (r: Vec<String>)
    ensures
        string_views(r@) == spec_split_ids(s@),
{
    let n = s.unicode_len();
    let mut pieces: Vec<String> = Vec::new();
    let mut start: usize = 0;
    let mut i: usize = 0;
    assert(s@.subrange(0, n as int) =~= s@);
    while i < n
        invariant
            n == s@.len(),
            start <= i <= n,
            forall|j: int| start <= j < i ==> s@[j] != ',',
            spec_split_ids(s@) == string_views(pieces@) + spec_split_ids(
                s@.subrange(start as int, n as int),
            ),
        decreases n - i,
    {
        let ghost tail = s@.subrange(start as int, n as int);
        if s.get_char(i) == ',' {
            let piece = s.substring_char(start, i).to_owned();
            proof {
                assert forall|j: int| 0 <= j < i - start implies tail[j] != ',' by {
                    assert(tail[j] == s@[start + j]);
                }
                assert(tail[i - start] == ',');
                lemma_first_comma_range(tail);
                if first_comma(tail) < i - start {
                    assert(tail[first_comma(tail)] != ',');
                }
                if first_comma(tail) > i - start {
                    assert(tail[i - start] != ',');
                }
                assert(first_comma(tail) == i - start);
                assert(tail.subrange(0, i - start) =~= s@.subrange(start as int, i as int));
                assert(tail.subrange(i - start + 1, tail.len() as int) =~= s@.subrange(
                    i + 1,
                    n as int,
                ));
                assert(spec_split_ids(tail) == seq![s@.subrange(start as int, i as int)]
                    + spec_split_ids(s@.subrange(i + 1, n as int)));
            }
            let ghost before = string_views(pieces@);
            pieces.push(piece);
            proof {
                assert(string_views(pieces@) =~= before.push(s@.subrange(
                    start as int,
                    i as int,
                )));
                assert(string_views(pieces@) + spec_split_ids(s@.subrange(i + 1, n as int))
                    =~= before + spec_split_ids(tail));
            }
            start = i + 1;
        }
        i = i + 1;
    }
    let ghost tail = s@.subrange(start as int, n as int);
    let last = s.substring_char(start, n).to_owned();
    proof {
        assert forall|j: int| 0 <= j < tail.len() implies tail[j] != ',' by {
            assert(tail[j] == s@[start + j]);
        }
        lemma_first_comma_free(tail);
        assert(spec_split_ids(tail) == seq![tail]);
    }
    let ghost before = string_views(pieces@);
    pieces.push(last);
    proof {
        assert(string_views(pieces@) =~= before.push(tail));
        assert(string_views(pieces@) =~= before + spec_split_ids(tail));
    }
    pieces
}

/// True when a stored row carries the aggregated-signature sentinel prefix.
pub open spec fn is_sentinel_row(row: WitnessSignature) -> bool {
    row.witness_id@.len() >= sentinel().len() && row.witness_id@.subrange(
        0,
        sentinel().len() as int,
    ) == sentinel()
}

/// An encoded aggregated row decodes back to its signer list: the sentinel
/// is recognised, and splitting the joined tail returns the ids, provided
/// they are non-empty as a list and comma-free.
pub proof fn lemma_aggregated_row_roundtrip(ids: Seq<Seq<char>>)
    requires
        ids.len() >= 1,
        forall|i: int| 0 <= i < ids.len() ==> comma_free(#[trigger] ids[i]),
    ensures
        (sentinel() + spec_join_ids(ids)).len() >= sentinel().len(),
        (sentinel() + spec_join_ids(ids)).subrange(0, sentinel().len() as int) == sentinel(),
        spec_split_ids((sentinel() + spec_join_ids(ids)).subrange(
            sentinel().len() as int,
            (sentinel() + spec_join_ids(ids)).len() as int,
        )) == ids,
{
    let wid = sentinel() + spec_join_ids(ids);
    assert(wid.subrange(0, sentinel().len() as int) =~= sentinel());
    assert(wid.subrange(sentinel().len() as int, wid.len() as int) =~= spec_join_ids(ids));
    lemma_split_join_ids(ids);
}

/// Copies signature rows, entry by entry.
pub(crate) fn copy_rows(rows: &Vec<WitnessSignature>) -> (r: Vec<WitnessSignature>)
    ensures
        rows_equiv(r@, rows@),
{
    let n = rows.len();
    let mut out: Vec<WitnessSignature> = Vec::new();
    let mut i: usize = 0;
    while i < n
        invariant
            n == rows@.len(),
            i <= n,
            out@.len() == i,
            forall|j: int|
                0 <= j < i ==> (#[trigger] out@[j]).witness_id@ == rows@[j].witness_id@
                    && out@[j].signature@ == rows@[j].signature@,
        decreases n - i,
    {
        out.push(WitnessSignature {
            witness_id: rows[i].witness_id.clone(),
            signature: copy_bytes(&rows[i].signature),
        });
        i = i + 1;
    }
    out
}

/// Encodes quorum signatures as storage rows: a multi-signature row for row,
/// an aggregated signature as one sentinel row over the joined signer ids.
pub fn rows_from_signatures(sigs: &AttestationSignatures) -> (r: Vec<WitnessSignature>)
    requires
        sigs is Aggregated ==> sigs.spec_signers().len() >= 1,
    ensures
        sigs is MultiSig ==> rows_equiv(r@, sigs.spec_multisig_rows()),
        sigs is Aggregated ==> {
            &&& r@.len() == 1
            &&& r@[0].witness_id@ == sentinel() + spec_join_ids(string_views(sigs.spec_signers()))
            &&& r@[0].signature@ == sigs.spec_agg_signature()
        },
{
    match sigs {
        AttestationSignatures::MultiSig { signatures } => copy_rows(signatures),
        AttestationSignatures::Aggregated { signature, signers } => {
            let mut witness_id = String::new();
            witness_id.append("BLS_AGGREGATED:");
            let joined = join_ids(signers);
            witness_id.append(joined.as_str());
            assert(witness_id@ =~= sentinel() + spec_join_ids(string_views(signers@)));
            let mut out: Vec<WitnessSignature> = Vec::new();
            out.push(WitnessSignature { witness_id, signature: copy_bytes(signature) });
            out
        },
    }
}

/// How decoded signatures relate to the rows they were read from: no rows
/// give an empty multi-signature; a leading sentinel row gives the
/// aggregated form with its split signer ids; anything else gives a
/// multi-signature of the rows as they stand.
pub open spec fn decodes_rows(sigs: AttestationSignatures, rows: Seq<WitnessSignature>) -> bool {
    if rows.len() == 0 {
        sigs is MultiSig && sigs.spec_multisig_rows().len() == 0
    } else if is_sentinel_row(rows[0]) {
        &&& sigs is Aggregated
        &&& sigs.spec_agg_signature() == rows[0].signature@
        &&& string_views(sigs.spec_signers()) == spec_split_ids(rows[0].witness_id@.subrange(
            sentinel().len() as int,
            rows[0].witness_id@.len() as int,
        ))
    } else {
        sigs is MultiSig && rows_equiv(sigs.spec_multisig_rows(), rows)
    }
}

/// Decodes storage rows back into quorum signatures; the result satisfies
/// `decodes_rows` for the given rows.
pub fn signatures_from_rows(rows: &Vec<WitnessSignature>) -> (r: AttestationSignatures)
    ensures
        decodes_rows(r, rows@),
{
    if rows.len() == 0 {
        return AttestationSignatures::MultiSig { signatures: Vec::new() };
    }
    let first = &rows[0];
    let sent = "BLS_AGGREGATED:";
    let sent_len = sent.unicode_len();
    let id_len = first.witness_id.as_str().unicode_len();
    if id_len >= sent_len && crate::encoding::str_eq(
        first.witness_id.as_str().substring_char(0, sent_len),
        sent,
    ) {
        assert(is_sentinel_row(rows@[0]));
        let tail = first.witness_id.as_str().substring_char(sent_len, id_len);
        let signers = split_ids(tail);
        AttestationSignatures::Aggregated { signature: copy_bytes(&first.signature), signers }
    } else {
        assert(!is_sentinel_row(rows@[0]));
        AttestationSignatures::MultiSig { signatures: copy_rows(rows) }
    }
}


} // verus!
