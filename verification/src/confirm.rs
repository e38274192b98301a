//! What a confirmation screen lists: for a spend, the outputs leaving the
//! wallet, the largest ones when there are more than the screen lists,
//! largest first; for other requests, a line of detail.
use vstd::prelude::*;
use vstd::string::StringSliceAdditionalSpecFns;
use crate::gui::label::is_char_boundary;
use crate::gui::render::{append, dec_digits, push_decimal};
use crate::gui::state::{TxReviewSummary, TX_REVIEW_FLAG_HIGH_FEE, TX_REVIEW_FLAG_MULTIPLE_RECIPIENTS,
    TX_REVIEW_FLAG_NO_REFUND, TX_REVIEW_MAX_OUTPUTS};

verus! {

broadcast use {vstd::seq_lib::group_to_multiset_ensures, vstd::multiset::group_multiset_properties};

/// Longest recipient kept for the review list, in bytes.
pub const REVIEW_RECIPIENT_MAX: usize = 64;

/// An output of a spend as the request describes it.
pub struct SpendOutput {
    pub gift: u64,
    pub is_refund: bool,
    pub recipient: Vec<u8>,
}

/// An output as the review list shows it.
pub struct ReviewOutput {
    pub gift: u64,
    pub recipient: Vec<u8>,
}

pub open spec fn review_of(v: Seq<ReviewOutput>) -> Seq<(u64, Seq<u8>)> {
    v.map_values(|o: ReviewOutput| (o.gift, o.recipient@))
}

pub open spec fn cut_recipient(r: Seq<u8>) -> Seq<u8> {
    if r.len() <= REVIEW_RECIPIENT_MAX { r } else { r.take(REVIEW_RECIPIENT_MAX as int) }
}

/// The outputs worth reviewing, in order: those that pay something and are
/// not change, each recipient cut to the list's width.
pub open spec fn review_candidates(outs: Seq<SpendOutput>) -> Seq<(u64, Seq<u8>)>
    decreases outs.len(),
{
    if outs.len() == 0 {
        Seq::empty()
    } else {
        let prev = review_candidates(outs.drop_last());
        let o = outs.last();
        if o.gift == 0 || o.is_refund {
            prev
        } else {
            prev.push((o.gift, cut_recipient(o.recipient@)))
        }
    }
}

/// The index of the first smallest gift among the first `n` entries.
pub open spec fn min_index(s: Seq<(u64, Seq<u8>)>, n: nat) -> nat
    decreases n,
{
    if n <= 1 {
        0
    } else {
        let m = min_index(s, (n - 1) as nat);
        if s[n - 1].0 < s[m as int].0 { (n - 1) as nat } else { m }
    }
}

/// One candidate offered to the list: it is added while there is room;
/// once the list is full it replaces the first smallest entry if its gift
/// is larger.
pub open spec fn keep_step(kept: Seq<(u64, Seq<u8>)>, c: (u64, Seq<u8>)) -> Seq<(u64, Seq<u8>)> {
    if kept.len() < TX_REVIEW_MAX_OUTPUTS {
        kept.push(c)
    } else {
        let m = min_index(kept, kept.len()) as int;
        if c.0 > kept[m].0 { kept.update(m, c) } else { kept }
    }
}

pub open spec fn kept_outputs(cands: Seq<(u64, Seq<u8>)>) -> Seq<(u64, Seq<u8>)>
    decreases cands.len(),
{
    if cands.len() == 0 {
        Seq::empty()
    } else {
        keep_step(kept_outputs(cands.drop_last()), cands.last())
    }
}

/// `kept` is a largest selection from `cands`: as many as the list holds
/// (all of them when they fit), each taken from the candidates, and no
/// candidate left out pays more than any kept one.
pub open spec fn largest_kept(cands: Seq<(u64, Seq<u8>)>, kept: Seq<(u64, Seq<u8>)>) -> bool {
    &&& kept.len() == if cands.len() < TX_REVIEW_MAX_OUTPUTS { cands.len() } else { TX_REVIEW_MAX_OUTPUTS as nat }
    &&& kept.to_multiset().subset_of(cands.to_multiset())
    &&& forall|x: (u64, Seq<u8>), y: (u64, Seq<u8>)|
        #![trigger kept.to_multiset().count(x), kept.to_multiset().count(y)]
        kept.to_multiset().count(x) < cands.to_multiset().count(x) && kept.to_multiset().count(y) > 0 ==> x.0 <= y.0
}

/// The review list keeps the largest candidates: it holds the first
/// `TX_REVIEW_MAX_OUTPUTS` of them by size (all of them when there are no
/// more), and none left out is larger than one kept.
pub proof fn lemma_kept_are_largest(cands: Seq<(u64, Seq<u8>)>)
    ensures
        largest_kept(cands, kept_outputs(cands)),
        kept_outputs(cands).len() < TX_REVIEW_MAX_OUTPUTS ==> kept_outputs(cands).to_multiset() == cands.to_multiset(),
    decreases cands.len(),
{
    if cands.len() == 0 {
        assert(kept_outputs(cands).to_multiset() =~= cands.to_multiset());
        return;
    }
    let prev_c = cands.drop_last();
    let c = cands.last();
    lemma_kept_are_largest(prev_c);
    lemma_kept_len(prev_c);
    let p = kept_outputs(prev_c);
    let k = kept_outputs(cands);
    assert(cands =~= prev_c.push(c));
    let cm = cands.to_multiset();
    let pcm = prev_c.to_multiset();
    let pm = p.to_multiset();
    let km = k.to_multiset();
    assert(cm == pcm.insert(c));
    if p.len() < TX_REVIEW_MAX_OUTPUTS {
        assert(k == p.push(c));
        assert(km == pm.insert(c));
        assert(km =~= cm);
    } else {
        let m = min_index(p, p.len()) as int;
        lemma_min_index_bounds(p, p.len());
        let low = p[m];
        assert(forall|y: (u64, Seq<u8>)| pm.count(y) > 0 ==> low.0 <= y.0) by {
            assert forall|y: (u64, Seq<u8>)| pm.count(y) > 0 implies low.0 <= y.0 by {
                assert(p.contains(y));
                let i = choose|i: int| 0 <= i < p.len() && p[i] == y;
                assert(p[i].0 >= low.0);
            }
        }
        assert(pm.count(low) > 0) by {
            assert(p.contains(low));
        }
        if c.0 > low.0 {
            assert(k == p.update(m, c));
            assert(km == pm.insert(c).remove(low));
            assert forall|x: (u64, Seq<u8>), y: (u64, Seq<u8>)|
                km.count(x) < cm.count(x) && km.count(y) > 0 implies x.0 <= y.0 by {
                if pm.count(x) < pcm.count(x) {
                    assert(x.0 <= low.0);
                } else {
                    assert(x == low);
                }
                if y != c {
                    assert(pm.count(y) > 0);
                }
            }
        } else {
            assert(k == p);
            assert forall|x: (u64, Seq<u8>), y: (u64, Seq<u8>)|
                km.count(x) < cm.count(x) && km.count(y) > 0 implies x.0 <= y.0 by {
                if x != c {
                    assert(pm.count(x) < pcm.count(x));
                }
                assert(low.0 <= y.0);
            }
        }
    }
}

pub open spec fn sorted_desc(s: Seq<(u64, Seq<u8>)>) -> bool {
    forall|i: int, j: int| 0 <= i < j < s.len() ==> s[i].0 >= s[j].0
}

proof fn lemma_min_index_bounds(s: Seq<(u64, Seq<u8>)>, n: nat)
    requires
        1 <= n <= s.len(),
    ensures
        min_index(s, n) < n,
        forall|k: int| 0 <= k < n ==> s[min_index(s, n) as int].0 <= #[trigger] s[k].0,
    decreases n,
{
    if n > 1 {
        lemma_min_index_bounds(s, (n - 1) as nat);
    }
}

proof fn lemma_kept_len(cands: Seq<(u64, Seq<u8>)>)
    ensures
        kept_outputs(cands).len() <= TX_REVIEW_MAX_OUTPUTS,
    decreases cands.len(),
{
    if cands.len() > 0 {
        lemma_kept_len(cands.drop_last());
        let prev = kept_outputs(cands.drop_last());
        if prev.len() >= TX_REVIEW_MAX_OUTPUTS {
            lemma_min_index_bounds(prev, prev.len());
        }
    }
}

fn first_min_index(kept: &Vec<ReviewOutput>) -> (r: usize)
    requires
        kept@.len() >= 1,
    ensures
        r == min_index(review_of(kept@), kept@.len() as nat),
{
    let ghost s = review_of(kept@);
    let n = kept.len();
    let mut m: usize = 0;
    let mut i: usize = 1;
    while i < n
        invariant
            n == kept@.len(),
            s == review_of(kept@),
            1 <= i <= n,
            m == min_index(s, i as nat),
        decreases n - i,
    {
        proof {
            lemma_min_index_bounds(s, i as nat);
        }
        if kept[i].gift < kept[m].gift {
            m = i;
        }
        i = i + 1;
    }
    m
}

/// The largest outputs to review, in the order kept (see `keep_step`).
pub fn keep_largest_outputs(outputs: &[SpendOutput]) -> (r: Vec<ReviewOutput>)
    requires
        forall|i: int| 0 <= i < outputs@.len() ==> (#[trigger] outputs@[i]).recipient@.len() > REVIEW_RECIPIENT_MAX
            ==> is_char_boundary(outputs@[i].recipient@, REVIEW_RECIPIENT_MAX as int),
    ensures
        review_of(r@) == kept_outputs(review_candidates(outputs@)),
{
    let n = outputs.len();
    let mut kept: Vec<ReviewOutput> = Vec::new();
    let mut i: usize = 0;
    assert(outputs@.take(0) =~= Seq::<SpendOutput>::empty());
    assert(review_of(kept@) =~= Seq::<(u64, Seq<u8>)>::empty());
    while i < n
        invariant
            n == outputs@.len(),
            i <= n,
            review_of(kept@) == kept_outputs(review_candidates(outputs@.take(i as int))),
        decreases n - i,
    {
        let o = &outputs[i];
        proof {
            assert(outputs@.take(i + 1).drop_last() =~= outputs@.take(i as int));
            assert(outputs@.take(i + 1).last() == *o);
            lemma_kept_len(review_candidates(outputs@.take(i as int)));
        }
        if o.gift != 0 && !o.is_refund {
            let take: usize = if o.recipient.len() < REVIEW_RECIPIENT_MAX { o.recipient.len() } else { REVIEW_RECIPIENT_MAX };
            let recipient = crate::bytes::copy_range(o.recipient.as_slice(), 0, take);
            assert(recipient@ =~= cut_recipient(o.recipient@));
            let cand = ReviewOutput { gift: o.gift, recipient };
            let ghost before = review_of(kept@);
            if kept.len() < TX_REVIEW_MAX_OUTPUTS {
                kept.push(cand);
                proof {
                    assert(review_of(kept@) =~= before.push((o.gift, cut_recipient(o.recipient@))));
                }
            } else {
                let m = first_min_index(&kept);
                proof {
                    lemma_min_index_bounds(before, before.len());
                }
                if o.gift > kept[m].gift {
                    kept.set(m, cand);
                    proof {
                        assert(review_of(kept@) =~= before.update(m as int, (o.gift, cut_recipient(o.recipient@))));
                    }
                }
            }
            proof {
                let cands = review_candidates(outputs@.take(i + 1));
                assert(cands.drop_last() =~= review_candidates(outputs@.take(i as int)));
            }
        } else {
            proof {
                assert(review_candidates(outputs@.take(i + 1)) =~= review_candidates(outputs@.take(i as int)));
            }
        }
        i = i + 1;
    }
    assert(outputs@.take(n as int) =~= outputs@);
    kept
}

/// The index of the first largest gift.
fn first_max_index(v: &Vec<ReviewOutput>) -> (r: usize)
    requires
        v@.len() >= 1,
    ensures
        r < v@.len(),
        forall|k: int| 0 <= k < v@.len() ==> v@[k].gift <= #[trigger] v@[r as int].gift,
{
    let n = v.len();
    let mut m: usize = 0;
    let mut i: usize = 1;
    while i < n
        invariant
            n == v@.len(),
            1 <= i <= n,
            m < i,
            forall|k: int| 0 <= k < i ==> v@[k].gift <= #[trigger] v@[m as int].gift,
        decreases n - i,
    {
        if v[i].gift > v[m].gift {
            m = i;
        }
        i = i + 1;
    }
    m
}

/// The outputs largest gift first; the same outputs, reordered.
pub fn sort_outputs_desc(v: Vec<ReviewOutput>) -> (r: Vec<ReviewOutput>)
    ensures
        sorted_desc(review_of(r@)),
        review_of(r@).to_multiset() == review_of(v@).to_multiset(),
{
    let ghost orig = review_of(v@);
    let mut rest = v;
    let mut out: Vec<ReviewOutput> = Vec::new();
    assert(review_of(out@) =~= Seq::<(u64, Seq<u8>)>::empty());
    while rest.len() > 0
        invariant
            review_of(out@).to_multiset().add(review_of(rest@).to_multiset()) == orig.to_multiset(),
            sorted_desc(review_of(out@)),
            forall|a: int, b: int| #![trigger out@[a], rest@[b]] 0 <= a < out@.len() && 0 <= b < rest@.len() ==> out@[a].gift >= rest@[b].gift,
        decreases rest@.len(),
    {
        let m = first_max_index(&rest);
        let ghost before_rest = rest@;
        let ghost before_out = out@;
        let x = rest.remove(m);
        proof {
            assert(review_of(rest@) =~= review_of(before_rest).remove(m as int));
            assert(review_of(before_rest)[m as int] == (x.gift, x.recipient@));
        }
        out.push(x);
        proof {
            let xv = (out@.last().gift, out@.last().recipient@);
            assert(review_of(out@) =~= review_of(before_out).push(xv));
            assert(review_of(before_rest).to_multiset().count(xv) > 0) by {
                assert(review_of(before_rest).contains(xv)) by {
                    assert(review_of(before_rest)[m as int] == xv);
                }
            }
            assert(review_of(out@).to_multiset().add(review_of(rest@).to_multiset()) =~= orig.to_multiset());
            assert forall|a: int, b: int| #![trigger out@[a], rest@[b]] 0 <= a < out@.len() && 0 <= b < rest@.len() implies out@[a].gift >= rest@[b].gift by {
                let ob = if b < m { b } else { b + 1 };
                assert(rest@[b] == before_rest[ob]);
                if a < out@.len() - 1 {
                    assert(out@[a] == before_out[a]);
                }
            }
            assert forall|i: int, j: int| 0 <= i < j < review_of(out@).len() implies review_of(out@)[i].0 >= review_of(out@)[j].0 by {
                if j < out@.len() - 1 {
                    assert(review_of(out@)[i] == review_of(before_out)[i]);
                    assert(review_of(out@)[j] == review_of(before_out)[j]);
                } else {
                    assert(out@[i] == before_out[i]);
                    assert(before_out[i].gift >= before_rest[m as int].gift);
                }
            }
        }
    }
    assert(review_of(rest@) =~= Seq::<(u64, Seq<u8>)>::empty());
    out
}

/// The outputs a spend review lists: the largest that pay someone else,
/// largest first.
pub fn spend_review_outputs(outputs: &[SpendOutput]) -> (r: Vec<ReviewOutput>)
    requires
        forall|i: int| 0 <= i < outputs@.len() ==> (#[trigger] outputs@[i]).recipient@.len() > REVIEW_RECIPIENT_MAX
            ==> is_char_boundary(outputs@[i].recipient@, REVIEW_RECIPIENT_MAX as int),
    ensures
        sorted_desc(review_of(r@)),
        review_of(r@).to_multiset() == kept_outputs(review_candidates(outputs@)).to_multiset(),
        largest_kept(review_candidates(outputs@), review_of(r@)),
{
    let kept = keep_largest_outputs(outputs);
    let r = sort_outputs_desc(kept);
    proof {
        let cands = review_candidates(outputs@);
        lemma_kept_are_largest(cands);
        vstd::seq_lib::to_multiset_len(review_of(r@));
        vstd::seq_lib::to_multiset_len(kept_outputs(cands));
    }
    r
}

/// The detail line under a confirmation prompt.
#[derive(Clone, Copy, Debug, PartialEq, Eq, Structural)]
pub enum ConfirmDetail {
    /// A spend to a derived key whose public key was checked.
    PubkeyChecked,
    /// Deleting the seed in this slot.
    DeleteSlot(u8),
    /// Erasing every seed.
    EraseAll,
    /// Nothing to add.
    NoDetail,
}

/// The detail text, if any.
pub fn confirm_detail_text(d: ConfirmDetail) -> (r: Option<Vec<u8>>)
    ensures
        r matches Some(t) ==> t@ == match d {
            ConfirmDetail::PubkeyChecked => "Pubkey OK".spec_bytes(),
            ConfirmDetail::DeleteSlot(s) => "slot ".spec_bytes() + dec_digits(s as nat),
            ConfirmDetail::EraseAll => "Erase all seeds".spec_bytes(),
            ConfirmDetail::NoDetail => Seq::empty(),
        },
        (r is None) == (d == ConfirmDetail::NoDetail),
{
    let mut out: Vec<u8> = Vec::new();
    match d {
        ConfirmDetail::PubkeyChecked => append(&mut out, "Pubkey OK".as_bytes()),
        ConfirmDetail::DeleteSlot(s) => {
            append(&mut out, "slot ".as_bytes());
            push_decimal(&mut out, s as u64);
        },
        ConfirmDetail::EraseAll => append(&mut out, "Erase all seeds".as_bytes()),
        ConfirmDetail::NoDetail => return None,
    }
    Some(out)
}

/// The figures of a reviewed draft that the summary shows.
pub struct DraftFigures {
    pub input_count: u32,
    pub external_output_count: u32,
    pub external_total: u64,
    pub refund_total: u64,
    pub fee_total: u64,
    pub minimum_fee: u64,
}

/// The warnings of a draft: a fee above the minimum, money leaving with no
/// change coming back, and more than one recipient.
pub open spec fn draft_flags(d: DraftFigures) -> u8 {
    (if d.fee_total > d.minimum_fee { TX_REVIEW_FLAG_HIGH_FEE } else { 0u8 })
        | (if d.external_total != 0 && d.refund_total == 0 { TX_REVIEW_FLAG_NO_REFUND } else { 0u8 })
        | (if d.external_output_count > 1 { TX_REVIEW_FLAG_MULTIPLE_RECIPIENTS } else { 0u8 })
}

pub fn tx_review_summary_from_draft(d: &DraftFigures) -> (r: TxReviewSummary)
    ensures
        r == (TxReviewSummary {
            input_count: d.input_count,
            external_output_count: d.external_output_count,
            external_total: d.external_total,
            refund_total: d.refund_total,
            fee_total: d.fee_total,
            flags: draft_flags(*d),
            multisig_m: 0,
            multisig_present: 0,
            multisig_we_must_sign: false,
        }),
{
    let high_fee: u8 = if d.fee_total > d.minimum_fee { TX_REVIEW_FLAG_HIGH_FEE } else { 0 };
    let no_refund: u8 = if d.external_total != 0 && d.refund_total == 0 { TX_REVIEW_FLAG_NO_REFUND } else { 0 };
    let multiple: u8 = if d.external_output_count > 1 { TX_REVIEW_FLAG_MULTIPLE_RECIPIENTS } else { 0 };
    let flags: u8 = high_fee | no_refund | multiple;
    TxReviewSummary {
        input_count: d.input_count,
        external_output_count: d.external_output_count,
        external_total: d.external_total,
        refund_total: d.refund_total,
        fee_total: d.fee_total,
        flags,
        multisig_m: 0,
        multisig_present: 0,
        multisig_we_must_sign: false,
    }
}

} // verus!
