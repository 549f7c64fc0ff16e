//! Mutable views of every segment of a message at once.

use vstd::prelude::*;
use crate::error::WalleResult;
use crate::segment::{
    all_mut_accept, check_all_mut, first_mut_error, lent, mut_field, mut_lends, str_at,
    MsgSegment, MsgSegmentMut,
};
use crate::value::ValueView;

verus! {

fn slice_as_mut<'a>(segs: &'a mut [MsgSegment]) -> (r: Vec<MsgSegmentMut<'a>>)
    requires
        all_mut_accept(old(segs)@),
    ensures
        r@.len() == old(segs)@.len(),
        final(segs)@.len() == old(segs)@.len(),
        forall|i: int| 0 <= i < r@.len() ==> mut_lends(old(segs)@[i].ty@, old(segs)@[i].data@, #[trigger] r@[i]),
        forall|i: int| 0 <= i < r@.len() ==> (#[trigger] final(segs)@[i]).ty == old(segs)@[i].ty,
        forall|i: int| 0 <= i < r@.len() ==> (#[trigger] final(segs)@[i]).data@ == match lent(r@[i]) {
            Some(s) => old(segs)@[i].data@.insert(mut_field(old(segs)@[i].ty@)->0, ValueView::Str(final(s)@)),
            None => old(segs)@[i].data@,
        },
    decreases old(segs)@.len(),
{
    if segs.len() == 0 {
        return Vec::new();
    }
    let ghost s0 = segs@;
    let (head, tail) = segs.split_at_mut(1);
    assert(all_mut_accept(tail@)) by {
        assert forall|i: int| 0 <= i < tail@.len() implies crate::segment::mut_accepts(#[trigger] tail@[i].ty@, tail@[i].data@) by {
            assert(tail@[i] == s0[i + 1]);
        }
    }
    let mut rest = slice_as_mut(tail);
    assert(head@[0] == s0[0]);
    let first = head.first_mut().unwrap();
    let m = first.try_as_mut();
    let m = match m {
        Ok(m) => m,
        Err(_) => {
            proof { assert(false); }
            MsgSegmentMut::Other
        },
    };
    rest.insert(0, m);
    rest
}

/// Lends the main field of every segment of a message, as
/// `MsgSegment::try_as_mut` does for one: the views come in the order of
/// the segments, and a change through a view changes that segment's data.
/// Fails with the error of the first segment that cannot lend its field,
/// leaving the message as it was.
pub fn segments_as_mut<'a>(segs: &'a mut Vec<MsgSegment>) -> (r: WalleResult<Vec<MsgSegmentMut<'a>>>)
    ensures
        r is Ok == all_mut_accept(old(segs)@),
        r matches Err(e) ==> first_mut_error(old(segs)@, e) && final(segs)@ == old(segs)@,
        r matches Ok(v) ==> {
            &&& v@.len() == old(segs)@.len()
            &&& final(segs)@.len() == old(segs)@.len()
            &&& forall|i: int| 0 <= i < v@.len() ==> mut_lends(old(segs)@[i].ty@, old(segs)@[i].data@, #[trigger] v@[i])
            &&& forall|i: int| 0 <= i < v@.len() ==> (#[trigger] final(segs)@[i]).ty == old(segs)@[i].ty
            &&& forall|i: int| 0 <= i < v@.len() ==> (#[trigger] final(segs)@[i]).data@ == match lent(v@[i]) {
                Some(s) => old(segs)@[i].data@.insert(mut_field(old(segs)@[i].ty@)->0, ValueView::Str(final(s)@)),
                None => old(segs)@[i].data@,
            }
        },
{
    match check_all_mut(segs) {
        Ok(()) => {},
        Err(e) => return Err(e),
    }
    Ok(slice_as_mut(segs.as_mut_slice()))
}

/// The number of text segments in `segs`.
pub open spec fn text_count(segs: Seq<MsgSegment>) -> nat
    decreases segs.len(),
{
    if segs.len() == 0 {
        0
    } else {
        (if segs[0].ty@ == "text"@ { 1nat } else { 0nat }) + text_count(segs.subrange(1, segs.len() as int))
    }
}

proof fn lemma_text_count_take(s: Seq<MsgSegment>, i: int)
    requires
        s.len() > 0,
        1 <= i <= s.len(),
    ensures
        text_count(s.take(i)) == (if s[0].ty@ == "text"@ { 1nat } else { 0nat })
            + text_count(s.subrange(1, s.len() as int).take(i - 1)),
{
    assert(s.take(i).subrange(1, i) =~= s.subrange(1, s.len() as int).take(i - 1));
}

fn slice_texts_mut<'a>(segs: &'a mut [MsgSegment]) -> (r: Vec<&'a mut String>)
    requires
        all_mut_accept(old(segs)@),
    ensures
        r@.len() == text_count(old(segs)@),
        final(segs)@.len() == old(segs)@.len(),
        forall|i: int| 0 <= i < old(segs)@.len() ==> (#[trigger] final(segs)@[i]).ty == old(segs)@[i].ty,
        forall|i: int| 0 <= i < old(segs)@.len() && old(segs)@[i].ty@ != "text"@
            ==> (#[trigger] final(segs)@[i]).data@ == old(segs)@[i].data@,
        forall|i: int| 0 <= i < old(segs)@.len() && (#[trigger] old(segs)@[i]).ty@ == "text"@ ==> {
            let k = text_count(old(segs)@.take(i)) as int;
            &&& 0 <= k < r@.len()
            &&& str_at(old(segs)@[i].data@, "text"@, (*r@[k])@)
        },
        forall|i: int| 1 <= i < old(segs)@.len() && (#[trigger] old(segs)@[i]).ty@ == "text"@ ==> {
            let k = text_count(old(segs)@.take(i)) as int;
            final(segs)@[i].data@ == old(segs)@[i].data@.insert("text"@, ValueView::Str(final(r@[k])@))
        },
        old(segs)@.len() > 0 && old(segs)@[0].ty@ == "text"@ ==> 
            final(segs)@[0].data@ == old(segs)@[0].data@.insert("text"@, ValueView::Str(final(r@[0])@)),
    decreases old(segs)@.len(),
{
    proof { reveal_strlit("text"); }
    if segs.len() == 0 {
        return Vec::new();
    }
    let ghost s0 = segs@;
    let (head, tail) = segs.split_at_mut(1);
    assert(all_mut_accept(tail@)) by {
        assert forall|i: int| 0 <= i < tail@.len() implies crate::segment::mut_accepts(#[trigger] tail@[i].ty@, tail@[i].data@) by {
            assert(tail@[i] == s0[i + 1]);
        }
    }
    assert(tail@ =~= s0.subrange(1, s0.len() as int));
    let ghost t0 = tail@;
    let mut rest = slice_texts_mut(tail);
    assert(head@[0] == s0[0]);
    assert(crate::segment::mut_accepts(s0[0].ty@, s0[0].data@));
    let ghost rest0 = rest@;
    let first = head.first_mut().unwrap();
    if crate::text::str_eq(first.ty.as_str(), "text") {
        assert(mut_field(s0[0].ty@) == Some("text"@));
        match first.data.try_get_str_mut("text") {
            Ok(t) => {
                rest.insert(0, t);
            },
            Err(_) => {
                proof { assert(false); }
            },
        }
    }
    proof {
        assert forall|i: int| 1 <= i < s0.len() implies #[trigger] s0[i] == t0[i - 1] by {}
        assert forall|i: int| 0 <= i < s0.len() && s0[i].ty@ == "text"@ implies ({
            let k = text_count(s0.take(i)) as int;
            0 <= k < rest@.len() && str_at(s0[i].data@, "text"@, (*rest@[k])@)
        }) by {
            if i == 0 {
                assert(s0.take(0) =~= Seq::<MsgSegment>::empty());
            } else {
                lemma_text_count_take(s0, i);
                assert(s0[i] == t0[i - 1]);
            }
        }
        assert forall|i: int| 1 <= i < s0.len() && (#[trigger] s0[i]).ty@ == "text"@ implies
            rest@[text_count(s0.take(i)) as int] == rest0[text_count(t0.take(i - 1)) as int] by {
            lemma_text_count_take(s0, i);
            assert(s0[i] == t0[i - 1]);
        }
    }
    rest
}

/// The texts of all text segments of a message, in order, to change in
/// place: every segment must lend its main field (else the error of the
/// first that does not, the message unchanged).  The text of the segment
/// at `i` is lent at the number of text segments before `i`; only the
/// texts of text segments can change.
pub fn try_iter_text_mut<'a>(segs: &'a mut Vec<MsgSegment>) -> (r: WalleResult<Vec<&'a mut String>>)
    ensures
        r is Ok == all_mut_accept(old(segs)@),
        r matches Err(e) ==> first_mut_error(old(segs)@, e) && final(segs)@ == old(segs)@,
        r matches Ok(v) ==> {
            &&& v@.len() == text_count(old(segs)@)
            &&& final(segs)@.len() == old(segs)@.len()
            &&& forall|i: int| 0 <= i < old(segs)@.len() ==> (#[trigger] final(segs)@[i]).ty == old(segs)@[i].ty
            &&& forall|i: int| 0 <= i < old(segs)@.len() && old(segs)@[i].ty@ != "text"@
                ==> (#[trigger] final(segs)@[i]).data@ == old(segs)@[i].data@
            &&& forall|i: int| 0 <= i < old(segs)@.len() && (#[trigger] old(segs)@[i]).ty@ == "text"@ ==> {
                let k = text_count(old(segs)@.take(i)) as int;
                &&& 0 <= k < v@.len()
                &&& str_at(old(segs)@[i].data@, "text"@, (*v@[k])@)
                &&& final(segs)@[i].data@ == old(segs)@[i].data@.insert("text"@, ValueView::Str(final(v@[k])@))
            }
        },
{
    match check_all_mut(segs) {
        Ok(()) => {},
        Err(e) => return Err(e),
    }
    Ok(slice_texts_mut(segs.as_mut_slice()))
}

} // verus!
