//! The record-filtering pipeline: normalize each row, keep the valid ones.

use crate::phone::accepts;
use crate::phone::normalize_phone;
use crate::phone::valid_phone;
use crate::record::Record;
use crate::record::RecordView;
use crate::record::is_good_ph;
use vstd::prelude::*;

verus! {

/// The image of one accepted row: the phone field rewritten to its
/// normalization, the other fields kept.
pub open spec fn normalized_view(r: RecordView) -> RecordView {
    RecordView { ph: normalize_phone(r.ph), name: r.name, count: r.count }
}

/// What the pipeline leaves of a row sequence: the accepted rows, each
/// normalized, in their original order; the rejected rows are gone.
pub open spec fn pipeline(rows: Seq<RecordView>) -> Seq<RecordView>
    decreases rows.len(),
{
    if rows.len() == 0 {
        Seq::empty()
    } else if accepts(rows[0].ph) {
        seq![normalized_view(rows[0])] + pipeline(rows.drop_first())
    } else {
        pipeline(rows.drop_first())
    }
}

/// How many rows of the sequence the validator rejects.
pub open spec fn rejected_count(rows: Seq<RecordView>) -> nat
    decreases rows.len(),
{
    if rows.len() == 0 {
        0
    } else if accepts(rows[0].ph) {
        rejected_count(rows.drop_first())
    } else {
        1 + rejected_count(rows.drop_first())
    }
}

/// The pipeline and the rejection count distribute over concatenation.
pub proof fn lemma_pipeline_append(a: Seq<RecordView>, b: Seq<RecordView>)
    ensures
        pipeline(a + b) == pipeline(a) + pipeline(b),
        rejected_count(a + b) == rejected_count(a) + rejected_count(b),
    decreases a.len(),
{
    if a.len() == 0 {
        assert(a + b =~= b);
        assert(pipeline(a) + pipeline(b) =~= pipeline(b));
    } else {
        assert((a + b).drop_first() =~= a.drop_first() + b);
        assert((a + b)[0] == a[0]);
        lemma_pipeline_append(a.drop_first(), b);
        if accepts(a[0].ph) {
            assert(seq![normalized_view(a[0])] + (pipeline(a.drop_first()) + pipeline(b)) =~= (
            seq![normalized_view(a[0])] + pipeline(a.drop_first())) + pipeline(b));
        }
    }
}

/// Every input row is either kept or rejected: the number of output rows is
/// the number of input rows minus the number of rejected rows.
pub proof fn lemma_pipeline_count(rows: Seq<RecordView>)
    ensures
        pipeline(rows).len() + rejected_count(rows) == rows.len(),
    decreases rows.len(),
{
    if rows.len() > 0 {
        lemma_pipeline_count(rows.drop_first());
    }
}

/// No rejected row ever appears in the output: every output row carries a
/// phone that the validator accepts.
pub proof fn lemma_pipeline_sound(rows: Seq<RecordView>)
    ensures
        forall|i: int| 0 <= i < pipeline(rows).len() ==> valid_phone(
            #[trigger] pipeline(rows)[i].ph,
        ),
    decreases rows.len(),
{
    if rows.len() > 0 {
        lemma_pipeline_sound(rows.drop_first());
        let tail = pipeline(rows.drop_first());
        assert forall|i: int| 0 <= i < pipeline(rows).len() implies valid_phone(
            #[trigger] pipeline(rows)[i].ph,
        ) by {
            if accepts(rows[0].ph) {
                if i == 0 {
                    assert(pipeline(rows)[0] == normalized_view(rows[0]));
                } else {
                    assert(pipeline(rows)[i] == tail[i - 1]);
                }
            } else {
                assert(pipeline(rows)[i] == tail[i]);
            }
        }
    }
}

/// Runs the whole pipeline over a row sequence: normalizes each row in
/// order, keeps exactly the rows whose normalized phone is valid, and drops
/// the rest.
pub fn process_records(rows: Vec<Record>) -> (out: Vec<Record>)
    ensures
        out.deep_view() == pipeline(rows.deep_view()),
        out.len() + rejected_count(rows.deep_view()) == rows.len(),
{
    let n = rows.len();
    let mut out: Vec<Record> = Vec::new();
    let mut i: usize = 0;
    while i < n
        invariant
            i <= n,
            n == rows@.len(),
            out.deep_view() == pipeline(rows.deep_view().take(i as int)),
        decreases n - i,
    {
        let rec = rows[i].clone();
        proof {
            assert(rec@ == rows.deep_view()[i as int]);
        }
        let ghost prev = out.deep_view();
        match is_good_ph(rec) {
            Some(good) => {
                out.push(good);
                proof {
                    assert(out.deep_view() =~= prev + seq![good@]);
                    assert(good@ =~= normalized_view(rows.deep_view()[i as int]));
                }
            },
            None => {},
        }
        proof {
            let dv = rows.deep_view();
            reveal_with_fuel(pipeline, 2);
            reveal_with_fuel(rejected_count, 2);
            assert(dv.take(i + 1) =~= dv.take(i as int) + seq![dv[i as int]]);
            lemma_pipeline_append(dv.take(i as int), seq![dv[i as int]]);
            assert(seq![dv[i as int]].drop_first() =~= Seq::<RecordView>::empty());
            if accepts(dv[i as int].ph) {
                assert(pipeline(seq![dv[i as int]]) =~= seq![normalized_view(dv[i as int])]);
            } else {
                assert(pipeline(seq![dv[i as int]]) =~= Seq::<RecordView>::empty());
                assert(prev + Seq::<RecordView>::empty() =~= prev);
            }
        }
        i = i + 1;
    }
    proof {
        assert(rows.deep_view().take(n as int) =~= rows.deep_view());
        lemma_pipeline_count(rows.deep_view());
    }
    out
}

} // verus!
