//! Choosing the best of several weighted candidates.
use vstd::prelude::*;

verus! {

/// The weights of some candidates as integers (`None`: not a candidate).
pub open spec fn weights_view(ws: Seq<Option<usize>>) -> Seq<Option<int>> {
    ws.map_values(|w: Option<usize>| match w {
        Some(x) => Some(x as int),
        None => None,
    })
}

/// Candidate `i` has the greatest weight, and no later candidate has as much:
/// the one `Iterator::max_by_key` picks.
pub open spec fn is_last_max(ws: Seq<Option<int>>, i: int) -> bool {
    &&& 0 <= i < ws.len()
    &&& ws[i] is Some
    &&& forall|j: int| 0 <= j < ws.len() && ws[j] is Some ==> ws[j]->0 <= ws[i]->0
    &&& forall|j: int| i < j < ws.len() && ws[j] is Some ==> ws[j]->0 < ws[i]->0
}

/// The candidate with the greatest weight, the last of equals; `None` when
/// there is no candidate.
pub open spec fn pick_last_max(ws: Seq<Option<int>>) -> Option<int> {
    if exists|i: int| is_last_max(ws, i) {
        Some(choose|i: int| is_last_max(ws, i))
    } else {
        None
    }
}

/// At most one candidate is the last of the greatest.
pub proof fn lemma_last_max_unique(ws: Seq<Option<int>>, i: int, j: int)
    requires
        is_last_max(ws, i),
        is_last_max(ws, j),
    ensures
        i == j,
{
    if i < j {
        assert(ws[j]->0 < ws[i]->0);
    } else if j < i {
        assert(ws[i]->0 < ws[j]->0);
    }
}

/// Picks the candidate with the greatest weight, the last of equals.
pub fn last_max_index(ws: &[Option<usize>]) -> (r: Option<usize>)
    ensures
        r == match pick_last_max(weights_view(ws@)) {
            Some(i) => Some(i as usize),
            None => None,
        },
        r matches Some(i) ==> is_last_max(weights_view(ws@), i as int),
{
    let ghost wv = weights_view(ws@);
    let mut best: Option<usize> = None;
    let mut i: usize = 0;
    while i < ws.len()
        invariant
            i <= ws@.len(),
            wv == weights_view(ws@),
            match best {
                Some(b) => is_last_max(wv.take(i as int), b as int) && b < i,
                None => forall|j: int| 0 <= j < i ==> wv[j] is None,
            },
        decreases ws@.len() - i,
    {
        match ws[i] {
            Some(w) => {
                match best {
                    Some(b) => {
                        let bw = ws[b].unwrap();
                        if w >= bw {
                            best = Some(i);
                        }
                    },
                    None => {
                        best = Some(i);
                    },
                }
            },
            None => {},
        }
        proof {
            match best {
                Some(b) => {
                    assert(wv.take(i + 1)[b as int] == wv[b as int]);
                    assert forall|j: int| 0 <= j < i + 1 && #[trigger] wv.take(i + 1)[j] is Some implies wv.take(i + 1)[j]->0
                        <= wv.take(i + 1)[b as int]->0 by {
                        if j < i {
                            assert(wv.take(i as int)[j] == wv[j]);
                        }
                    }
                    assert forall|j: int| b < j < i + 1 && #[trigger] wv.take(i + 1)[j] is Some implies wv.take(i + 1)[j]->0
                        < wv.take(i + 1)[b as int]->0 by {
                        if j < i {
                            assert(wv.take(i as int)[j] == wv[j]);
                        }
                    }
                },
                None => {},
            }
        }
        i = i + 1;
    }
    assert(wv.take(ws@.len() as int) =~= wv);
    proof {
        match best {
            Some(b) => {
                let c = choose|k: int| is_last_max(wv, k);
                lemma_last_max_unique(wv, b as int, c);
            },
            None => {
                assert(!exists|k: int| is_last_max(wv, k));
            },
        }
    }
    best
}

} // verus!
