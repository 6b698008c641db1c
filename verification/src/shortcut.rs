//! Binding the launcher to the Meta key on KDE Plasma (kglobalaccel).
//!
//! A kglobalaccel shortcut is up to four key combinations, each the four
//! integers of a `QKeySequence`. Talking to kglobalaccel over D-Bus is the
//! application's part; what to write is decided here: an existing binding is
//! kept unless forced, and a lone Meta is taken away from the Kickoff
//! launcher (whose other keys stay) and given to the launcher, in front of
//! the other keys it already had.

use vstd::prelude::*;

verus! {

/// Qt key code of a lone Meta press (`Qt::Key_Meta`).
pub const KEY_META: i32 = 0x0100_0022;

/// A combination that is Meta pressed alone: Meta first, nothing after.
pub open spec fn lone_meta(combo: Seq<i32>) -> bool {
    &&& combo.len() > 0
    &&& combo[0] == KEY_META
    &&& forall|j: int| 1 <= j < combo.len() ==> combo[j] == 0
}

/// A combination with at least one key in it.
pub open spec fn bound(combo: Seq<i32>) -> bool {
    exists|j: int| 0 <= j < combo.len() && combo[j] != 0
}

/// A shortcut as a sequence of combinations.
pub open spec fn keys_view(keys: Seq<Vec<i32>>) -> Seq<Seq<i32>> {
    keys.map_values(|c: Vec<i32>| c@)
}

/// The combinations of `keys` that are not a lone Meta, in order.
pub open spec fn without_lone_meta(keys: Seq<Seq<i32>>) -> Seq<Seq<i32>> {
    keys.filter(|c: Seq<i32>| !lone_meta(c))
}

/// The combinations of `keys` that hold a key, in order.
pub open spec fn bound_only(keys: Seq<Seq<i32>>) -> Seq<Seq<i32>> {
    keys.filter(|c: Seq<i32>| bound(c))
}

fn is_lone_meta(combo: &Vec<i32>) -> (r: bool)
    ensures
        r == lone_meta(combo@),
{
    if combo.len() == 0 || combo[0] != KEY_META {
        return false;
    }
    let mut j: usize = 1;
    while j < combo.len()
        invariant
            1 <= j <= combo@.len(),
            forall|m: int| 1 <= m < j ==> combo@[m] == 0,
        decreases combo@.len() - j,
    {
        if combo[j] != 0 {
            return false;
        }
        j = j + 1;
    }
    true
}

fn is_bound(combo: &Vec<i32>) -> (r: bool)
    ensures
        r == bound(combo@),
{
    let mut j: usize = 0;
    while j < combo.len()
        invariant
            j <= combo@.len(),
            forall|m: int| 0 <= m < j ==> combo@[m] == 0,
        decreases combo@.len() - j,
    {
        if combo[j] != 0 {
            return true;
        }
        j = j + 1;
    }
    false
}

/// `keys` minus every lone-Meta combination, and whether one was removed.
pub fn without_meta(keys: &Vec<Vec<i32>>) -> (r: (Vec<Vec<i32>>, bool))
    ensures
        keys_view(r.0@) == without_lone_meta(keys_view(keys@)),
        r.1 == (r.0@.len() != keys@.len()),
        r.1 == exists|k: int| 0 <= k < keys@.len() && lone_meta(#[trigger] keys@[k]@),
{
    let ghost pred = |c: Seq<i32>| !lone_meta(c);
    let mut kept: Vec<Vec<i32>> = Vec::new();
    proof {
        reveal(Seq::filter);
    }
    let mut i: usize = 0;
    while i < keys.len()
        invariant
            i <= keys@.len(),
            pred == (|c: Seq<i32>| !lone_meta(c)),
            keys_view(kept@) == keys_view(keys@.subrange(0, i as int)).filter(pred),
            kept@.len() <= i,
            (kept@.len() == i) == forall|k: int| 0 <= k < i ==> !lone_meta(#[trigger] keys@[k]@),
        decreases keys@.len() - i,
    {
        proof {
            reveal(Seq::filter);
        }
        let ghost before = keys_view(keys@.subrange(0, i as int));
        assert(keys_view(keys@.subrange(0, i + 1)) =~= before.push(keys@[i as int]@));
        assert(before.push(keys@[i as int]@).drop_last() =~= before);
        if !is_lone_meta(&keys[i]) {
            let combo = keys[i].clone();
            assert(combo@ =~= keys@[i as int]@);
            kept.push(combo);
            assert(keys_view(kept@) =~= keys_view(kept@.drop_last()).push(keys@[i as int]@));
        } else {
            assert(!forall|k: int| 0 <= k < i + 1 ==> !lone_meta(#[trigger] keys@[k]@));
        }
        i = i + 1;
    }
    assert(keys@.subrange(0, keys@.len() as int) =~= keys@);
    let removed = kept.len() != keys.len();
    (kept, removed)
}

/// Without `force`, a launcher that already has a key bound keeps it.
pub fn keeps_existing(current: &Vec<Vec<i32>>, force: bool) -> (r: bool)
    ensures
        r == (!force && exists|k: int| 0 <= k < current@.len() && bound(#[trigger] current@[k]@)),
{
    if force {
        return false;
    }
    let mut k: usize = 0;
    while k < current.len()
        invariant
            !force,
            k <= current@.len(),
            forall|m: int| 0 <= m < k ==> !bound(#[trigger] current@[m]@),
        decreases current@.len() - k,
    {
        if is_bound(&current[k]) {
            assert(bound(current@[k as int]@));
            return true;
        }
        k = k + 1;
    }
    false
}

/// What to write to kglobalaccel when binding Meta.
pub struct MetaBinding {
    /// The Kickoff launcher's new keys, when Meta was taken from it.
    pub kickoff: Option<Vec<Vec<i32>>>,
    /// The launcher's new keys.
    pub keys: Vec<Vec<i32>>,
    /// A summary for the user.
    pub message: String,
}

/// The binding that gives Meta to the launcher, whose current keys are
/// `current`, taking it from Kickoff, whose keys are `kickoff`: Meta first,
/// then the launcher's other bound combinations.
pub fn meta_binding(current: &Vec<Vec<i32>>, kickoff: &Vec<Vec<i32>>) -> (r: MetaBinding)
    ensures
        ({
            let took = exists|k: int| 0 <= k < kickoff@.len() && lone_meta(#[trigger] kickoff@[k]@);
            &&& took ==> (r.kickoff matches Some(kept) && keys_view(kept@) == without_lone_meta(
                keys_view(kickoff@),
            ))
            &&& !took ==> r.kickoff is None
            &&& keys_view(r.keys@) == seq![seq![KEY_META, 0i32, 0i32, 0i32]] + bound_only(
                without_lone_meta(keys_view(current@)),
            )
            &&& r.message@ == (if took {
                "Meta now opens NurSearch (removed from the Kickoff launcher)"@
            } else {
                "Meta now opens NurSearch"@
            })
        }),
{
    let (kickoff_kept, took_meta) = without_meta(kickoff);
    let (others, _) = without_meta(current);
    let ghost pred = |c: Seq<i32>| bound(c);
    let ghost first = seq![KEY_META, 0i32, 0i32, 0i32];
    let mut keys: Vec<Vec<i32>> = Vec::new();
    keys.push(vec![KEY_META, 0, 0, 0]);
    proof {
        reveal(Seq::filter);
    }
    assert(keys_view(keys@) =~= seq![first]);
    let mut i: usize = 0;
    while i < others.len()
        invariant
            i <= others@.len(),
            pred == (|c: Seq<i32>| bound(c)),
            first == seq![KEY_META, 0i32, 0i32, 0i32],
            keys_view(keys@) == seq![first] + keys_view(others@.subrange(0, i as int)).filter(pred),
        decreases others@.len() - i,
    {
        proof {
            reveal(Seq::filter);
        }
        let ghost before = keys_view(others@.subrange(0, i as int));
        assert(keys_view(others@.subrange(0, i + 1)) =~= before.push(others@[i as int]@));
        assert(before.push(others@[i as int]@).drop_last() =~= before);
        if is_bound(&others[i]) {
            let ghost old_keys = keys_view(keys@);
            let combo = others[i].clone();
            assert(combo@ =~= others@[i as int]@);
            keys.push(combo);
            assert(keys_view(keys@) =~= old_keys.push(others@[i as int]@));
        }
        i = i + 1;
    }
    assert(others@.subrange(0, others@.len() as int) =~= others@);
    let message = if took_meta {
        "Meta now opens NurSearch (removed from the Kickoff launcher)".to_string()
    } else {
        "Meta now opens NurSearch".to_string()
    };
    MetaBinding { kickoff: if took_meta { Some(kickoff_kept) } else { None }, keys, message }
}

/// The launcher's keys after binding Meta: Meta first, then its other bound
/// combinations.
pub open spec fn bound_keys(current: Seq<Seq<i32>>) -> Seq<Seq<i32>> {
    seq![seq![KEY_META, 0i32, 0i32, 0i32]] + bound_only(without_lone_meta(current))
}

/// Binding Meta leaves exactly one lone-Meta combination among the
/// launcher's keys, the first, and none in Kickoff's.
pub proof fn lemma_binding_leaves_one_meta(current: Seq<Seq<i32>>, kickoff: Seq<Seq<i32>>)
    ensures
        lone_meta(bound_keys(current)[0]),
        forall|k: int| 1 <= k < bound_keys(current).len() ==> !lone_meta(#[trigger] bound_keys(current)[k]),
        forall|k: int|
            0 <= k < without_lone_meta(kickoff).len() ==> !lone_meta(#[trigger] without_lone_meta(kickoff)[k]),
{
    let keys = bound_keys(current);
    let others = without_lone_meta(current);
    let kept = bound_only(others);
    assert forall|k: int| 1 <= k < keys.len() implies !lone_meta(#[trigger] keys[k]) by {
        assert(keys[k] == kept[k - 1]);
        assert(kept.contains(kept[k - 1]));
        others.lemma_filter_contains_rev(|c: Seq<i32>| bound(c), kept[k - 1]);
        let j = choose|j: int| 0 <= j < others.len() && others[j] == kept[k - 1];
        current.lemma_filter_pred(|c: Seq<i32>| !lone_meta(c), j);
    }
    assert forall|k: int| 0 <= k < without_lone_meta(kickoff).len() implies !lone_meta(
        #[trigger] without_lone_meta(kickoff)[k],
    ) by {
        kickoff.lemma_filter_pred(|c: Seq<i32>| !lone_meta(c), k);
    }
}

/// Taking lone-Meta combinations away twice changes nothing the second time.
pub proof fn lemma_without_meta_idempotent(keys: Seq<Seq<i32>>)
    ensures
        without_lone_meta(without_lone_meta(keys)) == without_lone_meta(keys),
{
    let once = without_lone_meta(keys);
    lemma_filter_keeps_all(once, |c: Seq<i32>| !lone_meta(c));
}

/// Filtering a sequence whose items all pass keeps it whole.
proof fn lemma_filter_keeps_all(s: Seq<Seq<i32>>, pred: spec_fn(Seq<i32>) -> bool)
    requires
        forall|i: int| 0 <= i < s.len() ==> pred(#[trigger] s[i]),
    ensures
        s.filter(pred) == s,
    decreases s.len(),
{
    reveal(Seq::filter);
    if s.len() > 0 {
        lemma_filter_keeps_all(s.drop_last(), pred);
        assert(s.drop_last().push(s.last()) =~= s);
    }
}

} // verus!
