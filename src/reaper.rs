//! The orphan reaper: which directories under the indexes root no recorded
//! identifier claims, and so are the residue of an interrupted create or
//! destroy.
use crate::registry::{pairs_ids, Id, IndexOptions, WorkerStartup};
use std::sync::Arc;
use vstd::prelude::*;

verus! {

/// The character of one decimal digit.
pub open spec fn digit_char(d: nat) -> char {
    seq!['0', '1', '2', '3', '4', '5', '6', '7', '8', '9'][d as int]
}

/// The decimal form of `n`: most significant digit first, no leading zero.
pub open spec fn decimal(n: nat) -> Seq<char>
    decreases n,
{
    if n < 10 {
        seq![digit_char(n)]
    } else {
        decimal(n / 10).push(digit_char(n % 10))
    }
}

/// Relies on the `Display` of `u32` (through `to_string`): the decimal form of
/// the number.
#[verifier::external_body]
fn decimal_string(n: u32) -> (r: String)
    ensures
        r@ == decimal(n as nat),
{
    n.to_string()
}

/// The name of the directory that holds index `id`.
pub fn index_dir_name(id: Id) -> (r: String)
    ensures
        r@ == decimal(id as nat),
{
    decimal_string(id)
}

/// Whether some identifier of the record has a directory named `name`.
pub open spec fn is_claimed(name: Seq<char>, record: Map<Id, IndexOptions>) -> bool {
    exists|k: Id| record.contains_key(k) && decimal(k as nat) == name
}

/// The names among `dirs`, in order, that no identifier of the record claims.
pub open spec fn orphan_names(dirs: Seq<Seq<char>>, record: Map<Id, IndexOptions>) -> Seq<Seq<char>>
    decreases dirs.len(),
{
    if dirs.len() == 0 {
        Seq::empty()
    } else {
        let rest = orphan_names(dirs.drop_last(), record);
        if is_claimed(dirs.last(), record) {
            rest
        } else {
            rest.push(dirs.last())
        }
    }
}

/// The views of a sequence of strings.
pub open spec fn names_of(s: Seq<String>) -> Seq<Seq<char>> {
    s.map_values(|x: String| x@)
}

/// The directories among `dirs` to delete at startup: those whose name no
/// identifier of the record claims, in the order of `dirs`.
pub fn orphans(dirs: &Vec<String>, startup: &WorkerStartup) -> (r: Vec<String>)
    ensures
        names_of(r@) == orphan_names(names_of(dirs@), startup@),
{
    let entries = startup.entries();
    let ghost ids = pairs_ids(entries@);
    let mut names: Vec<String> = Vec::new();
    let mut j: usize = 0;
    while j < entries.len()
        invariant
            0 <= j <= entries@.len(),
            ids == pairs_ids(entries@),
            names@.len() == j,
            forall|a: int| 0 <= a < j ==> #[trigger] names@[a]@ == decimal(ids[a] as nat),
        decreases entries@.len() - j,
    {
        names.push(index_dir_name(entries[j].0));
        j += 1;
    }
    let mut out: Vec<String> = Vec::new();
    let mut i: usize = 0;
    while i < dirs.len()
        invariant
            0 <= i <= dirs@.len(),
            names@.len() == entries@.len(),
            ids.to_set() == startup@.dom(),
            ids == pairs_ids(entries@),
            forall|a: int| 0 <= a < names@.len() ==> #[trigger] names@[a]@ == decimal(ids[a] as nat),
            names_of(out@) == orphan_names(names_of(dirs@).take(i as int), startup@),
        decreases dirs@.len() - i,
    {
        let d = &dirs[i];
        let mut claimed = false;
        let mut a: usize = 0;
        while a < names.len()
            invariant
                0 <= a <= names@.len(),
                claimed <==> exists|b: int| 0 <= b < a && names@[b]@ == d@,
            decreases names@.len() - a,
        {
            if names[a] == *d {
                claimed = true;
            }
            a += 1;
        }
        proof {
            let pre = names_of(dirs@).take(i as int);
            let next = names_of(dirs@).take(i + 1);
            assert(next.drop_last() =~= pre);
            assert(next.last() == d@);
            if claimed {
                let b = choose|b: int| 0 <= b < a && names@[b]@ == d@;
                assert(ids.contains(ids[b]));
                assert(startup@.contains_key(ids[b]));
                assert(is_claimed(d@, startup@));
            } else {
                assert forall|k: Id| startup@.contains_key(k) implies decimal(k as nat) != d@ by {
                    assert(ids.to_set().contains(k));
                    let b = choose|b: int| 0 <= b < ids.len() && ids[b] == k;
                    assert(names@[b]@ == decimal(ids[b] as nat));
                }
            }
        }
        if !claimed {
            let ghost prev = out@;
            out.push(dirs[i].clone());
            assert(names_of(out@) =~= names_of(prev).push(d@));
        }
        i += 1;
    }
    assert(names_of(dirs@).take(dirs@.len() as int) =~= names_of(dirs@));
    out
}

/// After a crash at any point, the reaper keeps the directory of every
/// recorded identifier and deletes every listed directory that no recorded
/// identifier claims, so a reopened registry, whose identifiers are exactly
/// the recorded ones, names no deleted directory and leaves no unclaimed one.
pub proof fn lemma_reaper_exact(dirs: Seq<Seq<char>>, record: Map<Id, IndexOptions>)
    ensures
        forall|k: Id| #[trigger]
            record.contains_key(k) ==> !orphan_names(dirs, record).contains(decimal(k as nat)),
        forall|i: int|
            0 <= i < dirs.len() && !is_claimed(#[trigger] dirs[i], record) ==> orphan_names(
                dirs,
                record,
            ).contains(dirs[i]),
    decreases dirs.len(),
{
    if dirs.len() > 0 {
        let rest = dirs.drop_last();
        lemma_reaper_exact(rest, record);
        assert forall|k: Id| #[trigger]
            record.contains_key(k) implies !orphan_names(dirs, record).contains(decimal(k as nat)) by {
            if orphan_names(dirs, record).contains(decimal(k as nat)) {
                if !orphan_names(rest, record).contains(decimal(k as nat)) {
                    assert(dirs.last() == decimal(k as nat));
                    assert(is_claimed(dirs.last(), record));
                }
            }
        }
        assert forall|i: int|
            0 <= i < dirs.len() && !is_claimed(#[trigger] dirs[i], record) implies orphan_names(
            dirs,
            record,
        ).contains(dirs[i]) by {
            if i < dirs.len() - 1 {
                assert(rest[i] == dirs[i]);
                let j = choose|j: int| 0 <= j < orphan_names(rest, record).len() && orphan_names(rest, record)[j] == rest[i];
                if !is_claimed(dirs.last(), record) {
                    assert(orphan_names(dirs, record)[j] == dirs[i]);
                }
            } else {
                let o = orphan_names(dirs, record);
                assert(o[o.len() - 1] == dirs[i]);
            }
        }
    }
}

/// A registry reopened from a record (its identifiers are exactly the
/// recorded ones) names no directory that the reaper deletes.
pub proof fn lemma_reopened_names_no_orphan<H>(
    dirs: Seq<Seq<char>>,
    record: Map<Id, IndexOptions>,
    reopened: Map<Id, (Arc<H>, IndexOptions)>,
)
    requires
        reopened.dom() == record.dom(),
    ensures
        forall|k: Id| #[trigger]
            reopened.contains_key(k) ==> !orphan_names(dirs, record).contains(decimal(k as nat)),
{
    lemma_reaper_exact(dirs, record);
    assert forall|k: Id| #[trigger] reopened.contains_key(k) implies !orphan_names(
        dirs,
        record,
    ).contains(decimal(k as nat)) by {
        assert(record.contains_key(k));
    }
}

} // verus!
