//! Recently viewed repos: a most-recent-first list (persisted by the host).

use std::time::{Duration, SystemTime, SystemTimeError};

use vstd::prelude::*;
use vstd::string::*;

use crate::rad::RepoSummary;
use crate::text::{
    contains, decimal, decimal_u64, has_substring, lowercase, owned, str_eq, to_lowercase, trim,
    trim_ws,
};

verus! {

/// At most this many recent repos are kept.
pub const MAX_RECENT: usize = 10;

/// One recently opened repo.
#[derive(Debug, Clone)]
pub struct RecentRepo {
    pub rid: String,
    pub name: String,
    pub description: String,
    pub opened_at: u64,
}

impl crate::text::Duplicate for RecentRepo {
    fn duplicate(&self) -> (r: Self) {
        RecentRepo {
            rid: self.rid.clone(),
            name: self.name.clone(),
            description: self.description.clone(),
            opened_at: self.opened_at,
        }
    }
}

impl<'a> From<&'a RecentRepo> for RepoSummary {
    fn from(r: &'a RecentRepo) -> (s: Self) {
        RepoSummary { rid: r.rid.clone(), name: r.name.clone(), description: r.description.clone() }
    }
}

impl<'a> vstd::std_specs::convert::FromSpecImpl<&'a RecentRepo> for RepoSummary {
    open spec fn obeys_from_spec() -> bool {
        true
    }

    open spec fn from_spec(r: &'a RecentRepo) -> RepoSummary {
        RepoSummary { rid: r.rid, name: r.name, description: r.description }
    }
}

#[verifier::external_type_specification]
#[verifier::external_body]
pub struct ExSystemTime(SystemTime);

#[verifier::external_type_specification]
#[verifier::external_body]
pub struct ExSystemTimeError(SystemTimeError);

/// Trusted: `SystemTime::now` from std, the current wall-clock time. Nothing is
/// stated of the value, which depends on the clock.
#[verifier::external_body]
fn system_now() -> SystemTime {
    SystemTime::now()
}

/// Trusted: the constant `SystemTime::UNIX_EPOCH` from std.
#[verifier::external_body]
fn unix_epoch() -> SystemTime {
    SystemTime::UNIX_EPOCH
}

/// Trusted: `SystemTime::duration_since` from std; it fails when `earlier` is
/// later than `t`. Nothing is stated of the result, which depends on the clock.
#[verifier::external_body]
fn duration_since(t: &SystemTime, earlier: SystemTime) -> Result<Duration, SystemTimeError> {
    t.duration_since(earlier)
}

/// Trusted: `Duration::as_secs` from std, the whole seconds of `d`. `Duration`
/// is opaque here, so nothing is stated of the number.
#[verifier::external_body]
fn duration_secs(d: &Duration) -> u64 {
    d.as_secs()
}

/// Seconds since the Unix epoch by the system clock (0 when the clock is
/// before the epoch).
pub fn now_secs() -> u64 {
    let now = system_now();
    match duration_since(&now, unix_epoch()) {
        Ok(d) => duration_secs(&d),
        Err(_) => 0,
    }
}

/// `list` without the entries for `rid`, order kept.
pub open spec fn without_recent(list: Seq<RecentRepo>, rid: Seq<char>) -> Seq<RecentRepo>
    decreases list.len(),
{
    if list.len() == 0 {
        list
    } else if list.last().rid@ == rid {
        without_recent(list.drop_last(), rid)
    } else {
        without_recent(list.drop_last(), rid).push(list.last())
    }
}

/// The list after recording `entry`: it goes to the front, replacing any entry
/// for the same repo, and the list is capped at [`MAX_RECENT`].
pub open spec fn recorded_recent(list: Seq<RecentRepo>, entry: RecentRepo) -> Seq<RecentRepo> {
    let all = seq![entry] + without_recent(list, entry.rid@);
    if all.len() > MAX_RECENT {
        all.take(MAX_RECENT as int)
    } else {
        all
    }
}

/// Insert or move the repo `rid` to the front (most recent), stamped with the
/// current time. Caps at [`MAX_RECENT`].
pub fn record(list: &mut Vec<RecentRepo>, rid: &str, name: &str, description: &str)
    ensures
        final(list)@ == recorded_recent(old(list)@, final(list)@[0]),
        final(list)@[0].rid@ == rid@,
        final(list)@[0].name@ == name@,
        final(list)@[0].description@ == description@,
{
    let now = now_secs();
    record_at(list, rid, name, description, now);
}

/// Insert or move the repo `rid` to the front (most recent), stamped with
/// `now`. Caps at [`MAX_RECENT`].
pub fn record_at(list: &mut Vec<RecentRepo>, rid: &str, name: &str, description: &str, now: u64)
    ensures
        final(list)@ == recorded_recent(old(list)@, final(list)@[0]),
        final(list)@[0].rid@ == rid@,
        final(list)@[0].name@ == name@,
        final(list)@[0].description@ == description@,
        final(list)@[0].opened_at == now,
{
    let entry = RecentRepo {
        rid: owned(rid),
        name: owned(name),
        description: owned(description),
        opened_at: now,
    };
    let ghost e = entry;
    let mut kept: Vec<RecentRepo> = Vec::new();
    kept.push(entry);
    let mut old_list: Vec<RecentRepo> = Vec::new();
    std::mem::swap(&mut old_list, list);
    let mut k: usize = 0;
    while k < old_list.len()
        invariant
            k <= old_list@.len(),
            kept@.len() >= 1,
            kept@[0] == e,
            e.rid@ == rid@,
            old_list@ == old(list)@,
            kept@ == seq![e] + without_recent(old_list@.take(k as int), rid@),
        decreases old_list@.len() - k,
    {
        proof {
            assert(old_list@.take(k + 1).drop_last() =~= old_list@.take(k as int));
            assert(old_list@.take(k + 1).last() == old_list@[k as int]);
        }
        if !str_eq(old_list[k].rid.as_str(), rid) {
            kept.push(crate::text::Duplicate::duplicate(&old_list[k]));
        }
        k += 1;
    }
    proof {
        assert(old_list@.take(old_list@.len() as int) =~= old_list@);
    }
    kept.truncate(MAX_RECENT);
    *list = kept;
    proof {
        let all = seq![e] + without_recent(old(list)@, rid@);
        if all.len() > MAX_RECENT {
            assert(list@ =~= all.take(MAX_RECENT as int));
        } else {
            assert(list@ =~= all);
        }
    }
}

/// No two entries are for the same repo.
pub open spec fn distinct_recent(list: Seq<RecentRepo>) -> bool {
    forall|i: int, j: int| 0 <= i < j < list.len() ==> (#[trigger] list[i]).rid@ != (#[trigger] list[j]).rid@
}

/// What `without_recent` keeps: entries of the input for other repos, all of
/// them when none is for `rid`, and distinct ids stay distinct.
pub proof fn lemma_without_recent(list: Seq<RecentRepo>, rid: Seq<char>)
    ensures
        without_recent(list, rid).len() <= list.len(),
        forall|i: int|
            0 <= i < without_recent(list, rid).len() ==> (#[trigger] without_recent(list, rid)[i]).rid@
                != rid,
        forall|i: int|
            0 <= i < without_recent(list, rid).len() ==> list.contains(
                #[trigger] without_recent(list, rid)[i],
            ),
        (forall|i: int| 0 <= i < list.len() ==> (#[trigger] list[i]).rid@ != rid) ==> without_recent(
            list,
            rid,
        ) == list,
        distinct_recent(list) ==> distinct_recent(without_recent(list, rid)),
    decreases list.len(),
{
    if list.len() > 0 {
        let init = list.drop_last();
        lemma_without_recent(init, rid);
        let w = without_recent(init, rid);
        assert forall|i: int| 0 <= i < w.len() implies list.contains(#[trigger] w[i]) by {
            let k = choose|k: int| 0 <= k < init.len() && init[k] == w[i];
            assert(list[k] == init[k]);
        }
        if forall|i: int| 0 <= i < list.len() ==> (#[trigger] list[i]).rid@ != rid {
            assert forall|i: int| 0 <= i < init.len() implies (#[trigger] init[i]).rid@ != rid by {
                assert(init[i] == list[i]);
            }
            assert(list[list.len() - 1].rid@ != rid);
            assert(init.push(list.last()) =~= list);
        }
        if distinct_recent(list) {
            assert(distinct_recent(init)) by {
                assert forall|i: int, j: int| 0 <= i < j < init.len() implies (#[trigger] init[i]).rid@
                    != (#[trigger] init[j]).rid@ by {
                    assert(init[i] == list[i]);
                    assert(init[j] == list[j]);
                }
            }
        }
        if list.last().rid@ != rid {
            let w2 = w.push(list.last());
            assert forall|i: int| 0 <= i < w2.len() implies list.contains(#[trigger] w2[i]) by {
                if i < w.len() {
                    assert(w2[i] == w[i]);
                } else {
                    assert(list[list.len() - 1] == w2[i]);
                }
            }
            if distinct_recent(list) {
                assert forall|i: int, j: int| 0 <= i < j < w2.len() implies (#[trigger] w2[i]).rid@
                    != (#[trigger] w2[j]).rid@ by {
                    if j == w.len() {
                        let k = choose|k: int| 0 <= k < init.len() && init[k] == w[i];
                        assert(list[k] == init[k]);
                        assert(w2[j] == list[list.len() - 1]);
                    } else {
                        assert(w2[i] == w[i]);
                        assert(w2[j] == w[j]);
                    }
                }
            }
        }
    }
}

/// Law: after recording `entry`, it is the first entry, the list holds at most
/// [`MAX_RECENT`] entries, every other entry is an earlier one for another
/// repo, distinct repo ids stay distinct, and a new repo added to a list with
/// room keeps every earlier entry.
pub proof fn lemma_record_recent(list: Seq<RecentRepo>, entry: RecentRepo)
    ensures
        recorded_recent(list, entry).len() >= 1,
        recorded_recent(list, entry)[0] == entry,
        recorded_recent(list, entry).len() <= MAX_RECENT,
        forall|i: int|
            1 <= i < recorded_recent(list, entry).len() ==> (#[trigger] recorded_recent(
                list,
                entry,
            )[i]).rid@ != entry.rid@ && list.contains(recorded_recent(list, entry)[i]),
        distinct_recent(list) ==> distinct_recent(recorded_recent(list, entry)),
        (forall|i: int| 0 <= i < list.len() ==> (#[trigger] list[i]).rid@ != entry.rid@) && list.len()
            < MAX_RECENT ==> recorded_recent(list, entry) == seq![entry] + list,
{
    lemma_without_recent(list, entry.rid@);
    let w = without_recent(list, entry.rid@);
    let all = seq![entry] + w;
    let r = recorded_recent(list, entry);
    assert forall|i: int| 1 <= i < r.len() implies (#[trigger] r[i]).rid@ != entry.rid@
        && list.contains(r[i]) by {
        assert(r[i] == all[i]);
        assert(all[i] == w[i - 1]);
    }
    if distinct_recent(list) {
        assert forall|i: int, j: int| 0 <= i < j < r.len() implies (#[trigger] r[i]).rid@
            != (#[trigger] r[j]).rid@ by {
            assert(r[j] == w[j - 1]);
            if i > 0 {
                assert(r[i] == w[i - 1]);
            }
        }
    }
}

/// A repo matches the search text `q` (already trimmed and lowercased): `q` is
/// empty or occurs in its lowercased name, RID or description.
pub open spec fn repo_matches(name: Seq<char>, rid: Seq<char>, description: Seq<char>, q: Seq<char>) -> bool {
    ||| q.len() == 0
    ||| has_substring(lowercase(name), q)
    ||| has_substring(lowercase(rid), q)
    ||| has_substring(lowercase(description), q)
}

/// Search match by name / RID / description (`q` already trimmed and lowercased).
pub fn matches_query(name: &str, rid: &str, description: &str, q: &str) -> (r: bool)
    ensures
        r == repo_matches(name@, rid@, description@, q@),
{
    if q.is_empty() {
        return true;
    }
    contains(to_lowercase(name).as_str(), q) || contains(to_lowercase(rid).as_str(), q)
        || contains(to_lowercase(description).as_str(), q)
}

/// The entries of `list` that match search `q`, order kept.
pub open spec fn matching_recent(list: Seq<RecentRepo>, q: Seq<char>) -> Seq<RecentRepo>
    decreases list.len(),
{
    if list.len() == 0 {
        list
    } else if repo_matches(list.last().name@, list.last().rid@, list.last().description@, q) {
        matching_recent(list.drop_last(), q).push(list.last())
    } else {
        matching_recent(list.drop_last(), q)
    }
}

/// Filter recent entries by name/RID/description substring (same rules as the
/// local inventory): the query is trimmed and lowercased first.
pub fn filter<'a>(repos: &'a [RecentRepo], query: &str) -> (r: Vec<&'a RecentRepo>)
    ensures
        r@.len() == matching_recent(repos@, lowercase(trim_ws(query@))).len(),
        forall|i: int|
            0 <= i < r@.len() ==> *(#[trigger] r@[i]) == matching_recent(
                repos@,
                lowercase(trim_ws(query@)),
            )[i],
{
    let q = to_lowercase(trim(query));
    let ghost qs = q@;
    let mut out: Vec<&'a RecentRepo> = Vec::new();
    let mut k: usize = 0;
    while k < repos.len()
        invariant
            k <= repos@.len(),
            qs == q@,
            qs == lowercase(trim_ws(query@)),
            out@.len() == matching_recent(repos@.take(k as int), qs).len(),
            forall|i: int|
                0 <= i < out@.len() ==> *(#[trigger] out@[i]) == matching_recent(
                    repos@.take(k as int),
                    qs,
                )[i],
        decreases repos@.len() - k,
    {
        proof {
            assert(repos@.take(k + 1).drop_last() =~= repos@.take(k as int));
            assert(repos@.take(k + 1).last() == repos@[k as int]);
        }
        let r = &repos[k];
        if matches_query(r.name.as_str(), r.rid.as_str(), r.description.as_str(), q.as_str()) {
            out.push(r);
        }
        k += 1;
    }
    proof {
        assert(repos@.take(repos@.len() as int) =~= repos@);
    }
    out
}

/// The repos of `list` that match search `q`, order kept.
pub open spec fn matching_local(list: Seq<RepoSummary>, q: Seq<char>) -> Seq<RepoSummary>
    decreases list.len(),
{
    if list.len() == 0 {
        list
    } else if repo_matches(list.last().name@, list.last().rid@, list.last().description@, q) {
        matching_local(list.drop_last(), q).push(list.last())
    } else {
        matching_local(list.drop_last(), q)
    }
}

/// Filter the local inventory by name/RID/description substring, with the
/// same rules as [`filter`].
pub fn filter_local<'a>(repos: &'a [RepoSummary], query: &str) -> (r: Vec<&'a RepoSummary>)
    ensures
        r@.len() == matching_local(repos@, lowercase(trim_ws(query@))).len(),
        forall|i: int|
            0 <= i < r@.len() ==> *(#[trigger] r@[i]) == matching_local(
                repos@,
                lowercase(trim_ws(query@)),
            )[i],
{
    let q = to_lowercase(trim(query));
    let ghost qs = q@;
    let mut out: Vec<&'a RepoSummary> = Vec::new();
    let mut k: usize = 0;
    while k < repos.len()
        invariant
            k <= repos@.len(),
            qs == q@,
            qs == lowercase(trim_ws(query@)),
            out@.len() == matching_local(repos@.take(k as int), qs).len(),
            forall|i: int|
                0 <= i < out@.len() ==> *(#[trigger] out@[i]) == matching_local(
                    repos@.take(k as int),
                    qs,
                )[i],
        decreases repos@.len() - k,
    {
        proof {
            assert(repos@.take(k + 1).drop_last() =~= repos@.take(k as int));
            assert(repos@.take(k + 1).last() == repos@[k as int]);
        }
        let r = &repos[k];
        if matches_query(r.name.as_str(), r.rid.as_str(), r.description.as_str(), q.as_str()) {
            out.push(r);
        }
        k += 1;
    }
    proof {
        assert(repos@.take(repos@.len() as int) =~= repos@);
    }
    out
}

/// The note above a filtered inventory: `{shown} of {total} repos`.
pub fn match_count_text(shown: usize, total: usize) -> (r: String)
    ensures
        r@ == decimal(shown as nat) + " of "@ + decimal(total as nat) + " repos"@,
{
    let mut s = decimal_u64(shown as u64);
    s.append(" of ");
    s.append(decimal_u64(total as u64).as_str());
    s.append(" repos");
    s
}

} // verus!
