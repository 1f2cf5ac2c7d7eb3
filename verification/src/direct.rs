//! Per-item download aggregation: each manifest item's file entries are
//! processed in order, failing fast on the first template or fetch failure,
//! while sibling items are isolated and results stay positionally aligned
//! with the manifest order. Fetching itself is the caller's collaborator;
//! its per-entry outcomes are taken as input and every aggregation decision
//! over them is verified.
use vstd::prelude::*;

verus! {

use crate::error::{IoError, IoErrorView, IoKind};
use crate::template::{resolve_spec, TemplateError, UrlTokenizer};
use vstd::string::StringExecFns;

/// One artifact to fetch: a templated URL with optional per-file overrides.
#[derive(Clone, Debug, PartialEq, Eq)]
pub struct FileEntry {
    pub url_template: String,
    pub name_override: Option<String>,
    pub arch_override: Option<String>,
    pub checksum: Option<String>,
}

/// One manifest package: a name, a version and its ordered file entries.
#[derive(Clone, Debug, PartialEq, Eq)]
pub struct PackageItem {
    pub name: String,
    pub version: String,
    pub urls: Vec<FileEntry>,
}

/// Message returned when a download has succeeded.
#[derive(Clone, Copy, Debug, PartialEq, Eq)]
pub enum DownloadResult {
    Downloaded(u64),
}

/// The name used for an entry: its override when present, else the item's.
pub open spec fn effective_name(entry: FileEntry, item_name: Seq<char>) -> Seq<char> {
    match entry.name_override {
        Some(n) => n@,
        None => item_name,
    }
}

/// The error an unsupported template token turns into.
pub open spec fn template_failure(token: Seq<char>) -> IoErrorView {
    IoErrorView { kind: IoKind::InvalidData, message: "unsupported variable: "@ + token }
}

/// Sum of all transferred-byte counts among `outcomes`.
pub open spec fn ok_sum(outcomes: Seq<Result<u64, IoError>>) -> int
    decreases outcomes.len(),
{
    if outcomes.len() == 0 {
        0
    } else {
        ok_sum(outcomes.drop_last()) + (match outcomes.last() {
            Ok(b) => b as int,
            Err(_) => 0,
        })
    }
}

proof fn lemma_ok_sum_take_succ(outcomes: Seq<Result<u64, IoError>>, i: int)
    requires
        0 <= i < outcomes.len(),
    ensures
        ok_sum(outcomes.take(i + 1)) == ok_sum(outcomes.take(i)) + (match outcomes[i] {
            Ok(b) => b as int,
            Err(_) => 0,
        }),
{
    assert(outcomes.take(i + 1).drop_last() =~= outcomes.take(i));
    assert(outcomes.take(i + 1).last() == outcomes[i]);
}

proof fn lemma_ok_sum_take_le(outcomes: Seq<Result<u64, IoError>>, i: int)
    requires
        0 <= i <= outcomes.len(),
    ensures
        ok_sum(outcomes.take(i)) <= ok_sum(outcomes),
    decreases outcomes.len() - i,
{
    if i == outcomes.len() {
        assert(outcomes.take(i) =~= outcomes);
    } else {
        lemma_ok_sum_take_succ(outcomes, i);
        lemma_ok_sum_take_le(outcomes, i + 1);
    }
}

/// Outcome of processing an item's entries from index `i` on: the first
/// failure (unsupported template token, or the entry's fetch outcome), or
/// the total bytes of the remaining fetches.
pub open spec fn item_outcome_from(
    urls: Seq<FileEntry>,
    item_name: Seq<char>,
    version: Seq<char>,
    outcomes: Seq<Result<u64, IoError>>,
    i: int,
) -> Result<int, IoErrorView>
    decreases urls.len() - i,
{
    if i >= urls.len() {
        Ok(0)
    } else {
        match resolve_spec(urls[i].url_template@, effective_name(urls[i], item_name), version) {
            Err(token) => Err(template_failure(token)),
            Ok(_url) => match outcomes[i] {
                Err(e) => Err(e@),
                Ok(b) => match item_outcome_from(urls, item_name, version, outcomes, i + 1) {
                    Ok(rest) => Ok(b + rest),
                    Err(e) => Err(e),
                },
            },
        }
    }
}

/// Whether an executable per-item result carries exactly the modelled
/// outcome.
pub open spec fn result_matches(
    r: Result<DownloadResult, IoError>,
    m: Result<int, IoErrorView>,
) -> bool {
    match r {
        Ok(DownloadResult::Downloaded(b)) => m == Ok::<int, IoErrorView>(b as int),
        Err(e) => m == Err::<int, IoErrorView>(e@),
    }
}

/// Aggregate one item's per-entry fetch outcomes in entry order, fail-fast:
/// each entry's URL template is resolved, then the entry's fetch outcome is
/// consumed; the first failure of either kind is the item's failure, and
/// otherwise the transferred bytes are summed.
pub fn download(item: &PackageItem, outcomes: &Vec<Result<u64, IoError>>) -> (r: Result<
    DownloadResult,
    IoError,
>)
    requires
        outcomes@.len() == item.urls@.len(),
        ok_sum(outcomes@) <= u64::MAX,
    ensures
        result_matches(r, item_outcome_from(item.urls@, item.name@, item.version@, outcomes@, 0)),
{
    let n: usize = item.urls.len();
    let mut total: u64 = 0;
    let mut i: usize = 0;
    proof {
        assert(outcomes@.take(0) =~= Seq::<Result<u64, IoError>>::empty());
    }
    while i < n
        invariant
            i <= n,
            n == item.urls@.len(),
            outcomes@.len() == item.urls@.len(),
            ok_sum(outcomes@) <= u64::MAX,
            total as int == ok_sum(outcomes@.take(i as int)),
            item_outcome_from(item.urls@, item.name@, item.version@, outcomes@, 0) == (
            match item_outcome_from(item.urls@, item.name@, item.version@, outcomes@, i as int) {
                Ok(rest) => Ok::<int, IoErrorView>(total as int + rest),
                Err(e) => Err::<int, IoErrorView>(e),
            }),
        decreases n - i,
    {
        let entry = &item.urls[i];
        let ename: &str = match &entry.name_override {
            Some(x) => x.as_str(),
            None => item.name.as_str(),
        };
        proof {
            assert(ename@ == effective_name(item.urls@[i as int], item.name@));
        }
        match UrlTokenizer::finalize(entry.url_template.as_str(), ename, item.version.as_str()) {
            Err(TemplateError::UnsupportedVariable(token)) => {
                let mut message: String = "unsupported variable: ".to_owned();
                message.append(token.as_str());
                let e = IoError { kind: IoKind::InvalidData, message };
                proof {
                    assert(e@ == template_failure(token@));
                }
                return Err(e);
            },
            Ok(_url) => {
                match &outcomes[i] {
                    Err(e) => {
                        return Err(e.duplicate());
                    },
                    Ok(b) => {
                        proof {
                            lemma_ok_sum_take_succ(outcomes@, i as int);
                            lemma_ok_sum_take_le(outcomes@, i as int + 1);
                            let mnext = item_outcome_from(
                                item.urls@,
                                item.name@,
                                item.version@,
                                outcomes@,
                                i as int + 1,
                            );
                            match mnext {
                                Ok(rest) => {},
                                Err(_) => {},
                            }
                        }
                        total = total + *b;
                        i = i + 1;
                    },
                }
            },
        }
    }
    Ok(DownloadResult::Downloaded(total))
}

/// Process every item against its own row of fetch outcomes. The result
/// sequence is positionally aligned with the manifest order, and one item's
/// failure leaves every other item's outcome untouched.
pub fn parallel(items: &Vec<PackageItem>, outcomes: &Vec<Vec<Result<u64, IoError>>>) -> (r: Vec<
    Result<DownloadResult, IoError>,
>)
    requires
        outcomes@.len() == items@.len(),
        forall|i: int|
            0 <= i < items@.len() ==> #[trigger] outcomes@[i]@.len() == items@[i].urls@.len(),
        forall|i: int| 0 <= i < items@.len() ==> ok_sum(#[trigger] outcomes@[i]@) <= u64::MAX,
    ensures
        r@.len() == items@.len(),
        forall|i: int|
            0 <= i < items@.len() ==> result_matches(
                #[trigger] r@[i],
                item_outcome_from(
                    items@[i].urls@,
                    items@[i].name@,
                    items@[i].version@,
                    outcomes@[i]@,
                    0,
                ),
            ),
{
    let n: usize = items.len();
    let mut results: Vec<Result<DownloadResult, IoError>> = Vec::new();
    let mut i: usize = 0;
    while i < n
        invariant
            i <= n,
            n == items@.len(),
            outcomes@.len() == items@.len(),
            forall|k: int|
                0 <= k < items@.len() ==> #[trigger] outcomes@[k]@.len() == items@[k].urls@.len(),
            forall|k: int| 0 <= k < items@.len() ==> ok_sum(#[trigger] outcomes@[k]@) <= u64::MAX,
            results@.len() == i as int,
            forall|k: int|
                0 <= k < i ==> result_matches(
                    #[trigger] results@[k],
                    item_outcome_from(
                        items@[k].urls@,
                        items@[k].name@,
                        items@[k].version@,
                        outcomes@[k]@,
                        0,
                    ),
                ),
        decreases n - i,
    {
        let one = download(&items[i], &outcomes[i]);
        results.push(one);
        i = i + 1;
    }
    results
}

} // verus!
