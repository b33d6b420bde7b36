//! The summary posted to a webhook after an install.
use vstd::prelude::*;
use crate::models::BrewPackageResult;
use crate::text::{is_blank, trim, trim_str};

verus! {

/// What is posted to the webhook.
pub struct WebhookPayload {
    pub status: String,
    pub total: usize,
    pub completed: usize,
    pub failed: usize,
    pub packages: Vec<BrewPackageResult>,
    pub elapsed_seconds: u64,
    pub machine_id: String,
}

/// The machine identifier used when none is given: the `HOSTNAME` variable, else
/// `COMPUTERNAME`, else `unknown` (the caller reads the two variables).
pub fn default_machine_id(hostname: Option<String>, computername: Option<String>) -> (r: String)
    ensures
        r@ == match hostname {
            Some(h) => h@,
            None => match computername {
                Some(c) => c@,
                None => "unknown"@,
            },
        },
{
    match hostname {
        Some(h) => h,
        None => match computername {
            Some(c) => c,
            None => String::from_str("unknown"),
        },
    }
}

/// The machine identifier for a payload: the given one, trimmed, unless it is blank, in which
/// case `default`.
pub fn choose_machine_id(given: &str, default: String) -> (r: String)
    ensures
        r@ == if trim(given@).len() == 0 {
            default@
        } else {
            trim(given@)
        },
{
    if is_blank(given) {
        default
    } else {
        trim_str(given)
    }
}

/// How many results carry the status `word`.
pub open spec fn count_status(results: Seq<BrewPackageResult>, word: Seq<char>) -> nat
    decreases results.len(),
{
    if results.len() == 0 {
        0
    } else {
        count_status(results.drop_last(), word) + if results.last().status@ == word {
            1nat
        } else {
            0nat
        }
    }
}

/// How many results carry the status `word`.
pub fn count_with_status(results: &Vec<BrewPackageResult>, word: &str) -> (r: usize)
    ensures
        r == count_status(results@, word@),
{
    let w = String::from_str(word);
    let mut n: usize = 0;
    let mut i: usize = 0;
    while i < results.len()
        invariant
            i <= results.len(),
            w@ == word@,
            n == count_status(results@.take(i as int), word@),
            n <= i,
        decreases results.len() - i,
    {
        proof {
            assert(results@.take(i + 1).drop_last() == results@.take(i as int));
        }
        if results[i].status == w {
            n = n + 1;
        }
        i = i + 1;
    }
    proof {
        assert(results@.take(results.len() as int) == results@);
    }
    n
}

/// The overall status of a run: `success` when no package failed, `failed` when some failed
/// and none completed, `partial` when some failed and some completed.
pub open spec fn run_status(completed: nat, failed: nat) -> Seq<char> {
    if failed == 0 {
        "success"@
    } else if completed == 0 {
        "failed"@
    } else {
        "partial"@
    }
}

/// The payload for a run: the results, how many there are, how many completed and how many
/// failed, the status (`success`, `failed` or `partial`, see `run_status`), the elapsed
/// seconds and the machine identifier.
pub fn webhook_payload(results: Vec<BrewPackageResult>, elapsed_seconds: u64, machine_id: String) -> (r: WebhookPayload)
    ensures
        r.packages == results,
        r.total == results.len(),
        r.completed == count_status(results@, "completed"@),
        r.failed == count_status(results@, "failed"@),
        r.status@ == run_status(r.completed as nat, r.failed as nat),
        r.elapsed_seconds == elapsed_seconds,
        r.machine_id == machine_id,
{
    let completed = count_with_status(&results, "completed");
    let failed = count_with_status(&results, "failed");
    let status = if failed == 0 {
        String::from_str("success")
    } else if completed == 0 {
        String::from_str("failed")
    } else {
        String::from_str("partial")
    };
    let total = results.len();
    WebhookPayload { status, total, completed, failed, packages: results, elapsed_seconds, machine_id }
}

/// Law: no result is counted both as completed and as failed, so the two counts never add
/// up to more than the number of results.
pub proof fn lemma_payload_counts_fit(results: Seq<BrewPackageResult>)
    ensures
        count_status(results, "completed"@) + count_status(results, "failed"@) <= results.len(),
    decreases results.len(),
{
    reveal_strlit("completed");
    reveal_strlit("failed");
    if results.len() > 0 {
        lemma_payload_counts_fit(results.drop_last());
        assert("completed"@ != "failed"@) by {
            assert("completed"@.len() != "failed"@.len());
        }
    }
}

/// Law of the run status: a run where nothing failed is a success, one where packages
/// failed and none completed has failed, and one where some completed and some failed is
/// partial; so the status depends only on whether any completed and whether any failed, not
/// on how many.
pub proof fn lemma_run_status_cases(completed: nat, failed: nat, completed2: nat, failed2: nat)
    ensures
        failed == 0 ==> run_status(completed, failed) == "success"@,
        completed == 0 && failed > 0 ==> run_status(completed, failed) == "failed"@,
        completed > 0 && failed > 0 ==> run_status(completed, failed) == "partial"@,
        ((completed > 0) == (completed2 > 0) && (failed > 0) == (failed2 > 0)) ==> run_status(
            completed,
            failed,
        ) == run_status(completed2, failed2),
{
}

} // verus!
