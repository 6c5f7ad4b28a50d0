//! Decisions around the binary self-update from GitHub Releases: how a
//! finished check is reported, and which failures are transient.

use vstd::prelude::*;
use crate::text::{all_ascii, ascii_lowercase, chars_of, contains, has_infix, lowercase_str, lowercased, occurs_at};

verus! {

#[derive(Debug, Clone, PartialEq, Eq)]
pub enum UpdateOutcome {
    UpToDate,
    Updated { version: String },
    /// The check could not be performed for a transient reason (offline,
    /// GitHub API rate limit / 403, timeout). Not a real error — try later.
    CheckUnavailable,
}

/// The phrases that mark an update-check failure as transient: GitHub rate
/// limit (403) / too-many-requests (429) and its prose form, and common
/// offline/network phrasings.
pub open spec fn transient_phrases() -> Seq<Seq<char>> {
    seq![
        seq!['4', '0', '3'],
        seq!['4', '2', '9'],
        seq!['r', 'a', 't', 'e', ' ', 'l', 'i', 'm', 'i', 't'],
        seq!['d', 'n', 's'],
        seq!['t', 'i', 'm', 'e', 'd', ' ', 'o', 'u', 't'],
        seq!['t', 'i', 'm', 'e', 'o', 'u', 't'],
        seq!['u', 'n', 'r', 'e', 'a', 'c', 'h', 'a', 'b', 'l', 'e'],
        seq!['c', 'o', 'n', 'n', 'e', 'c', 't', 'i', 'o', 'n'],
    ]
}

/// A failure message is transient when its lowercase form contains one of
/// the transient phrases.
pub open spec fn transient_message(msg: Seq<char>) -> bool {
    exists|k: int| 0 <= k < transient_phrases().len() && has_infix(lowercased(msg), #[trigger] transient_phrases()[k])
}

fn phrases() -> (r: Vec<Vec<char>>)
    ensures
        r.len() == transient_phrases().len(),
        forall|k: int| 0 <= k < r.len() ==> (#[trigger] r@[k])@ == transient_phrases()[k],
{
    let mut r: Vec<Vec<char>> = Vec::new();
    r.push(vec!['4', '0', '3']);
    r.push(vec!['4', '2', '9']);
    r.push(vec!['r', 'a', 't', 'e', ' ', 'l', 'i', 'm', 'i', 't']);
    r.push(vec!['d', 'n', 's']);
    r.push(vec!['t', 'i', 'm', 'e', 'd', ' ', 'o', 'u', 't']);
    r.push(vec!['t', 'i', 'm', 'e', 'o', 'u', 't']);
    r.push(vec!['u', 'n', 'r', 'e', 'a', 'c', 'h', 'a', 'b', 'l', 'e']);
    r.push(vec!['c', 'o', 'n', 'n', 'e', 'c', 't', 'i', 'o', 'n']);
    assert(r@[0]@ == transient_phrases()[0]);
    assert(r@[1]@ == transient_phrases()[1]);
    assert(r@[2]@ == transient_phrases()[2]);
    assert(r@[3]@ == transient_phrases()[3]);
    assert(r@[4]@ == transient_phrases()[4]);
    assert(r@[5]@ == transient_phrases()[5]);
    assert(r@[6]@ == transient_phrases()[6]);
    assert(r@[7]@ == transient_phrases()[7]);
    r
}

/// Classify an update-check error message as transient (network/rate-limit)
/// vs. a genuine failure. Transient ones are expected and should be reported
/// calmly ("try later"), not as alarming failures. Matched on the message
/// text because `self_update` erases the underlying error type.
pub fn is_transient_failure(msg: &str) -> (r: bool)
    ensures
        r == transient_message(msg@),
{
    let m = lowercase_str(msg);
    let mv = chars_of(m.as_str());
    let ps = phrases();
    let mut k: usize = 0;
    while k < ps.len()
        invariant
            k <= ps.len() == transient_phrases().len(),
            mv@ == lowercased(msg@),
            forall|j: int| 0 <= j < ps.len() ==> (#[trigger] ps@[j])@ == transient_phrases()[j],
            forall|j: int| 0 <= j < k ==> !has_infix(mv@, #[trigger] transient_phrases()[j]),
        decreases ps.len() - k,
    {
        if contains(mv.as_slice(), ps[k].as_slice()) {
            assert(has_infix(lowercased(msg@), transient_phrases()[k as int]));
            return true;
        }
        k += 1;
    }
    false
}

/// How a successful check is reported: the new version when one was
/// installed, else up to date.
pub fn outcome_of_check(updated: bool, version: String) -> (r: UpdateOutcome)
    ensures
        updated ==> r == (UpdateOutcome::Updated { version }),
        !updated ==> r == UpdateOutcome::UpToDate,
{
    if updated {
        UpdateOutcome::Updated { version }
    } else {
        UpdateOutcome::UpToDate
    }
}

/// How a failed check is reported: transient failures become the soft
/// `CheckUnavailable` outcome; `None` means a genuine error to pass on.
pub fn outcome_of_failure(msg: &str) -> (r: Option<UpdateOutcome>)
    ensures
        transient_message(msg@) ==> r == Some(UpdateOutcome::CheckUnavailable),
        !transient_message(msg@) ==> r is None,
{
    if is_transient_failure(msg) {
        Some(UpdateOutcome::CheckUnavailable)
    } else {
        None
    }
}

/// HTTP 403 and 429 are transient in any ASCII message, whatever the case of
/// the rest: rate limits are never reported as real failures.
pub proof fn rate_limit_status_is_transient(msg: Seq<char>)
    requires
        all_ascii(msg),
        has_infix(msg, seq!['4', '0', '3']) || has_infix(msg, seq!['4', '2', '9']),
    ensures
        transient_message(msg),
{
    let l = lowercased(msg);
    assert(l == ascii_lowercase(msg));
    if has_infix(msg, seq!['4', '0', '3']) {
        let i = choose|i: int| occurs_at(msg, seq!['4', '0', '3'], i);
        assert(msg.subrange(i, i + 3) == seq!['4', '0', '3']);
        assert(l.subrange(i, i + 3) =~= seq!['4', '0', '3']) by {
            assert(l[i] == crate::text::ascii_lower(msg[i]));
            assert(msg[i] == msg.subrange(i, i + 3)[0]);
            assert(msg[i + 1] == msg.subrange(i, i + 3)[1]);
            assert(msg[i + 2] == msg.subrange(i, i + 3)[2]);
        }
        assert(occurs_at(l, transient_phrases()[0], i));
    } else {
        let i = choose|i: int| occurs_at(msg, seq!['4', '2', '9'], i);
        assert(msg.subrange(i, i + 3) == seq!['4', '2', '9']);
        assert(l.subrange(i, i + 3) =~= seq!['4', '2', '9']) by {
            assert(msg[i] == msg.subrange(i, i + 3)[0]);
            assert(msg[i + 1] == msg.subrange(i, i + 3)[1]);
            assert(msg[i + 2] == msg.subrange(i, i + 3)[2]);
        }
        assert(occurs_at(l, transient_phrases()[1], i));
    }
}

/// Which failures are transient, phrase by phrase: a failure message is
/// transient exactly when its lowercase form mentions 403, 429, "rate limit",
/// "dns", "timed out", "timeout", "unreachable" or "connection".
pub proof fn transient_failures_by_phrase(msg: Seq<char>)
    ensures
        transient_message(msg) <==> (
               has_infix(lowercased(msg), seq!['4', '0', '3'])
            || has_infix(lowercased(msg), seq!['4', '2', '9'])
            || has_infix(lowercased(msg), seq!['r', 'a', 't', 'e', ' ', 'l', 'i', 'm', 'i', 't'])
            || has_infix(lowercased(msg), seq!['d', 'n', 's'])
            || has_infix(lowercased(msg), seq!['t', 'i', 'm', 'e', 'd', ' ', 'o', 'u', 't'])
            || has_infix(lowercased(msg), seq!['t', 'i', 'm', 'e', 'o', 'u', 't'])
            || has_infix(lowercased(msg), seq!['u', 'n', 'r', 'e', 'a', 'c', 'h', 'a', 'b', 'l', 'e'])
            || has_infix(lowercased(msg), seq!['c', 'o', 'n', 'n', 'e', 'c', 't', 'i', 'o', 'n'])
        ),
{
    assert(transient_phrases()[0] == seq!['4', '0', '3']);
    assert(transient_phrases()[1] == seq!['4', '2', '9']);
    assert(transient_phrases()[2] == seq!['r', 'a', 't', 'e', ' ', 'l', 'i', 'm', 'i', 't']);
    assert(transient_phrases()[3] == seq!['d', 'n', 's']);
    assert(transient_phrases()[4] == seq!['t', 'i', 'm', 'e', 'd', ' ', 'o', 'u', 't']);
    assert(transient_phrases()[5] == seq!['t', 'i', 'm', 'e', 'o', 'u', 't']);
    assert(transient_phrases()[6] == seq!['u', 'n', 'r', 'e', 'a', 'c', 'h', 'a', 'b', 'l', 'e']);
    assert(transient_phrases()[7] == seq!['c', 'o', 'n', 'n', 'e', 'c', 't', 'i', 'o', 'n']);
    let l = lowercased(msg);
    if transient_message(msg) {
        let k = choose|k: int| 0 <= k < transient_phrases().len() && has_infix(l, #[trigger] transient_phrases()[k]);
        assert(0 <= k < 8);
    }
    if has_infix(l, seq!['4', '0', '3']) { assert(has_infix(l, transient_phrases()[0])); }
    if has_infix(l, seq!['4', '2', '9']) { assert(has_infix(l, transient_phrases()[1])); }
    if has_infix(l, seq!['r', 'a', 't', 'e', ' ', 'l', 'i', 'm', 'i', 't']) { assert(has_infix(l, transient_phrases()[2])); }
    if has_infix(l, seq!['d', 'n', 's']) { assert(has_infix(l, transient_phrases()[3])); }
    if has_infix(l, seq!['t', 'i', 'm', 'e', 'd', ' ', 'o', 'u', 't']) { assert(has_infix(l, transient_phrases()[4])); }
    if has_infix(l, seq!['t', 'i', 'm', 'e', 'o', 'u', 't']) { assert(has_infix(l, transient_phrases()[5])); }
    if has_infix(l, seq!['u', 'n', 'r', 'e', 'a', 'c', 'h', 'a', 'b', 'l', 'e']) { assert(has_infix(l, transient_phrases()[6])); }
    if has_infix(l, seq!['c', 'o', 'n', 'n', 'e', 'c', 't', 'i', 'o', 'n']) { assert(has_infix(l, transient_phrases()[7])); }
}

} // verus!
