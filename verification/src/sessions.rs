//! Decisions and replies of the session-management endpoints.
use vstd::prelude::*;
use vstd::string::*;
use vstd::utf8::{decode_utf8, encode_utf8, is_char_boundary};

use crate::text::{contains_seq, contains_str, decimal, format_i64};
use crate::types::StatusResponse;

verus! {

/// The interpreter that runs the helper scripts: `python` on Windows,
/// `python3` elsewhere.
pub fn python_cmd(windows: bool) -> (cmd: &'static str)
    ensures
        cmd@ == (if windows {
            "python"@
        } else {
            "python3"@
        }),
{
    if windows {
        "python"
    } else {
        "python3"
    }
}

/// The model a query is narrowed to: none for an absent filter or for `__all__`.
pub open spec fn filter_of(model: Option<Seq<char>>) -> Option<Seq<char>> {
    match model {
        Some(m) => if m == "__all__"@ {
            None
        } else {
            Some(m)
        },
        None => None,
    }
}

/// Chooses the model that the usage and session queries are narrowed to.
pub fn model_filter(model: Option<&str>) -> (r: Option<&str>)
    ensures
        (match r {
            Some(m) => Some(m@),
            None => None,
        }) == filter_of(
            match model {
                Some(m) => Some(m@),
                None => None,
            },
        ),
{
    match model {
        Some(m) => {
            let all = String::from_str("__all__");
            let given = String::from_str(m);
            if given == all {
                None
            } else {
                Some(m)
            }
        },
        None => None,
    }
}

/// The characters of the first `n` bytes of `s`.
pub open spec fn byte_prefix_text(s: Seq<char>, n: int) -> Seq<char> {
    decode_utf8(encode_utf8(s).subrange(0, n))
}

/// `s[..n]`: the first `n` bytes of `s`, which must end on a character boundary.
fn byte_prefix(s: &str, n: usize) -> (p: &str)
    requires
        is_char_boundary(encode_utf8(s@), n as int),
    ensures
        p@ == byte_prefix_text(s@, n as int),
{
    let (head, _tail) = s.split_at(n);
    proof {
        vstd::utf8::encode_utf8_decode_utf8(head@);
    }
    head
}

/// Slicing the first `n` bytes of `s` does not panic: `s` has at least `n`
/// bytes and the `n`-th ends a character.
pub open spec fn can_cut(s: Seq<char>, n: int) -> bool {
    is_char_boundary(encode_utf8(s), n)
}

/// The kill script reported a killed process or the fallback killed some.
pub open spec fn kill_confirmed(k: Seq<char>) -> bool {
    contains_seq(k, "\"killed\":["@) || contains_seq(k, "killed_by"@)
}

/// The kill script found no process for the session.
pub open spec fn kill_found_nothing(k: Seq<char>) -> bool {
    contains_seq(k, "\"status\":\"info\""@)
}

/// The note that reports the outcome of a kill attempt.
pub open spec fn kill_note_text(k: Seq<char>) -> Seq<char> {
    if kill_confirmed(k) {
        "Agent process was terminated"@
    } else if kill_found_nothing(k) {
        "No running agent process found for this session (may already be stopped)"@
    } else {
        "Session marked in DB. Kill: "@ + byte_prefix_text(k, 200)
    }
}

/// The kill output can be turned into a note: it is recognised, or it is long
/// enough to quote its first 200 bytes.
pub open spec fn kill_note_defined(k: Seq<char>) -> bool {
    kill_confirmed(k) || kill_found_nothing(k) || can_cut(k, 200)
}

/// Turns the output of a kill attempt into the note of the reply.
pub fn kill_note(kill_result: &str) -> (note: String)
    requires
        kill_note_defined(kill_result@),
    ensures
        note@ == kill_note_text(kill_result@),
{
    if contains_str(kill_result, "\"killed\":[") || contains_str(kill_result, "killed_by") {
        String::from_str("Agent process was terminated")
    } else if contains_str(kill_result, "\"status\":\"info\"") {
        String::from_str("No running agent process found for this session (may already be stopped)")
    } else {
        let mut note = String::from_str("Session marked in DB. Kill: ");
        note.append(byte_prefix(kill_result, 200));
        note
    }
}

/// A reply that carries only a status and a message.
pub open spec fn plain_reply(r: StatusResponse, status: Seq<char>, message: Seq<char>) -> bool {
    &&& r.status@ == status
    &&& r.message@ == message
    &&& r.session_id is None
    &&& r.stopped_count is None
    &&& r.kept_session is None
    &&& r.updated_count is None
    &&& r.old_sessions_count is None
    &&& r.note is None
}

/// The reply to a stop request for a session the store does not hold.
pub fn session_not_found_reply(session_id: &str) -> (r: StatusResponse)
    ensures
        plain_reply(r, "error"@, "Session not found: "@ + session_id@),
{
    let mut message = String::from_str("Session not found: ");
    message.append(session_id);
    StatusResponse {
        status: String::from_str("error"),
        message,
        session_id: None,
        stopped_count: None,
        kept_session: None,
        updated_count: None,
        old_sessions_count: None,
        note: None,
    }
}

/// What a stop request does once the session is found in the store.
#[derive(Clone, Copy, Debug, PartialEq, Eq, Structural)]
pub struct StopPlan {
    /// Mark the session ended in the store.
    pub mark_ended: bool,
    /// Kill the agent through the kill script; otherwise through the fallback.
    pub use_kill_script: bool,
}

/// Decides a stop request: a session that is still running is marked ended
/// first, and the agent is killed through the kill script when it was found,
/// through the fallback otherwise.
pub fn plan_stop(already_ended: bool, kill_script_found: bool) -> (p: StopPlan)
    ensures
        p.mark_ended == !already_ended,
        p.use_kill_script == kill_script_found,
{
    StopPlan { mark_ended: !already_ended, use_kill_script: kill_script_found }
}

/// The message of a stop request: whether the session was already over, and
/// what the kill attempt printed.
pub open spec fn stop_message_text(already_ended: bool, kill: Seq<char>) -> Seq<char> {
    if already_ended {
        "Session already ended. Process kill attempted: "@ + kill
    } else {
        "Session stopped. Process kill attempted: "@ + kill
    }
}

/// The reply to a stop request for a session the store holds, once the store
/// is updated and a kill was attempted with output `kill_result`.
pub fn stop_session_reply(session_id: String, already_ended: bool, kill_result: &str) -> (r:
    StatusResponse)
    requires
        kill_note_defined(kill_result@),
    ensures
        r.status@ == "success"@,
        r.message@ == stop_message_text(already_ended, kill_result@),
        r.session_id matches Some(id) && id@ == session_id@,
        r.note matches Some(n) && n@ == kill_note_text(kill_result@),
        r.stopped_count is None,
        r.kept_session is None,
        r.updated_count is None,
        r.old_sessions_count is None,
{
    let mut message = if already_ended {
        String::from_str("Session already ended. Process kill attempted: ")
    } else {
        String::from_str("Session stopped. Process kill attempted: ")
    };
    message.append(kill_result);
    let note = kill_note(kill_result);
    StatusResponse {
        status: String::from_str("success"),
        message,
        session_id: Some(session_id),
        stopped_count: None,
        kept_session: None,
        updated_count: None,
        old_sessions_count: None,
        note: Some(note),
    }
}

/// How the kept session is shown: its first 20 bytes and `...` when it is longer.
pub open spec fn kept_text(k: Seq<char>) -> Seq<char> {
    if encode_utf8(k).len() > 20 {
        byte_prefix_text(k, 20) + "..."@
    } else {
        k
    }
}

/// Showing the kept session does not panic.
pub open spec fn kept_text_defined(k: Seq<char>) -> bool {
    encode_utf8(k).len() <= 20 || can_cut(k, 20)
}

/// Shortens the id of the session that was kept running for the reply.
pub fn kept_session_text(k: &str) -> (s: String)
    requires
        kept_text_defined(k@),
    ensures
        s@ == kept_text(k@),
{
    if k.as_bytes().len() > 20 {
        let mut s = String::from_str(byte_prefix(k, 20));
        s.append("...");
        s
    } else {
        String::from_str(k)
    }
}

/// Which running sessions get their process killed: all but the one kept.
pub open spec fn kill_wanted(id: Seq<char>, kept: Option<Seq<char>>) -> bool {
    !(kept matches Some(k) && k == id)
}

/// For each running session, whether its process is to be killed.
pub fn kill_plan(running_ids: &Vec<String>, kept: &Option<String>) -> (plan: Vec<bool>)
    ensures
        plan.len() == running_ids.len(),
        forall|i: int|
            0 <= i < running_ids.len() ==> #[trigger] plan@[i] == kill_wanted(
                running_ids@[i]@,
                match kept {
                    Some(k) => Some(k@),
                    None => None,
                },
            ),
{
    let mut plan: Vec<bool> = Vec::new();
    let mut i: usize = 0;
    while i < running_ids.len()
        invariant
            i <= running_ids.len(),
            plan.len() == i,
            forall|j: int|
                0 <= j < i ==> #[trigger] plan@[j] == kill_wanted(
                    running_ids@[j]@,
                    match kept {
                        Some(k) => Some(k@),
                        None => None,
                    },
                ),
        decreases running_ids.len() - i,
    {
        let wanted = match kept {
            Some(k) => !(running_ids[i] == *k),
            None => true,
        };
        plan.push(wanted);
        i = i + 1;
    }
    plan
}

/// The kill script reported that it killed the process.
pub open spec fn reports_killed(out: Seq<char>) -> bool {
    contains_seq(out, "\"killed\""@)
}

/// How many of the first `n` outputs report a killed process.
pub open spec fn killed_upto(outputs: Seq<String>, n: int) -> int
    decreases n,
{
    if n <= 0 {
        0
    } else {
        killed_upto(outputs, n - 1) + (if reports_killed(outputs[n - 1]@) {
            1int
        } else {
            0int
        })
    }
}

/// Counts the kill-script outputs that report a killed process.
pub fn count_killed(outputs: &Vec<String>) -> (n: i32)
    requires
        outputs.len() <= i32::MAX,
    ensures
        n == killed_upto(outputs@, outputs.len() as int),
{
    let mut n: i32 = 0;
    let mut i: usize = 0;
    while i < outputs.len()
        invariant
            i <= outputs.len(),
            outputs.len() <= i32::MAX,
            n == killed_upto(outputs@, i as int),
            0 <= n <= i,
        decreases outputs.len() - i,
    {
        if contains_str(outputs[i].as_str(), "\"killed\"") {
            n = n + 1;
        }
        i = i + 1;
    }
    n
}

/// The reply to a request to stop every running session but the latest.
pub fn stop_others_reply(stopped_count: i64, killed_count: i32, kept: Option<String>) -> (r:
    StatusResponse)
    requires
        kept matches Some(k) ==> kept_text_defined(k@),
    ensures
        r.status@ == "success"@,
        r.message@ == "Stopped "@ + decimal(stopped_count as int) + " sessions ("@ + decimal(
            killed_count as int,
        ) + " processes killed)"@,
        r.session_id is None,
        r.stopped_count == Some(stopped_count),
        (match r.kept_session {
            Some(s) => Some(s@),
            None => None,
        }) == (match kept {
            Some(k) => Some(kept_text(k@)),
            None => None,
        }),
        r.updated_count is None,
        r.old_sessions_count is None,
        r.note matches Some(n) && n@ == decimal(stopped_count as int)
            + " sessions marked ended + "@ + decimal(killed_count as int)
            + " agent process(es) killed"@,
{
    let stopped = format_i64(stopped_count);
    let killed = format_i64(killed_count as i64);
    let mut message = String::from_str("Stopped ");
    message.append(stopped.as_str());
    message.append(" sessions (");
    message.append(killed.as_str());
    message.append(" processes killed)");
    let mut note = String::from_str(stopped.as_str());
    note.append(" sessions marked ended + ");
    note.append(killed.as_str());
    note.append(" agent process(es) killed");
    let kept_session = match kept {
        Some(k) => Some(kept_session_text(k.as_str())),
        None => None,
    };
    StatusResponse {
        status: String::from_str("success"),
        message,
        session_id: None,
        stopped_count: Some(stopped_count),
        kept_session,
        updated_count: None,
        old_sessions_count: None,
        note: Some(note),
    }
}

/// The note of a compression run by the script: the start of its output on
/// success, the start of its error output otherwise.
pub open spec fn script_note_text(succeeded: bool, stdout: Seq<char>, stderr: Seq<char>) -> Seq<
    char,
> {
    if succeeded {
        "Compression result: "@ + byte_prefix_text(stdout, 300)
    } else {
        "Compression attempted (script error: "@ + byte_prefix_text(stderr, 200) + ")"@
    }
}

/// The script's outputs are long enough to be quoted.
pub open spec fn script_note_defined(succeeded: bool, stdout: Seq<char>, stderr: Seq<char>) -> bool {
    if succeeded {
        can_cut(stdout, 300)
    } else {
        can_cut(stderr, 200)
    }
}

/// Turns what the compression script printed into the note of the reply.
pub fn compression_script_note(succeeded: bool, stdout: &str, stderr: &str) -> (note: String)
    requires
        script_note_defined(succeeded, stdout@, stderr@),
    ensures
        note@ == script_note_text(succeeded, stdout@, stderr@),
{
    if succeeded {
        let mut note = String::from_str("Compression result: ");
        note.append(byte_prefix(stdout, 300));
        note
    } else {
        let mut note = String::from_str("Compression attempted (script error: ");
        note.append(byte_prefix(stderr, 200));
        note.append(")");
        note
    }
}

/// The note of a compression request, before an empty note is replaced.
pub open spec fn compression_note_text(
    session_id: Option<Seq<char>>,
    count: i64,
    script_note: Option<Seq<char>>,
) -> Seq<char> {
    match session_id {
        Some(_) => match script_note {
            Some(n) => n,
            None => "Marked in DB. Compression script not found, skipping Ollama call."@,
        },
        None => "Marked "@ + decimal(count as int)
            + " old sessions in DB. Bulk compression skipped (use individual session compression instead)."@,
    }
}

/// The reply to a compression request that marked `count` sessions. With a
/// session id, `script_note` is the note of the script run, or `None` when
/// there was no script to run.
pub fn mark_compression_reply(
    session_id: Option<String>,
    count: i64,
    script_note: Option<String>,
) -> (r: StatusResponse)
    ensures
        r.status@ == "success"@,
        r.message@ == (match session_id {
            Some(_) => "Compressed "@ + decimal(count as int) + " session"@,
            None => "Marked "@ + decimal(count as int) + " old sessions for compression"@,
        }),
        (match r.session_id {
            Some(s) => Some(s@),
            None => None,
        }) == (match session_id {
            Some(s) => Some(s@),
            None => None,
        }),
        r.stopped_count is None,
        r.kept_session is None,
        r.updated_count == Some(count),
        r.old_sessions_count is None,
        r.note matches Some(n) && n@ == ({
            let text = compression_note_text(
                match session_id {
                    Some(s) => Some(s@),
                    None => None,
                },
                count,
                match script_note {
                    Some(s) => Some(s@),
                    None => None,
                },
            );
            if text.len() == 0 {
                "Compression completed"@
            } else {
                text
            }
        }),
{
    let counted = format_i64(count);
    let note = match &session_id {
        Some(_) => match script_note {
            Some(n) => n,
            None => String::from_str(
                "Marked in DB. Compression script not found, skipping Ollama call.",
            ),
        },
        None => {
            let mut n = String::from_str("Marked ");
            n.append(counted.as_str());
            n.append(
                " old sessions in DB. Bulk compression skipped (use individual session compression instead).",
            );
            n
        },
    };
    let message = match &session_id {
        Some(_) => {
            let mut m = String::from_str("Compressed ");
            m.append(counted.as_str());
            m.append(" session");
            m
        },
        None => {
            let mut m = String::from_str("Marked ");
            m.append(counted.as_str());
            m.append(" old sessions for compression");
            m
        },
    };
    let note = if note.as_str().is_empty() {
        String::from_str("Compression completed")
    } else {
        note
    };
    StatusResponse {
        status: String::from_str("success"),
        message,
        session_id,
        stopped_count: None,
        kept_session: None,
        updated_count: Some(count),
        old_sessions_count: None,
        note: Some(note),
    }
}

/// Kibibytes of `bytes`, rounded toward zero as integer division does.
pub open spec fn kib(bytes: i64) -> int {
    if bytes >= 0 {
        bytes / 1024
    } else {
        -((-(bytes as int)) / 1024)
    }
}

/// The reply to a cleanup that deleted `deleted` old sessions and gave back `saved` bytes.
pub fn memory_cleanup_reply(deleted: i64, saved: i64) -> (r: StatusResponse)
    ensures
        r.status@ == "success"@,
        r.message@ == "Cleaned up "@ + decimal(deleted as int) + " old ended sessions, recovered ~"@
            + decimal(kib(saved)) + " KB"@,
        r.session_id is None,
        r.stopped_count is None,
        r.kept_session is None,
        r.updated_count is None,
        r.old_sessions_count == Some(deleted),
        r.note matches Some(n) && n@ == "Deleted "@ + decimal(deleted as int)
            + " sessions > 7 days old + VACUUM reclaimed space"@,
{
    let count = format_i64(deleted);
    let kb = format_i64(saved / 1024);
    let mut message = String::from_str("Cleaned up ");
    message.append(count.as_str());
    message.append(" old ended sessions, recovered ~");
    message.append(kb.as_str());
    message.append(" KB");
    let mut note = String::from_str("Deleted ");
    note.append(count.as_str());
    note.append(" sessions > 7 days old + VACUUM reclaimed space");
    StatusResponse {
        status: String::from_str("success"),
        message,
        session_id: None,
        stopped_count: None,
        kept_session: None,
        updated_count: None,
        old_sessions_count: Some(deleted),
        note: Some(note),
    }
}

proof fn lemma_killed_prefix(outputs: Seq<String>, x: String, n: int)
    requires
        0 <= n <= outputs.len(),
    ensures
        killed_upto(outputs.push(x), n) == killed_upto(outputs, n),
    decreases n,
{
    if n > 0 {
        lemma_killed_prefix(outputs, x, n - 1);
        assert(outputs.push(x)[n - 1] == outputs[n - 1]);
    }
}

/// Each kill-script output counts once when it reports a killed process and not
/// at all otherwise: one more output raises the count by one exactly when it
/// contains `"killed"`.
pub proof fn law_killed_count_adds_reports(outputs: Seq<String>, x: String)
    ensures
        killed_upto(outputs.push(x), outputs.len() + 1int) == killed_upto(
            outputs,
            outputs.len() as int,
        ) + (if contains_seq(x@, "\"killed\""@) {
            1int
        } else {
            0int
        }),
{
    lemma_killed_prefix(outputs, x, outputs.len() as int);
    assert(outputs.push(x)[outputs.len() as int] == x);
}

/// Cleanup sizes are reported in whole kibibytes, rounded toward zero: a
/// non-negative size lies between its kibibytes and the next, and a negative
/// one mirrors it.
pub proof fn law_kib_rounds_toward_zero(bytes: i64)
    ensures
        bytes >= 0 ==> kib(bytes) * 1024 <= bytes < kib(bytes) * 1024 + 1024,
        bytes < 0 ==> kib(bytes) * 1024 - 1024 < bytes <= kib(bytes) * 1024,
{
}

/// The model filter narrows to the given model, unless there is none or it is `__all__`.
pub proof fn law_filter_narrows_to_given_model(m: Seq<char>)
    ensures
        filter_of(None) is None,
        filter_of(Some("__all__"@)) is None,
        m != "__all__"@ ==> filter_of(Some(m)) == Some(m),
{
}

/// Stopping the other sessions kills every running session but the kept one:
/// the kept session is spared, any other is killed, and with none kept all are.
pub proof fn law_kill_spares_only_the_kept(id: Seq<char>, other: Seq<char>)
    ensures
        !kill_wanted(id, Some(id)),
        other != id ==> kill_wanted(other, Some(id)),
        kill_wanted(id, None),
{
}

/// A kept session id of at most 20 bytes is shown as it is; a longer one is
/// shown as its first 20 bytes followed by `...`.
pub proof fn law_kept_text_shortens_long_ids(k: Seq<char>)
    ensures
        encode_utf8(k).len() <= 20 ==> kept_text(k) == k,
        encode_utf8(k).len() > 20 ==> kept_text(k) == byte_prefix_text(k, 20) + "..."@,
{
}

} // verus!
