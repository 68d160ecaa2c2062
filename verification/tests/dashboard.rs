use dashboard_server::buckets::{
    align, fill_buckets, query_10min_buckets_today, query_hourly_rolling_24h, query_hourly_today,
    slot_starts_between,
};
use dashboard_server::history::daily_windows;
use dashboard_server::labels::{
    clock_labels, display_model, display_title, hour_label, minute_label, session_clock_labels,
    started_at_text,
};
use dashboard_server::clock::ClockFields;
use dashboard_server::pool::{pool_status, pool_unavailable, PoolKeyCount};
use dashboard_server::sessions::{
    compression_script_note, count_killed, kept_session_text, kill_note, kill_plan,
    mark_compression_reply, memory_cleanup_reply, model_filter, python_cmd,
    plan_stop, session_not_found_reply, stop_others_reply, stop_session_reply,
};
use dashboard_server::stats::{
    space_reclaimed, session_total_tokens, summarize_completed, AuxCounts, CacheTotals,
    CompletedSession, PeriodCounts,
};
use dashboard_server::text::{chars_of, contains_str, format_i64, format_two_digits};
use dashboard_server::types::{Bucket, CoreStats, ModelSummary, UsageRow};

fn row(timestamp: i64, api_calls: i64, tokens: i64) -> UsageRow {
    UsageRow { timestamp, api_calls, tokens }
}

#[test]
fn decimal_rendering_matches_display() {
    assert_eq!(format_i64(0), "0");
    assert_eq!(format_i64(7), "7");
    assert_eq!(format_i64(1234567), "1234567");
    assert_eq!(format_i64(-42), "-42");
    assert_eq!(format_i64(i64::MAX), i64::MAX.to_string());
    assert_eq!(format_i64(i64::MIN), i64::MIN.to_string());
}

#[test]
fn two_digit_fields_are_zero_padded() {
    assert_eq!(format_two_digits(0), "00");
    assert_eq!(format_two_digits(7), "07");
    assert_eq!(format_two_digits(23), "23");
    assert_eq!(format_two_digits(99), "99");
}

#[test]
fn substring_search_agrees_with_contains() {
    let cases = [
        ("{\"killed\":[123]}", "\"killed\":["),
        ("killed_by_fallback", "killed_by"),
        ("nothing here", "killed"),
        ("", ""),
        ("abc", ""),
        ("ab", "abc"),
        ("héllo wörld", "wö"),
    ];
    for (hay, needle) in cases {
        assert_eq!(contains_str(hay, needle), hay.contains(needle), "{hay:?} {needle:?}");
    }
    assert_eq!(chars_of("héllo"), vec!['h', 'é', 'l', 'l', 'o']);
}

#[test]
fn alignment_rounds_toward_zero() {
    assert_eq!(align(1234, 600), 1200);
    assert_eq!(align(1200, 600), 1200);
    assert_eq!(align(599, 600), 0);
    assert_eq!(align(-1, 600), 0);
    assert_eq!(align(-601, 600), -600);
    assert_eq!(align(7199, 3600), 3600);
}

#[test]
fn slot_starts_cover_the_range() {
    assert_eq!(slot_starts_between(1234, 3000, 600), vec![1200, 1800, 2400, 3000]);
    assert_eq!(slot_starts_between(1200, 1250, 600), vec![1200]);
    assert_eq!(slot_starts_between(5000, 100, 600), Vec::<i64>::new());
    // Consecutive starts are one step apart, first and last hold the ends.
    let s = slot_starts_between(86_400, 86_400 + 5 * 3600 + 17, 3600);
    assert_eq!(s.len(), 6);
    for w in s.windows(2) {
        assert_eq!(w[1] - w[0], 3600);
    }
    assert_eq!(s[0], 86_400);
    assert_eq!(*s.last().unwrap(), 86_400 + 5 * 3600);
}

#[test]
fn fill_buckets_adds_rows_to_their_slot() {
    let slots = vec![0u32, 10, 20];
    let rows = vec![row(0, 1, 100), row(0, 2, 50), row(0, 5, 5), row(0, 3, 30)];
    let keys = vec![10u32, 10, 99, 0];
    let m = fill_buckets(&slots, &rows, &keys).unwrap();
    assert_eq!(m.len(), 3);
    assert_eq!(m[&0], Bucket { api_calls: 3, tokens: 30 });
    assert_eq!(m[&10], Bucket { api_calls: 3, tokens: 150 });
    assert_eq!(m[&20], Bucket { api_calls: 0, tokens: 0 });
}

#[test]
fn fill_buckets_merges_repeated_slot_keys() {
    let slots = vec![5u32, 5, 6];
    let rows = vec![row(0, 4, 40)];
    let keys = vec![5u32];
    let m = fill_buckets(&slots, &rows, &keys).unwrap();
    assert_eq!(m.len(), 2);
    assert_eq!(m[&5], Bucket { api_calls: 4, tokens: 40 });
}

#[test]
fn adding_a_row_changes_only_its_bucket() {
    let slots = vec![1u32, 2];
    let rows = vec![row(0, 1, 10)];
    let keys = vec![1u32];
    let before = fill_buckets(&slots, &rows, &keys).unwrap();
    let mut rows2 = rows.clone();
    rows2.push(row(0, 7, 70));
    let mut keys2 = keys.clone();
    keys2.push(2);
    let after = fill_buckets(&slots, &rows2, &keys2).unwrap();
    assert_eq!(after[&1], before[&1]);
    assert_eq!(after[&2].api_calls, before[&2].api_calls + 7);
    assert_eq!(after[&2].tokens, before[&2].tokens + 70);
    // A row of a key that is no slot leaves the chart as it was.
    let mut rows3 = rows.clone();
    rows3.push(row(0, 9, 90));
    let mut keys3 = keys.clone();
    keys3.push(3);
    assert_eq!(fill_buckets(&slots, &rows3, &keys3), Some(before));
}

#[test]
fn hourly_today_has_every_hour_and_counts_every_row() {
    let rows = vec![row(1_700_000_000, 2, 200), row(1_700_003_600, 3, 30), row(1_700_040_000, 1, 1)];
    let m = query_hourly_today(&rows).unwrap();
    assert_eq!(m.len(), 24);
    assert_eq!(m.keys().copied().collect::<Vec<u32>>(), (0..24).collect::<Vec<u32>>());
    let calls: i64 = m.values().map(|b| b.api_calls).sum();
    let tokens: i64 = m.values().map(|b| b.tokens).sum();
    assert_eq!(calls, 6);
    assert_eq!(tokens, 231);
    let empty = query_hourly_today(&Vec::new()).unwrap();
    assert!(empty.values().all(|b| *b == Bucket { api_calls: 0, tokens: 0 }));
}

#[test]
fn ten_minute_chart_counts_rows_inside_its_slots() {
    let today = 1_700_000_000 - 1_700_000_000 % 86_400;
    let now = today + 3 * 600 + 42;
    let rows = vec![row(today + 5, 1, 10), row(today + 1200, 2, 20), row(now, 4, 40)];
    let m = query_10min_buckets_today(today, now, &rows).unwrap();
    assert_eq!(m.len(), 4);
    assert!(m.keys().all(|k| *k < 1440));
    let calls: i64 = m.values().map(|b| b.api_calls).sum();
    assert_eq!(calls, 7);
    let tokens: i64 = m.values().map(|b| b.tokens).sum();
    assert_eq!(tokens, 70);
}

#[test]
fn rolling_day_chart_spans_the_hours_between() {
    let now = 1_700_000_000;
    let start = now - 86_400;
    let rows = vec![row(now - 10, 5, 50)];
    let m = query_hourly_rolling_24h(start, now, &rows).unwrap();
    // 25 hourly slots whose first and last share an hour of the day.
    assert_eq!(m.len(), 24);
    let calls: i64 = m.values().map(|b| b.api_calls).sum();
    assert_eq!(calls, 5);
}

#[test]
fn slot_labels_are_clock_texts() {
    assert_eq!(hour_label(0), "00:00");
    assert_eq!(hour_label(9), "09:00");
    assert_eq!(hour_label(23), "23:00");
    assert_eq!(minute_label(0), "00:00");
    assert_eq!(minute_label(70), "01:10");
    assert_eq!(minute_label(1439), "23:59");
}

#[test]
fn session_labels_have_clock_shape() {
    let l = session_clock_labels(1_700_000_000);
    assert_eq!(l.time.len(), 5);
    assert_eq!(&l.time[2..3], ":");
    assert_eq!(l.date.len(), 5);
    assert_eq!(&l.date[2..3], "-");
    // A start without a calendar date is shown as the epoch is.
    let outside = session_clock_labels(i64::MAX);
    let epoch = session_clock_labels(0);
    assert_eq!(outside.time, epoch.time);
    assert_eq!(outside.date, epoch.date);
}

#[test]
fn started_at_text_is_utc() {
    assert_eq!(started_at_text(0), "1970-01-01 00:00:00");
    assert_eq!(started_at_text(1_700_000_000), "2023-11-14 22:13:20");
    assert_eq!(started_at_text(i64::MAX), "1970-01-01 00:00:00");
}

#[test]
fn display_defaults() {
    assert_eq!(display_model(None), "unknown");
    assert_eq!(display_model(Some("mistral-large".to_string())), "mistral-large");
    assert_eq!(display_title(None), "Untitled");
    assert_eq!(display_title(Some("t".to_string())), "t");
}

#[test]
fn period_counts_add_up_tokens() {
    let core = CoreStats { api_calls: 10, input_tokens: 100, output_tokens: 50, sessions: 3 };
    let aux = AuxCounts {
        messages: 7,
        tool_calls: 4,
        cache_read_tokens: 20,
        cache_write_tokens: 5,
        reasoning_tokens: 2,
        premature: 1,
        completed_sessions: 2,
    };
    let p = PeriodCounts::compute(&core, &aux);
    assert_eq!(p.total_tokens, 177);
    assert_eq!(p.api_calls, 10);
    assert_eq!(p.sessions, 3);
    assert_eq!(p.messages, 7);
    assert_eq!(p.premature, 1);
    assert_eq!(p.completed_sessions, 2);
}

#[test]
fn model_summary_totals() {
    let usage = CoreStats { api_calls: 4, input_tokens: 1000, output_tokens: 200, sessions: 2 };
    let cache = CacheTotals { cache_read_tokens: 300, cache_write_tokens: 40, reasoning_tokens: 5 };
    let s = ModelSummary::from_totals(&usage, &cache);
    assert_eq!(
        s,
        ModelSummary {
            api_calls: 4,
            input_tokens: 1000,
            output_tokens: 200,
            cache_read_tokens: 300,
            cache_write_tokens: 40,
            reasoning_tokens: 5,
            sessions: 2,
            total_tokens: 1545,
        }
    );
}

#[test]
fn completed_sessions_totals() {
    let s = vec![
        CompletedSession { ran_for_a_while: true, input_tokens: 10, output_tokens: 100 },
        CompletedSession { ran_for_a_while: false, input_tokens: 99, output_tokens: 99 },
        CompletedSession { ran_for_a_while: true, input_tokens: 5, output_tokens: 50 },
    ];
    let t = summarize_completed(&s);
    assert_eq!(t.completed_sessions, 3);
    assert_eq!(t.timed_sessions, 2);
    assert_eq!(t.total_input, 15);
    assert_eq!(t.total_output, 150);
    let none = summarize_completed(&Vec::new());
    assert_eq!(none.completed_sessions, 0);
    assert_eq!(none.total_output, 0);
}

#[test]
fn reclaimed_space_and_session_tokens() {
    assert_eq!(space_reclaimed(5000, 3000), 2000);
    assert_eq!(space_reclaimed(3000, 5000), 0);
    assert_eq!(space_reclaimed(10, 10), 0);
    assert_eq!(session_total_tokens(1, 2, 3), 6);
}

fn key(id: &str, request_count: usize, is_cooling: bool) -> PoolKeyCount {
    PoolKeyCount { credential_id: id.to_string(), label: id.to_uppercase(), request_count, is_cooling }
}

#[test]
fn pool_status_adds_requests() {
    let keys = vec![key("a", 3, false), key("b", 0, true), key("c", 4, false)];
    let t = pool_status(keys.clone());
    assert!(t.available);
    assert_eq!(t.total_keys, 3);
    assert_eq!(t.total_requests, 7);
    assert_eq!(t.keys, keys);
    let u = pool_unavailable();
    assert!(!u.available);
    assert_eq!(u.total_keys, 0);
    assert_eq!(u.total_requests, 0);
    assert!(u.keys.is_empty());
}

#[test]
fn interpreter_by_platform() {
    assert_eq!(python_cmd(true), "python");
    assert_eq!(python_cmd(false), "python3");
}

#[test]
fn model_filter_ignores_all() {
    assert_eq!(model_filter(None), None);
    assert_eq!(model_filter(Some("__all__")), None);
    assert_eq!(model_filter(Some("mistral-large")), Some("mistral-large"));
}

#[test]
fn kill_notes() {
    assert_eq!(kill_note("{\"killed\":[12]}"), "Agent process was terminated");
    assert_eq!(kill_note("killed_by_fallback"), "Agent process was terminated");
    assert_eq!(
        kill_note("{\"status\":\"info\"}"),
        "No running agent process found for this session (may already be stopped)"
    );
    let long = "x".repeat(250);
    assert_eq!(kill_note(&long), format!("Session marked in DB. Kill: {}", &long[..200]));
}

#[test]
fn not_found_reply() {
    let r = session_not_found_reply("abc");
    assert_eq!(r.status, "error");
    assert_eq!(r.message, "Session not found: abc");
    assert_eq!(r.session_id, None);
    assert_eq!(r.note, None);
}

#[test]
fn stop_reply_texts() {
    let r = stop_session_reply("s1".to_string(), false, "killed_by_fallback");
    assert_eq!(r.status, "success");
    assert_eq!(r.message, "Session stopped. Process kill attempted: killed_by_fallback");
    assert_eq!(r.session_id, Some("s1".to_string()));
    assert_eq!(r.note, Some("Agent process was terminated".to_string()));
    let r2 = stop_session_reply("s2".to_string(), true, "{\"status\":\"info\"}");
    assert_eq!(r2.message, "Session already ended. Process kill attempted: {\"status\":\"info\"}");
}

#[test]
fn kept_session_is_shortened() {
    assert_eq!(kept_session_text("short"), "short");
    assert_eq!(kept_session_text("abcdefghijklmnopqrst"), "abcdefghijklmnopqrst");
    assert_eq!(kept_session_text("abcdefghijklmnopqrstuvwxyz"), "abcdefghijklmnopqrst...");
}

#[test]
fn kill_plan_spares_the_kept_session() {
    let ids = vec!["a".to_string(), "b".to_string(), "c".to_string()];
    assert_eq!(kill_plan(&ids, &Some("b".to_string())), vec![true, false, true]);
    assert_eq!(kill_plan(&ids, &None), vec![true, true, true]);
}

#[test]
fn killed_outputs_are_counted() {
    let outs = vec![
        "{\"killed\":[1]}".to_string(),
        "{\"status\":\"info\"}".to_string(),
        "\"killed\"".to_string(),
    ];
    assert_eq!(count_killed(&outs), 2);
}

#[test]
fn stop_others_reply_texts() {
    let r = stop_others_reply(3, 2, Some("abcdefghijklmnopqrstuvwxyz".to_string()));
    assert_eq!(r.message, "Stopped 3 sessions (2 processes killed)");
    assert_eq!(r.stopped_count, Some(3));
    assert_eq!(r.kept_session, Some("abcdefghijklmnopqrst...".to_string()));
    assert_eq!(r.note, Some("3 sessions marked ended + 2 agent process(es) killed".to_string()));
    let none = stop_others_reply(0, 0, None);
    assert_eq!(none.kept_session, None);
}

#[test]
fn compression_texts() {
    let out = "o".repeat(310);
    assert_eq!(
        compression_script_note(true, &out, ""),
        format!("Compression result: {}", &out[..300])
    );
    let err = "e".repeat(210);
    assert_eq!(
        compression_script_note(false, "", &err),
        format!("Compression attempted (script error: {})", &err[..200])
    );
    let r = mark_compression_reply(Some("s".to_string()), 1, None);
    assert_eq!(r.message, "Compressed 1 session");
    assert_eq!(r.updated_count, Some(1));
    assert_eq!(
        r.note,
        Some("Marked in DB. Compression script not found, skipping Ollama call.".to_string())
    );
    let bulk = mark_compression_reply(None, 4, None);
    assert_eq!(bulk.message, "Marked 4 old sessions for compression");
    assert_eq!(
        bulk.note,
        Some(
            "Marked 4 old sessions in DB. Bulk compression skipped (use individual session compression instead)."
                .to_string()
        )
    );
    let empty = mark_compression_reply(Some("s".to_string()), 0, Some(String::new()));
    assert_eq!(empty.note, Some("Compression completed".to_string()));
}

#[test]
fn cleanup_reply_texts() {
    let r = memory_cleanup_reply(5, 4096);
    assert_eq!(r.message, "Cleaned up 5 old ended sessions, recovered ~4 KB");
    assert_eq!(r.old_sessions_count, Some(5));
    assert_eq!(r.note, Some("Deleted 5 sessions > 7 days old + VACUUM reclaimed space".to_string()));
    assert_eq!(memory_cleanup_reply(0, 1023).message, "Cleaned up 0 old ended sessions, recovered ~0 KB");
    assert_eq!(memory_cleanup_reply(0, -2048).message, "Cleaned up 0 old ended sessions, recovered ~-2 KB");
}

#[test]
fn daily_windows_oldest_first_and_adjacent() {
    let starts = vec![400, 300, 200, 100];
    let w = daily_windows(&starts);
    assert_eq!(w, vec![(100, 200), (200, 300), (300, 400)]);
    for pair in w.windows(2) {
        assert_eq!(pair[0].1, pair[1].0);
    }
    assert_eq!(daily_windows(&vec![7]), Vec::<(i64, i64)>::new());
}

#[test]
fn slot_labels_are_distinct_and_ordered() {
    let minutes: Vec<String> = (0..1440).map(minute_label).collect();
    let mut sorted = minutes.clone();
    sorted.sort();
    sorted.dedup();
    assert_eq!(sorted, minutes);
    let hours: Vec<String> = (0..24).map(hour_label).collect();
    let mut sorted_hours = hours.clone();
    sorted_hours.sort();
    sorted_hours.dedup();
    assert_eq!(sorted_hours, hours);
}

#[test]
fn bucket_overflow_is_reported() {
    let slots = vec![1u32];
    let rows = vec![row(0, i64::MAX, 0), row(0, 1, 0)];
    assert_eq!(fill_buckets(&slots, &rows, &vec![1u32, 1]), None);
    // The same rows spread over two slots fit.
    let m = fill_buckets(&vec![1u32, 2], &rows, &vec![1u32, 2]).unwrap();
    assert_eq!(m[&1].api_calls, i64::MAX);
    assert_eq!(m[&2].api_calls, 1);
    // Rows of keys that name no slot are never added, so they cannot overflow.
    assert!(fill_buckets(&slots, &rows, &vec![1u32, 7]).is_some());
    // Today's hourly chart holds every row, so two huge rows overflow it.
    assert_eq!(query_hourly_today(&vec![row(0, i64::MAX, 0), row(0, i64::MAX, 0)]), None);
}

#[test]
fn stop_plan_follows_state_and_script() {
    let p = plan_stop(false, true);
    assert!(p.mark_ended && p.use_kill_script);
    let q = plan_stop(true, false);
    assert!(!q.mark_ended && !q.use_kill_script);
}

#[test]
fn clock_labels_render_a_reading() {
    let l = clock_labels(ClockFields { month: 3, day: 7, hour: 9, minute: 5 });
    assert_eq!(l.time, "09:05");
    assert_eq!(l.date, "03-07");
    let m = clock_labels(ClockFields { month: 12, day: 31, hour: 23, minute: 59 });
    assert_eq!(m.time, "23:59");
    assert_eq!(m.date, "12-31");
}
