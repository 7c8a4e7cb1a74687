use cc_proxy::server::costs::{
    aggregate_costs, empty_costs, keep_recent_sessions, sessions_newest_first, usage_dated, usage_fits, DailyUsageRow,
};

fn row(date: &str, session: &str, model: &str, provider: &str, input: u64, output: u64, tasks: u64) -> DailyUsageRow {
    DailyUsageRow {
        usage_date: date.into(),
        session_id: session.into(),
        model: model.into(),
        provider: provider.into(),
        input_tokens: input,
        output_tokens: output,
        cache_creation_tokens: 1,
        cache_read_tokens: 2,
        task_count: tasks,
    }
}

fn rows() -> Vec<DailyUsageRow> {
    vec![
        row("2024-05-02", "s1", "sonnet", "anthropic", 100, 10, 1),
        row("2024-05-01", "s1", "opus", "anthropic", 500, 50, 2),
        row("2024-05-02", "s2", "sonnet", "deepseek", 300, 30, 3),
        row("2024-05-01", "s2", "opus", "anthropic", 50, 5, 1),
    ]
}

#[test]
fn costs_group_by_model_largest_input_first() {
    let data = aggregate_costs(&rows(), "2024-05-01", "2024-05-02");
    assert_eq!(data.from, "2024-05-01");
    assert_eq!(data.to, "2024-05-02");
    assert_eq!(data.by_model.len(), 2);
    assert_eq!(data.by_model[0].model, "opus");
    assert_eq!(data.by_model[0].usage.input_tokens, 550);
    assert_eq!(data.by_model[0].usage.output_tokens, 55);
    assert_eq!(data.by_model[0].usage.cache_creation_tokens, 2);
    assert_eq!(data.by_model[0].usage.cache_read_tokens, 4);
    assert_eq!(data.by_model[0].usage.request_count, 3);
    assert_eq!(data.by_model[1].model, "sonnet");
    assert_eq!(data.by_model[1].usage.input_tokens, 400);
}

#[test]
fn costs_group_by_provider() {
    let data = aggregate_costs(&rows(), "a", "b");
    assert_eq!(data.by_provider.len(), 2);
    assert_eq!(data.by_provider[0].provider, "anthropic");
    assert_eq!(data.by_provider[0].usage.input_tokens, 650);
    assert_eq!(data.by_provider[1].provider, "deepseek");
    assert_eq!(data.by_provider[1].usage.request_count, 3);
}

#[test]
fn costs_group_by_session_with_models() {
    let data = aggregate_costs(&rows(), "a", "b");
    assert_eq!(data.by_session.len(), 2);
    let s1 = data.by_session.iter().find(|s| s.session_id == "s1").unwrap();
    assert_eq!(s1.session_label, "s1");
    assert_eq!(s1.usage.input_tokens, 600);
    assert_eq!(s1.models, vec!["sonnet".to_string(), "opus".to_string()]);
    assert!(s1.first_request.is_empty() && s1.last_request.is_empty());
    let s2 = data.by_session.iter().find(|s| s.session_id == "s2").unwrap();
    assert_eq!(s2.usage.request_count, 4);
}

#[test]
fn costs_group_by_day_earliest_first() {
    let data = aggregate_costs(&rows(), "a", "b");
    assert_eq!(data.by_day.len(), 2);
    assert_eq!(data.by_day[0].date, "2024-05-01");
    assert_eq!(data.by_day[0].model, "opus");
    assert_eq!(data.by_day[0].usage.input_tokens, 550);
    assert_eq!(data.by_day[1].date, "2024-05-02");
    assert_eq!(data.by_day[1].model, "sonnet");
    assert_eq!(data.by_day[1].usage.input_tokens, 400);
}

#[test]
fn no_rows_give_empty_groups() {
    let data = aggregate_costs(&vec![], "a", "b");
    assert!(data.by_model.is_empty() && data.by_provider.is_empty());
    assert!(data.by_session.is_empty() && data.by_day.is_empty());
    let empty = empty_costs();
    assert!(empty.from.is_empty() && empty.to.is_empty() && empty.by_day.is_empty());
}

#[test]
fn overflowing_totals_are_detected() {
    assert!(usage_fits(&rows()));
    let big = vec![row("d", "s", "m", "p", u64::MAX, 0, 0), row("d", "s", "m", "p", 1, 0, 0)];
    assert!(!usage_fits(&big));
}

#[test]
fn every_grouping_adds_up_to_the_total() {
    let data = aggregate_costs(&rows(), "a", "b");
    let total: u64 = rows().iter().map(|r| r.input_tokens).sum();
    let tasks: u64 = rows().iter().map(|r| r.task_count).sum();
    assert_eq!(data.by_model.iter().map(|m| m.usage.input_tokens).sum::<u64>(), total);
    assert_eq!(data.by_provider.iter().map(|m| m.usage.input_tokens).sum::<u64>(), total);
    assert_eq!(data.by_session.iter().map(|m| m.usage.input_tokens).sum::<u64>(), total);
    assert_eq!(data.by_day.iter().map(|m| m.usage.request_count).sum::<u64>(), tasks);
}

#[test]
fn usage_is_filtered_by_date_bounds() {
    let rs = vec![
        row("2026-01-01", "a", "m", "p", 1, 1, 1),
        row("2026-01-05", "b", "m", "p", 1, 1, 1),
        row("2026-01-09", "c", "m", "p", 1, 1, 1),
    ];
    let mid = usage_dated(&rs, Some("2026-01-02"), Some("2026-01-09"));
    assert_eq!(mid.iter().map(|r| r.session_id.as_str()).collect::<Vec<_>>(), vec!["b", "c"]);
    let since = usage_dated(&rs, Some("2026-01-05"), None);
    assert_eq!(since.len(), 2);
    assert_eq!(usage_dated(&rs, None, None).len(), 3);
}

#[test]
fn only_the_newest_sessions_are_kept() {
    let rs = vec![
        row("2026-01-01", "a", "m", "p", 1, 1, 1),
        row("2026-01-02", "b", "m", "p", 1, 1, 1),
        row("2026-01-03", "a", "m", "p", 1, 1, 1),
        row("2026-01-04", "c", "m", "p", 1, 1, 1),
    ];
    assert_eq!(sessions_newest_first(&rs), vec!["c".to_string(), "a".to_string(), "b".to_string()]);
    let kept = keep_recent_sessions(&rs, 2);
    assert_eq!(kept.iter().map(|r| r.session_id.as_str()).collect::<Vec<_>>(), vec!["a", "a", "c"]);
    assert_eq!(keep_recent_sessions(&rs, 10).len(), 4);
}
