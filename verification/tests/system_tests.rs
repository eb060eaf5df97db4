use fns::system::{default_thread_count, thread_suggestion, verbose_info, verbose_lines};

#[test]
fn thread_suggestion_doubles_the_count() {
    assert_eq!(thread_suggestion(0), 0);
    assert_eq!(thread_suggestion(1), 2);
    assert_eq!(thread_suggestion(4), 8);
    assert_eq!(thread_suggestion(usize::MAX / 2), usize::MAX - 1);
    assert_eq!(thread_suggestion(usize::MAX / 2 + 1), usize::MAX);
    assert_eq!(thread_suggestion(usize::MAX), usize::MAX);
}

#[test]
fn default_thread_count_is_at_least_one() {
    assert!(default_thread_count() >= 1);
}

#[test]
fn verbose_lines_have_their_exact_text() {
    assert_eq!(
        verbose_lines(4, 8, 12),
        vec![
            "\n".to_string(),
            "::CPU Information::".to_string(),
            " - 4 cores available".to_string(),
            " - 8 threads available".to_string(),
            "\n💡 Optimize search speed by doubling the thread count or higher. E.g. -t 16\n"
                .to_string(),
            "🥞 12 Threads requested. Distributing workload...\n".to_string(),
        ]
    );
}

#[test]
fn verbose_info_reports_on_this_machine() {
    let lines = verbose_info(3);
    assert_eq!(lines.len(), 6);
    assert_eq!(lines[0], "\n");
    assert_eq!(lines[1], "::CPU Information::");
    assert!(lines[2].starts_with(" - "));
    assert!(lines[2].ends_with(" cores available"));
    assert!(lines[3].ends_with(" threads available"));
    assert_ne!(lines[2], " - 0 cores available");
    assert_ne!(lines[3], " - 0 threads available");
    assert_eq!(lines[5], "🥞 3 Threads requested. Distributing workload...\n");
}
