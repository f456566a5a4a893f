use search_bench::command::{
    infino_plan, infino_reply, infino_request, tantivy_command, tantivy_reply, tantivy_request,
    top_k, top_k_count, InfinoPlan, Reply, TantivyCommand,
};
use search_bench::request::{has_no_positive_terms, is_blank, split_request, split_two_fields};

#[test]
fn top_k_maps_commands() {
    assert_eq!(top_k("TOP_10"), 10);
    assert_eq!(top_k("TOP_100"), 100);
    assert_eq!(top_k("TOP_1000"), 1000);
    assert_eq!(top_k("COUNT"), 10);
    assert_eq!(top_k(""), 10);
    assert_eq!(top_k("TOP_10000"), 10);
}

#[test]
fn top_k_count_maps_commands() {
    assert_eq!(top_k_count("TOP_1_COUNT"), 1);
    assert_eq!(top_k_count("TOP_5_COUNT"), 5);
    assert_eq!(top_k_count("TOP_10_COUNT"), 10);
    assert_eq!(top_k_count("TOP_100_COUNT"), 100);
    assert_eq!(top_k_count("TOP_1000_COUNT"), 1000);
    assert_eq!(top_k_count("TOP_100"), 10);
    assert_eq!(top_k_count("top_5_count"), 10);
}

#[test]
fn infino_plans_supported_commands() {
    assert_eq!(infino_plan("TOP_10", "the cat"), InfinoPlan::TopK(10));
    assert_eq!(infino_plan("TOP_100", "+the +cat"), InfinoPlan::TopK(100));
    assert_eq!(infino_plan("TOP_1000", "cat"), InfinoPlan::TopK(1000));
    assert_eq!(infino_plan("COUNT", "cat -dog"), InfinoPlan::Count);
    assert_eq!(infino_plan("TOP_5_COUNT", "cat"), InfinoPlan::TopKThenCount(5));
    assert_eq!(infino_plan("TOP_1000_COUNT", "\"a b\""), InfinoPlan::TopKThenCount(1000));
}

#[test]
fn infino_unsupported_commands() {
    assert_eq!(infino_plan("UNOPTIMIZED_COUNT", "cat"), InfinoPlan::Unsupported);
    assert_eq!(infino_plan("TOP_10_FF", "cat"), InfinoPlan::Unsupported);
    assert_eq!(infino_plan("DEBUG_TOP_10", "cat"), InfinoPlan::Unsupported);
    assert_eq!(infino_plan("", "cat"), InfinoPlan::Unsupported);
}

#[test]
fn infino_negation_only_or_blank_query_is_zero() {
    assert_eq!(infino_plan("COUNT", "-cat -dog"), InfinoPlan::NoPositiveTerms);
    assert_eq!(infino_plan("UNSUPPORTED_THING", "-cat"), InfinoPlan::NoPositiveTerms);
    assert_eq!(infino_plan("TOP_10", ""), InfinoPlan::NoPositiveTerms);
    assert_eq!(infino_plan("TOP_10", " \t "), InfinoPlan::NoPositiveTerms);
    assert_eq!(infino_reply(InfinoPlan::NoPositiveTerms, Some(5)), Reply::Count(0));
    assert!(has_no_positive_terms("  -a\u{3000}-b "));
    assert!(!has_no_positive_terms("-a b"));
    assert!(!has_no_positive_terms("a-"));
}

#[test]
fn infino_replies() {
    assert_eq!(infino_reply(InfinoPlan::TopK(10), Some(0)), Reply::Count(1));
    assert_eq!(infino_reply(InfinoPlan::TopK(10), None), Reply::Count(0));
    assert_eq!(infino_reply(InfinoPlan::Count, Some(42)), Reply::Count(42));
    assert_eq!(infino_reply(InfinoPlan::Count, None), Reply::Count(0));
    assert_eq!(infino_reply(InfinoPlan::TopKThenCount(5), Some(7)), Reply::Count(7));
    assert_eq!(infino_reply(InfinoPlan::TopKThenCount(5), None), Reply::Count(0));
    assert_eq!(infino_reply(InfinoPlan::Unsupported, Some(3)), Reply::Unsupported);
}

#[test]
fn infino_request_lines() {
    let r = infino_request("TOP_100_COUNT\tthe +cat");
    assert_eq!(r.plan, InfinoPlan::TopKThenCount(100));
    assert_eq!(r.query, "the +cat");
    let r = infino_request("COUNT");
    assert_eq!(r.plan, InfinoPlan::NoPositiveTerms);
    assert_eq!(r.query, "");
    let r = infino_request("COUNT\ta\tb");
    assert_eq!(r.plan, InfinoPlan::Count);
    assert_eq!(r.query, "a\tb");
}

#[test]
fn tantivy_commands() {
    assert_eq!(tantivy_command("COUNT"), TantivyCommand::Count);
    assert_eq!(tantivy_command("UNOPTIMIZED_COUNT"), TantivyCommand::UnoptimizedCount);
    assert_eq!(tantivy_command("TOP_10"), TantivyCommand::Top(10));
    assert_eq!(tantivy_command("TOP_100"), TantivyCommand::Top(100));
    assert_eq!(tantivy_command("TOP_1000"), TantivyCommand::Top(1000));
    assert_eq!(tantivy_command("TOP_1_COUNT"), TantivyCommand::TopCount(1));
    assert_eq!(tantivy_command("TOP_100_COUNT"), TantivyCommand::TopCount(100));
    assert_eq!(tantivy_command("DEBUG_TOP_10"), TantivyCommand::DebugTop10);
    assert_eq!(tantivy_command("TOP_10_FF"), TantivyCommand::Unsupported);
}

#[test]
fn tantivy_replies() {
    assert_eq!(tantivy_reply(TantivyCommand::Count, 9), Reply::Count(9));
    assert_eq!(tantivy_reply(TantivyCommand::UnoptimizedCount, 9), Reply::Count(9));
    assert_eq!(tantivy_reply(TantivyCommand::TopCount(5), 9), Reply::Count(9));
    assert_eq!(tantivy_reply(TantivyCommand::Top(100), 9), Reply::Count(1));
    assert_eq!(tantivy_reply(TantivyCommand::DebugTop10, 9), Reply::Count(0));
    assert_eq!(tantivy_reply(TantivyCommand::Unsupported, 9), Reply::Unsupported);
}

#[test]
fn tantivy_request_lines() {
    let r = tantivy_request("TOP_10\t\"the ca*\"~2").unwrap();
    assert_eq!(r.command, TantivyCommand::Top(10));
    assert_eq!(r.query, "\"the ca*\"~2");
    assert!(r.wildcard);
    let r = tantivy_request("COUNT\t+the +cat").unwrap();
    assert_eq!(r.command, TantivyCommand::Count);
    assert!(!r.wildcard);
    assert!(tantivy_request("COUNT the cat").is_none());
    assert!(tantivy_request("COUNT\tthe\tcat").is_none());
    assert!(tantivy_request("").is_none());
}

#[test]
fn request_splitting() {
    let r = split_request("COUNT\tfoo bar");
    assert_eq!(r.command, "COUNT");
    assert_eq!(r.query, "foo bar");
    let r = split_request("\t");
    assert_eq!(r.command, "");
    assert_eq!(r.query, "");
    let r = split_request("é\tü");
    assert_eq!(r.command, "é");
    assert_eq!(r.query, "ü");
    assert!(split_two_fields("a\tb").is_some());
    assert!(split_two_fields("a").is_none());
    assert!(split_two_fields("a\t\tb").is_none());
}

#[test]
fn blank_lines() {
    assert!(is_blank(""));
    assert!(is_blank(" \t\r\n\u{a0}"));
    assert!(!is_blank(" x "));
}

#[test]
fn engines_agree_on_commands() {
    for c in [
        "TOP_10", "TOP_100", "TOP_1000", "COUNT", "TOP_1_COUNT", "TOP_5_COUNT", "TOP_10_COUNT",
        "TOP_100_COUNT", "TOP_1000_COUNT", "UNOPTIMIZED_COUNT", "DEBUG_TOP_10", "TOP_10_FF",
    ] {
        let i = infino_plan(c, "cat");
        let t = tantivy_command(c);
        match i {
            InfinoPlan::TopK(k) => assert_eq!(t, TantivyCommand::Top(k)),
            InfinoPlan::Count => assert_eq!(t, TantivyCommand::Count),
            InfinoPlan::TopKThenCount(k) => assert_eq!(t, TantivyCommand::TopCount(k)),
            _ => assert!(!matches!(
                t,
                TantivyCommand::Top(_) | TantivyCommand::Count | TantivyCommand::TopCount(_)
            )),
        }
    }
}

#[test]
fn request_line_rejoins_at_the_tab() {
    for line in ["COUNT\tthe cat", "\t", "a\tb\tc", "TOP_10\t"] {
        let r = split_request(line);
        assert_eq!(format!("{}\t{}", r.command, r.query), line);
        assert!(!r.command.contains('\t'));
    }
}
