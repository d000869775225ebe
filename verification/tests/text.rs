use robokitty::calendar::{
    calculate_days_between, day_of_instant, days_open, days_open_at, days_open_on, end_of_day,
    start_of_day,
};
use robokitty::proposal::Resolution;
use robokitty::raffle_wait::{RaffleWait, WaitAction, WaitEvent};
use robokitty::text::{
    clean_file_name, contains_id, escape_markdown, parse_resolution, parse_team_status,
    resolution_from_word, sanitize_filename, status_from_word, str_eq,
};
use robokitty::BudgetError;

#[test]
fn markup_is_escaped() {
    assert_eq!(escape_markdown("plain text"), "plain text");
    assert_eq!(escape_markdown("a_b*c"), "a\\_b\\*c");
    assert_eq!(escape_markdown("_*[]()~`>#+-=|{}.!"), "\\_\\*\\[\\]\\(\\)\\~\\`\\>\\#\\+\\-\\=\\|\\{\\}\\.\\!");
    assert_eq!(escape_markdown("caf\u{e9} 1.5"), "caf\u{e9} 1\\.5");
    assert_eq!(escape_markdown(""), "");
    assert_eq!(escape_markdown("back\\slash"), "back\\slash");
}

#[test]
fn file_names_are_cleaned() {
    assert_eq!(clean_file_name("a/b\\c:d*e?f\"g<h>i|j"), "a_b_c_d_e_f_g_h_i_j");
    assert_eq!(clean_file_name("Team A (2024)"), "Team A (2024)");
    assert_eq!(clean_file_name("\u{fc}ber/all"), "\u{fc}ber_all");
    assert_eq!(sanitize_filename("Epoch 1: Q3/2024"), "Epoch_1__Q3_2024");
    assert_eq!(sanitize_filename("AZaz09-_"), "AZaz09-_");
    assert_eq!(sanitize_filename("\u{fc}ber"), "_ber");
    assert_eq!(sanitize_filename(""), "");
}

#[test]
fn words_name_resolutions_in_any_case() {
    assert_eq!(parse_resolution("approved"), Ok(Resolution::Approved));
    assert_eq!(parse_resolution("APPROVED"), Ok(Resolution::Approved));
    assert_eq!(parse_resolution("Rejected"), Ok(Resolution::Rejected));
    assert_eq!(parse_resolution("invalid"), Ok(Resolution::Invalid));
    assert_eq!(parse_resolution("DupliCate"), Ok(Resolution::Duplicate));
    assert_eq!(parse_resolution("retracted"), Ok(Resolution::Retracted));
    assert_eq!(parse_resolution("approve"), Err(BudgetError::UnknownResolution));
    assert_eq!(parse_resolution(""), Err(BudgetError::UnknownResolution));
    assert_eq!(resolution_from_word("approved"), Ok(Resolution::Approved));
    assert_eq!(resolution_from_word("Approved"), Err(BudgetError::UnknownResolution));
}

#[test]
fn words_name_statuses_in_any_case() {
    assert!(parse_team_status("Earner", Some(vec![1, 2])).unwrap().is_earner());
    assert!(parse_team_status("SUPPORTER", None).unwrap().is_supporter());
    assert!(parse_team_status("inactive", Some(vec![1])).unwrap().is_inactive());
    assert_eq!(parse_team_status("earner", None).unwrap_err(), BudgetError::EmptyRevenue);
    assert_eq!(parse_team_status("owner", None).unwrap_err(), BudgetError::UnknownStatus);
    assert!(status_from_word("supporter", None).unwrap().is_supporter());
    assert_eq!(status_from_word("Supporter", None).unwrap_err(), BudgetError::UnknownStatus);
}

#[test]
fn strings_and_ids_are_compared() {
    assert!(str_eq("", ""));
    assert!(str_eq("Team A", "Team A"));
    assert!(!str_eq("Team A", "Team B"));
    assert!(!str_eq("Team", "Team A"));
    assert!(str_eq("caf\u{e9}", "caf\u{e9}"));
    assert!(!str_eq("caf\u{e9}", "cafe"));
    assert!(contains_id(&vec![1, 2, 3], 2));
    assert!(!contains_id(&vec![1, 2, 3], 4));
    assert!(!contains_id(&vec![], 0));
}

#[test]
fn days_and_instants() {
    assert_eq!(start_of_day(0), 0);
    assert_eq!(end_of_day(0), 86399);
    assert_eq!(start_of_day(19000), 1_641_600_000);
    assert_eq!(end_of_day(-1), -1);
    assert_eq!(start_of_day(i32::MIN), i32::MIN as i64 * 86400);
    assert_eq!(day_of_instant(0), 0);
    assert_eq!(day_of_instant(86399), 0);
    assert_eq!(day_of_instant(86400), 1);
    assert_eq!(day_of_instant(-1), -1);
    assert_eq!(day_of_instant(-86400), -1);
    assert_eq!(day_of_instant(-86401), -2);
    assert_eq!(day_of_instant(i64::MIN), -106751991167301);
    assert_eq!(day_of_instant(i64::MAX), 106751991167300);
    assert_eq!(calculate_days_between(10, 17), 7);
    assert_eq!(calculate_days_between(17, 10), -7);
    assert_eq!(calculate_days_between(i32::MIN, i32::MAX), 4294967295);
    assert_eq!(days_open_on(Some(100), 130), 30);
    assert_eq!(days_open_on(None, 130), 0);
    assert_eq!(days_open_at(Some(100), 130 * 86400), 30);
    assert_eq!(days_open_at(Some(100), 130 * 86400 + 86399), 30);
    assert_eq!(days_open_at(Some(100), 99 * 86400), -1);
    assert_eq!(days_open_at(Some(-3), -1), 2);
    assert_eq!(days_open_at(None, 130 * 86400), 0);
    assert_eq!(days_open_at(Some(i32::MIN), i64::MAX), 106751991167300 + 2147483648);
    assert_eq!(days_open_at(Some(i32::MAX), i64::MIN), -106751991167301 - 2147483647);
    assert_eq!(days_open(None), 0);
    let today = day_of_instant(chrono::Utc::now().timestamp());
    let open = days_open(Some(19000));
    assert!(open == today - 19000 || open == today - 19000 + 1);
}

#[test]
fn waiting_for_the_target_block() {
    let mut wait = RaffleWait::begin(7, 12345, None, 10).unwrap();
    assert_eq!(
        wait,
        RaffleWait { raffle_id: 7, initiation_block: 12345, target_block: 12355, last_observed_block: 12345 }
    );
    assert_eq!(RaffleWait::begin(7, 100, Some(3), 10).unwrap().target_block, 103);
    assert_eq!(RaffleWait::begin(7, u64::MAX, Some(1), 10).unwrap_err(), BudgetError::BlockNumberOverflow);
    assert_eq!(RaffleWait::begin(7, u64::MAX, Some(0), 10).unwrap().target_block, u64::MAX);
    assert!(!wait.is_news(12345));
    assert!(wait.is_news(12346));
    assert_eq!(wait.next(WaitEvent::Block(12346)), WaitAction::Pause);
    assert_eq!(wait.last_observed_block, 12346);
    assert_eq!(wait.next(WaitEvent::Block(12354)), WaitAction::Pause);
    assert_eq!(wait.next(WaitEvent::OracleFailed), WaitAction::Fail(BudgetError::OracleFailure));
    assert_eq!(wait.last_observed_block, 12354);
    assert_eq!(wait.next(WaitEvent::Block(12355)), WaitAction::ReadRandomness { block: 12355 });
    assert_eq!(wait.next(WaitEvent::Block(12400)), WaitAction::ReadRandomness { block: 12355 });
    assert_eq!(wait.target_block, 12355);
}
