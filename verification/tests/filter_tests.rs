use freshrss_filter::classifier::{
    completions_url, interpret_reply, order_key, reply_content, use_json_object_format,
    ApiFailure, ParsedReply, ReplyError, Signal,
};
use freshrss_filter::config::{
    complete_loaded, default_api_base, default_cron, default_db_path, default_delete_mode,
    default_model, default_spam_label, default_system_prompt, default_threshold,
    default_user_agent, Config, ConfigError, DatabaseConfig, FreshRssConfig, OpenAiConfig,
    SchedulerConfig,
};
use freshrss_filter::digest::{review_hash, to_hex_lower};
use freshrss_filter::fences::strip_code_fences;
use freshrss_filter::greader::{
    build_client, edit_tag_form, edit_tag_outcome, edit_tag_path, has_auth_config, select_auth,
    GReaderAuth,
    GReaderSetupError,
};
use freshrss_filter::is_success;
use freshrss_filter::processor::{
    decide, run_status, step, tally, ActionCounts, ActionSettings, ItemCommand, ItemEvent,
    ItemInfo, ItemPhase, ProcessAction, ProcessorState,
};
use freshrss_filter::schedule::{countdown_is_defined, seconds_until_next_run};
use freshrss_filter::text::{str_is_blank, trimmed, truncate};
use freshrss_filter::classifier::ClassifierResponse;

fn freshrss(
    user: Option<&str>,
    password: Option<&str>,
    token: Option<&str>,
) -> FreshRssConfig {
    FreshRssConfig {
        base_url: "https://rss.example.com".to_string(),
        fever_api_key: "key".to_string(),
        user_agent: "freshrss-filter/0.1".to_string(),
        delete_mode: "mark_read".to_string(),
        greader_username: user.map(|s| s.to_string()),
        greader_password: password.map(|s| s.to_string()),
        greader_googlelogin_auth: token.map(|s| s.to_string()),
        spam_label: "Ads".to_string(),
    }
}

fn config(delete_mode: &str) -> Config {
    let mut fr = freshrss(None, None, None);
    fr.delete_mode = delete_mode.to_string();
    Config {
        openai: OpenAiConfig {
            api_key: "sk".to_string(),
            api_base: String::new(),
            model: String::new(),
            temperature_bits: None,
            max_tokens: Some(100),
            system_prompt: "prompt".to_string(),
            threshold_bits: 0.5f32.to_bits(),
        },
        freshrss: FreshRssConfig { user_agent: String::new(), ..fr },
        scheduler: SchedulerConfig { cron: String::new() },
        database: DatabaseConfig { path: String::new() },
        dry_run: false,
    }
}

fn signal(flag: bool, confidence: f32, reason: &str) -> Signal {
    Signal { flag, confidence_bits: confidence.to_bits(), reason: reason.to_string() }
}

#[test]
fn defaults_have_documented_values() {
    assert_eq!(default_api_base(), "https://api.openai.com/v1");
    assert_eq!(default_model(), "gpt-4o-mini");
    assert!(default_system_prompt().starts_with("You are a strict classifier."));
    assert_eq!(f32::from_bits(default_threshold()), 0.5);
    assert_eq!(default_user_agent(), "freshrss-filter/0.1");
    assert_eq!(default_delete_mode(), "mark_read");
    assert_eq!(default_spam_label(), "Ads");
    assert_eq!(default_cron(), "0 */10 * * * *");
    assert_eq!(default_db_path(), "freshrss-filter.db");
}

#[test]
fn loading_fills_empty_settings() {
    let c = complete_loaded(config("")).unwrap();
    assert_eq!(c.openai.api_base, "https://api.openai.com/v1");
    assert_eq!(c.openai.model, "gpt-4o-mini");
    assert_eq!(c.freshrss.user_agent, "freshrss-filter/0.1");
    assert_eq!(c.freshrss.delete_mode, "mark_read");
    assert_eq!(c.scheduler.cron, "0 */10 * * * *");
    assert_eq!(c.database.path, "freshrss-filter.db");
    assert_eq!(c.openai.api_key, "sk");
    assert_eq!(c.openai.max_tokens, Some(100));
}

#[test]
fn loading_normalises_delete_mode() {
    let c = complete_loaded(config("  LaBeL \n")).unwrap();
    assert_eq!(c.freshrss.delete_mode, "label");
    let c = complete_loaded(config("Delete")).unwrap();
    assert_eq!(c.freshrss.delete_mode, "delete");
    let mut keep = config("mark_read");
    keep.openai.api_base = "http://localhost:8080/v1".to_string();
    let c = complete_loaded(keep).unwrap();
    assert_eq!(c.openai.api_base, "http://localhost:8080/v1");
}

#[test]
fn loading_refuses_unknown_delete_mode() {
    match complete_loaded(config(" Archive ")) {
        Err(e) => {
            let ConfigError::InvalidDeleteMode { mode } = &e;
            assert_eq!(mode, "archive");
            assert_eq!(
                e.message(),
                "invalid freshrss.delete_mode: archive (allowed: mark_read | label | delete)"
            );
        }
        Ok(_) => panic!("an unknown mode must be refused"),
    }
}

#[test]
fn dry_run_switch_only_turns_on() {
    let c = config("mark_read");
    assert!(c.clone().with_overrides(true).dry_run);
    assert!(!c.clone().with_overrides(false).dry_run);
    let mut on = c;
    on.dry_run = true;
    assert!(on.with_overrides(false).dry_run);
}

#[test]
fn auth_config_needs_token_or_both_credentials() {
    assert!(!has_auth_config(&freshrss(None, None, None)));
    assert!(has_auth_config(&freshrss(None, None, Some("tok"))));
    assert!(!has_auth_config(&freshrss(None, None, Some("   "))));
    assert!(has_auth_config(&freshrss(Some("u"), Some("p"), None)));
    assert!(!has_auth_config(&freshrss(Some("u"), None, None)));
    assert!(!has_auth_config(&freshrss(Some("u"), Some(" \t"), None)));
    assert!(has_auth_config(&freshrss(Some("u"), Some("p"), Some(" "))));
}

#[test]
fn auth_config_agrees_with_credential_choice() {
    let cases = [
        freshrss(None, None, None),
        freshrss(None, None, Some("tok")),
        freshrss(None, None, Some(" ")),
        freshrss(Some("u"), Some("p"), None),
        freshrss(Some(" "), Some("p"), None),
        freshrss(Some("u"), None, Some("")),
    ];
    for c in cases.iter() {
        assert_eq!(has_auth_config(c), select_auth(c).is_some());
    }
}

#[test]
fn google_login_token_gets_prefix_once() {
    match select_auth(&freshrss(None, None, Some("  abc123 "))) {
        Some(GReaderAuth::GoogleLogin { authorization }) => {
            assert_eq!(authorization, "GoogleLogin auth=abc123")
        }
        other => panic!("unexpected {:?}", other),
    }
    match select_auth(&freshrss(Some("u"), Some("p"), Some("googlelogin AUTH=xyz"))) {
        Some(GReaderAuth::GoogleLogin { authorization }) => {
            assert_eq!(authorization, "googlelogin AUTH=xyz")
        }
        other => panic!("unexpected {:?}", other),
    }
}

#[test]
fn basic_credentials_are_trimmed() {
    match select_auth(&freshrss(Some(" user "), Some("\tpass "), None)) {
        Some(GReaderAuth::Basic { username, password }) => {
            assert_eq!(username, "user");
            assert_eq!(password, "pass");
        }
        other => panic!("unexpected {:?}", other),
    }
}

#[test]
fn build_client_reports_each_failure() {
    let mut bad = freshrss(None, None, Some("tok"));
    bad.base_url = "not a url".to_string();
    assert!(matches!(build_client(&bad), Err(GReaderSetupError::InvalidBaseUrl(_))));
    match build_client(&freshrss(Some("u"), None, None)) {
        Err(GReaderSetupError::CredentialsMissing) | Err(GReaderSetupError::HttpClient(_)) => {}
        _ => panic!("missing credentials must be refused"),
    }
    match build_client(&freshrss(None, None, Some("tok"))) {
        Ok(c) => match c.auth() {
            GReaderAuth::GoogleLogin { authorization } => {
                assert_eq!(authorization, "GoogleLogin auth=tok");
                assert_eq!(c.base().as_str(), "https://rss.example.com/");
            }
            other => panic!("unexpected {:?}", other),
        },
        Err(GReaderSetupError::HttpClient(_)) => {}
        Err(_) => panic!("the token must be accepted"),
    }
}

#[test]
fn greader_messages_and_endpoint() {
    match build_client(&freshrss(Some("alice"), None, None)) {
        Err(e @ GReaderSetupError::CredentialsMissing) => assert_eq!(
            e.message().unwrap(),
            "greader_credentials_missing: set greader_googlelogin_auth or both greader_username and greader_password"
        ),
        Err(GReaderSetupError::HttpClient(_)) => {}
        _ => panic!("missing credentials must be refused"),
    }
    let mut bad = freshrss(None, None, Some("tok"));
    bad.base_url = "::".to_string();
    match build_client(&bad) {
        Err(e @ GReaderSetupError::InvalidBaseUrl(_)) => assert!(e.message().is_none()),
        _ => panic!("a bad URL must be refused"),
    }
    let mut agent = freshrss(None, None, Some("tok"));
    agent.user_agent = "bad\nagent".to_string();
    match build_client(&agent) {
        Err(GReaderSetupError::HttpClient(e)) => assert!(e.into_error().is_builder()),
        _ => panic!("an invalid User-Agent must be refused"),
    }
    if let Ok(c) = build_client(&freshrss(None, None, Some("tok"))) {
        assert_eq!(
            c.edit_tag_url().unwrap().as_str(),
            "https://rss.example.com/api/greader.php/reader/api/0/edit-tag"
        );
    }
    assert_eq!(edit_tag_outcome(200, "200 OK"), Ok(()));
    assert_eq!(edit_tag_outcome(299, "299"), Ok(()));
    assert_eq!(
        edit_tag_outcome(401, "401 Unauthorized"),
        Err("greader_edit_tag_error: 401 Unauthorized".to_string())
    );
}

#[test]
fn reply_error_messages() {
    assert_eq!(
        ReplyError::Malformed.message("expected value", "EOF", "RAW"),
        "parse_classifier_response_failed: expected value (array_parse_error: EOF) raw=RAW"
    );
    assert_eq!(
        ReplyError::UnexpectedShape.message("", "", "{}"),
        "parse_classifier_response_failed: expected ad/worth object or array raw={}"
    );
    assert_eq!(
        ReplyError::NoSignals.message("", "", "[]"),
        "parse_classifier_response_failed: no valid ad/worth objects in array raw=[]"
    );
}

#[test]
fn edit_tag_request_fields() {
    assert_eq!(edit_tag_path(), "/api/greader.php/reader/api/0/edit-tag");
    assert_eq!(edit_tag_form(42, "Ads"), ("42".to_string(), "user/-/label/Ads".to_string()));
    assert_eq!(edit_tag_form(-7, "x").0, "-7");
    assert_eq!(edit_tag_form(i64::MIN, "x").0, i64::MIN.to_string());
    assert_eq!(edit_tag_form(i64::MAX, "x").0, i64::MAX.to_string());
    assert_eq!(edit_tag_form(0, "广告").1, "user/-/label/广告");
}

#[test]
fn code_fences_are_stripped() {
    assert_eq!(strip_code_fences("```json\n{\"is_ad\": true}\n```"), "{\"is_ad\": true}");
    assert_eq!(strip_code_fences("  {\"a\": 1}  \n"), "{\"a\": 1}");
    assert_eq!(strip_code_fences("```\r\n{}\r\n```\r\n"), "{}");
    assert_eq!(strip_code_fences("```json\n{\"a\":\n 1}"), "{\"a\":\n 1}");
    assert_eq!(strip_code_fences("```json\n{}\n``````"), "{}");
    assert_eq!(strip_code_fences("```"), "");
    assert_eq!(strip_code_fences(""), "");
    assert_eq!(strip_code_fences("```js\na\r\nb\n  ```  "), "a\nb");
}

#[test]
fn truncation_marks_cut() {
    assert_eq!(truncate("hello", 10), "hello");
    assert_eq!(truncate("hello", 5), "hello");
    assert_eq!(truncate("hello world", 5), "hell…");
    assert_eq!(truncate("abc", 0), "…");
    assert_eq!(truncate("广告内容很长", 3), "广告…");
}

#[test]
fn trimming_uses_unicode_white_space() {
    assert_eq!(trimmed("\u{3000} a b\u{a0}\n"), "a b");
    assert!(str_is_blank(" \t\u{2003}"));
    assert!(!str_is_blank(" x "));
    assert!(str_is_blank(""));
}

#[test]
fn order_key_follows_total_cmp() {
    let values = [
        f32::NEG_INFINITY,
        -2.5,
        -0.0,
        0.0,
        1e-30,
        0.4,
        0.9,
        1.0,
        f32::INFINITY,
        f32::NAN,
    ];
    for a in values.iter() {
        for b in values.iter() {
            assert_eq!(
                a.total_cmp(b),
                order_key(a.to_bits()).cmp(&order_key(b.to_bits())),
                "{} vs {}",
                a,
                b
            );
        }
    }
}

#[test]
fn ad_object_is_taken_as_is() {
    let r = interpret_reply(ParsedReply::Ad(signal(true, 0.8, "promo"))).unwrap();
    assert!(r.is_ad);
    assert_eq!(f32::from_bits(r.confidence_bits), 0.8);
    assert_eq!(r.reason, "promo");
    assert_eq!(r.is_worth, None);
    assert_eq!(r.worth_reason, None);
}

#[test]
fn worth_object_gives_not_ad() {
    let r = interpret_reply(ParsedReply::Object(Some(signal(false, 0.7, "thin")))).unwrap();
    assert!(!r.is_ad);
    assert_eq!(r.is_worth, Some(false));
    assert_eq!(r.worth_confidence_bits, Some(0.7f32.to_bits()));
    assert_eq!(r.reason, "thin");
    assert_eq!(r.worth_reason.as_deref(), Some("thin"));
}

#[test]
fn reply_errors() {
    assert_eq!(interpret_reply(ParsedReply::Malformed).unwrap_err(), ReplyError::Malformed);
    assert_eq!(interpret_reply(ParsedReply::Object(None)).unwrap_err(), ReplyError::UnexpectedShape);
    assert_eq!(interpret_reply(ParsedReply::Scalar).unwrap_err(), ReplyError::UnexpectedShape);
    assert_eq!(
        interpret_reply(ParsedReply::Array { ads: vec![], worths: vec![] }).unwrap_err(),
        ReplyError::NoSignals
    );
}

#[test]
fn array_prefers_most_confident_ad_verdict() {
    let ads = vec![signal(false, 0.99, "clean"), signal(true, 0.6, "first"), signal(true, 0.6, "second"), signal(true, 0.3, "weak")];
    let worths = vec![signal(true, 0.9, "good"), signal(false, 0.2, "meh")];
    let r = interpret_reply(ParsedReply::Array { ads, worths }).unwrap();
    assert!(r.is_ad);
    assert_eq!(f32::from_bits(r.confidence_bits), 0.6);
    assert_eq!(r.reason, "second");
    assert_eq!(r.is_worth, Some(false));
    assert_eq!(r.worth_reason.as_deref(), Some("meh"));
    assert_eq!(r.worth_confidence_bits, Some(0.2f32.to_bits()));
}

#[test]
fn array_without_ad_verdict_takes_most_confident() {
    let ads = vec![signal(false, 0.4, "a"), signal(false, 0.8, "b")];
    let r = interpret_reply(ParsedReply::Array { ads, worths: vec![] }).unwrap();
    assert!(!r.is_ad);
    assert_eq!(r.reason, "b");
    assert_eq!(r.is_worth, None);
    let worths = vec![signal(true, 0.3, "x"), signal(true, 0.9, "y")];
    let r = interpret_reply(ParsedReply::Array { ads: vec![], worths }).unwrap();
    assert!(!r.is_ad);
    assert_eq!(r.reason, "y");
    assert_eq!(f32::from_bits(r.confidence_bits), 0.9);
    assert_eq!(r.is_worth, Some(true));
}

#[test]
fn completions_endpoint() {
    assert_eq!(completions_url("https://api.openai.com/v1"), "https://api.openai.com/v1/chat/completions");
    assert_eq!(completions_url("http://x/v1///"), "http://x/v1/chat/completions");
    assert!(use_json_object_format("https://api.openai.com/v1"));
    assert!(!use_json_object_format("https://api.anthropic.com/v1"));
}

#[test]
fn reply_content_checks_error_then_status() {
    assert_eq!(reply_content(200, true, Some("x")).unwrap_err(), ApiFailure::ErrorMember);
    assert_eq!(reply_content(500, false, Some("x")).unwrap_err(), ApiFailure::Status);
    assert_eq!(reply_content(400, true, None).unwrap_err(), ApiFailure::ErrorMember);
    assert_eq!(reply_content(200, false, None).unwrap(), "{}");
    assert_eq!(reply_content(201, false, Some("```\n{\"is_ad\":false}\n```")).unwrap(), "{\"is_ad\":false}");
    assert!(is_success(299));
    assert!(!is_success(300));
    assert!(!is_success(199));
}

#[test]
fn review_hash_is_md5_hex() {
    assert_eq!(review_hash(""), "d41d8cd98f00b204e9800998ecf8427e");
    assert_eq!(review_hash("hello"), "5d41402abc4b2a76b9719d911017c592");
    assert_eq!(review_hash("广告"), format!("{:x}", md5::compute("广告")));
    assert_eq!(to_hex_lower(&[0x00, 0x0f, 0xa0, 0xff]), "000fa0ff");
}

fn response(is_ad: bool, conf: f32, is_worth: Option<bool>, worth_conf: Option<f32>) -> ClassifierResponse {
    ClassifierResponse {
        is_ad,
        confidence_bits: conf.to_bits(),
        reason: "r".to_string(),
        is_worth,
        worth_confidence_bits: worth_conf.map(|c| c.to_bits()),
        worth_reason: is_worth.map(|_| "w".to_string()),
    }
}

#[test]
fn decision_uses_worth_signal_for_unworthy_items() {
    let d = decide(&response(true, 0.9, Some(false), Some(0.3)));
    assert!(d.filter);
    assert_eq!(f32::from_bits(d.confidence_bits), 0.9);
    assert_eq!(d.reason, "r");
    let d = decide(&response(false, 0.1, Some(false), Some(0.8)));
    assert!(d.filter);
    assert_eq!(f32::from_bits(d.confidence_bits), 0.8);
    assert_eq!(d.reason, "w");
    let d = decide(&response(false, 0.1, Some(true), Some(0.8)));
    assert!(!d.filter);
    assert_eq!(f32::from_bits(d.confidence_bits), 0.1);
}

fn settings(dry_run: bool, mode: &str, has_greader: bool) -> ActionSettings {
    ActionSettings { dry_run, delete_mode: mode.to_string(), spam_label: "Ads".to_string(), has_greader }
}

fn item() -> ItemInfo {
    ItemInfo { id: 1234, title: "Buy now".to_string(), text: "Buy now\nbest deal".to_string() }
}

/// Drives the handling of an item through the given reports and collects the commands.
fn drive(s: &ActionSettings, events: Vec<ItemEvent>) -> (ItemPhase, Vec<ItemCommand>) {
    let it = item();
    let mut phase = ItemPhase::Start;
    let mut commands = Vec::new();
    for e in events {
        let (p, c) = step(s, &it, phase, e);
        phase = p;
        commands.push(c);
    }
    (phase, commands)
}

#[test]
fn reviewed_item_is_skipped() {
    let (phase, cmds) = drive(&settings(false, "mark_read", false), vec![ItemEvent::Begin, ItemEvent::Looked { reviewed: true }]);
    assert!(matches!(&cmds[0], ItemCommand::LookUp { key } if key == "1234"));
    assert!(matches!(cmds[1], ItemCommand::Finish { action: ProcessAction::SkippedExists }));
    assert!(matches!(phase, ItemPhase::Finished { action: ProcessAction::SkippedExists }));
}

fn ad_run(s: &ActionSettings, reached: bool) -> (ItemPhase, Vec<ItemCommand>) {
    drive(
        s,
        vec![
            ItemEvent::Begin,
            ItemEvent::Looked { reviewed: false },
            ItemEvent::Answered(response(true, 0.9, None, None)),
            ItemEvent::Saved,
            ItemEvent::ThresholdChecked { reached },
            ItemEvent::Acted,
        ],
    )
}

#[test]
fn ad_is_reviewed_then_marked_read() {
    let (phase, cmds) = ad_run(&settings(false, "mark_read", false), true);
    assert!(matches!(cmds[1], ItemCommand::Classify));
    match &cmds[2] {
        ItemCommand::SaveReview { key, hash, filtered, confidence_bits, reason } => {
            assert_eq!(key, "1234");
            assert_eq!(hash, &format!("{:x}", md5::compute("Buy now\nbest deal")));
            assert!(*filtered);
            assert_eq!(f32::from_bits(*confidence_bits), 0.9);
            assert_eq!(reason, "r");
        }
        other => panic!("unexpected {:?}", other),
    }
    assert!(matches!(cmds[3], ItemCommand::CheckThreshold { .. }));
    assert!(matches!(cmds[4], ItemCommand::MarkRead { id: 1234 }));
    assert!(matches!(cmds[5], ItemCommand::Finish { action: ProcessAction::MarkedRead }));
    assert!(matches!(phase, ItemPhase::Finished { action: ProcessAction::MarkedRead }));
}

#[test]
fn label_mode_labels_or_falls_back() {
    let (_, cmds) = ad_run(&settings(false, "label", true), true);
    assert!(matches!(&cmds[4], ItemCommand::AddLabel { id: 1234, label } if label == "Ads"));
    assert!(matches!(cmds[5], ItemCommand::Finish { action: ProcessAction::Labeled }));
    let (_, cmds) = ad_run(&settings(false, "label", false), true);
    assert!(matches!(cmds[4], ItemCommand::MarkRead { id: 1234 }));
    let (_, cmds) = ad_run(&settings(false, "delete", true), true);
    assert!(matches!(cmds[4], ItemCommand::SoftDelete { id: 1234 }));
    assert!(matches!(cmds[5], ItemCommand::Finish { action: ProcessAction::Deleted }));
}

#[test]
fn dry_run_and_low_confidence_change_nothing() {
    let (phase, cmds) = ad_run(&settings(true, "mark_read", true), true);
    assert!(matches!(cmds[4], ItemCommand::Finish { action: ProcessAction::WouldAct }));
    assert!(matches!(phase, ItemPhase::Finished { action: ProcessAction::WouldAct }));
    let (phase, cmds) = ad_run(&settings(false, "mark_read", true), false);
    assert!(matches!(cmds[4], ItemCommand::Finish { action: ProcessAction::Kept }));
    assert!(matches!(phase, ItemPhase::Finished { action: ProcessAction::Kept }));
}

#[test]
fn bad_request_is_recorded_and_kept() {
    let (phase, cmds) = drive(
        &settings(false, "mark_read", false),
        vec![
            ItemEvent::Begin,
            ItemEvent::Looked { reviewed: false },
            ItemEvent::ApiRefused { status: 400, message: "openai_error: status=400".to_string() },
            ItemEvent::Saved,
        ],
    );
    match &cmds[2] {
        ItemCommand::SaveReview { filtered, confidence_bits, reason, .. } => {
            assert!(!*filtered);
            assert_eq!(*confidence_bits, 0);
            assert_eq!(reason, "openai_error: status=400 | title=Buy now");
        }
        other => panic!("unexpected {:?}", other),
    }
    assert!(matches!(phase, ItemPhase::Finished { action: ProcessAction::Kept }));
    let (phase, cmds) = drive(
        &settings(false, "mark_read", false),
        vec![ItemEvent::Begin, ItemEvent::Looked { reviewed: false }, ItemEvent::ApiRefused { status: 500, message: String::new() }],
    );
    assert!(matches!(cmds[2], ItemCommand::Abort));
    assert!(matches!(phase, ItemPhase::Failed));
}

#[test]
fn failures_abort() {
    let (phase, cmds) = drive(&settings(false, "mark_read", false), vec![ItemEvent::Begin, ItemEvent::Failed, ItemEvent::Saved]);
    assert!(matches!(cmds[1], ItemCommand::Abort));
    assert!(matches!(cmds[2], ItemCommand::Abort));
    assert!(matches!(phase, ItemPhase::Failed));
}

#[test]
fn tally_counts_each_action() {
    let outcomes = vec![
        Some(ProcessAction::Kept),
        None,
        Some(ProcessAction::Kept),
        Some(ProcessAction::MarkedRead),
        Some(ProcessAction::WouldAct),
        Some(ProcessAction::SkippedExists),
    ];
    let c = tally(&outcomes);
    assert_eq!(
        c,
        ActionCounts { skipped_exists: 1, kept: 2, marked_read: 1, labeled: 0, deleted: 0, would_act: 1 }
    );
    let reviewed = freshrss_filter::processor::reviewed_total(&c);
    assert_eq!(reviewed, 5);
    assert_eq!(run_status(reviewed, outcomes.len() as u64), "reviewed_items=5/6");
    assert_eq!(run_status(0, 0), "reviewed_items=0/0");
    assert_eq!(ProcessAction::Kept.describe(), "保留");
    let state = ProcessorState::default();
    *state.last_run_status.lock().unwrap() = run_status(1, 2);
    assert_eq!(*state.clone().last_run_status.lock().unwrap(), "reviewed_items=1/2");
}

#[test]
fn countdown_to_next_run() {
    assert_eq!(seconds_until_next_run("0 */10 * * * *", 3, 30), Some(390));
    assert_eq!(seconds_until_next_run("0 */10 * * * *", 10, 0), Some(0));
    assert_eq!(seconds_until_next_run("0 */10 * * * *", 59, 1), Some(59));
    assert_eq!(seconds_until_next_run("0 5 * * * *", 6, 0), Some(59 * 60));
    assert_eq!(seconds_until_next_run("  0  +5 * * * * ", 5, 0), Some(0));
    assert_eq!(seconds_until_next_run("0 1-5 * * * *", 5, 20), Some(40));
    assert_eq!(seconds_until_next_run("30 */10 * * * *", 5, 20), None);
    assert_eq!(seconds_until_next_run("0 */10 * * *", 5, 20), None);
    assert!(countdown_is_defined("0 */10 * * * *"));
    assert!(!countdown_is_defined("0 */0 * * * *"));
    assert!(!countdown_is_defined("0 60 * * * *"));
    assert!(countdown_is_defined("5 60 * * * *"));
}

#[test]
fn white_space_matches_std() {
    for c in (0u32..=0x10FFFF).filter_map(char::from_u32) {
        let s = c.to_string();
        assert_eq!(str_is_blank(&s), c.is_whitespace(), "U+{:04X}", c as u32);
    }
}

#[test]
fn array_order_does_not_change_verdict() {
    let ads = || vec![signal(true, 0.6, "a"), signal(false, 0.9, "b"), signal(true, 0.6, "c"), signal(true, -0.0, "d")];
    let worths = || vec![signal(true, 0.8, "x"), signal(false, 0.1, "y"), signal(false, 0.4, "z")];
    let first = interpret_reply(ParsedReply::Array { ads: ads(), worths: worths() }).unwrap();
    let mut a = ads();
    a.reverse();
    let mut w = worths();
    w.rotate_left(1);
    let second = interpret_reply(ParsedReply::Array { ads: a, worths: w }).unwrap();
    assert_eq!(first.is_ad, second.is_ad);
    assert_eq!(first.confidence_bits, second.confidence_bits);
    assert_eq!(first.is_worth, second.is_worth);
    assert_eq!(first.worth_confidence_bits, second.worth_confidence_bits);
    assert_eq!(first.reason, "c");
    assert_eq!(second.reason, "a");
    assert_eq!(first.worth_reason.as_deref(), Some("z"));
}
