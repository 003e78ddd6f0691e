use wows_replays::analyzer::survey::SurveyStats;
use wows_replays::error::ErrorKind;
use wows_replays::survey_results::{survey_outcome, truncate_string, SurveyResult, SurveyResults};
use wows_replays::version::Version;

#[test]
fn truncate_string_keeps_the_first_characters() {
    assert_eq!(truncate_string("abcdef", 3), "abc");
    assert_eq!(truncate_string("abc", 3), "abc");
    assert_eq!(truncate_string("ab", 5), "ab");
    assert_eq!(truncate_string("", 0), "");
}

#[test]
fn truncate_string_counts_characters_not_bytes() {
    assert_eq!(truncate_string("äöüß", 2), "äö");
    assert_eq!(truncate_string("日本語テキスト", 3), "日本語");
}

#[test]
fn empty_survey_has_no_counts() {
    let r = SurveyResults::empty();
    assert_eq!(r.total(), 0);
    assert_eq!(r.successes(), 0);
    assert_eq!(r.parse_failures(), 0);
    assert_eq!(r.version_failures(), 0);
    assert_eq!(r.successes_with_invalids(), 0);
    assert!(r.invalid_versions().is_empty());
    assert!(r.audits().is_empty());
}

#[test]
fn every_file_is_counted_once() {
    let mut r = SurveyResults::empty();
    r.add(SurveyResult::Success(("h1".to_string(), "01.01.2021 10:00:00".to_string(), 10, 0, vec![])));
    r.add(SurveyResult::Success(("h2".to_string(), "02.01.2021 10:00:00".to_string(), 10, 2, vec![
        "odd packet".to_string(),
    ])));
    r.add(SurveyResult::UnsupportedVersion("0,9,1,0".to_string()));
    r.add(SurveyResult::UnsupportedVersion("0,9,2,0".to_string()));
    r.add(SurveyResult::UnsupportedVersion("0,9,1,0".to_string()));
    r.add(SurveyResult::ParseFailure("bad".to_string()));
    assert_eq!(r.total(), 6);
    assert_eq!(r.successes(), 2);
    assert_eq!(r.successes_with_invalids(), 1);
    assert_eq!(r.version_failures(), 3);
    assert_eq!(r.parse_failures(), 1);
    assert_eq!(r.total(), r.successes() + r.version_failures() + r.parse_failures());
    let versions = r.invalid_versions();
    assert_eq!(versions.len(), 2);
    assert_eq!(versions[0], ("0,9,1,0".to_string(), 2));
    assert_eq!(versions[1], ("0,9,2,0".to_string(), 1));
    let audits = r.audits();
    assert_eq!(audits.len(), 1);
    assert_eq!(audits[0].0, "h2");
    assert_eq!(audits[0].1 .1, vec!["odd packet".to_string()]);
}

#[test]
fn audits_of_the_same_hash_are_replaced() {
    let mut r = SurveyResults::empty();
    r.add(SurveyResult::Success(("h".to_string(), "t1".to_string(), 1, 0, vec!["a".to_string()])));
    r.add(SurveyResult::Success(("h".to_string(), "t2".to_string(), 1, 0, vec!["b".to_string()])));
    let audits = r.audits();
    assert_eq!(audits.len(), 1);
    assert_eq!(audits[0].1 .0, "t2");
    assert_eq!(audits[0].1 .1, vec!["b".to_string()]);
}

fn counted_stats() -> SurveyStats {
    let mut s = SurveyStats::new();
    s.total_packets = 120;
    s.invalid_packets = 3;
    s.audits = vec!["odd packet".to_string()];
    s.date_time = "01.02.2023 10:11:12".to_string();
    s
}

#[test]
fn survey_outcome_of_a_parsed_replay_is_a_success_with_its_counts() {
    let r = survey_outcome("a.wowsreplay".to_string(), &Ok(()), &counted_stats());
    match r {
        SurveyResult::Success((name, date, n, invalid, audits)) => {
            assert_eq!(name, "a.wowsreplay");
            assert_eq!(date, "01.02.2023 10:11:12");
            assert_eq!(n, 120);
            assert_eq!(invalid, 3);
            assert_eq!(audits, vec!["odd packet".to_string()]);
        }
        _ => panic!("expected a success"),
    }
}

#[test]
fn survey_outcome_of_missing_data_files_names_the_version_path() {
    let version = Version { major: 0, minor: 10, patch: 9, build: 3747819 };
    let err = ErrorKind::DatafileNotFound { version, path: "scripts/entities.xml".to_string() };
    match survey_outcome("b".to_string(), &Err(err), &counted_stats()) {
        SurveyResult::UnsupportedVersion(v) => assert_eq!(v, "0.10.9"),
        _ => panic!("expected an unsupported version"),
    }
}

#[test]
fn survey_outcome_of_an_unknown_format_names_the_number() {
    match survey_outcome("c".to_string(), &Err(ErrorKind::UnsupportedReplayVersion(4077)), &counted_stats()) {
        SurveyResult::UnsupportedVersion(v) => assert_eq!(v, "4077"),
        _ => panic!("expected an unsupported version"),
    }
}

#[test]
fn survey_outcome_of_other_errors_is_a_parse_failure() {
    match survey_outcome("d".to_string(), &Err(ErrorKind::UnexpectedEof), &counted_stats()) {
        SurveyResult::ParseFailure(m) => assert_eq!(m, "UnexpectedEof"),
        _ => panic!("expected a parse failure"),
    }
}
