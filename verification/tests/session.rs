use flashurl::service::compose_short_url;
use flashurl::service::resolve;
use flashurl::service::shorten_start;
use flashurl::service::shorten_step;
use flashurl::service::ShortenError;
use flashurl::service::ShortenStep;
use flashurl::service::StorageEvent;
use flashurl::store::UrlStore;

#[test]
fn session_rejects_invalid_url() {
    let r = shorten_start(&String::from("ftp://example.com"));
    assert!(matches!(r, Err(ShortenError::ValidationError)));
}

#[test]
fn session_starts_by_checking_existing() {
    let s = shorten_start(&String::from("https://example.com")).unwrap();
    assert!(matches!(s, ShortenStep::CheckExisting { attempts: 0 }));
}

#[test]
fn session_returns_existing_code_unchanged() {
    let s = shorten_step(
        ShortenStep::CheckExisting { attempts: 0 },
        StorageEvent::FoundCode(Some(String::from("abc123"))),
    );
    match s {
        ShortenStep::Done { code } => assert_eq!(code, "abc123"),
        _ => panic!("expected Done"),
    }
}

#[test]
fn session_draws_a_fresh_candidate_on_miss() {
    let s = shorten_step(
        ShortenStep::CheckExisting { attempts: 0 },
        StorageEvent::FoundCode(None),
    );
    match s {
        ShortenStep::CheckCandidate { candidate, attempts } => {
            assert_eq!(attempts, 1);
            assert_eq!(candidate.len(), 6);
            assert!(candidate.chars().all(|c| c.is_ascii_alphanumeric()));
        }
        _ => panic!("expected CheckCandidate"),
    }
}

#[test]
fn session_redraws_on_collision() {
    let s = shorten_step(
        ShortenStep::CheckCandidate { candidate: String::from("abc123"), attempts: 1 },
        StorageEvent::CandidateTaken(true),
    );
    match s {
        ShortenStep::CheckCandidate { candidate, attempts } => {
            assert_eq!(attempts, 2);
            assert_eq!(candidate.len(), 6);
        }
        _ => panic!("expected CheckCandidate"),
    }
}

#[test]
fn session_inserts_a_free_candidate() {
    let s = shorten_step(
        ShortenStep::CheckCandidate { candidate: String::from("abc123"), attempts: 1 },
        StorageEvent::CandidateTaken(false),
    );
    match s {
        ShortenStep::InsertCandidate { candidate, attempts } => {
            assert_eq!(candidate, "abc123");
            assert_eq!(attempts, 1);
        }
        _ => panic!("expected InsertCandidate"),
    }
}

#[test]
fn session_finishes_on_insert_and_rereads_on_race() {
    let s = shorten_step(
        ShortenStep::InsertCandidate { candidate: String::from("abc123"), attempts: 3 },
        StorageEvent::Inserted,
    );
    match s {
        ShortenStep::Done { code } => assert_eq!(code, "abc123"),
        _ => panic!("expected Done"),
    }
    let s = shorten_step(
        ShortenStep::InsertCandidate { candidate: String::from("abc123"), attempts: 3 },
        StorageEvent::UniqueViolation,
    );
    assert!(matches!(s, ShortenStep::CheckExisting { attempts: 3 }));
}

#[test]
fn session_gives_up_when_attempts_run_out() {
    let s = shorten_step(
        ShortenStep::CheckCandidate { candidate: String::from("abc123"), attempts: 10000 },
        StorageEvent::CandidateTaken(true),
    );
    assert!(matches!(s, ShortenStep::GiveUp));
}

#[test]
fn session_driven_against_a_store_round_trips() {
    // The verified in-memory store stands in for the database; the loop
    // below does exactly what the HTTP driver does.
    let mut store = UrlStore::new();
    let url = String::from("https://example.com/session");
    let mut step = shorten_start(&url).unwrap();
    let code = loop {
        step = match step {
            ShortenStep::CheckExisting { attempts } => shorten_step(
                ShortenStep::CheckExisting { attempts },
                StorageEvent::FoundCode(store.find_by_long_url(&url)),
            ),
            ShortenStep::CheckCandidate { candidate, attempts } => {
                let taken = store.contains_code(&candidate);
                shorten_step(
                    ShortenStep::CheckCandidate { candidate, attempts },
                    StorageEvent::CandidateTaken(taken),
                )
            }
            ShortenStep::InsertCandidate { candidate, attempts } => {
                let ev = match store.insert(candidate.clone(), url.clone()) {
                    Ok(()) => StorageEvent::Inserted,
                    Err(_) => StorageEvent::UniqueViolation,
                };
                shorten_step(ShortenStep::InsertCandidate { candidate, attempts }, ev)
            }
            ShortenStep::Done { code } => break code,
            ShortenStep::GiveUp => panic!("session gave up"),
        };
    };
    assert_eq!(store.len(), 1);
    assert_eq!(resolve(&store, &code).unwrap(), url);
}

#[test]
fn compose_short_url_joins_base_and_code() {
    let s = compose_short_url(&String::from("http://localhost:3000"), &String::from("abc123"));
    assert_eq!(s, "http://localhost:3000/abc123");
}
