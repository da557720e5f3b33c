use mscd::source::is_remote_repo;
use mscd::state::{TestError, TestState};

#[test]
fn default_state_values() {
    let s = TestState::new();
    assert_eq!(s.count, 42);
    assert_eq!(s.name, "test");
    assert_eq!(s.metadata.created_at, 0);
    assert!(s.metadata.version.is_empty());
    assert!(s.history.is_empty());
    assert!(s.is_valid());
}

#[test]
fn reset_restores_defaults() {
    let mut s = TestState::new();
    s.count = 0;
    s.name = String::new();
    s.history.push("x".to_string());
    assert!(!s.is_valid());
    s.reset();
    assert_eq!(s.count, 42);
    assert_eq!(s.name, "test");
    assert!(s.history.is_empty());
}

#[test]
fn describe_counts_history() {
    let mut s = TestState::new();
    assert_eq!(s.describe(), "State with 0 entries in history");
    for i in 0..12 {
        s.history.push(format!("{}", i));
    }
    assert_eq!(s.describe(), "State with 12 entries in history");
}

#[test]
fn display_shows_count_and_name() {
    let s = TestState::new();
    assert_eq!(s.display(), "TestState(count: 42, name: test)");
}

#[test]
fn error_messages() {
    assert_eq!(TestError::InvalidCount(1050).message(), "Invalid count: 1050");
    assert_eq!(TestError::InvalidName("x".to_string()).message(), "Invalid name: x");
    assert_eq!(TestError::InvalidMetadata("v".to_string()).message(), "Invalid metadata: v");
}

#[test]
fn remote_repository_arguments() {
    assert!(is_remote_repo("https://github.com/user/repo.git"));
    assert!(is_remote_repo("git@github.com:user/repo.git"));
    assert!(!is_remote_repo("./local/path"));
    assert!(!is_remote_repo("/abs/path"));
    assert!(!is_remote_repo(""));
}

use mscd::program::{handle_program_error, process_instruction, validate_account, AccountFacts, ProgramFailure};

fn account(owner: u8, is_signer: bool, is_writable: bool) -> AccountFacts {
    AccountFacts { owner: vec![owner; 32], is_signer, is_writable }
}

#[test]
fn account_checks_in_order() {
    let program = vec![7u8; 32];
    assert!(validate_account(&account(7, true, true), &program, true, true).is_ok());
    assert!(matches!(
        validate_account(&account(8, false, false), &program, true, true),
        Err(ProgramFailure::InvalidAccountData)
    ));
    assert!(matches!(
        validate_account(&account(7, false, false), &program, true, true),
        Err(ProgramFailure::MissingRequiredSignature)
    ));
    assert!(matches!(
        validate_account(&account(7, true, false), &program, true, true),
        Err(ProgramFailure::InvalidAccountData)
    ));
    assert!(validate_account(&account(7, false, false), &program, false, false).is_ok());
    assert!(matches!(handle_program_error(), ProgramFailure::Custom(1)));
}

#[test]
fn instruction_outcomes() {
    let program = vec![7u8; 32];
    let good = vec![account(7, true, true)];
    let state = TestState::new();
    assert!(matches!(
        process_instruction(&vec![], &program, &vec![1], Some(&state)),
        Err(ProgramFailure::NotEnoughAccountKeys)
    ));
    assert!(matches!(
        process_instruction(&vec![account(7, false, true)], &program, &vec![1], Some(&state)),
        Err(ProgramFailure::MissingRequiredSignature)
    ));
    assert!(matches!(
        process_instruction(&good, &program, &vec![], Some(&state)),
        Err(ProgramFailure::Custom(1))
    ));
    assert!(matches!(
        process_instruction(&good, &program, &vec![1], None),
        Err(ProgramFailure::InvalidAccountData)
    ));
    let mut empty_name = TestState::new();
    empty_name.name = String::new();
    assert!(matches!(
        process_instruction(&good, &program, &vec![1], Some(&empty_name)),
        Err(ProgramFailure::InvalidAccountData)
    ));
    assert!(process_instruction(&good, &program, &vec![1], Some(&state)).is_ok());
}
