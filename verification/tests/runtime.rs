use gitsplode::GuardState;
use gitsplode::InitError;
use gitsplode::InitGuard;
use gitsplode::RepoInitError;
use gitsplode::Repository;
use gitsplode::VersionGuard;

#[test]
fn exactly_one_claim_wins() {
    let mut g = InitGuard::new();
    assert!(matches!(g.state(), GuardState::Uninitialized));
    let mut wins = 0;
    for _ in 0..16 {
        if g.claim() {
            wins += 1;
        }
    }
    assert_eq!(wins, 1);
    assert!(matches!(g.state(), GuardState::Initializing));
}

#[test]
fn winner_commits_to_ready() {
    let mut g = InitGuard::new();
    assert!(g.claim());
    let r = g.complete(0);
    assert!(r.is_ok());
    assert!(matches!(g.state(), GuardState::Ready));
    assert!(!g.claim());
}

#[test]
fn non_git_environment_is_reported() {
    let mut g = InitGuard::new();
    assert!(g.claim());
    let r = g.complete(1);
    assert!(matches!(r, Err(InitError::NonGitDirectory)));
    assert!(!g.claim());
}

#[test]
fn version_is_read_once_and_stable() {
    let mut v = VersionGuard::new();
    assert!(v.needs_read());
    v.store(String::from("2.39.0"));
    assert!(!v.needs_read());
    assert_eq!(v.get(), "2.39.0");
    assert_eq!(v.get(), "2.39.0");
}

#[test]
fn racing_offers_converge_on_the_first_reading() {
    let mut v = VersionGuard::new();
    assert_eq!(v.offer(String::from("2.39.0")), "2.39.0");
    assert_eq!(v.offer(String::from("2.40.1")), "2.39.0");
    assert_eq!(v.offer(String::from("2.41.0")), "2.39.0");
    assert_eq!(v.get(), "2.39.0");
}

#[test]
fn repo_paths_gain_their_terminator() {
    let req = Repository::prepare(
        Some(b"/srv/repo.git".to_vec()),
        Some(b"/srv/worktree".to_vec()),
    )
    .unwrap();
    assert_eq!(req.gitdir, b"/srv/repo.git\0".to_vec());
    assert_eq!(req.worktree, b"/srv/worktree\0".to_vec());
}

#[test]
fn embedded_nul_fails_with_nul() {
    let r = Repository::prepare(Some(b"/srv/re\0po".to_vec()), Some(b"/wt".to_vec()));
    assert!(matches!(r, Err(RepoInitError::Nul)));
    let r = Repository::prepare(Some(b"/srv/repo".to_vec()), Some(b"/w\0t".to_vec()));
    assert!(matches!(r, Err(RepoInitError::Nul)));
}

#[test]
fn unrepresentable_path_fails_with_encoding() {
    let r = Repository::prepare(None, Some(b"/wt".to_vec()));
    assert!(matches!(r, Err(RepoInitError::Encoding)));
    let r = Repository::prepare(Some(b"/srv/repo".to_vec()), None);
    assert!(matches!(r, Err(RepoInitError::Encoding)));
}

#[test]
fn native_status_translates_to_errno() {
    let r = Repository::complete(-1, 13);
    assert!(matches!(r, Err(RepoInitError::Errno(13))));
    assert!(Repository::complete(0, 0).is_ok());
}
